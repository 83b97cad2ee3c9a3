//! The dynamic-update protocol: how a request to the update endpoint is
//! built, how its reply is classified, and how long to wait before retrying.
use vstd::prelude::*;
use vstd::utf8::encode_utf8;
use base64::Engine;

use crate::text::{
    chars_of, decimal_i32, join_strings, join_with, push_all, range_equals, range_starts_with,
    signed_decimal, string_from, string_of, trim_end, trim_end_at, is_white_space,
    lemma_trim_end_append_white,
};

verus! {

/// The No-IP dynamic update endpoint.
pub const UPDATE_URL: &'static str = "https://dynupdate.no-ip.com/nic/update";

/// Two weeks, in seconds: the wait after an answer that disables the client.
pub const FOREVER: u64 = 14 * 24 * 60 * 60;

/// A span of time: whole seconds plus a nanosecond part.
#[derive(Clone, Copy, Debug, PartialEq, Eq, Structural)]
pub struct Interval {
    pub secs: u64,
    pub nanos: u32,
}

impl Interval {
    pub open spec fn wf(self) -> bool {
        self.nanos < 1_000_000_000
    }

    /// The span of `secs` whole seconds.
    pub fn from_secs(secs: u64) -> (r: Interval)
        ensures
            r == (Interval { secs, nanos: 0 }),
            r.wf(),
    {
        Interval { secs, nanos: 0 }
    }

    /// The span of `secs` seconds and `nanos` nanoseconds.
    pub fn new(secs: u64, nanos: u32) -> (r: Interval)
        requires
            nanos < 1_000_000_000,
        ensures
            r == (Interval { secs, nanos }),
            r.wf(),
    {
        Interval { secs, nanos }
    }

    /// The span in nanoseconds.
    pub open spec fn total_nanos(self) -> int {
        self.secs * 1_000_000_000 + self.nanos
    }
}

/// Why an update did not go through.
#[derive(Clone, Debug)]
pub enum UpdateError {
    NoHost,
    BadAuth,
    BadAgent,
    NotDonator,
    Abuse,
    NineOneOne,
    Unknown(String),
    StatusCode(i32, String),
    Connection(String),
}

/// The seconds added to the base interval before retry number `retry`.
pub open spec fn retry_delay_secs(retry: u8) -> u64 {
    if retry <= 1 {
        0
    } else if retry == 2 {
        300
    } else if retry == 3 {
        600
    } else if retry == 4 {
        3600
    } else {
        86400
    }
}

impl UpdateError {
    /// The answers that disable the client until the user steps in.
    pub open spec fn is_permanent(self) -> bool {
        match self {
            UpdateError::NoHost | UpdateError::BadAuth | UpdateError::BadAgent
            | UpdateError::NotDonator | UpdateError::Abuse => true,
            _ => false,
        }
    }

    /// The wait before the next attempt.
    pub open spec fn backoff(self, retry: u8, base: Interval) -> Interval {
        if self.is_permanent() {
            Interval { secs: FOREVER, nanos: 0 }
        } else {
            Interval { secs: (base.secs + retry_delay_secs(retry)) as u64, nanos: base.nanos }
        }
    }

    /// How long to wait before retrying after this error. A "disable" kind of
    /// answer waits two weeks, so that a process manager does not restart the
    /// client in a loop; any other error waits the base interval plus a delay
    /// that grows with the number of retries.
    pub fn retry_backoff(&self, retry: u8, base_interval: Interval) -> (d: Interval)
        requires
            !self.is_permanent() ==> base_interval.secs + retry_delay_secs(retry) <= u64::MAX,
        ensures
            d == self.backoff(retry, base_interval),
            (self is NoHost || self is BadAuth || self is BadAgent || self is NotDonator
                || self is Abuse) ==> d == (Interval { secs: FOREVER, nanos: 0 }),
            (self is NineOneOne || self is Unknown || self is StatusCode || self is Connection)
                ==> d.secs == base_interval.secs + retry_delay_secs(retry) && d.nanos
                == base_interval.nanos,
            (self is NineOneOne || self is Unknown || self is StatusCode || self is Connection)
                && retry <= 1 ==> d == base_interval,
    {
        match self {
            UpdateError::NoHost | UpdateError::BadAuth | UpdateError::BadAgent
            | UpdateError::NotDonator | UpdateError::Abuse => Interval::from_secs(FOREVER),
            _ => {
                let extra: u64 = if retry <= 1 {
                    0
                } else if retry == 2 {
                    300
                } else if retry == 3 {
                    600
                } else if retry == 4 {
                    3600
                } else {
                    24 * 60 * 60
                };
                Interval { secs: base_interval.secs + extra, nanos: base_interval.nanos }
            },
        }
    }

    /// The text shown for this error.
    pub open spec fn message_text(self) -> Seq<char> {
        match self {
            UpdateError::NoHost =>
                "No host or group was specified. Please create a group with a password to update at https://my.noip.com/dynamic-dns/groups"@,
            UpdateError::BadAuth => "Incorrect credentials"@,
            UpdateError::BadAgent => "Client disabled, client must not perform further updates"@,
            UpdateError::NotDonator => "This feature is not available for you account"@,
            UpdateError::Abuse => "Client rejected due to abuse"@,
            UpdateError::NineOneOne => "System outage, please wait longer than usual to try again"@,
            UpdateError::Unknown(m) => "unknown error, received '"@ + m@ + "'"@,
            UpdateError::StatusCode(c, r) => "HTTP error "@ + signed_decimal(c as int) + " "@
                + r@,
            UpdateError::Connection(m) => "Connection failed, "@ + m@,
        }
    }

    /// The text shown for this error.
    pub fn message(&self) -> (s: String)
        ensures
            s@ == self.message_text(),
    {
        match self {
            UpdateError::NoHost => string_from(
                "No host or group was specified. Please create a group with a password to update at https://my.noip.com/dynamic-dns/groups",
            ),
            UpdateError::BadAuth => string_from("Incorrect credentials"),
            UpdateError::BadAgent => string_from(
                "Client disabled, client must not perform further updates",
            ),
            UpdateError::NotDonator => string_from(
                "This feature is not available for you account",
            ),
            UpdateError::Abuse => string_from("Client rejected due to abuse"),
            UpdateError::NineOneOne => string_from(
                "System outage, please wait longer than usual to try again",
            ),
            UpdateError::Unknown(m) => {
                let mut s = string_from("unknown error, received '");
                push_all(&mut s, m.as_str());
                push_all(&mut s, "'");
                s
            },
            UpdateError::StatusCode(c, r) => {
                let mut s = string_from("HTTP error ");
                let code = decimal_i32(*c);
                push_all(&mut s, code.as_str());
                push_all(&mut s, " ");
                push_all(&mut s, r.as_str());
                s
            },
            UpdateError::Connection(m) => {
                let mut s = string_from("Connection failed, ");
                push_all(&mut s, m.as_str());
                s
            },
        }
    }
}

/// Whether `res` is what the update endpoint's answer means: HTTP 401 is bad
/// credentials whatever the body; another status but 200 is an HTTP error
/// carrying the status and its reason; on 200 the body, without trailing
/// white space, is classified by the documented response codes.
pub open spec fn response_outcome(
    status: i32,
    reason: Seq<char>,
    body: Seq<char>,
    res: Result<bool, UpdateError>,
) -> bool {
    if status == 401 {
        res matches Err(UpdateError::BadAuth)
    } else if status != 200 {
        res matches Err(UpdateError::StatusCode(c, r)) && c == status && r@ == reason
    } else {
        let t = trim_end(body);
        if "good "@.is_prefix_of(t) {
            res matches Ok(true)
        } else if "nochg "@.is_prefix_of(t) {
            res matches Ok(false)
        } else if t == "nohost"@ {
            res matches Err(UpdateError::NoHost)
        } else if t == "badauth"@ {
            res matches Err(UpdateError::BadAuth)
        } else if t == "badagent"@ {
            res matches Err(UpdateError::BadAgent)
        } else if t == "!donator"@ {
            res matches Err(UpdateError::NotDonator)
        } else if t == "abuse"@ {
            res matches Err(UpdateError::Abuse)
        } else if t == "911"@ {
            res matches Err(UpdateError::NineOneOne)
        } else {
            res matches Err(UpdateError::Unknown(m)) && m@ == t
        }
    }
}

/// Maps an answer of the update endpoint to whether the address changed
/// (`Ok(true)`), was already current (`Ok(false)`), or why it failed.
pub fn parse_response(status: i32, reason: &str, body: &str) -> (res: Result<bool, UpdateError>)
    ensures
        response_outcome(status, reason@, body@, res),
        status == 401 ==> res matches Err(UpdateError::BadAuth),
        status != 200 && status != 401 ==> (res matches Err(UpdateError::StatusCode(c, r)) && c
            == status && r@ == reason@),
{
    if status == 401 {
        return Err(UpdateError::BadAuth);
    }
    if status != 200 {
        return Err(UpdateError::StatusCode(status, string_from(reason)));
    }
    let v = chars_of(body);
    let len = v.len();
    assert(v@.subrange(0, len as int) =~= v@);
    let n = trim_end_at(&v, 0, len);
    if range_starts_with(&v, 0, n, "good ") {
        Ok(true)
    } else if range_starts_with(&v, 0, n, "nochg ") {
        Ok(false)
    } else if range_equals(&v, 0, n, "nohost") {
        Err(UpdateError::NoHost)
    } else if range_equals(&v, 0, n, "badauth") {
        Err(UpdateError::BadAuth)
    } else if range_equals(&v, 0, n, "badagent") {
        Err(UpdateError::BadAgent)
    } else if range_equals(&v, 0, n, "!donator") {
        Err(UpdateError::NotDonator)
    } else if range_equals(&v, 0, n, "abuse") {
        Err(UpdateError::Abuse)
    } else if range_equals(&v, 0, n, "911") {
        Err(UpdateError::NineOneOne)
    } else {
        Err(UpdateError::Unknown(string_of(&v, 0, n)))
    }
}

/// Only 401 means bad credentials: any other status but 200, whatever the
/// reason phrase and body, is an HTTP error carrying that status and reason.
pub proof fn law_other_statuses_are_http_errors(
    status: i32,
    reason: Seq<char>,
    body: Seq<char>,
    res: Result<bool, UpdateError>,
)
    requires
        status != 200,
        status != 401,
        response_outcome(status, reason, body, res),
    ensures
        res matches Err(UpdateError::StatusCode(c, r)) && c == status && r@ == reason,
        !(res matches Err(UpdateError::BadAuth)),
{
}

/// The answers that disable the client (no host, bad credentials, bad
/// agent, not a donator, abuse) wait two weeks.
pub proof fn law_disabling_answers_wait_two_weeks(e: UpdateError, retry: u8, base: Interval)
    requires
        e is NoHost || e is BadAuth || e is BadAgent || e is NotDonator || e is Abuse,
    ensures
        e.backoff(retry, base) == (Interval { secs: 1_209_600u64, nanos: 0 }),
{
}

/// An outage, an unknown answer, an HTTP error or a failed connection is
/// transient: the wait is the base interval at the first two attempts, then
/// five minutes, ten minutes, an hour, and a day more than it.
pub proof fn law_transient_errors_wait_the_base(e: UpdateError, retry: u8, base: Interval)
    requires
        e is NineOneOne || e is Unknown || e is StatusCode || e is Connection,
        base.secs + 86400 <= u64::MAX,
    ensures
        e.backoff(retry, base).nanos == base.nanos,
        retry <= 1 ==> e.backoff(retry, base) == base,
        retry == 2 ==> e.backoff(retry, base).secs == base.secs + 300,
        retry == 3 ==> e.backoff(retry, base).secs == base.secs + 600,
        retry == 4 ==> e.backoff(retry, base).secs == base.secs + 3600,
        retry >= 5 ==> e.backoff(retry, base).secs == base.secs + 86400,
        e.backoff(retry, base).secs < FOREVER + base.secs,
{
}

/// Trailing white space in the body of an answer does not change its meaning.
pub proof fn law_trailing_white_space_ignored(
    status: i32,
    reason: Seq<char>,
    body: Seq<char>,
    white: Seq<char>,
    res: Result<bool, UpdateError>,
)
    requires
        forall|i: int| 0 <= i < white.len() ==> is_white_space(#[trigger] white[i]),
    ensures
        response_outcome(status, reason, body + white, res) == response_outcome(
            status,
            reason,
            body,
            res,
        ),
{
    lemma_trim_end_append_white(body, white);
}

/// HTTP 401 means bad credentials, whatever the reason phrase and body.
pub proof fn law_unauthorized_is_bad_auth(
    reason: Seq<char>,
    body: Seq<char>,
    res: Result<bool, UpdateError>,
)
    requires
        response_outcome(401, reason, body, res),
    ensures
        res matches Err(UpdateError::BadAuth),
{
}

/// An answer that disables the client waits two weeks, whatever the retry
/// count and base interval.
pub proof fn law_permanent_errors_wait_forever(e: UpdateError, retry: u8, base: Interval)
    requires
        e.is_permanent(),
    ensures
        e.backoff(retry, base) == (Interval { secs: FOREVER, nanos: 0 }),
{
}

/// For any other error the wait starts at the base interval and never
/// shrinks as retries accumulate, staying within a day of the base.
pub proof fn law_transient_backoff_grows(
    e: UpdateError,
    r1: u8,
    r2: u8,
    base: Interval,
)
    requires
        !e.is_permanent(),
        r1 <= r2,
        base.secs + 86400 <= u64::MAX,
    ensures
        r1 <= 1 ==> e.backoff(r1, base) == base,
        e.backoff(r1, base).secs <= e.backoff(r2, base).secs,
        e.backoff(r2, base).secs <= base.secs + 86400,
        e.backoff(r1, base).nanos == base.nanos,
{
}

// ---------------------------------------------------------------------------
// Building the request
// ---------------------------------------------------------------------------

/// The username with every `:` written as `%3A`, which the update endpoint
/// decodes, so that the first `:` of the Basic credentials ends the username.
pub open spec fn escape_colons(s: Seq<char>) -> Seq<char>
    decreases s.len(),
{
    if s.len() == 0 {
        Seq::empty()
    } else if s.last() == ':' {
        escape_colons(s.drop_last()) + seq!['%', '3', 'A']
    } else {
        escape_colons(s.drop_last()).push(s.last())
    }
}

/// The username as sent in the Basic credentials.
pub fn encode_username(username: &str) -> (s: String)
    ensures
        s@ == escape_colons(username@),
{
    let v = chars_of(username);
    let mut s = String::new();
    let mut k: usize = 0;
    while k < v.len()
        invariant
            0 <= k <= v@.len(),
            v@ == username@,
            s@ == escape_colons(v@.take(k as int)),
        decreases v@.len() - k,
    {
        assert(v@.take(k + 1 as int).drop_last() =~= v@.take(k as int));
        if v[k] == ':' {
            s.push('%');
            s.push('3');
            s.push('A');
            assert(s@ =~= escape_colons(v@.take(k as int)) + seq!['%', '3', 'A']);
        } else {
            s.push(v[k]);
        }
        k = k + 1;
    }
    assert(v@.take(k as int) =~= v@);
    s
}

proof fn lemma_escape_colons_free(s: Seq<char>)
    ensures
        forall|i: int| 0 <= i < escape_colons(s).len() ==> #[trigger] escape_colons(s)[i] != ':',
    decreases s.len(),
{
    if s.len() > 0 {
        lemma_escape_colons_free(s.drop_last());
        let e = escape_colons(s.drop_last());
        assert forall|i: int| 0 <= i < escape_colons(s).len() implies #[trigger] escape_colons(
            s,
        )[i] != ':' by {
            if i < e.len() {
                assert(escape_colons(s)[i] == e[i]);
            }
        }
    }
}

/// The first `:` of the Basic credentials comes right after the username, so
/// the endpoint reads back exactly the escaped username and the password.
pub proof fn law_credentials_split_at_first_colon(username: Seq<char>, password: Seq<char>)
    ensures
        ({
            let e = escape_colons(username);
            let c = credential_text(username, password);
            &&& c[e.len() as int] == ':'
            &&& forall|i: int| 0 <= i < e.len() ==> #[trigger] c[i] != ':'
            &&& c.take(e.len() as int) == e
            &&& c.skip(e.len() as int + 1) == password
        }),
{
    let e = escape_colons(username);
    let c = credential_text(username, password);
    lemma_escape_colons_free(username);
    assert forall|i: int| 0 <= i < e.len() implies #[trigger] c[i] != ':' by {
        assert(c[i] == e[i]);
    }
    assert(c.take(e.len() as int) =~= e);
    assert(c.skip(e.len() as int + 1) =~= password);
}

/// The text that is base64-encoded into the Basic credentials.
pub open spec fn credential_text(username: Seq<char>, password: Seq<char>) -> Seq<char> {
    escape_colons(username) + seq![':'] + password
}

/// Whether a byte is written as `%XX` in a query: every non-ASCII byte, the
/// C0 controls, DEL, space, `"`, `#`, `<` and `>`.
pub open spec fn in_query_set(b: u8) -> bool {
    b >= 0x80 || b < 0x20 || b == 0x7f || b == 0x20 || b == 0x22 || b == 0x23 || b == 0x3c || b
        == 0x3e
}

pub open spec fn hex_upper(d: int) -> char {
    if d < 10 {
        (48 + d) as char
    } else {
        (55 + d) as char
    }
}

/// `%` and the two upper-case hex digits of a byte.
pub open spec fn percent_triplet(b: u8) -> Seq<char> {
    seq!['%', hex_upper(b as int / 16), hex_upper(b as int % 16)]
}

/// Percent-encoding of UTF-8 bytes for a URL query.
pub open spec fn query_encode(bytes: Seq<u8>) -> Seq<char>
    decreases bytes.len(),
{
    if bytes.len() == 0 {
        Seq::empty()
    } else if in_query_set(bytes.last()) {
        query_encode(bytes.drop_last()) + percent_triplet(bytes.last())
    } else {
        query_encode(bytes.drop_last()).push(bytes.last() as char)
    }
}

/// `percent_encoding::percent_encode_byte`: the `%XX` text of a byte, with
/// upper-case hex digits (the crate reads it from a fixed table).
#[verifier::external_body]
fn percent_byte(b: u8) -> (s: &'static str)
    ensures
        s@ == percent_triplet(b),
{
    percent_encoding::percent_encode_byte(b)
}

/// The UTF-8 bytes of `s`, percent-encoded for a query.
pub fn query_encode_str(s: &str) -> (out: String)
    ensures
        out@ == query_encode(encode_utf8(s@)),
{
    let bytes = s.as_bytes();
    let mut out = String::new();
    let mut k: usize = 0;
    while k < bytes.len()
        invariant
            0 <= k <= bytes@.len(),
            bytes@ == encode_utf8(s@),
            out@ == query_encode(bytes@.take(k as int)),
        decreases bytes@.len() - k,
    {
        let b = bytes[k];
        assert(bytes@.take(k + 1 as int).drop_last() =~= bytes@.take(k as int));
        if b >= 0x80 || b < 0x20 || b == 0x7f || b == 0x20 || b == 0x22 || b == 0x23 || b == 0x3c
            || b == 0x3e {
            push_all(&mut out, percent_byte(b));
        } else {
            out.push(b as char);
        }
        k = k + 1;
    }
    assert(bytes@.take(k as int) =~= bytes@);
    out
}

/// Characters of the standard base64 alphabet.
pub open spec fn base64_char(i: int) -> char {
    if i < 26 {
        (65 + i) as char
    } else if i < 52 {
        (71 + i) as char
    } else if i < 62 {
        (i - 4) as char
    } else if i == 62 {
        '+'
    } else {
        '/'
    }
}

/// Standard base64 with `=` padding: every three bytes become four
/// characters; a final one or two bytes become four characters ending in
/// `==` or `=`.
pub open spec fn base64_standard(b: Seq<u8>) -> Seq<char>
    decreases b.len(),
{
    if b.len() == 0 {
        Seq::empty()
    } else {
        let b0 = b[0] as int;
        let b1 = if b.len() > 1 { b[1] as int } else { 0 };
        let b2 = if b.len() > 2 { b[2] as int } else { 0 };
        if b.len() == 1 {
            seq![base64_char(b0 / 4), base64_char((b0 % 4) * 16), '=', '=']
        } else if b.len() == 2 {
            seq![
                base64_char(b0 / 4),
                base64_char((b0 % 4) * 16 + b1 / 16),
                base64_char((b1 % 16) * 4),
                '=',
            ]
        } else {
            seq![
                base64_char(b0 / 4),
                base64_char((b0 % 4) * 16 + b1 / 16),
                base64_char((b1 % 16) * 4 + b2 / 64),
                base64_char(b2 % 64),
            ] + base64_standard(b.skip(3))
        }
    }
}

/// The length of the padded base64 text of `n` bytes.
pub open spec fn base64_len(n: nat) -> nat {
    ((n + 2) / 3) * 4
}

/// `base64::engine::general_purpose::STANDARD.encode`: the padded standard
/// base64 text of the UTF-8 bytes of `text`. The crate panics when that text
/// would not fit in memory.
#[verifier::external_body]
fn base64_encode(text: &str) -> (s: String)
    requires
        base64_len(encode_utf8(text@).len()) <= isize::MAX,
    ensures
        s@ == base64_standard(encode_utf8(text@)),
{
    base64::engine::general_purpose::STANDARD.encode(text)
}

/// The URL of an update request.
pub open spec fn update_url(ip: Seq<char>, hostnames: Option<Seq<Seq<char>>>) -> Seq<char> {
    match hostnames {
        Some(h) => UPDATE_URL@ + "?myip="@ + query_encode(encode_utf8(ip)) + "&hostname="@
            + query_encode(encode_utf8(join_with(h, seq![',']))),
        None => UPDATE_URL@ + "?myip="@ + query_encode(encode_utf8(ip)),
    }
}

/// The `Authorization` header of an update request.
pub open spec fn authorization_value(username: Seq<char>, password: Seq<char>) -> Seq<char> {
    "Basic "@ + base64_standard(encode_utf8(credential_text(username, password)))
}

/// What an update request sends besides the user agent.
pub struct UpdateRequest {
    pub url: String,
    pub authorization: String,
}

/// The request that sets the hostnames (all of the account's, when `None`)
/// to the address whose text is `ip`.
pub fn update_request(
    username: &str,
    password: &str,
    hostnames: Option<&Vec<String>>,
    ip: &str,
) -> (r: UpdateRequest)
    requires
        base64_len(encode_utf8(credential_text(username@, password@)).len()) <= isize::MAX,
    ensures
        r.url@ == update_url(
            ip@,
            match hostnames {
                Some(h) => Some(h@.map_values(|s: String| s@)),
                None => None,
            },
        ),
        r.authorization@ == authorization_value(username@, password@),
{
    let mut url = string_from(UPDATE_URL);
    push_all(&mut url, "?myip=");
    let ip_q = query_encode_str(ip);
    push_all(&mut url, ip_q.as_str());
    match hostnames {
        Some(h) => {
            push_all(&mut url, "&hostname=");
            let joined = join_strings(h, ",");
            let h_q = query_encode_str(joined.as_str());
            push_all(&mut url, h_q.as_str());
            proof {
                reveal_strlit(",");
                assert(","@ =~= seq![',']);
            }
            assert(url@ =~= UPDATE_URL@ + "?myip="@ + query_encode(encode_utf8(ip@))
                + "&hostname="@ + query_encode(
                encode_utf8(join_with(h@.map_values(|s: String| s@), seq![','])),
            ));
        },
        None => {
            assert(url@ =~= UPDATE_URL@ + "?myip="@ + query_encode(encode_utf8(ip@)));
        },
    }
    let mut creds = encode_username(username);
    push_all(&mut creds, ":");
    push_all(&mut creds, password);
    proof {
        reveal_strlit(":");
    }
    assert(creds@ =~= credential_text(username@, password@));
    let encoded = base64_encode(creds.as_str());
    let mut authorization = string_from("Basic ");
    push_all(&mut authorization, encoded.as_str());
    UpdateRequest { url, authorization }
}

} // verus!
