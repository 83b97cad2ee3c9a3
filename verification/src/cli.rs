//! The decisions of the command line client: its log level, the intervals it
//! accepts, and how it reads a duration.
use vstd::prelude::*;

use crate::text::{chars_of, string_from};
use crate::update::Interval;

verus! {

/// The shortest check interval the client accepts, in seconds.
pub const MIN_CHECK_INTERVAL_SECS: u64 = 120;

/// How much the client logs.
#[derive(Clone, Copy, Debug, PartialEq, Eq, Structural)]
pub enum LogLevel {
    Trace,
    Debug,
    Info,
    Warn,
    Error,
    Critical,
}

impl LogLevel {
    /// The name of the level, as the logger's filter reads it.
    pub open spec fn name(self) -> Seq<char> {
        match self {
            LogLevel::Trace => "trace"@,
            LogLevel::Debug => "debug"@,
            LogLevel::Info => "info"@,
            LogLevel::Warn => "warn"@,
            LogLevel::Error => "error"@,
            LogLevel::Critical => "critical"@,
        }
    }

    /// The name of the level, as the logger's filter reads it.
    pub fn as_str(&self) -> (s: &'static str)
        ensures
            s@ == self.name(),
    {
        match self {
            LogLevel::Trace => "trace",
            LogLevel::Debug => "debug",
            LogLevel::Info => "info",
            LogLevel::Warn => "warn",
            LogLevel::Error => "error",
            LogLevel::Critical => "critical",
        }
    }
}

/// The level in effect: the one asked for, or else one from the number of
/// `--verbose` flags: none is info, one is debug, more is trace.
pub open spec fn chosen_log_level(explicit: Option<LogLevel>, verbose: u8) -> LogLevel {
    match explicit {
        Some(l) => l,
        None => if verbose == 0 {
            LogLevel::Info
        } else if verbose == 1 {
            LogLevel::Debug
        } else {
            LogLevel::Trace
        },
    }
}

/// The level in effect.
pub fn effective_log_level(explicit: Option<LogLevel>, verbose: u8) -> (l: LogLevel)
    ensures
        l == chosen_log_level(explicit, verbose),
{
    match explicit {
        Some(l) => l,
        None => if verbose == 0 {
            LogLevel::Info
        } else if verbose == 1 {
            LogLevel::Debug
        } else {
            LogLevel::Trace
        },
    }
}

/// Whether the client accepts this check interval: two minutes or more.
pub fn check_interval_allowed(interval: Interval) -> (b: bool)
    ensures
        b == (interval.secs >= MIN_CHECK_INTERVAL_SECS),
        interval.wf() ==> (b == (interval.total_nanos() >= MIN_CHECK_INTERVAL_SECS
            * 1_000_000_000)),
{
    interval.secs >= MIN_CHECK_INTERVAL_SECS
}

/// What `humantime::parse_duration` gives for a text: the duration, or the
/// text of its error.
pub uninterp spec fn humantime_duration(text: Seq<char>) -> Result<Interval, Seq<char>>;

/// The most the numbers of a duration text may add up to (each counted one
/// more than its value) for it to be read.
pub const MAX_DURATION_NUMBERS: u64 = 500_000_000_000;

/// What `humantime` says of a number it cannot represent; also the answer
/// to a duration text whose numbers add up past `MAX_DURATION_NUMBERS`.
pub const DURATION_TOO_LARGE: &'static str =
    "number is too large or cannot be represented without a lack of precision (values below 1ns are not supported)";

/// Whether `c` is an ASCII digit.
pub open spec fn is_digit(c: char) -> bool {
    '0' <= c <= '9'
}

/// Whether `c` ends a number of a duration text: an ASCII letter, `µ`
/// (both start a unit) or `.` (starts a fraction).
pub open spec fn ends_number(c: char) -> bool {
    ('a' <= c <= 'z') || ('A' <= c <= 'Z') || c == '\u{b5}' || c == '.'
}

/// The numbers written in `s`, each counted one more than its value, added
/// up. A number is a run of ASCII digits that only a letter, `µ` or `.`
/// ends: digits after white space (or any other character) go on the
/// number under way, as `humantime` reads them. `run` is the value of a
/// number under way before `s`.
pub open spec fn numbers_weight(s: Seq<char>, run: Option<nat>) -> nat
    decreases s.len(),
{
    let closing: nat = match run {
        Some(v) => v + 1,
        None => 0,
    };
    if s.len() == 0 {
        closing
    } else if is_digit(s[0]) {
        let before: nat = match run {
            Some(v) => v,
            None => 0,
        };
        numbers_weight(s.drop_first(), Some(before * 10 + (s[0] as nat - '0' as nat) as nat))
    } else if ends_number(s[0]) {
        closing + numbers_weight(s.drop_first(), None)
    } else {
        numbers_weight(s.drop_first(), run)
    }
}

/// A duration text whose numbers add up to at most `MAX_DURATION_NUMBERS`
/// (each counted one more than its value).
pub open spec fn duration_text_bounded(s: Seq<char>) -> bool {
    numbers_weight(s, None) <= MAX_DURATION_NUMBERS
}

proof fn lemma_run_weight(s: Seq<char>, v: nat)
    ensures
        numbers_weight(s, Some(v)) >= v + 1,
    decreases s.len(),
{
    if s.len() > 0 && is_digit(s[0]) {
        lemma_run_weight(s.drop_first(), v * 10 + (s[0] as nat - '0' as nat) as nat);
    } else if s.len() > 0 && !ends_number(s[0]) {
        lemma_run_weight(s.drop_first(), v);
    }
}

/// Whether the numbers of a duration text add up to at most
/// `MAX_DURATION_NUMBERS`, each counted one more than its value.
pub fn duration_in_range(s: &str) -> (b: bool)
    ensures
        b == duration_text_bounded(s@),
{
    let cs = chars_of(s);
    let n = cs.len();
    let mut total: u64 = 0;
    let mut in_run = false;
    let mut cur: u64 = 0;
    let mut k: usize = 0;
    assert(s@.skip(0) =~= s@);
    while k < n
        invariant
            0 <= k <= n,
            n == cs@.len(),
            cs@ == s@,
            numbers_weight(s@, None) == total + numbers_weight(
                s@.skip(k as int),
                if in_run {
                    Some(cur as nat)
                } else {
                    None
                },
            ),
            total + (if in_run {
                cur + 1
            } else {
                0
            }) <= MAX_DURATION_NUMBERS,
            !in_run ==> cur == 0,
        decreases n - k,
    {
        let c = cs[k];
        assert(s@.skip(k as int)[0] == c);
        assert(s@.skip(k as int).drop_first() =~= s@.skip(k + 1 as int));
        if '0' <= c && c <= '9' {
            let d = (c as u32 - '0' as u32) as u64;
            let next = cur * 10 + d;
            if total + next + 1 > MAX_DURATION_NUMBERS {
                proof {
                    lemma_run_weight(s@.skip(k + 1 as int), next as nat);
                }
                return false;
            }
            cur = next;
            in_run = true;
        } else if ('a' <= c && c <= 'z') || ('A' <= c && c <= 'Z') || c == '\u{b5}' || c == '.' {
            if in_run {
                total = total + cur + 1;
            }
            in_run = false;
            cur = 0;
        }
        k = k + 1;
    }
    proof {
        assert(s@.skip(k as int).len() == 0);
    }
    true
}

/// `humantime::parse_duration`: reads durations such as `5m` or `2h 37min`.
/// What it gives is named by `humantime_duration`; of the result, only that
/// the nanosecond part is under a second is stated. The crate panics
/// (`Duration::new` overflowing) when a running total reaches the largest
/// number of seconds with a whole second of nanoseconds to carry. Every
/// integer part and every fraction the crate reads (it joins digits across
/// white space) is at most a number counted by `numbers_weight`, which
/// only ends a number at a letter, `µ` or `.`. A text bounded as
/// `duration_text_bounded` says thus keeps every total under
/// 1.6 * 10^19 seconds, below that largest number (about 1.8 * 10^19),
/// since no unit is longer than 31 557 600 seconds and each fraction adds
/// less than its unit; so the `requires` leaves every such text out.
#[verifier::external_body]
fn humantime_parse(text: &str) -> (r: Result<Interval, String>)
    requires
        duration_text_bounded(text@),
    ensures
        match r {
            Ok(i) => humantime_duration(text@) == Ok::<Interval, Seq<char>>(i) && i.wf(),
            Err(m) => humantime_duration(text@) == Err::<Interval, Seq<char>>(m@),
        },
{
    match humantime::parse_duration(text) {
        Ok(d) => Ok(Interval { secs: d.as_secs(), nanos: d.subsec_nanos() }),
        Err(e) => Err(e.to_string()),
    }
}

/// Reads a duration argument such as `5m` or `10s`; an unreadable one gives
/// the text of the error. A text whose numbers add up past
/// `MAX_DURATION_NUMBERS` (durations of some fifteen thousand years and
/// more) is refused as too large.
pub fn parse_duration_arg(s: &str) -> (r: Result<Interval, String>)
    ensures
        !duration_text_bounded(s@) ==> (r matches Err(m) && m@ == DURATION_TOO_LARGE@),
        duration_text_bounded(s@) ==> match r {
            Ok(i) => humantime_duration(s@) == Ok::<Interval, Seq<char>>(i) && i.wf(),
            Err(m) => humantime_duration(s@) == Err::<Interval, Seq<char>>(m@),
        },
{
    if !duration_in_range(s) {
        return Err(string_from(DURATION_TOO_LARGE));
    }
    humantime_parse(s)
}

/// Whether every character of `s` is an ASCII digit.
pub open spec fn all_digits(s: Seq<char>) -> bool {
    forall|i: int| 0 <= i < s.len() ==> '0' <= #[trigger] s[i] <= '9'
}

/// The number the ASCII digits `s` write, most significant first.
pub open spec fn digits_value(s: Seq<char>) -> nat
    decreases s.len(),
{
    if s.len() == 0 {
        0
    } else {
        digits_value(s.drop_last()) * 10 + (s.last() as nat - '0' as nat) as nat
    }
}

/// The digits of an unsigned decimal number: the text without a leading
/// `+`, when that leaves at least one digit and nothing else.
pub open spec fn unsigned_digits(s: Seq<char>) -> Option<Seq<char>> {
    let d = if s.len() > 0 && s[0] == '+' {
        s.skip(1)
    } else {
        s
    };
    if d.len() > 0 && all_digits(d) {
        Some(d)
    } else {
        None
    }
}

/// What `str::parse::<u32>` reads: an optional `+` and ASCII digits whose
/// number fits in 32 bits.
pub open spec fn u32_text_value(s: Seq<char>) -> Option<u32> {
    match unsigned_digits(s) {
        Some(d) => if digits_value(d) <= u32::MAX {
            Some(digits_value(d) as u32)
        } else {
            None
        },
        None => None,
    }
}

proof fn lemma_digits_value_grows(s: Seq<char>, i: int)
    requires
        0 <= i <= s.len(),
        all_digits(s),
    ensures
        digits_value(s.take(i)) <= digits_value(s),
    decreases s.len() - i,
{
    if i < s.len() {
        lemma_digits_value_grows(s, i + 1);
        assert(s.take(i + 1).drop_last() =~= s.take(i));
    } else {
        assert(s.take(i) =~= s);
    }
}

/// Who the background process runs as, given on the command line: a number
/// is an id, anything else a name.
#[derive(Clone, Debug, PartialEq, Eq)]
pub enum DaemonId {
    Id(u32),
    Name(String),
}

/// Reads a `--daemon-user` or `--daemon-group` value: the id when the text
/// reads as a `u32`, otherwise the name as given.
pub fn daemon_id(s: &str) -> (r: DaemonId)
    ensures
        match u32_text_value(s@) {
            Some(v) => r == DaemonId::Id(v),
            None => r matches DaemonId::Name(n) && n@ == s@,
        },
{
    let cs = chars_of(s);
    let n = cs.len();
    let start: usize = if n > 0 && cs[0] == '+' {
        1
    } else {
        0
    };
    let ghost d = if s@.len() > 0 && s@[0] == '+' {
        s@.skip(1)
    } else {
        s@
    };
    assert(d =~= s@.skip(start as int));
    if start >= n {
        assert(d.len() == 0);
        return DaemonId::Name(string_from(s));
    }
    let mut acc: u64 = 0;
    let mut k: usize = start;
    while k < n
        invariant
            start <= k <= n,
            n == cs@.len(),
            cs@ == s@,
            d =~= s@.skip(start as int),
            d.len() > 0,
            unsigned_digits(s@) == if all_digits(d) {
                Some(d)
            } else {
                None::<Seq<char>>
            },
            all_digits(d.take(k - start)),
            acc == digits_value(d.take(k - start)),
            acc <= u32::MAX,
        decreases n - k,
    {
        let c = cs[k];
        if !('0' <= c && c <= '9') {
            proof {
                assert(d[k - start] == c);
                assert(!all_digits(d));
                assert(unsigned_digits(s@) is None);
            }
            return DaemonId::Name(string_from(s));
        }
        let digit = (c as u32 - '0' as u32) as u64;
        proof {
            assert(d.take(k - start + 1).drop_last() =~= d.take(k - start));
            assert(d.take(k - start + 1).last() == c);
            assert(all_digits(d.take(k - start + 1))) by {
                assert forall|i: int| 0 <= i < k - start + 1 implies '0' <= #[trigger] d.take(
                    k - start + 1,
                )[i] <= '9' by {
                    if i < k - start {
                        assert(d.take(k - start + 1)[i] == d.take(k - start)[i]);
                    }
                }
            }
        }
        let next = acc * 10 + digit;
        assert(next == digits_value(d.take(k - start + 1)));
        if next > 0xffff_ffff {
            proof {
                if all_digits(d) {
                    lemma_digits_value_grows(d, k - start + 1);
                    assert(unsigned_digits(s@) == Some(d));
                } else {
                    assert(unsigned_digits(s@) is None);
                }
            }
            return DaemonId::Name(string_from(s));
        }
        acc = next;
        k = k + 1;
    }
    assert(d.take(n - start) =~= d);
    DaemonId::Id(acc as u32)
}

} // verus!
