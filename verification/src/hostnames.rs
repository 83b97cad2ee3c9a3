//! Validation of the comma separated list of hostnames and group names that
//! the client is told to update.
use vstd::prelude::*;
use vstd::utf8::encode_utf8;

use crate::text::{
    ascii_alnum, chars_of, is_ascii_alnum, join_with, lemma_split_join, lemma_split_on_pieces_free,
    lemma_trim_end_shape, lemma_trim_start_shape, push_all, split_on, split_ranges, string_from,
    string_of, trim, trim_at, trim_end, trim_start,
};

verus! {

/// A DNS label of an A or AAAA record: letters, digits and hyphens, not
/// empty, neither starting nor ending with a hyphen.
pub open spec fn is_label_text(s: Seq<char>) -> bool {
    &&& forall|i: int| 0 <= i < s.len() ==> is_ascii_alnum(#[trigger] s[i]) || s[i] == '-'
    &&& s.len() > 0
    &&& s[0] != '-'
    &&& s.last() != '-'
}

/// A round-robin label, the part after `@`: letters, digits, hyphens and
/// underscores, not empty, not starting with a hyphen.
pub open spec fn is_rr_label_text(s: Seq<char>) -> bool {
    &&& forall|i: int|
        0 <= i < s.len() ==> is_ascii_alnum(#[trigger] s[i]) || s[i] == '-' || s[i] == '_'
    &&& s.len() > 0
    &&& s[0] != '-'
}

/// The index of the first `c` in `s`, or -1.
pub open spec fn find_char(s: Seq<char>, c: char) -> int
    decreases s.len(),
{
    if s.len() == 0 {
        -1
    } else if s[0] == c {
        0
    } else {
        let r = find_char(s.drop_first(), c);
        if r < 0 {
            -1
        } else {
            r + 1
        }
    }
}

/// A hostname, optionally followed by `@` and a round-robin label: at most 63
/// dot-separated labels, each a valid label.
pub open spec fn is_hostname_text(h: Seq<char>) -> bool {
    let at = find_char(h, '@');
    let labels = split_on(host_part(h), '.');
    &&& at >= 0 ==> is_rr_label_text(h.skip(at + 1))
    &&& labels.len() <= 63
    &&& forall|i: int| 0 <= i < labels.len() ==> is_label_text(#[trigger] labels[i])
}

/// The part of a hostname before its first `@`, or all of it.
pub open spec fn host_part(h: Seq<char>) -> Seq<char> {
    if find_char(h, '@') >= 0 {
        h.take(find_char(h, '@'))
    } else {
        h
    }
}

/// A group name: letters and digits only.
pub open spec fn is_group_name_text(h: Seq<char>) -> bool {
    forall|i: int| 0 <= i < h.len() ==> is_ascii_alnum(#[trigger] h[i])
}

/// An entry of the list: a group name or a hostname.
pub open spec fn is_entry_ok(h: Seq<char>) -> bool {
    is_group_name_text(h) || is_hostname_text(h)
}

/// The entries of a list: its comma separated pieces, trimmed.
pub open spec fn hostname_entries(s: Seq<char>) -> Seq<Seq<char>> {
    split_on(s, ',').map_values(|p: Seq<char>| trim(p))
}

/// The refusal of an entry that is neither a group nor a hostname.
pub open spec fn invalid_hostname_message(h: Seq<char>) -> Seq<char> {
    "invalid hostname "@ + h
        + ". Hostnames must be a comma separated list of hostnames and group names."@
}

proof fn lemma_find_char_at(s: Seq<char>, c: char, i: int)
    requires
        0 <= i < s.len(),
        s[i] == c,
        forall|j: int| 0 <= j < i ==> s[j] != c,
    ensures
        find_char(s, c) == i,
    decreases i,
{
    if i > 0 {
        let t = s.drop_first();
        assert forall|j: int| 0 <= j < i - 1 implies t[j] != c by {
            assert(t[j] == s[j + 1]);
        }
        lemma_find_char_at(t, c, i - 1);
    }
}

proof fn lemma_find_char_absent(s: Seq<char>, c: char)
    requires
        forall|j: int| 0 <= j < s.len() ==> s[j] != c,
    ensures
        find_char(s, c) == -1,
    decreases s.len(),
{
    if s.len() > 0 {
        let t = s.drop_first();
        assert forall|j: int| 0 <= j < t.len() implies t[j] != c by {
            assert(t[j] == s[j + 1]);
        }
        lemma_find_char_absent(t, c);
    }
}

/// A letter, digit or hyphen of ASCII.
pub open spec fn is_label_char(c: char) -> bool {
    ('0' <= c <= '9') || ('a' <= c <= 'z') || ('A' <= c <= 'Z') || c == '-'
}

/// A text is a label exactly when it is not empty, holds only ASCII
/// letters, digits and hyphens, and neither starts nor ends with a hyphen.
pub proof fn law_labels_are_letters_digits_and_inner_hyphens(s: Seq<char>)
    ensures
        is_label_text(s) <==> (s.len() > 0 && s[0] != '-' && s[s.len() - 1] != '-' && forall|i: int|
            0 <= i < s.len() ==> is_label_char(#[trigger] s[i])),
{
}

proof fn lemma_join_free(pieces: Seq<Seq<char>>, sep: Seq<char>, c: char)
    requires
        forall|i: int, k: int|
            0 <= i < pieces.len() && 0 <= k < pieces[i].len() ==> #[trigger] pieces[i][k] != c,
        forall|k: int| 0 <= k < sep.len() ==> #[trigger] sep[k] != c,
    ensures
        forall|j: int|
            0 <= j < join_with(pieces, sep).len() ==> #[trigger] join_with(pieces, sep)[j] != c,
    decreases pieces.len(),
{
    if pieces.len() == 1 {
        assert forall|j: int| 0 <= j < join_with(pieces, sep).len() implies #[trigger] join_with(
            pieces,
            sep,
        )[j] != c by {
            assert(pieces[0][j] != c);
        }
    } else if pieces.len() > 1 {
        let d = pieces.drop_last();
        assert forall|i: int, k: int| 0 <= i < d.len() && 0 <= k < d[i].len() implies #[trigger] d[i][k]
            != c by {
            assert(d[i] == pieces[i]);
        }
        lemma_join_free(d, sep, c);
        let a = join_with(d, sep);
        let l = pieces[pieces.len() - 1];
        assert(join_with(pieces, sep) == a + sep + l);
        assert forall|j: int| 0 <= j < join_with(pieces, sep).len() implies #[trigger] join_with(
            pieces,
            sep,
        )[j] != c by {
            if j < a.len() {
                assert(join_with(pieces, sep)[j] == a[j]);
            } else if j < a.len() + sep.len() {
                assert(join_with(pieces, sep)[j] == sep[j - a.len()]);
            } else {
                assert(join_with(pieces, sep)[j] == l[j - a.len() - sep.len()]);
                assert(pieces[pieces.len() - 1][j - a.len() - sep.len()] != c);
            }
        }
    }
}

/// Up to 63 labels of ASCII letters, digits and inner hyphens, joined by
/// dots, make a hostname, which the list of hostnames accepts.
pub proof fn law_dotted_labels_are_hostnames(labels: Seq<Seq<char>>)
    requires
        1 <= labels.len() <= 63,
        forall|i: int|
            0 <= i < labels.len() ==> (#[trigger] labels[i]).len() > 0 && labels[i][0] != '-'
                && labels[i][labels[i].len() - 1] != '-',
        forall|i: int, k: int|
            0 <= i < labels.len() && 0 <= k < labels[i].len() ==> is_label_char(
                #[trigger] labels[i][k],
            ),
    ensures
        is_hostname_text(join_with(labels, seq!['.'])),
        is_entry_ok(join_with(labels, seq!['.'])),
{
    let h = join_with(labels, seq!['.']);
    assert forall|i: int, k: int| 0 <= i < labels.len() && 0 <= k < labels[i].len() implies #[trigger] labels[i][k]
        != '.' by {
        assert(is_label_char(labels[i][k]));
    }
    lemma_split_join(labels, '.');
    assert forall|i: int, k: int| 0 <= i < labels.len() && 0 <= k < labels[i].len() implies #[trigger] labels[i][k]
        != '@' by {
        assert(is_label_char(labels[i][k]));
    }
    lemma_join_free(labels, seq!['.'], '@');
    lemma_find_char_absent(h, '@');
    assert(host_part(h) == h);
    assert forall|i: int| 0 <= i < labels.len() implies is_label_text(#[trigger] labels[i]) by {
        assert forall|k: int| 0 <= k < labels[i].len() implies is_ascii_alnum(#[trigger] labels[i][k])
            || labels[i][k] == '-' by {
            assert(is_label_char(labels[i][k]));
        }
    }
}

/// Whether `v[lo..hi]` is a label.
fn label_in(v: &Vec<char>, lo: usize, hi: usize) -> (b: bool)
    requires
        lo <= hi <= v@.len(),
    ensures
        b == is_label_text(v@.subrange(lo as int, hi as int)),
{
    let ghost s = v@.subrange(lo as int, hi as int);
    let mut k = lo;
    while k < hi
        invariant
            lo <= k <= hi <= v@.len(),
            s == v@.subrange(lo as int, hi as int),
            forall|i: int| 0 <= i < k - lo ==> is_ascii_alnum(#[trigger] s[i]) || s[i] == '-',
        decreases hi - k,
    {
        let c = v[k];
        assert(s[k - lo] == c);
        if !(ascii_alnum(c) || c == '-') {
            return false;
        }
        k = k + 1;
    }
    hi > lo && v[lo] != '-' && v[hi - 1] != '-'
}

/// Whether `v[lo..hi]` is a round-robin label.
fn rr_label_in(v: &Vec<char>, lo: usize, hi: usize) -> (b: bool)
    requires
        lo <= hi <= v@.len(),
    ensures
        b == is_rr_label_text(v@.subrange(lo as int, hi as int)),
{
    let ghost s = v@.subrange(lo as int, hi as int);
    let mut k = lo;
    while k < hi
        invariant
            lo <= k <= hi <= v@.len(),
            s == v@.subrange(lo as int, hi as int),
            forall|i: int|
                0 <= i < k - lo ==> is_ascii_alnum(#[trigger] s[i]) || s[i] == '-' || s[i] == '_',
        decreases hi - k,
    {
        let c = v[k];
        assert(s[k - lo] == c);
        if !(ascii_alnum(c) || c == '-' || c == '_') {
            return false;
        }
        k = k + 1;
    }
    hi > lo && v[lo] != '-'
}

/// Whether `v[lo..hi]` is a group name.
fn group_name_in(v: &Vec<char>, lo: usize, hi: usize) -> (b: bool)
    requires
        lo <= hi <= v@.len(),
    ensures
        b == is_group_name_text(v@.subrange(lo as int, hi as int)),
{
    let ghost s = v@.subrange(lo as int, hi as int);
    let mut k = lo;
    while k < hi
        invariant
            lo <= k <= hi <= v@.len(),
            s == v@.subrange(lo as int, hi as int),
            forall|i: int| 0 <= i < k - lo ==> is_ascii_alnum(#[trigger] s[i]),
        decreases hi - k,
    {
        let c = v[k];
        assert(s[k - lo] == c);
        if !ascii_alnum(c) {
            return false;
        }
        k = k + 1;
    }
    true
}

/// Whether `v[lo..hi]` is a hostname.
fn hostname_in(v: &Vec<char>, lo: usize, hi: usize) -> (b: bool)
    requires
        lo <= hi <= v@.len(),
    ensures
        b == is_hostname_text(v@.subrange(lo as int, hi as int)),
{
    let ghost h = v@.subrange(lo as int, hi as int);
    let mut at = lo;
    while at < hi && v[at] != '@'
        invariant
            lo <= at <= hi <= v@.len(),
            h == v@.subrange(lo as int, hi as int),
            forall|j: int| 0 <= j < at - lo ==> h[j] != '@',
        decreases hi - at,
    {
        at = at + 1;
    }
    let host_end = at;
    if at < hi {
        proof {
            lemma_find_char_at(h, '@', at - lo);
        }
        assert(h.skip(at - lo + 1) =~= v@.subrange(at + 1 as int, hi as int));
        assert(h.take(at - lo) =~= v@.subrange(lo as int, at as int));
        if !rr_label_in(v, at + 1, hi) {
            return false;
        }
    } else {
        proof {
            lemma_find_char_absent(h, '@');
        }
        assert(h =~= v@.subrange(lo as int, at as int));
    }
    assert(v@.subrange(lo as int, host_end as int) == host_part(h));
    let labels = split_ranges(v, lo, host_end, '.');
    if labels.len() > 63 {
        return false;
    }
    let ghost pieces = split_on(v@.subrange(lo as int, host_end as int), '.');
    let mut k: usize = 0;
    while k < labels.len()
        invariant
            0 <= k <= labels@.len(),
            lo <= host_end <= hi <= v@.len(),
            labels@.len() == pieces.len(),
            pieces == split_on(v@.subrange(lo as int, host_end as int), '.'),
            h == v@.subrange(lo as int, hi as int),
            v@.subrange(lo as int, host_end as int) == host_part(h),
            forall|i: int|
                0 <= i < labels@.len() ==> {
                    &&& lo <= (#[trigger] labels@[i]).0 <= labels@[i].1 <= host_end
                    &&& v@.subrange(labels@[i].0 as int, labels@[i].1 as int) == pieces[i]
                },
            forall|i: int| 0 <= i < k ==> is_label_text(#[trigger] pieces[i]),
        decreases labels@.len() - k,
    {
        let (a, b) = labels[k];
        if !label_in(v, a, b) {
            assert(!is_label_text(pieces[k as int]));
            assert(!is_hostname_text(h));
            return false;
        }
        k = k + 1;
    }
    true
}

/// Whether `s` is a label.
pub fn is_label(s: &str) -> (b: bool)
    ensures
        b == is_label_text(s@),
{
    let v = chars_of(s);
    assert(v@.subrange(0, v@.len() as int) =~= v@);
    label_in(&v, 0, v.len())
}

/// Whether `s` is a round-robin label.
pub fn is_rr_label(s: &str) -> (b: bool)
    ensures
        b == is_rr_label_text(s@),
{
    let v = chars_of(s);
    assert(v@.subrange(0, v@.len() as int) =~= v@);
    rr_label_in(&v, 0, v.len())
}

/// Whether `h` is a hostname, with an optional round-robin label.
pub fn is_hostname(h: &str) -> (b: bool)
    ensures
        b == is_hostname_text(h@),
{
    let v = chars_of(h);
    assert(v@.subrange(0, v@.len() as int) =~= v@);
    hostname_in(&v, 0, v.len())
}

/// Reads the comma separated list of hostnames and group names: each piece,
/// trimmed, must be a group name or a hostname. A list of 4000 bytes or more
/// is refused, as is the list at its first invalid entry.
pub fn parse_hostnames(s: &str) -> (res: Result<Vec<String>, String>)
    ensures
        encode_utf8(s@).len() >= 4000 ==> (res matches Err(m) && m@ == "hostnames too long"@),
        encode_utf8(s@).len() < 4000 ==> {
            let e = hostname_entries(s@);
            match res {
                Ok(v) => (forall|i: int| 0 <= i < e.len() ==> is_entry_ok(#[trigger] e[i]))
                    && v@.map_values(|x: String| x@) == e,
                Err(m) => exists|k: int|
                    0 <= k < e.len() && !is_entry_ok(#[trigger] e[k]) && (forall|j: int|
                        0 <= j < k ==> is_entry_ok(#[trigger] e[j])) && m@
                        == invalid_hostname_message(e[k]),
            }
        },
{
    if s.as_bytes().len() >= 4000 {
        return Err(string_from("hostnames too long"));
    }
    let v = chars_of(s);
    let n = v.len();
    assert(v@.subrange(0, n as int) =~= v@);
    let ranges = split_ranges(&v, 0, n, ',');
    let ghost e = hostname_entries(s@);
    let mut out: Vec<String> = Vec::new();
    let mut k: usize = 0;
    while k < ranges.len()
        invariant
            0 <= k <= ranges@.len(),
            v@ == s@,
            n == v@.len(),
            encode_utf8(s@).len() < 4000,
            e == hostname_entries(s@),
            ranges@.len() == e.len(),
            forall|i: int|
                0 <= i < ranges@.len() ==> {
                    &&& 0 <= (#[trigger] ranges@[i]).0 <= ranges@[i].1 <= n
                    &&& v@.subrange(ranges@[i].0 as int, ranges@[i].1 as int) == split_on(
                        v@,
                        ',',
                    )[i]
                },
            out@.len() == k,
            forall|i: int| 0 <= i < k ==> (#[trigger] out@[i])@ == e[i],
            forall|i: int| 0 <= i < k ==> is_entry_ok(#[trigger] e[i]),
        decreases ranges@.len() - k,
    {
        let (lo, hi) = ranges[k];
        let (a, b) = trim_at(&v, lo, hi);
        assert(v@.subrange(a as int, b as int) == e[k as int]);
        if !group_name_in(&v, a, b) && !hostname_in(&v, a, b) {
            let mut m = string_from("invalid hostname ");
            let h = string_of(&v, a, b);
            push_all(&mut m, h.as_str());
            push_all(&mut m, ". Hostnames must be a comma separated list of hostnames and group names.");
            assert(m@ == invalid_hostname_message(e[k as int]));
            return Err(m);
        }
        out.push(string_of(&v, a, b));
        k = k + 1;
    }
    assert(out@.map_values(|x: String| x@) =~= e);
    Ok(out)
}

/// Every character of a trimmed text is a character of the text.
proof fn lemma_trim_inside(p: Seq<char>)
    ensures
        forall|k: int|
            0 <= k < trim(p).len() ==> exists|m: int| 0 <= m < p.len() && #[trigger] trim(p)[k] == p[m],
{
    lemma_trim_start_shape(p);
    lemma_trim_end_shape(trim_start(p));
    let off = p.len() - trim_start(p).len();
    assert forall|k: int| 0 <= k < trim(p).len() implies exists|m: int|
        0 <= m < p.len() && #[trigger] trim(p)[k] == p[m] by {
        assert(trim(p)[k] == trim_start(p)[k]);
        assert(trim_start(p)[k] == p[off + k]);
    }
}

/// No entry of a list holds a comma.
pub proof fn law_entries_hold_no_comma(s: Seq<char>)
    ensures
        forall|i: int, k: int|
            0 <= i < hostname_entries(s).len() && 0 <= k < hostname_entries(s)[i].len()
                ==> #[trigger] hostname_entries(s)[i][k] != ',',
{
    lemma_split_on_pieces_free(s, ',');
    let pieces = split_on(s, ',');
    assert forall|i: int, k: int|
        0 <= i < hostname_entries(s).len() && 0 <= k < hostname_entries(s)[i].len()
            implies #[trigger] hostname_entries(s)[i][k] != ',' by {
        let p = pieces[i];
        lemma_trim_inside(p);
        assert(hostname_entries(s)[i] == trim(p));
        let m = choose|m: int| 0 <= m < p.len() && #[trigger] trim(p)[k] == p[m];
        assert(pieces[i][m] != ',');
    }
}

/// A list written by joining entries with commas reads back as those entries,
/// when each is trimmed and free of commas: the hostnames the desktop client
/// writes for the background service are the ones the service reads.
pub proof fn law_joined_hostnames_read_back(names: Seq<Seq<char>>)
    requires
        names.len() >= 1,
        forall|i: int| 0 <= i < names.len() ==> trim(#[trigger] names[i]) == names[i],
        forall|i: int, k: int| 0 <= i < names.len() && 0 <= k < names[i].len() ==> #[trigger] names[i][k] != ',',
    ensures
        hostname_entries(join_with(names, seq![','])) == names,
{
    lemma_split_join(names, ',');
    assert(hostname_entries(join_with(names, seq![','])) =~= names);
}

} // verus!
