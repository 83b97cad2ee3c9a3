//! Character-level helpers shared by the parsers and formatters: character
//! classes, trimming, splitting, joining and decimal rendering, each with the
//! mathematical statement it is proved against.
use vstd::prelude::*;

verus! {

pub assume_specification[ String::push ](s: &mut String, ch: char)
    ensures
        final(s)@ == old(s)@.push(ch),
;

// ---------------------------------------------------------------------------
// Character classes
// ---------------------------------------------------------------------------

/// `char::is_ascii_alphanumeric`: `0-9`, `a-z`, `A-Z`.
pub open spec fn is_ascii_alnum(c: char) -> bool {
    ('0' <= c && c <= '9') || ('a' <= c && c <= 'z') || ('A' <= c && c <= 'Z')
}

/// `char::is_whitespace`: the Unicode `White_Space` property.
pub open spec fn is_white_space(c: char) -> bool {
    let u = c as u32;
    (0x9 <= u && u <= 0xD) || u == 0x20 || u == 0x85 || u == 0xA0 || u == 0x1680 || (0x2000 <= u
        && u <= 0x200A) || u == 0x2028 || u == 0x2029 || u == 0x202F || u == 0x205F || u == 0x3000
}

pub fn ascii_alnum(c: char) -> (b: bool)
    ensures
        b == is_ascii_alnum(c),
{
    ('0' <= c && c <= '9') || ('a' <= c && c <= 'z') || ('A' <= c && c <= 'Z')
}

pub fn white_space(c: char) -> (b: bool)
    ensures
        b == is_white_space(c),
{
    let u = c as u32;
    (0x9 <= u && u <= 0xD) || u == 0x20 || u == 0x85 || u == 0xA0 || u == 0x1680 || (0x2000 <= u
        && u <= 0x200A) || u == 0x2028 || u == 0x2029 || u == 0x202F || u == 0x205F || u == 0x3000
}

// ---------------------------------------------------------------------------
// Trimming
// ---------------------------------------------------------------------------

/// `str::trim_end`: drops trailing white space.
pub open spec fn trim_end(s: Seq<char>) -> Seq<char>
    decreases s.len(),
{
    if s.len() > 0 && is_white_space(s.last()) {
        trim_end(s.drop_last())
    } else {
        s
    }
}

/// `str::trim_start`: drops leading white space.
pub open spec fn trim_start(s: Seq<char>) -> Seq<char>
    decreases s.len(),
{
    if s.len() > 0 && is_white_space(s[0]) {
        trim_start(s.drop_first())
    } else {
        s
    }
}

/// `str::trim`: drops white space at both ends.
pub open spec fn trim(s: Seq<char>) -> Seq<char> {
    trim_end(trim_start(s))
}

/// Trailing white space does not change what `trim_end` keeps.
pub proof fn lemma_trim_end_append_white(s: Seq<char>, w: Seq<char>)
    requires
        forall|i: int| 0 <= i < w.len() ==> is_white_space(#[trigger] w[i]),
    ensures
        trim_end(s + w) == trim_end(s),
    decreases w.len(),
{
    if w.len() > 0 {
        assert((s + w).drop_last() =~= s + w.drop_last());
        lemma_trim_end_append_white(s, w.drop_last());
    } else {
        assert(s + w =~= s);
    }
}

/// What `trim_end` keeps is a prefix, and it does not end in white space.
pub proof fn lemma_trim_end_shape(s: Seq<char>)
    ensures
        trim_end(s).is_prefix_of(s),
        trim_end(s).len() > 0 ==> !is_white_space(trim_end(s).last()),
        forall|i: int| trim_end(s).len() <= i < s.len() ==> is_white_space(#[trigger] s[i]),
    decreases s.len(),
{
    if s.len() > 0 && is_white_space(s.last()) {
        lemma_trim_end_shape(s.drop_last());
        assert forall|i: int| trim_end(s).len() <= i < s.len() implies is_white_space(
            #[trigger] s[i],
        ) by {
            if i < s.len() - 1 {
                assert(s.drop_last()[i] == s[i]);
            }
        }
    }
}

/// What `trim_start` keeps is a suffix, and it does not start with white space.
pub proof fn lemma_trim_start_shape(s: Seq<char>)
    ensures
        trim_start(s).len() <= s.len(),
        trim_start(s) == s.skip(s.len() - trim_start(s).len()),
        trim_start(s).len() > 0 ==> !is_white_space(trim_start(s)[0]),
    decreases s.len(),
{
    if s.len() > 0 && is_white_space(s[0]) {
        lemma_trim_start_shape(s.drop_first());
        assert(s.drop_first().skip(s.drop_first().len() - trim_start(s).len()) =~= s.skip(
            s.len() - trim_start(s).len(),
        ));
    } else {
        assert(s.skip(0) =~= s);
    }
}

/// The end of the range `v[lo..hi]` once trailing white space is dropped.
pub fn trim_end_at(v: &Vec<char>, lo: usize, hi: usize) -> (j: usize)
    requires
        lo <= hi <= v@.len(),
    ensures
        lo <= j <= hi,
        v@.subrange(lo as int, j as int) == trim_end(v@.subrange(lo as int, hi as int)),
{
    let mut j = hi;
    while j > lo && white_space(v[j - 1])
        invariant
            lo <= j <= hi <= v@.len(),
            trim_end(v@.subrange(lo as int, hi as int)) == trim_end(
                v@.subrange(lo as int, j as int),
            ),
        decreases j,
    {
        assert(v@.subrange(lo as int, j as int).drop_last() =~= v@.subrange(
            lo as int,
            j - 1 as int,
        ));
        j = j - 1;
    }
    j
}

/// The start of the range `v[lo..hi]` once leading white space is dropped.
pub fn trim_start_at(v: &Vec<char>, lo: usize, hi: usize) -> (i: usize)
    requires
        lo <= hi <= v@.len(),
    ensures
        lo <= i <= hi,
        v@.subrange(i as int, hi as int) == trim_start(v@.subrange(lo as int, hi as int)),
{
    let mut i = lo;
    while i < hi && white_space(v[i])
        invariant
            lo <= i <= hi <= v@.len(),
            trim_start(v@.subrange(lo as int, hi as int)) == trim_start(
                v@.subrange(i as int, hi as int),
            ),
        decreases hi - i,
    {
        assert(v@.subrange(i as int, hi as int).drop_first() =~= v@.subrange(
            i + 1 as int,
            hi as int,
        ));
        i = i + 1;
    }
    i
}

/// The bounds of `trim(v[lo..hi])` inside `v`.
pub fn trim_at(v: &Vec<char>, lo: usize, hi: usize) -> (r: (usize, usize))
    requires
        lo <= hi <= v@.len(),
    ensures
        lo <= r.0 <= r.1 <= hi,
        v@.subrange(r.0 as int, r.1 as int) == trim(v@.subrange(lo as int, hi as int)),
{
    let i = trim_start_at(v, lo, hi);
    let j = trim_end_at(v, i, hi);
    (i, j)
}

// ---------------------------------------------------------------------------
// Building and comparing text
// ---------------------------------------------------------------------------

/// The characters of `s`, in order.
pub fn chars_of(s: &str) -> (out: Vec<char>)
    ensures
        out@ == s@,
{
    let mut out: Vec<char> = Vec::new();
    for c in it: s.chars()
        invariant
            out@ == it.seq().take(it.index() as int),
    {
        out.push(c);
    }
    out
}

/// A `String` holding `v[lo..hi]`.
pub fn string_of(v: &Vec<char>, lo: usize, hi: usize) -> (s: String)
    requires
        lo <= hi <= v@.len(),
    ensures
        s@ == v@.subrange(lo as int, hi as int),
{
    let mut s = String::new();
    let mut k = lo;
    while k < hi
        invariant
            lo <= k <= hi <= v@.len(),
            s@ == v@.subrange(lo as int, k as int),
        decreases hi - k,
    {
        s.push(v[k]);
        assert(v@.subrange(lo as int, k + 1 as int) =~= v@.subrange(lo as int, k as int).push(
            v@[k as int],
        ));
        k = k + 1;
    }
    s
}

/// Appends all of `t` to `s`.
pub fn push_all(s: &mut String, t: &str)
    ensures
        final(s)@ == old(s)@ + t@,
{
    let cs = chars_of(t);
    let mut k: usize = 0;
    while k < cs.len()
        invariant
            0 <= k <= cs@.len(),
            cs@ == t@,
            s@ == old(s)@ + t@.take(k as int),
        decreases cs@.len() - k,
    {
        s.push(cs[k]);
        assert(t@.take(k + 1 as int) =~= t@.take(k as int).push(t@[k as int]));
        k = k + 1;
    }
    assert(t@.take(k as int) =~= t@);
}

/// A `String` holding the text of `t`.
pub fn string_from(t: &str) -> (s: String)
    ensures
        s@ == t@,
{
    let mut s = String::new();
    push_all(&mut s, t);
    assert(Seq::<char>::empty() + t@ =~= t@);
    s
}

/// Whether `v[lo..hi]` is exactly the text `t`.
pub fn range_equals(v: &Vec<char>, lo: usize, hi: usize, t: &str) -> (b: bool)
    requires
        lo <= hi <= v@.len(),
    ensures
        b == (v@.subrange(lo as int, hi as int) == t@),
{
    let ts = chars_of(t);
    if hi - lo != ts.len() {
        return false;
    }
    let mut k: usize = 0;
    while k < ts.len()
        invariant
            ts@ == t@,
            hi - lo == ts@.len(),
            lo <= hi <= v@.len(),
            0 <= k <= ts@.len(),
            forall|m: int| 0 <= m < k ==> v@[lo + m] == ts@[m],
        decreases ts@.len() - k,
    {
        if v[lo + k] != ts[k] {
            assert(v@.subrange(lo as int, hi as int)[k as int] != t@[k as int]);
            return false;
        }
        k = k + 1;
    }
    assert(v@.subrange(lo as int, hi as int) =~= t@);
    true
}

/// Whether two texts are the same.
pub fn same_text(a: &str, b: &str) -> (r: bool)
    ensures
        r == (a@ == b@),
{
    let v = chars_of(a);
    let n = v.len();
    assert(v@.subrange(0, n as int) =~= v@);
    range_equals(&v, 0, n, b)
}

/// `s` without white space at either end.
pub fn trim_text(s: &str) -> (t: String)
    ensures
        t@ == trim(s@),
{
    let v = chars_of(s);
    let n = v.len();
    assert(v@.subrange(0, n as int) =~= v@);
    let (a, b) = trim_at(&v, 0, n);
    string_of(&v, a, b)
}

/// Whether `v[lo..hi]` starts with the text `t`.
pub fn range_starts_with(v: &Vec<char>, lo: usize, hi: usize, t: &str) -> (b: bool)
    requires
        lo <= hi <= v@.len(),
    ensures
        b == t@.is_prefix_of(v@.subrange(lo as int, hi as int)),
{
    let n = t.unicode_len();
    if n > hi - lo {
        return false;
    }
    let b = range_equals(v, lo, lo + n, t);
    assert(v@.subrange(lo as int, hi as int).take(n as int) =~= v@.subrange(
        lo as int,
        lo + n as int,
    ));
    b
}

// ---------------------------------------------------------------------------
// Splitting and joining
// ---------------------------------------------------------------------------

/// `str::split(sep)`: the pieces between separators, read left to right.
/// There is always at least one piece.
pub open spec fn split_on(s: Seq<char>, sep: char) -> Seq<Seq<char>>
    decreases s.len(),
{
    if s.len() == 0 {
        seq![Seq::empty()]
    } else {
        let r = split_on(s.drop_last(), sep);
        if s.last() == sep {
            r.push(Seq::empty())
        } else {
            r.update(r.len() - 1, r.last().push(s.last()))
        }
    }
}

pub proof fn lemma_split_on_nonempty(s: Seq<char>, sep: char)
    ensures
        split_on(s, sep).len() >= 1,
    decreases s.len(),
{
    if s.len() > 0 {
        lemma_split_on_nonempty(s.drop_last(), sep);
    }
}

/// No piece of a split holds the separator.
pub proof fn lemma_split_on_pieces_free(s: Seq<char>, sep: char)
    ensures
        forall|i: int, k: int|
            0 <= i < split_on(s, sep).len() && 0 <= k < split_on(s, sep)[i].len() ==> #[trigger] split_on(
                s,
                sep,
            )[i][k] != sep,
    decreases s.len(),
{
    if s.len() > 0 {
        lemma_split_on_pieces_free(s.drop_last(), sep);
        lemma_split_on_nonempty(s.drop_last(), sep);
        let r = split_on(s.drop_last(), sep);
        if s.last() != sep {
            assert forall|i: int, k: int|
                0 <= i < split_on(s, sep).len() && 0 <= k < split_on(
                    s,
                    sep,
                )[i].len() implies #[trigger] split_on(s, sep)[i][k] != sep by {
                if i == r.len() - 1 {
                    if k < r.last().len() {
                        assert(split_on(s, sep)[i][k] == r[i][k]);
                    }
                } else {
                    assert(split_on(s, sep)[i] == r[i]);
                }
            }
        } else {
            assert forall|i: int, k: int|
                0 <= i < split_on(s, sep).len() && 0 <= k < split_on(
                    s,
                    sep,
                )[i].len() implies #[trigger] split_on(s, sep)[i][k] != sep by {
                assert(split_on(s, sep)[i] == r[i]);
            }
        }
    }
}

/// Pieces joined with a separator: `[a, b, c]` becomes `a sep b sep c`.
pub open spec fn join_with(pieces: Seq<Seq<char>>, sep: Seq<char>) -> Seq<char>
    decreases pieces.len(),
{
    if pieces.len() == 0 {
        Seq::empty()
    } else if pieces.len() == 1 {
        pieces[0]
    } else {
        join_with(pieces.drop_last(), sep) + sep + pieces.last()
    }
}

/// Splitting a join at a separator that no piece holds gives the pieces back.
pub proof fn lemma_split_join(pieces: Seq<Seq<char>>, sep: char)
    requires
        pieces.len() >= 1,
        forall|i: int, k: int|
            0 <= i < pieces.len() && 0 <= k < pieces[i].len() ==> #[trigger] pieces[i][k] != sep,
    ensures
        split_on(join_with(pieces, seq![sep]), sep) == pieces,
    decreases pieces.len(),
{
    if pieces.len() == 1 {
        lemma_split_piece(Seq::<Seq<char>>::empty(), Seq::empty(), pieces[0], sep);
        assert(Seq::<char>::empty() + pieces[0] =~= pieces[0]);
        assert(seq![Seq::<char>::empty()].update(0, pieces[0]) =~= pieces);
    } else {
        let init = pieces.drop_last();
        assert forall|i: int, k: int|
            0 <= i < init.len() && 0 <= k < init[i].len() implies #[trigger] init[i][k] != sep by {
            assert(init[i] == pieces[i]);
        }
        lemma_split_join(init, sep);
        let j = join_with(init, seq![sep]);
        let js = j + seq![sep];
        assert(js.drop_last() =~= j);
        assert(split_on(js, sep) == init.push(Seq::empty()));
        lemma_split_piece(init, js, pieces.last(), sep);
        assert(init.push(Seq::empty()).update(init.len() as int, Seq::<char>::empty() + pieces.last())
            =~= pieces);
    }
}

/// Appending a separator-free piece extends the last piece of a split.
proof fn lemma_split_piece(r: Seq<Seq<char>>, pre: Seq<char>, p: Seq<char>, sep: char)
    requires
        split_on(pre, sep) == r.push(Seq::empty()) || (r.len() == 0 && pre.len() == 0),
        forall|k: int| 0 <= k < p.len() ==> #[trigger] p[k] != sep,
    ensures
        split_on(pre + p, sep) == r.push(Seq::empty()).update(r.len() as int, Seq::empty() + p),
    decreases p.len(),
{
    if p.len() == 0 {
        assert(pre + p =~= pre);
        assert(r.push(Seq::empty()).update(r.len() as int, Seq::empty() + p) =~= r.push(
            Seq::empty(),
        ));
        if r.len() == 0 && pre.len() == 0 {
            assert(r.push(Seq::<char>::empty()) =~= seq![Seq::<char>::empty()]);
        }
    } else {
        let q = p.drop_last();
        assert forall|k: int| 0 <= k < q.len() implies #[trigger] q[k] != sep by {
            assert(q[k] == p[k]);
        }
        lemma_split_piece(r, pre, q, sep);
        assert((pre + p).drop_last() =~= pre + q);
        assert((pre + p).last() == p.last());
        assert(Seq::<char>::empty() + p =~= (Seq::<char>::empty() + q).push(p.last()));
        assert(r.push(Seq::empty()).update(r.len() as int, Seq::empty() + q).update(
            r.len() as int,
            (Seq::empty() + q).push(p.last()),
        ) =~= r.push(Seq::empty()).update(r.len() as int, Seq::empty() + p));
    }
}

/// The pieces of `v[lo..hi]` split at `sep`, as index ranges into `v`.
pub fn split_ranges(v: &Vec<char>, lo: usize, hi: usize, sep: char) -> (out: Vec<(usize, usize)>)
    requires
        lo <= hi <= v@.len(),
    ensures
        out@.len() == split_on(v@.subrange(lo as int, hi as int), sep).len(),
        forall|i: int|
            0 <= i < out@.len() ==> {
                &&& lo <= (#[trigger] out@[i]).0 <= out@[i].1 <= hi
                &&& v@.subrange(out@[i].0 as int, out@[i].1 as int) == split_on(
                    v@.subrange(lo as int, hi as int),
                    sep,
                )[i]
            },
{
    let mut out: Vec<(usize, usize)> = Vec::new();
    let mut start: usize = lo;
    let mut i: usize = lo;
    while i < hi
        invariant
            lo <= start <= i <= hi <= v@.len(),
            split_on(v@.subrange(lo as int, i as int), sep).len() == out@.len() + 1,
            split_on(v@.subrange(lo as int, i as int), sep).last() == v@.subrange(
                start as int,
                i as int,
            ),
            forall|k: int|
                0 <= k < out@.len() ==> {
                    &&& lo <= (#[trigger] out@[k]).0 <= out@[k].1 <= i
                    &&& v@.subrange(out@[k].0 as int, out@[k].1 as int) == split_on(
                        v@.subrange(lo as int, i as int),
                        sep,
                    )[k]
                },
        decreases hi - i,
    {
        assert(v@.subrange(lo as int, i + 1 as int).drop_last() =~= v@.subrange(
            lo as int,
            i as int,
        ));
        assert(v@.subrange(lo as int, i + 1 as int).last() == v@[i as int]);
        if v[i] == sep {
            out.push((start, i));
            start = i + 1;
            assert(v@.subrange(start as int, i + 1 as int) =~= Seq::<char>::empty());
        } else {
            assert(v@.subrange(start as int, i + 1 as int) =~= v@.subrange(
                start as int,
                i as int,
            ).push(v@[i as int]));
        }
        i = i + 1;
    }
    out.push((start, i));
    out
}

/// Pieces joined with `sep` in between.
pub fn join_strings(pieces: &Vec<String>, sep: &str) -> (s: String)
    ensures
        s@ == join_with(pieces@.map_values(|p: String| p@), sep@),
{
    let ghost views = pieces@.map_values(|p: String| p@);
    let mut s = String::new();
    let mut k: usize = 0;
    while k < pieces.len()
        invariant
            0 <= k <= pieces@.len(),
            views == pieces@.map_values(|p: String| p@),
            s@ == join_with(views.take(k as int), sep@),
        decreases pieces@.len() - k,
    {
        assert(views.take(k + 1 as int).drop_last() =~= views.take(k as int));
        if k > 0 {
            push_all(&mut s, sep);
        }
        push_all(&mut s, pieces[k].as_str());
        if k == 0 {
            assert(Seq::<char>::empty() + views[0] =~= views[0]);
        }
        k = k + 1;
    }
    assert(views.take(k as int) =~= views);
    s
}

// ---------------------------------------------------------------------------
// Ordering
// ---------------------------------------------------------------------------

/// Lexicographic order by code point, which is the byte order of UTF-8 and
/// so the order of `String`.
pub open spec fn text_less(a: Seq<char>, b: Seq<char>) -> bool
    decreases a.len(),
{
    if a.len() == 0 {
        b.len() > 0
    } else if b.len() == 0 {
        false
    } else if a[0] != b[0] {
        (a[0] as u32) < (b[0] as u32)
    } else {
        text_less(a.drop_first(), b.drop_first())
    }
}

pub proof fn lemma_text_less_irreflexive(a: Seq<char>)
    ensures
        !text_less(a, a),
    decreases a.len(),
{
    if a.len() > 0 {
        lemma_text_less_irreflexive(a.drop_first());
    }
}

pub proof fn lemma_text_less_transitive(a: Seq<char>, b: Seq<char>, c: Seq<char>)
    requires
        text_less(a, b),
        text_less(b, c),
    ensures
        text_less(a, c),
    decreases a.len(),
{
    if a.len() > 0 && b.len() > 0 && c.len() > 0 && a[0] == b[0] && b[0] == c[0] {
        lemma_text_less_transitive(a.drop_first(), b.drop_first(), c.drop_first());
    }
}

pub proof fn lemma_text_less_total(a: Seq<char>, b: Seq<char>)
    ensures
        a == b || text_less(a, b) || text_less(b, a),
    decreases a.len(),
{
    if a.len() > 0 && b.len() > 0 && a[0] == b[0] {
        lemma_text_less_total(a.drop_first(), b.drop_first());
        if a.drop_first() == b.drop_first() {
            assert(a =~= seq![a[0]] + a.drop_first());
            assert(b =~= seq![b[0]] + b.drop_first());
        }
    } else if a.len() == 0 && b.len() == 0 {
        assert(a =~= b);
    } else if a.len() > 0 && b.len() > 0 {
        vstd::utf8::char_u32_cast(a[0], a[0] as u32);
        vstd::utf8::char_u32_cast(b[0], b[0] as u32);
    }
}

pub proof fn lemma_text_less_asymmetric(a: Seq<char>, b: Seq<char>)
    requires
        text_less(a, b),
    ensures
        !text_less(b, a),
        a != b,
{
    lemma_text_less_irreflexive(a);
    if text_less(b, a) {
        lemma_text_less_transitive(a, b, a);
    }
}

/// The outcome of comparing two texts.
#[derive(Clone, Copy, Debug, PartialEq, Eq, Structural)]
pub enum TextOrder {
    Less,
    Equal,
    Greater,
}

/// Compares two texts in the order of `String`.
pub fn compare_text(a: &str, b: &str) -> (o: TextOrder)
    ensures
        (o == TextOrder::Less) == text_less(a@, b@),
        (o == TextOrder::Equal) == (a@ == b@),
        (o == TextOrder::Greater) == text_less(b@, a@),
{
    let x = chars_of(a);
    let y = chars_of(b);
    let mut i: usize = 0;
    assert(x@.skip(0) =~= x@);
    assert(y@.skip(0) =~= y@);
    while i < x.len() && i < y.len() && x[i] == y[i]
        invariant
            x@ == a@,
            y@ == b@,
            0 <= i <= x@.len(),
            i <= y@.len(),
            x@.take(i as int) == y@.take(i as int),
            text_less(a@, b@) == text_less(x@.skip(i as int), y@.skip(i as int)),
            text_less(b@, a@) == text_less(y@.skip(i as int), x@.skip(i as int)),
        decreases x@.len() - i,
    {
        assert(x@.skip(i as int).drop_first() =~= x@.skip(i + 1 as int));
        assert(y@.skip(i as int).drop_first() =~= y@.skip(i + 1 as int));
        assert(x@.take(i + 1 as int) =~= x@.take(i as int).push(x@[i as int]));
        assert(y@.take(i + 1 as int) =~= y@.take(i as int).push(y@[i as int]));
        i = i + 1;
    }
    proof {
        lemma_text_less_irreflexive(a@);
        lemma_text_less_total(a@, b@);
        if text_less(a@, b@) {
            lemma_text_less_asymmetric(a@, b@);
        }
    }
    if i < x.len() && i < y.len() {
        assert(x@.skip(i as int)[0] == x@[i as int]);
        assert(y@.skip(i as int)[0] == y@[i as int]);
        if (x[i] as u32) < (y[i] as u32) {
            TextOrder::Less
        } else {
            TextOrder::Greater
        }
    } else if x.len() == y.len() {
        assert(x@ =~= x@.take(i as int));
        assert(y@ =~= y@.take(i as int));
        TextOrder::Equal
    } else if i == x.len() {
        TextOrder::Less
    } else {
        TextOrder::Greater
    }
}

// ---------------------------------------------------------------------------
// Decimal numbers
// ---------------------------------------------------------------------------

pub open spec fn digit_char(d: nat) -> char {
    ((d % 10) + 48) as char
}

/// The decimal digits of `n`, most significant first, without leading zeros.
pub open spec fn decimal(n: nat) -> Seq<char>
    decreases n,
{
    if n < 10 {
        seq![digit_char(n)]
    } else {
        decimal(n / 10).push(digit_char(n % 10))
    }
}

/// The text `Display` gives a signed integer.
pub open spec fn signed_decimal(n: int) -> Seq<char> {
    if n < 0 {
        seq!['-'] + decimal((-n) as nat)
    } else {
        decimal(n as nat)
    }
}

/// The decimal text of `n`.
pub fn decimal_u64(n: u64) -> (s: String)
    ensures
        s@ == decimal(n as nat),
{
    let mut acc: Vec<char> = Vec::new();
    let mut q = n;
    while q >= 10
        invariant
            decimal(n as nat) == decimal(q as nat) + acc@,
        decreases q,
    {
        let d = q % 10;
        let c = ((d + 48) as u8) as char;
        assert(c == digit_char((q % 10) as nat));
        acc.insert(0, c);
        assert(decimal(q as nat) == decimal((q / 10) as nat).push(digit_char((q % 10) as nat)));
        assert(decimal((q / 10) as nat) + acc@ =~= decimal((q / 10) as nat).push(
            digit_char((q % 10) as nat),
        ) + acc@.drop_first());
        q = q / 10;
    }
    let c = ((q + 48) as u8) as char;
    assert(c == digit_char(q as nat));
    acc.insert(0, c);
    assert(acc@ =~= decimal(q as nat) + acc@.drop_first());
    let len = acc.len();
    string_of(&acc, 0, len)
}

/// The decimal text of `n`, with a leading `-` when negative.
pub fn decimal_i32(n: i32) -> (s: String)
    ensures
        s@ == signed_decimal(n as int),
{
    if n < 0 {
        let m: u64 = (0 - (n as i64)) as u64;
        let mut s = String::new();
        s.push('-');
        let digits = decimal_u64(m);
        push_all(&mut s, digits.as_str());
        assert(s@ =~= seq!['-'] + decimal(m as nat));
        s
    } else {
        decimal_u64(n as u64)
    }
}

} // verus!
