//! Character-level helpers: whitespace, trimming, splitting and conversion
//! between `&str`, `Vec<char>` and `String`.

use vstd::prelude::*;
use vstd::string::StrSliceExecFns;

verus! {

/// The Unicode `White_Space` property, as `char::is_whitespace` uses it.
pub open spec fn is_ws(c: char) -> bool {
    ('\u{9}' <= c && c <= '\u{d}') || c == ' ' || c == '\u{85}' || c == '\u{a0}'
        || c == '\u{1680}' || ('\u{2000}' <= c && c <= '\u{200a}') || c == '\u{2028}'
        || c == '\u{2029}' || c == '\u{202f}' || c == '\u{205f}' || c == '\u{3000}'
}

/// `s` without its leading whitespace.
pub open spec fn trim_start(s: Seq<char>) -> Seq<char>
    decreases s.len(),
{
    if s.len() > 0 && is_ws(s[0]) {
        trim_start(s.drop_first())
    } else {
        s
    }
}

/// `s` without its trailing whitespace.
pub open spec fn trim_end(s: Seq<char>) -> Seq<char>
    decreases s.len(),
{
    if s.len() > 0 && is_ws(s.last()) {
        trim_end(s.drop_last())
    } else {
        s
    }
}

/// `s` without leading and trailing whitespace.
pub open spec fn trim(s: Seq<char>) -> Seq<char> {
    trim_end(trim_start(s))
}

/// The pieces of `s` between the characters that `seps` holds, in order;
/// there is always one piece more than there are separators.
pub open spec fn split_by(s: Seq<char>, seps: Seq<char>) -> Seq<Seq<char>>
    decreases s.len(),
{
    if s.len() == 0 {
        seq![Seq::<char>::empty()]
    } else {
        let p = split_by(s.drop_last(), seps);
        if seps.contains(s.last()) {
            p.push(Seq::<char>::empty())
        } else {
            p.update(p.len() - 1, p.last().push(s.last()))
        }
    }
}

/// The trimmed pieces of `pieces` that are not empty, in order.
pub open spec fn trimmed_nonempty(pieces: Seq<Seq<char>>) -> Seq<Seq<char>>
    decreases pieces.len(),
{
    if pieces.len() == 0 {
        Seq::empty()
    } else {
        let rest = trimmed_nonempty(pieces.drop_last());
        let t = trim(pieces.last());
        if t.len() == 0 {
            rest
        } else {
            rest.push(t)
        }
    }
}

/// Split `s` at every `sep`, trim each piece and drop the empty ones.
pub open spec fn split_trimmed(s: Seq<char>, sep: char) -> Seq<Seq<char>> {
    trimmed_nonempty(split_by(s, Seq::<char>::empty().push(sep)))
}

/// The views of a sequence of strings.
pub open spec fn views(v: Seq<String>) -> Seq<Seq<char>> {
    v.map_values(|s: String| s@)
}

/// Whether `c` is whitespace in the sense of `char::is_whitespace`.
pub fn is_whitespace(c: char) -> (r: bool)
    ensures
        r == is_ws(c),
{
    ('\u{9}' <= c && c <= '\u{d}') || c == ' ' || c == '\u{85}' || c == '\u{a0}'
        || c == '\u{1680}' || ('\u{2000}' <= c && c <= '\u{200a}') || c == '\u{2028}'
        || c == '\u{2029}' || c == '\u{202f}' || c == '\u{205f}' || c == '\u{3000}'
}

/// The characters of `s`, in order.
pub fn chars_of(s: &str) -> (r: Vec<char>)
    ensures
        r@ == s@,
{
    let n = s.unicode_len();
    let mut out: Vec<char> = Vec::new();
    let mut i: usize = 0;
    while i < n
        invariant
            i <= n == s@.len(),
            out@ == s@.subrange(0, i as int),
        decreases n - i,
    {
        out.push(s.get_char(i));
        i = i + 1;
    }
    out
}

/// Relies on `String::push`: appends one character at the end.
#[verifier::external_body]
pub(crate) fn push_char(s: &mut String, c: char)
    ensures
        final(s)@ == old(s)@.push(c),
{
    s.push(c);
}

/// Append `v[lo..hi]` to `s`.
pub fn push_chars(s: &mut String, v: &Vec<char>, lo: usize, hi: usize)
    requires
        lo <= hi <= v@.len(),
    ensures
        final(s)@ == old(s)@ + v@.subrange(lo as int, hi as int),
{
    let mut i = lo;
    while i < hi
        invariant
            lo <= i <= hi <= v@.len(),
            s@ == old(s)@ + v@.subrange(lo as int, i as int),
        decreases hi - i,
    {
        push_char(s, v[i]);
        i = i + 1;
        assert(v@.subrange(lo as int, i as int) == v@.subrange(lo as int, i - 1 as int).push(v@[i - 1]));
    }
}

/// The string made of `v[lo..hi]`.
pub fn string_of(v: &Vec<char>, lo: usize, hi: usize) -> (r: String)
    requires
        lo <= hi <= v@.len(),
    ensures
        r@ == v@.subrange(lo as int, hi as int),
{
    let mut s = String::new();
    push_chars(&mut s, v, lo, hi);
    s
}

/// The bounds of the trimmed part of `v[lo..hi]`.
pub fn trim_bounds(v: &Vec<char>, lo: usize, hi: usize) -> (r: (usize, usize))
    requires
        lo <= hi <= v@.len(),
    ensures
        lo <= r.0 <= r.1 <= hi,
        v@.subrange(r.0 as int, r.1 as int) == trim(v@.subrange(lo as int, hi as int)),
{
    let mut a = lo;
    while a < hi && is_whitespace(v[a])
        invariant
            lo <= a <= hi <= v@.len(),
            trim_start(v@.subrange(a as int, hi as int)) == trim_start(
                v@.subrange(lo as int, hi as int),
            ),
        decreases hi - a,
    {
        assert(v@.subrange(a as int, hi as int).drop_first() == v@.subrange(a + 1, hi as int));
        a = a + 1;
    }
    let mut b = hi;
    while b > a && is_whitespace(v[b - 1])
        invariant
            lo <= a <= b <= hi <= v@.len(),
            trim_end(v@.subrange(a as int, b as int)) == trim_end(v@.subrange(a as int, hi as int)),
        decreases b - a,
    {
        assert(v@.subrange(a as int, b as int).drop_last() == v@.subrange(a as int, b - 1));
        b = b - 1;
    }
    (a, b)
}

/// Split `source` at every `sep`, trim each piece and keep the pieces that
/// are not empty, in order.
pub fn src_split(source: &str, sep: char) -> (r: Vec<String>)
    ensures
        views(r@) == split_trimmed(source@, sep),
{
    let v = chars_of(source);
    let ghost seps = Seq::<char>::empty().push(sep);
    let mut out: Vec<String> = Vec::new();
    let mut start: usize = 0;
    let mut i: usize = 0;
    assert(v@.take(0) == Seq::<char>::empty());
    while i < v.len()
        invariant
            start <= i <= v@.len(),
            seps == Seq::<char>::empty().push(sep),
            views(out@) == trimmed_nonempty(split_by(v@.take(i as int), seps).drop_last()),
            split_by(v@.take(i as int), seps).len() >= 1,
            split_by(v@.take(i as int), seps).last() == v@.subrange(start as int, i as int),
        decreases v@.len() - i,
    {
        let ghost prev = split_by(v@.take(i as int), seps);
        assert(v@.take(i + 1).drop_last() == v@.take(i as int));
        assert(v@.take(i + 1).last() == v@[i as int]);
        if v[i] == sep {
            assert(seps[0] == sep);
            let (a, b) = trim_bounds(&v, start, i);
            if a < b {
                let piece = string_of(&v, a, b);
                proof {
                    assert(views(out@.push(piece)) == views(out@).push(piece@));
                }
                out.push(piece);
            }
            assert(split_by(v@.take(i + 1), seps).drop_last() == prev);
            start = i + 1;
            i = i + 1;
            assert(v@.subrange(start as int, i as int) == Seq::<char>::empty());
        } else {
            assert(!seps.contains(v@[i as int])) by {
                if seps.contains(v@[i as int]) {
                    let k = choose|k: int| 0 <= k < seps.len() && seps[k] == v@[i as int];
                }
            }
            let ghost next = split_by(v@.take(i + 1), seps);
            assert(next.drop_last() == prev.drop_last());
            assert(v@.subrange(start as int, i + 1) == v@.subrange(start as int, i as int).push(v@[i as int]));
            i = i + 1;
        }
    }
    assert(v@.take(i as int) == source@);
    let (a, b) = trim_bounds(&v, start, i);
    if a < b {
        let piece = string_of(&v, a, b);
        proof {
            assert(views(out@.push(piece)) == views(out@).push(piece@));
        }
        out.push(piece);
    }
    out
}

/// Whether `seps` holds `c`.
pub fn contains_char(seps: &Vec<char>, c: char) -> (r: bool)
    ensures
        r == seps@.contains(c),
{
    let mut i: usize = 0;
    while i < seps.len()
        invariant
            i <= seps@.len(),
            forall|j: int| 0 <= j < i ==> seps@[j] != c,
        decreases seps@.len() - i,
    {
        if seps[i] == c {
            assert(seps@[i as int] == c);
            return true;
        }
        i = i + 1;
    }
    false
}

/// The bounds, in `v`, of the pieces of `v[lo..hi]` between the characters
/// that `seps` holds.
pub fn split_ranges(v: &Vec<char>, lo: usize, hi: usize, seps: &Vec<char>) -> (r: Vec<(usize, usize)>)
    requires
        lo <= hi <= v@.len(),
    ensures
        r@.len() == split_by(v@.subrange(lo as int, hi as int), seps@).len(),
        forall|k: int|
            0 <= k < r@.len() ==> {
                &&& lo <= #[trigger] r@[k].0 <= r@[k].1 <= hi
                &&& v@.subrange(r@[k].0 as int, r@[k].1 as int) == split_by(
                    v@.subrange(lo as int, hi as int),
                    seps@,
                )[k]
            },
{
    let ghost w = v@.subrange(lo as int, hi as int);
    let mut out: Vec<(usize, usize)> = Vec::new();
    let mut start: usize = lo;
    let mut i: usize = lo;
    assert(w.take(0) == Seq::<char>::empty());
    while i < hi
        invariant
            lo <= start <= i <= hi <= v@.len(),
            w == v@.subrange(lo as int, hi as int),
            out@.len() + 1 == split_by(w.take(i - lo), seps@).len(),
            forall|k: int|
                0 <= k < out@.len() ==> {
                    &&& lo <= #[trigger] out@[k].0 <= out@[k].1 <= hi
                    &&& v@.subrange(out@[k].0 as int, out@[k].1 as int) == split_by(
                        w.take(i - lo),
                        seps@,
                    )[k]
                },
            split_by(w.take(i - lo), seps@).last() == v@.subrange(start as int, i as int),
        decreases hi - i,
    {
        let ghost prev = split_by(w.take(i - lo), seps@);
        assert(w.take(i + 1 - lo).drop_last() == w.take(i - lo));
        assert(w.take(i + 1 - lo).last() == v@[i as int]);
        if contains_char(seps, v[i]) {
            out.push((start, i));
            start = i + 1;
            i = i + 1;
            assert(v@.subrange(start as int, i as int) == Seq::<char>::empty());
        } else {
            assert(v@.subrange(start as int, i + 1) == v@.subrange(start as int, i as int).push(
                v@[i as int],
            ));
            i = i + 1;
        }
    }
    assert(w.take(hi - lo) == w);
    out.push((start, hi));
    out
}

/// `s` without its leading `*` characters.
pub open spec fn trim_stars(s: Seq<char>) -> Seq<char>
    decreases s.len(),
{
    if s.len() > 0 && s[0] == '*' {
        trim_stars(s.drop_first())
    } else {
        s
    }
}

/// The bounds of `trim_end(trim_stars(trim(v[lo..hi])))`.
pub fn clean_bounds(v: &Vec<char>, lo: usize, hi: usize) -> (r: (usize, usize))
    requires
        lo <= hi <= v@.len(),
    ensures
        lo <= r.0 <= r.1 <= hi,
        v@.subrange(r.0 as int, r.1 as int) == trim_end(
            trim_stars(trim(v@.subrange(lo as int, hi as int))),
        ),
{
    let (a0, b) = trim_bounds(v, lo, hi);
    let mut a = a0;
    while a < b && v[a] == '*'
        invariant
            lo <= a0 <= a <= b <= hi <= v@.len(),
            trim_stars(v@.subrange(a as int, b as int)) == trim_stars(
                v@.subrange(a0 as int, b as int),
            ),
        decreases b - a,
    {
        assert(v@.subrange(a as int, b as int).drop_first() == v@.subrange(a + 1, b as int));
        a = a + 1;
    }
    let mut e = b;
    while e > a && is_whitespace(v[e - 1])
        invariant
            lo <= a <= e <= b <= hi <= v@.len(),
            trim_end(v@.subrange(a as int, e as int)) == trim_end(v@.subrange(a as int, b as int)),
        decreases e - a,
    {
        assert(v@.subrange(a as int, e as int).drop_last() == v@.subrange(a as int, e - 1));
        e = e - 1;
    }
    (a, e)
}

proof fn lemma_trim_start_suffix(s: Seq<char>)
    ensures
        trim_start(s).len() <= s.len(),
        trim_start(s) == s.subrange(s.len() - trim_start(s).len(), s.len() as int),
        trim_start(s).len() > 0 ==> !is_ws(trim_start(s)[0]),
    decreases s.len(),
{
    if s.len() > 0 && is_ws(s[0]) {
        lemma_trim_start_suffix(s.drop_first());
        let t = trim_start(s.drop_first());
        assert(s.drop_first().subrange(s.len() - 1 - t.len(), s.len() - 1) == s.subrange(
            s.len() - t.len(),
            s.len() as int,
        ));
    } else {
        assert(s.subrange(0, s.len() as int) == s);
    }
}

proof fn lemma_trim_end_prefix(s: Seq<char>)
    ensures
        trim_end(s).len() <= s.len(),
        trim_end(s) == s.subrange(0, trim_end(s).len() as int),
        trim_end(s).len() > 0 ==> !is_ws(trim_end(s).last()),
    decreases s.len(),
{
    if s.len() > 0 && is_ws(s.last()) {
        lemma_trim_end_prefix(s.drop_last());
        let t = trim_end(s.drop_last());
        assert(s.drop_last().subrange(0, t.len() as int) == s.subrange(0, t.len() as int));
    } else {
        assert(s.subrange(0, s.len() as int) == s);
    }
}

/// A trimmed piece that is not empty starts and ends with a character that
/// is not whitespace, and holds only characters of the piece.
proof fn lemma_trim_shape(s: Seq<char>, c: char)
    requires
        !s.contains(c),
    ensures
        trim(s).len() > 0 ==> trim(trim(s)) == trim(s),
        !trim(s).contains(c),
{
    let u = trim_start(s);
    let t = trim_end(u);
    lemma_trim_start_suffix(s);
    lemma_trim_end_prefix(u);
    assert forall|i: int| 0 <= i < t.len() implies t[i] != c by {
        assert(t[i] == u[i]);
        assert(u[i] == s[s.len() - u.len() + i]);
    }
    if t.len() > 0 {
        assert(t[0] == u[0]);
        assert(trim_start(t) == t);
        assert(trim_end(t) == t);
    }
}

proof fn lemma_split_by_len(s: Seq<char>, seps: Seq<char>)
    ensures
        split_by(s, seps).len() >= 1,
    decreases s.len(),
{
    if s.len() > 0 {
        lemma_split_by_len(s.drop_last(), seps);
    }
}

/// No piece of a split holds a separator.
proof fn lemma_split_by_no_sep(s: Seq<char>, seps: Seq<char>)
    ensures
        forall|i: int, j: int|
            0 <= i < split_by(s, seps).len() && 0 <= j < split_by(s, seps)[i].len()
                ==> !seps.contains(#[trigger] split_by(s, seps)[i][j]),
    decreases s.len(),
{
    if s.len() > 0 {
        lemma_split_by_no_sep(s.drop_last(), seps);
        let p = split_by(s.drop_last(), seps);
        lemma_split_by_len(s.drop_last(), seps);
        if !seps.contains(s.last()) {
            assert(split_by(s, seps) == p.update(p.len() - 1, p.last().push(s.last())));
            assert forall|i: int, j: int|
                0 <= i < split_by(s, seps).len() && 0 <= j < split_by(s, seps)[i].len()
                    implies !seps.contains(#[trigger] split_by(s, seps)[i][j]) by {
                if i == p.len() - 1 && j == p.last().len() {
                    assert(split_by(s, seps)[i][j] == s.last());
                } else if i == p.len() - 1 {
                    assert(split_by(s, seps)[i][j] == p[i][j]);
                } else {
                    assert(split_by(s, seps)[i] == p[i]);
                }
            }
        } else {
            assert forall|i: int, j: int|
                0 <= i < split_by(s, seps).len() && 0 <= j < split_by(s, seps)[i].len()
                    implies !seps.contains(#[trigger] split_by(s, seps)[i][j]) by {
                if i < p.len() {
                    assert(split_by(s, seps)[i] == p[i]);
                } else {
                    assert(split_by(s, seps)[i] == Seq::<char>::empty());
                }
            }
        }
    }
}

proof fn lemma_trimmed_nonempty_shape(pieces: Seq<Seq<char>>, c: char)
    requires
        forall|i: int| 0 <= i < pieces.len() ==> !(#[trigger] pieces[i]).contains(c),
    ensures
        forall|i: int|
            0 <= i < trimmed_nonempty(pieces).len() ==> {
                let m = #[trigger] trimmed_nonempty(pieces)[i];
                &&& m.len() > 0
                &&& trim(m) == m
                &&& !m.contains(c)
            },
    decreases pieces.len(),
{
    if pieces.len() > 0 {
        assert forall|i: int| 0 <= i < pieces.drop_last().len() implies !(
        #[trigger] pieces.drop_last()[i]).contains(c) by {
            assert(pieces.drop_last()[i] == pieces[i]);
        }
        lemma_trimmed_nonempty_shape(pieces.drop_last(), c);
        assert(!pieces[pieces.len() - 1].contains(c));
        lemma_trim_shape(pieces.last(), c);
        let rest = trimmed_nonempty(pieces.drop_last());
        let t = trim(pieces.last());
        assert forall|i: int| 0 <= i < trimmed_nonempty(pieces).len() implies {
            let m = #[trigger] trimmed_nonempty(pieces)[i];
            &&& m.len() > 0
            &&& trim(m) == m
            &&& !m.contains(c)
        } by {
            if i < rest.len() {
                assert(trimmed_nonempty(pieces)[i] == rest[i]);
            } else {
                assert(trimmed_nonempty(pieces)[i] == t);
            }
        }
    }
}

/// Every piece of `split_trimmed(s, sep)` is non-empty, already trimmed,
/// and free of `sep`.
pub proof fn lemma_split_trimmed_pieces(s: Seq<char>, sep: char)
    ensures
        forall|i: int|
            0 <= i < split_trimmed(s, sep).len() ==> {
                let m = #[trigger] split_trimmed(s, sep)[i];
                &&& m.len() > 0
                &&& trim(m) == m
                &&& !m.contains(sep)
            },
{
    let seps = Seq::<char>::empty().push(sep);
    let pieces = split_by(s, seps);
    lemma_split_by_no_sep(s, seps);
    assert forall|i: int| 0 <= i < pieces.len() implies !(#[trigger] pieces[i]).contains(sep) by {
        if pieces[i].contains(sep) {
            let j = choose|j: int| 0 <= j < pieces[i].len() && pieces[i][j] == sep;
            assert(seps.contains(pieces[i][j])) by {
                assert(seps[0] == sep);
            }
        }
    }
    lemma_trimmed_nonempty_shape(pieces, sep);
}

} // verus!
