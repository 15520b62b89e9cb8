//! Character-level text helpers shared by the lexer, the import preprocessor
//! and the editor helpers. Every function works on the `Seq<char>` view.
//!
//! The spec functions here restate, over `Seq<char>`, the std string
//! operations that the rest of the library is written against
//! (`trim`, `lines`, `split`, `find`, ...).
use vstd::prelude::*;

verus! {

// ───────────────────────── character classes ─────────────────────────

/// Unicode `White_Space`, the property behind `char::is_whitespace` and
/// `str::trim`.
pub open spec fn is_white_space(c: char) -> bool {
    ||| ('\u{9}' <= c && c <= '\u{d}')
    ||| c == ' '
    ||| c == '\u{85}'
    ||| c == '\u{a0}'
    ||| c == '\u{1680}'
    ||| ('\u{2000}' <= c && c <= '\u{200a}')
    ||| c == '\u{2028}'
    ||| c == '\u{2029}'
    ||| c == '\u{202f}'
    ||| c == '\u{205f}'
    ||| c == '\u{3000}'
}

/// Whether `c` is Unicode white space.
pub fn is_whitespace(c: char) -> (r: bool)
    ensures
        r == is_white_space(c),
{
    ('\u{9}' <= c && c <= '\u{d}') || c == ' ' || c == '\u{85}' || c == '\u{a0}' || c
        == '\u{1680}' || ('\u{2000}' <= c && c <= '\u{200a}') || c == '\u{2028}' || c
        == '\u{2029}' || c == '\u{202f}' || c == '\u{205f}' || c == '\u{3000}'
}

pub open spec fn is_digit(c: char) -> bool {
    '0' <= c && c <= '9'
}

pub fn is_ascii_digit(c: char) -> (r: bool)
    ensures
        r == is_digit(c),
{
    '0' <= c && c <= '9'
}

pub open spec fn is_hex_digit(c: char) -> bool {
    is_digit(c) || ('a' <= c && c <= 'f') || ('A' <= c && c <= 'F')
}

pub fn is_ascii_hexdigit(c: char) -> (r: bool)
    ensures
        r == is_hex_digit(c),
{
    ('0' <= c && c <= '9') || ('a' <= c && c <= 'f') || ('A' <= c && c <= 'F')
}

/// What `char::is_alphanumeric` returns on `c` (Unicode `Alphabetic` or
/// `Numeric`).
pub uninterp spec fn unicode_alphanumeric(c: char) -> bool;

/// What `char::is_alphabetic` returns on `c` (Unicode `Alphabetic`).
pub uninterp spec fn unicode_alphabetic(c: char) -> bool;

/// What `char::is_uppercase` returns on `c` (Unicode `Uppercase`).
pub uninterp spec fn unicode_uppercase(c: char) -> bool;

/// An ASCII letter.
pub open spec fn is_ascii_letter(c: char) -> bool {
    ('a' <= c && c <= 'z') || ('A' <= c && c <= 'Z')
}

/// Calls `char::is_alphanumeric`; its result is named, not restated
/// beyond ASCII, where it holds exactly of the letters and digits.
#[verifier::external_body]
pub fn is_alphanumeric(c: char) -> (r: bool)
    ensures
        r == unicode_alphanumeric(c),
        (c as u32) < 0x80 ==> (r <==> (is_ascii_letter(c) || ('0' <= c && c <= '9'))),
{
    c.is_alphanumeric()
}

/// Calls `char::is_alphabetic`; its result is named, not restated beyond
/// ASCII, where it holds exactly of the letters. Its documentation says
/// that `is_alphanumeric` holds of every character of which it holds.
#[verifier::external_body]
pub fn is_alphabetic(c: char) -> (r: bool)
    ensures
        r == unicode_alphabetic(c),
        r ==> unicode_alphanumeric(c),
        (c as u32) < 0x80 ==> (r <==> is_ascii_letter(c)),
{
    c.is_alphabetic()
}

/// Calls `char::is_uppercase`; its result is named, not restated beyond
/// ASCII, where it holds exactly of `A` to `Z`.
#[verifier::external_body]
pub fn is_uppercase(c: char) -> (r: bool)
    ensures
        r == unicode_uppercase(c),
        (c as u32) < 0x80 ==> (r <==> ('A' <= c && c <= 'Z')),
{
    c.is_uppercase()
}

/// A character that may stand in an identifier: alphanumeric or `_`.
pub open spec fn is_word_char(c: char) -> bool {
    unicode_alphanumeric(c) || c == '_'
}

pub fn word_char(c: char) -> (r: bool)
    ensures
        r == is_word_char(c),
{
    c == '_' || is_alphanumeric(c)
}

// ───────────────────────── conversions ─────────────────────────

/// Collects the characters of a string slice.
pub fn chars_of(s: &str) -> (v: Vec<char>)
    ensures
        v@ == s@,
{
    let mut v: Vec<char> = Vec::new();
    for c in it: s.chars()
        invariant
            v@ == it.seq().take(it.index() as int),
    {
        v.push(c);
    }
    v
}

/// Builds a `String` from characters (`FromIterator<char>` for `String`).
#[verifier::external_body]
pub fn string_of(v: &[char]) -> (s: String)
    ensures
        s@ == v@,
{
    v.iter().collect()
}

/// Copies `s[lo..hi]` into a new vector.
pub fn copy_range(s: &[char], lo: usize, hi: usize) -> (v: Vec<char>)
    requires
        lo <= hi <= s@.len(),
    ensures
        v@ == s@.subrange(lo as int, hi as int),
{
    let mut v: Vec<char> = Vec::new();
    let mut i = lo;
    while i < hi
        invariant
            lo <= i <= hi <= s@.len(),
            v@ == s@.subrange(lo as int, i as int),
        decreases hi - i,
    {
        v.push(s[i]);
        i = i + 1;
    }
    v
}

/// Appends all of `t` to `v`.
pub fn push_all(v: &mut Vec<char>, t: &[char])
    ensures
        final(v)@ == old(v)@ + t@,
{
    let mut i: usize = 0;
    let ghost v0 = v@;
    while i < t.len()
        invariant
            i <= t@.len(),
            v@ == v0 + t@.take(i as int),
        decreases t@.len() - i,
    {
        v.push(t[i]);
        i = i + 1;
    }
    assert(t@.take(t@.len() as int) =~= t@);
}

/// Appends the characters of a string slice to `v`.
pub fn push_str(v: &mut Vec<char>, t: &str)
    ensures
        final(v)@ == old(v)@ + t@,
{
    let tc = chars_of(t);
    push_all(v, tc.as_slice());
}

/// Whether two character slices are equal.
pub fn chars_eq(a: &[char], b: &[char]) -> (r: bool)
    ensures
        r == (a@ == b@),
{
    if a.len() != b.len() {
        return false;
    }
    let mut i: usize = 0;
    while i < a.len()
        invariant
            a@.len() == b@.len(),
            i <= a@.len(),
            forall|j: int| 0 <= j < i ==> a@[j] == b@[j],
        decreases a@.len() - i,
    {
        if a[i] != b[i] {
            return false;
        }
        i = i + 1;
    }
    assert(a@ =~= b@);
    true
}

// ───────────────────────── trimming ─────────────────────────

/// Number of leading white-space characters.
pub open spec fn ws_prefix_len(s: Seq<char>) -> nat
    decreases s.len(),
{
    if s.len() > 0 && is_white_space(s[0]) {
        1 + ws_prefix_len(s.drop_first())
    } else {
        0
    }
}

/// Number of trailing white-space characters.
pub open spec fn ws_suffix_len(s: Seq<char>) -> nat
    decreases s.len(),
{
    if s.len() > 0 && is_white_space(s.last()) {
        1 + ws_suffix_len(s.drop_last())
    } else {
        0
    }
}

/// `str::trim_start`.
pub open spec fn trim_start(s: Seq<char>) -> Seq<char> {
    s.skip(ws_prefix_len(s) as int)
}

/// `str::trim_end`.
pub open spec fn trim_end(s: Seq<char>) -> Seq<char> {
    s.take(s.len() - ws_suffix_len(s))
}

/// `str::trim`.
pub open spec fn trim(s: Seq<char>) -> Seq<char> {
    trim_end(trim_start(s))
}

pub proof fn lemma_ws_prefix_len(s: Seq<char>, k: int)
    requires
        0 <= k <= s.len(),
        forall|i: int| 0 <= i < k ==> is_white_space(#[trigger] s[i]),
        k == s.len() || !is_white_space(s[k]),
    ensures
        ws_prefix_len(s) == k,
    decreases k,
{
    if k > 0 {
        let t = s.drop_first();
        assert forall|i: int| 0 <= i < k - 1 implies is_white_space(#[trigger] t[i]) by {
            assert(t[i] == s[i + 1]);
        }
        if k < s.len() {
            assert(t[k - 1] == s[k]);
        }
        lemma_ws_prefix_len(t, k - 1);
    }
}

pub proof fn lemma_ws_suffix_len(s: Seq<char>, k: int)
    requires
        0 <= k <= s.len(),
        forall|i: int| s.len() - k <= i < s.len() ==> is_white_space(#[trigger] s[i]),
        k == s.len() || !is_white_space(s[s.len() - k - 1]),
    ensures
        ws_suffix_len(s) == k,
    decreases k,
{
    if k > 0 {
        let t = s.drop_last();
        assert forall|i: int| t.len() - (k - 1) <= i < t.len() implies is_white_space(
            #[trigger] t[i],
        ) by {
            assert(t[i] == s[i]);
        }
        if k < s.len() {
            assert(t[t.len() - (k - 1) - 1] == s[s.len() - k - 1]);
        }
        lemma_ws_suffix_len(t, k - 1);
    }
}

/// Bounds of `trim_start(s[lo..hi])` inside `s`.
pub fn trim_start_from(s: &[char], lo: usize, hi: usize) -> (r: usize)
    requires
        lo <= hi <= s@.len(),
    ensures
        lo <= r <= hi,
        s@.subrange(r as int, hi as int) == trim_start(s@.subrange(lo as int, hi as int)),
{
    let mut i = lo;
    while i < hi && is_whitespace(s[i])
        invariant
            lo <= i <= hi <= s@.len(),
            forall|j: int| lo <= j < i ==> is_white_space(#[trigger] s@[j]),
        decreases hi - i,
    {
        i = i + 1;
    }
    let ghost t = s@.subrange(lo as int, hi as int);
    proof {
        assert forall|j: int| 0 <= j < i - lo implies is_white_space(#[trigger] t[j]) by {
            assert(t[j] == s@[lo + j]);
        }
        if i < hi {
            assert(t[i - lo] == s@[i as int]);
        }
        lemma_ws_prefix_len(t, i - lo);
        assert(t.skip(i - lo) =~= s@.subrange(i as int, hi as int));
    }
    i
}

/// Bounds of `trim_end(s[lo..hi])` inside `s`.
pub fn trim_end_from(s: &[char], lo: usize, hi: usize) -> (r: usize)
    requires
        lo <= hi <= s@.len(),
    ensures
        lo <= r <= hi,
        s@.subrange(lo as int, r as int) == trim_end(s@.subrange(lo as int, hi as int)),
{
    let mut i = hi;
    while i > lo && is_whitespace(s[i - 1])
        invariant
            lo <= i <= hi <= s@.len(),
            forall|j: int| i <= j < hi ==> is_white_space(#[trigger] s@[j]),
        decreases i - lo,
    {
        i = i - 1;
    }
    let ghost t = s@.subrange(lo as int, hi as int);
    proof {
        let k = hi - i;
        assert forall|j: int| t.len() - k <= j < t.len() implies is_white_space(
            #[trigger] t[j],
        ) by {
            assert(t[j] == s@[lo + j]);
        }
        if i > lo {
            assert(t[t.len() - k - 1] == s@[i - 1]);
        }
        lemma_ws_suffix_len(t, k);
        assert(t.take(t.len() - k) =~= s@.subrange(lo as int, i as int));
    }
    i
}

/// Bounds of `trim(s[lo..hi])` inside `s`.
pub fn trim_from(s: &[char], lo: usize, hi: usize) -> (r: (usize, usize))
    requires
        lo <= hi <= s@.len(),
    ensures
        lo <= r.0 <= r.1 <= hi,
        s@.subrange(r.0 as int, r.1 as int) == trim(s@.subrange(lo as int, hi as int)),
{
    let a = trim_start_from(s, lo, hi);
    let b = trim_end_from(s, a, hi);
    (a, b)
}

// ───────────────────────── prefixes and searching ─────────────────────────

/// `str::starts_with` with a string pattern.
pub open spec fn starts_with(s: Seq<char>, p: Seq<char>) -> bool {
    p.len() <= s.len() && s.take(p.len() as int) == p
}

/// `str::ends_with` with a string pattern.
pub open spec fn ends_with(s: Seq<char>, p: Seq<char>) -> bool {
    p.len() <= s.len() && s.skip(s.len() - p.len()) == p
}

/// Whether `s[lo..hi]` starts with `p`.
pub fn starts_with_at(s: &[char], lo: usize, hi: usize, p: &[char]) -> (r: bool)
    requires
        lo <= hi <= s@.len(),
    ensures
        r == starts_with(s@.subrange(lo as int, hi as int), p@),
{
    if p.len() > hi - lo {
        return false;
    }
    let mut i: usize = 0;
    while i < p.len()
        invariant
            p@.len() <= hi - lo,
            lo <= hi <= s@.len(),
            i <= p@.len(),
            forall|j: int| 0 <= j < i ==> s@[lo + j] == p@[j],
        decreases p@.len() - i,
    {
        if s[lo + i] != p[i] {
            assert(s@.subrange(lo as int, hi as int).take(p@.len() as int)[i as int] != p@[i as int]);
            return false;
        }
        i = i + 1;
    }
    assert(s@.subrange(lo as int, hi as int).take(p@.len() as int) =~= p@);
    true
}

/// Index of the first `c` in `s` (`str::find` with a `char` pattern).
pub open spec fn find_char(s: Seq<char>, c: char) -> Option<int>
    decreases s.len(),
{
    if s.len() == 0 {
        None
    } else if s[0] == c {
        Some(0)
    } else {
        match find_char(s.drop_first(), c) {
            Some(i) => Some(i + 1),
            None => None,
        }
    }
}

pub proof fn lemma_find_char_some(s: Seq<char>, c: char, k: int)
    requires
        0 <= k < s.len(),
        s[k] == c,
        forall|i: int| 0 <= i < k ==> #[trigger] s[i] != c,
    ensures
        find_char(s, c) == Some(k),
    decreases k,
{
    if k > 0 {
        let t = s.drop_first();
        assert forall|i: int| 0 <= i < k - 1 implies #[trigger] t[i] != c by {
            assert(t[i] == s[i + 1]);
        }
        lemma_find_char_some(t, c, k - 1);
    }
}

pub proof fn lemma_find_char_none(s: Seq<char>, c: char)
    requires
        forall|i: int| 0 <= i < s.len() ==> #[trigger] s[i] != c,
    ensures
        find_char(s, c) is None,
    decreases s.len(),
{
    if s.len() > 0 {
        let t = s.drop_first();
        assert forall|i: int| 0 <= i < t.len() implies #[trigger] t[i] != c by {
            assert(t[i] == s[i + 1]);
        }
        lemma_find_char_none(t, c);
    }
}

pub proof fn lemma_find_char_facts(s: Seq<char>, c: char)
    ensures
        find_char(s, c) matches Some(k) ==> 0 <= k < s.len() && s[k] == c && forall|i: int|
            0 <= i < k ==> #[trigger] s[i] != c,
        find_char(s, c) is None ==> forall|i: int| 0 <= i < s.len() ==> #[trigger] s[i] != c,
    decreases s.len(),
{
    if s.len() > 0 {
        lemma_find_char_facts(s.drop_first(), c);
        if s[0] != c {
            let t = s.drop_first();
            assert forall|i: int| 1 <= i < s.len() implies s[i] == t[i - 1] by {}
        }
    }
}

/// Position of the first `c` in `s[lo..hi]`, relative to `lo`.
pub fn find_char_in(s: &[char], lo: usize, hi: usize, c: char) -> (r: Option<usize>)
    requires
        lo <= hi <= s@.len(),
    ensures
        match r {
            Some(k) => find_char(s@.subrange(lo as int, hi as int), c) == Some(k as int),
            None => find_char(s@.subrange(lo as int, hi as int), c) is None,
        },
{
    let ghost t = s@.subrange(lo as int, hi as int);
    let mut i = lo;
    while i < hi
        invariant
            lo <= i <= hi <= s@.len(),
            t == s@.subrange(lo as int, hi as int),
            forall|j: int| 0 <= j < i - lo ==> #[trigger] t[j] != c,
        decreases hi - i,
    {
        if s[i] == c {
            proof {
                lemma_find_char_some(t, c, i - lo);
            }
            return Some(i - lo);
        }
        i = i + 1;
    }
    proof {
        lemma_find_char_none(t, c);
    }
    None
}

// ───────────────────────── lines ─────────────────────────

/// Drops one trailing `'\r'`.
pub open spec fn strip_cr(s: Seq<char>) -> Seq<char> {
    if s.len() > 0 && s.last() == '\r' {
        s.drop_last()
    } else {
        s
    }
}

/// `str::lines`: pieces between `'\n'`, each without a trailing `"\r"` that
/// stood before its `'\n'`; an empty rest after the last `'\n'` is no line.
pub open spec fn lines(s: Seq<char>) -> Seq<Seq<char>>
    decreases s.len(),
{
    if s.len() == 0 {
        Seq::empty()
    } else {
        match find_char(s, '\n') {
            None => seq![s],
            Some(i) => {
                if 0 <= i < s.len() {
                    seq![strip_cr(s.take(i))] + lines(s.skip(i + 1))
                } else {
                    Seq::empty()
                }
            },
        }
    }
}

/// Half-open bounds `(lo, hi)` of a line inside its text.
pub open spec fn ranges_view(s: Seq<char>, r: Seq<(usize, usize)>) -> Seq<Seq<char>> {
    r.map_values(|p: (usize, usize)| s.subrange(p.0 as int, p.1 as int))
}

/// The bounds of each of `lines(s)` inside `s`.
pub fn line_ranges(s: &[char]) -> (r: Vec<(usize, usize)>)
    ensures
        ranges_view(s@, r@) == lines(s@),
        forall|i: int| 0 <= i < r@.len() ==> #[trigger] r@[i].0 <= r@[i].1 <= s@.len(),
{
    let mut r: Vec<(usize, usize)> = Vec::new();
    let mut start: usize = 0;
    proof {
        assert(s@.skip(0) =~= s@);
        assert(ranges_view(s@, r@) =~= Seq::<Seq<char>>::empty());
        assert(Seq::<Seq<char>>::empty() + lines(s@) =~= lines(s@));
    }
    while start < s.len()
        invariant
            start <= s@.len(),
            ranges_view(s@, r@) + lines(s@.skip(start as int)) == lines(s@),
            forall|i: int| 0 <= i < r@.len() ==> #[trigger] r@[i].0 <= r@[i].1 <= s@.len(),
        decreases s@.len() - start,
    {
        let ghost rest = s@.skip(start as int);
        assert(rest =~= s@.subrange(start as int, s@.len() as int));
        let f = find_char_in(s, start, s.len(), '\n');
        let ghost old_r = r@;
        match f {
            None => {
                r.push((start, s.len()));
                proof {
                    assert(lines(rest) == seq![rest]);
                    assert(ranges_view(s@, r@) =~= ranges_view(s@, old_r).push(rest));
                    assert(s@.skip(s@.len() as int) =~= Seq::<char>::empty());
                }
                start = s.len();
            },
            Some(k) => {
                proof {
                    lemma_find_char_facts(rest, '\n');
                }
                let e = start + k;
                let mut end = e;
                if end > start && s[end - 1] == '\r' {
                    end = end - 1;
                }
                r.push((start, end));
                proof {
                    let line = rest.take(k as int);
                    assert(line =~= s@.subrange(start as int, e as int));
                    assert(strip_cr(line) =~= s@.subrange(start as int, end as int));
                    assert(rest.skip(k + 1) =~= s@.skip(e + 1));
                    assert(lines(rest) == seq![strip_cr(line)] + lines(rest.skip(k + 1)));
                    assert(ranges_view(s@, r@) =~= ranges_view(s@, old_r).push(
                        strip_cr(line),
                    ));
                    assert(ranges_view(s@, r@) + lines(s@.skip(e + 1)) =~= ranges_view(
                        s@,
                        old_r,
                    ) + lines(rest));
                }
                start = e + 1;
            },
        }
    }
    proof {
        assert(s@.skip(start as int).len() == 0);
        assert(lines(s@.skip(start as int)) == Seq::<Seq<char>>::empty());
        assert(ranges_view(s@, r@) + Seq::<Seq<char>>::empty() =~= ranges_view(s@, r@));
    }
    r
}

/// The lines of `s`, as `str::lines` splits them.
pub fn split_lines(s: &str) -> (r: Vec<String>)
    ensures
        r@.map_values(|x: String| x@) == lines(s@),
{
    let cs = chars_of(s);
    let rs = line_ranges(cs.as_slice());
    let mut out: Vec<String> = Vec::new();
    let mut i: usize = 0;
    while i < rs.len()
        invariant
            i <= rs@.len(),
            cs@ == s@,
            ranges_view(cs@, rs@) == lines(s@),
            forall|k: int| 0 <= k < rs@.len() ==> #[trigger] rs@[k].0 <= rs@[k].1 <= cs@.len(),
            out@.map_values(|x: String| x@) == ranges_view(cs@, rs@).take(i as int),
        decreases rs@.len() - i,
    {
        let (lo, hi) = rs[i];
        let piece = copy_range(cs.as_slice(), lo, hi);
        let ghost before = out@;
        out.push(string_of(piece.as_slice()));
        proof {
            assert(ranges_view(cs@, rs@)[i as int] == cs@.subrange(lo as int, hi as int));
            assert(ranges_view(cs@, rs@).take(i + 1) =~= ranges_view(cs@, rs@).take(i as int).push(
                cs@.subrange(lo as int, hi as int),
            ));
            assert(out@.map_values(|x: String| x@) =~= before.map_values(|x: String| x@).push(
                out@[i as int]@,
            ));
        }
        i = i + 1;
    }
    proof {
        assert(ranges_view(cs@, rs@).take(rs@.len() as int) =~= ranges_view(cs@, rs@));
    }
    out
}

} // verus!
