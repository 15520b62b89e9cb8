//! Import lines: `import a.b;`, `import "file.ky";` and the grouped form
//! `import a.b.{X, Y};`, and the blanking of import lines before parsing.
use vstd::prelude::*;

use crate::text;
use crate::text::{
    chars_of, copy_range, find_char_in, is_whitespace, line_ranges, push_all, starts_with_at,
    string_of, trim_from, trim_start_from,
};

verus! {

/// The keyword `import`.
pub open spec fn import_kw() -> Seq<char> {
    seq!['i', 'm', 'p', 'o', 'r', 't']
}

/// `str::trim_end_matches` with a predicate: drops trailing characters that
/// satisfy `pred`.
pub open spec fn strip_trailing_by(s: Seq<char>, pred: spec_fn(char) -> bool) -> Seq<char>
    decreases s.len(),
{
    if s.len() > 0 && pred(s.last()) {
        strip_trailing_by(s.drop_last(), pred)
    } else {
        s
    }
}

pub open spec fn is_char(c: char) -> spec_fn(char) -> bool {
    |x: char| x == c
}

pub open spec fn is_dot_or_space() -> spec_fn(char) -> bool {
    |x: char| x == '.' || x == ' '
}

/// `t` as a one-element list when it is not empty, else no element.
pub open spec fn keep_nonempty(t: Seq<char>) -> Seq<Seq<char>> {
    if t.len() > 0 {
        seq![t]
    } else {
        Seq::empty()
    }
}

/// The comma-separated pieces of `s`, each trimmed, empty ones left out.
pub open spec fn group_items(s: Seq<char>) -> Seq<Seq<char>>
    decreases s.len(),
{
    match text::find_char(s, ',') {
        None => keep_nonempty(text::trim(s)),
        Some(i) => {
            if 0 <= i < s.len() {
                keep_nonempty(text::trim(s.take(i))) + group_items(s.skip(i + 1))
            } else {
                Seq::empty()
            }
        },
    }
}

/// `import <prefix>.<item>;`, or `import <item>;` when the prefix is empty.
pub open spec fn import_stmt(prefix: Seq<char>, item: Seq<char>) -> Seq<char> {
    import_kw() + seq![' '] + (if prefix.len() == 0 {
        item
    } else {
        prefix + seq!['.'] + item
    }) + seq![';']
}

/// What `expand_import_line` returns for `line`.
pub open spec fn expand_import(line: Seq<char>) -> Seq<Seq<char>> {
    let t = text::trim(line);
    if !text::starts_with(t, import_kw()) {
        seq![line]
    } else {
        let after = t.skip(6);
        if !(after.len() > 0 && (text::is_white_space(after[0]) || after[0] == '{')) {
            seq![line]
        } else {
            let rest = text::trim_start(after);
            if rest.len() > 0 && rest[0] == '"' {
                seq![line]
            } else {
                match text::find_char(rest, '{') {
                    None => seq![line],
                    Some(b) => {
                        let prefix = strip_trailing_by(rest.take(b), is_dot_or_space());
                        let inner = strip_trailing_by(
                            strip_trailing_by(rest.skip(b + 1), is_char(';')),
                            is_char('}'),
                        );
                        group_items(inner).map_values(|item: Seq<char>| import_stmt(prefix, item))
                    },
                }
            }
        }
    }
}

/// What `parse_import_path` returns for `line`.
pub open spec fn import_path(line: Seq<char>) -> Option<Seq<char>> {
    let t = text::trim(line);
    if !text::starts_with(t, import_kw()) {
        None
    } else {
        let rest = text::trim_start(t.skip(6));
        if !(rest.len() > 0 && rest.last() == ';') {
            None
        } else {
            let raw = text::trim(rest.drop_last());
            if raw.len() == 0 {
                None
            } else if raw.len() >= 2 && raw[0] == '"' && raw.last() == '"' {
                Some(raw.subrange(1, raw.len() - 1))
            } else {
                Some(raw)
            }
        }
    }
}

/// What one line becomes when import lines are blanked: the line and a
/// newline, or a lone newline for an import line.
pub open spec fn blanked_line(l: Seq<char>) -> Seq<char> {
    if import_path(l) is Some {
        seq!['\n']
    } else {
        l + seq!['\n']
    }
}

/// The lines of a text, in order, each replaced by its `blanked_line`.
pub open spec fn blank_lines(ls: Seq<Seq<char>>) -> Seq<char>
    decreases ls.len(),
{
    if ls.len() == 0 {
        Seq::empty()
    } else {
        blank_lines(ls.drop_last()) + blanked_line(ls.last())
    }
}

/// What `preprocess_source` returns for a text.
pub open spec fn preprocessed(src: Seq<char>) -> Seq<char> {
    blank_lines(text::lines(src))
}

/// What a line of a text becomes when import lines are blanked.
pub open spec fn blanked_content(l: Seq<char>) -> Seq<char> {
    if import_path(l) is Some {
        Seq::empty()
    } else {
        l
    }
}

/// Each of `ms` followed by a newline, first to last.
pub open spec fn terminated(ms: Seq<Seq<char>>) -> Seq<char>
    decreases ms.len(),
{
    if ms.len() == 0 {
        Seq::empty()
    } else {
        ms[0] + seq!['\n'] + terminated(ms.drop_first())
    }
}

proof fn lemma_terminated_push(ms: Seq<Seq<char>>, x: Seq<char>)
    ensures
        terminated(ms.push(x)) == terminated(ms) + x + seq!['\n'],
    decreases ms.len(),
{
    if ms.len() == 0 {
        assert(ms.push(x).drop_first() =~= Seq::<Seq<char>>::empty());
        assert(terminated(ms.push(x).drop_first()) == Seq::<char>::empty());
        assert(ms.push(x)[0] == x);
        assert(terminated(ms) == Seq::<char>::empty());
        assert(terminated(ms.push(x)) =~= x + seq!['\n']);
    } else {
        assert(ms.push(x).drop_first() =~= ms.drop_first().push(x));
        lemma_terminated_push(ms.drop_first(), x);
        assert(terminated(ms.push(x)) =~= terminated(ms) + x + seq!['\n']);
    }
}

proof fn lemma_blank_lines_terminated(ls: Seq<Seq<char>>)
    ensures
        blank_lines(ls) == terminated(ls.map_values(|l: Seq<char>| blanked_content(l))),
    decreases ls.len(),
{
    if ls.len() > 0 {
        lemma_blank_lines_terminated(ls.drop_last());
        let ms = ls.drop_last().map_values(|l: Seq<char>| blanked_content(l));
        assert(ls.map_values(|l: Seq<char>| blanked_content(l)) =~= ms.push(blanked_content(ls.last())));
        lemma_terminated_push(ms, blanked_content(ls.last()));
        assert(blanked_line(ls.last()) =~= blanked_content(ls.last()) + seq!['\n']);
    } else {
        assert(ls.map_values(|l: Seq<char>| blanked_content(l)) =~= Seq::<Seq<char>>::empty());
    }
}

/// Whether `s` holds no newline.
pub open spec fn no_newline(s: Seq<char>) -> bool {
    forall|i: int| 0 <= i < s.len() ==> s[i] != '\n'
}

proof fn lemma_lines_no_newline(s: Seq<char>)
    ensures
        forall|i: int| 0 <= i < text::lines(s).len() ==> no_newline(#[trigger] text::lines(s)[i]),
    decreases s.len(),
{
    if s.len() > 0 {
        text::lemma_find_char_facts(s, '\n');
        match text::find_char(s, '\n') {
            None => {},
            Some(i) => {
                lemma_lines_no_newline(s.skip(i + 1));
                let first = text::strip_cr(s.take(i));
                assert(no_newline(first));
                let rest = text::lines(s.skip(i + 1));
                assert forall|k: int| 0 <= k < text::lines(s).len() implies no_newline(#[trigger] text::lines(s)[k]) by {
                    if k > 0 {
                        assert(text::lines(s)[k] == rest[k - 1]);
                    }
                }
            },
        }
    }
}

proof fn lemma_lines_of_terminated(ms: Seq<Seq<char>>)
    requires
        forall|i: int| 0 <= i < ms.len() ==> no_newline(#[trigger] ms[i]),
    ensures
        text::lines(terminated(ms)) == ms.map_values(|m: Seq<char>| text::strip_cr(m)),
    decreases ms.len(),
{
    if ms.len() == 0 {
        assert(ms.map_values(|m: Seq<char>| text::strip_cr(m)) =~= Seq::<Seq<char>>::empty());
    } else {
        let m0 = ms[0];
        let rest = ms.drop_first();
        assert forall|i: int| 0 <= i < rest.len() implies no_newline(#[trigger] rest[i]) by {
            assert(rest[i] == ms[i + 1]);
        }
        lemma_lines_of_terminated(rest);
        let s = terminated(ms);
        assert(s =~= m0 + seq!['\n'] + terminated(rest));
        assert forall|k: int| 0 <= k < m0.len() implies #[trigger] s[k] != '\n' by {
            assert(s[k] == m0[k]);
        }
        assert(s[m0.len() as int] == '\n');
        text::lemma_find_char_some(s, '\n', m0.len() as int);
        assert(s.take(m0.len() as int) =~= m0);
        assert(s.skip(m0.len() as int + 1) =~= terminated(rest));
        assert(text::lines(s) =~= seq![text::strip_cr(m0)] + text::lines(terminated(rest)));
        assert(ms.map_values(|m: Seq<char>| text::strip_cr(m)) =~= seq![text::strip_cr(m0)]
            + rest.map_values(|m: Seq<char>| text::strip_cr(m)));
    }
}

/// Preprocessing keeps the lines where they were: the result has as many
/// lines as the source, an import line becomes an empty line, and any other
/// line stays as it was, up to one `'\r'` at its end.
pub proof fn lemma_preprocess_keeps_lines(src: Seq<char>)
    ensures
        text::lines(preprocessed(src)).len() == text::lines(src).len(),
        forall|i: int|
            0 <= i < text::lines(src).len() ==> #[trigger] text::lines(preprocessed(src))[i]
                == text::strip_cr(blanked_content(text::lines(src)[i])),
{
    let ls = text::lines(src);
    let ms = ls.map_values(|l: Seq<char>| blanked_content(l));
    lemma_blank_lines_terminated(ls);
    lemma_lines_no_newline(src);
    assert forall|i: int| 0 <= i < ms.len() implies no_newline(#[trigger] ms[i]) by {
        assert(ms[i] == blanked_content(ls[i]));
        assert(no_newline(ls[i]));
    }
    lemma_lines_of_terminated(ms);
}

pub proof fn lemma_strip_trailing_by(s: Seq<char>, pred: spec_fn(char) -> bool, j: int)
    requires
        0 <= j <= s.len(),
        forall|i: int| j <= i < s.len() ==> pred(#[trigger] s[i]),
        j == 0 || !pred(s[j - 1]),
    ensures
        strip_trailing_by(s, pred) == s.take(j),
    decreases s.len() - j,
{
    if j == s.len() {
        assert(s.take(j) =~= s);
    } else {
        let t = s.drop_last();
        assert forall|i: int| j <= i < t.len() implies pred(#[trigger] t[i]) by {
            assert(t[i] == s[i]);
        }
        if j > 0 {
            assert(t[j - 1] == s[j - 1]);
        }
        lemma_strip_trailing_by(t, pred, j);
        assert(t.take(j) =~= s.take(j));
    }
}

/// End of `strip_trailing_by(s[lo..hi], is_char(c))` inside `s`.
fn strip_trailing_char(s: &[char], lo: usize, hi: usize, c: char) -> (r: usize)
    requires
        lo <= hi <= s@.len(),
    ensures
        lo <= r <= hi,
        s@.subrange(lo as int, r as int) == strip_trailing_by(
            s@.subrange(lo as int, hi as int),
            is_char(c),
        ),
{
    let mut i = hi;
    while i > lo && s[i - 1] == c
        invariant
            lo <= i <= hi <= s@.len(),
            forall|j: int| i <= j < hi ==> #[trigger] s@[j] == c,
        decreases i - lo,
    {
        i = i - 1;
    }
    let ghost t = s@.subrange(lo as int, hi as int);
    proof {
        assert forall|j: int| i - lo <= j < t.len() implies is_char(c)(#[trigger] t[j]) by {
            assert(t[j] == s@[lo + j]);
        }
        if i > lo {
            assert(t[i - lo - 1] == s@[i - 1]);
        }
        lemma_strip_trailing_by(t, is_char(c), i - lo);
        assert(t.take(i - lo) =~= s@.subrange(lo as int, i as int));
    }
    i
}

/// End of `strip_trailing_by(s[lo..hi], is_dot_or_space())` inside `s`.
fn strip_trailing_dots_spaces(s: &[char], lo: usize, hi: usize) -> (r: usize)
    requires
        lo <= hi <= s@.len(),
    ensures
        lo <= r <= hi,
        s@.subrange(lo as int, r as int) == strip_trailing_by(
            s@.subrange(lo as int, hi as int),
            is_dot_or_space(),
        ),
{
    let mut i = hi;
    while i > lo && (s[i - 1] == '.' || s[i - 1] == ' ')
        invariant
            lo <= i <= hi <= s@.len(),
            forall|j: int| i <= j < hi ==> #[trigger] s@[j] == '.' || s@[j] == ' ',
        decreases i - lo,
    {
        i = i - 1;
    }
    let ghost t = s@.subrange(lo as int, hi as int);
    proof {
        assert forall|j: int| i - lo <= j < t.len() implies is_dot_or_space()(
            #[trigger] t[j],
        ) by {
            assert(t[j] == s@[lo + j]);
        }
        if i > lo {
            assert(t[i - lo - 1] == s@[i - 1]);
        }
        lemma_strip_trailing_by(t, is_dot_or_space(), i - lo);
        assert(t.take(i - lo) =~= s@.subrange(lo as int, i as int));
    }
    i
}

/// The bounds inside `s` of each of `group_items(s[lo..hi])`.
pub(crate) fn group_item_ranges(s: &[char], lo: usize, hi: usize) -> (r: Vec<(usize, usize)>)
    requires
        lo <= hi <= s@.len(),
    ensures
        text::ranges_view(s@, r@) == group_items(s@.subrange(lo as int, hi as int)),
        forall|i: int| 0 <= i < r@.len() ==> #[trigger] r@[i].0 <= r@[i].1 <= s@.len(),
{
    let mut r: Vec<(usize, usize)> = Vec::new();
    let mut pos = lo;
    proof {
        assert(text::ranges_view(s@, r@) =~= Seq::<Seq<char>>::empty());
        assert(Seq::<Seq<char>>::empty() + group_items(s@.subrange(lo as int, hi as int))
            =~= group_items(s@.subrange(lo as int, hi as int)));
    }
    loop
        invariant
            lo <= pos <= hi <= s@.len(),
            text::ranges_view(s@, r@) + group_items(s@.subrange(pos as int, hi as int)) == group_items(
                s@.subrange(lo as int, hi as int),
            ),
            forall|i: int| 0 <= i < r@.len() ==> #[trigger] r@[i].0 <= r@[i].1 <= s@.len(),
        ensures
            text::ranges_view(s@, r@) == group_items(s@.subrange(lo as int, hi as int)),
            forall|i: int| 0 <= i < r@.len() ==> #[trigger] r@[i].0 <= r@[i].1 <= s@.len(),
        decreases hi - pos,
    {
        let ghost sub = s@.subrange(pos as int, hi as int);
        let ghost old_r = r@;
        let f = find_char_in(s, pos, hi, ',');
        match f {
            None => {
                let (a, b) = trim_from(s, pos, hi);
                if a < b {
                    r.push((a, b));
                }
                proof {
                    assert(group_items(sub) == keep_nonempty(text::trim(sub)));
                    if a < b {
                        assert(text::ranges_view(s@, r@) =~= text::ranges_view(s@, old_r) + keep_nonempty(
                            text::trim(sub),
                        ));
                    } else {
                        assert(text::ranges_view(s@, r@) =~= text::ranges_view(s@, old_r) + keep_nonempty(
                            text::trim(sub),
                        ));
                    }
                }
                return r;
            },
            Some(k) => {
                proof {
                    text::lemma_find_char_facts(sub, ',');
                }
                let e = pos + k;
                let (a, b) = trim_from(s, pos, e);
                if a < b {
                    r.push((a, b));
                }
                proof {
                    assert(sub.take(k as int) =~= s@.subrange(pos as int, e as int));
                    assert(sub.skip(k + 1) =~= s@.subrange(e + 1, hi as int));
                    assert(group_items(sub) == keep_nonempty(text::trim(sub.take(k as int)))
                        + group_items(sub.skip(k + 1)));
                    assert(text::ranges_view(s@, r@) =~= text::ranges_view(s@, old_r) + keep_nonempty(
                        text::trim(sub.take(k as int)),
                    ));
                    assert(text::ranges_view(s@, r@) + group_items(s@.subrange(e + 1, hi as int))
                        =~= text::ranges_view(s@, old_r) + group_items(sub));
                }
                pos = e + 1;
            },
        }
    }
}

/// Builds `import_stmt(s[p0..p1], s[i0..i1])`.
fn build_import_stmt(s: &[char], p0: usize, p1: usize, i0: usize, i1: usize) -> (r: Vec<char>)
    requires
        p0 <= p1 <= s@.len(),
        i0 <= i1 <= s@.len(),
    ensures
        r@ == import_stmt(s@.subrange(p0 as int, p1 as int), s@.subrange(i0 as int, i1 as int)),
{
    let mut v: Vec<char> = Vec::new();
    v.push('i');
    v.push('m');
    v.push('p');
    v.push('o');
    v.push('r');
    v.push('t');
    v.push(' ');
    let ghost head = v@;
    assert(head =~= import_kw() + seq![' ']);
    if p0 < p1 {
        let p = copy_range(s, p0, p1);
        push_all(&mut v, p.as_slice());
        v.push('.');
    }
    let it = copy_range(s, i0, i1);
    push_all(&mut v, it.as_slice());
    v.push(';');
    proof {
        let prefix = s@.subrange(p0 as int, p1 as int);
        let item = s@.subrange(i0 as int, i1 as int);
        if p0 < p1 {
            assert(v@ =~= import_stmt(prefix, item));
        } else {
            assert(prefix.len() == 0);
            assert(v@ =~= import_stmt(prefix, item));
        }
    }
    v
}

/// The text views of a list of strings.
pub open spec fn strings_view(v: Seq<String>) -> Seq<Seq<char>> {
    v.map_values(|x: String| x@)
}

/// Expands `import a.b.{X, Y, Z};` into `import a.b.X;`, `import a.b.Y;` and
/// `import a.b.Z;`. Any other line comes back unchanged as the only element;
/// a group with no item gives no line.
pub fn expand_import_line(line: &str) -> (r: Vec<String>)
    ensures
        strings_view(r@) == expand_import(line@),
{
    let s = chars_of(line);
    let n = s.len();
    let (a, b) = trim_from(s.as_slice(), 0, n);
    let ghost t = s@.subrange(a as int, b as int);
    proof {
        assert(s@.subrange(0, n as int) =~= s@);
    }
    let mut unchanged: Vec<String> = Vec::new();
    unchanged.push(string_of(s.as_slice()));
    proof {
        assert(strings_view(unchanged@) =~= seq![line@]);
    }
    let kw = ['i', 'm', 'p', 'o', 'r', 't'];
    let kw_s = kw.as_slice();
    assert(kw_s@ =~= import_kw());
    if !starts_with_at(s.as_slice(), a, b, kw_s) {
        return unchanged;
    }
    let c6 = a + 6;
    proof {
        assert(t.skip(6) =~= s@.subrange(c6 as int, b as int));
    }
    if !(c6 < b && (is_whitespace(s[c6]) || s[c6] == '{')) {
        return unchanged;
    }
    let r0 = trim_start_from(s.as_slice(), c6, b);
    let ghost rest = s@.subrange(r0 as int, b as int);
    if r0 < b && s[r0] == '"' {
        return unchanged;
    }
    let f = find_char_in(s.as_slice(), r0, b, '{');
    match f {
        None => {
            return unchanged;
        },
        Some(k) => {
            proof {
                text::lemma_find_char_facts(rest, '{');
            }
            let bs = r0 + k;
            let p1 = strip_trailing_dots_spaces(s.as_slice(), r0, bs);
            let q0 = strip_trailing_char(s.as_slice(), bs + 1, b, ';');
            let q1 = strip_trailing_char(s.as_slice(), bs + 1, q0, '}');
            proof {
                assert(rest.take(k as int) =~= s@.subrange(r0 as int, bs as int));
                assert(rest.skip(k + 1) =~= s@.subrange(bs + 1, b as int));
            }
            let items = group_item_ranges(s.as_slice(), bs + 1, q1);
            let ghost prefix = s@.subrange(r0 as int, p1 as int);
            let ghost want = text::ranges_view(s@, items@).map_values(
                |item: Seq<char>| import_stmt(prefix, item),
            );
            let mut out: Vec<String> = Vec::new();
            let mut i: usize = 0;
            while i < items.len()
                invariant
                    i <= items@.len(),
                    r0 <= p1 <= s@.len(),
                    prefix == s@.subrange(r0 as int, p1 as int),
                    want == text::ranges_view(s@, items@).map_values(
                        |item: Seq<char>| import_stmt(prefix, item),
                    ),
                    forall|j: int| 0 <= j < items@.len() ==> #[trigger] items@[j].0 <= items@[j].1
                        <= s@.len(),
                    strings_view(out@) == want.take(i as int),
                decreases items@.len() - i,
            {
                let (x, y) = items[i];
                let st = build_import_stmt(s.as_slice(), r0, p1, x, y);
                let ghost old_out = out@;
                out.push(string_of(st.as_slice()));
                proof {
                    assert(items@[i as int].0 <= items@[i as int].1 <= s@.len());
                    assert(strings_view(out@) =~= strings_view(old_out).push(st@));
                    assert(want.take(i + 1) =~= want.take(i as int).push(want[i as int]));
                }
                i = i + 1;
            }
            proof {
                assert(want.take(items@.len() as int) =~= want);
            }
            out
        },
    }
}

/// The path named by an import line: `import a.b;` gives `a.b`, and
/// `import "x.ky";` gives `x.ky`. `None` for any other line.
pub fn parse_import_path(line: &str) -> (r: Option<String>)
    ensures
        match r {
            Some(p) => import_path(line@) == Some(p@),
            None => import_path(line@) is None,
        },
{
    let s = chars_of(line);
    match import_path_range(s.as_slice()) {
        Some((x, y)) => Some(string_of(&s.as_slice()[x..y])),
        None => None,
    }
}

/// Bounds inside `s` of `import_path(s)`.
#[verifier::rlimit(40)]
fn import_path_range(s: &[char]) -> (r: Option<(usize, usize)>)
    ensures
        match r {
            Some(p) => p.0 <= p.1 <= s@.len() && import_path(s@) == Some(
                s@.subrange(p.0 as int, p.1 as int),
            ),
            None => import_path(s@) is None,
        },
{
    let n = s.len();
    proof {
        assert(s@.subrange(0, n as int) =~= s@);
    }
    let (a, b) = trim_from(s, 0, n);
    let ghost t = s@.subrange(a as int, b as int);
    let kw = ['i', 'm', 'p', 'o', 'r', 't'];
    let kw_s = kw.as_slice();
    assert(kw_s@ =~= import_kw());
    if !starts_with_at(s, a, b, kw_s) {
        return None;
    }
    let c6 = a + 6;
    proof {
        assert(t.skip(6) =~= s@.subrange(c6 as int, b as int));
    }
    let r0 = trim_start_from(s, c6, b);
    let ghost rest = s@.subrange(r0 as int, b as int);
    if !(r0 < b && s[b - 1] == ';') {
        return None;
    }
    proof {
        assert(rest.drop_last() =~= s@.subrange(r0 as int, b - 1));
    }
    let (x, y) = trim_from(s, r0, b - 1);
    let ghost raw = s@.subrange(x as int, y as int);
    if x == y {
        return None;
    }
    if y - x >= 2 && s[x] == '"' && s[y - 1] == '"' {
        proof {
            assert(raw.subrange(1, raw.len() - 1) =~= s@.subrange(x + 1, y - 1));
        }
        return Some((x + 1, y - 1));
    }
    Some((x, y))
}

/// Whether a line is an import line (`parse_import_path` gives a path).
pub fn is_import_line(line: &str) -> (r: bool)
    ensures
        r == (import_path(line@) is Some),
{
    let s = chars_of(line);
    import_path_range(s.as_slice()).is_some()
}

/// Appends the blanked form of `src[lo..hi]`, line by line, to `out`.
fn push_blanked(src: &[char], out: &mut Vec<char>)
    ensures
        final(out)@ == old(out)@ + preprocessed(src@),
{
    let ls = line_ranges(src);
    let ghost all = text::lines(src@);
    let ghost o0 = out@;
    let mut i: usize = 0;
    proof {
        assert(text::ranges_view(src@, ls@).take(0) =~= Seq::<Seq<char>>::empty());
        assert(o0 + Seq::<char>::empty() =~= o0);
    }
    while i < ls.len()
        invariant
            i <= ls@.len(),
            text::ranges_view(src@, ls@) == all,
            all == text::lines(src@),
            forall|j: int| 0 <= j < ls@.len() ==> #[trigger] ls@[j].0 <= ls@[j].1 <= src@.len(),
            out@ == o0 + blank_lines(all.take(i as int)),
        decreases ls@.len() - i,
    {
        let (x, y) = ls[i];
        proof {
            assert(ls@[i as int].0 <= ls@[i as int].1 <= src@.len());
        }
        let ghost l = src@.subrange(x as int, y as int);
        assert(all[i as int] == l);
        let imp = import_path_range(&src[x..y]);
        if imp.is_none() {
            let ghost before = out@;
            push_all(out, &src[x..y]);
        }
        out.push('\n');
        proof {
            assert(all.take(i + 1).drop_last() =~= all.take(i as int));
            assert(all.take(i + 1).last() == l);
            assert(out@ =~= o0 + blank_lines(all.take(i + 1)));
        }
        i = i + 1;
    }
    proof {
        assert(all.take(ls@.len() as int) =~= all);
    }
}

/// Replaces every import line of `src` by an empty line and ends every line
/// with a newline, so that positions in the result name the same lines as
/// in `src`.
pub fn preprocess_source(src: &str) -> (r: String)
    ensures
        r@ == preprocessed(src@),
{
    let s = chars_of(src);
    let mut out: Vec<char> = Vec::new();
    push_blanked(s.as_slice(), &mut out);
    assert(out@ =~= preprocessed(src@));
    string_of(out.as_slice())
}

/// Appends `preprocess_source(src)` to `out`.
pub fn append_non_import_lines(src: &str, out: &mut String)
    ensures
        final(out)@ == old(out)@ + preprocessed(src@),
{
    let mut v = chars_of(out.as_str());
    let s = chars_of(src);
    push_blanked(s.as_slice(), &mut v);
    *out = string_of(v.as_slice());
}


// ───────────────────────── grouped imports, one by one ─────────────────────────

/// `items` joined with `", "`.
pub open spec fn comma_joined(items: Seq<Seq<char>>) -> Seq<char>
    decreases items.len(),
{
    if items.len() <= 1 {
        if items.len() == 1 {
            items[0]
        } else {
            Seq::empty()
        }
    } else {
        items[0] + ", "@ + comma_joined(items.drop_first())
    }
}

/// An item of a group: not empty, without white space at either end, and
/// without `,`, `{`, `}` or `;`.
pub open spec fn plain_item(x: Seq<char>) -> bool {
    &&& x.len() > 0
    &&& !text::is_white_space(x[0])
    &&& !text::is_white_space(x.last())
    &&& forall|i: int| 0 <= i < x.len() ==> #[trigger] x[i] != ',' && x[i] != '{' && x[i] != '}' && x[i] != ';'
}

/// The prefix of a grouped import: not empty, starting with neither white
/// space nor `"`, ending in neither `.` nor a space, and without `{`.
pub open spec fn plain_prefix(p: Seq<char>) -> bool {
    &&& p.len() > 0
    &&& !text::is_white_space(p[0])
    &&& p[0] != '"'
    &&& p.last() != '.'
    &&& p.last() != ' '
    &&& forall|i: int| 0 <= i < p.len() ==> #[trigger] p[i] != '{'
}

proof fn lemma_trim_plain(w: Seq<char>, x: Seq<char>)
    requires
        plain_item(x),
        forall|i: int| 0 <= i < w.len() ==> text::is_white_space(#[trigger] w[i]),
    ensures
        text::trim(w + x) == x,
{
    let s = w + x;
    assert forall|i: int| 0 <= i < w.len() implies text::is_white_space(#[trigger] s[i]) by {
        assert(s[i] == w[i]);
    }
    assert(s[w.len() as int] == x[0]);
    text::lemma_ws_prefix_len(s, w.len() as int);
    assert(text::trim_start(s) =~= x);
    text::lemma_ws_suffix_len(x, 0);
    assert(x.take(x.len() as int) =~= x);
}

proof fn lemma_group_joined(w: Seq<char>, items: Seq<Seq<char>>)
    requires
        items.len() > 0,
        forall|k: int| 0 <= k < items.len() ==> plain_item(#[trigger] items[k]),
        forall|i: int| 0 <= i < w.len() ==> text::is_white_space(#[trigger] w[i]),
    ensures
        group_items(w + comma_joined(items)) == items,
    decreases items.len(),
{
    reveal_strlit(", ");
    let x = items[0];
    assert(plain_item(x));
    let s = w + comma_joined(items);
    if items.len() == 1 {
        assert(s == w + x);
        assert forall|i: int| 0 <= i < s.len() implies #[trigger] s[i] != ',' by {
            if i >= w.len() {
                assert(s[i] == x[i - w.len()]);
            } else {
                assert(s[i] == w[i]);
            }
        }
        text::lemma_find_char_none(s, ',');
        lemma_trim_plain(w, x);
        assert(group_items(s) =~= items);
    } else {
        let rest = items.drop_first();
        let tail = comma_joined(rest);
        assert(s =~= w + x + ", "@ + tail);
        let k = (w.len() + x.len()) as int;
        assert(s[k] == ',');
        assert forall|i: int| 0 <= i < k implies #[trigger] s[i] != ',' by {
            if i >= w.len() {
                assert(s[i] == x[i - w.len()]);
            } else {
                assert(s[i] == w[i]);
            }
        }
        text::lemma_find_char_some(s, ',', k);
        assert(s.take(k) =~= w + x);
        lemma_trim_plain(w, x);
        assert(s.skip(k + 1) =~= seq![' '] + tail);
        assert forall|j: int| 0 <= j < rest.len() implies plain_item(#[trigger] rest[j]) by {
            assert(rest[j] == items[j + 1]);
        }
        lemma_group_joined(seq![' '], rest);
        assert(group_items(s) =~= seq![x] + rest);
        assert(seq![x] + rest =~= items);
    }
}

proof fn lemma_joined_facts(items: Seq<Seq<char>>)
    requires
        items.len() > 0,
        forall|k: int| 0 <= k < items.len() ==> plain_item(#[trigger] items[k]),
    ensures
        comma_joined(items).len() > 0,
        comma_joined(items).last() == items.last().last(),
        forall|i: int| 0 <= i < comma_joined(items).len() ==> #[trigger] comma_joined(items)[i] != '{'
            && comma_joined(items)[i] != '}' && comma_joined(items)[i] != ';',
    decreases items.len(),
{
    reveal_strlit(", ");
    let x = items[0];
    assert(plain_item(x));
    if items.len() > 1 {
        let rest = items.drop_first();
        assert forall|j: int| 0 <= j < rest.len() implies plain_item(#[trigger] rest[j]) by {
            assert(rest[j] == items[j + 1]);
        }
        lemma_joined_facts(rest);
        let s = comma_joined(items);
        let tail = comma_joined(rest);
        assert(s =~= x + ", "@ + tail);
        assert forall|i: int| 0 <= i < s.len() implies #[trigger] s[i] != '{' && s[i] != '}' && s[i] != ';' by {
            if i < x.len() {
                assert(s[i] == x[i]);
            } else if i >= x.len() + 2 {
                assert(s[i] == tail[i - x.len() - 2]);
            }
        }
        assert(rest.last() == items.last());
    }
}

/// The import `import p.x;` of one item reads back as the path `p.x`.
pub proof fn lemma_import_stmt_path(p: Seq<char>, x: Seq<char>)
    requires
        plain_prefix(p),
        plain_item(x),
    ensures
        import_path(import_stmt(p, x)) == Some(p + seq!['.'] + x),
{
    let l = import_stmt(p, x);
    assert(l =~= import_kw() + seq![' '] + p + seq!['.'] + x + seq![';']);
    text::lemma_ws_prefix_len(l, 0);
    text::lemma_ws_suffix_len(l, 0);
    assert(text::trim_start(l) =~= l);
    assert(text::trim(l) =~= l);
    assert(l.take(6) =~= import_kw());
    let after = l.skip(6);
    let body = p + seq!['.'] + x + seq![';'];
    assert(after =~= seq![' '] + body);
    assert(body[0] == p[0]);
    text::lemma_ws_prefix_len(after, 1);
    assert(text::trim_start(after) =~= body);
    let raw = p + seq!['.'] + x;
    assert(body.drop_last() =~= raw);
    assert(raw[0] == p[0]);
    assert(raw.last() == x.last());
    text::lemma_ws_prefix_len(raw, 0);
    text::lemma_ws_suffix_len(raw, 0);
    assert(text::trim_start(raw) =~= raw);
    assert(text::trim(raw) =~= raw);
}

/// A grouped import `import p.{a, b, ...};` expands to one import per
/// item, in order: `import p.a;`, `import p.b;`, ...; each reads back as
/// the path `p.a`, `p.b`, ...
pub proof fn lemma_grouped_import(line: Seq<char>, p: Seq<char>, items: Seq<Seq<char>>)
    requires
        items.len() > 0,
        plain_prefix(p),
        forall|k: int| 0 <= k < items.len() ==> plain_item(#[trigger] items[k]),
        text::trim(line) == "import "@ + p + ".{"@ + comma_joined(items) + "};"@,
    ensures
        expand_import(line) == items.map_values(|it: Seq<char>| import_stmt(p, it)),
        forall|k: int| 0 <= k < items.len() ==> import_path(#[trigger] expand_import(line)[k]) == Some(
            p + seq!['.'] + items[k],
        ),
{
    reveal_strlit("import ");
    reveal_strlit(".{");
    reveal_strlit("};");
    let j = comma_joined(items);
    lemma_joined_facts(items);
    let t = text::trim(line);
    assert(t.take(6) =~= import_kw());
    let after = t.skip(6);
    assert(after =~= seq![' '] + p + ".{"@ + j + "};"@);
    assert(text::is_white_space(after[0]));
    let body = p + ".{"@ + j + "};"@;
    assert(after =~= seq![' '] + body);
    assert(body[0] == p[0]);
    text::lemma_ws_prefix_len(after, 1);
    assert(text::trim_start(after) =~= body);
    let b = p.len() as int + 1;
    assert(body[b] == '{');
    assert forall|i: int| 0 <= i < b implies #[trigger] body[i] != '{' by {
        if i < p.len() {
            assert(body[i] == p[i]);
        }
    }
    text::lemma_find_char_some(body, '{', b);
    assert(body.take(b) =~= p + seq!['.']);
    lemma_strip_trailing_by(p + seq!['.'], is_dot_or_space(), p.len() as int);
    assert((p + seq!['.']).take(p.len() as int) =~= p);
    let r1 = body.skip(b + 1);
    assert(r1 =~= j + "};"@);
    lemma_strip_trailing_by(r1, is_char(';'), j.len() as int + 1);
    assert(r1.take(j.len() as int + 1) =~= j + seq!['}']);
    lemma_strip_trailing_by(j + seq!['}'], is_char('}'), j.len() as int);
    assert((j + seq!['}']).take(j.len() as int) =~= j);
    assert(!(is_char('}'))(j.last()) && !(is_char(';'))(j.last()));
    lemma_group_joined(Seq::empty(), items);
    assert(Seq::<char>::empty() + j =~= j);
    assert(expand_import(line) == items.map_values(|it: Seq<char>| import_stmt(p, it)));
    assert forall|k: int| 0 <= k < items.len() implies import_path(#[trigger] expand_import(line)[k]) == Some(
        p + seq!['.'] + items[k],
    ) by {
        assert(plain_item(items[k]));
        lemma_import_stmt_path(p, items[k]);
    }
}


// ───────────────────────── the standard library ─────────────────────────

/// `str::split` on the character `c`: the pieces between the `c`s, empty
/// ones included.
pub open spec fn split_on(s: Seq<char>, c: char) -> Seq<Seq<char>>
    decreases s.len(),
{
    match text::find_char(s, c) {
        None => seq![s],
        Some(i) => if 0 <= i < s.len() {
            seq![s.take(i)] + split_on(s.skip(i + 1), c)
        } else {
            seq![s]
        },
    }
}

/// Where a standard-library import lives below a root directory: the
/// dot-separated parts of a path that is `std` or starts with `std.` (the
/// last part names a `.ky` file); none for any other path.
pub open spec fn std_parts(import_path: Seq<char>) -> Option<Seq<Seq<char>>> {
    if text::starts_with(import_path, "std."@) || import_path == "std"@ {
        Some(split_on(import_path, '.'))
    } else {
        None
    }
}

/// The parts of the path of a standard-library import (see `std_parts`).
pub fn std_path_parts(import_path: &str) -> (r: Option<Vec<String>>)
    ensures
        match r {
            Some(v) => std_parts(import_path@) == Some(strings_view(v@)),
            None => std_parts(import_path@) is None,
        },
{
    let s = chars_of(import_path);
    let prefix = chars_of("std.");
    let whole = chars_of("std");
    proof {
        reveal_strlit("std.");
        reveal_strlit("std");
    }
    let is_std = (prefix.len() <= s.len() && text::starts_with_at(s.as_slice(), 0, s.len(), prefix.as_slice()))
        || text::chars_eq(s.as_slice(), whole.as_slice());
    proof {
        assert(s@.subrange(0, s@.len() as int) =~= s@);
    }
    if !is_std {
        return None;
    }
    let mut out: Vec<String> = Vec::new();
    let mut pos: usize = 0;
    let n = s.len();
    proof {
        assert(s@.subrange(0, n as int) =~= s@);
        assert(strings_view(out@) + split_on(s@.subrange(0, n as int), '.') =~= split_on(s@, '.'));
    }
    loop
        invariant_except_break
            pos <= n == s@.len(),
            strings_view(out@) + split_on(s@.subrange(pos as int, n as int), '.') == split_on(s@, '.'),
        ensures
            strings_view(out@) == split_on(s@, '.'),
        decreases n - pos,
    {
        let ghost sub = s@.subrange(pos as int, n as int);
        let ghost before = strings_view(out@);
        proof {
            text::lemma_find_char_facts(sub, '.');
        }
        match find_char_in(s.as_slice(), pos, n, '.') {
            None => {
                out.push(string_of(text::copy_range(s.as_slice(), pos, n).as_slice()));
                proof {
                    assert(strings_view(out@) =~= before + seq![sub]);
                }
                break;
            },
            Some(k) => {
                out.push(string_of(text::copy_range(s.as_slice(), pos, pos + k).as_slice()));
                proof {
                    assert(sub.take(k as int) =~= s@.subrange(pos as int, pos + k));
                    assert(sub.skip(k + 1) =~= s@.subrange(pos + k + 1, n as int));
                    assert(strings_view(out@) =~= before + seq![sub.take(k as int)]);
                    assert(strings_view(out@) + split_on(s@.subrange(pos + k + 1, n as int), '.') =~= before + (
                    seq![sub.take(k as int)] + split_on(sub.skip(k + 1), '.')));
                }
                pos = pos + k + 1;
            },
        }
    }
    Some(out)
}

} // verus!
