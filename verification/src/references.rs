//! Finding the references to the name under the cursor, as whole words in
//! the text, and renaming them.
use crate::lsp::{lemma_word_start, lemma_word_stop, word_at, word_at_pos};
use crate::parser::texts;
use crate::symbols::{byte_count, byte_len, find_from, lemma_find_bound, Position, Range};
use crate::text::{chars_of, copy_range, line_ranges, lines, ranges_view, string_of};
use vstd::prelude::*;

verus! {

/// A replacement of a stretch of text.
#[derive(Debug, Clone, PartialEq, Eq)]
pub struct TextEdit {
    pub range: Range,
    pub new_text: String,
}

/// Whether `c` is an ASCII letter or digit, or `_`.
pub open spec fn ascii_word(c: char) -> bool {
    ('a' <= c && c <= 'z') || ('A' <= c && c <= 'Z') || ('0' <= c && c <= '9') || c == '_'
}

/// The references to `w` in line `l` (line `idx`, from 0) found from
/// character `col` on: each occurrence not touching an ASCII letter, digit
/// or `_` on either side, the search going on after each occurrence.
pub open spec fn line_refs(l: Seq<char>, w: Seq<char>, idx: int, col: int) -> Seq<Range>
    decreases l.len() + 1 - col,
{
    if w.len() == 0 || col < 0 {
        Seq::empty()
    } else {
        match find_from(l, w, col) {
            None => Seq::empty(),
            Some(abs) => {
                proof {
                    lemma_find_bound(l, w, col);
                }
                let after = abs + w.len();
                let whole = (abs == 0 || !ascii_word(l[abs - 1])) && (after >= l.len() || !ascii_word(l[after]));
                let rest = line_refs(l, w, idx, after);
                if whole {
                    seq![
                        Range {
                            start: Position { line: idx as u32, character: byte_len(l.take(abs)) as u32 },
                            end: Position { line: idx as u32, character: byte_len(l.take(after)) as u32 },
                        },
                    ] + rest
                } else {
                    rest
                }
            },
        }
    }
}

/// The references to `w` in lines `ls[k..]`, line by line.
pub open spec fn refs_from(ls: Seq<Seq<char>>, w: Seq<char>, k: int) -> Seq<Range>
    decreases ls.len() - k,
{
    if 0 <= k < ls.len() {
        line_refs(ls[k], w, k, 0) + refs_from(ls, w, k + 1)
    } else {
        Seq::empty()
    }
}

/// The references to the name at `line` and `character` of `text`; none
/// when there is no name there.
pub open spec fn references_at(text: Seq<char>, line: int, character: int) -> Seq<Range> {
    match word_at_pos(text, line, character) {
        None => Seq::empty(),
        Some(w) => refs_from(lines(text), w, 0),
    }
}

/// A name under the cursor is never empty.
proof fn lemma_word_nonempty(text: Seq<char>, line: int, character: int)
    ensures
        word_at_pos(text, line, character) matches Some(w) ==> w.len() > 0,
{
    let ls = lines(text);
    if 0 <= line < ls.len() && 0 <= character < ls[line].len() && crate::text::is_word_char(ls[line][character]) {
        lemma_word_start(ls[line], character);
        lemma_word_stop(ls[line], character + 1);
    }
}

/// Whether `c` continues a name in ASCII: a digit `0`-`9`, a letter `A`-`Z`
/// or `a`-`z`, or `_`, by its code point.
pub open spec fn continues_name(c: char) -> bool {
    let n = c as u32;
    (48 <= n && n <= 57) || (65 <= n && n <= 90) || (97 <= n && n <= 122) || n == 95
}

/// Whether `w` occurs in `l` at character `a` as a whole word: with no
/// ASCII letter, digit or `_` directly before or directly after it.
pub open spec fn whole_word_at(l: Seq<char>, w: Seq<char>, a: int) -> bool {
    &&& 0 <= a
    &&& a + w.len() <= l.len()
    &&& l.subrange(a, a + w.len()) == w
    &&& (a == 0 || !continues_name(l[a - 1]))
    &&& (a + w.len() == l.len() || !continues_name(l[a + w.len()]))
}

/// The range, in line `idx`, of the occurrence of `w` in `l` at character
/// `a`, its columns counted in bytes.
pub open spec fn occurrence_range(l: Seq<char>, w: Seq<char>, idx: int, a: int) -> Range {
    Range {
        start: Position { line: idx as u32, character: byte_len(l.take(a)) as u32 },
        end: Position { line: idx as u32, character: byte_len(l.take(a + w.len())) as u32 },
    }
}

/// Whether `r` is the range, in line `idx` (the line `l`), of a whole-word
/// occurrence of `w` at or after character `col`.
pub open spec fn whole_ref_in_line(l: Seq<char>, w: Seq<char>, idx: int, col: int, r: Range) -> bool {
    exists|a: int| col <= a && #[trigger] whole_word_at(l, w, a) && r == occurrence_range(l, w, idx, a)
}

/// Whether `r` is the range of a whole-word occurrence of `w` in one of the
/// lines `ls[k..]`.
pub open spec fn whole_ref_in_lines(ls: Seq<Seq<char>>, w: Seq<char>, k: int, r: Range) -> bool {
    exists|j: int| k <= j < ls.len() && #[trigger] whole_ref_in_line(ls[j], w, j, 0, r)
}

/// Where `find_from` finds `p`, `p` is.
proof fn lemma_find_at(s: Seq<char>, p: Seq<char>, k: int)
    ensures
        find_from(s, p, k) matches Some(j) ==> s.subrange(j, j + p.len()) == p,
    decreases s.len() + 1 - k,
{
    if !(k < 0 || k + p.len() > s.len()) && s.subrange(k, k + p.len()) != p {
        lemma_find_at(s, p, k + 1);
    }
}

proof fn lemma_ascii_word_continues(c: char)
    ensures
        ascii_word(c) <==> continues_name(c),
{
}

/// Every reference found in a line, from character `col` on, is an
/// occurrence of the word at or after `col` that no ASCII letter, digit or
/// `_` touches on either side.
pub proof fn lemma_line_refs_whole(l: Seq<char>, w: Seq<char>, idx: int, col: int)
    ensures
        forall|i: int|
            0 <= i < line_refs(l, w, idx, col).len() ==> whole_ref_in_line(l, w, idx, col, #[trigger] line_refs(l, w, idx, col)[i]),
    decreases l.len() + 1 - col,
{
    if w.len() == 0 || col < 0 {
        assert(line_refs(l, w, idx, col).len() == 0);
    } else {
        match find_from(l, w, col) {
            None => {
                assert(line_refs(l, w, idx, col).len() == 0);
            },
            Some(abs) => {
                lemma_find_bound(l, w, col);
                lemma_find_at(l, w, col);
                let after = abs + w.len();
                lemma_line_refs_whole(l, w, idx, after);
                let rest = line_refs(l, w, idx, after);
                let whole = (abs == 0 || !ascii_word(l[abs - 1])) && (after >= l.len() || !ascii_word(l[after]));
                if abs > 0 {
                    lemma_ascii_word_continues(l[abs - 1]);
                }
                if after < l.len() {
                    lemma_ascii_word_continues(l[after]);
                }
                assert forall|i: int| 0 <= i < line_refs(l, w, idx, col).len() implies whole_ref_in_line(
                    l,
                    w,
                    idx,
                    col,
                    #[trigger] line_refs(l, w, idx, col)[i],
                ) by {
                    if whole {
                        assert(line_refs(l, w, idx, col) == seq![occurrence_range(l, w, idx, abs)] + rest);
                        if i == 0 {
                            assert(whole_word_at(l, w, abs));
                        } else {
                            assert(line_refs(l, w, idx, col)[i] == rest[i - 1]);
                            assert(whole_ref_in_line(l, w, idx, after, rest[i - 1]));
                        }
                    } else {
                        assert(line_refs(l, w, idx, col) == rest);
                        assert(whole_ref_in_line(l, w, idx, after, rest[i]));
                    }
                }
            },
        }
    }
}

/// Every reference found in lines `ls[k..]` is a whole-word occurrence of
/// `w` in one of those lines, at the range of that occurrence.
pub proof fn lemma_refs_from_whole(ls: Seq<Seq<char>>, w: Seq<char>, k: int)
    ensures
        forall|i: int| 0 <= i < refs_from(ls, w, k).len() ==> whole_ref_in_lines(ls, w, k, #[trigger] refs_from(ls, w, k)[i]),
    decreases ls.len() - k,
{
    if 0 <= k < ls.len() {
        lemma_refs_from_whole(ls, w, k + 1);
        lemma_line_refs_whole(ls[k], w, k, 0);
        let here = line_refs(ls[k], w, k, 0);
        let rest = refs_from(ls, w, k + 1);
        assert forall|i: int| 0 <= i < refs_from(ls, w, k).len() implies whole_ref_in_lines(
            ls,
            w,
            k,
            #[trigger] refs_from(ls, w, k)[i],
        ) by {
            assert(refs_from(ls, w, k) == here + rest);
            if i < here.len() {
                assert(refs_from(ls, w, k)[i] == here[i]);
                assert(whole_ref_in_line(ls[k], w, k, 0, here[i]));
            } else {
                assert(refs_from(ls, w, k)[i] == rest[i - here.len()]);
                assert(whole_ref_in_lines(ls, w, k + 1, rest[i - here.len()]));
                let j = choose|j: int| k + 1 <= j < ls.len() && #[trigger] whole_ref_in_line(ls[j], w, j, 0, rest[i - here.len()]);
                assert(k <= j < ls.len() && whole_ref_in_line(ls[j], w, j, 0, refs_from(ls, w, k)[i]));
            }
        }
    } else {
        assert(refs_from(ls, w, k).len() == 0);
    }
}

/// Law: every range that `compute_references` (and so `compute_rename`)
/// reports is an occurrence of the name under the cursor, in some line of
/// the text, that is a whole word there: the character before it and the
/// character after it, where there are any, are neither ASCII letters,
/// digits nor `_`.
pub proof fn lemma_references_whole_words(text: Seq<char>, line: int, character: int)
    ensures
        forall|i: int|
            0 <= i < references_at(text, line, character).len() ==> whole_ref_in_lines(
                lines(text),
                word_at_pos(text, line, character)->0,
                0,
                #[trigger] references_at(text, line, character)[i],
            ),
{
    match word_at_pos(text, line, character) {
        None => {
            assert(references_at(text, line, character).len() == 0);
        },
        Some(w) => {
            lemma_refs_from_whole(lines(text), w, 0);
            assert(references_at(text, line, character) == refs_from(lines(text), w, 0));
        },
    }
}

/// Where `p` occurs in `s` at or after `k`, `find_from` finds an occurrence
/// there or earlier.
proof fn lemma_find_first(s: Seq<char>, p: Seq<char>, k: int, a: int)
    requires
        0 <= k <= a,
        a + p.len() <= s.len(),
        s.subrange(a, a + p.len()) == p,
    ensures
        find_from(s, p, k) matches Some(j) && k <= j <= a,
    decreases a - k,
{
    if s.subrange(k, k + p.len()) != p {
        lemma_find_first(s, p, k + 1, a);
    }
}

/// Whether no occurrence of `w` in `l` that starts at or after `col` and
/// before `a` runs into `a`.
pub open spec fn no_overlap_before(l: Seq<char>, w: Seq<char>, col: int, a: int) -> bool {
    forall|b: int| col <= b < a && b + w.len() > a && b + w.len() <= l.len() ==> #[trigger] l.subrange(b, b + w.len()) != w
}

/// A whole-word occurrence at or after `col` that no earlier occurrence runs
/// into is among the references found from `col`.
proof fn lemma_line_refs_complete(l: Seq<char>, w: Seq<char>, idx: int, col: int, a: int)
    requires
        w.len() > 0,
        0 <= col <= a,
        whole_word_at(l, w, a),
        no_overlap_before(l, w, col, a),
    ensures
        line_refs(l, w, idx, col).contains(occurrence_range(l, w, idx, a)),
    decreases a - col,
{
    lemma_find_first(l, w, col, a);
    lemma_find_at(l, w, col);
    let abs = find_from(l, w, col)->0;
    let after = abs + w.len();
    let rest = line_refs(l, w, idx, after);
    let whole = (abs == 0 || !ascii_word(l[abs - 1])) && (after >= l.len() || !ascii_word(l[after]));
    if abs == a {
        lemma_ascii_word_continues(l[abs - 1]);
        if after < l.len() {
            lemma_ascii_word_continues(l[after]);
        }
        assert(whole);
        assert(line_refs(l, w, idx, col) == seq![occurrence_range(l, w, idx, a)] + rest);
        assert(line_refs(l, w, idx, col)[0] == occurrence_range(l, w, idx, a));
    } else {
        assert(after <= a);
        lemma_line_refs_complete(l, w, idx, after, a);
        let r = occurrence_range(l, w, idx, a);
        let i = choose|i: int| 0 <= i < rest.len() && rest[i] == r;
        if whole {
            assert(line_refs(l, w, idx, col) == seq![occurrence_range(l, w, idx, abs)] + rest);
            assert(line_refs(l, w, idx, col)[i + 1] == r);
        } else {
            assert(line_refs(l, w, idx, col) == rest);
        }
    }
}

/// Whether every character of `w` continues a name in ASCII.
pub open spec fn ascii_name(w: Seq<char>) -> bool {
    forall|i: int| 0 <= i < w.len() ==> #[trigger] continues_name(w[i])
}

/// No occurrence of an ASCII name runs into a whole-word occurrence of it.
proof fn lemma_no_overlap(l: Seq<char>, w: Seq<char>, a: int)
    requires
        ascii_name(w),
        whole_word_at(l, w, a),
    ensures
        no_overlap_before(l, w, 0, a),
{
    assert forall|b: int| 0 <= b < a && b + w.len() > a && b + w.len() <= l.len() implies #[trigger] l.subrange(
        b,
        b + w.len(),
    ) != w by {
        if l.subrange(b, b + w.len()) == w {
            assert(l[a - 1] == l.subrange(b, b + w.len())[a - 1 - b]);
            assert(continues_name(w[a - 1 - b]));
        }
    }
}

/// Every whole-word occurrence of an ASCII name in lines `ls[k..]` is among
/// the references found there.
proof fn lemma_refs_from_complete(ls: Seq<Seq<char>>, w: Seq<char>, k: int, j: int, a: int)
    requires
        w.len() > 0,
        ascii_name(w),
        0 <= k <= j < ls.len(),
        whole_word_at(ls[j], w, a),
    ensures
        refs_from(ls, w, k).contains(occurrence_range(ls[j], w, j, a)),
    decreases j - k,
{
    let r = occurrence_range(ls[j], w, j, a);
    let here = line_refs(ls[k], w, k, 0);
    let rest = refs_from(ls, w, k + 1);
    assert(refs_from(ls, w, k) == here + rest);
    if k == j {
        lemma_no_overlap(ls[j], w, a);
        lemma_line_refs_complete(ls[j], w, j, 0, a);
        let i = choose|i: int| 0 <= i < here.len() && here[i] == r;
        assert(refs_from(ls, w, k)[i] == r);
    } else {
        lemma_refs_from_complete(ls, w, k + 1, j, a);
        let i = choose|i: int| 0 <= i < rest.len() && rest[i] == r;
        assert(refs_from(ls, w, k)[here.len() + i] == r);
    }
}

/// Law: where the name under the cursor is made of ASCII letters, digits
/// and `_`, every occurrence of it in the text that is a whole word (the
/// character before and the character after it, where there are any, being
/// neither ASCII letters, digits nor `_`) is among the references found.
pub proof fn lemma_references_find_all(text: Seq<char>, line: int, character: int, j: int, a: int)
    requires
        word_at_pos(text, line, character) is Some,
        ascii_name(word_at_pos(text, line, character)->0),
        0 <= j < lines(text).len(),
        whole_word_at(lines(text)[j], word_at_pos(text, line, character)->0, a),
    ensures
        references_at(text, line, character).contains(
            occurrence_range(lines(text)[j], word_at_pos(text, line, character)->0, j, a),
        ),
{
    let w = word_at_pos(text, line, character)->0;
    lemma_word_nonempty(text, line, character);
    lemma_refs_from_complete(lines(text), w, 0, j, a);
}

/// Whether `c` is an ASCII letter or digit, or `_` (see `ascii_word`).
fn is_ascii_word(c: char) -> (r: bool)
    ensures
        r == ascii_word(c),
{
    ('a' <= c && c <= 'z') || ('A' <= c && c <= 'Z') || ('0' <= c && c <= '9') || c == '_'
}

/// Where `p` first occurs in `s` at or after `from` (see `find_from`).
fn find_after(s: &[char], p: &[char], from: usize) -> (r: Option<usize>)
    ensures
        match r {
            Some(k) => find_from(s@, p@, from as int) == Some(k as int),
            None => find_from(s@, p@, from as int) is None,
        },
{
    if p.len() > s.len() || from > s.len() - p.len() {
        return None;
    }
    let last = s.len() - p.len();
    let mut k: usize = from;
    loop
        invariant
            last == s@.len() - p@.len(),
            from <= k <= last,
            find_from(s@, p@, k as int) == find_from(s@, p@, from as int),
        decreases last - k,
    {
        let mut same = true;
        let mut j: usize = 0;
        let n = s.len();
        while j < p.len()
            invariant
                j <= p@.len(),
                n == s@.len(),
                k + p@.len() <= s@.len(),
                same == (forall|m: int| 0 <= m < j ==> s@[k + m] == p@[m]),
            decreases p@.len() - j,
        {
            if s[k + j] != p[j] {
                same = false;
            }
            j = j + 1;
        }
        proof {
            if same {
                assert(s@.subrange(k as int, k + p@.len()) =~= p@);
            } else {
                let m = choose|m: int| 0 <= m < p@.len() && s@[k + m] != p@[m];
                assert(s@.subrange(k as int, k + p@.len())[m] != p@[m]);
            }
        }
        if same {
            return Some(k);
        }
        if k == last {
            proof {
                assert(find_from(s@, p@, k + 1) is None);
            }
            return None;
        }
        k = k + 1;
    }
}

/// The references to `w` in line `l` number `idx` (see `line_refs`).
fn refs_in_line(l: &[char], w: &[char], idx: usize, out: &mut Vec<Range>)
    requires
        w@.len() > 0,
    ensures
        final(out)@ == old(out)@ + line_refs(l@, w@, idx as int, 0),
{
    let ghost o0 = out@;
    let n = l.len();
    let mut col: usize = 0;
    let mut done = false;
    while !done
        invariant
            n == l@.len(),
            w@.len() > 0,
            col <= l@.len(),
            (if done {
                out@
            } else {
                out@ + line_refs(l@, w@, idx as int, col as int)
            }) == o0 + line_refs(l@, w@, idx as int, 0),
        decreases (if done { 0int } else { 1int }), l@.len() - col,
    {
        match find_after(l, w, col) {
            None => {
                done = true;
            },
            Some(abs) => {
                proof {
                    lemma_find_bound(l@, w@, col as int);
                }
                let after = abs + w.len();
                let whole = (abs == 0 || !is_ascii_word(l[abs - 1])) && (after >= l.len() || !is_ascii_word(l[after]));
                if whole {
                    let a = byte_count(l, abs) as u32;
                    let b = byte_count(l, after) as u32;
                    let r = Range {
                        start: Position { line: idx as u32, character: a },
                        end: Position { line: idx as u32, character: b },
                    };
                    let ghost before = out@;
                    out.push(r);
                    proof {
                        assert(out@ + line_refs(l@, w@, idx as int, after as int) =~= before + (seq![r]
                            + line_refs(l@, w@, idx as int, after as int)));
                    }
                }
                col = after;
            },
        }
    }
}

/// The references to `word` in `text`, line by line (see `refs_from`).
pub fn find_references(text: &str, word: &str) -> (r: Vec<Range>)
    requires
        word@.len() > 0,
    ensures
        r@ == refs_from(lines(text@), word@, 0),
{
    let s = chars_of(text);
    let rs = line_ranges(s.as_slice());
    let w = chars_of(word);
    let ghost lv = lines(text@);
    let mut out: Vec<Range> = Vec::new();
    let mut k: usize = 0;
    proof {
        assert(lv.len() == rs@.len());
        assert(out@ + refs_from(lv, w@, 0) =~= refs_from(lv, w@, 0));
    }
    while k < rs.len()
        invariant
            s@ == text@,
            w@ == word@,
            w@.len() > 0,
            ranges_view(s@, rs@) == lv,
            forall|i: int| 0 <= i < rs@.len() ==> #[trigger] rs@[i].0 <= rs@[i].1 <= s@.len(),
            lv == lines(text@),
            k <= rs@.len(),
            out@ + refs_from(lv, w@, k as int) == refs_from(lv, w@, 0),
        decreases rs@.len() - k,
    {
        let (lo, hi) = rs[k];
        let l = copy_range(s.as_slice(), lo, hi);
        proof {
            assert(lv[k as int] == s@.subrange(lo as int, hi as int));
        }
        let ghost before = out@;
        refs_in_line(l.as_slice(), w.as_slice(), k, &mut out);
        proof {
            assert(out@ + refs_from(lv, w@, k + 1) =~= before + refs_from(lv, w@, k as int));
        }
        k = k + 1;
    }
    proof {
        assert(out@ + refs_from(lv, w@, k as int) =~= out@);
    }
    out
}

/// The references to the name at `line` and `character` (both from 0) of
/// `text` (see `references_at`).
pub fn compute_references(text: &str, line: u32, character: u32) -> (r: Vec<Range>)
    ensures
        r@ == references_at(text@, line as int, character as int),
{
    proof {
        lemma_word_nonempty(text@, line as int, character as int);
    }
    match word_at(text, line, character) {
        Some(w) => find_references(text, w.as_str()),
        None => Vec::new(),
    }
}

/// The edits that rename the name at `line` and `character` of `text` to
/// `new_name`: one at each of its references; none when there is no name
/// there or it is never referred to.
pub fn compute_rename(text: &str, line: u32, character: u32, new_name: &str) -> (r: Option<Vec<TextEdit>>)
    ensures
        match r {
            None => word_at_pos(text@, line as int, character as int) is None || references_at(
                text@,
                line as int,
                character as int,
            ).len() == 0,
            Some(edits) => edits@.len() == references_at(text@, line as int, character as int).len() && edits@.len() > 0
                && forall|i: int|
                0 <= i < edits@.len() ==> (#[trigger] edits@[i]).range == references_at(
                    text@,
                    line as int,
                    character as int,
                )[i] && edits@[i].new_text@ == new_name@,
        },
{
    if word_at(text, line, character).is_none() {
        return None;
    }
    let refs = compute_references(text, line, character);
    if refs.len() == 0 {
        return None;
    }
    let mut edits: Vec<TextEdit> = Vec::new();
    let mut i: usize = 0;
    while i < refs.len()
        invariant
            i <= refs@.len(),
            edits@.len() == i,
            forall|j: int| 0 <= j < i ==> (#[trigger] edits@[j]).range == refs@[j] && edits@[j].new_text@ == new_name@,
        decreases refs@.len() - i,
    {
        edits.push(TextEdit { range: refs[i], new_text: new_name.to_owned() });
        i = i + 1;
    }
    Some(edits)
}

} // verus!
