//! Text helpers of the language server: names in diagnostic messages,
//! indentation, words under the cursor, hover texts and doc comments.
use crate::ast::{AnchorKind, Ty};
use crate::shared::{ty_name, ty_name_of};
use crate::text::{
    chars_eq, chars_of, copy_range, find_char, find_char_in, is_word_char, lemma_find_char_facts,
    line_ranges, lines, push_all, push_str, ranges_view, starts_with, starts_with_at, string_of, trim,
    trim_from, word_char,
};
use vstd::prelude::*;

verus! {

// ───────────────────────── names in messages ─────────────────────────

/// The text between the first quote of `s` and the next one (or the end);
/// `None` when `s` has no quote.
pub open spec fn quoted_piece(s: Seq<char>) -> Option<Seq<char>> {
    match find_char(s, '\'') {
        None => None,
        Some(i) => {
            let rest = s.skip(i + 1);
            match find_char(rest, '\'') {
                Some(j) => Some(rest.take(j)),
                None => Some(rest),
            }
        },
    }
}

/// The number of identifier characters at the start of `s`.
pub open spec fn word_len(s: Seq<char>) -> nat
    decreases s.len(),
{
    if s.len() > 0 && is_word_char(s[0]) {
        1 + word_len(s.drop_first())
    } else {
        0
    }
}

/// The identifier characters at the start of `s`.
pub open spec fn word_prefix(s: Seq<char>) -> Seq<char> {
    s.take(word_len(s) as int)
}

/// The identifier at the start of the first quoted piece of `msg`, if that
/// piece starts with one.
pub open spec fn quoted_ident(msg: Seq<char>) -> Option<Seq<char>> {
    match quoted_piece(msg) {
        None => None,
        Some(p) => if word_len(p) == 0 {
            None
        } else {
            Some(word_prefix(p))
        },
    }
}

pub proof fn lemma_word_len(s: Seq<char>, k: int)
    requires
        0 <= k <= s.len(),
        forall|i: int| 0 <= i < k ==> is_word_char(#[trigger] s[i]),
        k == s.len() || !is_word_char(s[k]),
    ensures
        word_len(s) == k,
    decreases k,
{
    if k > 0 {
        let t = s.drop_first();
        assert forall|i: int| 0 <= i < k - 1 implies is_word_char(#[trigger] t[i]) by {
            assert(t[i] == s[i + 1]);
        }
        if k < s.len() {
            assert(t[k - 1] == s[k]);
        }
        lemma_word_len(t, k - 1);
    }
}

/// The end of the identifier characters in `s[lo..hi]` that start at `lo`.
pub(crate) fn word_end(s: &[char], lo: usize, hi: usize) -> (r: usize)
    requires
        lo <= hi <= s@.len(),
    ensures
        lo <= r <= hi,
        r - lo == word_len(s@.subrange(lo as int, hi as int)),
{
    let mut i = lo;
    while i < hi && word_char(s[i])
        invariant
            lo <= i <= hi <= s@.len(),
            forall|j: int| lo <= j < i ==> is_word_char(#[trigger] s@[j]),
        decreases hi - i,
    {
        i = i + 1;
    }
    proof {
        let t = s@.subrange(lo as int, hi as int);
        assert forall|j: int| 0 <= j < i - lo implies is_word_char(#[trigger] t[j]) by {
            assert(t[j] == s@[lo + j]);
        }
        if i < hi {
            assert(t[i - lo] == s@[i as int]);
        }
        lemma_word_len(t, i - lo);
    }
    i
}

/// The identifier that starts the first quoted piece of `msg`.
fn quoted_name(msg: &str) -> (r: Option<String>)
    ensures
        match r {
            Some(n) => quoted_ident(msg@) == Some(n@),
            None => quoted_ident(msg@) is None,
        },
{
    let s = chars_of(msg);
    let n = s.len();
    proof {
        assert(s@.subrange(0, n as int) =~= s@);
        lemma_find_char_facts(s@, '\'');
    }
    match find_char_in(s.as_slice(), 0, n, '\'') {
        None => None,
        Some(i) => {
            let start = i + 1;
            let ghost rest = s@.skip(start as int);
            proof {
                assert(rest =~= s@.subrange(start as int, n as int));
                lemma_find_char_facts(rest, '\'');
            }
            let end = match find_char_in(s.as_slice(), start, n, '\'') {
                Some(j) => start + j,
                None => n,
            };
            proof {
                lemma_find_char_facts(rest, '\'');
                assert(quoted_piece(msg@) == Some(s@.subrange(start as int, end as int))) by {
                    match find_char(rest, '\'') {
                        Some(j) => {
                            assert(rest.take(j) =~= s@.subrange(start as int, end as int));
                        },
                        None => {
                            assert(rest =~= s@.subrange(start as int, end as int));
                        },
                    }
                }
            }
            let w = word_end(s.as_slice(), start, end);
            if w == start {
                None
            } else {
                let piece = copy_range(s.as_slice(), start, w);
                proof {
                    assert(piece@ =~= word_prefix(s@.subrange(start as int, end as int)));
                }
                Some(string_of(piece.as_slice()))
            }
        },
    }
}

/// The variable named in an "Undeclared variable 'x'" message.
pub fn extract_undeclared_var(msg: &str) -> (r: Option<String>)
    ensures
        match r {
            Some(n) => quoted_ident(msg@) == Some(n@),
            None => quoted_ident(msg@) is None,
        },
{
    quoted_name(msg)
}

/// The function named in an "Undeclared function 'f'" message.
pub fn extract_undeclared_fn(msg: &str) -> (r: Option<String>)
    ensures
        match r {
            Some(n) => quoted_ident(msg@) == Some(n@),
            None => quoted_ident(msg@) is None,
        },
{
    quoted_name(msg)
}

/// The variable named in a "Variable 'x' is declared but never used"
/// message.
pub fn extract_unused_var(msg: &str) -> (r: Option<String>)
    ensures
        match r {
            Some(n) => quoted_ident(msg@) == Some(n@),
            None => quoted_ident(msg@) is None,
        },
{
    quoted_name(msg)
}

// ───────────────────────── lines ─────────────────────────

/// The number of spaces and tabs at the start of `s`.
pub open spec fn indent_len(s: Seq<char>) -> nat
    decreases s.len(),
{
    if s.len() > 0 && (s[0] == ' ' || s[0] == '\t') {
        1 + indent_len(s.drop_first())
    } else {
        0
    }
}

/// The spaces and tabs that start line `i` of `text`; empty when there is
/// no such line.
pub open spec fn indentation(text: Seq<char>, i: int) -> Seq<char> {
    let ls = lines(text);
    if 0 <= i < ls.len() {
        ls[i].take(indent_len(ls[i]) as int)
    } else {
        Seq::empty()
    }
}

proof fn lemma_indent_len(s: Seq<char>, k: int)
    requires
        0 <= k <= s.len(),
        forall|i: int| 0 <= i < k ==> (#[trigger] s[i] == ' ' || s[i] == '\t'),
        k == s.len() || !(s[k] == ' ' || s[k] == '\t'),
    ensures
        indent_len(s) == k,
    decreases k,
{
    if k > 0 {
        let t = s.drop_first();
        assert forall|i: int| 0 <= i < k - 1 implies (#[trigger] t[i] == ' ' || t[i] == '\t') by {
            assert(t[i] == s[i + 1]);
        }
        if k < s.len() {
            assert(t[k - 1] == s[k]);
        }
        lemma_indent_len(t, k - 1);
    }
}

/// The indentation (spaces and tabs) of line `line_idx` of `text`.
pub fn indentation_at(text: &str, line_idx: usize) -> (r: String)
    ensures
        r@ == indentation(text@, line_idx as int),
{
    let s = chars_of(text);
    let rs = line_ranges(s.as_slice());
    if line_idx < rs.len() {
        let (lo, hi) = rs[line_idx];
        proof {
            assert(lines(text@)[line_idx as int] == s@.subrange(lo as int, hi as int));
        }
        let mut i = lo;
        while i < hi && (s[i] == ' ' || s[i] == '\t')
            invariant
                lo <= i <= hi <= s@.len(),
                forall|j: int| lo <= j < i ==> (#[trigger] s@[j] == ' ' || s@[j] == '\t'),
            decreases hi - i,
        {
            i = i + 1;
        }
        proof {
            let t = s@.subrange(lo as int, hi as int);
            assert forall|j: int| 0 <= j < i - lo implies (#[trigger] t[j] == ' ' || t[j] == '\t') by {
                assert(t[j] == s@[lo + j]);
            }
            if i < hi {
                assert(t[i - lo] == s@[i as int]);
            }
            lemma_indent_len(t, i - lo);
            assert(t.take(i - lo) =~= s@.subrange(lo as int, i as int));
        }
        let piece = copy_range(s.as_slice(), lo, i);
        string_of(piece.as_slice())
    } else {
        String::new()
    }
}

/// Whether a trimmed line starts a block that a new function goes before:
/// an anchor (`@`) or a function (`fn `).
pub open spec fn starts_block(t: Seq<char>) -> bool {
    (t.len() > 0 && t[0] == '@') || (t.len() >= 3 && t[0] == 'f' && t[1] == 'n' && t[2] == ' ')
}

/// The line a new function goes before: scanning up from `l`, the first line
/// (other than line 0) that starts a block once trimmed; line 0 if none.
pub open spec fn insert_line(ls: Seq<Seq<char>>, l: nat) -> nat
    decreases l,
{
    if l == 0 {
        0
    } else if starts_block(trim(if l < ls.len() {
        ls[l as int]
    } else {
        Seq::empty()
    })) {
        l
    } else {
        insert_line(ls, (l - 1) as nat)
    }
}

/// The line before which a stub for a missing function is inserted: the
/// nearest line at or above `before_line` that starts an anchor or a
/// function, else line 0.
pub fn find_insert_line_for_fn(text: &str, before_line: u32) -> (r: u32)
    ensures
        r == insert_line(lines(text@), before_line as nat),
{
    let s = chars_of(text);
    let rs = line_ranges(s.as_slice());
    let ghost ls = lines(text@);
    let mut line: u32 = before_line;
    while line > 0
        invariant
            s@ == text@,
            ranges_view(s@, rs@) == ls,
            forall|i: int| 0 <= i < rs@.len() ==> #[trigger] rs@[i].0 <= rs@[i].1 <= s@.len(),
            ls == lines(text@),
            line <= before_line,
            insert_line(ls, line as nat) == insert_line(ls, before_line as nat),
        decreases line,
    {
        let idx = line as usize;
        let opens = if idx < rs.len() {
            let (lo, hi) = rs[idx];
            let (a, b) = trim_from(s.as_slice(), lo, hi);
            proof {
                assert(ls[idx as int] == s@.subrange(lo as int, hi as int));
            }
            (a < b && s[a] == '@') || (b - a >= 3 && s[a] == 'f' && s[a + 1] == 'n' && s[a + 2] == ' ')
        } else {
            proof {
                assert(trim(Seq::<char>::empty()) =~= Seq::<char>::empty());
            }
            false
        };
        if opens {
            return line;
        }
        line = line - 1;
    }
    0
}

/// The identifier characters at the end of `s`, in order.
pub open spec fn trailing_word(s: Seq<char>) -> Seq<char>
    decreases s.len(),
{
    if s.len() > 0 && is_word_char(s.last()) {
        trailing_word(s.drop_last()).push(s.last())
    } else {
        Seq::empty()
    }
}

/// The identifier just before the end of `s` (the `base` of `base.`).
pub fn extract_trailing_ident(s: &str) -> (r: String)
    ensures
        r@ == trailing_word(s@),
{
    let cs = chars_of(s);
    let mut i = cs.len();
    proof {
        assert(cs@.take(i as int) =~= cs@);
        assert(cs@.subrange(i as int, i as int) =~= Seq::<char>::empty());
        assert(trailing_word(cs@) + Seq::<char>::empty() =~= trailing_word(cs@));
    }
    while i > 0 && word_char(cs[i - 1])
        invariant
            i <= cs@.len(),
            cs@ == s@,
            trailing_word(cs@.take(i as int)) + cs@.subrange(i as int, cs@.len() as int) == trailing_word(cs@),
        decreases i,
    {
        proof {
            let t = cs@.take(i as int);
            assert(t.drop_last() =~= cs@.take(i - 1));
            assert(t.last() == cs@[i - 1]);
            assert(trailing_word(cs@.take(i - 1)) + cs@.subrange(i - 1, cs@.len() as int) =~= trailing_word(
                cs@.take(i - 1),
            ).push(cs@[i - 1]) + cs@.subrange(i as int, cs@.len() as int));
        }
        i = i - 1;
    }
    proof {
        let t = cs@.take(i as int);
        if i > 0 {
            assert(t.last() == cs@[i - 1]);
        }
        assert(trailing_word(t) =~= Seq::<char>::empty());
        assert(cs@.take(cs@.len() as int) =~= cs@);
    }
    let piece = copy_range(cs.as_slice(), i, cs.len());
    proof {
        assert(piece@ =~= trailing_word(s@));
    }
    string_of(piece.as_slice())
}

// ───────────────────────── hover texts ─────────────────────────

/// `s` with each `pat` (left to right, not overlapping) replaced by `rep`.
pub open spec fn replace_all(s: Seq<char>, pat: Seq<char>, rep: Seq<char>) -> Seq<char>
    decreases s.len(),
{
    if s.len() == 0 {
        Seq::empty()
    } else if pat.len() > 0 && starts_with(s, pat) {
        rep + replace_all(s.skip(pat.len() as int), pat, rep)
    } else {
        seq![s[0]] + replace_all(s.drop_first(), pat, rep)
    }
}

/// A signature with its documentation below a rule; the signature alone
/// when there is no documentation. Fences opened as ```` ```kyte ```` become
/// plain ```` ``` ````.
pub open spec fn with_doc(sig: Seq<char>, doc: Seq<char>) -> Seq<char> {
    if doc.len() == 0 {
        sig
    } else {
        sig + "\n\n---\n\n"@ + replace_all(doc, "```kyte"@, "```"@)
    }
}

/// `s` with each `pat` replaced by `rep`.
pub fn replace_text(s: &str, pat: &str, rep: &str) -> (r: Vec<char>)
    requires
        pat@.len() > 0,
    ensures
        r@ == replace_all(s@, pat@, rep@),
{
    let cs = chars_of(s);
    let pc = chars_of(pat);
    let mut out: Vec<char> = Vec::new();
    let mut i: usize = 0;
    proof {
        assert(cs@.skip(0) =~= cs@);
        assert(Seq::<char>::empty() + replace_all(cs@, pat@, rep@) =~= replace_all(cs@, pat@, rep@));
    }
    while i < cs.len()
        invariant
            i <= cs@.len(),
            cs@ == s@,
            pc@ == pat@,
            pat@.len() > 0,
            out@ + replace_all(cs@.skip(i as int), pat@, rep@) == replace_all(s@, pat@, rep@),
        decreases cs@.len() - i,
    {
        let ghost rest = cs@.skip(i as int);
        proof {
            assert(rest =~= cs@.subrange(i as int, cs@.len() as int));
        }
        if starts_with_at(cs.as_slice(), i, cs.len(), pc.as_slice()) {
            let ghost o = out@;
            push_str(&mut out, rep);
            proof {
                assert(rest.skip(pat@.len() as int) =~= cs@.skip(i + pat@.len()));
                assert(out@ + replace_all(cs@.skip(i + pat@.len()), pat@, rep@) =~= o + replace_all(
                    rest,
                    pat@,
                    rep@,
                ));
            }
            i = i + pc.len();
        } else {
            let ghost o = out@;
            out.push(cs[i]);
            proof {
                assert(rest.drop_first() =~= cs@.skip(i + 1));
                assert(out@ + replace_all(cs@.skip(i + 1), pat@, rep@) =~= o + replace_all(
                    rest,
                    pat@,
                    rep@,
                ));
            }
            i = i + 1;
        }
    }
    proof {
        assert(cs@.skip(i as int) =~= Seq::<char>::empty());
        assert(out@ + Seq::<char>::empty() =~= out@);
    }
    out
}

/// A hover text: the signature, then the documentation if there is any.
pub fn format_with_doc(sig: &str, doc: &str) -> (r: String)
    ensures
        r@ == with_doc(sig@, doc@),
{
    let dc = chars_of(doc);
    if dc.len() == 0 {
        sig.to_owned()
    } else {
        let mut out: Vec<char> = Vec::new();
        push_str(&mut out, sig);
        push_str(&mut out, "\n\n---\n\n");
        proof {
            reveal_strlit("```kyte");
        }
        let body = replace_text(doc, "```kyte", "```");
        push_all(&mut out, body.as_slice());
        proof {
            assert(out@ =~= with_doc(sig@, doc@));
        }
        string_of(out.as_slice())
    }
}

/// How an anchor kind is written inside `@name(...)`.
pub open spec fn anchor_kind_text(k: AnchorKind) -> Seq<char> {
    match k {
        AnchorKind::Main => "main"@,
        AnchorKind::Plain => "plain"@,
        AnchorKind::Thread => "thread"@,
        AnchorKind::Event(e) => "event("@ + e@ + ")"@,
    }
}

/// How an anchor kind is written inside `@name(...)`.
pub fn anchor_kind_str(kind: &AnchorKind) -> (r: String)
    ensures
        r@ == anchor_kind_text(*kind),
{
    match kind {
        AnchorKind::Main => "main".to_owned(),
        AnchorKind::Plain => "plain".to_owned(),
        AnchorKind::Thread => "thread".to_owned(),
        AnchorKind::Event(e) => {
            let mut out: Vec<char> = Vec::new();
            push_str(&mut out, "event(");
            push_str(&mut out, e.as_str());
            push_str(&mut out, ")");
            proof {
                assert(out@ =~= anchor_kind_text(*kind));
            }
            string_of(out.as_slice())
        },
    }
}

/// The name of a type as hovers write it (as diagnostics do).
pub fn ty_str(ty: &Ty) -> (r: String)
    ensures
        r@ == ty_name_of(ty@),
{
    ty_name(ty)
}

// ───────────────────────── words ─────────────────────────

/// Where the identifier characters that run left from just before `col` in
/// `l` begin.
pub open spec fn word_start(l: Seq<char>, col: int) -> int
    decreases col,
{
    if 0 < col <= l.len() && is_word_char(l[col - 1]) {
        word_start(l, col - 1)
    } else {
        col
    }
}

/// Where the identifier characters that run right from `col` in `l` end.
pub open spec fn word_stop(l: Seq<char>, col: int) -> int
    decreases l.len() - col,
{
    if 0 <= col < l.len() && is_word_char(l[col]) {
        word_stop(l, col + 1)
    } else {
        col
    }
}

/// The identifier of line `line` of `text` that covers column `col`, if the
/// character there is an identifier character.
pub open spec fn word_at_pos(text: Seq<char>, line: int, col: int) -> Option<Seq<char>> {
    let ls = lines(text);
    if 0 <= line < ls.len() && 0 <= col < ls[line].len() && is_word_char(ls[line][col]) {
        Some(ls[line].subrange(word_start(ls[line], col), word_stop(ls[line], col)))
    } else {
        None
    }
}

pub(crate) proof fn lemma_word_start(l: Seq<char>, col: int)
    requires
        0 <= col <= l.len(),
    ensures
        0 <= word_start(l, col) <= col,
    decreases col,
{
    if 0 < col && is_word_char(l[col - 1]) {
        lemma_word_start(l, col - 1);
    }
}

pub(crate) proof fn lemma_word_stop(l: Seq<char>, col: int)
    requires
        0 <= col <= l.len(),
    ensures
        col <= word_stop(l, col) <= l.len(),
    decreases l.len() - col,
{
    if col < l.len() && is_word_char(l[col]) {
        lemma_word_stop(l, col + 1);
    }
}

/// The word under the cursor at `line` and `character` (both from zero).
pub fn word_at(text: &str, line: u32, character: u32) -> (r: Option<String>)
    ensures
        match r {
            Some(w) => word_at_pos(text@, line as int, character as int) == Some(w@),
            None => word_at_pos(text@, line as int, character as int) is None,
        },
{
    let s = chars_of(text);
    let rs = line_ranges(s.as_slice());
    let li = line as usize;
    if li >= rs.len() {
        return None;
    }
    let (lo, hi) = rs[li];
    let ghost l = s@.subrange(lo as int, hi as int);
    proof {
        assert(lines(text@)[li as int] == l);
    }
    let col = character as usize;
    if col >= hi - lo {
        return None;
    }
    proof {
        assert(l[col as int] == s@[lo + col]);
    }
    if !word_char(s[lo + col]) {
        return None;
    }
    let mut a = lo + col;
    proof {
        lemma_word_start(l, col as int);
    }
    while a > lo && word_char(s[a - 1])
        invariant
            lo <= a <= lo + col,
            lo + col < hi <= s@.len(),
            l == s@.subrange(lo as int, hi as int),
            word_start(l, a - lo) == word_start(l, col as int),
        decreases a,
    {
        proof {
            assert(l[a - lo - 1] == s@[a - 1]);
        }
        a = a - 1;
    }
    proof {
        if a > lo {
            assert(l[a - lo - 1] == s@[a - 1]);
        }
    }
    let mut b = lo + col;
    while b < hi && word_char(s[b])
        invariant
            lo + col <= b <= hi <= s@.len(),
            l == s@.subrange(lo as int, hi as int),
            word_stop(l, b - lo) == word_stop(l, col as int),
        decreases hi - b,
    {
        proof {
            assert(l[b - lo] == s@[b as int]);
        }
        b = b + 1;
    }
    proof {
        if b < hi {
            assert(l[b - lo] == s@[b as int]);
        }
    }
    let piece = copy_range(s.as_slice(), a, b);
    proof {
        assert(piece@ =~= l.subrange(a - lo, b - lo));
    }
    Some(string_of(piece.as_slice()))
}

/// The type named at the start of a line of the form `Type name ...` that
/// declares `name`, when `Type` starts with an uppercase letter.
pub open spec fn line_var_type(line: Seq<char>, name: Seq<char>) -> Option<Seq<char>> {
    let t = trim(line);
    match find_char(t, ' ') {
        None => None,
        Some(i) => {
            let ty = t.take(i);
            let after = t.skip(i + 1);
            let var_tok = match find_char(after, ' ') {
                Some(j) => after.take(j),
                None => after,
            };
            if word_prefix(var_tok) == name && ty.len() > 0 && crate::text::unicode_uppercase(ty[0]) {
                Some(ty)
            } else {
                None
            }
        },
    }
}

/// The type of the first line of `ls` that declares `name` as a value of a
/// user type.
pub open spec fn var_type_in(ls: Seq<Seq<char>>, name: Seq<char>) -> Option<Seq<char>>
    decreases ls.len(),
{
    if ls.len() == 0 {
        None
    } else {
        match line_var_type(ls[0], name) {
            Some(t) => Some(t),
            None => var_type_in(ls.drop_first(), name),
        }
    }
}

/// The type that line `s[lo..hi]` declares `name` with (see
/// `line_var_type`).
fn line_type(s: &[char], lo: usize, hi: usize, name: &[char]) -> (r: Option<Vec<char>>)
    requires
        lo <= hi <= s@.len(),
    ensures
        match r {
            Some(ty) => line_var_type(s@.subrange(lo as int, hi as int), name@) == Some(ty@),
            None => line_var_type(s@.subrange(lo as int, hi as int), name@) is None,
        },
{
    let (a, b) = trim_from(s, lo, hi);
    let ghost t = s@.subrange(a as int, b as int);
    proof {
        lemma_find_char_facts(t, ' ');
    }
    match find_char_in(s, a, b, ' ') {
        Some(i) => {
            let sp = a + i;
            let ghost after = s@.subrange(sp + 1, b as int);
            proof {
                assert(t.take(i as int) =~= s@.subrange(a as int, sp as int));
                assert(t.skip(i + 1) =~= after);
                lemma_find_char_facts(after, ' ');
            }
            let e = match find_char_in(s, sp + 1, b, ' ') {
                Some(j) => sp + 1 + j,
                None => b,
            };
            proof {
                match find_char(after, ' ') {
                    Some(j) => {
                        assert(after.take(j) =~= s@.subrange(sp + 1, e as int));
                    },
                    None => {
                        assert(after =~= s@.subrange(sp + 1, e as int));
                    },
                }
            }
            let w = word_end(s, sp + 1, e);
            let var_piece = copy_range(s, sp + 1, w);
            proof {
                assert(var_piece@ =~= word_prefix(s@.subrange(sp + 1, e as int)));
            }
            if chars_eq(var_piece.as_slice(), name) && sp > a && crate::text::is_uppercase(s[a]) {
                let ty = copy_range(s, a, sp);
                proof {
                    assert(t[0] == s@[a as int]);
                    assert(ty@ =~= t.take(i as int));
                }
                Some(ty)
            } else {
                proof {
                    if sp > a {
                        assert(t[0] == s@[a as int]);
                    }
                }
                None
            }
        },
        None => None,
    }
}

/// The user type (a capitalised name) that the first declaration
/// `Type name ...` of `name` in `text` gives it.
pub fn infer_var_type(text: &str, name: &str) -> (r: Option<String>)
    ensures
        match r {
            Some(t) => var_type_in(lines(text@), name@) == Some(t@),
            None => var_type_in(lines(text@), name@) is None,
        },
{
    let s = chars_of(text);
    let rs = line_ranges(s.as_slice());
    let nc = chars_of(name);
    let ghost ls = lines(text@);
    let mut k: usize = 0;
    proof {
        assert(ls.skip(0) =~= ls);
    }
    while k < rs.len()
        invariant
            s@ == text@,
            nc@ == name@,
            ranges_view(s@, rs@) == ls,
            forall|i: int| 0 <= i < rs@.len() ==> #[trigger] rs@[i].0 <= rs@[i].1 <= s@.len(),
            ls == lines(text@),
            k <= rs@.len(),
            var_type_in(ls.skip(k as int), name@) == var_type_in(ls, name@),
        decreases rs@.len() - k,
    {
        proof {
            assert(ls.skip(k as int).drop_first() =~= ls.skip(k + 1));
            assert(ls.skip(k as int)[0] == ls[k as int]);
        }
        let (lo, hi) = rs[k];
        proof {
            assert(ls[k as int] == s@.subrange(lo as int, hi as int));
        }
        match line_type(s.as_slice(), lo, hi, nc.as_slice()) {
            Some(ty) => {
                return Some(string_of(ty.as_slice()));
            },
            None => {},
        }
        k = k + 1;
    }
    proof {
        assert(ls.skip(k as int) =~= Seq::<Seq<char>>::empty());
    }
    None
}

// ───────────────────────── doc comments ─────────────────────────

/// Whether a line is a doc comment: `///` once trimmed.
pub open spec fn is_doc_line(l: Seq<char>) -> bool {
    starts_with(trim(l), "///"@)
}

/// The text of a doc comment line: after `///` and one space, if any.
pub open spec fn doc_text(l: Seq<char>) -> Seq<char> {
    let r = trim(l).skip(3);
    if r.len() > 0 && r[0] == ' ' {
        r.skip(1)
    } else {
        r
    }
}

/// Where the run of doc comment lines that ends just before line `e`
/// starts.
pub open spec fn block_start(ls: Seq<Seq<char>>, e: int) -> int
    decreases e,
{
    if 0 < e <= ls.len() && is_doc_line(ls[e - 1]) {
        block_start(ls, e - 1)
    } else {
        e
    }
}

/// Whether a doc line opens or closes a fence the author wrote.
pub open spec fn is_fence(l: Seq<char>) -> bool {
    starts_with(trim(l), "```"@)
}

/// Whether a doc line is code: indented by four spaces or a tab.
pub open spec fn is_code(l: Seq<char>) -> bool {
    starts_with(l, "    "@) || starts_with(l, "\t"@)
}

/// A code line without its indentation.
pub open spec fn code_body(l: Seq<char>) -> Seq<char> {
    if starts_with(l, "    "@) {
        l.skip(4)
    } else if starts_with(l, "\t"@) {
        l.skip(1)
    } else {
        l
    }
}

/// What one doc line adds to the Markdown, and whether a code block and a
/// fence of the author are open after it; `in_code` and `in_fence` say
/// whether they were open before. Fences the author wrote are kept as they
/// are; a run of indented lines is put in a fence; other lines end in a hard
/// break and a blank line.
pub open spec fn render_step(l: Seq<char>, in_code: bool, in_fence: bool) -> (Seq<char>, bool, bool) {
    if is_fence(l) {
        (l + "\n"@, in_code, !in_fence)
    } else if in_fence {
        (l + "\n"@, in_code, in_fence)
    } else {
        let c = is_code(l);
        let open = if c != in_code {
            "```\n"@
        } else {
            Seq::empty()
        };
        let body = if c {
            code_body(l) + "\n"@
        } else {
            l + "  \n\n"@
        };
        (open + body, c, in_fence)
    }
}

/// Doc lines as Markdown (see `render_step`), closing a code block left
/// open at the end.
pub open spec fn render_doc(ds: Seq<Seq<char>>, in_code: bool, in_fence: bool) -> Seq<char>
    decreases ds.len(),
{
    if ds.len() == 0 {
        if in_code {
            "```\n"@
        } else {
            Seq::empty()
        }
    } else {
        let (t, c, f) = render_step(ds[0], in_code, in_fence);
        t + render_doc(ds.drop_first(), c, f)
    }
}

/// The documentation of the item on line `fn_line` (from one) of `src`: the
/// doc comment lines right above it, as Markdown, without trailing
/// whitespace.
pub open spec fn doc_comment(src: Seq<char>, fn_line: int) -> Seq<char> {
    let ls = lines(src);
    if fn_line == 0 || fn_line > ls.len() {
        Seq::empty()
    } else {
        let start = block_start(ls, fn_line - 1);
        crate::text::trim_end(
            render_doc(ls.subrange(start, fn_line - 1).map_values(|l: Seq<char>| doc_text(l)), false, false),
        )
    }
}

proof fn lemma_block_start(ls: Seq<Seq<char>>, e: int)
    requires
        0 <= e <= ls.len(),
    ensures
        0 <= block_start(ls, e) <= e,
        forall|i: int| block_start(ls, e) <= i < e ==> is_doc_line(#[trigger] ls[i]),
    decreases e,
{
    if 0 < e && is_doc_line(ls[e - 1]) {
        lemma_block_start(ls, e - 1);
    }
}

/// Where the text of the doc comment line `s[lo..hi]` lies, if it is one.
fn doc_line_at(s: &[char], lo: usize, hi: usize) -> (r: Option<(usize, usize)>)
    requires
        lo <= hi <= s@.len(),
    ensures
        r is Some == is_doc_line(s@.subrange(lo as int, hi as int)),
        r matches Some((x, y)) ==> lo <= x <= y <= hi && s@.subrange(x as int, y as int) == doc_text(
            s@.subrange(lo as int, hi as int),
        ),
{
    let (a, b) = trim_from(s, lo, hi);
    let slashes = chars_of("///");
    proof {
        reveal_strlit("///");
    }
    if starts_with_at(s, a, b, slashes.as_slice()) {
        let x = a + 3;
        let y = if x < b && s[x] == ' ' {
            x + 1
        } else {
            x
        };
        proof {
            let t = s@.subrange(a as int, b as int);
            let r = t.skip(3);
            assert(r =~= s@.subrange(x as int, b as int));
            if x < b {
                assert(r[0] == s@[x as int]);
            }
            assert(doc_text(s@.subrange(lo as int, hi as int)) =~= s@.subrange(y as int, b as int));
        }
        Some((y, b))
    } else {
        None
    }
}

/// Whether `s[lo..hi]` starts with `p`.
pub(crate) fn has_prefix(s: &[char], lo: usize, hi: usize, p: &str) -> (r: bool)
    requires
        lo <= hi <= s@.len(),
    ensures
        r == starts_with(s@.subrange(lo as int, hi as int), p@),
{
    let pc = chars_of(p);
    starts_with_at(s, lo, hi, pc.as_slice())
}

/// Appends `s[lo..hi]`.
fn push_range(out: &mut Vec<char>, s: &[char], lo: usize, hi: usize)
    requires
        lo <= hi <= s@.len(),
    ensures
        final(out)@ == old(out)@ + s@.subrange(lo as int, hi as int),
{
    let piece = copy_range(s, lo, hi);
    push_all(out, piece.as_slice());
}

/// Appends what the doc line `s[x..y]` adds (see `render_step`), and gives
/// whether a code block and an author's fence are open after it.
fn push_doc_line(out: &mut Vec<char>, s: &[char], x: usize, y: usize, in_code: bool, in_fence: bool) -> (r: (bool, bool))
    requires
        x <= y <= s@.len(),
    ensures
        final(out)@ == old(out)@ + render_step(s@.subrange(x as int, y as int), in_code, in_fence).0,
        r.0 == render_step(s@.subrange(x as int, y as int), in_code, in_fence).1,
        r.1 == render_step(s@.subrange(x as int, y as int), in_code, in_fence).2,
{
    let ghost l = s@.subrange(x as int, y as int);
    let ghost o = out@;
    let (p, q) = trim_from(s, x, y);
    if has_prefix(s, p, q, "```") {
        push_range(out, s, x, y);
        push_str(out, "\n");
        proof {
            assert(out@ =~= o + render_step(l, in_code, in_fence).0);
        }
        (in_code, !in_fence)
    } else if in_fence {
        push_range(out, s, x, y);
        push_str(out, "\n");
        proof {
            assert(out@ =~= o + render_step(l, in_code, in_fence).0);
        }
        (in_code, in_fence)
    } else {
        let four = has_prefix(s, x, y, "    ");
        let tab = has_prefix(s, x, y, "\t");
        let c = four || tab;
        if c != in_code {
            push_str(out, "```\n");
        }
        let ghost mid = out@;
        if c {
            proof {
                reveal_strlit("    ");
                reveal_strlit("\t");
            }
            let from = if four {
                x + 4
            } else {
                x + 1
            };
            push_range(out, s, from, y);
            push_str(out, "\n");
            proof {
                assert(s@.subrange(from as int, y as int) =~= code_body(l));
            }
        } else {
            push_range(out, s, x, y);
            push_str(out, "  \n\n");
        }
        proof {
            assert(out@ =~= o + render_step(l, in_code, in_fence).0);
        }
        (c, in_fence)
    }
}

/// The documentation of the item on line `fn_line` (from one) of `src`,
/// from the `///` lines right above it, as Markdown.
pub fn extract_doc_comment(src: &str, fn_line: usize) -> (r: String)
    ensures
        r@ == doc_comment(src@, fn_line as int),
{
    let s = chars_of(src);
    let rs = line_ranges(s.as_slice());
    let ghost ls = lines(src@);
    if fn_line == 0 || fn_line > rs.len() {
        return String::new();
    }
    let e = fn_line - 1;
    let mut k = e;
    proof {
        lemma_block_start(ls, e as int);
    }
    while k > 0 && doc_line_at(s.as_slice(), rs[k - 1].0, rs[k - 1].1).is_some()
        invariant
            s@ == src@,
            ranges_view(s@, rs@) == ls,
            forall|i: int| 0 <= i < rs@.len() ==> #[trigger] rs@[i].0 <= rs@[i].1 <= s@.len(),
            ls == lines(src@),
            k <= e < rs@.len(),
            block_start(ls, k as int) == block_start(ls, e as int),
        decreases k,
    {
        proof {
            assert(ls[k - 1] == s@.subrange(rs@[k - 1].0 as int, rs@[k - 1].1 as int));
        }
        k = k - 1;
    }
    proof {
        if k > 0 {
            assert(ls[k - 1] == s@.subrange(rs@[k - 1].0 as int, rs@[k - 1].1 as int));
        }
        lemma_block_start(ls, e as int);
    }
    let ghost ds = ls.subrange(k as int, e as int).map_values(|l: Seq<char>| doc_text(l));
    let mut out: Vec<char> = Vec::new();
    let mut in_code = false;
    let mut in_fence = false;
    let mut j = k;
    proof {
        assert(ds.skip(0) =~= ds);
        assert(out@ + render_doc(ds, false, false) =~= render_doc(ds, false, false));
    }
    while j < e
        invariant
            s@ == src@,
            ranges_view(s@, rs@) == ls,
            forall|i: int| 0 <= i < rs@.len() ==> #[trigger] rs@[i].0 <= rs@[i].1 <= s@.len(),
            ls == lines(src@),
            k <= j <= e < rs@.len(),
            ds == ls.subrange(k as int, e as int).map_values(|l: Seq<char>| doc_text(l)),
            forall|i: int| k <= i < e ==> is_doc_line(#[trigger] ls[i]),
            out@ + render_doc(ds.skip(j - k), in_code, in_fence) == render_doc(ds, false, false),
        decreases e - j,
    {
        let (lo, hi) = rs[j];
        proof {
            assert(ls[j as int] == s@.subrange(lo as int, hi as int));
            assert(is_doc_line(ls[j as int]));
        }
        let (x, y) = match doc_line_at(s.as_slice(), lo, hi) {
            Some(p) => p,
            None => (hi, hi),
        };
        proof {
            assert(ds.skip(j - k)[0] == ds[j - k]);
            assert(ds[j - k] == doc_text(ls[j as int]));
            assert(ds.skip(j - k).drop_first() =~= ds.skip(j + 1 - k));
        }
        let ghost o = out@;
        let (c, f) = push_doc_line(&mut out, s.as_slice(), x, y, in_code, in_fence);
        proof {
            assert(out@ + render_doc(ds.skip(j + 1 - k), c, f) =~= o + render_doc(ds.skip(j - k), in_code, in_fence));
        }
        in_code = c;
        in_fence = f;
        j = j + 1;
    }
    proof {
        assert(ds.skip(e - k) =~= Seq::<Seq<char>>::empty());
    }
    if in_code {
        push_str(&mut out, "```\n");
    }
    proof {
        assert(out@ =~= render_doc(ds, false, false));
    }
    let te = crate::text::trim_end_from(out.as_slice(), 0, out.len());
    let piece = copy_range(out.as_slice(), 0, te);
    proof {
        assert(out@.subrange(0, out@.len() as int) =~= out@);
    }
    string_of(piece.as_slice())
}

// ───────────────────────── local variables ─────────────────────────

/// The type words that start a local declaration, each with its space.
pub open spec fn decl_prefixes() -> Seq<Seq<char>> {
    seq![
        "int "@, "float "@, "string "@, "bool "@, "auto "@, "i8 "@, "i16 "@, "i32 "@, "i64 "@,
        "u8 "@, "u16 "@, "u32 "@, "u64 "@,
    ]
}

/// The type words that may follow `Vault `, each with its space.
pub open spec fn vault_prefixes() -> Seq<Seq<char>> {
    seq!["int "@, "float "@, "string "@, "bool "@]
}

/// The type (without its space) of the first of `ps[k..]` that starts `t`
/// and is followed by the identifier `name`.
pub open spec fn declared_type(t: Seq<char>, name: Seq<char>, ps: Seq<Seq<char>>, k: int) -> Option<Seq<char>>
    decreases ps.len() - k,
{
    if 0 <= k < ps.len() {
        if starts_with(t, ps[k]) && word_prefix(t.skip(ps[k].len() as int)) == name {
            Some(ps[k].drop_last())
        } else {
            declared_type(t, name, ps, k + 1)
        }
    } else {
        None
    }
}

/// The hover text for `name` if line `l` declares it: a typed local, a
/// vault, or a `for` loop variable.
pub open spec fn line_hover(l: Seq<char>, name: Seq<char>) -> Option<Seq<char>> {
    let t = trim(l);
    match declared_type(t, name, decl_prefixes(), 0) {
        Some(ty) => Some("```kyte\n"@ + ty + " "@ + name + "\n```\n\n*Local variable*"@),
        None => {
            let vault = if starts_with(t, "Vault "@) {
                declared_type(t.skip(6), name, vault_prefixes(), 0)
            } else {
                None
            };
            match vault {
                Some(ty) => Some(
                    "```kyte\nVault "@ + ty + " "@ + name
                        + "\n```\n\n*Managed-memory variable (auto-freed)*"@,
                ),
                None => if starts_with(t, "for "@) && word_prefix(t.skip(4)) == name {
                    Some("```kyte\nfor "@ + name + " in ...\n```\n\n*Loop variable (int)*"@)
                } else {
                    None
                },
            }
        },
    }
}

/// The hover text from the first line of `ls` that declares `name`.
pub open spec fn hover_in(ls: Seq<Seq<char>>, name: Seq<char>) -> Option<Seq<char>>
    decreases ls.len(),
{
    if ls.len() == 0 {
        None
    } else {
        match line_hover(ls[0], name) {
            Some(h) => Some(h),
            None => hover_in(ls.drop_first(), name),
        }
    }
}

/// The hover text for the local variable `name` at cursor line `line`: from
/// the first declaration of it in the lines up to the cursor's.
pub open spec fn local_hover(text: Seq<char>, name: Seq<char>, line: int) -> Option<Seq<char>> {
    let ls = lines(text);
    let n = if line + 1 < ls.len() {
        line + 1
    } else {
        ls.len() as int
    };
    hover_in(ls.take(n), name)
}

pub(crate) fn decl_prefix_list() -> (r: Vec<&'static str>)
    ensures
        r@.map_values(|p: &'static str| p@) == decl_prefixes(),
{
    let v: Vec<&'static str> = vec![
        "int ", "float ", "string ", "bool ", "auto ", "i8 ", "i16 ", "i32 ", "i64 ", "u8 ", "u16 ",
        "u32 ", "u64 ",
    ];
    proof {
        assert(v@.map_values(|p: &'static str| p@) =~= decl_prefixes());
    }
    v
}

fn vault_prefix_list() -> (r: Vec<&'static str>)
    ensures
        r@.map_values(|p: &'static str| p@) == vault_prefixes(),
{
    let v: Vec<&'static str> = vec!["int ", "float ", "string ", "bool "];
    proof {
        assert(v@.map_values(|p: &'static str| p@) =~= vault_prefixes());
    }
    v
}

/// Each of these ends in a space.
pub(crate) proof fn lemma_prefixes_end_in_space()
    ensures
        forall|i: int| 0 <= i < decl_prefixes().len() ==> #[trigger] decl_prefixes()[i].len() > 0,
        forall|i: int| 0 <= i < vault_prefixes().len() ==> #[trigger] vault_prefixes()[i].len() > 0,
{
    reveal_strlit("int ");
    reveal_strlit("float ");
    reveal_strlit("string ");
    reveal_strlit("bool ");
    reveal_strlit("auto ");
    reveal_strlit("i8 ");
    reveal_strlit("i16 ");
    reveal_strlit("i32 ");
    reveal_strlit("i64 ");
    reveal_strlit("u8 ");
    reveal_strlit("u16 ");
    reveal_strlit("u32 ");
    reveal_strlit("u64 ");
}

/// The type of the first of `ps` that starts `s[lo..hi]` and is followed by
/// the identifier `name` (see `declared_type`).
pub(crate) fn find_declared(s: &[char], lo: usize, hi: usize, name: &[char], ps: &Vec<&'static str>) -> (r: Option<Vec<char>>)
    requires
        lo <= hi <= s@.len(),
        forall|i: int| 0 <= i < ps@.len() ==> #[trigger] ps@[i]@.len() > 0,
    ensures
        match r {
            Some(ty) => declared_type(s@.subrange(lo as int, hi as int), name@, ps@.map_values(|p: &'static str| p@), 0) == Some(ty@),
            None => declared_type(s@.subrange(lo as int, hi as int), name@, ps@.map_values(|p: &'static str| p@), 0) is None,
        },
{
    let ghost t = s@.subrange(lo as int, hi as int);
    let ghost pv = ps@.map_values(|p: &'static str| p@);
    let mut k: usize = 0;
    while k < ps.len()
        invariant
            lo <= hi <= s@.len(),
            t == s@.subrange(lo as int, hi as int),
            pv == ps@.map_values(|p: &'static str| p@),
            forall|i: int| 0 <= i < ps@.len() ==> #[trigger] ps@[i]@.len() > 0,
            k <= ps@.len(),
            declared_type(t, name@, pv, k as int) == declared_type(t, name@, pv, 0),
        decreases ps@.len() - k,
    {
        let p = ps[k];
        let pc = chars_of(p);
        proof {
            assert(pv[k as int] == p@);
        }
        if starts_with_at(s, lo, hi, pc.as_slice()) {
            let from = lo + pc.len();
            let w = word_end(s, from, hi);
            let var_piece = copy_range(s, from, w);
            proof {
                assert(t.skip(p@.len() as int) =~= s@.subrange(from as int, hi as int));
                assert(var_piece@ =~= word_prefix(s@.subrange(from as int, hi as int)));
            }
            if chars_eq(var_piece.as_slice(), name) {
                let ty = copy_range(pc.as_slice(), 0, pc.len() - 1);
                proof {
                    assert(ty@ =~= p@.drop_last());
                }
                return Some(ty);
            }
        }
        k = k + 1;
    }
    None
}

/// The hover text for `name` from line `s[lo..hi]` (see `line_hover`).
fn hover_of_line(s: &[char], lo: usize, hi: usize, name: &[char]) -> (r: Option<Vec<char>>)
    requires
        lo <= hi <= s@.len(),
    ensures
        match r {
            Some(h) => line_hover(s@.subrange(lo as int, hi as int), name@) == Some(h@),
            None => line_hover(s@.subrange(lo as int, hi as int), name@) is None,
        },
{
    let (a, b) = trim_from(s, lo, hi);
    let decls = decl_prefix_list();
    let vaults = vault_prefix_list();
    proof {
        lemma_prefixes_end_in_space();
        assert forall|i: int| 0 <= i < decls@.len() implies #[trigger] decls@[i]@.len() > 0 by {
            assert(decls@.map_values(|p: &'static str| p@)[i] == decls@[i]@);
        }
        assert forall|i: int| 0 <= i < vaults@.len() implies #[trigger] vaults@[i]@.len() > 0 by {
            assert(vaults@.map_values(|p: &'static str| p@)[i] == vaults@[i]@);
        }
    }
    match find_declared(s, a, b, name, &decls) {
        Some(ty) => {
            let mut out: Vec<char> = Vec::new();
            push_str(&mut out, "```kyte\n");
            push_all(&mut out, ty.as_slice());
            push_str(&mut out, " ");
            push_all(&mut out, name);
            push_str(&mut out, "\n```\n\n*Local variable*");
            proof {
                assert(out@ =~= "```kyte\n"@ + ty@ + " "@ + name@ + "\n```\n\n*Local variable*"@);
            }
            return Some(out);
        },
        None => {},
    }
    proof {
        reveal_strlit("Vault ");
        reveal_strlit("for ");
    }
    if has_prefix(s, a, b, "Vault ") {
        proof {
            assert(s@.subrange(a as int, b as int).skip(6) =~= s@.subrange(a + 6, b as int));
        }
        match find_declared(s, a + 6, b, name, &vaults) {
            Some(ty) => {
                let mut out: Vec<char> = Vec::new();
                push_str(&mut out, "```kyte\nVault ");
                push_all(&mut out, ty.as_slice());
                push_str(&mut out, " ");
                push_all(&mut out, name);
                push_str(&mut out, "\n```\n\n*Managed-memory variable (auto-freed)*");
                proof {
                    assert(out@ =~= "```kyte\nVault "@ + ty@ + " "@ + name@
                        + "\n```\n\n*Managed-memory variable (auto-freed)*"@);
                }
                return Some(out);
            },
            None => {},
        }
    }
    if has_prefix(s, a, b, "for ") {
        let w = word_end(s, a + 4, b);
        let var_piece = copy_range(s, a + 4, w);
        proof {
            assert(s@.subrange(a as int, b as int).skip(4) =~= s@.subrange(a + 4, b as int));
            assert(var_piece@ =~= word_prefix(s@.subrange(a + 4, b as int)));
        }
        if chars_eq(var_piece.as_slice(), name) {
            let mut out: Vec<char> = Vec::new();
            push_str(&mut out, "```kyte\nfor ");
            push_all(&mut out, name);
            push_str(&mut out, " in ...\n```\n\n*Loop variable (int)*");
            proof {
                assert(out@ =~= "```kyte\nfor "@ + name@ + " in ...\n```\n\n*Loop variable (int)*"@);
            }
            return Some(out);
        }
    }
    None
}

/// The hover text for the local variable `name` with the cursor on line
/// `line`: what the first declaration of it, up to that line, says.
pub fn local_var_hover(text: &str, name: &str, line: u32) -> (r: Option<String>)
    ensures
        match r {
            Some(h) => local_hover(text@, name@, line as int) == Some(h@),
            None => local_hover(text@, name@, line as int) is None,
        },
{
    let s = chars_of(text);
    let rs = line_ranges(s.as_slice());
    let nc = chars_of(name);
    let ghost ls = lines(text@);
    let n = if (line as usize) < rs.len() {
        line as usize + 1
    } else {
        rs.len()
    };
    let ghost lt = ls.take(n as int);
    let mut k: usize = 0;
    proof {
        assert(lt.skip(0) =~= lt);
        assert(ls.len() == rs@.len());
        assert(local_hover(text@, name@, line as int) == hover_in(lt, name@));
    }
    while k < n
        invariant
            s@ == text@,
            nc@ == name@,
            ranges_view(s@, rs@) == ls,
            forall|i: int| 0 <= i < rs@.len() ==> #[trigger] rs@[i].0 <= rs@[i].1 <= s@.len(),
            ls == lines(text@),
            n <= rs@.len(),
            lt == ls.take(n as int),
            k <= n,
            hover_in(lt.skip(k as int), name@) == hover_in(lt, name@),
            local_hover(text@, name@, line as int) == hover_in(lt, name@),
        decreases n - k,
    {
        proof {
            assert(lt.skip(k as int).drop_first() =~= lt.skip(k + 1));
            assert(lt.skip(k as int)[0] == ls[k as int]);
        }
        let (lo, hi) = rs[k];
        proof {
            assert(ls[k as int] == s@.subrange(lo as int, hi as int));
        }
        match hover_of_line(s.as_slice(), lo, hi, nc.as_slice()) {
            Some(h) => {
                return Some(string_of(h.as_slice()));
            },
            None => {},
        }
        k = k + 1;
    }
    proof {
        assert(lt.skip(k as int) =~= Seq::<Seq<char>>::empty());
    }
    None
}

} // verus!
