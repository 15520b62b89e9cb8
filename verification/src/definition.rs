//! Going to a definition: where the name under the cursor is declared, as
//! a top-level item (or an item of an anchor), or else as a local variable.
use crate::ast::{tops_v, Span, TopLevel, TopLevelV};
use crate::imports::{preprocess_source, preprocessed};
use crate::lexer::Lexer;
use crate::lsp::{
    decl_prefix_list, decl_prefixes, declared_type, find_declared, has_prefix, lemma_prefixes_end_in_space, word_at,
    word_at_pos, word_end, word_prefix,
};
use crate::parser::grammar::{fresh, sub_input};
use crate::parser::items::items_s;
use crate::parser::{texts, Parser};
use crate::symbols::{
    add_u32, byte_count, byte_len, find_first, find_from, lemma_find_bound, name_range, name_range_of, Position, Range,
};
use crate::text::{chars_eq, chars_of, copy_range, line_ranges, lines, ranges_view, split_lines, starts_with, trim, trim_from};
use vstd::prelude::*;

verus! {

// ───────────────────────── items ─────────────────────────

/// Whether item `t` is the declaration of `word`: a function, struct, enum
/// or anchor of that name, and at the top level also a trait or module.
pub open spec fn item_defines(t: TopLevelV, word: Seq<char>, top: bool) -> bool {
    match t {
        TopLevelV::Function { name, .. } => name == word,
        TopLevelV::Struct { name, .. } => name == word,
        TopLevelV::Enum { name, .. } => name == word,
        TopLevelV::Anchor { name, .. } => name == word,
        TopLevelV::Trait { name, .. } => top && name == word,
        TopLevelV::Module { name, .. } => top && name == word,
        _ => false,
    }
}

/// Where `word` is declared among `items[k..]`: the name on the first
/// item that declares it, looking into each anchor's children before the
/// items after it.
pub open spec fn def_in(items: Seq<(TopLevelV, Span)>, k: int, word: Seq<char>, top: bool, lines: Seq<Seq<char>>) -> Option<Range>
    decreases items, items.len() - k,
{
    if 0 <= k < items.len() {
        let t = items[k].0;
        if item_defines(t, word, top) {
            Some(name_range_of(lines, items[k].1.line, word))
        } else {
            let inner = match t {
                TopLevelV::Anchor { children, .. } => def_in(children, 0, word, false, lines),
                _ => None,
            };
            match inner {
                Some(r) => Some(r),
                None => def_in(items, k + 1, word, top, lines),
            }
        }
    } else {
        None
    }
}

// ───────────────────────── local variables ─────────────────────────

/// The words that start the declaration of a local variable, each with its
/// space.
pub open spec fn def_prefixes() -> Seq<Seq<char>> {
    decl_prefixes().push("Vault "@)
}

/// Whether line `l` declares the local variable `name`: a declaration
/// `T name ...` or a loop `for name ...`.
pub open spec fn line_defines(l: Seq<char>, name: Seq<char>) -> bool {
    let t = trim(l);
    declared_type(t, name, def_prefixes(), 0) is Some || (starts_with(t, "for "@) && word_prefix(t.skip(4)) == name)
}

/// The byte at which `name` first stands in `l`, 0 when it does not.
pub open spec fn col_of(l: Seq<char>, name: Seq<char>) -> u32 {
    match find_from(l, name, 0) {
        Some(j) => byte_len(l.take(j)) as u32,
        None => 0,
    }
}

/// Where the first of `ls[k..]` that declares `name` names it; the line
/// counts from 0.
pub open spec fn local_def_from(ls: Seq<Seq<char>>, name: Seq<char>, k: int) -> Option<Range>
    decreases ls.len() - k,
{
    if 0 <= k < ls.len() {
        if line_defines(ls[k], name) {
            let col = col_of(ls[k], name);
            Some(
                Range {
                    start: Position { line: k as u32, character: col },
                    end: Position { line: k as u32, character: add_u32(col, byte_len(name) as u32) },
                },
            )
        } else {
            local_def_from(ls, name, k + 1)
        }
    } else {
        None
    }
}

/// Where the definition of the name at `line` and `character` of `text`
/// is: among the items read from the text, or else a local declaration.
pub open spec fn definition_at(text: Seq<char>, line: int, character: int) -> Option<Range> {
    match word_at_pos(text, line, character) {
        None => None,
        Some(w) => match def_in(
            items_s(sub_input(preprocessed(text), 1), fresh(), Seq::empty()).0,
            0,
            w,
            true,
            lines(text),
        ) {
            Some(r) => Some(r),
            None => local_def_from(lines(text), w, 0),
        },
    }
}

// ───────────────────────── computing them ─────────────────────────

/// Whether item `t` is the declaration of `word` (see `item_defines`).
fn defines(t: &TopLevel, word: &str, top: bool) -> (r: bool)
    ensures
        r == item_defines(t@, word@, top),
{
    let w = chars_of(word);
    match t {
        TopLevel::Function { name, .. } | TopLevel::Struct { name, .. } | TopLevel::Enum { name, .. }
        | TopLevel::Anchor { name, .. } => chars_eq(chars_of(name.as_str()).as_slice(), w.as_slice()),
        TopLevel::Trait { name, .. } | TopLevel::Module { name, .. } => top && chars_eq(
            chars_of(name.as_str()).as_slice(),
            w.as_slice(),
        ),
        _ => false,
    }
}

/// Where `word` is declared among `items` (see `def_in`).
pub fn find_def_in(items: &Vec<(TopLevel, Span)>, word: &str, top: bool, lines: &[String]) -> (r: Option<Range>)
    ensures
        r == def_in(tops_v(*items), 0, word@, top, texts(lines@)),
    decreases items,
{
    let ghost iv = tops_v(*items);
    let ghost ls = texts(lines@);
    let mut k: usize = 0;
    while k < items.len()
        invariant
            k <= items@.len(),
            iv == tops_v(*items),
            ls == texts(lines@),
            def_in(iv, k as int, word@, top, ls) == def_in(iv, 0, word@, top, ls),
        decreases items@.len() - k,
    {
        let (item, span) = (&items[k].0, &items[k].1);
        if defines(item, word, top) {
            return Some(name_range(lines, span.line, word));
        }
        match item {
            TopLevel::Anchor { children, .. } => {
                proof {
                    vstd::std_specs::vec::axiom_vec_index_decreases(*items, k as int);
                }
                let inner = find_def_in(children, word, false, lines);
                if inner.is_some() {
                    return inner;
                }
            },
            _ => {},
        }
        k = k + 1;
    }
    None
}

/// Whether `s[lo..hi]` declares the local variable `name` (see
/// `line_defines`).
fn defines_local(s: &[char], lo: usize, hi: usize, name: &[char]) -> (r: bool)
    requires
        lo <= hi <= s@.len(),
    ensures
        r == line_defines(s@.subrange(lo as int, hi as int), name@),
{
    let (a, b) = trim_from(s, lo, hi);
    let mut ps = decl_prefix_list();
    ps.push("Vault ");
    proof {
        lemma_prefixes_end_in_space();
        reveal_strlit("Vault ");
        assert(ps@.map_values(|p: &'static str| p@) =~= def_prefixes());
        assert forall|i: int| 0 <= i < ps@.len() implies #[trigger] ps@[i]@.len() > 0 by {
            assert(ps@.map_values(|p: &'static str| p@)[i] == ps@[i]@);
        }
    }
    if find_declared(s, a, b, name, &ps).is_some() {
        return true;
    }
    proof {
        reveal_strlit("for ");
    }
    if has_prefix(s, a, b, "for ") {
        let w = word_end(s, a + 4, b);
        let var_piece = copy_range(s, a + 4, w);
        proof {
            assert(s@.subrange(a as int, b as int).skip(4) =~= s@.subrange(a + 4, b as int));
            assert(var_piece@ =~= word_prefix(s@.subrange(a + 4, b as int)));
        }
        return chars_eq(var_piece.as_slice(), name);
    }
    false
}

/// Where the first line of `text` that declares the local variable `name`
/// names it (see `local_def_from`).
pub fn find_local_var_def(text: &str, name: &str) -> (r: Option<Range>)
    ensures
        r == local_def_from(lines(text@), name@, 0),
{
    let s = chars_of(text);
    let rs = line_ranges(s.as_slice());
    let nc = chars_of(name);
    let ghost lv = lines(text@);
    let mut k: usize = 0;
    proof {
        assert(lv.len() == rs@.len());
    }
    while k < rs.len()
        invariant
            s@ == text@,
            nc@ == name@,
            ranges_view(s@, rs@) == lv,
            forall|i: int| 0 <= i < rs@.len() ==> #[trigger] rs@[i].0 <= rs@[i].1 <= s@.len(),
            lv == lines(text@),
            k <= rs@.len(),
            local_def_from(lv, name@, k as int) == local_def_from(lv, name@, 0),
        decreases rs@.len() - k,
    {
        let (lo, hi) = rs[k];
        proof {
            assert(lv[k as int] == s@.subrange(lo as int, hi as int));
        }
        if defines_local(s.as_slice(), lo, hi, nc.as_slice()) {
            let l = copy_range(s.as_slice(), lo, hi);
            let col: u32 = match find_first(l.as_slice(), nc.as_slice()) {
                Some(j) => {
                    proof {
                        lemma_find_bound(l@, nc@, 0);
                    }
                    byte_count(l.as_slice(), j) as u32
                },
                None => 0,
            };
            let nlen = byte_count(nc.as_slice(), nc.len()) as u32;
            proof {
                assert(nc@.take(nc@.len() as int) =~= nc@);
                assert(col == col_of(lv[k as int], name@));
            }
            return Some(
                Range {
                    start: Position { line: k as u32, character: col },
                    end: Position { line: k as u32, character: col.wrapping_add(nlen) },
                },
            );
        }
        k = k + 1;
    }
    None
}

/// Where the name at `line` and `character` (both from 0) of `text` is
/// defined (see `definition_at`). Definitions in imported files are not
/// looked for here.
pub fn compute_definition(text: &str, line: u32, character: u32) -> (r: Option<Range>)
    requires
        preprocessed(text@).len() < usize::MAX,
    ensures
        r == definition_at(text@, line as int, character as int),
{
    let word = match word_at(text, line, character) {
        Some(w) => w,
        None => {
            return None;
        },
    };
    let src = preprocess_source(text);
    let mut lx = Lexer::new(src.as_str());
    let toks = lx.tokenize();
    let mut p = Parser::new(toks);
    proof {
        assert(p.input().toks =~= sub_input(src@, 1).toks);
        assert(p.input().lines =~= sub_input(src@, 1).lines);
        assert(p.input().cols =~= sub_input(src@, 1).cols);
        assert(p.input() == sub_input(src@, 1));
        assert(p.state() == fresh());
    }
    let ast = p.parse();
    let ls = split_lines(text);
    proof {
        assert(texts(ls@) == lines(text@));
    }
    match find_def_in(&ast.items, word.as_str(), true, ls.as_slice()) {
        Some(r) => Some(r),
        None => find_local_var_def(text, word.as_str()),
    }
}


// ───────────────────────── in an imported file ─────────────────────────

/// Where the first of `items[k..]` that is a function, struct or enum
/// named `word` names it.
pub open spec fn import_def_in(items: Seq<(TopLevelV, Span)>, k: int, word: Seq<char>, lines: Seq<Seq<char>>) -> Option<
    Range,
>
    decreases items.len() - k,
{
    if 0 <= k < items.len() {
        let found = match items[k].0 {
            TopLevelV::Function { name, .. } => name == word,
            TopLevelV::Struct { name, .. } => name == word,
            TopLevelV::Enum { name, .. } => name == word,
            _ => false,
        };
        if found {
            Some(name_range_of(lines, items[k].1.line, word))
        } else {
            import_def_in(items, k + 1, word, lines)
        }
    } else {
        None
    }
}

/// Where the imported file `src` declares `word` as a function, struct or
/// enum at its top level.
pub open spec fn import_def(src: Seq<char>, word: Seq<char>) -> Option<Range> {
    import_def_in(items_s(sub_input(preprocessed(src), 1), fresh(), Seq::empty()).0, 0, word, lines(src))
}

/// Where the imported file `src` declares `word` (see `import_def`).
pub fn import_definition(src: &str, word: &str) -> (r: Option<Range>)
    requires
        preprocessed(src@).len() < usize::MAX,
    ensures
        r == import_def(src@, word@),
{
    let pre = preprocess_source(src);
    let mut lx = Lexer::new(pre.as_str());
    let toks = lx.tokenize();
    let mut p = Parser::new(toks);
    proof {
        assert(p.input().toks =~= sub_input(pre@, 1).toks);
        assert(p.input().lines =~= sub_input(pre@, 1).lines);
        assert(p.input().cols =~= sub_input(pre@, 1).cols);
        assert(p.input() == sub_input(pre@, 1));
        assert(p.state() == fresh());
    }
    let ast = p.parse();
    let ls = split_lines(src);
    proof {
        assert(texts(ls@) == lines(src@));
    }
    let ghost iv = tops_v(ast.items);
    let mut k: usize = 0;
    while k < ast.items.len()
        invariant
            k <= ast.items@.len(),
            iv == tops_v(ast.items),
            iv == items_s(sub_input(preprocessed(src@), 1), fresh(), Seq::empty()).0,
            texts(ls@) == lines(src@),
            import_def_in(iv, k as int, word@, lines(src@)) == import_def_in(iv, 0, word@, lines(src@)),
        decreases ast.items@.len() - k,
    {
        proof {
            assert(iv[k as int].0 == crate::ast::top_v(ast.items@[k as int].0));
        }
        let found = match &ast.items[k].0 {
            TopLevel::Function { name, .. } => chars_eq(chars_of(name.as_str()).as_slice(), chars_of(word).as_slice()),
            TopLevel::Struct { name, .. } => chars_eq(chars_of(name.as_str()).as_slice(), chars_of(word).as_slice()),
            TopLevel::Enum { name, .. } => chars_eq(chars_of(name.as_str()).as_slice(), chars_of(word).as_slice()),
            _ => false,
        };
        if found {
            return Some(name_range(ls.as_slice(), ast.items[k].1.line, word));
        }
        k = k + 1;
    }
    None
}

} // verus!
