//! The outline of a document for an editor: a symbol for each top-level
//! item (with its members or nested items), placed on the item's line.
//!
//! Positions count lines from 0 and characters as UTF-8 bytes, as editors
//! are told.
use crate::ast::{
    names_v, params_view, sfields_view, tops_v, variants_v, AnchorKindV, Param, Span, TopLevel, TopLevelV, TyV,
};
use crate::diagnostics::utf8_len;
use crate::imports::{preprocess_source, preprocessed};
use crate::lexer::Lexer;
use crate::lsp::{anchor_kind_str, ty_str};
use crate::parser::grammar::{fresh, sub_input};
use crate::parser::items::items_s;
use crate::parser::{texts, Parser};
use crate::shared::ty_name_of;
use crate::text::{chars_of, lines, push_all, push_str, split_lines, string_of};
use vstd::prelude::*;

verus! {

/// A place in a document: a line (from 0) and a byte within it.
#[derive(Debug, Clone, Copy, PartialEq, Eq, Structural)]
pub struct Position {
    pub line: u32,
    pub character: u32,
}

/// A stretch of a line in a document.
#[derive(Debug, Clone, Copy, PartialEq, Eq, Structural)]
pub struct Range {
    pub start: Position,
    pub end: Position,
}

/// What a symbol stands for.
#[derive(Debug, Clone, Copy, PartialEq, Eq, Structural)]
pub enum SymbolKind {
    Function,
    Field,
    Struct,
    EnumMember,
    Enum,
    Method,
    Interface,
    Module,
    Event,
    Constant,
    Class,
}

/// A symbol of the outline: its name, a short description, what it is,
/// where it is (the whole line, and the name in it) and what it holds.
#[derive(Debug)]
pub struct DocumentSymbol {
    pub name: String,
    pub detail: Option<String>,
    pub kind: SymbolKind,
    pub range: Range,
    pub selection_range: Range,
    pub children: Option<Vec<DocumentSymbol>>,
}

/// The view of a symbol.
pub struct SymbolV {
    pub name: Seq<char>,
    pub detail: Option<Seq<char>>,
    pub kind: SymbolKind,
    pub range: Range,
    pub selection_range: Range,
    pub children: Option<Seq<SymbolV>>,
}

/// The view of a symbol.
pub open spec fn symbol_v(d: DocumentSymbol) -> SymbolV
    decreases d,
{
    SymbolV {
        name: d.name@,
        detail: match d.detail {
            Some(x) => Some(x@),
            None => None,
        },
        kind: d.kind,
        range: d.range,
        selection_range: d.selection_range,
        children: match d.children {
            Some(c) => Some(symbols_v(c)),
            None => None,
        },
    }
}

/// The views of a list of symbols.
pub open spec fn symbols_v(v: Vec<DocumentSymbol>) -> Seq<SymbolV>
    decreases v,
{
    Seq::new(
        v@.len(),
        |i: int|
            if 0 <= i < v@.len() {
                proof {
                    vstd::std_specs::vec::axiom_vec_index_decreases(v, i);
                }
                symbol_v(v[i])
            } else {
                SymbolV {
                    name: Seq::empty(),
                    detail: None,
                    kind: SymbolKind::Field,
                    range: Range { start: Position { line: 0, character: 0 }, end: Position { line: 0, character: 0 } },
                    selection_range: Range {
                        start: Position { line: 0, character: 0 },
                        end: Position { line: 0, character: 0 },
                    },
                    children: None,
                }
            },
    )
}

impl View for DocumentSymbol {
    type V = SymbolV;

    open spec fn view(&self) -> SymbolV {
        symbol_v(*self)
    }
}

// ───────────────────────── positions ─────────────────────────

/// How many UTF-8 bytes `s` takes.
pub open spec fn byte_len(s: Seq<char>) -> nat
    decreases s.len(),
{
    if s.len() == 0 {
        0
    } else {
        byte_len(s.drop_last()) + utf8_len(s.last())
    }
}

/// Where `p` first occurs in `s` at or after `k` (an index of characters).
pub open spec fn find_from(s: Seq<char>, p: Seq<char>, k: int) -> Option<int>
    decreases s.len() + 1 - k,
{
    if k < 0 || k + p.len() > s.len() {
        None
    } else if s.subrange(k, k + p.len()) == p {
        Some(k)
    } else {
        find_from(s, p, k + 1)
    }
}

/// The line (from 0) of a position whose line counts from 1.
pub open spec fn line_index(line_1: usize) -> u32 {
    (if line_1 >= 1 {
        line_1 - 1
    } else {
        0
    }) as u32
}

/// The sum `a + b` on 32 bits, wrapping around.
pub open spec fn add_u32(a: u32, b: u32) -> u32 {
    if a + b > u32::MAX {
        (a + b - 0x1_0000_0000) as u32
    } else {
        (a + b) as u32
    }
}

/// The whole line `line_1` (from 1): from its start to its last byte, at
/// least one byte long (one byte where there is no such line).
pub open spec fn line_range_of(lines: Seq<Seq<char>>, line_1: usize) -> Range {
    let ln = line_index(line_1);
    let len: u32 = if (ln as int) < lines.len() {
        byte_len(lines[ln as int]) as u32
    } else {
        1
    };
    Range {
        start: Position { line: ln, character: 0 },
        end: Position { line: ln, character: if len < 1 { 1 } else { len } },
    }
}

/// Where `name` first stands on line `line_1` (from 1); at its start when
/// it does not.
pub open spec fn name_range_of(lines: Seq<Seq<char>>, line_1: usize, name: Seq<char>) -> Range {
    let ln = line_index(line_1);
    let col: u32 = if (ln as int) < lines.len() {
        match find_from(lines[ln as int], name, 0) {
            Some(k) => byte_len(lines[ln as int].take(k)) as u32,
            None => 0,
        }
    } else {
        0
    };
    Range {
        start: Position { line: ln, character: col },
        end: Position { line: ln, character: add_u32(col, byte_len(name) as u32) },
    }
}

// ───────────────────────── the outline ─────────────────────────

/// How an anchor kind is written inside `@name(...)`.
pub open spec fn kind_text(k: AnchorKindV) -> Seq<char> {
    match k {
        AnchorKindV::Main => "main"@,
        AnchorKindV::Plain => "plain"@,
        AnchorKindV::Thread => "thread"@,
        AnchorKindV::Event(e) => "event("@ + e + ")"@,
    }
}

/// Parameters as the outline writes them: `T name`, separated by `, `.
pub open spec fn params_text(ps: Seq<(TyV, Seq<char>)>) -> Seq<char>
    decreases ps.len(),
{
    if ps.len() == 0 {
        Seq::empty()
    } else if ps.len() == 1 {
        ty_name_of(ps[0].0) + " "@ + ps[0].1
    } else {
        params_text(ps.drop_last()) + ", "@ + ty_name_of(ps.last().0) + " "@ + ps.last().1
    }
}

/// A symbol placed on line `line_1` with no children.
pub open spec fn leaf(
    name: Seq<char>,
    detail: Option<Seq<char>>,
    kind: SymbolKind,
    lines: Seq<Seq<char>>,
    line_1: usize,
) -> SymbolV {
    SymbolV {
        name,
        detail,
        kind,
        range: line_range_of(lines, line_1),
        selection_range: line_range_of(lines, line_1),
        children: None,
    }
}

/// The symbol of item `t` at `span` in a document of `lines`.
pub open spec fn symbol_of(t: TopLevelV, span: Span, lines: Seq<Seq<char>>) -> SymbolV
    decreases t,
{
    let range = line_range_of(lines, span.line);
    match t {
        TopLevelV::Function { name, params, return_ty, .. } => SymbolV {
            name,
            detail: Some(
                "fn("@ + params_text(params) + ")"@ + match return_ty {
                    Some(r) => " -> "@ + ty_name_of(r),
                    None => Seq::empty(),
                },
            ),
            kind: SymbolKind::Function,
            range,
            selection_range: name_range_of(lines, span.line, name),
            children: None,
        },
        TopLevelV::Struct { name, fields } => SymbolV {
            name,
            detail: Some("struct "@ + name),
            kind: SymbolKind::Struct,
            range,
            selection_range: name_range_of(lines, span.line, name),
            children: Some(
                Seq::new(
                    fields.len(),
                    |i: int| leaf(fields[i].1, Some(ty_name_of(fields[i].0)), SymbolKind::Field, lines, span.line),
                ),
            ),
        },
        TopLevelV::Enum { name, variants } => SymbolV {
            name,
            detail: Some("enum "@ + name),
            kind: SymbolKind::Enum,
            range,
            selection_range: name_range_of(lines, span.line, name),
            children: Some(
                Seq::new(
                    variants.len(),
                    |i: int|
                        leaf(
                            variants[i].0,
                            match variants[i].1 {
                                Some(t) => Some(ty_name_of(t)),
                                None => None,
                            },
                            SymbolKind::EnumMember,
                            lines,
                            span.line,
                        ),
                ),
            ),
        },
        TopLevelV::Trait { name, methods } => SymbolV {
            name,
            detail: Some("trait "@ + name),
            kind: SymbolKind::Interface,
            range,
            selection_range: name_range_of(lines, span.line, name),
            children: Some(
                Seq::new(
                    methods.len(),
                    |i: int|
                        leaf(
                            methods[i].0,
                            Some("fn("@ + params_text(methods[i].1) + ")"@),
                            SymbolKind::Method,
                            lines,
                            span.line,
                        ),
                ),
            ),
        },
        TopLevelV::Module { name, items } => SymbolV {
            name,
            detail: Some("mod "@ + name),
            kind: SymbolKind::Module,
            range,
            selection_range: name_range_of(lines, span.line, name),
            children: Some(
                Seq::new(
                    items.len(),
                    |i: int|
                        if 0 <= i < items.len() {
                            symbol_of(items[i].0, items[i].1, lines)
                        } else {
                            leaf(Seq::empty(), None, SymbolKind::Module, lines, span.line)
                        },
                ),
            ),
        },
        TopLevelV::Anchor { name, kind, .. } => SymbolV {
            name,
            detail: Some("@"@ + name + "("@ + kind_text(kind) + ")"@),
            kind: SymbolKind::Event,
            range,
            selection_range: name_range_of(lines, span.line, name),
            children: None,
        },
        TopLevelV::ConstDecl { ty, name, .. } => SymbolV {
            name,
            detail: Some("const "@ + ty_name_of(ty)),
            kind: SymbolKind::Constant,
            range,
            selection_range: name_range_of(lines, span.line, name),
            children: None,
        },
        TopLevelV::Impl { trait_name, target_ty, methods } => SymbolV {
            name: "impl "@ + trait_name + " for "@ + target_ty,
            detail: None,
            kind: SymbolKind::Class,
            range,
            selection_range: name_range_of(lines, span.line, target_ty),
            children: Some(
                Seq::new(
                    methods.len(),
                    |i: int|
                        if 0 <= i < methods.len() {
                            symbol_of(methods[i].0, methods[i].1, lines)
                        } else {
                            leaf(Seq::empty(), None, SymbolKind::Class, lines, span.line)
                        },
                ),
            ),
        },
    }
}

/// The symbols of a list of items, in order.
pub open spec fn symbols_of(items: Seq<(TopLevelV, Span)>, lines: Seq<Seq<char>>) -> Seq<SymbolV> {
    Seq::new(items.len(), |i: int| symbol_of(items[i].0, items[i].1, lines))
}

/// The outline of document `text`: the symbols of the items that the
/// parser reads from it (import lines blanked).
pub open spec fn outline(text: Seq<char>) -> Seq<SymbolV> {
    symbols_of(items_s(sub_input(preprocessed(text), 1), fresh(), Seq::empty()).0, lines(text))
}

// ───────────────────────── computing the outline ─────────────────────────

/// How many UTF-8 bytes the first `k` characters of `s` take.
pub(crate) fn byte_count(s: &[char], k: usize) -> (r: u128)
    requires
        k <= s@.len(),
    ensures
        r == byte_len(s@.take(k as int)),
{
    let mut n: u128 = 0;
    let mut i: usize = 0;
    while i < k
        invariant
            i <= k <= s@.len(),
            n == byte_len(s@.take(i as int)),
            n <= 4 * i,
        decreases k - i,
    {
        let c = s[i];
        let w: u128 = if (c as u32) < 0x80 {
            1
        } else if (c as u32) < 0x800 {
            2
        } else if (c as u32) < 0x10000 {
            3
        } else {
            4
        };
        proof {
            assert(s@.take(i + 1).drop_last() =~= s@.take(i as int));
            assert(s@.take(i + 1).last() == c);
        }
        n = n + w;
        i = i + 1;
    }
    n
}

/// Whether `p` stands in `s` at `k`.
fn matches_at(s: &[char], p: &[char], k: usize) -> (r: bool)
    requires
        k + p@.len() <= s@.len(),
    ensures
        r == (s@.subrange(k as int, k + p@.len()) == p@),
{
    let n = s.len();
    let mut j: usize = 0;
    while j < p.len()
        invariant
            j <= p@.len(),
            n == s@.len(),
            k + p@.len() <= s@.len(),
            forall|m: int| 0 <= m < j ==> s@[k + m] == p@[m],
        decreases p@.len() - j,
    {
        if s[k + j] != p[j] {
            proof {
                assert(s@.subrange(k as int, k + p@.len())[j as int] != p@[j as int]);
            }
            return false;
        }
        j = j + 1;
    }
    proof {
        assert(s@.subrange(k as int, k + p@.len()) =~= p@);
    }
    true
}

/// Where `p` first occurs in `s` (see `find_from`).
pub(crate) fn find_first(s: &[char], p: &[char]) -> (r: Option<usize>)
    ensures
        match r {
            Some(k) => find_from(s@, p@, 0) == Some(k as int),
            None => find_from(s@, p@, 0) is None,
        },
{
    if p.len() > s.len() {
        return None;
    }
    let last = s.len() - p.len();
    let mut k: usize = 0;
    loop
        invariant
            last == s@.len() - p@.len(),
            k <= last,
            find_from(s@, p@, k as int) == find_from(s@, p@, 0),
        decreases last - k,
    {
        if matches_at(s, p, k) {
            return Some(k);
        }
        if k == last {
            proof {
                assert(find_from(s@, p@, k + 1) is None);
            }
            return None;
        }
        k = k + 1;
    }
}

/// The line (from 0) of a position whose line counts from 1.
fn line_index_of(line_1: usize) -> (r: u32)
    ensures
        r == line_index(line_1),
{
    if line_1 >= 1 {
        (line_1 - 1) as u32
    } else {
        0
    }
}

/// The range of the whole line `line_1` (see `line_range_of`).
pub fn line_range(lines: &[String], line_1: usize) -> (r: Range)
    ensures
        r == line_range_of(texts(lines@), line_1),
{
    let ln = line_index_of(line_1);
    let len: u32 = if (ln as usize) < lines.len() {
        let l = chars_of(lines[ln as usize].as_str());
        byte_count(l.as_slice(), l.len()) as u32
    } else {
        1
    };
    proof {
        if (ln as int) < lines@.len() {
            assert(texts(lines@)[ln as int] == lines@[ln as int]@);
            assert(lines@[ln as int]@.take(lines@[ln as int]@.len() as int) =~= lines@[ln as int]@);
        }
    }
    Range {
        start: Position { line: ln, character: 0 },
        end: Position { line: ln, character: if len < 1 { 1 } else { len } },
    }
}

/// Where `name` stands on line `line_1` (see `name_range_of`).
pub fn name_range(lines: &[String], line_1: usize, name: &str) -> (r: Range)
    ensures
        r == name_range_of(texts(lines@), line_1, name@),
{
    let ln = line_index_of(line_1);
    let nm = chars_of(name);
    let col: u32 = if (ln as usize) < lines.len() {
        let l = chars_of(lines[ln as usize].as_str());
        proof {
            assert(texts(lines@)[ln as int] == lines@[ln as int]@);
        }
        match find_first(l.as_slice(), nm.as_slice()) {
            Some(k) => {
                proof {
                    lemma_find_bound(l@, nm@, 0);
                }
                byte_count(l.as_slice(), k) as u32
            },
            None => 0,
        }
    } else {
        0
    };
    let nlen = byte_count(nm.as_slice(), nm.len()) as u32;
    proof {
        assert(nm@.take(nm@.len() as int) =~= nm@);
    }
    Range { start: Position { line: ln, character: col }, end: Position { line: ln, character: col.wrapping_add(nlen) } }
}

/// A found place is inside the text.
pub proof fn lemma_find_bound(s: Seq<char>, p: Seq<char>, k: int)
    ensures
        find_from(s, p, k) matches Some(j) ==> k <= j && j + p.len() <= s.len(),
    decreases s.len() + 1 - k,
{
    if !(k < 0 || k + p.len() > s.len()) && s.subrange(k, k + p.len()) != p {
        lemma_find_bound(s, p, k + 1);
    }
}

/// Parameters as the outline writes them (see `params_text`).
pub(crate) fn params_detail(params: &Vec<Param>) -> (r: Vec<char>)
    ensures
        r@ == params_text(params_view(*params)),
{
    let ghost ps = params_view(*params);
    let mut out: Vec<char> = Vec::new();
    let mut i: usize = 0;
    while i < params.len()
        invariant
            i <= params@.len(),
            ps == params_view(*params),
            out@ == params_text(ps.take(i as int)),
        decreases params@.len() - i,
    {
        let ghost before = out@;
        if i > 0 {
            push_str(&mut out, ", ");
        }
        push_str(&mut out, ty_str(&params[i].ty).as_str());
        push_str(&mut out, " ");
        push_str(&mut out, params[i].name.as_str());
        proof {
            reveal_strlit(", ");
            reveal_strlit(" ");
            assert(ps.take(i + 1).drop_last() =~= ps.take(i as int));
            assert(ps.take(i + 1).last() == (params@[i as int].ty@, params@[i as int].name@));
            if i == 0 {
                assert(ps.take(1)[0] == (params@[0].ty@, params@[0].name@));
                assert(out@ =~= params_text(ps.take(1)));
            } else {
                assert(out@ =~= params_text(ps.take(i + 1)));
            }
        }
        i = i + 1;
    }
    proof {
        assert(ps.take(params@.len() as int) =~= ps);
    }
    out
}

/// A symbol with no children on line `line_1` (see `leaf`).
fn leaf_symbol(name: String, detail: Option<String>, kind: SymbolKind, lines: &[String], line_1: usize) -> (r: DocumentSymbol)
    ensures
        r@ == leaf(
            name@,
            match detail {
                Some(d) => Some(d@),
                None => None,
            },
            kind,
            texts(lines@),
            line_1,
        ),
{
    let range = line_range(lines, line_1);
    DocumentSymbol { name, detail, kind, range, selection_range: range, children: None }
}

/// The text `a` followed by `b`.
fn concat(a: &str, b: &str) -> (r: String)
    ensures
        r@ == a@ + b@,
{
    let mut v = chars_of(a);
    push_str(&mut v, b);
    string_of(v.as_slice())
}

/// The symbol of item `item` at `span` in a document of `lines` (see
/// `symbol_of`).
pub fn build_symbol(item: &TopLevel, span: &Span, lines: &[String]) -> (r: Option<DocumentSymbol>)
    ensures
        r is Some,
        r->0@ == symbol_of(item@, *span, texts(lines@)),
    decreases item,
{
    let range = line_range(lines, span.line);
    match item {
        TopLevel::Function { name, params, return_ty, .. } => {
            let mut d: Vec<char> = Vec::new();
            push_str(&mut d, "fn(");
            push_all(&mut d, params_detail(params).as_slice());
            push_str(&mut d, ")");
            match return_ty {
                Some(t) => {
                    push_str(&mut d, " -> ");
                    push_str(&mut d, ty_str(t).as_str());
                },
                None => {},
            }
            proof {
                assert(d@ =~= "fn("@ + params_text(params_view(*params)) + ")"@ + match crate::ast::opt_ty_v(*return_ty) {
                    Some(r) => " -> "@ + ty_name_of(r),
                    None => Seq::empty(),
                });
            }
            Some(DocumentSymbol {
                name: name.clone(),
                detail: Some(string_of(d.as_slice())),
                kind: SymbolKind::Function,
                range,
                selection_range: name_range(lines, span.line, name.as_str()),
                children: None,
            })
        },
        TopLevel::Struct { name, fields } => {
            let ghost fv = sfields_view(*fields);
            let mut children: Vec<DocumentSymbol> = Vec::new();
            let mut i: usize = 0;
            while i < fields.len()
                invariant
                    i <= fields@.len(),
                    fv == sfields_view(*fields),
                    symbols_v(children) =~= Seq::new(
                        i as nat,
                        |k: int| leaf(fv[k].1, Some(ty_name_of(fv[k].0)), SymbolKind::Field, texts(lines@), span.line),
                    ),
                decreases fields@.len() - i,
            {
                let c = leaf_symbol(
                    fields[i].name.clone(),
                    Some(ty_str(&fields[i].ty)),
                    SymbolKind::Field,
                    lines,
                    span.line,
                );
                let ghost before = symbols_v(children);
                let ghost cv = c@;
                children.push(c);
                proof {
                    assert(symbols_v(children) =~= before.push(cv));
                }
                i = i + 1;
            }
            proof {
                let want = symbol_of(item@, *span, texts(lines@));
                assert(symbols_v(children) =~= want.children->Some_0);
            }
            Some(DocumentSymbol {
                name: name.clone(),
                detail: Some(concat("struct ", name.as_str())),
                kind: SymbolKind::Struct,
                range,
                selection_range: name_range(lines, span.line, name.as_str()),
                children: Some(children),
            })
        },
        TopLevel::Enum { name, variants } => {
            let ghost vv = variants_v(*variants);
            let mut children: Vec<DocumentSymbol> = Vec::new();
            let mut i: usize = 0;
            while i < variants.len()
                invariant
                    i <= variants@.len(),
                    vv == variants_v(*variants),
                    symbols_v(children) =~= Seq::new(
                        i as nat,
                        |k: int|
                            leaf(
                                vv[k].0,
                                match vv[k].1 {
                                    Some(t) => Some(ty_name_of(t)),
                                    None => None,
                                },
                                SymbolKind::EnumMember,
                                texts(lines@),
                                span.line,
                            ),
                    ),
                decreases variants@.len() - i,
            {
                let detail = match &variants[i].ty {
                    Some(t) => Some(ty_str(t)),
                    None => None,
                };
                let c = leaf_symbol(variants[i].name.clone(), detail, SymbolKind::EnumMember, lines, span.line);
                let ghost before = symbols_v(children);
                let ghost cv = c@;
                children.push(c);
                proof {
                    assert(symbols_v(children) =~= before.push(cv));
                }
                i = i + 1;
            }
            proof {
                let want = symbol_of(item@, *span, texts(lines@));
                assert(symbols_v(children) =~= want.children->Some_0);
            }
            Some(DocumentSymbol {
                name: name.clone(),
                detail: Some(concat("enum ", name.as_str())),
                kind: SymbolKind::Enum,
                range,
                selection_range: name_range(lines, span.line, name.as_str()),
                children: Some(children),
            })
        },
        TopLevel::Trait { name, methods } => {
            let ghost mv = crate::ast::methods_v(*methods);
            let mut children: Vec<DocumentSymbol> = Vec::new();
            let mut i: usize = 0;
            while i < methods.len()
                invariant
                    i <= methods@.len(),
                    mv == crate::ast::methods_v(*methods),
                    symbols_v(children) =~= Seq::new(
                        i as nat,
                        |k: int|
                            leaf(
                                mv[k].0,
                                Some("fn("@ + params_text(mv[k].1) + ")"@),
                                SymbolKind::Method,
                                texts(lines@),
                                span.line,
                            ),
                    ),
                decreases methods@.len() - i,
            {
                let mut d: Vec<char> = Vec::new();
                push_str(&mut d, "fn(");
                push_all(&mut d, params_detail(&methods[i].params).as_slice());
                push_str(&mut d, ")");
                let c = leaf_symbol(
                    methods[i].name.clone(),
                    Some(string_of(d.as_slice())),
                    SymbolKind::Method,
                    lines,
                    span.line,
                );
                let ghost before = symbols_v(children);
                let ghost cv = c@;
                children.push(c);
                proof {
                    assert(symbols_v(children) =~= before.push(cv));
                }
                i = i + 1;
            }
            proof {
                let want = symbol_of(item@, *span, texts(lines@));
                assert(symbols_v(children) =~= want.children->Some_0);
            }
            Some(DocumentSymbol {
                name: name.clone(),
                detail: Some(concat("trait ", name.as_str())),
                kind: SymbolKind::Interface,
                range,
                selection_range: name_range(lines, span.line, name.as_str()),
                children: Some(children),
            })
        },
        TopLevel::Module { name, items } => {
            let children = build_symbols(items, lines);
            proof {
                let iv = tops_v(*items);
                assert(symbols_v(children) =~= Seq::new(
                    iv.len(),
                    |i: int|
                        if 0 <= i < iv.len() {
                            symbol_of(iv[i].0, iv[i].1, texts(lines@))
                        } else {
                            leaf(Seq::empty(), None, SymbolKind::Module, texts(lines@), span.line)
                        },
                ));
            }
            proof {
                let want = symbol_of(item@, *span, texts(lines@));
                assert(symbols_v(children) =~= want.children->Some_0);
            }
            Some(DocumentSymbol {
                name: name.clone(),
                detail: Some(concat("mod ", name.as_str())),
                kind: SymbolKind::Module,
                range,
                selection_range: name_range(lines, span.line, name.as_str()),
                children: Some(children),
            })
        },
        TopLevel::Anchor { name, kind, .. } => {
            let mut d: Vec<char> = Vec::new();
            push_str(&mut d, "@");
            push_str(&mut d, name.as_str());
            push_str(&mut d, "(");
            push_str(&mut d, anchor_kind_str(kind).as_str());
            push_str(&mut d, ")");
            proof {
                assert(crate::lsp::anchor_kind_text(*kind) == kind_text(kind@));
                assert(d@ =~= "@"@ + name@ + "("@ + kind_text(kind@) + ")"@);
            }
            Some(DocumentSymbol {
                name: name.clone(),
                detail: Some(string_of(d.as_slice())),
                kind: SymbolKind::Event,
                range,
                selection_range: name_range(lines, span.line, name.as_str()),
                children: None,
            })
        },
        TopLevel::ConstDecl { ty, name, .. } => Some(DocumentSymbol {
            name: name.clone(),
            detail: Some(concat("const ", ty_str(ty).as_str())),
            kind: SymbolKind::Constant,
            range,
            selection_range: name_range(lines, span.line, name.as_str()),
            children: None,
        }),
        TopLevel::Impl { trait_name, target_ty, methods } => {
            let children = build_symbols(methods, lines);
            proof {
                let iv = tops_v(*methods);
                assert(symbols_v(children) =~= Seq::new(
                    iv.len(),
                    |i: int|
                        if 0 <= i < iv.len() {
                            symbol_of(iv[i].0, iv[i].1, texts(lines@))
                        } else {
                            leaf(Seq::empty(), None, SymbolKind::Class, texts(lines@), span.line)
                        },
                ));
            }
            let mut n: Vec<char> = Vec::new();
            push_str(&mut n, "impl ");
            push_str(&mut n, trait_name.as_str());
            push_str(&mut n, " for ");
            push_str(&mut n, target_ty.as_str());
            proof {
                assert(n@ =~= "impl "@ + trait_name@ + " for "@ + target_ty@);
            }
            proof {
                let want = symbol_of(item@, *span, texts(lines@));
                assert(symbols_v(children) =~= want.children->Some_0);
            }
            Some(DocumentSymbol {
                name: string_of(n.as_slice()),
                detail: None,
                kind: SymbolKind::Class,
                range,
                selection_range: name_range(lines, span.line, target_ty.as_str()),
                children: Some(children),
            })
        },
    }
}

/// The symbols of the items nested in an item (see `symbol_of`).
fn build_symbols(items: &Vec<(TopLevel, Span)>, lines: &[String]) -> (r: Vec<DocumentSymbol>)
    ensures
        symbols_v(r) == symbols_of(tops_v(*items), texts(lines@)),
    decreases items,
{
    let ghost iv = tops_v(*items);
    let mut out: Vec<DocumentSymbol> = Vec::new();
    let mut i: usize = 0;
    while i < items.len()
        invariant
            i <= items@.len(),
            iv == tops_v(*items),
            symbols_v(out) =~= symbols_of(iv, texts(lines@)).take(i as int),
        decreases items@.len() - i,
    {
        proof {
            vstd::std_specs::vec::axiom_vec_index_decreases(*items, i as int);
        }
        let c = build_symbol(&items[i].0, &items[i].1, lines);
        let d = match c {
            Some(d) => d,
            None => {
                proof {
                    assert(false);
                }
                return out;
            },
        };
        let ghost before = symbols_v(out);
        let ghost dv = d@;
        out.push(d);
        proof {
            assert(symbols_v(out) =~= before.push(dv));
            assert(symbols_of(iv, texts(lines@)).take(i + 1) =~= symbols_of(iv, texts(lines@)).take(i as int).push(dv));
        }
        i = i + 1;
    }
    proof {
        assert(symbols_of(iv, texts(lines@)).take(items@.len() as int) =~= symbols_of(iv, texts(lines@)));
    }
    out
}

/// The outline of document `text` (see `outline`): its import lines
/// blanked, read as a program, each item's symbol placed on its line.
pub fn compute_document_symbols(text: &str) -> (r: Vec<DocumentSymbol>)
    requires
        preprocessed(text@).len() < usize::MAX,
    ensures
        symbols_v(r) == outline(text@),
{
    let src = preprocess_source(text);
    let mut lx = Lexer::new(src.as_str());
    let toks = lx.tokenize();
    let mut p = Parser::new(toks);
    proof {
        assert(p.input().toks =~= sub_input(src@, 1).toks);
        assert(p.input().lines =~= sub_input(src@, 1).lines);
        assert(p.input().cols =~= sub_input(src@, 1).cols);
        assert(p.input() == sub_input(src@, 1));
        assert(p.state() == fresh());
    }
    let ast = p.parse();
    let ls = split_lines(text);
    proof {
        assert(texts(ls@) == lines(text@));
    }
    build_symbols(&ast.items, ls.as_slice())
}

} // verus!
