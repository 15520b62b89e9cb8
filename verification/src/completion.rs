//! Completions from the declarations of a document: its functions (called
//! with their parameters as tab stops), structs (built with their fields),
//! enums, constants and modules.
use crate::ast::{params_view, sfields_view, tops_v, Param, Span, StructField, TopLevel, TopLevelV, TyV};
use crate::hover::ret_text;
use crate::imports::{preprocess_source, preprocessed};
use crate::lexer::Lexer;
use crate::lsp::ty_str;
use crate::numfmt::{dec, push_decimal};
use crate::parser::grammar::{fresh, sub_input};
use crate::parser::items::items_s;
use crate::parser::Parser;
use crate::shared::ty_name_of;
use crate::symbols::params_text;
use crate::imports::group_items;
use crate::lsp::word_prefix;
use crate::keywords::{keyword_snippet_items, keyword_snippets, ItemKind, KeywordSnippet};
use crate::lsp::{extract_trailing_ident, trailing_word};
use crate::signature::{chars_within, cut_at_bytes, on_char_boundary};
use crate::text::{chars_of, find_char, line_ranges, lines, push_all, push_str, starts_with, string_of, trim, trim_end, trim_end_from};
use vstd::prelude::*;

verus! {

/// What a completion stands for.
#[derive(Debug, Clone, Copy, PartialEq, Eq, Structural)]
pub enum CompletionKind {
    Function,
    Struct,
    Enum,
    Constant,
    Module,
    EnumMember,
    Field,
    Variable,
    Snippet,
    TypeParameter,
    Keyword,
}

/// How a completion's text is inserted: with tab stops, or as it is.
#[derive(Debug, Clone, Copy, PartialEq, Eq, Structural)]
pub enum InsertFormat {
    Snippet,
    PlainText,
}

/// A completion: what the list shows, what it stands for, a short
/// description, and the text it inserts.
#[derive(Debug)]
pub struct CompletionItem {
    pub label: String,
    pub kind: CompletionKind,
    pub detail: String,
    pub insert_text: String,
    pub format: InsertFormat,
}

/// The view of a completion.
pub struct CompletionV {
    pub label: Seq<char>,
    pub kind: CompletionKind,
    pub detail: Seq<char>,
    pub insert_text: Seq<char>,
    pub format: InsertFormat,
}

/// The views of a list of completions.
pub open spec fn completions_v(v: Seq<CompletionItem>) -> Seq<CompletionV> {
    v.map_values(
        |c: CompletionItem|
            CompletionV {
                label: c.label@,
                kind: c.kind,
                detail: c.detail@,
                insert_text: c.insert_text@,
                format: c.format,
            },
    )
}

// ───────────────────────── what is offered ─────────────────────────

/// The tab stops of a call: `${1:a}, ${2:b}, ...` for the first `n`
/// parameters.
pub open spec fn call_stops(ps: Seq<(TyV, Seq<char>)>, n: int) -> Seq<char>
    decreases n,
{
    if n <= 0 || n > ps.len() {
        Seq::empty()
    } else {
        call_stops(ps, n - 1) + (if n == 1 {
            Seq::empty()
        } else {
            ", "@
        }) + "${"@ + dec(n as nat) + ":"@ + ps[n - 1].1 + "}"@
    }
}

/// The tab stops of a struct literal: `a: ${1:value}, b: ${2:value}, ...`
/// for the first `n` fields.
pub open spec fn field_stops(fs: Seq<(TyV, Seq<char>)>, n: int) -> Seq<char>
    decreases n,
{
    if n <= 0 || n > fs.len() {
        Seq::empty()
    } else {
        field_stops(fs, n - 1) + (if n == 1 {
            Seq::empty()
        } else {
            ", "@
        }) + fs[n - 1].1 + ": ${"@ + dec(n as nat) + ":value}"@
    }
}

/// The note that says which file a completion comes from, if any.
pub open spec fn from_note(file_label: Seq<char>) -> Seq<char> {
    if file_label.len() == 0 {
        Seq::empty()
    } else {
        " [from "@ + file_label + "]"@
    }
}

/// The completion that item `t` offers, if any.
pub open spec fn item_completion(t: TopLevelV, from: Seq<char>) -> Option<CompletionV> {
    match t {
        TopLevelV::Function { name, params, return_ty, .. } => Some(
            CompletionV {
                label: name,
                kind: CompletionKind::Function,
                detail: "fn("@ + params_text(params) + ")"@ + ret_text(return_ty) + from,
                insert_text: name + "("@ + call_stops(params, params.len() as int) + ")"@,
                format: InsertFormat::Snippet,
            },
        ),
        TopLevelV::Struct { name, fields } => Some(
            CompletionV {
                label: name,
                kind: CompletionKind::Struct,
                detail: "struct"@ + from,
                insert_text: name + " { "@ + field_stops(fields, fields.len() as int) + " }"@,
                format: InsertFormat::Snippet,
            },
        ),
        TopLevelV::Enum { name, .. } => Some(
            CompletionV {
                label: name,
                kind: CompletionKind::Enum,
                detail: "enum"@ + from,
                insert_text: name,
                format: InsertFormat::PlainText,
            },
        ),
        TopLevelV::ConstDecl { ty, name, .. } => Some(
            CompletionV {
                label: name,
                kind: CompletionKind::Constant,
                detail: "const "@ + ty_name_of(ty) + from,
                insert_text: name,
                format: InsertFormat::PlainText,
            },
        ),
        TopLevelV::Module { name, .. } => Some(
            CompletionV {
                label: name,
                kind: CompletionKind::Module,
                detail: "mod"@ + from,
                insert_text: name + "."@,
                format: InsertFormat::PlainText,
            },
        ),
        _ => None,
    }
}

/// The completions that the first `n` of `items` offer, in order.
pub open spec fn decl_completions(items: Seq<(TopLevelV, Span)>, n: int, from: Seq<char>) -> Seq<CompletionV>
    decreases n,
{
    if n <= 0 || n > items.len() {
        Seq::empty()
    } else {
        decl_completions(items, n - 1, from) + match item_completion(items[n - 1].0, from) {
            Some(c) => seq![c],
            None => Seq::empty(),
        }
    }
}

/// The completions that the declarations of `src` offer, marked as coming
/// from `file_label` when it is not empty.
pub open spec fn completions_of(src: Seq<char>, file_label: Seq<char>) -> Seq<CompletionV> {
    let items = items_s(sub_input(preprocessed(src), 1), fresh(), Seq::empty()).0;
    decl_completions(items, items.len() as int, from_note(file_label))
}

// ───────────────────────── after a dot ─────────────────────────

/// The completion of variant `v` of enum `name`.
pub open spec fn variant_item(name: Seq<char>, v: (Seq<char>, Option<TyV>)) -> CompletionV {
    CompletionV {
        label: v.0,
        kind: CompletionKind::EnumMember,
        detail: v.0 + match v.1 {
            Some(t) => "("@ + ty_name_of(t) + ")"@,
            None => Seq::empty(),
        },
        insert_text: match v.1 {
            Some(_) => name + "."@ + v.0 + "(${1:value})"@,
            None => name + "."@ + v.0,
        },
        format: InsertFormat::Snippet,
    }
}

/// The completion of field `f`.
pub open spec fn field_item(f: (TyV, Seq<char>)) -> CompletionV {
    CompletionV { label: f.1, kind: CompletionKind::Field, detail: ty_name_of(f.0), insert_text: f.1, format: InsertFormat::PlainText }
}

/// The variants of the first enum named `base` among `items[k..]`.
pub open spec fn enum_members(items: Seq<(TopLevelV, Span)>, k: int, base: Seq<char>) -> Option<Seq<CompletionV>>
    decreases items.len() - k,
{
    if 0 <= k < items.len() {
        match items[k].0 {
            TopLevelV::Enum { name, variants } => if name == base {
                Some(Seq::new(variants.len(), |i: int| variant_item(name, variants[i])))
            } else {
                enum_members(items, k + 1, base)
            },
            _ => enum_members(items, k + 1, base),
        }
    } else {
        None
    }
}

/// The fields of the first struct named `ty` among `items[k..]`.
pub open spec fn struct_members(items: Seq<(TopLevelV, Span)>, k: int, ty: Seq<char>) -> Option<Seq<CompletionV>>
    decreases items.len() - k,
{
    if 0 <= k < items.len() {
        match items[k].0 {
            TopLevelV::Struct { name, fields } => if name == ty {
                Some(Seq::new(fields.len(), |i: int| field_item(fields[i])))
            } else {
                struct_members(items, k + 1, ty)
            },
            _ => struct_members(items, k + 1, ty),
        }
    } else {
        None
    }
}

/// What may follow `base.` in `text`: the variants of the enum `base`, or
/// else the fields of the struct that `base` is declared as.
pub open spec fn dot_items(text: Seq<char>, base: Seq<char>) -> Option<Seq<CompletionV>> {
    let items = items_s(sub_input(preprocessed(text), 1), fresh(), Seq::empty()).0;
    match enum_members(items, 0, base) {
        Some(x) => Some(x),
        None => match crate::lsp::var_type_in(crate::text::lines(text), base) {
            Some(t) => struct_members(items, 0, t),
            None => None,
        },
    }
}


// ───────────────────────── local variables ─────────────────────────

/// The type words of local declarations, each with its space, and how the
/// completion names the type.
pub open spec fn local_prefixes() -> Seq<(Seq<char>, Seq<char>)> {
    seq![
        ("int "@, "int"@), ("float "@, "float"@), ("string "@, "string"@), ("bool "@, "bool"@),
        ("auto "@, "auto"@), ("i8 "@, "i8"@), ("i16 "@, "i16"@), ("i32 "@, "i32"@), ("i64 "@, "i64"@),
        ("u8 "@, "u8"@), ("u16 "@, "u16"@), ("u32 "@, "u32"@), ("u64 "@, "u64"@),
    ]
}

/// The names that the trimmed line `t` declares after the type words
/// `local_prefixes()[k..]`, each with its type: for each type word,
/// `T name` and then `Vault T name`.
pub open spec fn typed_candidates(t: Seq<char>, k: int) -> Seq<(Seq<char>, Seq<char>)>
    decreases local_prefixes().len() - k,
{
    if 0 <= k < local_prefixes().len() {
        let (p, label) = local_prefixes()[k];
        let vp = "Vault "@ + p;
        (if starts_with(t, p) {
            seq![(word_prefix(t.skip(p.len() as int)), label)]
        } else {
            Seq::empty()
        }) + (if starts_with(t, vp) {
            seq![(word_prefix(t.skip(vp.len() as int)), label)]
        } else {
            Seq::empty()
        }) + typed_candidates(t, k + 1)
    } else {
        Seq::empty()
    }
}

/// The parameters `T name` among the comma-separated pieces `ps[k..]`
/// (trimmed, not empty), each as its name and type; a piece without a
/// space gives none.
pub open spec fn param_pairs(ps: Seq<Seq<char>>, k: int) -> Seq<(Seq<char>, Seq<char>)>
    decreases ps.len() - k,
{
    if 0 <= k < ps.len() {
        (match find_char(ps[k], ' ') {
            Some(i) => seq![(trim(ps[k].skip(i + 1)), trim(ps[k].take(i)))],
            None => Seq::empty(),
        }) + param_pairs(ps, k + 1)
    } else {
        Seq::empty()
    }
}

/// The parameters of the function that the trimmed line `t` starts, from
/// its first `(` to the `)` after it.
pub open spec fn param_candidates(t: Seq<char>) -> Seq<(Seq<char>, Seq<char>)> {
    if starts_with(t, "fn "@) {
        match find_char(t, '(') {
            Some(a) => match find_char(t.skip(a), ')') {
                Some(b) => param_pairs(group_items(t.subrange(a + 1, a + b)), 0),
                None => Seq::empty(),
            },
            None => Seq::empty(),
        }
    } else {
        Seq::empty()
    }
}

/// The names, with their types, that line `l` declares, in the order
/// they are offered.
pub open spec fn line_candidates(l: Seq<char>) -> Seq<(Seq<char>, Seq<char>)> {
    let t = trim(l);
    typed_candidates(t, 0) + (if starts_with(t, "for "@) {
        seq![(word_prefix(t.skip(4)), "int (loop var)"@)]
    } else {
        Seq::empty()
    }) + param_candidates(t)
}

/// `acc` with each of `cs[k..]` added whose name is not empty and not
/// already there.
pub open spec fn add_new(acc: Seq<(Seq<char>, Seq<char>)>, cs: Seq<(Seq<char>, Seq<char>)>, k: int) -> Seq<
    (Seq<char>, Seq<char>),
>
    decreases cs.len() - k,
{
    if 0 <= k < cs.len() {
        let fresh_name = cs[k].0.len() > 0 && !acc.map_values(|x: (Seq<char>, Seq<char>)| x.0).contains(cs[k].0);
        add_new(
            if fresh_name {
                acc.push(cs[k])
            } else {
                acc
            },
            cs,
            k + 1,
        )
    } else {
        acc
    }
}

/// `acc` with the names that the first `n` of `ls` declare added.
pub open spec fn locals_in(acc: Seq<(Seq<char>, Seq<char>)>, ls: Seq<Seq<char>>, n: int) -> Seq<(Seq<char>, Seq<char>)>
    decreases n,
{
    if n <= 0 || n > ls.len() {
        acc
    } else {
        add_new(locals_in(acc, ls, n - 1), line_candidates(ls[n - 1]), 0)
    }
}

/// The completion of a local variable `name` of type `detail`.
pub open spec fn local_item(c: (Seq<char>, Seq<char>)) -> CompletionV {
    CompletionV {
        label: c.0,
        kind: CompletionKind::Variable,
        detail: c.1,
        insert_text: c.0,
        format: InsertFormat::PlainText,
    }
}

/// The local variables declared in `text` up to the cursor's `line`, each
/// once (the first declaration of a name wins).
pub open spec fn local_completions(text: Seq<char>, line: int) -> Seq<CompletionV> {
    let ls = lines(text);
    let n = if line + 1 < ls.len() {
        line + 1
    } else {
        ls.len() as int
    };
    locals_in(Seq::empty(), ls, n).map_values(|c: (Seq<char>, Seq<char>)| local_item(c))
}


// ───────────────────────── computing them ─────────────────────────

/// The tab stops of a call with `params` (see `call_stops`).
fn call_stops_of(params: &Vec<Param>) -> (r: Vec<char>)
    ensures
        r@ == call_stops(params_view(*params), params@.len() as int),
{
    let ghost ps = params_view(*params);
    let mut out: Vec<char> = Vec::new();
    let mut i: usize = 0;
    while i < params.len()
        invariant
            i <= params@.len(),
            ps == params_view(*params),
            out@ == call_stops(ps, i as int),
        decreases params@.len() - i,
    {
        if i > 0 {
            push_str(&mut out, ", ");
        }
        push_str(&mut out, "${");
        push_decimal(&mut out, (i + 1) as u128);
        push_str(&mut out, ":");
        push_str(&mut out, params[i].name.as_str());
        push_str(&mut out, "}");
        proof {
            assert(ps[i as int].1 == params@[i as int].name@);
            assert(out@ =~= call_stops(ps, i + 1));
        }
        i = i + 1;
    }
    out
}

/// The tab stops of a struct literal with `fields` (see `field_stops`).
fn field_stops_of(fields: &Vec<StructField>) -> (r: Vec<char>)
    ensures
        r@ == field_stops(sfields_view(*fields), fields@.len() as int),
{
    let ghost fs = sfields_view(*fields);
    let mut out: Vec<char> = Vec::new();
    let mut i: usize = 0;
    while i < fields.len()
        invariant
            i <= fields@.len(),
            fs == sfields_view(*fields),
            out@ == field_stops(fs, i as int),
        decreases fields@.len() - i,
    {
        if i > 0 {
            push_str(&mut out, ", ");
        }
        push_str(&mut out, fields[i].name.as_str());
        push_str(&mut out, ": ${");
        push_decimal(&mut out, (i + 1) as u128);
        push_str(&mut out, ":value}");
        proof {
            assert(fs[i as int].1 == fields@[i as int].name@);
            assert(out@ =~= field_stops(fs, i + 1));
        }
        i = i + 1;
    }
    out
}

/// The completion that item `item` offers (see `item_completion`).
fn completion_for(item: &TopLevel, from: &str) -> (r: Option<CompletionItem>)
    ensures
        match r {
            Some(c) => item_completion(item@, from@) == Some(
                CompletionV {
                    label: c.label@,
                    kind: c.kind,
                    detail: c.detail@,
                    insert_text: c.insert_text@,
                    format: c.format,
                },
            ),
            None => item_completion(item@, from@) is None,
        },
{
    match item {
        TopLevel::Function { name, params, return_ty, .. } => {
            let mut d: Vec<char> = Vec::new();
            push_str(&mut d, "fn(");
            push_all(&mut d, crate::symbols::params_detail(params).as_slice());
            push_str(&mut d, ")");
            match return_ty {
                Some(t) => {
                    push_str(&mut d, " -> ");
                    push_str(&mut d, ty_str(t).as_str());
                },
                None => {},
            }
            push_str(&mut d, from);
            let mut ins = chars_of(name.as_str());
            push_str(&mut ins, "(");
            push_all(&mut ins, call_stops_of(params).as_slice());
            push_str(&mut ins, ")");
            proof {
                assert(d@ =~= "fn("@ + params_text(params_view(*params)) + ")"@ + ret_text(crate::ast::opt_ty_v(*return_ty)) + from@);
            }
            Some(CompletionItem {
                label: name.clone(),
                kind: CompletionKind::Function,
                detail: string_of(d.as_slice()),
                insert_text: string_of(ins.as_slice()),
                format: InsertFormat::Snippet,
            })
        },
        TopLevel::Struct { name, fields } => {
            let mut d = chars_of("struct");
            push_str(&mut d, from);
            let mut ins = chars_of(name.as_str());
            push_str(&mut ins, " { ");
            push_all(&mut ins, field_stops_of(fields).as_slice());
            push_str(&mut ins, " }");
            Some(CompletionItem {
                label: name.clone(),
                kind: CompletionKind::Struct,
                detail: string_of(d.as_slice()),
                insert_text: string_of(ins.as_slice()),
                format: InsertFormat::Snippet,
            })
        },
        TopLevel::Enum { name, .. } => {
            let mut d = chars_of("enum");
            push_str(&mut d, from);
            Some(CompletionItem {
                label: name.clone(),
                kind: CompletionKind::Enum,
                detail: string_of(d.as_slice()),
                insert_text: name.clone(),
                format: InsertFormat::PlainText,
            })
        },
        TopLevel::ConstDecl { ty, name, .. } => {
            let mut d = chars_of("const ");
            push_str(&mut d, ty_str(ty).as_str());
            push_str(&mut d, from);
            Some(CompletionItem {
                label: name.clone(),
                kind: CompletionKind::Constant,
                detail: string_of(d.as_slice()),
                insert_text: name.clone(),
                format: InsertFormat::PlainText,
            })
        },
        TopLevel::Module { name, .. } => {
            let mut d = chars_of("mod");
            push_str(&mut d, from);
            let mut ins = chars_of(name.as_str());
            push_str(&mut ins, ".");
            Some(CompletionItem {
                label: name.clone(),
                kind: CompletionKind::Module,
                detail: string_of(d.as_slice()),
                insert_text: string_of(ins.as_slice()),
                format: InsertFormat::PlainText,
            })
        },
        _ => None,
    }
}

/// The completions that the declarations of `src` offer, marked as coming
/// from `file_label` when it is not empty (see `completions_of`).
pub fn extract_decl_completions_labeled(src: &str, file_label: &str) -> (r: Vec<CompletionItem>)
    requires
        preprocessed(src@).len() < usize::MAX,
    ensures
        completions_v(r@) == completions_of(src@, file_label@),
{
    let pre = preprocess_source(src);
    let mut lx = Lexer::new(pre.as_str());
    let toks = lx.tokenize();
    let mut p = Parser::new(toks);
    proof {
        assert(p.input().toks =~= sub_input(pre@, 1).toks);
        assert(p.input().lines =~= sub_input(pre@, 1).lines);
        assert(p.input().cols =~= sub_input(pre@, 1).cols);
        assert(p.input() == sub_input(pre@, 1));
        assert(p.state() == fresh());
    }
    let ast = p.parse();
    let from = if file_label.is_empty() {
        String::new()
    } else {
        let mut f = chars_of(" [from ");
        push_str(&mut f, file_label);
        push_str(&mut f, "]");
        string_of(f.as_slice())
    };
    proof {
        assert(from@ == from_note(file_label@));
    }
    let ghost iv = tops_v(ast.items);
    let mut out: Vec<CompletionItem> = Vec::new();
    let mut k: usize = 0;
    proof {
        assert(completions_v(out@) =~= decl_completions(iv, 0, from@));
    }
    while k < ast.items.len()
        invariant
            k <= ast.items@.len(),
            iv == tops_v(ast.items),
            iv == items_s(sub_input(preprocessed(src@), 1), fresh(), Seq::empty()).0,
            from@ == from_note(file_label@),
            completions_v(out@) == decl_completions(iv, k as int, from@),
        decreases ast.items@.len() - k,
    {
        proof {
            assert(iv[k as int].0 == ast.items@[k as int].0@);
        }
        let ghost before = completions_v(out@);
        match completion_for(&ast.items[k].0, from.as_str()) {
            Some(c) => {
                out.push(c);
            },
            None => {},
        }
        proof {
            assert(completions_v(out@) =~= decl_completions(iv, k + 1, from@));
        }
        k = k + 1;
    }
    out
}

/// The completions that the declarations of `src` offer (see
/// `completions_of`, with no file to name).
pub fn extract_decl_completions(src: &str) -> (r: Vec<CompletionItem>)
    requires
        preprocessed(src@).len() < usize::MAX,
    ensures
        completions_v(r@) == completions_of(src@, Seq::empty()),
{
    proof {
        reveal_strlit("");
    }
    extract_decl_completions_labeled(src, "")
}

/// What may follow `base.` in `text` (see `dot_items`).
pub fn dot_completions(text: &str, base: &str) -> (r: Option<Vec<CompletionItem>>)
    requires
        preprocessed(text@).len() < usize::MAX,
    ensures
        match r {
            Some(v) => dot_items(text@, base@) == Some(completions_v(v@)),
            None => dot_items(text@, base@) is None,
        },
{
    let pre = preprocess_source(text);
    let mut lx = Lexer::new(pre.as_str());
    let toks = lx.tokenize();
    let mut p = Parser::new(toks);
    proof {
        assert(p.input().toks =~= sub_input(pre@, 1).toks);
        assert(p.input().lines =~= sub_input(pre@, 1).lines);
        assert(p.input().cols =~= sub_input(pre@, 1).cols);
        assert(p.input() == sub_input(pre@, 1));
        assert(p.state() == fresh());
    }
    let ast = p.parse();
    let ghost iv = tops_v(ast.items);
    let mut k: usize = 0;
    while k < ast.items.len()
        invariant
            k <= ast.items@.len(),
            iv == tops_v(ast.items),
            iv == items_s(sub_input(preprocessed(text@), 1), fresh(), Seq::empty()).0,
            enum_members(iv, k as int, base@) == enum_members(iv, 0, base@),
        decreases ast.items@.len() - k,
    {
        proof {
            assert(iv[k as int].0 == ast.items@[k as int].0@);
        }
        match &ast.items[k].0 {
            TopLevel::Enum { name, variants } => {
                if crate::hover::same_text(name.as_str(), base) {
                    let ghost vv = crate::ast::variants_v(*variants);
                    let mut out: Vec<CompletionItem> = Vec::new();
                    let mut j: usize = 0;
                    while j < variants.len()
                        invariant
                            j <= variants@.len(),
                            vv == crate::ast::variants_v(*variants),
                            completions_v(out@) =~= Seq::new(j as nat, |i: int| variant_item(name@, vv[i])),
                        decreases variants@.len() - j,
                    {
                        let v = &variants[j];
                        let mut d = chars_of(v.name.as_str());
                        let mut ins = chars_of(name.as_str());
                        push_str(&mut ins, ".");
                        push_str(&mut ins, v.name.as_str());
                        match &v.ty {
                            Some(t) => {
                                push_str(&mut d, "(");
                                push_str(&mut d, ty_str(t).as_str());
                                push_str(&mut d, ")");
                                push_str(&mut ins, "(${1:value})");
                            },
                            None => {},
                        }
                        proof {
                            let vj = vv[j as int];
                            assert(vj == (v.name@, crate::ast::opt_ty_v(v.ty)));
                            assert(d@ =~= vj.0 + match vj.1 {
                                Some(t) => "("@ + ty_name_of(t) + ")"@,
                                None => Seq::empty(),
                            });
                            assert(ins@ =~= match vj.1 {
                                Some(_) => name@ + "."@ + vj.0 + "(${1:value})"@,
                                None => name@ + "."@ + vj.0,
                            });
                        }
                        let c = CompletionItem {
                            label: v.name.clone(),
                            kind: CompletionKind::EnumMember,
                            detail: string_of(d.as_slice()),
                            insert_text: string_of(ins.as_slice()),
                            format: InsertFormat::Snippet,
                        };
                        proof {
                            assert(vv[j as int] == (variants@[j as int].name@, crate::ast::opt_ty_v(variants@[j as int].ty)));
                        }
                        let ghost before = completions_v(out@);
                        out.push(c);
                        proof {
                            assert(completions_v(out@) =~= before.push(variant_item(name@, vv[j as int])));
                        }
                        j = j + 1;
                    }
                    proof {
                        assert(iv[k as int].0 == (TopLevelV::Enum { name: name@, variants: vv }));
                    }
                    return Some(out);
                }
            },
            _ => {},
        }
        k = k + 1;
    }
    let ty = match crate::lsp::infer_var_type(text, base) {
        Some(t) => t,
        None => {
            return None;
        },
    };
    let mut k: usize = 0;
    while k < ast.items.len()
        invariant
            k <= ast.items@.len(),
            iv == tops_v(ast.items),
            iv == items_s(sub_input(preprocessed(text@), 1), fresh(), Seq::empty()).0,
            enum_members(iv, 0, base@) is None,
            crate::lsp::var_type_in(crate::text::lines(text@), base@) == Some(ty@),
            struct_members(iv, k as int, ty@) == struct_members(iv, 0, ty@),
        decreases ast.items@.len() - k,
    {
        proof {
            assert(iv[k as int].0 == ast.items@[k as int].0@);
        }
        match &ast.items[k].0 {
            TopLevel::Struct { name, fields } => {
                if crate::hover::same_text(name.as_str(), ty.as_str()) {
                    let ghost fv = sfields_view(*fields);
                    let mut out: Vec<CompletionItem> = Vec::new();
                    let mut j: usize = 0;
                    while j < fields.len()
                        invariant
                            j <= fields@.len(),
                            fv == sfields_view(*fields),
                            completions_v(out@) =~= Seq::new(j as nat, |i: int| field_item(fv[i])),
                        decreases fields@.len() - j,
                    {
                        let c = CompletionItem {
                            label: fields[j].name.clone(),
                            kind: CompletionKind::Field,
                            detail: ty_str(&fields[j].ty),
                            insert_text: fields[j].name.clone(),
                            format: InsertFormat::PlainText,
                        };
                        proof {
                            assert(fv[j as int] == (fields@[j as int].ty@, fields@[j as int].name@));
                        }
                        let ghost before = completions_v(out@);
                        out.push(c);
                        proof {
                            assert(completions_v(out@) =~= before.push(field_item(fv[j as int])));
                        }
                        j = j + 1;
                    }
                    proof {
                        assert(iv[k as int].0 == (TopLevelV::Struct { name: name@, fields: fv }));
                    }
                    return Some(out);
                }
            },
            _ => {},
        }
        k = k + 1;
    }
    None
}

/// The type words of local declarations with their labels (see
/// `local_prefixes`).
fn local_prefix_list() -> (r: Vec<(&'static str, &'static str)>)
    ensures
        r@.map_values(|p: (&'static str, &'static str)| (p.0@, p.1@)) == local_prefixes(),
{
    let v: Vec<(&'static str, &'static str)> = vec![
        ("int ", "int"), ("float ", "float"), ("string ", "string"), ("bool ", "bool"), ("auto ", "auto"),
        ("i8 ", "i8"), ("i16 ", "i16"), ("i32 ", "i32"), ("i64 ", "i64"), ("u8 ", "u8"), ("u16 ", "u16"),
        ("u32 ", "u32"), ("u64 ", "u64"),
    ];
    proof {
        assert(v@.map_values(|p: (&'static str, &'static str)| (p.0@, p.1@)) =~= local_prefixes());
    }
    v
}

/// The view of a list of candidates.
pub open spec fn cands_v(v: Seq<(Vec<char>, Vec<char>)>) -> Seq<(Seq<char>, Seq<char>)> {
    v.map_values(|c: (Vec<char>, Vec<char>)| (c.0@, c.1@))
}

/// Adds the candidate `(name, t)` taken after prefix `p` of `s[a..b]`, if
/// `s[a..b]` starts with `p`.
fn push_typed(s: &[char], a: usize, b: usize, p: &str, label: &str, out: &mut Vec<(Vec<char>, Vec<char>)>)
    requires
        a <= b <= s@.len(),
    ensures
        cands_v(final(out)@) == cands_v(old(out)@) + (if starts_with(s@.subrange(a as int, b as int), p@) {
            seq![(word_prefix(s@.subrange(a as int, b as int).skip(p@.len() as int)), label@)]
        } else {
            Seq::empty()
        }),
{
    let ghost o0 = cands_v(out@);
    if crate::lsp::has_prefix(s, a, b, p) {
        let pl = chars_of(p).len();
        let w = crate::lsp::word_end(s, a + pl, b);
        let name = crate::text::copy_range(s, a + pl, w);
        proof {
            assert(s@.subrange(a as int, b as int).skip(pl as int) =~= s@.subrange(a + pl, b as int));
            assert(name@ =~= word_prefix(s@.subrange(a + pl, b as int)));
        }
        out.push((name, chars_of(label)));
        proof {
            assert(cands_v(out@) =~= o0.push((word_prefix(s@.subrange(a as int, b as int).skip(p@.len() as int)), label@)));
        }
    } else {
        proof {
            assert(cands_v(out@) =~= o0 + Seq::empty());
        }
    }
}

/// Whether each of `ranges` is a stretch of `s`.
pub open spec fn ranges_within(s: Seq<char>, ranges: Seq<(usize, usize)>) -> bool {
    forall|i: int| 0 <= i < ranges.len() ==> #[trigger] ranges[i].0 <= ranges[i].1 <= s.len()
}

/// The parameters among the pieces `ranges` of `s` (see `param_pairs`).
fn push_params(s: &[char], ranges: &Vec<(usize, usize)>, out: &mut Vec<(Vec<char>, Vec<char>)>)
    requires
        ranges_within(s@, ranges@),
    ensures
        cands_v(final(out)@) == cands_v(old(out)@) + param_pairs(crate::text::ranges_view(s@, ranges@), 0),
{
    let ghost o0 = cands_v(out@);
    let ghost ps = crate::text::ranges_view(s@, ranges@);
    let mut k: usize = 0;
    proof {
        assert(cands_v(out@) + param_pairs(ps, 0) =~= o0 + param_pairs(ps, 0));
    }
    while k < ranges.len()
        invariant
            k <= ranges@.len(),
            ps == crate::text::ranges_view(s@, ranges@),
            forall|i: int| 0 <= i < ranges@.len() ==> #[trigger] ranges@[i].0 <= ranges@[i].1 <= s@.len(),
            cands_v(out@) + param_pairs(ps, k as int) == o0 + param_pairs(ps, 0),
        decreases ranges@.len() - k,
    {
        let (u, v) = ranges[k];
        proof {
            assert(ps[k as int] == s@.subrange(u as int, v as int));
            crate::text::lemma_find_char_facts(s@.subrange(u as int, v as int), ' ');
        }
        let ghost before = cands_v(out@);
        match crate::text::find_char_in(s, u, v, ' ') {
            Some(i) => {
                let (x, y) = crate::text::trim_from(s, u + i + 1, v);
                let (c, d) = crate::text::trim_from(s, u, u + i);
                let name = crate::text::copy_range(s, x, y);
                let ty = crate::text::copy_range(s, c, d);
                proof {
                    let piece = s@.subrange(u as int, v as int);
                    assert(piece.skip(i + 1) =~= s@.subrange(u + i + 1, v as int));
                    assert(piece.take(i as int) =~= s@.subrange(u as int, u + i));
                }
                out.push((name, ty));
                proof {
                    assert(cands_v(out@) + param_pairs(ps, k + 1) =~= before + param_pairs(ps, k as int));
                }
            },
            None => {
                proof {
                    assert(cands_v(out@) + param_pairs(ps, k + 1) =~= before + param_pairs(ps, k as int));
                }
            },
        }
        k = k + 1;
    }
    proof {
        assert(cands_v(out@) + param_pairs(ps, k as int) =~= cands_v(out@));
    }
}

/// Adds the parameters of the function that `s[a..b]` starts, if it
/// starts one (see `param_candidates`).
#[verifier::spinoff_prover]
fn push_fn_params(s: &[char], a: usize, b: usize, out: &mut Vec<(Vec<char>, Vec<char>)>)
    requires
        a <= b <= s@.len(),
    ensures
        cands_v(final(out)@) == cands_v(old(out)@) + param_candidates(s@.subrange(a as int, b as int)),
{
    let ghost t = s@.subrange(a as int, b as int);
    let ghost o0 = cands_v(out@);
    proof {
        reveal_strlit("fn ");
    }
    if crate::lsp::has_prefix(s, a, b, "fn ") {
        proof {
            crate::text::lemma_find_char_facts(t, '(');
        }
        match crate::text::find_char_in(s, a, b, '(') {
            Some(x) => {
                proof {
                    assert(t.skip(x as int) =~= s@.subrange(a + x, b as int));
                    crate::text::lemma_find_char_facts(s@.subrange(a + x, b as int), ')');
                }
                match crate::text::find_char_in(s, a + x, b, ')') {
                    Some(y) => {
                        let rs = crate::imports::group_item_ranges(s, a + x + 1, a + x + y);
                        proof {
                            assert(t.subrange(x + 1, x + y) =~= s@.subrange(a + x + 1, a + x + y));
                            assert(ranges_within(s@, rs@));
                        }
                        push_params(s, &rs, out);
                        return;
                    },
                    None => {},
                }
            },
            None => {},
        }
    }
    proof {
        assert(cands_v(out@) =~= o0 + param_candidates(t));
    }
}

/// The names, with their types, that line `s[lo..hi]` declares (see
/// `line_candidates`).
fn line_cands(s: &[char], lo: usize, hi: usize) -> (r: Vec<(Vec<char>, Vec<char>)>)
    requires
        lo <= hi <= s@.len(),
    ensures
        cands_v(r@) == line_candidates(s@.subrange(lo as int, hi as int)),
{
    let (a, b) = crate::text::trim_from(s, lo, hi);
    let ghost t = s@.subrange(a as int, b as int);
    let ps = local_prefix_list();
    let mut out: Vec<(Vec<char>, Vec<char>)> = Vec::new();
    let mut k: usize = 0;
    proof {
        assert(cands_v(out@) + typed_candidates(t, 0) =~= typed_candidates(t, 0));
    }
    while k < ps.len()
        invariant
            a <= b <= s@.len(),
            t == s@.subrange(a as int, b as int),
            ps@.map_values(|p: (&'static str, &'static str)| (p.0@, p.1@)) == local_prefixes(),
            k <= ps@.len(),
            cands_v(out@) + typed_candidates(t, k as int) == typed_candidates(t, 0),
        decreases ps@.len() - k,
    {
        let (p, label) = ps[k];
        proof {
            assert(local_prefixes()[k as int] == (p@, label@));
        }
        let ghost before = cands_v(out@);
        push_typed(s, a, b, p, label, &mut out);
        let mut vp = chars_of("Vault ");
        crate::text::push_str(&mut vp, p);
        let vps = string_of(vp.as_slice());
        push_typed(s, a, b, vps.as_str(), label, &mut out);
        proof {
            assert(cands_v(out@) + typed_candidates(t, k + 1) =~= before + typed_candidates(t, k as int));
        }
        k = k + 1;
    }
    proof {
        assert(cands_v(out@) + typed_candidates(t, k as int) =~= cands_v(out@));
    }
    let ghost after_typed = cands_v(out@);
    proof {
        reveal_strlit("for ");
    }
    if crate::lsp::has_prefix(s, a, b, "for ") {
        let w = crate::lsp::word_end(s, a + 4, b);
        let name = crate::text::copy_range(s, a + 4, w);
        proof {
            assert(t.skip(4) =~= s@.subrange(a + 4, b as int));
            assert(name@ =~= word_prefix(s@.subrange(a + 4, b as int)));
        }
        out.push((name, chars_of("int (loop var)")));
    }
    let ghost after_for = cands_v(out@);
    proof {
        assert(after_for =~= after_typed + (if starts_with(t, "for "@) {
            seq![(word_prefix(t.skip(4)), "int (loop var)"@)]
        } else {
            Seq::empty()
        }));
    }
    push_fn_params(s, a, b, &mut out);
    proof {
        assert(cands_v(out@) =~= after_for + param_candidates(t));
        assert(cands_v(out@) =~= line_candidates(s@.subrange(lo as int, hi as int)));
    }
    out
}

/// The view of a list of found locals.
pub open spec fn locals_v(v: Seq<(String, String)>) -> Seq<(Seq<char>, Seq<char>)> {
    v.map_values(|c: (String, String)| (c.0@, c.1@))
}

/// Adds each of `cs` whose name is new (see `add_new`).
fn add_new_cands(acc: &mut Vec<(String, String)>, cs: &Vec<(Vec<char>, Vec<char>)>)
    ensures
        locals_v(final(acc)@) == add_new(locals_v(old(acc)@), cands_v(cs@), 0),
{
    let ghost cv = cands_v(cs@);
    let mut k: usize = 0;
    while k < cs.len()
        invariant
            k <= cs@.len(),
            cv == cands_v(cs@),
            add_new(locals_v(acc@), cv, k as int) == add_new(locals_v(old(acc)@), cv, 0),
        decreases cs@.len() - k,
    {
        let ghost before = locals_v(acc@);
        let name = &cs[k].0;
        let mut seen = false;
        let mut j: usize = 0;
        while j < acc.len()
            invariant
                j <= acc@.len(),
                before == locals_v(acc@),
                seen == (exists|m: int| 0 <= m < j && #[trigger] acc@[m].0@ == name@),
            decreases acc@.len() - j,
        {
            if crate::text::chars_eq(chars_of(acc[j].0.as_str()).as_slice(), name.as_slice()) {
                seen = true;
            }
            j = j + 1;
        }
        proof {
            assert(cv[k as int] == (cs@[k as int].0@, cs@[k as int].1@));
            let labels = before.map_values(|x: (Seq<char>, Seq<char>)| x.0);
            if seen {
                let m = choose|m: int| 0 <= m < acc@.len() && #[trigger] acc@[m].0@ == name@;
                assert(labels[m] == name@);
                assert(labels.contains(name@));
            } else {
                assert forall|m: int| 0 <= m < labels.len() implies labels[m] != name@ by {
                    assert(labels[m] == acc@[m].0@);
                }
            }
        }
        if name.len() > 0 && !seen {
            acc.push((string_of(cs[k].0.as_slice()), string_of(cs[k].1.as_slice())));
            proof {
                assert(locals_v(acc@) =~= before.push(cv[k as int]));
            }
        }
        k = k + 1;
    }
}

/// The local variables declared in `text` up to the cursor's `line` (see
/// `local_completions`).
pub fn local_var_completions(text: &str, line: u32) -> (r: Vec<CompletionItem>)
    ensures
        completions_v(r@) == local_completions(text@, line as int),
{
    let s = chars_of(text);
    let rs = crate::text::line_ranges(s.as_slice());
    let ghost ls = lines(text@);
    let n = if (line as usize) < rs.len() {
        line as usize + 1
    } else {
        rs.len()
    };
    let mut acc: Vec<(String, String)> = Vec::new();
    let mut k: usize = 0;
    proof {
        assert(ls.len() == rs@.len());
        assert(locals_v(acc@) =~= locals_in(Seq::empty(), ls, 0));
    }
    while k < n
        invariant
            s@ == text@,
            crate::text::ranges_view(s@, rs@) == ls,
            forall|i: int| 0 <= i < rs@.len() ==> #[trigger] rs@[i].0 <= rs@[i].1 <= s@.len(),
            ls == lines(text@),
            n <= rs@.len(),
            k <= n,
            locals_v(acc@) == locals_in(Seq::empty(), ls, k as int),
        decreases n - k,
    {
        let (lo, hi) = rs[k];
        proof {
            assert(ls[k as int] == s@.subrange(lo as int, hi as int));
        }
        let cs = line_cands(s.as_slice(), lo, hi);
        add_new_cands(&mut acc, &cs);
        k = k + 1;
    }
    let mut out: Vec<CompletionItem> = Vec::new();
    let mut i: usize = 0;
    while i < acc.len()
        invariant
            i <= acc@.len(),
            completions_v(out@) =~= locals_v(acc@).take(i as int).map_values(|c: (Seq<char>, Seq<char>)| local_item(c)),
        decreases acc@.len() - i,
    {
        let ghost before = completions_v(out@);
        out.push(CompletionItem {
            label: string_of(chars_of(acc[i].0.as_str()).as_slice()),
            kind: CompletionKind::Variable,
            detail: string_of(chars_of(acc[i].1.as_str()).as_slice()),
            insert_text: string_of(chars_of(acc[i].0.as_str()).as_slice()),
            format: InsertFormat::PlainText,
        });
        proof {
            let lv = locals_v(acc@);
            assert(lv.take(i + 1) =~= lv.take(i as int).push(lv[i as int]));
            assert(lv[i as int] == (acc@[i as int].0@, acc@[i as int].1@));
            assert(completions_v(out@) =~= before.push(local_item(lv[i as int])));
            assert(lv.take(i + 1).map_values(|c: (Seq<char>, Seq<char>)| local_item(c))
                =~= lv.take(i as int).map_values(|c: (Seq<char>, Seq<char>)| local_item(c)).push(local_item(lv[i as int])));
        }
        i = i + 1;
    }
    proof {
        assert(locals_v(acc@).take(acc@.len() as int) =~= locals_v(acc@));
    }
    out
}


// ───────────────────────── the whole list ─────────────────────────

/// The kind of completion that a keyword snippet of kind `k` is.
pub open spec fn snippet_kind(k: ItemKind) -> CompletionKind {
    match k {
        ItemKind::Snippet => CompletionKind::Snippet,
        ItemKind::Function => CompletionKind::Function,
        ItemKind::TypeParameter => CompletionKind::TypeParameter,
        ItemKind::Keyword => CompletionKind::Keyword,
        ItemKind::Constant => CompletionKind::Constant,
    }
}

/// The keyword snippets as completions.
pub open spec fn snippet_completions() -> Seq<CompletionV> {
    keyword_snippets().map_values(
        |k: (Seq<char>, Seq<char>, Seq<char>, ItemKind)|
            CompletionV { label: k.0, kind: snippet_kind(k.3), detail: k.1, insert_text: k.2, format: InsertFormat::Snippet },
    )
}

/// The completions from the declarations of imported files, each given
/// as the path it was imported by and its text, in order.
pub open spec fn imported_completions(imported: Seq<(Seq<char>, Seq<char>)>) -> Seq<CompletionV>
    decreases imported.len(),
{
    if imported.len() == 0 {
        Seq::empty()
    } else {
        imported_completions(imported.drop_last()) + completions_of(imported.last().1, imported.last().0)
    }
}

/// `acc` followed by each of `xs[k..]` whose label is not there yet.
pub open spec fn first_labels(acc: Seq<CompletionV>, xs: Seq<CompletionV>, k: int) -> Seq<CompletionV>
    decreases xs.len() - k,
{
    if 0 <= k < xs.len() {
        first_labels(
            if acc.map_values(|c: CompletionV| c.label).contains(xs[k].label) {
                acc
            } else {
                acc.push(xs[k])
            },
            xs,
            k + 1,
        )
    } else {
        acc
    }
}

/// The name before the `.` that the text left of the cursor ends with
/// (spaces after the dot aside), if there is one.
pub open spec fn dot_context(text: Seq<char>, line: int, col: int) -> Option<Seq<char>> {
    let ls = lines(text);
    let l = if 0 <= line < ls.len() {
        ls[line]
    } else {
        Seq::empty()
    };
    let bt = trim_end(l.take(chars_within(l, col)));
    if bt.len() > 0 && bt.last() == '.' && trailing_word(bt.drop_last()).len() > 0 {
        Some(trailing_word(bt.drop_last()))
    } else {
        None
    }
}

/// The completions at byte column `col` of line `line`: after `name.`,
/// what may follow the name where something is known of it; else the
/// keyword snippets, the declarations of the file, its local variables
/// above the cursor and the declarations of the imported files, the
/// first of each label only.
pub open spec fn completion_list(text: Seq<char>, line: int, col: int, imported: Seq<(Seq<char>, Seq<char>)>) -> Seq<
    CompletionV,
> {
    match (match dot_context(text, line, col) {
        Some(b) => dot_items(text, b),
        None => None,
    }) {
        Some(items) => items,
        None => first_labels(
            Seq::empty(),
            snippet_completions() + completions_of(text, Seq::empty()) + local_completions(text, line)
                + imported_completions(imported),
            0,
        ),
    }
}

/// The view of the imported files.
pub open spec fn imports_v(v: Seq<(String, String)>) -> Seq<(Seq<char>, Seq<char>)> {
    v.map_values(|p: (String, String)| (p.0@, p.1@))
}

/// The name before a dot at the cursor (see `dot_context`).
fn dot_base(text: &str, line: u32, character: u32) -> (r: Option<String>)
    ensures
        match r {
            Some(b) => dot_context(text@, line as int, character as int) == Some(b@),
            None => dot_context(text@, line as int, character as int) is None,
        },
{
    let s = chars_of(text);
    let rs = line_ranges(s.as_slice());
    let li = line as usize;
    let (lo, hi) = if li < rs.len() {
        rs[li]
    } else {
        (0, 0)
    };
    let ghost l = s@.subrange(lo as int, hi as int);
    proof {
        if li < rs.len() {
            assert(lines(text@)[li as int] == l);
        } else {
            assert(l =~= Seq::<char>::empty());
        }
    }
    let cut = cut_at_bytes(s.as_slice(), lo, hi, character);
    let e = trim_end_from(s.as_slice(), lo, cut);
    proof {
        assert(l.take(cut - lo) =~= s@.subrange(lo as int, cut as int));
    }
    if e > lo && s[e - 1] == '.' {
        let piece = string_of(crate::text::copy_range(s.as_slice(), lo, e - 1).as_slice());
        let b = extract_trailing_ident(piece.as_str());
        proof {
            assert(s@.subrange(lo as int, e as int).drop_last() =~= piece@);
        }
        if chars_of(b.as_str()).len() > 0 {
            Some(b)
        } else {
            None
        }
    } else {
        None
    }
}

/// A copy of a completion.
fn copy_item(c: &CompletionItem) -> (r: CompletionItem)
    ensures
        completions_v(seq![r]) == completions_v(seq![*c]),
{
    CompletionItem {
        label: string_of(chars_of(c.label.as_str()).as_slice()),
        kind: c.kind,
        detail: string_of(chars_of(c.detail.as_str()).as_slice()),
        insert_text: string_of(chars_of(c.insert_text.as_str()).as_slice()),
        format: c.format,
    }
}

/// The keyword snippets as completions (see `snippet_completions`).
fn snippet_items() -> (r: Vec<CompletionItem>)
    ensures
        completions_v(r@) == snippet_completions(),
{
    let ks = keyword_snippet_items();
    let ghost kv = ks@.map_values(|k: KeywordSnippet| (k.label@, k.detail@, k.snippet@, k.kind));
    let mut out: Vec<CompletionItem> = Vec::new();
    let mut i: usize = 0;
    while i < ks.len()
        invariant
            i <= ks@.len(),
            kv == ks@.map_values(|k: KeywordSnippet| (k.label@, k.detail@, k.snippet@, k.kind)),
            kv == keyword_snippets(),
            completions_v(out@) == snippet_completions().take(i as int),
        decreases ks@.len() - i,
    {
        let k = &ks[i];
        let kind = match k.kind {
            ItemKind::Snippet => CompletionKind::Snippet,
            ItemKind::Function => CompletionKind::Function,
            ItemKind::TypeParameter => CompletionKind::TypeParameter,
            ItemKind::Keyword => CompletionKind::Keyword,
            ItemKind::Constant => CompletionKind::Constant,
        };
        let ghost before = completions_v(out@);
        out.push(CompletionItem {
            label: string_of(chars_of(k.label).as_slice()),
            kind,
            detail: string_of(chars_of(k.detail).as_slice()),
            insert_text: string_of(chars_of(k.snippet).as_slice()),
            format: InsertFormat::Snippet,
        });
        proof {
            assert(kv[i as int] == (k.label@, k.detail@, k.snippet@, k.kind));
            assert(snippet_completions().take(i + 1) =~= snippet_completions().take(i as int).push(
                snippet_completions()[i as int],
            ));
            assert(completions_v(out@) =~= before.push(snippet_completions()[i as int]));
        }
        i = i + 1;
    }
    proof {
        assert(snippet_completions().take(ks@.len() as int) =~= snippet_completions());
    }
    out
}

/// Each of `xs` whose label comes first (see `first_labels`).
fn keep_first_labels(xs: &Vec<CompletionItem>) -> (r: Vec<CompletionItem>)
    ensures
        completions_v(r@) == first_labels(Seq::empty(), completions_v(xs@), 0),
{
    let ghost xv = completions_v(xs@);
    let mut out: Vec<CompletionItem> = Vec::new();
    let mut k: usize = 0;
    proof {
        assert(completions_v(out@) =~= Seq::<CompletionV>::empty());
    }
    while k < xs.len()
        invariant
            k <= xs@.len(),
            xv == completions_v(xs@),
            first_labels(completions_v(out@), xv, k as int) == first_labels(Seq::empty(), xv, 0),
        decreases xs@.len() - k,
    {
        let ghost before = completions_v(out@);
        let mut seen = false;
        let mut j: usize = 0;
        while j < out.len()
            invariant
                j <= out@.len(),
                before == completions_v(out@),
                k < xs@.len(),
                seen == (exists|m: int| 0 <= m < j && #[trigger] out@[m].label@ == xs@[k as int].label@),
            decreases out@.len() - j,
        {
            if crate::hover::same_text(out[j].label.as_str(), xs[k].label.as_str()) {
                seen = true;
            }
            j = j + 1;
        }
        proof {
            let labels = before.map_values(|c: CompletionV| c.label);
            assert(xv[k as int].label == xs@[k as int].label@);
            if seen {
                let m = choose|m: int| 0 <= m < out@.len() && #[trigger] out@[m].label@ == xs@[k as int].label@;
                assert(labels[m] == out@[m].label@);
                assert(labels.contains(xv[k as int].label));
            } else {
                assert forall|m: int| 0 <= m < labels.len() implies labels[m] != xv[k as int].label by {
                    assert(labels[m] == out@[m].label@);
                }
            }
        }
        if !seen {
            let c = copy_item(&xs[k]);
            out.push(c);
            proof {
                assert(completions_v(seq![c]) == completions_v(seq![xs@[k as int]]));
                assert(completions_v(seq![c])[0] == completions_v(out@)[out@.len() - 1]);
                assert(completions_v(out@) =~= before.push(xv[k as int]));
            }
        }
        k = k + 1;
    }
    out
}

/// The completions at `line` and byte column `character` of `text`, with
/// the files that it imports given as the path each was imported by and
/// its text (see `completion_list`).
pub fn compute_completions(text: &str, line: u32, character: u32, imported: &Vec<(String, String)>) -> (r: Vec<
    CompletionItem,
>)
    requires
        on_char_boundary(text@, line as int, character as int),
        preprocessed(text@).len() < usize::MAX,
        forall|i: int| 0 <= i < imported@.len() ==> preprocessed(#[trigger] imported@[i].1@).len() < usize::MAX,
    ensures
        completions_v(r@) == completion_list(text@, line as int, character as int, imports_v(imported@)),
{
    match dot_base(text, line, character) {
        Some(b) => match dot_completions(text, b.as_str()) {
            Some(v) => {
                return v;
            },
            None => {},
        },
        None => {},
    }
    let mut all = snippet_items();
    let mut decls = extract_decl_completions(text);
    let mut locals = local_var_completions(text, line);
    let ghost head = snippet_completions() + completions_of(text@, Seq::empty()) + local_completions(text@, line as int);
    all.append(&mut decls);
    all.append(&mut locals);
    proof {
        assert(completions_v(all@) =~= head);
    }
    let ghost iv = imports_v(imported@);
    let mut i: usize = 0;
    proof {
        assert(iv.take(0) =~= Seq::<(Seq<char>, Seq<char>)>::empty());
        assert(completions_v(all@) =~= head + imported_completions(iv.take(0)));
    }
    while i < imported.len()
        invariant
            i <= imported@.len(),
            iv == imports_v(imported@),
            forall|j: int| 0 <= j < imported@.len() ==> preprocessed(#[trigger] imported@[j].1@).len() < usize::MAX,
            completions_v(all@) == head + imported_completions(iv.take(i as int)),
        decreases imported@.len() - i,
    {
        let ghost before = completions_v(all@);
        let mut more = extract_decl_completions_labeled(imported[i].1.as_str(), imported[i].0.as_str());
        all.append(&mut more);
        proof {
            assert(iv.take(i + 1).drop_last() =~= iv.take(i as int));
            assert(iv.take(i + 1).last() == (imported@[i as int].0@, imported@[i as int].1@));
            assert(completions_v(all@) =~= before + completions_of(imported@[i as int].1@, imported@[i as int].0@));
        }
        i = i + 1;
    }
    proof {
        assert(iv.take(imported@.len() as int) =~= iv);
        assert(dot_context(text@, line as int, character as int) is None || dot_items(
            text@,
            dot_context(text@, line as int, character as int)->0,
        ) is None);
    }
    keep_first_labels(&all)
}


// ───────────────────────── each label once ─────────────────────────

/// No two of `cs` have the same label.
pub open spec fn labels_distinct(cs: Seq<CompletionV>) -> bool {
    forall|i: int, j: int| 0 <= i < j < cs.len() ==> #[trigger] cs[i].label != #[trigger] cs[j].label
}

/// No two of `cs` have the same name.
pub open spec fn names_distinct(cs: Seq<(Seq<char>, Seq<char>)>) -> bool {
    forall|i: int, j: int| 0 <= i < j < cs.len() ==> #[trigger] cs[i].0 != #[trigger] cs[j].0
}

proof fn lemma_first_labels_distinct(acc: Seq<CompletionV>, xs: Seq<CompletionV>, k: int)
    requires
        labels_distinct(acc),
    ensures
        labels_distinct(first_labels(acc, xs, k)),
    decreases xs.len() - k,
{
    if 0 <= k < xs.len() {
        let labels = acc.map_values(|c: CompletionV| c.label);
        if !labels.contains(xs[k].label) {
            let acc2 = acc.push(xs[k]);
            assert forall|i: int, j: int| 0 <= i < j < acc2.len() implies #[trigger] acc2[i].label
                != #[trigger] acc2[j].label by {
                if j == acc.len() {
                    assert(labels[i] == acc[i].label);
                }
            }
            lemma_first_labels_distinct(acc2, xs, k + 1);
        } else {
            lemma_first_labels_distinct(acc, xs, k + 1);
        }
    }
}

proof fn lemma_add_new_distinct(acc: Seq<(Seq<char>, Seq<char>)>, cs: Seq<(Seq<char>, Seq<char>)>, k: int)
    requires
        names_distinct(acc),
    ensures
        names_distinct(add_new(acc, cs, k)),
    decreases cs.len() - k,
{
    if 0 <= k < cs.len() {
        let names = acc.map_values(|x: (Seq<char>, Seq<char>)| x.0);
        if cs[k].0.len() > 0 && !names.contains(cs[k].0) {
            let acc2 = acc.push(cs[k]);
            assert forall|i: int, j: int| 0 <= i < j < acc2.len() implies #[trigger] acc2[i].0 != #[trigger] acc2[j].0 by {
                if j == acc.len() {
                    assert(names[i] == acc[i].0);
                }
            }
            lemma_add_new_distinct(acc2, cs, k + 1);
        } else {
            lemma_add_new_distinct(acc, cs, k + 1);
        }
    }
}

proof fn lemma_locals_in_distinct(ls: Seq<Seq<char>>, n: int)
    ensures
        names_distinct(locals_in(Seq::empty(), ls, n)),
    decreases n,
{
    if n <= 0 || n > ls.len() {
    } else {
        lemma_locals_in_distinct(ls, n - 1);
        lemma_add_new_distinct(locals_in(Seq::empty(), ls, n - 1), line_candidates(ls[n - 1]), 0);
    }
}

/// The local variables offered at a line are named once each: the first
/// declaration of a name above the cursor is the one offered.
pub proof fn lemma_local_names_once(text: Seq<char>, line: int)
    ensures
        labels_distinct(local_completions(text, line)),
{
    let ls = lines(text);
    let n = if line + 1 < ls.len() {
        line + 1
    } else {
        ls.len() as int
    };
    lemma_locals_in_distinct(ls, n);
    let cs = locals_in(Seq::empty(), ls, n);
    let r = local_completions(text, line);
    assert forall|i: int, j: int| 0 <= i < j < r.len() implies #[trigger] r[i].label != #[trigger] r[j].label by {
        assert(r[i].label == cs[i].0);
        assert(r[j].label == cs[j].0);
    }
}

/// Outside of a completion after `name.`, the list offers each label
/// once: of the completions with one label, the first is kept.
pub proof fn lemma_completion_labels_once(
    text: Seq<char>,
    line: int,
    col: int,
    imported: Seq<(Seq<char>, Seq<char>)>,
)
    requires
        match dot_context(text, line, col) {
            Some(b) => dot_items(text, b) is None,
            None => true,
        },
    ensures
        labels_distinct(completion_list(text, line, col, imported)),
{
    lemma_first_labels_distinct(
        Seq::empty(),
        snippet_completions() + completions_of(text, Seq::empty()) + local_completions(text, line)
            + imported_completions(imported),
        0,
    );
}

} // verus!
