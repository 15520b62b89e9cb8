//! Hovers on declared names: the declaration of a function, struct, enum,
//! trait, anchor or constant (with its doc comment), or else of a local
//! variable.
use crate::ast::{
    methods_v, opt_ty_v, params_view, sfields_view, tops_v, variants_v, EnumVariant, Param, Span, StructField,
    TopLevel, TopLevelV, TraitMethod, Ty, TyV,
};
use crate::imports::{preprocess_source, preprocessed};
use crate::lexer::Lexer;
use crate::lsp::{
    anchor_kind_str, doc_comment, extract_doc_comment, format_with_doc, local_hover, local_var_hover, ty_str, with_doc,
};
use crate::parser::grammar::{fresh, sub_input};
use crate::parser::items::items_s;
use crate::parser::Parser;
use crate::shared::ty_name_of;
use crate::symbols::{kind_text, params_text, Position, Range};
use crate::keywords::{keyword_doc, keyword_hover};
use crate::lsp::{extract_trailing_ident, lemma_word_start, trailing_word, word_start, word_stop};
use crate::text::{chars_eq, chars_of, copy_range, is_word_char, line_ranges, lines, push_all, push_str, string_of, word_char};
use vstd::prelude::*;

verus! {

// ───────────────────────── what a hover says ─────────────────────────

/// Lines joined by newlines.
pub open spec fn join_lines(xs: Seq<Seq<char>>) -> Seq<char>
    decreases xs.len(),
{
    if xs.len() == 0 {
        Seq::empty()
    } else if xs.len() == 1 {
        xs[0]
    } else {
        join_lines(xs.drop_last()) + "\n"@ + xs.last()
    }
}

/// ` -> T` for a return type, nothing without one.
pub open spec fn ret_text(r: Option<TyV>) -> Seq<char> {
    match r {
        Some(t) => " -> "@ + ty_name_of(t),
        None => Seq::empty(),
    }
}

/// A function's signature in a code block.
pub open spec fn fn_sig(name: Seq<char>, params: Seq<(TyV, Seq<char>)>, ret: Option<TyV>) -> Seq<char> {
    "```kyte\nfn "@ + name + "("@ + params_text(params) + ")"@ + ret_text(ret) + "\n```"@
}

/// A struct's declaration in a code block, a field per line.
pub open spec fn struct_sig(name: Seq<char>, fields: Seq<(TyV, Seq<char>)>) -> Seq<char> {
    "```kyte\nstruct "@ + name + " {\n"@ + join_lines(
        Seq::new(fields.len(), |i: int| "    "@ + fields[i].1 + ": "@ + ty_name_of(fields[i].0) + ";"@),
    ) + "\n}\n```"@
}

/// How an enum's variant is listed.
pub open spec fn variant_line(v: (Seq<char>, Option<TyV>)) -> Seq<char> {
    match v.1 {
        Some(t) => "    "@ + v.0 + "("@ + ty_name_of(t) + "),"@,
        None => "    "@ + v.0 + ","@,
    }
}

/// An enum's declaration in a code block, a variant per line.
pub open spec fn enum_sig(name: Seq<char>, variants: Seq<(Seq<char>, Option<TyV>)>) -> Seq<char> {
    "```kyte\nenum "@ + name + " {\n"@ + join_lines(Seq::new(variants.len(), |i: int| variant_line(variants[i])))
        + "\n}\n```"@
}

/// How a trait's method is listed.
pub open spec fn method_line(m: (Seq<char>, Seq<(TyV, Seq<char>)>, Option<TyV>)) -> Seq<char> {
    "    fn "@ + m.0 + "("@ + params_text(m.1) + ")"@ + ret_text(m.2) + ";"@
}

/// A trait's declaration in a code block, a method per line.
pub open spec fn trait_sig(name: Seq<char>, methods: Seq<(Seq<char>, Seq<(TyV, Seq<char>)>, Option<TyV>)>) -> Seq<char> {
    "```kyte\ntrait "@ + name + " {\n"@ + join_lines(Seq::new(methods.len(), |i: int| method_line(methods[i])))
        + "\n}\n```"@
}

/// An anchor's head in a code block.
pub open spec fn anchor_sig(name: Seq<char>, kind: crate::ast::AnchorKindV) -> Seq<char> {
    "```kyte\n@"@ + name + "("@ + kind_text(kind) + ")\n```"@
}

/// The hover that item `t` at `span` gives for `word`, if it declares it:
/// its declaration followed by its doc comment in `src`. An anchor that
/// does not declare `word` is searched for a child that does.
pub open spec fn item_hover(t: TopLevelV, span: Span, word: Seq<char>, src: Seq<char>) -> Option<Seq<char>>
    decreases t,
{
    let doc = doc_comment(src, span.line as int);
    match t {
        TopLevelV::Function { name, params, return_ty, .. } => if name == word {
            Some(with_doc(fn_sig(name, params, return_ty), doc))
        } else {
            None
        },
        TopLevelV::Struct { name, fields } => if name == word {
            Some(with_doc(struct_sig(name, fields), doc))
        } else {
            None
        },
        TopLevelV::Enum { name, variants } => if name == word {
            Some(with_doc(enum_sig(name, variants), doc))
        } else {
            None
        },
        TopLevelV::Trait { name, methods } => if name == word {
            Some(with_doc(trait_sig(name, methods), doc))
        } else {
            None
        },
        TopLevelV::Anchor { name, kind, children, .. } => if name == word {
            Some(with_doc(anchor_sig(name, kind), doc))
        } else {
            child_hover(children, 0, word, src)
        },
        TopLevelV::ConstDecl { ty, name, .. } => if name == word {
            Some("```kyte\nconst "@ + ty_name_of(ty) + " "@ + name + "\n```\n\n*Global constant*"@)
        } else {
            None
        },
        _ => None,
    }
}

/// The hover for `word` from the first of `items[k..]`, children of an
/// anchor, that declares it: an anchor (or one of its own children) or a
/// function.
pub open spec fn child_hover(items: Seq<(TopLevelV, Span)>, k: int, word: Seq<char>, src: Seq<char>) -> Option<Seq<char>>
    decreases items, items.len() - k,
{
    if 0 <= k < items.len() {
        let (t, span) = items[k];
        let found = match t {
            TopLevelV::Anchor { name, kind, children, .. } => if name == word {
                Some(with_doc(anchor_sig(name, kind), doc_comment(src, span.line as int)))
            } else {
                child_hover(children, 0, word, src)
            },
            TopLevelV::Function { name, params, return_ty, .. } => if name == word {
                Some(with_doc(fn_sig(name, params, return_ty), doc_comment(src, span.line as int)))
            } else {
                None
            },
            _ => None,
        };
        match found {
            Some(h) => Some(h),
            None => child_hover(items, k + 1, word, src),
        }
    } else {
        None
    }
}

/// The hover for `word` from the first of `items[k..]` that gives one.
pub open spec fn items_hover(items: Seq<(TopLevelV, Span)>, k: int, word: Seq<char>, src: Seq<char>) -> Option<Seq<char>>
    decreases items.len() - k,
{
    if 0 <= k < items.len() {
        match item_hover(items[k].0, items[k].1, word, src) {
            Some(h) => Some(h),
            None => items_hover(items, k + 1, word, src),
        }
    } else {
        None
    }
}

/// The hover for the name `word` under the cursor on `line` of `text`:
/// from the items read from the text (import lines blanked), or else from
/// the declaration of a local variable up to that line.
pub open spec fn symbol_hover_text(text: Seq<char>, word: Seq<char>, line: int) -> Option<Seq<char>> {
    let src = preprocessed(text);
    match items_hover(items_s(sub_input(src, 1), fresh(), Seq::empty()).0, 0, word, src) {
        Some(h) => Some(h),
        None => local_hover(text, word, line),
    }
}

/// The hover for `base.member` where `base` is an enum among `items[k..]`
/// with a variant `member`.
pub open spec fn variant_hover(items: Seq<(TopLevelV, Span)>, k: int, base: Seq<char>, member: Seq<char>) -> Option<Seq<char>>
    decreases items.len() - k,
{
    if 0 <= k < items.len() {
        let found = match items[k].0 {
            TopLevelV::Enum { name, variants } => if name == base {
                match first_variant(variants, member, 0) {
                    Some(v) => Some(
                        "```kyte\n"@ + name + "."@ + v.0 + match v.1 {
                            Some(t) => "("@ + ty_name_of(t) + ")"@,
                            None => Seq::empty(),
                        } + "\n```\n\n*Enum variant*"@,
                    ),
                    None => None,
                }
            } else {
                None
            },
            _ => None,
        };
        match found {
            Some(h) => Some(h),
            None => variant_hover(items, k + 1, base, member),
        }
    } else {
        None
    }
}

/// The first of `vs[k..]` named `member`.
pub open spec fn first_variant(vs: Seq<(Seq<char>, Option<TyV>)>, member: Seq<char>, k: int) -> Option<(Seq<char>, Option<TyV>)>
    decreases vs.len() - k,
{
    if 0 <= k < vs.len() {
        if vs[k].0 == member {
            Some(vs[k])
        } else {
            first_variant(vs, member, k + 1)
        }
    } else {
        None
    }
}

/// The first of `fs[k..]` named `member`.
pub open spec fn first_field(fs: Seq<(TyV, Seq<char>)>, member: Seq<char>, k: int) -> Option<(TyV, Seq<char>)>
    decreases fs.len() - k,
{
    if 0 <= k < fs.len() {
        if fs[k].1 == member {
            Some(fs[k])
        } else {
            first_field(fs, member, k + 1)
        }
    } else {
        None
    }
}

/// The hover for field `member` of a struct named `ty` among `items[k..]`.
pub open spec fn field_hover(items: Seq<(TopLevelV, Span)>, k: int, ty: Seq<char>, member: Seq<char>) -> Option<Seq<char>>
    decreases items.len() - k,
{
    if 0 <= k < items.len() {
        let found = match items[k].0 {
            TopLevelV::Struct { name, fields } => if name == ty {
                match first_field(fields, member, 0) {
                    Some(f) => Some("```kyte\n"@ + name + "."@ + f.1 + ": "@ + ty_name_of(f.0) + "\n```\n\n*Struct field*"@),
                    None => None,
                }
            } else {
                None
            },
            _ => None,
        };
        match found {
            Some(h) => Some(h),
            None => field_hover(items, k + 1, ty, member),
        }
    } else {
        None
    }
}

/// The hover for `base.member` in `text`: a variant of the enum `base`, or
/// else a field of the struct that `base` is declared as.
pub open spec fn member_hover_text(text: Seq<char>, base: Seq<char>, member: Seq<char>) -> Option<Seq<char>> {
    let items = items_s(sub_input(preprocessed(text), 1), fresh(), Seq::empty()).0;
    match variant_hover(items, 0, base, member) {
        Some(h) => Some(h),
        None => match crate::lsp::var_type_in(crate::text::lines(text), base) {
            Some(t) => field_hover(items, 0, t, member),
            None => None,
        },
    }
}


// ───────────────────────── computing hovers ─────────────────────────

/// Appends `parts` joined by newlines (see `join_lines`).
fn push_joined(out: &mut Vec<char>, parts: &Vec<Vec<char>>)
    ensures
        final(out)@ == old(out)@ + join_lines(parts@.map_values(|p: Vec<char>| p@)),
{
    let ghost o0 = out@;
    let ghost pv = parts@.map_values(|p: Vec<char>| p@);
    let mut i: usize = 0;
    proof {
        assert(pv.take(0) =~= Seq::<Seq<char>>::empty());
        assert(out@ =~= o0 + join_lines(pv.take(0)));
    }
    while i < parts.len()
        invariant
            i <= parts@.len(),
            pv == parts@.map_values(|p: Vec<char>| p@),
            out@ == o0 + join_lines(pv.take(i as int)),
        decreases parts@.len() - i,
    {
        let ghost before = out@;
        if i > 0 {
            out.push('\n');
        }
        push_all(out, parts[i].as_slice());
        proof {
            reveal_strlit("\n");
            assert(pv.take(i + 1).drop_last() =~= pv.take(i as int));
            assert(pv.take(i + 1).last() == parts@[i as int]@);
            if i == 0 {
                assert(out@ =~= o0 + join_lines(pv.take(1)));
            } else {
                assert(out@ =~= o0 + join_lines(pv.take(i + 1)));
            }
        }
        i = i + 1;
    }
    proof {
        assert(pv.take(parts@.len() as int) =~= pv);
    }
}

/// Whether the texts `a` and `b` are the same.
pub(crate) fn same_text(a: &str, b: &str) -> (r: bool)
    ensures
        r == (a@ == b@),
{
    chars_eq(chars_of(a).as_slice(), chars_of(b).as_slice())
}

/// Appends ` -> T` for a return type (see `ret_text`).
pub(crate) fn push_ret(out: &mut Vec<char>, r: &Option<Ty>)
    ensures
        final(out)@ == old(out)@ + ret_text(opt_ty_v(*r)),
{
    match r {
        Some(t) => {
            let ghost o0 = out@;
            push_str(out, " -> ");
            push_str(out, ty_str(t).as_str());
            proof {
                assert(out@ =~= o0 + ret_text(opt_ty_v(*r)));
            }
        },
        None => {
            proof {
                assert(out@ =~= old(out)@ + ret_text(opt_ty_v(*r)));
            }
        },
    }
}

/// A function's signature in a code block (see `fn_sig`).
fn fn_sig_of(name: &str, params: &Vec<Param>, ret: &Option<Ty>) -> (r: Vec<char>)
    ensures
        r@ == fn_sig(name@, params_view(*params), opt_ty_v(*ret)),
{
    let mut out: Vec<char> = Vec::new();
    push_str(&mut out, "```kyte\nfn ");
    push_str(&mut out, name);
    push_str(&mut out, "(");
    push_all(&mut out, crate::symbols::params_detail(params).as_slice());
    push_str(&mut out, ")");
    push_ret(&mut out, ret);
    push_str(&mut out, "\n```");
    proof {
        assert(out@ =~= fn_sig(name@, params_view(*params), opt_ty_v(*ret)));
    }
    out
}

/// An anchor's head in a code block (see `anchor_sig`).
fn anchor_sig_of(name: &str, kind: &crate::ast::AnchorKind) -> (r: Vec<char>)
    ensures
        r@ == anchor_sig(name@, kind@),
{
    let mut out: Vec<char> = Vec::new();
    push_str(&mut out, "```kyte\n@");
    push_str(&mut out, name);
    push_str(&mut out, "(");
    push_str(&mut out, anchor_kind_str(kind).as_str());
    push_str(&mut out, ")\n```");
    proof {
        assert(crate::lsp::anchor_kind_text(*kind) == kind_text(kind@));
        assert(out@ =~= anchor_sig(name@, kind@));
    }
    out
}

/// A signature with the doc comment of the item on line `line` of `src`.
fn with_doc_of(sig: Vec<char>, src: &str, line: usize) -> (r: String)
    ensures
        r@ == with_doc(sig@, doc_comment(src@, line as int)),
{
    let doc = extract_doc_comment(src, line);
    format_with_doc(string_of(sig.as_slice()).as_str(), doc.as_str())
}

/// A struct's declaration (see `struct_sig`).
fn struct_sig_of(name: &str, fields: &Vec<StructField>) -> (r: Vec<char>)
    ensures
        r@ == struct_sig(name@, sfields_view(*fields)),
{
    let ghost fv = sfields_view(*fields);
    let mut parts: Vec<Vec<char>> = Vec::new();
    let mut i: usize = 0;
    while i < fields.len()
        invariant
            i <= fields@.len(),
            fv == sfields_view(*fields),
            parts@.map_values(|p: Vec<char>| p@) =~= Seq::new(
                i as nat,
                |k: int| "    "@ + fv[k].1 + ": "@ + ty_name_of(fv[k].0) + ";"@,
            ),
        decreases fields@.len() - i,
    {
        let mut l: Vec<char> = Vec::new();
        push_str(&mut l, "    ");
        push_str(&mut l, fields[i].name.as_str());
        push_str(&mut l, ": ");
        push_str(&mut l, ty_str(&fields[i].ty).as_str());
        push_str(&mut l, ";");
        let ghost before = parts@.map_values(|p: Vec<char>| p@);
        let ghost lv = l@;
        parts.push(l);
        proof {
            assert(parts@.map_values(|p: Vec<char>| p@) =~= before.push(lv));
        }
        i = i + 1;
    }
    let mut out: Vec<char> = Vec::new();
    push_str(&mut out, "```kyte\nstruct ");
    push_str(&mut out, name);
    push_str(&mut out, " {\n");
    push_joined(&mut out, &parts);
    push_str(&mut out, "\n}\n```");
    proof {
        assert(out@ =~= struct_sig(name@, fv));
    }
    out
}

/// An enum's declaration (see `enum_sig`).
fn enum_sig_of(name: &str, variants: &Vec<EnumVariant>) -> (r: Vec<char>)
    ensures
        r@ == enum_sig(name@, variants_v(*variants)),
{
    let ghost vv = variants_v(*variants);
    let mut parts: Vec<Vec<char>> = Vec::new();
    let mut i: usize = 0;
    while i < variants.len()
        invariant
            i <= variants@.len(),
            vv == variants_v(*variants),
            parts@.map_values(|p: Vec<char>| p@) =~= Seq::new(i as nat, |k: int| variant_line(vv[k])),
        decreases variants@.len() - i,
    {
        let mut l: Vec<char> = Vec::new();
        push_str(&mut l, "    ");
        push_str(&mut l, variants[i].name.as_str());
        match &variants[i].ty {
            Some(t) => {
                push_str(&mut l, "(");
                push_str(&mut l, ty_str(t).as_str());
                push_str(&mut l, "),");
            },
            None => {
                push_str(&mut l, ",");
            },
        }
        proof {
            assert(l@ =~= variant_line(vv[i as int]));
        }
        let ghost before = parts@.map_values(|p: Vec<char>| p@);
        let ghost lv = l@;
        parts.push(l);
        proof {
            assert(parts@.map_values(|p: Vec<char>| p@) =~= before.push(lv));
        }
        i = i + 1;
    }
    let mut out: Vec<char> = Vec::new();
    push_str(&mut out, "```kyte\nenum ");
    push_str(&mut out, name);
    push_str(&mut out, " {\n");
    push_joined(&mut out, &parts);
    push_str(&mut out, "\n}\n```");
    proof {
        assert(out@ =~= enum_sig(name@, vv));
    }
    out
}

/// A trait's declaration (see `trait_sig`).
fn trait_sig_of(name: &str, methods: &Vec<TraitMethod>) -> (r: Vec<char>)
    ensures
        r@ == trait_sig(name@, methods_v(*methods)),
{
    let ghost mv = methods_v(*methods);
    let mut parts: Vec<Vec<char>> = Vec::new();
    let mut i: usize = 0;
    while i < methods.len()
        invariant
            i <= methods@.len(),
            mv == methods_v(*methods),
            parts@.map_values(|p: Vec<char>| p@) =~= Seq::new(i as nat, |k: int| method_line(mv[k])),
        decreases methods@.len() - i,
    {
        let mut l: Vec<char> = Vec::new();
        push_str(&mut l, "    fn ");
        push_str(&mut l, methods[i].name.as_str());
        push_str(&mut l, "(");
        push_all(&mut l, crate::symbols::params_detail(&methods[i].params).as_slice());
        push_str(&mut l, ")");
        push_ret(&mut l, &methods[i].return_ty);
        push_str(&mut l, ";");
        proof {
            assert(l@ =~= method_line(mv[i as int]));
        }
        let ghost before = parts@.map_values(|p: Vec<char>| p@);
        let ghost lv = l@;
        parts.push(l);
        proof {
            assert(parts@.map_values(|p: Vec<char>| p@) =~= before.push(lv));
        }
        i = i + 1;
    }
    let mut out: Vec<char> = Vec::new();
    push_str(&mut out, "```kyte\ntrait ");
    push_str(&mut out, name);
    push_str(&mut out, " {\n");
    push_joined(&mut out, &parts);
    push_str(&mut out, "\n}\n```");
    proof {
        assert(out@ =~= trait_sig(name@, mv));
    }
    out
}

/// The hover for `word` among the children of an anchor (see
/// `child_hover`).
fn hover_in_children(items: &Vec<(TopLevel, Span)>, word: &str, src: &str) -> (r: Option<String>)
    ensures
        match r {
            Some(h) => child_hover(tops_v(*items), 0, word@, src@) == Some(h@),
            None => child_hover(tops_v(*items), 0, word@, src@) is None,
        },
    decreases items,
{
    let ghost iv = tops_v(*items);
    let mut k: usize = 0;
    while k < items.len()
        invariant
            k <= items@.len(),
            iv == tops_v(*items),
            child_hover(iv, k as int, word@, src@) == child_hover(iv, 0, word@, src@),
        decreases items@.len() - k,
    {
        let span = items[k].1;
        match &items[k].0 {
            TopLevel::Anchor { name, kind, children, .. } => {
                if same_text(name.as_str(), word) {
                    return Some(with_doc_of(anchor_sig_of(name.as_str(), kind), src, span.line));
                }
                proof {
                    vstd::std_specs::vec::axiom_vec_index_decreases(*items, k as int);
                }
                let inner = hover_in_children(children, word, src);
                if inner.is_some() {
                    return inner;
                }
            },
            TopLevel::Function { name, params, return_ty, .. } => {
                if same_text(name.as_str(), word) {
                    return Some(with_doc_of(fn_sig_of(name.as_str(), params, return_ty), src, span.line));
                }
            },
            _ => {},
        }
        k = k + 1;
    }
    None
}

/// The hover that item `item` at `span` gives for `word` (see
/// `item_hover`).
fn hover_for_item(item: &TopLevel, span: &Span, word: &str, src: &str) -> (r: Option<String>)
    ensures
        match r {
            Some(h) => item_hover(item@, *span, word@, src@) == Some(h@),
            None => item_hover(item@, *span, word@, src@) is None,
        },
{
    match item {
        TopLevel::Function { name, params, return_ty, .. } => if same_text(name.as_str(), word) {
            Some(with_doc_of(fn_sig_of(name.as_str(), params, return_ty), src, span.line))
        } else {
            None
        },
        TopLevel::Struct { name, fields } => if same_text(name.as_str(), word) {
            Some(with_doc_of(struct_sig_of(name.as_str(), fields), src, span.line))
        } else {
            None
        },
        TopLevel::Enum { name, variants } => if same_text(name.as_str(), word) {
            Some(with_doc_of(enum_sig_of(name.as_str(), variants), src, span.line))
        } else {
            None
        },
        TopLevel::Trait { name, methods } => if same_text(name.as_str(), word) {
            Some(with_doc_of(trait_sig_of(name.as_str(), methods), src, span.line))
        } else {
            None
        },
        TopLevel::Anchor { name, kind, children, .. } => if same_text(name.as_str(), word) {
            Some(with_doc_of(anchor_sig_of(name.as_str(), kind), src, span.line))
        } else {
            hover_in_children(children, word, src)
        },
        TopLevel::ConstDecl { ty, name, .. } => if same_text(name.as_str(), word) {
            let mut out: Vec<char> = Vec::new();
            push_str(&mut out, "```kyte\nconst ");
            push_str(&mut out, ty_str(ty).as_str());
            push_str(&mut out, " ");
            push_str(&mut out, name.as_str());
            push_str(&mut out, "\n```\n\n*Global constant*");
            proof {
                assert(out@ =~= "```kyte\nconst "@ + ty_name_of(ty@) + " "@ + name@ + "\n```\n\n*Global constant*"@);
            }
            Some(string_of(out.as_slice()))
        } else {
            None
        },
        _ => None,
    }
}

/// The hover for the name `word` under the cursor on `line` of `text`
/// (see `symbol_hover_text`).
pub fn symbol_hover(text: &str, word: &str, line: u32) -> (r: Option<String>)
    requires
        preprocessed(text@).len() < usize::MAX,
    ensures
        match r {
            Some(h) => symbol_hover_text(text@, word@, line as int) == Some(h@),
            None => symbol_hover_text(text@, word@, line as int) is None,
        },
{
    let src = preprocess_source(text);
    let mut lx = Lexer::new(src.as_str());
    let toks = lx.tokenize();
    let mut p = Parser::new(toks);
    proof {
        assert(p.input().toks =~= sub_input(src@, 1).toks);
        assert(p.input().lines =~= sub_input(src@, 1).lines);
        assert(p.input().cols =~= sub_input(src@, 1).cols);
        assert(p.input() == sub_input(src@, 1));
        assert(p.state() == fresh());
    }
    let ast = p.parse();
    let ghost iv = tops_v(ast.items);
    proof {
        assert(iv == items_s(sub_input(src@, 1), fresh(), Seq::empty()).0);
        assert(src@ == preprocessed(text@));
    }
    let mut k: usize = 0;
    while k < ast.items.len()
        invariant
            k <= ast.items@.len(),
            iv == tops_v(ast.items),
            items_hover(iv, k as int, word@, src@) == items_hover(iv, 0, word@, src@),
            iv == items_s(sub_input(src@, 1), fresh(), Seq::empty()).0,
            src@ == preprocessed(text@),
        decreases ast.items@.len() - k,
    {
        let h = hover_for_item(&ast.items[k].0, &ast.items[k].1, word, src.as_str());
        proof {
            assert(iv[k as int].0 == ast.items@[k as int].0@);
            assert(iv[k as int].1 == ast.items@[k as int].1);
        }
        match h {
            Some(hh) => {
                proof {
                    assert(item_hover(iv[k as int].0, iv[k as int].1, word@, src@) == Some(hh@));
                    assert(items_hover(iv, k as int, word@, src@) == Some(hh@));
                }
                return Some(hh);
            },
            None => {},
        }
        k = k + 1;
    }
    local_var_hover(text, word, line)
}

/// The hover for `base.member` in `text` (see `member_hover_text`).
pub fn member_hover(text: &str, base: &str, member: &str) -> (r: Option<String>)
    requires
        preprocessed(text@).len() < usize::MAX,
    ensures
        match r {
            Some(h) => member_hover_text(text@, base@, member@) == Some(h@),
            None => member_hover_text(text@, base@, member@) is None,
        },
{
    let src = preprocess_source(text);
    let mut lx = Lexer::new(src.as_str());
    let toks = lx.tokenize();
    let mut p = Parser::new(toks);
    proof {
        assert(p.input().toks =~= sub_input(src@, 1).toks);
        assert(p.input().lines =~= sub_input(src@, 1).lines);
        assert(p.input().cols =~= sub_input(src@, 1).cols);
        assert(p.input() == sub_input(src@, 1));
        assert(p.state() == fresh());
    }
    let ast = p.parse();
    let ghost iv = tops_v(ast.items);
    proof {
        assert(iv == items_s(sub_input(preprocessed(text@), 1), fresh(), Seq::empty()).0);
    }
    let mut k: usize = 0;
    while k < ast.items.len()
        invariant
            k <= ast.items@.len(),
            iv == tops_v(ast.items),
            variant_hover(iv, k as int, base@, member@) == variant_hover(iv, 0, base@, member@),
            iv == items_s(sub_input(preprocessed(text@), 1), fresh(), Seq::empty()).0,
        decreases ast.items@.len() - k,
    {
        proof {
            assert(iv[k as int].0 == ast.items@[k as int].0@);
        }
        match &ast.items[k].0 {
            TopLevel::Enum { name, variants } => {
                if same_text(name.as_str(), base) {
                    let ghost vv = variants_v(*variants);
                    proof {
                        assert(iv[k as int].0 == (TopLevelV::Enum { name: name@, variants: vv }));
                    }
                    let mut j: usize = 0;
                    while j < variants.len()
                        invariant
                            j <= variants@.len(),
                            vv == variants_v(*variants),
                            iv[k as int].0 == (TopLevelV::Enum { name: name@, variants: vv }),
                            name@ == base@,
                            0 <= k < iv.len(),
                            variant_hover(iv, k as int, base@, member@) == variant_hover(iv, 0, base@, member@),
                            iv == items_s(sub_input(preprocessed(text@), 1), fresh(), Seq::empty()).0,
                            first_variant(vv, member@, j as int) == first_variant(vv, member@, 0),
                        decreases variants@.len() - j,
                    {
                        proof {
                            assert(vv[j as int].0 == variants@[j as int].name@);
                        }
                        if same_text(variants[j].name.as_str(), member) {
                            let mut out: Vec<char> = Vec::new();
                            push_str(&mut out, "```kyte\n");
                            push_str(&mut out, name.as_str());
                            push_str(&mut out, ".");
                            push_str(&mut out, variants[j].name.as_str());
                            match &variants[j].ty {
                                Some(t) => {
                                    push_str(&mut out, "(");
                                    push_str(&mut out, ty_str(t).as_str());
                                    push_str(&mut out, ")");
                                },
                                None => {},
                            }
                            push_str(&mut out, "\n```\n\n*Enum variant*");
                            let h = string_of(out.as_slice());
                            proof {
                                let v = vv[j as int];
                                assert(v == (variants@[j as int].name@, crate::ast::opt_ty_v(variants@[j as int].ty)));
                                assert(first_variant(vv, member@, j as int) == Some(v));
                                assert(h@ =~= "```kyte\n"@ + name@ + "."@ + v.0 + match v.1 {
                                    Some(t) => "("@ + ty_name_of(t) + ")"@,
                                    None => Seq::empty(),
                                } + "\n```\n\n*Enum variant*"@);
                                assert(variant_hover(iv, k as int, base@, member@) == Some(h@));
                            }
                            return Some(h);
                        }
                        j = j + 1;
                    }
                    proof {
                        assert(iv[k as int].0 == (TopLevelV::Enum { name: name@, variants: vv }));
                    }
                }
            },
            _ => {},
        }
        k = k + 1;
    }
    let ty = match crate::lsp::infer_var_type(text, base) {
        Some(t) => t,
        None => {
            return None;
        },
    };
    let mut k: usize = 0;
    while k < ast.items.len()
        invariant
            k <= ast.items@.len(),
            iv == tops_v(ast.items),
            field_hover(iv, k as int, ty@, member@) == field_hover(iv, 0, ty@, member@),
            iv == items_s(sub_input(preprocessed(text@), 1), fresh(), Seq::empty()).0,
            variant_hover(iv, 0, base@, member@) is None,
            crate::lsp::var_type_in(crate::text::lines(text@), base@) == Some(ty@),
        decreases ast.items@.len() - k,
    {
        proof {
            assert(iv[k as int].0 == ast.items@[k as int].0@);
        }
        match &ast.items[k].0 {
            TopLevel::Struct { name, fields } => {
                if same_text(name.as_str(), ty.as_str()) {
                    let ghost fv = sfields_view(*fields);
                    proof {
                        assert(iv[k as int].0 == (TopLevelV::Struct { name: name@, fields: fv }));
                    }
                    let mut j: usize = 0;
                    while j < fields.len()
                        invariant
                            j <= fields@.len(),
                            fv == sfields_view(*fields),
                            iv[k as int].0 == (TopLevelV::Struct { name: name@, fields: fv }),
                            name@ == ty@,
                            0 <= k < iv.len(),
                            field_hover(iv, k as int, ty@, member@) == field_hover(iv, 0, ty@, member@),
                            iv == items_s(sub_input(preprocessed(text@), 1), fresh(), Seq::empty()).0,
                            variant_hover(iv, 0, base@, member@) is None,
                            crate::lsp::var_type_in(crate::text::lines(text@), base@) == Some(ty@),
                            first_field(fv, member@, j as int) == first_field(fv, member@, 0),
                        decreases fields@.len() - j,
                    {
                        proof {
                            assert(fv[j as int].1 == fields@[j as int].name@);
                        }
                        if same_text(fields[j].name.as_str(), member) {
                            let mut out: Vec<char> = Vec::new();
                            push_str(&mut out, "```kyte\n");
                            push_str(&mut out, name.as_str());
                            push_str(&mut out, ".");
                            push_str(&mut out, fields[j].name.as_str());
                            push_str(&mut out, ": ");
                            push_str(&mut out, ty_str(&fields[j].ty).as_str());
                            push_str(&mut out, "\n```\n\n*Struct field*");
                            let h = string_of(out.as_slice());
                            proof {
                                let f = fv[j as int];
                                assert(f == (fields@[j as int].ty@, fields@[j as int].name@));
                                assert(first_field(fv, member@, j as int) == Some(f));
                                assert(h@ =~= "```kyte\n"@ + name@ + "."@ + f.1 + ": "@ + ty_name_of(f.0)
                                    + "\n```\n\n*Struct field*"@);
                                assert(field_hover(iv, k as int, ty@, member@) == Some(h@));
                            }
                            return Some(h);
                        }
                        j = j + 1;
                    }
                    proof {
                        assert(iv[k as int].0 == (TopLevelV::Struct { name: name@, fields: fv }));
                    }
                }
            },
            _ => {},
        }
        k = k + 1;
    }
    None
}


// ───────────────────────── hover at a position ─────────────────────────

/// A hover: its markdown text and the stretch of the line that it is for.
#[derive(Debug, Clone, PartialEq, Eq)]
pub struct Hover {
    pub contents: String,
    pub range: Range,
}

/// The name before the `.` that stands just before column `lo` of line
/// `l`, if there is such a dot and a name before it.
pub open spec fn member_base(l: Seq<char>, lo: int) -> Option<Seq<char>> {
    if lo > 0 && l[lo - 1] == '.' && trailing_word(l.take(lo - 1)).len() > 0 {
        Some(trailing_word(l.take(lo - 1)))
    } else {
        None
    }
}

/// What the hover on `word` at `line` says: a keyword's description, else
/// the member of `base` when the word follows `base.`, else the
/// declaration of the word.
pub open spec fn hover_markdown(text: Seq<char>, word: Seq<char>, base: Option<Seq<char>>, line: int) -> Option<
    Seq<char>,
> {
    match keyword_doc(word) {
        Some(d) => Some(d),
        None => match (match base {
            Some(b) => member_hover_text(text, b, word),
            None => None,
        }) {
            Some(h) => Some(h),
            None => symbol_hover_text(text, word, line),
        },
    }
}

/// The hover at column `col` of line `line` of `text`, with the columns
/// where the word under the cursor starts and ends; none where the
/// cursor is not on a word or nothing is known of the word.
pub open spec fn hover_at(text: Seq<char>, line: int, col: int) -> Option<(Seq<char>, int, int)> {
    let ls = lines(text);
    if 0 <= line < ls.len() && 0 <= col < ls[line].len() && is_word_char(ls[line][col]) {
        let l = ls[line];
        let lo = word_start(l, col);
        let hi = word_stop(l, col);
        match hover_markdown(text, l.subrange(lo, hi), member_base(l, lo), line) {
            Some(md) => Some((md, lo, hi)),
            None => None,
        }
    } else {
        None
    }
}

/// The columns, counted in `s` from `lo`, where the word through column
/// `col` of the line `s[lo..hi]` starts and stops.
fn word_around(s: &[char], lo: usize, hi: usize, col: usize) -> (r: (usize, usize))
    requires
        lo + col < hi <= s@.len(),
    ensures
        r.0 - lo == word_start(s@.subrange(lo as int, hi as int), col as int),
        r.1 - lo == word_stop(s@.subrange(lo as int, hi as int), col as int),
        lo <= r.0 <= r.1 <= hi,
{
    let ghost l = s@.subrange(lo as int, hi as int);
    let mut a = lo + col;
    proof {
        lemma_word_start(l, col as int);
        crate::lsp::lemma_word_stop(l, col as int);
    }
    while a > lo && word_char(s[a - 1])
        invariant
            lo <= a <= lo + col,
            lo + col < hi <= s@.len(),
            l == s@.subrange(lo as int, hi as int),
            word_start(l, a - lo) == word_start(l, col as int),
        decreases a,
    {
        proof {
            assert(l[a - lo - 1] == s@[a - 1]);
        }
        a = a - 1;
    }
    proof {
        if a > lo {
            assert(l[a - lo - 1] == s@[a - 1]);
        }
    }
    let mut b = lo + col;
    while b < hi && word_char(s[b])
        invariant
            lo + col <= b <= hi <= s@.len(),
            l == s@.subrange(lo as int, hi as int),
            word_stop(l, b - lo) == word_stop(l, col as int),
        decreases hi - b,
    {
        proof {
            assert(l[b - lo] == s@[b as int]);
        }
        b = b + 1;
    }
    proof {
        if b < hi {
            assert(l[b - lo] == s@[b as int]);
        }
        assert(l[col as int] == s@[lo + col]);
    }
    (a, b)
}

/// The name before a dot just before column `a` of `s[lo..hi]` (see
/// `member_base`).
fn member_base_of(s: &[char], lo: usize, hi: usize, a: usize) -> (r: Option<String>)
    requires
        lo <= a <= hi <= s@.len(),
    ensures
        match r {
            Some(t) => member_base(s@.subrange(lo as int, hi as int), a - lo) == Some(t@),
            None => member_base(s@.subrange(lo as int, hi as int), a - lo) is None,
        },
{
    let ghost l = s@.subrange(lo as int, hi as int);
    if a > lo && s[a - 1] == '.' {
        let before = string_of(copy_range(s, lo, a - 1).as_slice());
        let t = extract_trailing_ident(before.as_str());
        proof {
            assert(before@ =~= l.take(a - lo - 1));
            assert(l[a - lo - 1] == s@[a - 1]);
        }
        if chars_of(t.as_str()).len() > 0 {
            Some(t)
        } else {
            None
        }
    } else {
        proof {
            if a > lo {
                assert(l[a - lo - 1] == s@[a - 1]);
            }
        }
        None
    }
}

/// What the hover on `word` at `line` says (see `hover_markdown`).
fn markdown_for(text: &str, word: &str, base: &Option<String>, line: u32) -> (r: Option<String>)
    requires
        preprocessed(text@).len() < usize::MAX,
    ensures
        match r {
            Some(h) => hover_markdown(text@, word@, opt_text(*base), line as int) == Some(h@),
            None => hover_markdown(text@, word@, opt_text(*base), line as int) is None,
        },
{
    match keyword_hover(word) {
        Some(d) => Some(d),
        None => {
            let m = match base {
                Some(t) => member_hover(text, t.as_str(), word),
                None => None,
            };
            match m {
                Some(h) => Some(h),
                None => symbol_hover(text, word, line),
            }
        },
    }
}

/// The view of an optional text.
pub open spec fn opt_text(o: Option<String>) -> Option<Seq<char>> {
    match o {
        Some(t) => Some(t@),
        None => None,
    }
}

/// The hover at `line` and `character` of `text` (see `hover_at`).
pub fn compute_hover(text: &str, line: u32, character: u32) -> (r: Option<Hover>)
    requires
        preprocessed(text@).len() < usize::MAX,
    ensures
        match r {
            Some(h) => {
                &&& hover_at(text@, line as int, character as int) matches Some((md, lo, hi))
                &&& h.contents@ == md
                &&& h.range == (Range {
                    start: Position { line, character: lo as u32 },
                    end: Position { line, character: hi as u32 },
                })
            },
            None => hover_at(text@, line as int, character as int) is None,
        },
{
    let s = chars_of(text);
    let rs = line_ranges(s.as_slice());
    let li = line as usize;
    if li >= rs.len() {
        return None;
    }
    let (lo, hi) = rs[li];
    let ghost l = s@.subrange(lo as int, hi as int);
    proof {
        assert(lines(text@)[li as int] == l);
    }
    let col = character as usize;
    if col >= hi - lo {
        return None;
    }
    proof {
        assert(l[col as int] == s@[lo + col]);
    }
    if !word_char(s[lo + col]) {
        return None;
    }
    let (a, b) = word_around(s.as_slice(), lo, hi, col);
    let word = string_of(copy_range(s.as_slice(), a, b).as_slice());
    proof {
        assert(word@ =~= l.subrange(a - lo, b - lo));
    }
    let base = member_base_of(s.as_slice(), lo, hi, a);
    match markdown_for(text, word.as_str(), &base, line) {
        Some(md) => {
            let start = (a - lo) as u32;
            let end = (b - lo) as u32;
            Some(Hover { contents: md, range: Range { start: Position { line, character: start }, end: Position { line, character: end } } })
        },
        None => None,
    }
}

} // verus!
