//! Reading top-level items: anchors, functions, structs, enums, traits,
//! impls, modules and constants, and whole programs.
//!
//! As elsewhere in the parser, a list stops where reading it makes no
//! progress.
use crate::ast::{
    methods_v, names_v, params_view, sfields_view, stmts_v, tops_v, variants_v, AnchorKind, EnumVariant,
    Param, Program, Stmt, Span, StructField, Token, TokenV, TopLevel, TopLevelV, TraitMethod, Ty, TyV,
};
use crate::parser::grammar::{body_s, expr_s, forward, lemma_decorator_keeps, rem, skip_comma, span_at, stmt_s};
use crate::parser::leaf::anchor_kind_s;
use crate::parser::ty::{contains_name, ty_s};
use crate::parser::{
    adv, at_here, cur, decorator_s, eat_ident_s, eat_var_ident_s, expect_s, same_token, texts, token_debug, token_text,
    with_err, PInput, PState, Parser,
};
use crate::text::push_str;
use vstd::prelude::*;

verus! {

// ───────────────────────── the grammar of items ─────────────────────────

/// A function's type parameters, names separated by commas, up to `>`.
#[verifier::opaque]
pub open spec fn tparams_s(inp: PInput, s: PState, acc: Seq<Seq<char>>) -> (Seq<Seq<char>>, PState)
    decreases rem(inp, s),
{
    if cur(inp, s) == TokenV::Gt || cur(inp, s) == TokenV::EOF {
        (acc, s)
    } else {
        let (tp, s1) = eat_ident_s(inp, s);
        let s2 = skip_comma(inp, s1);
        if forward(inp, s, s2) {
            tparams_s(inp, s2, acc.push(tp))
        } else {
            (acc.push(tp), s2)
        }
    }
}

/// Parameters `T name` separated by commas, up to `)` (and, when
/// `stop_at_end`, the end of the tokens).
#[verifier::opaque]
pub open spec fn fparams_s(inp: PInput, s: PState, acc: Seq<(TyV, Seq<char>)>, stop_at_end: bool) -> (
    Seq<(TyV, Seq<char>)>,
    PState,
)
    decreases rem(inp, s),
{
    if cur(inp, s) == TokenV::RParen || (stop_at_end && cur(inp, s) == TokenV::EOF) {
        (acc, s)
    } else {
        let (ty, s1) = ty_s(inp, s);
        let (n, s2) = eat_var_ident_s(inp, s1);
        let s3 = skip_comma(inp, s2);
        if forward(inp, s, s3) {
            fparams_s(inp, s3, acc.push((ty, n)), stop_at_end)
        } else {
            (acc.push((ty, n)), s3)
        }
    }
}

/// Past `-> T`, if it is there: the type.
#[verifier::opaque]
pub open spec fn ret_ty_s(inp: PInput, s: PState) -> (Option<TyV>, PState) {
    if cur(inp, s) == TokenV::Arrow {
        let (t, s1) = ty_s(inp, adv(inp, s));
        (Some(t), s1)
    } else {
        (None, s)
    }
}

/// Reading a function: `function name(T a, ...) -> R { ... }`, where the
/// name may be `Owner.method` (then `self` of type `Owner` comes first among
/// the parameters) and may be followed by type parameters `<T, ...>`, which
/// stand for types in the rest of the function.
#[verifier::opaque]
pub open spec fn function_s(inp: PInput, s: PState) -> ((TopLevelV, Span), PState) {
    let span = span_at(inp, s);
    let s1 = expect_s(inp, s, TokenV::Function);
    let (first, s2) = eat_ident_s(inp, s1);
    let (name, owner, s3) = if cur(inp, s2) == TokenV::Dot {
        let (m, s4) = eat_ident_s(inp, adv(inp, s2));
        (first + "."@ + m, Some(first), s4)
    } else {
        (first, None, s2)
    };
    let (tps, s5) = if cur(inp, s3) == TokenV::Lt {
        let (t, s6) = tparams_s(inp, adv(inp, s3), Seq::empty());
        (t, expect_s(inp, s6, TokenV::Gt))
    } else {
        (Seq::empty(), s3)
    };
    let s7 = expect_s(inp, PState { tparams: tps, ..s5 }, TokenV::LParen);
    let first_params = match owner {
        Some(o) => seq![(TyV::Struct(o), "self"@)],
        None => Seq::empty(),
    };
    let (ps, s8) = fparams_s(inp, s7, first_params, false);
    let (ret, s9) = ret_ty_s(inp, expect_s(inp, s8, TokenV::RParen));
    let (body, s10) = body_s(inp, expect_s(inp, s9, TokenV::LBrace), Seq::empty());
    let s11 = expect_s(inp, s10, TokenV::RBrace);
    (
        (
            TopLevelV::Function {
                name,
                type_params: tps,
                params: ps,
                return_ty: ret,
                body,
                decorators: Seq::empty(),
            },
            span,
        ),
        PState { tparams: Seq::empty(), ..s11 },
    )
}

/// A struct's fields `T name;` up to `}`.
#[verifier::opaque]
pub open spec fn sdecl_fields_s(inp: PInput, s: PState, acc: Seq<(TyV, Seq<char>)>) -> (Seq<(TyV, Seq<char>)>, PState)
    decreases rem(inp, s),
{
    if cur(inp, s) == TokenV::RBrace {
        (acc, s)
    } else {
        let (ty, s1) = ty_s(inp, s);
        let (n, s2) = eat_ident_s(inp, s1);
        let s3 = expect_s(inp, s2, TokenV::Semicolon);
        if forward(inp, s, s3) {
            sdecl_fields_s(inp, s3, acc.push((ty, n)))
        } else {
            (acc.push((ty, n)), s3)
        }
    }
}

/// Reading a struct: `struct Name { T field; ... }`.
#[verifier::opaque]
pub open spec fn struct_s(inp: PInput, s: PState) -> ((TopLevelV, Span), PState) {
    let s1 = expect_s(inp, s, TokenV::Struct);
    let (name, s2) = eat_ident_s(inp, s1);
    let (fs, s3) = sdecl_fields_s(inp, expect_s(inp, s2, TokenV::LBrace), Seq::empty());
    ((TopLevelV::Struct { name, fields: fs }, span_at(inp, s)), expect_s(inp, s3, TokenV::RBrace))
}

/// An enum's variants `Name` or `Name(T)`, separated by commas, up to `}`.
#[verifier::opaque]
pub open spec fn variants_s(inp: PInput, s: PState, acc: Seq<(Seq<char>, Option<TyV>)>) -> (
    Seq<(Seq<char>, Option<TyV>)>,
    PState,
)
    decreases rem(inp, s),
{
    if cur(inp, s) == TokenV::RBrace || cur(inp, s) == TokenV::EOF {
        (acc, s)
    } else {
        let (vn, s1) = eat_ident_s(inp, s);
        let (ty, s2) = if cur(inp, s1) == TokenV::LParen {
            let (t, s3) = ty_s(inp, adv(inp, s1));
            (Some(t), expect_s(inp, s3, TokenV::RParen))
        } else {
            (None, s1)
        };
        let s4 = skip_comma(inp, s2);
        if forward(inp, s, s4) {
            variants_s(inp, s4, acc.push((vn, ty)))
        } else {
            (acc.push((vn, ty)), s4)
        }
    }
}

/// The enum names known after `name` is declared.
pub open spec fn with_enum(s: PState, name: Seq<char>) -> PState {
    if s.enums.contains(name) {
        s
    } else {
        PState { enums: s.enums.push(name), ..s }
    }
}

/// Reading an enum: `enum Name { A, B(T), ... }`; from its name on, `Name`
/// is known as an enum.
#[verifier::opaque]
pub open spec fn enum_s(inp: PInput, s: PState) -> ((TopLevelV, Span), PState) {
    let s1 = expect_s(inp, s, TokenV::Enum);
    let (name, s2) = eat_ident_s(inp, s1);
    let (vs, s3) = variants_s(inp, expect_s(inp, with_enum(s2, name), TokenV::LBrace), Seq::empty());
    ((TopLevelV::Enum { name, variants: vs }, span_at(inp, s)), expect_s(inp, s3, TokenV::RBrace))
}

/// A trait's method signatures `function name(T a, ...) -> R;` up to `}`;
/// decorators are dropped.
#[verifier::opaque]
pub open spec fn tmethods_s(inp: PInput, s: PState, acc: Seq<(Seq<char>, Seq<(TyV, Seq<char>)>, Option<TyV>)>) -> (
    Seq<(Seq<char>, Seq<(TyV, Seq<char>)>, Option<TyV>)>,
    PState,
)
    decreases rem(inp, s),
{
    if cur(inp, s) == TokenV::RBrace || cur(inp, s) == TokenV::EOF {
        (acc, s)
    } else if cur(inp, s) == TokenV::Hash {
        let s1 = decorator_s(inp, s).1;
        if forward(inp, s, s1) {
            tmethods_s(inp, s1, acc)
        } else {
            (acc, s1)
        }
    } else {
        let s1 = expect_s(inp, s, TokenV::Function);
        let (mn, s2) = eat_ident_s(inp, s1);
        let (ps, s3) = fparams_s(inp, expect_s(inp, s2, TokenV::LParen), Seq::empty(), true);
        let (ret, s4) = ret_ty_s(inp, expect_s(inp, s3, TokenV::RParen));
        let s5 = expect_s(inp, s4, TokenV::Semicolon);
        if forward(inp, s, s5) {
            tmethods_s(inp, s5, acc.push((mn, ps, ret)))
        } else {
            (acc.push((mn, ps, ret)), s5)
        }
    }
}

/// Reading a trait: `trait Name { function m(...) -> R; ... }`.
#[verifier::opaque]
pub open spec fn trait_s(inp: PInput, s: PState) -> ((TopLevelV, Span), PState) {
    let s1 = expect_s(inp, s, TokenV::Trait);
    let (name, s2) = eat_ident_s(inp, s1);
    let (ms, s3) = tmethods_s(inp, expect_s(inp, s2, TokenV::LBrace), Seq::empty());
    ((TopLevelV::Trait { name, methods: ms }, span_at(inp, s)), expect_s(inp, s3, TokenV::RBrace))
}

/// Functions up to `}`; decorators are dropped.
#[verifier::opaque]
pub open spec fn fns_s(inp: PInput, s: PState, acc: Seq<(TopLevelV, Span)>) -> (Seq<(TopLevelV, Span)>, PState)
    decreases rem(inp, s),
{
    if cur(inp, s) == TokenV::RBrace || cur(inp, s) == TokenV::EOF {
        (acc, s)
    } else if cur(inp, s) == TokenV::Hash {
        let s1 = decorator_s(inp, s).1;
        if forward(inp, s, s1) {
            fns_s(inp, s1, acc)
        } else {
            (acc, s1)
        }
    } else {
        let (f, s1) = function_s(inp, s);
        if forward(inp, s, s1) {
            fns_s(inp, s1, acc.push(f))
        } else {
            (acc.push(f), s1)
        }
    }
}

/// Reading an impl: `impl Trait for Type { ... }` or `impl Type { ... }`.
/// The word after the trait's name counts as `for` only as a name token;
/// without a target the trait's name stands for it.
#[verifier::opaque]
pub open spec fn impl_s(inp: PInput, s: PState) -> ((TopLevelV, Span), PState) {
    let s1 = expect_s(inp, s, TokenV::Impl);
    let (tn, s2) = eat_ident_s(inp, s1);
    let (target, s3) = if cur(inp, s2) == TokenV::Ident("for"@) {
        eat_ident_s(inp, adv(inp, s2))
    } else if cur(inp, s2) is Ident {
        eat_ident_s(inp, s2)
    } else {
        (tn, s2)
    };
    let (ms, s4) = fns_s(inp, expect_s(inp, s3, TokenV::LBrace), Seq::empty());
    ((TopLevelV::Impl { trait_name: tn, target_ty: target, methods: ms }, span_at(inp, s)), expect_s(inp, s4, TokenV::RBrace))
}

/// A module's items (functions, structs, enums) up to `}`; decorators are
/// dropped and any other token is reported and skipped.
#[verifier::opaque]
pub open spec fn mod_items_s(inp: PInput, s: PState, acc: Seq<(TopLevelV, Span)>) -> (Seq<(TopLevelV, Span)>, PState)
    decreases rem(inp, s),
{
    if cur(inp, s) == TokenV::RBrace || cur(inp, s) == TokenV::EOF {
        (acc, s)
    } else {
        let (item, s1) = match cur(inp, s) {
            TokenV::Function => {
                let (f, s2) = function_s(inp, s);
                (Some(f), s2)
            },
            TokenV::Struct => {
                let (f, s2) = struct_s(inp, s);
                (Some(f), s2)
            },
            TokenV::Enum => {
                let (f, s2) = enum_s(inp, s);
                (Some(f), s2)
            },
            TokenV::Hash => (None, decorator_s(inp, s).1),
            _ => (None, adv(inp, with_err(s, "Unexpected token in mod"@ + at_here(inp, s)))),
        };
        let acc2 = match item {
            Some(f) => acc.push(f),
            None => acc,
        };
        if forward(inp, s, s1) {
            mod_items_s(inp, s1, acc2)
        } else {
            (acc2, s1)
        }
    }
}

/// Reading a module: `mod name { ... }`.
#[verifier::opaque]
pub open spec fn mod_s(inp: PInput, s: PState) -> ((TopLevelV, Span), PState) {
    let s1 = expect_s(inp, s, TokenV::Mod);
    let (name, s2) = eat_ident_s(inp, s1);
    let (items, s3) = mod_items_s(inp, expect_s(inp, s2, TokenV::LBrace), Seq::empty());
    ((TopLevelV::Module { name, items }, span_at(inp, s)), expect_s(inp, s3, TokenV::RBrace))
}

/// Reading an anchor: `@name(kind) { ... }`, its body's statements and its
/// child anchors, in the order they come; decorators are dropped.
#[verifier::opaque]
pub open spec fn anchor_s(inp: PInput, s: PState) -> ((TopLevelV, Span), PState)
    decreases rem(inp, s), 0int,
{
    let s1 = expect_s(inp, s, TokenV::At);
    let (name, s2) = eat_ident_s(inp, s1);
    let (kind, s3) = anchor_kind_s(inp, expect_s(inp, s2, TokenV::LParen));
    let s4 = expect_s(inp, expect_s(inp, s3, TokenV::RParen), TokenV::LBrace);
    if !forward(inp, s, s4) {
        ((TopLevelV::Anchor { name, kind, body: Seq::empty(), children: Seq::empty() }, span_at(inp, s)), s4)
    } else {
        let (body, children, s5) = anchor_items_s(inp, s4, Seq::empty(), Seq::empty());
        ((TopLevelV::Anchor { name, kind, body, children }, span_at(inp, s)), expect_s(inp, s5, TokenV::RBrace))
    }
}

/// The statements and child anchors of an anchor, up to `}`.
#[verifier::opaque]
pub open spec fn anchor_items_s(inp: PInput, s: PState, body: Seq<(crate::ast::StmtV, Span)>, children: Seq<(TopLevelV, Span)>) -> (
    Seq<(crate::ast::StmtV, Span)>,
    Seq<(TopLevelV, Span)>,
    PState,
)
    decreases rem(inp, s), 1int,
{
    if cur(inp, s) == TokenV::RBrace || cur(inp, s) == TokenV::EOF {
        (body, children, s)
    } else {
        let (b2, c2, s1) = if cur(inp, s) == TokenV::Hash {
            (body, children, decorator_s(inp, s).1)
        } else if cur(inp, s) == TokenV::At {
            let (c, s2) = anchor_s(inp, s);
            (body, children.push(c), s2)
        } else {
            let (st, s2) = stmt_s(inp, s);
            (body.push(st), children, s2)
        };
        if forward(inp, s, s1) {
            anchor_items_s(inp, s1, b2, c2)
        } else {
            (b2, c2, s1)
        }
    }
}

/// Decorators, one after another: their names.
#[verifier::opaque]
pub open spec fn decorators_s(inp: PInput, s: PState, acc: Seq<Seq<char>>) -> (Seq<Seq<char>>, PState)
    decreases rem(inp, s),
{
    if cur(inp, s) == TokenV::Hash {
        let (d, s1) = decorator_s(inp, s);
        if forward(inp, s, s1) {
            decorators_s(inp, s1, acc.push(d))
        } else {
            (acc.push(d), s1)
        }
    } else {
        (acc, s)
    }
}

/// A function item with `decorators` in place of its own.
pub open spec fn decorated(f: (TopLevelV, Span), decorators: Seq<Seq<char>>) -> (TopLevelV, Span) {
    match f.0 {
        TopLevelV::Function { name, type_params, params, return_ty, body, .. } => (
            TopLevelV::Function { name, type_params, params, return_ty, body, decorators },
            f.1,
        ),
        _ => f,
    }
}

/// Reading a constant at the top level: `const T name = e;`.
#[verifier::opaque]
pub open spec fn top_const_s(inp: PInput, s: PState) -> ((TopLevelV, Span), PState) {
    let (ty, s1) = ty_s(inp, adv(inp, s));
    let (n, s2) = eat_var_ident_s(inp, s1);
    let (v, s3) = expr_s(inp, expect_s(inp, s2, TokenV::Eq));
    ((TopLevelV::ConstDecl { ty, name: n, value: v }, span_at(inp, s)), expect_s(inp, s3, TokenV::Semicolon))
}

/// One top-level item at the parser's position, if one is read there.
#[verifier::opaque]
pub open spec fn item_s(inp: PInput, s: PState) -> (Option<(TopLevelV, Span)>, PState) {
    match cur(inp, s) {
        TokenV::Hash => {
            let (decs, s1) = decorators_s(inp, s, Seq::empty());
            if cur(inp, s1) == TokenV::Function {
                let (f, s2) = function_s(inp, s1);
                (Some(decorated(f, decs)), s2)
            } else {
                (None, s1)
            }
        },
        TokenV::At => {
            let (a, s1) = anchor_s(inp, s);
            (Some(a), s1)
        },
        TokenV::Function => {
            let (a, s1) = function_s(inp, s);
            (Some(a), s1)
        },
        TokenV::Struct => {
            let (a, s1) = struct_s(inp, s);
            (Some(a), s1)
        },
        TokenV::Enum => {
            let (a, s1) = enum_s(inp, s);
            (Some(a), s1)
        },
        TokenV::Trait => {
            let (a, s1) = trait_s(inp, s);
            (Some(a), s1)
        },
        TokenV::Impl => {
            let (a, s1) = impl_s(inp, s);
            (Some(a), s1)
        },
        TokenV::Mod => {
            let (a, s1) = mod_s(inp, s);
            (Some(a), s1)
        },
        TokenV::Import => (None, adv(inp, s)),
        TokenV::Const => {
            let (a, s1) = top_const_s(inp, s);
            (Some(a), s1)
        },
        t => (None, adv(inp, with_err(s, "Unexpected top-level token: "@ + token_text(t) + at_here(inp, s)))),
    }
}

/// Reading the items of a program up to the end of the tokens.
#[verifier::opaque]
pub open spec fn items_s(inp: PInput, s: PState, acc: Seq<(TopLevelV, Span)>) -> (Seq<(TopLevelV, Span)>, PState)
    decreases rem(inp, s),
{
    if cur(inp, s) == TokenV::EOF {
        (acc, s)
    } else {
        let (item, s1) = item_s(inp, s);
        let acc2 = match item {
            Some(f) => acc.push(f),
            None => acc,
        };
        if forward(inp, s, s1) {
            items_s(inp, s1, acc2)
        } else {
            (acc2, s1)
        }
    }
}

} // verus!
