//! The checks on a program's top-level items: its main anchor, duplicate
//! declarations, and structs that contain themselves.
use crate::analyzer::{diagnostic, Analyzer, FnSig, VarInfo};
use crate::analyzer::scope::ScopeMap;
use crate::analyzer::infer::{cycle_from, texts};
use crate::ast::{AnchorKind, EnumVariant, Expr, Param, Program, Span, StructField, TopLevel, Ty, TyV};
use crate::mono::{first_index, lemma_first_index, names_view, param_tys_view, position};
use crate::diagnostics::{DiagnosticV, Severity};
use crate::numfmt::{dec, push_decimal};
use crate::text::{push_all, push_str, string_of};
use vstd::prelude::*;

verus! {

/// Whether an item is a main anchor, `@name(main)`.
pub open spec fn is_main_anchor(t: TopLevel) -> bool {
    t matches TopLevel::Anchor { kind: AnchorKind::Main, .. }
}

/// The number of main anchors among `items`.
pub open spec fn main_count(items: Seq<(TopLevel, Span)>) -> nat
    decreases items.len(),
{
    if items.len() == 0 {
        0
    } else {
        main_count(items.drop_last()) + if is_main_anchor(items.last().0) {
            1nat
        } else {
            0nat
        }
    }
}

/// Where the errors about the main anchor point: the first item, else line 1.
pub open spec fn first_item_span(items: Seq<(TopLevel, Span)>) -> Span {
    if items.len() > 0 {
        items[0].1
    } else {
        Span { line: 1, col: 0 }
    }
}

/// The error, if any, about the number of main anchors.
pub open spec fn main_count_errors(items: Seq<(TopLevel, Span)>, lines: Seq<Seq<char>>) -> Seq<DiagnosticV> {
    let n = main_count(items);
    if n == 0 {
        seq![
            diagnostic(
                "E018"@,
                Severity::Error,
                "Missing @...(main) anchor"@,
                "Add a top-level main anchor, e.g. @main(main)"@,
                first_item_span(items),
                lines,
            ),
        ]
    } else if n > 1 {
        seq![
            diagnostic(
                "E019"@,
                Severity::Error,
                "Multiple main anchors found ("@ + dec(n) + ")"@,
                "Keep exactly one top-level @...(main) anchor"@,
                first_item_span(items),
                lines,
            ),
        ]
    } else {
        Seq::empty()
    }
}

/// Where the analyzer points after the main-anchor checks.
pub open spec fn span_after_main_checks(items: Seq<(TopLevel, Span)>, span: Span) -> Span {
    if main_count(items) != 1 {
        first_item_span(items)
    } else {
        span
    }
}

impl Analyzer {
    /// Checks that the program has exactly one main anchor, under any
    /// name: an error if there is none or more than one.
    pub fn check_main_anchors(&mut self, items: &Vec<(TopLevel, Span)>)
        requires
            old(self).wf(),
        ensures
            final(self).wf(),
            final(self).reported() == old(self).reported() + main_count_errors(items@, old(self).lines()),
            final(self).span() == span_after_main_checks(items@, old(self).span()),
            final(self).same_tables(*old(self)),
    {
        let mut main_count_: usize = 0;
        let mut k: usize = 0;
        while k < items.len()
            invariant
                k <= items@.len(),
                main_count_ == main_count(items@.take(k as int)),
                main_count_ <= k,
                *self == *old(self),
                old(self).wf(),
            decreases items@.len() - k,
        {
            proof {
                assert(items@.take(k + 1).drop_last() =~= items@.take(k as int));
                assert(items@.take(k + 1).last() == items@[k as int]);
            }
            match &items[k].0 {
                TopLevel::Anchor { kind: AnchorKind::Main, .. } => {
                    main_count_ = main_count_ + 1;
                },
                _ => {},
            }
            k = k + 1;
        }
        proof {
            assert(items@.take(items@.len() as int) =~= items@);
        }
        let first = if items.len() > 0 {
            items[0].1
        } else {
            Span { line: 1, col: 0 }
        };
        if main_count_ == 0 {
            self.set_span(first);
            self.err(
                "E018",
                "Missing @...(main) anchor".to_owned(),
                "Add a top-level main anchor, e.g. @main(main)".to_owned(),
            );
        } else if main_count_ > 1 {
            self.set_span(first);
            let mut msg: Vec<char> = Vec::new();
            push_str(&mut msg, "Multiple main anchors found (");
            push_decimal(&mut msg, main_count_ as u128);
            push_str(&mut msg, ")");
            proof {
                assert(msg@ =~= "Multiple main anchors found ("@ + dec(main_count_ as nat) + ")"@);
            }
            self.err(
                "E019",
                string_of(msg.as_slice()),
                "Keep exactly one top-level @...(main) anchor".to_owned(),
            );
        }
        proof {
            assert(self.reported() =~= old(self).reported() + main_count_errors(items@, self.lines()));
        }
    }
}

// ───────────────────────── declarations ─────────────────────────

/// A signature as types: parameter types and return type.
pub type SigV = (Seq<TyV>, Option<TyV>);

/// An optional type as its view.
pub open spec fn opt_ty(o: Option<Ty>) -> Option<TyV> {
    match o {
        Some(t) => Some(t@),
        None => None,
    }
}

/// The signature that a parameter list and return type make.
pub open spec fn sig_of(params: Seq<Param>, ret: Option<Ty>) -> SigV {
    (param_tys_view(params), opt_ty(ret))
}

/// A struct's fields as (name, type) pairs.
pub open spec fn fields_view(fs: Seq<StructField>) -> Seq<(Seq<char>, TyV)> {
    fs.map_values(|f: StructField| (f.name@, f.ty@))
}

/// An enum's variants as (name, payload type) pairs.
pub open spec fn variants_view(vs: Seq<EnumVariant>) -> Seq<(Seq<char>, Option<TyV>)> {
    vs.map_values(|v: EnumVariant| (v.name@, opt_ty(v.ty)))
}

/// The declarations the analyzer knows of, each table a list of names with
/// a parallel list of what they declare.
#[verifier::ext_equal]
pub struct DeclsV {
    pub fn_names: Seq<Seq<char>>,
    pub fn_sigs: Seq<SigV>,
    pub struct_names: Seq<Seq<char>>,
    pub struct_fields: Seq<Seq<(Seq<char>, TyV)>>,
    pub enum_names: Seq<Seq<char>>,
    pub enum_variants: Seq<Seq<(Seq<char>, Option<TyV>)>>,
    pub modules: Seq<Seq<char>>,
    pub consts: ScopeMap,
}

/// The field types of each struct in `d`.
pub open spec fn field_tys(d: DeclsV) -> Seq<Seq<TyV>> {
    d.struct_fields.map_values(|fs: Seq<(Seq<char>, TyV)>| fs.map_values(|p: (Seq<char>, TyV)| p.1))
}

/// `names`/`vals` with `k` set to `v`: in place where `k` already is, else
/// at the end.
pub open spec fn put_names<V>(names: Seq<Seq<char>>, vals: Seq<V>, k: Seq<char>, v: V) -> Seq<Seq<char>> {
    match first_index(names, k) {
        Some(_) => names,
        None => names.push(k),
    }
}

/// The values that go with `put_names`.
pub open spec fn put_vals<V>(names: Seq<Seq<char>>, vals: Seq<V>, k: Seq<char>, v: V) -> Seq<V> {
    match first_index(names, k) {
        Some(i) => vals.update(i, v),
        None => vals.push(v),
    }
}

/// The type a top-level constant gets: its declared type, or for `auto` the
/// type of its literal (`int` for anything else).
pub open spec fn const_ty(ty: TyV, value: Expr) -> TyV {
    if ty == TyV::Auto {
        match value {
            Expr::IntLit(_) => TyV::Int,
            Expr::FloatLit(_) => TyV::Float,
            Expr::StringLit(_) => TyV::String,
            Expr::Bool(_) => TyV::Bool,
            _ => TyV::Int,
        }
    } else {
        ty
    }
}

/// `d` with functions `items` entered under `prefix` + their name, each in
/// place of an earlier one of that name.
pub open spec fn put_fns(d: DeclsV, prefix: Seq<char>, items: Seq<(TopLevel, Span)>) -> DeclsV
    decreases items.len(),
{
    if items.len() == 0 {
        d
    } else {
        let d0 = put_fns(d, prefix, items.drop_last());
        match items.last().0 {
            TopLevel::Function { name, params, return_ty, .. } => {
                let k = prefix + name@;
                let v = sig_of(params@, return_ty);
                DeclsV {
                    fn_names: put_names(d0.fn_names, d0.fn_sigs, k, v),
                    fn_sigs: put_vals(d0.fn_names, d0.fn_sigs, k, v),
                    ..d0
                }
            },
            _ => d0,
        }
    }
}

/// The error for a second declaration of `name`, a `what`.
pub open spec fn duplicate_error(code: Seq<char>, what: Seq<char>, name: Seq<char>, span: Span, lines: Seq<Seq<char>>) -> DiagnosticV {
    diagnostic(
        code,
        Severity::Error,
        "Duplicate "@ + what + " '"@ + name + "'"@,
        "Remove or rename one of the '"@ + name + "' definitions"@,
        span,
        lines,
    )
}

/// What entering item `t` at `span` does: the declarations after it, the
/// diagnostics, and whether the analyzer now points at `span`.
pub open spec fn declare_item(d: DeclsV, t: TopLevel, span: Span, lines: Seq<Seq<char>>) -> (DeclsV, Seq<DiagnosticV>, bool) {
    match t {
        TopLevel::Struct { name, fields } => if first_index(d.struct_names, name@) is Some {
            (d, seq![duplicate_error("E025"@, "struct"@, name@, span, lines)], true)
        } else {
            (
                DeclsV {
                    struct_names: d.struct_names.push(name@),
                    struct_fields: d.struct_fields.push(fields_view(fields@)),
                    ..d
                },
                Seq::empty(),
                false,
            )
        },
        TopLevel::Enum { name, variants } => if first_index(d.enum_names, name@) is Some {
            (d, seq![duplicate_error("E025"@, "enum"@, name@, span, lines)], true)
        } else {
            (
                DeclsV {
                    enum_names: d.enum_names.push(name@),
                    enum_variants: d.enum_variants.push(variants_view(variants@)),
                    ..d
                },
                Seq::empty(),
                false,
            )
        },
        TopLevel::Function { name, params, return_ty, .. } => if first_index(d.fn_names, name@) is Some {
            (d, seq![duplicate_error("E001"@, "function"@, name@, span, lines)], true)
        } else {
            (
                DeclsV {
                    fn_names: d.fn_names.push(name@),
                    fn_sigs: d.fn_sigs.push(sig_of(params@, return_ty)),
                    ..d
                },
                Seq::empty(),
                false,
            )
        },
        TopLevel::Impl { trait_name, target_ty, methods } => (
            put_fns(d, trait_name@ + "_"@ + target_ty@ + "_"@, methods@),
            Seq::empty(),
            false,
        ),
        TopLevel::Module { name, items } => (
            put_fns(
                DeclsV {
                    modules: if first_index(d.modules, name@) is Some {
                        d.modules
                    } else {
                        d.modules.push(name@)
                    },
                    ..d
                },
                name@ + "_"@,
                items@,
            ),
            Seq::empty(),
            false,
        ),
        TopLevel::ConstDecl { ty, name, value } => (
            DeclsV { consts: d.consts.insert(name@, (const_ty(ty@, value), false)), ..d },
            Seq::empty(),
            false,
        ),
        _ => (d, Seq::empty(), false),
    }
}

/// Entering `items` in order from `d`, with the analyzer at `span`: the
/// declarations, the diagnostics, and where the analyzer points after.
pub open spec fn declare_items(d: DeclsV, items: Seq<(TopLevel, Span)>, span: Span, lines: Seq<Seq<char>>) -> (DeclsV, Seq<DiagnosticV>, Span)
    decreases items.len(),
{
    if items.len() == 0 {
        (d, Seq::empty(), span)
    } else {
        let (d0, r0, s0) = declare_items(d, items.drop_last(), span, lines);
        let (d1, r1, moved) = declare_item(d0, items.last().0, items.last().1, lines);
        (d1, r0 + r1, if moved {
            items.last().1
        } else {
            s0
        })
    }
}

/// A copy of a struct's fields.
fn copy_fields(fs: &Vec<StructField>) -> (r: Vec<StructField>)
    ensures
        fields_view(r@) == fields_view(fs@),
{
    let mut out: Vec<StructField> = Vec::new();
    let mut i: usize = 0;
    while i < fs.len()
        invariant
            i <= fs@.len(),
            fields_view(out@) == fields_view(fs@.take(i as int)),
        decreases fs@.len() - i,
    {
        let ghost o = out@;
        let f = StructField { ty: fs[i].ty.clone(), name: fs[i].name.clone() };
        out.push(f);
        proof {
            assert(fields_view(out@) =~= fields_view(o).push((fs@[i as int].name@, fs@[i as int].ty@)));
            assert(fs@.take(i + 1).drop_last() =~= fs@.take(i as int));
            assert(fields_view(out@) =~= fields_view(fs@.take(i + 1)));
        }
        i = i + 1;
    }
    proof {
        assert(fs@.take(fs@.len() as int) =~= fs@);
    }
    out
}

/// A copy of an enum's variants.
fn copy_variants(vs: &Vec<EnumVariant>) -> (r: Vec<EnumVariant>)
    ensures
        variants_view(r@) == variants_view(vs@),
{
    let mut out: Vec<EnumVariant> = Vec::new();
    let mut i: usize = 0;
    while i < vs.len()
        invariant
            i <= vs@.len(),
            variants_view(out@) == variants_view(vs@.take(i as int)),
        decreases vs@.len() - i,
    {
        let ty = match &vs[i].ty {
            Some(t) => Some(t.clone()),
            None => None,
        };
        let ghost o = out@;
        out.push(EnumVariant { name: vs[i].name.clone(), ty });
        proof {
            assert(variants_view(out@) =~= variants_view(o).push((vs@[i as int].name@, opt_ty(vs@[i as int].ty))));
            assert(vs@.take(i + 1).drop_last() =~= vs@.take(i as int));
            assert(variants_view(out@) =~= variants_view(vs@.take(i + 1)));
        }
        i = i + 1;
    }
    proof {
        assert(vs@.take(vs@.len() as int) =~= vs@);
    }
    out
}

/// The signature of a function with these parameters and return type.
fn sig_from(params: &Vec<Param>, return_ty: &Option<Ty>) -> (r: FnSig)
    ensures
        r@ == sig_of(params@, *return_ty),
{
    let mut tys: Vec<Ty> = Vec::new();
    let mut i: usize = 0;
    while i < params.len()
        invariant
            i <= params@.len(),
            tys@.map_values(|t: Ty| t@) == param_tys_view(params@.take(i as int)),
        decreases params@.len() - i,
    {
        let ghost o = tys@;
        tys.push(params[i].ty.clone());
        proof {
            assert(tys@.map_values(|t: Ty| t@) =~= o.map_values(|t: Ty| t@).push(params@[i as int].ty@));
            assert(params@.take(i + 1).drop_last() =~= params@.take(i as int));
            assert(tys@.map_values(|t: Ty| t@) =~= param_tys_view(params@.take(i + 1)));
        }
        i = i + 1;
    }
    proof {
        assert(params@.take(params@.len() as int) =~= params@);
    }
    let ret = match return_ty {
        Some(t) => Some(t.clone()),
        None => None,
    };
    FnSig { params: tys, return_ty: ret }
}

/// `a` followed by `b`.
fn joined(a: &[char], b: &str) -> (r: String)
    ensures
        r@ == a@ + b@,
{
    let mut v: Vec<char> = Vec::new();
    push_all(&mut v, a);
    push_str(&mut v, b);
    string_of(v.as_slice())
}

impl Analyzer {
    /// Enters function `name` with signature `sig`, in place of an earlier
    /// one of that name.
    fn put_fn(&mut self, name: String, sig: FnSig)
        requires
            old(self).wf(),
        ensures
            final(self).wf(),
            final(self).decls() == (DeclsV {
                fn_names: put_names(old(self).decls().fn_names, old(self).decls().fn_sigs, name@, sig@),
                fn_sigs: put_vals(old(self).decls().fn_names, old(self).decls().fn_sigs, name@, sig@),
                ..old(self).decls()
            }),
            final(self).reported() == old(self).reported(),
            final(self).span() == old(self).span(),
            final(self).lines() == old(self).lines(),
            final(self).settings() == old(self).settings(),
    {
        let ghost d0 = self.decls();
        proof {
            assert(names_view(self.fn_names@) == d0.fn_names);
        }
        match position(self.fn_names.as_slice(), &name) {
            Some(i) => {
                proof {
                    lemma_first_index(names_view(self.fn_names@), name@);
                }
                self.fn_sigs.set(i, sig);
            },
            None => {
                self.fn_names.push(name);
                self.fn_sigs.push(sig);
            },
        }
        proof {
            assert(self.decls().fn_names =~= put_names(d0.fn_names, d0.fn_sigs, name@, sig@));
            assert(self.decls().fn_sigs =~= put_vals(d0.fn_names, d0.fn_sigs, name@, sig@));
            assert(self.decls() =~= (DeclsV {
                fn_names: put_names(d0.fn_names, d0.fn_sigs, name@, sig@),
                fn_sigs: put_vals(d0.fn_names, d0.fn_sigs, name@, sig@),
                ..d0
            }));
        }
    }

    /// Enters the functions among `items` under `prefix` + their name.
    fn put_fns(&mut self, prefix: &[char], items: &Vec<(TopLevel, Span)>)
        requires
            old(self).wf(),
        ensures
            final(self).wf(),
            final(self).decls() == put_fns(old(self).decls(), prefix@, items@),
            final(self).reported() == old(self).reported(),
            final(self).span() == old(self).span(),
            final(self).lines() == old(self).lines(),
            final(self).settings() == old(self).settings(),
    {
        let mut k: usize = 0;
        while k < items.len()
            invariant
                self.wf(),
                k <= items@.len(),
                self.decls() == put_fns(old(self).decls(), prefix@, items@.take(k as int)),
                self.reported() == old(self).reported(),
                self.span() == old(self).span(),
                self.lines() == old(self).lines(),
                self.settings() == old(self).settings(),
            decreases items@.len() - k,
        {
            proof {
                assert(items@.take(k + 1).drop_last() =~= items@.take(k as int));
                assert(items@.take(k + 1).last() == items@[k as int]);
            }
            match &items[k].0 {
                TopLevel::Function { name, params, return_ty, .. } => {
                    let full = joined(prefix, name.as_str());
                    let sig = sig_from(params, return_ty);
                    self.put_fn(full, sig);
                },
                _ => {},
            }
            k = k + 1;
        }
        proof {
            assert(items@.take(items@.len() as int) =~= items@);
        }
    }
}

impl Analyzer {
    /// Reports a second declaration of `name`, a `what`, at `span`.
    fn err_duplicate(&mut self, code: &'static str, what: &str, name: &String, span: Span)
        requires
            old(self).wf(),
        ensures
            final(self).wf(),
            final(self).reported() == old(self).reported().push(
                duplicate_error(code@, what@, name@, span, old(self).lines()),
            ),
            final(self).decls() == old(self).decls(),
            final(self).span() == span,
            final(self).lines() == old(self).lines(),
            final(self).settings() == old(self).settings(),
    {
        self.set_span(span);
        let mut msg: Vec<char> = Vec::new();
        push_str(&mut msg, "Duplicate ");
        push_str(&mut msg, what);
        push_str(&mut msg, " '");
        push_str(&mut msg, name.as_str());
        push_str(&mut msg, "'");
        let mut hint: Vec<char> = Vec::new();
        push_str(&mut hint, "Remove or rename one of the '");
        push_str(&mut hint, name.as_str());
        push_str(&mut hint, "' definitions");
        proof {
            assert(msg@ =~= "Duplicate "@ + what@ + " '"@ + name@ + "'"@);
            assert(hint@ =~= "Remove or rename one of the '"@ + name@ + "' definitions"@);
        }
        self.err(code, string_of(msg.as_slice()), string_of(hint.as_slice()));
    }

    /// Enters one top-level item at `span` (see `declare_item`).
    fn declare_one(&mut self, item: &TopLevel, span: Span)
        requires
            old(self).wf(),
        ensures
            final(self).wf(),
            final(self).decls() == declare_item(old(self).decls(), *item, span, old(self).lines()).0,
            final(self).reported() == old(self).reported() + declare_item(
                old(self).decls(),
                *item,
                span,
                old(self).lines(),
            ).1,
            final(self).span() == if declare_item(old(self).decls(), *item, span, old(self).lines()).2 {
                span
            } else {
                old(self).span()
            },
            final(self).lines() == old(self).lines(),
            final(self).settings() == old(self).settings(),
    {
        let ghost d0 = self.decls();
        match item {
            TopLevel::Struct { name, fields } => {
                match position(self.struct_names.as_slice(), name) {
                    Some(_) => {
                        self.err_duplicate("E025", "struct", name, span);
                        proof {
                            assert(self.reported() =~= old(self).reported() + seq![
                                duplicate_error("E025"@, "struct"@, name@, span, old(self).lines()),
                            ]);
                        }
                    },
                    None => {
                        self.struct_names.push(name.clone());
                        self.struct_fields.push(copy_fields(fields));
                        proof {
                            assert(self.decls().struct_names =~= d0.struct_names.push(name@));
                            assert(self.decls().struct_fields =~= d0.struct_fields.push(fields_view(fields@)));
                            assert(self.decls() =~= declare_item(d0, *item, span, old(self).lines()).0);
                            assert(self.reported() =~= old(self).reported() + Seq::<DiagnosticV>::empty());
                        }
                    },
                }
            },
            TopLevel::Enum { name, variants } => {
                match position(self.enum_names.as_slice(), name) {
                    Some(_) => {
                        self.err_duplicate("E025", "enum", name, span);
                        proof {
                            assert(self.reported() =~= old(self).reported() + seq![
                                duplicate_error("E025"@, "enum"@, name@, span, old(self).lines()),
                            ]);
                        }
                    },
                    None => {
                        self.enum_names.push(name.clone());
                        self.enum_variants.push(copy_variants(variants));
                        proof {
                            assert(self.decls().enum_names =~= d0.enum_names.push(name@));
                            assert(self.decls().enum_variants =~= d0.enum_variants.push(
                                variants_view(variants@),
                            ));
                            assert(self.decls() =~= declare_item(d0, *item, span, old(self).lines()).0);
                            assert(self.reported() =~= old(self).reported() + Seq::<DiagnosticV>::empty());
                        }
                    },
                }
            },
            TopLevel::Function { name, params, return_ty, .. } => {
                match position(self.fn_names.as_slice(), name) {
                    Some(_) => {
                        self.err_duplicate("E001", "function", name, span);
                        proof {
                            assert(self.reported() =~= old(self).reported() + seq![
                                duplicate_error("E001"@, "function"@, name@, span, old(self).lines()),
                            ]);
                        }
                    },
                    None => {
                        self.fn_names.push(name.clone());
                        self.fn_sigs.push(sig_from(params, return_ty));
                        proof {
                            assert(self.decls().fn_names =~= d0.fn_names.push(name@));
                            assert(self.decls().fn_sigs =~= d0.fn_sigs.push(sig_of(params@, *return_ty)));
                            assert(self.decls() =~= declare_item(d0, *item, span, old(self).lines()).0);
                            assert(self.reported() =~= old(self).reported() + Seq::<DiagnosticV>::empty());
                        }
                    },
                }
            },
            TopLevel::Impl { trait_name, target_ty, methods } => {
                let mut prefix: Vec<char> = Vec::new();
                push_str(&mut prefix, trait_name.as_str());
                push_str(&mut prefix, "_");
                push_str(&mut prefix, target_ty.as_str());
                push_str(&mut prefix, "_");
                self.put_fns(prefix.as_slice(), methods);
                proof {
                    assert(prefix@ =~= trait_name@ + "_"@ + target_ty@ + "_"@);
                    assert(self.reported() =~= old(self).reported() + Seq::<DiagnosticV>::empty());
                }
            },
            TopLevel::Module { name, items } => {
                match position(self.module_names.as_slice(), name) {
                    Some(_) => {},
                    None => {
                        self.module_names.push(name.clone());
                    },
                }
                let ghost d1 = self.decls();
                proof {
                    assert(d1 =~= (DeclsV {
                        modules: if first_index(d0.modules, name@) is Some {
                            d0.modules
                        } else {
                            d0.modules.push(name@)
                        },
                        ..d0
                    }));
                }
                let mut prefix: Vec<char> = Vec::new();
                push_str(&mut prefix, name.as_str());
                push_str(&mut prefix, "_");
                self.put_fns(prefix.as_slice(), items);
                proof {
                    assert(prefix@ =~= name@ + "_"@);
                    assert(self.reported() =~= old(self).reported() + Seq::<DiagnosticV>::empty());
                }
            },
            TopLevel::ConstDecl { ty, name, value } => {
                let effective = match ty {
                    Ty::Auto => match value {
                        Expr::IntLit(_) => Ty::Int,
                        Expr::FloatLit(_) => Ty::Float,
                        Expr::StringLit(_) => Ty::String,
                        Expr::Bool(_) => Ty::Bool,
                        _ => Ty::Int,
                    },
                    _ => ty.clone(),
                };
                self.global_consts.insert(name.clone(), VarInfo { ty: effective, is_vault: false });
                proof {
                    assert(self.decls() =~= declare_item(d0, *item, span, old(self).lines()).0);
                    assert(self.reported() =~= old(self).reported() + Seq::<DiagnosticV>::empty());
                }
            },
            _ => {
                proof {
                    assert(self.reported() =~= old(self).reported() + Seq::<DiagnosticV>::empty());
                }
            },
        }
    }

    /// Enters the program's top-level declarations in order: structs, enums
    /// and functions (a second one of a name is an error and is not
    /// entered), the methods of `impl` blocks as `Trait_Type_method`, the
    /// functions of modules as `module_function`, and top-level constants.
    pub fn collect_declarations(&mut self, items: &Vec<(TopLevel, Span)>)
        requires
            old(self).wf(),
        ensures
            final(self).wf(),
            final(self).decls() == declare_items(old(self).decls(), items@, old(self).span(), old(self).lines()).0,
            final(self).reported() == old(self).reported() + declare_items(
                old(self).decls(),
                items@,
                old(self).span(),
                old(self).lines(),
            ).1,
            final(self).span() == declare_items(old(self).decls(), items@, old(self).span(), old(self).lines()).2,
            final(self).lines() == old(self).lines(),
            final(self).settings() == old(self).settings(),
    {
        let ghost lines = self.lines();
        let ghost d0 = self.decls();
        let ghost s0 = self.span();
        let mut k: usize = 0;
        while k < items.len()
            invariant
                self.wf(),
                k <= items@.len(),
                lines == self.lines(),
                lines == old(self).lines(),
                d0 == old(self).decls(),
                s0 == old(self).span(),
                self.settings() == old(self).settings(),
                self.decls() == declare_items(d0, items@.take(k as int), s0, lines).0,
                self.reported() == old(self).reported() + declare_items(d0, items@.take(k as int), s0, lines).1,
                self.span() == declare_items(d0, items@.take(k as int), s0, lines).2,
            decreases items@.len() - k,
        {
            proof {
                assert(items@.take(k + 1).drop_last() =~= items@.take(k as int));
                assert(items@.take(k + 1).last() == items@[k as int]);
            }
            let ghost before = self.reported();
            self.declare_one(&items[k].0, items[k].1);
            proof {
                let pre = declare_items(d0, items@.take(k as int), s0, lines);
                let step = declare_item(pre.0, items@[k as int].0, items@[k as int].1, lines);
                assert(self.reported() =~= old(self).reported() + (pre.1 + step.1));
            }
            k = k + 1;
        }
        proof {
            assert(items@.take(items@.len() as int) =~= items@);
        }
    }
}

/// The error for a struct `name` that contains itself.
pub open spec fn cycle_error(name: Seq<char>, span: Span, lines: Seq<Seq<char>>) -> DiagnosticV {
    diagnostic(
        "E034"@,
        Severity::Error,
        "Circular reference detected in struct '"@ + name + "'"@,
        "Use a pointer/Vault or break the cycle"@,
        span,
        lines,
    )
}

/// Whether `t` declares a struct from which a cycle of struct-typed fields
/// is reachable.
pub open spec fn circular(t: TopLevel, names: Seq<Seq<char>>, fields: Seq<Seq<TyV>>) -> bool {
    match t {
        TopLevel::Struct { name, .. } => cycle_from(names, fields, name@, Set::empty()),
        _ => false,
    }
}

/// The errors for the circular structs among `items`, in order.
pub open spec fn cycle_errors(
    items: Seq<(TopLevel, Span)>,
    names: Seq<Seq<char>>,
    fields: Seq<Seq<TyV>>,
    lines: Seq<Seq<char>>,
) -> Seq<DiagnosticV>
    decreases items.len(),
{
    if items.len() == 0 {
        Seq::empty()
    } else {
        cycle_errors(items.drop_last(), names, fields, lines) + match items.last().0 {
            TopLevel::Struct { name, .. } => if cycle_from(names, fields, name@, Set::empty()) {
                seq![cycle_error(name@, items.last().1, lines)]
            } else {
                Seq::empty()
            },
            _ => Seq::empty(),
        }
    }
}

/// Where the analyzer points after the cycle checks: the last circular
/// struct, else `span`.
pub open spec fn last_cycle_span(
    items: Seq<(TopLevel, Span)>,
    names: Seq<Seq<char>>,
    fields: Seq<Seq<TyV>>,
    span: Span,
) -> Span
    decreases items.len(),
{
    if items.len() == 0 {
        span
    } else if circular(items.last().0, names, fields) {
        items.last().1
    } else {
        last_cycle_span(items.drop_last(), names, fields, span)
    }
}

impl Analyzer {
    /// Reports each struct among `items` from which a cycle of struct-typed
    /// fields can be reached.
    pub fn check_struct_cycles(&mut self, items: &Vec<(TopLevel, Span)>)
        requires
            old(self).wf(),
        ensures
            final(self).wf(),
            final(self).reported() == old(self).reported() + cycle_errors(
                items@,
                old(self).struct_names_seq(),
                old(self).struct_field_tys(),
                old(self).lines(),
            ),
            final(self).span() == last_cycle_span(
                items@,
                old(self).struct_names_seq(),
                old(self).struct_field_tys(),
                old(self).span(),
            ),
            final(self).decls() == old(self).decls(),
            final(self).lines() == old(self).lines(),
            final(self).settings() == old(self).settings(),
    {
        let ghost names = self.struct_names_seq();
        let ghost fields = self.struct_field_tys();
        let ghost lines = self.lines();
        let mut k: usize = 0;
        while k < items.len()
            invariant
                self.wf(),
                k <= items@.len(),
                names == self.struct_names_seq(),
                fields == self.struct_field_tys(),
                names == old(self).struct_names_seq(),
                fields == old(self).struct_field_tys(),
                lines == self.lines(),
                lines == old(self).lines(),
                self.decls() == old(self).decls(),
                self.settings() == old(self).settings(),
                self.reported() == old(self).reported() + cycle_errors(items@.take(k as int), names, fields, lines),
                self.span() == last_cycle_span(items@.take(k as int), names, fields, old(self).span()),
            decreases items@.len() - k,
        {
            let ghost pre = items@.take(k as int);
            let ghost cur = items@.take(k + 1);
            proof {
                assert(cur.drop_last() =~= pre);
                assert(cur.last() == items@[k as int]);
            }
            match &items[k].0 {
                TopLevel::Struct { name, .. } => {
                    let mut visiting: Vec<String> = Vec::new();
                    proof {
                        assert(texts(visiting@).to_set() =~= Set::<Seq<char>>::empty());
                    }
                    if self.check_circular_struct(name.as_str(), &mut visiting) {
                        self.set_span(items[k].1);
                        let mut msg: Vec<char> = Vec::new();
                        push_str(&mut msg, "Circular reference detected in struct '");
                        push_str(&mut msg, name.as_str());
                        push_str(&mut msg, "'");
                        proof {
                            assert(msg@ =~= "Circular reference detected in struct '"@ + name@ + "'"@);
                        }
                        self.err(
                            "E034",
                            string_of(msg.as_slice()),
                            "Use a pointer/Vault or break the cycle".to_owned(),
                        );
                        proof {
                            assert(self.reported() =~= old(self).reported() + cycle_errors(cur, names, fields, lines));
                        }
                    } else {
                        proof {
                            assert(cycle_errors(cur, names, fields, lines) =~= cycle_errors(pre, names, fields, lines));
                        }
                    }
                },
                _ => {
                    proof {
                        assert(cycle_errors(cur, names, fields, lines) =~= cycle_errors(pre, names, fields, lines));
                    }
                },
            }
            k = k + 1;
        }
        proof {
            assert(items@.take(items@.len() as int) =~= items@);
        }
    }
}

/// What the checks on declarations do to an analyzer in state `d`, at
/// `span`: the declarations after, the diagnostics, and where it points.
pub open spec fn declaration_checks(d: DeclsV, items: Seq<(TopLevel, Span)>, span: Span, lines: Seq<Seq<char>>) -> (DeclsV, Seq<DiagnosticV>, Span) {
    let s1 = span_after_main_checks(items, span);
    let r1 = main_count_errors(items, lines);
    let (d2, r2, s2) = declare_items(d, items, s1, lines);
    (
        d2,
        r1 + r2 + cycle_errors(items, d2.struct_names, field_tys(d2), lines),
        last_cycle_span(items, d2.struct_names, field_tys(d2), s2),
    )
}

impl Analyzer {
    /// The checks on the program's top-level declarations: its main anchor,
    /// the entering of its declarations (with duplicates reported), and its
    /// circular structs.
    pub fn check_declarations(&mut self, program: &Program)
        requires
            old(self).wf(),
        ensures
            final(self).wf(),
            final(self).decls() == declaration_checks(old(self).decls(), program.items@, old(self).span(), old(self).lines()).0,
            final(self).reported() == old(self).reported() + declaration_checks(
                old(self).decls(),
                program.items@,
                old(self).span(),
                old(self).lines(),
            ).1,
            final(self).span() == declaration_checks(old(self).decls(), program.items@, old(self).span(), old(self).lines()).2,
            final(self).lines() == old(self).lines(),
            final(self).settings() == old(self).settings(),
    {
        self.check_main_anchors(&program.items);
        proof {
            old(self).lemma_struct_tables();
        }
        self.collect_declarations(&program.items);
        proof {
            self.lemma_struct_tables();
        }
        self.check_struct_cycles(&program.items);
        proof {
            let items = program.items@;
            let lines = old(self).lines();
            let r1 = main_count_errors(items, lines);
            let s1 = span_after_main_checks(items, old(self).span());
            let (d2, r2, s2) = declare_items(old(self).decls(), items, s1, lines);
            assert(self.reported() =~= old(self).reported() + (r1 + r2 + cycle_errors(
                items,
                d2.struct_names,
                field_tys(d2),
                lines,
            )));
        }
    }
}

} // verus!
