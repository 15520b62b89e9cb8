//! The semantic checks of Kyte programs: the analyzer's state, how it
//! reports diagnostics, and the checks on declarations.
pub mod control_flow;
pub mod infer;
pub mod items;
pub mod scope;

use crate::ast::{AnchorKind, EnumVariant, Expr, FStringPart, Pattern, Program, Span, Stmt, StructField, TopLevel, Ty, TyV, UnaryOpKind, BinOpKind};
use crate::analyzer::items::declaration_checks;
use crate::numfmt::push_decimal;
use crate::shared::{is_integer_ty, is_numeric_ty, ty_eq, ty_name, types_compatible};
use crate::mono::{first_index, lemma_first_index_is, lemma_first_index_none, names_view};
use crate::analyzer::scope::{declare, declare_all, decl_of, lemma_undo_restores, log_view, ScopeMap};
use crate::diagnostics::{CompileError, DiagnosticV, Severity};
use crate::shared::{is_integer, nearest, nearest_name, ty_name_of};
use crate::text::{push_str, split_lines, string_of};
use crate::text;
use crate::analyzer::scope::Scope;
use crate::analyzer::items::{field_tys, fields_view, opt_ty, variants_view, DeclsV, SigV};
use vstd::prelude::*;

verus! {

/// Switches that change what the analyzer reports.
#[derive(Clone, Copy, Debug)]
pub struct AnalyzerConfig {
    /// Report every warning.
    pub wall: bool,
    /// Report warnings as errors.
    pub werror: bool,
    /// Do not report unused variables.
    pub no_unused: bool,
}

impl Default for AnalyzerConfig {
    fn default() -> (r: Self)
        ensures
            !r.wall && !r.werror && !r.no_unused,
    {
        AnalyzerConfig { wall: false, werror: false, no_unused: false }
    }
}

/// What a variable was declared as: its type and whether it is a vault.
pub struct VarInfo {
    pub ty: Ty,
    pub is_vault: bool,
}

impl View for VarInfo {
    type V = (TyV, bool);

    open spec fn view(&self) -> (TyV, bool) {
        (self.ty@, self.is_vault)
    }
}

impl Clone for VarInfo {
    fn clone(&self) -> (r: Self)
        ensures
            r@ == self@,
    {
        VarInfo { ty: self.ty.clone(), is_vault: self.is_vault }
    }
}

/// The signature of a function: its parameter types and return type.
pub struct FnSig {
    pub params: Vec<Ty>,
    pub return_ty: Option<Ty>,
}

impl View for FnSig {
    type V = SigV;

    open spec fn view(&self) -> SigV {
        (self.params@.map_values(|t: Ty| t@), opt_ty(self.return_ty))
    }
}

/// The analyzer: the diagnostics found so far, the declarations it knows of,
/// the source lines it quotes, and the position it is looking at.
pub struct Analyzer {
    errors: Vec<CompileError>,
    fn_names: Vec<String>,
    fn_sigs: Vec<FnSig>,
    struct_names: Vec<String>,
    struct_fields: Vec<Vec<StructField>>,
    enum_names: Vec<String>,
    enum_variants: Vec<Vec<EnumVariant>>,
    source_lines: Vec<String>,
    current_span: Span,
    config: AnalyzerConfig,
    global_consts: Scope,
    module_names: Vec<String>,
    used_vars: Vec<String>,
    in_anchor: bool,
}

/// The text of line `line` (counted from one) of `lines`; empty when there
/// is no such line. Line 0 is taken as line 1.
pub open spec fn line_text(lines: Seq<Seq<char>>, line: nat) -> Seq<char> {
    let i = if line == 0 {
        0
    } else {
        line - 1
    };
    if i < lines.len() {
        lines[i]
    } else {
        Seq::empty()
    }
}

/// The diagnostic that a report at `span` with these texts makes.
pub open spec fn diagnostic(
    code: Seq<char>,
    severity: Severity,
    message: Seq<char>,
    hint: Seq<char>,
    span: Span,
    lines: Seq<Seq<char>>,
) -> DiagnosticV {
    DiagnosticV {
        code,
        severity,
        message,
        hint,
        span,
        source_line: line_text(lines, span.line as nat),
    }
}

/// The hint for an undeclared variable `name`: the closest name in scope,
/// or how to declare it.
pub open spec fn undeclared_var_hint(name: Seq<char>, in_scope: Seq<Seq<char>>) -> Seq<char> {
    match nearest(name, in_scope) {
        Some(s) => "Did you mean '"@ + s + "' ?"@,
        None => "Declare '"@ + name + "' before use, e.g. int "@ + name + " = ...;"@,
    }
}

/// The hint for an undeclared function `name`: the closest function name,
/// or how to define it.
pub open spec fn undeclared_fn_hint(name: Seq<char>, fns: Seq<Seq<char>>) -> Seq<char> {
    match nearest(name, fns) {
        Some(s) => "Did you mean '"@ + s + "' ?"@,
        None => "Define '"@ + name + "' with fn "@ + name + "(...) { ... }"@,
    }
}

/// Whether every text in `names` is shorter than `usize::MAX`.
pub open spec fn all_short(names: Seq<Seq<char>>) -> bool {
    forall|i: int| 0 <= i < names.len() ==> #[trigger] names[i].len() < usize::MAX
}

/// Whether `as` converts a value of type `s` to type `t`: between the
/// numeric types (the integer types and `float`), from `bool` to an integer
/// type, or from an integer type to `bool`.
pub open spec fn cast_allowed(s: TyV, t: TyV) -> bool {
    ||| (is_integer(s) || s == TyV::Float) && (is_integer(t) || t == TyV::Float)
    ||| s == TyV::Bool && is_integer(t)
    ||| is_integer(s) && t == TyV::Bool
}

/// The message of a refused cast from `s` to `t`.
pub open spec fn cast_message(s: TyV, t: TyV) -> Seq<char> {
    "Cannot cast "@ + ty_name_of(s) + " to "@ + ty_name_of(t)
}

/// What checking a cast of a value of type `src` (`None`: not known) to `t`
/// reports at `span`: E021 when the type is known and the cast is not
/// allowed, nothing otherwise.
pub open spec fn cast_diags(src: Option<TyV>, t: TyV, span: Span, lines: Seq<Seq<char>>) -> Seq<DiagnosticV> {
    match src {
        Some(st) => if cast_allowed(st, t) {
            Seq::empty()
        } else {
            seq![diagnostic("E021"@, Severity::Error, cast_message(st, t), "Only numeric type conversions are allowed with 'as'"@, span, lines)]
        },
        None => Seq::empty(),
    }
}

/// Law: `as` never converts text, nor anything to text; it converts any
/// numeric type to any numeric type; `bool` converts to the integer types
/// but not to `float`, and the integer types (not `float`) to `bool`.
pub proof fn lemma_cast_rules(s: TyV, t: TyV)
    ensures
        s == TyV::String || t == TyV::String ==> !cast_allowed(s, t),
        (is_integer(s) || s == TyV::Float) && (is_integer(t) || t == TyV::Float) ==> cast_allowed(s, t),
        s == TyV::Bool ==> (cast_allowed(s, t) <==> is_integer(t)),
        t == TyV::Bool ==> (cast_allowed(s, t) <==> is_integer(s)),
        cast_allowed(s, t) ==> (is_integer(s) || s == TyV::Float || s == TyV::Bool) && (is_integer(t) || t
            == TyV::Float || t == TyV::Bool),
{
}

impl Analyzer {
    /// The diagnostics reported so far, in order.
    pub closed spec fn reported(&self) -> Seq<DiagnosticV> {
        self.errors@.map_values(|e: CompileError| e@)
    }

    /// The position the analyzer is looking at.
    pub closed spec fn span(&self) -> Span {
        self.current_span
    }

    /// The source lines that diagnostics quote.
    pub closed spec fn lines(&self) -> Seq<Seq<char>> {
        self.source_lines@.map_values(|s: String| s@)
    }

    /// The switches the analyzer runs with.
    pub closed spec fn settings(&self) -> AnalyzerConfig {
        self.config
    }

    /// The names of the functions the analyzer knows of, in the order they
    /// were declared.
    pub closed spec fn function_names(&self) -> Seq<Seq<char>> {
        self.fn_names@.map_values(|s: String| s@)
    }

    /// The names of the structs the analyzer knows of.
    pub closed spec fn struct_names_seq(&self) -> Seq<Seq<char>> {
        self.struct_names@.map_values(|s: String| s@)
    }

    /// The field types of each struct the analyzer knows of.
    pub closed spec fn struct_field_tys(&self) -> Seq<Seq<TyV>> {
        self.struct_fields@.map_values(|fs: Vec<StructField>| fs@.map_values(|f: StructField| f.ty@))
    }

    /// The declarations the analyzer knows of.
    pub closed spec fn decls(&self) -> DeclsV {
        DeclsV {
            fn_names: self.function_names(),
            fn_sigs: self.fn_sigs@.map_values(|s: FnSig| s@),
            struct_names: self.struct_names_seq(),
            struct_fields: self.struct_fields@.map_values(|fs: Vec<StructField>| fields_view(fs@)),
            enum_names: self.enum_names@.map_values(|s: String| s@),
            enum_variants: self.enum_variants@.map_values(|vs: Vec<EnumVariant>| variants_view(vs@)),
            modules: self.module_names@.map_values(|s: String| s@),
            consts: self.global_consts.map(),
        }
    }

    /// The struct tables in both forms agree.
    pub proof fn lemma_struct_tables(&self)
        ensures
            self.struct_names_seq() == self.decls().struct_names,
            self.struct_field_tys() == field_tys(self.decls()),
    {
        assert(self.struct_field_tys() =~= field_tys(self.decls())) by {
            assert forall|i: int| 0 <= i < self.struct_fields@.len() implies #[trigger] self.struct_field_tys()[i]
                =~= field_tys(self.decls())[i] by {}
        }
    }

    /// Whether everything but the diagnostics is as in `other`.
    pub closed spec fn same_state(&self, other: Analyzer) -> bool {
        &&& self.fn_names == other.fn_names
        &&& self.fn_sigs == other.fn_sigs
        &&& self.struct_names == other.struct_names
        &&& self.struct_fields == other.struct_fields
        &&& self.enum_names == other.enum_names
        &&& self.enum_variants == other.enum_variants
        &&& self.source_lines == other.source_lines
        &&& self.current_span == other.current_span
        &&& self.config == other.config
        &&& self.global_consts == other.global_consts
        &&& self.module_names == other.module_names
        &&& self.in_anchor == other.in_anchor
    }

    /// Whether the declarations, source lines and switches are as in
    /// `other`.
    pub closed spec fn same_tables(&self, other: Analyzer) -> bool {
        &&& self.fn_names == other.fn_names
        &&& self.fn_sigs == other.fn_sigs
        &&& self.struct_names == other.struct_names
        &&& self.struct_fields == other.struct_fields
        &&& self.enum_names == other.enum_names
        &&& self.enum_variants == other.enum_variants
        &&& self.source_lines == other.source_lines
        &&& self.config == other.config
        &&& self.global_consts == other.global_consts
        &&& self.module_names == other.module_names
    }

    /// The well-formedness of the analyzer's tables.
    pub closed spec fn wf(&self) -> bool {
        &&& self.fn_names@.len() == self.fn_sigs@.len()
        &&& self.struct_names@.len() == self.struct_fields@.len()
        &&& self.enum_names@.len() == self.enum_variants@.len()
        &&& self.global_consts.wf()
    }

    /// A fresh analyzer for `source`: no diagnostics, no declarations, at
    /// line 0.
    pub fn new(source: &str, config: AnalyzerConfig) -> (r: Self)
        ensures
            r.wf(),
            r.reported() == Seq::<DiagnosticV>::empty(),
            r.lines() == text::lines(source@),
            r.span() == (Span { line: 0, col: 0 }),
            r.settings() == config,
            r.function_names() == Seq::<Seq<char>>::empty(),
            r.decls() == (DeclsV {
                fn_names: Seq::empty(),
                fn_sigs: Seq::empty(),
                struct_names: Seq::empty(),
                struct_fields: Seq::empty(),
                enum_names: Seq::empty(),
                enum_variants: Seq::empty(),
                modules: Seq::empty(),
                consts: Map::empty(),
            }),
    {
        let source_lines = split_lines(source);
        let r = Analyzer {
            errors: Vec::new(),
            fn_names: Vec::new(),
            fn_sigs: Vec::new(),
            struct_names: Vec::new(),
            struct_fields: Vec::new(),
            enum_names: Vec::new(),
            enum_variants: Vec::new(),
            source_lines,
            current_span: Span { line: 0, col: 0 },
            config,
            global_consts: Scope::new(),
            module_names: Vec::new(),
            used_vars: Vec::new(),
            in_anchor: false,
        };
        proof {
            assert(r.reported() =~= Seq::<DiagnosticV>::empty());
            assert(r.function_names() =~= Seq::<Seq<char>>::empty());
            assert(r.decls().fn_sigs =~= Seq::<SigV>::empty());
            assert(r.decls().struct_names =~= Seq::<Seq<char>>::empty());
            assert(r.decls().struct_fields =~= Seq::<Seq<(Seq<char>, TyV)>>::empty());
            assert(r.decls().enum_names =~= Seq::<Seq<char>>::empty());
            assert(r.decls().enum_variants =~= Seq::<Seq<(Seq<char>, Option<TyV>)>>::empty());
            assert(r.decls().modules =~= Seq::<Seq<char>>::empty());
        }
        r
    }

    /// The diagnostics reported so far.
    pub fn errors(&self) -> (r: &[CompileError])
        ensures
            r@.map_values(|e: CompileError| e@) == self.reported(),
    {
        self.errors.as_slice()
    }

    /// Points the analyzer at `span`.
    pub fn set_span(&mut self, span: Span)
        ensures
            final(self).span() == span,
            final(self).reported() == old(self).reported(),
            final(self).lines() == old(self).lines(),
            final(self).settings() == old(self).settings(),
            final(self).function_names() == old(self).function_names(),
            final(self).wf() == old(self).wf(),
            final(self).same_tables(*old(self)),
            final(self).anchored() == old(self).anchored(),
    {
        self.current_span = span;
    }

    /// The text of the line the analyzer is looking at.
    fn current_line_text(&self) -> (r: String)
        ensures
            r@ == line_text(self.lines(), self.current_span.line as nat),
    {
        let line = self.current_span.line;
        let i = if line == 0 {
            0
        } else {
            line - 1
        };
        if i < self.source_lines.len() {
            let s = self.source_lines[i].clone();
            s
        } else {
            String::new()
        }
    }

    /// Records a diagnostic of the given severity at the current position.
    fn report(&mut self, code: &'static str, severity: Severity, msg: String, hint: String)
        ensures
            final(self).reported() == old(self).reported().push(
                diagnostic(code@, severity, msg@, hint@, old(self).span(), old(self).lines()),
            ),
            final(self).same_state(*old(self)),
    {
        let span = self.current_span;
        let source_line = self.current_line_text();
        let e = CompileError { code, severity, message: msg, hint, span, source_line };
        self.errors.push(e);
        proof {
            assert(self.reported() =~= old(self).reported().push(
                diagnostic(code@, severity, msg@, hint@, old(self).span(), old(self).lines()),
            ));
        }
    }

    /// Reports an error at the current position.
    pub fn err(&mut self, code: &'static str, msg: String, hint: String)
        ensures
            final(self).reported() == old(self).reported().push(
                diagnostic(code@, Severity::Error, msg@, hint@, old(self).span(), old(self).lines()),
            ),
            final(self).same_state(*old(self)),
    {
        self.report(code, Severity::Error, msg, hint);
    }

    /// Checks a cast of a value of type `src` (`None`: not known) to
    /// `target`: reports E021 at the current position when the type is known
    /// and the cast is neither between numeric types, nor from `bool` to an
    /// integer type, nor from an integer type to `bool`.
    fn check_cast(&mut self, src: &Option<Ty>, target_ty: &Ty)
        ensures
            final(self).reported() == old(self).reported() + cast_diags(opt_ty(*src), target_ty@, old(self).span(), old(self).lines()),
            final(self).same_state(*old(self)),
    {
        if let Some(st) = src {
            let valid = (is_numeric_ty(st) && is_numeric_ty(target_ty)) || (matches!(st, Ty::Bool) && is_integer_ty(target_ty)) || (is_integer_ty(st) && matches!(target_ty, Ty::Bool));
            if !valid {
                let mut v = text::chars_of("Cannot cast ");
                push_str(&mut v, ty_name(st).as_str());
                push_str(&mut v, " to ");
                push_str(&mut v, ty_name(target_ty).as_str());
                let msg = string_of(v.as_slice());
                proof {
                    assert(msg@ =~= cast_message(st@, target_ty@));
                }
                self.err("E021", msg, copy_text("Only numeric type conversions are allowed with 'as'"));
                proof {
                    assert(final(self).reported() =~= old(self).reported() + cast_diags(opt_ty(*src), target_ty@, old(self).span(), old(self).lines()));
                }
                return;
            }
        }
        proof {
            assert(self.reported() =~= old(self).reported() + cast_diags(opt_ty(*src), target_ty@, old(self).span(), old(self).lines()));
        }
    }

    /// Reports a warning at the current position; an error under `werror`.
    pub fn warn(&mut self, code: &'static str, msg: String, hint: String)
        ensures
            final(self).reported() == old(self).reported().push(
                diagnostic(
                    code@,
                    if old(self).settings().werror {
                        Severity::Error
                    } else {
                        Severity::Warning
                    },
                    msg@,
                    hint@,
                    old(self).span(),
                    old(self).lines(),
                ),
            ),
            final(self).same_state(*old(self)),
    {
        let severity = if self.config.werror {
            Severity::Error
        } else {
            Severity::Warning
        };
        self.report(code, severity, msg, hint);
    }

    /// Reports that variable `name` is not declared, with the closest name in
    /// `scope` as the hint when there is one.
    pub fn err_undeclared_var(&mut self, name: &str, scope: &Scope)
        requires
            scope.wf(),
            name@.len() < usize::MAX,
            all_short(scope.names_seq()),
        ensures
            final(self).reported() == old(self).reported().push(
                diagnostic(
                    "E004"@,
                    Severity::Error,
                    "Undeclared variable '"@ + name@ + "'"@,
                    undeclared_var_hint(name@, scope.names_seq()),
                    old(self).span(),
                    old(self).lines(),
                ),
            ),
            final(self).same_state(*old(self)),
    {
        let names = scope.names();
        proof {
            assert forall|i: int| 0 <= i < names@.len() implies #[trigger] names@[i]@.len()
                < usize::MAX by {
                assert(names@.map_values(|s: String| s@)[i] == names@[i]@);
            }
        }
        let found = nearest_name(name, names);
        let mut hint: Vec<char> = Vec::new();
        match found {
            Some(similar) => {
                push_str(&mut hint, "Did you mean '");
                push_str(&mut hint, similar.as_str());
                push_str(&mut hint, "' ?");
            },
            None => {
                push_str(&mut hint, "Declare '");
                push_str(&mut hint, name);
                push_str(&mut hint, "' before use, e.g. int ");
                push_str(&mut hint, name);
                push_str(&mut hint, " = ...;");
            },
        }
        let mut msg: Vec<char> = Vec::new();
        push_str(&mut msg, "Undeclared variable '");
        push_str(&mut msg, name);
        push_str(&mut msg, "'");
        proof {
            assert(hint@ =~= undeclared_var_hint(name@, scope.names_seq()));
            assert(msg@ =~= "Undeclared variable '"@ + name@ + "'"@);
        }
        self.err("E004", string_of(msg.as_slice()), string_of(hint.as_slice()));
    }

    /// Reports that function `name` is not declared, with the closest known
    /// function name as the hint when there is one.
    pub fn err_undeclared_fn(&mut self, name: &str)
        requires
            name@.len() < usize::MAX,
            all_short(old(self).function_names()),
        ensures
            final(self).reported() == old(self).reported().push(
                diagnostic(
                    "E013"@,
                    Severity::Error,
                    "Undeclared function '"@ + name@ + "'"@,
                    undeclared_fn_hint(name@, old(self).function_names()),
                    old(self).span(),
                    old(self).lines(),
                ),
            ),
            final(self).same_state(*old(self)),
    {
        proof {
            assert forall|i: int| 0 <= i < self.fn_names@.len() implies #[trigger] self.fn_names@[i]@.len()
                < usize::MAX by {
                assert(self.function_names()[i] == self.fn_names@[i]@);
            }
        }
        let found = nearest_name(name, self.fn_names.as_slice());
        let mut hint: Vec<char> = Vec::new();
        match found {
            Some(similar) => {
                push_str(&mut hint, "Did you mean '");
                push_str(&mut hint, similar.as_str());
                push_str(&mut hint, "' ?");
            },
            None => {
                push_str(&mut hint, "Define '");
                push_str(&mut hint, name);
                push_str(&mut hint, "' with fn ");
                push_str(&mut hint, name);
                push_str(&mut hint, "(...) { ... }");
            },
        }
        let mut msg: Vec<char> = Vec::new();
        push_str(&mut msg, "Undeclared function '");
        push_str(&mut msg, name);
        push_str(&mut msg, "'");
        proof {
            assert(hint@ =~= undeclared_fn_hint(name@, old(self).function_names()));
            assert(msg@ =~= "Undeclared function '"@ + name@ + "'"@);
        }
        self.err("E013", string_of(msg.as_slice()), string_of(hint.as_slice()));
    }
}


// ───────────────────────── bodies: types and statements ─────────────────────────

/// The signature of the first function named `n` in `d`.
pub open spec fn sig_named(d: DeclsV, n: Seq<char>) -> Option<SigV> {
    match first_index(d.fn_names, n) {
        Some(i) => Some(d.fn_sigs[i]),
        None => None,
    }
}

/// The fields of the first struct named `n` in `d`.
pub open spec fn struct_named(d: DeclsV, n: Seq<char>) -> Option<Seq<(Seq<char>, TyV)>> {
    match first_index(d.struct_names, n) {
        Some(i) => Some(d.struct_fields[i]),
        None => None,
    }
}

/// The type of the first field named `f` among `fs`.
pub open spec fn field_ty(fs: Seq<(Seq<char>, TyV)>, f: Seq<char>) -> Option<TyV> {
    match first_index(fs.map_values(|p: (Seq<char>, TyV)| p.0), f) {
        Some(i) => Some(fs[i].1),
        None => None,
    }
}

/// The type of an argument of a closure: as written, `auto` when none is.
pub open spec fn closure_param_ty(p: (String, Option<Ty>)) -> TyV {
    match p.1 {
        Some(t) => t@,
        None => TyV::Auto,
    }
}

/// The type of `e` with the declarations `d` and the variables `m` in
/// scope; none where it cannot be told (an undeclared name, a field or
/// method that is not there, an index into what is not an array, an empty
/// array literal).
pub open spec fn expr_ty(d: DeclsV, m: ScopeMap, e: Expr) -> Option<TyV>
    decreases e,
{
    match e {
        Expr::IntLit(_) => Some(TyV::Int),
        Expr::FloatLit(_) => Some(TyV::Float),
        Expr::StringLit(_) => Some(TyV::String),
        Expr::Bool(_) => Some(TyV::Bool),
        Expr::FStringLit(_) => Some(TyV::String),
        Expr::Ident(n) => if m.contains_key(n@) {
            Some(m[n@].0)
        } else {
            None
        },
        Expr::UnaryOp { op, expr } => match op {
            UnaryOpKind::Neg => expr_ty(d, m, *expr),
            UnaryOpKind::Not => Some(TyV::Bool),
        },
        Expr::BinOp { left, op, right } => match op {
            BinOpKind::Add => if expr_ty(d, m, *left) == Some(TyV::String) || expr_ty(d, m, *right) == Some(TyV::String) {
                Some(TyV::String)
            } else {
                expr_ty(d, m, *left)
            },
            BinOpKind::Sub | BinOpKind::Mul | BinOpKind::Div | BinOpKind::Mod => expr_ty(d, m, *left),
            _ => Some(TyV::Bool),
        },
        Expr::Call { name, .. } => if name@ == "len"@ || name@ == "print"@ {
            Some(TyV::Int)
        } else {
            match sig_named(d, name@) {
                Some(sig) => sig.1,
                None => if m.contains_key(name@) {
                    match m[name@].0 {
                        TyV::Fn(_, ret) => match ret {
                            Some(t) => Some(*t),
                            None => None,
                        },
                        _ => Some(TyV::Int),
                    }
                } else {
                    None
                },
            }
        },
        Expr::MethodCall { base, method, .. } => match *base {
            Expr::Ident(b) if first_index(d.modules, b@) is Some => match sig_named(d, b@ + "_"@ + method@) {
                Some(sig) => sig.1,
                None => None,
            },
            _ => match expr_ty(d, m, *base) {
                Some(TyV::Struct(s)) => match sig_named(d, s + "."@ + method@) {
                    Some(sig) => sig.1,
                    None => None,
                },
                _ => None,
            },
        },
        Expr::ArrayLit(elems) => if elems.len() == 0 {
            None
        } else {
            proof {
                vstd::std_specs::vec::axiom_vec_index_decreases(elems, 0);
            }
            match expr_ty(d, m, elems[0]) {
                Some(t) => Some(TyV::Array(Box::new(t))),
                None => None,
            }
        },
        Expr::Index { array, .. } => match expr_ty(d, m, *array) {
            Some(TyV::Array(inner)) => Some(*inner),
            _ => None,
        },
        Expr::Cast { ty, .. } => Some(ty@),
        Expr::StructInit { name, .. } => Some(TyV::Struct(name@)),
        Expr::FieldAccess { base, field } => match expr_ty(d, m, *base) {
            Some(TyV::Struct(s)) => match struct_named(d, s) {
                Some(fs) => field_ty(fs, field@),
                None => None,
            },
            _ => None,
        },
        Expr::EnumVariant { enum_name, .. } => Some(TyV::Enum(enum_name@)),
        Expr::Closure { params, .. } => Some(
            TyV::Fn(params@.map_values(|p: (String, Option<Ty>)| closure_param_ty(p)), None),
        ),
    }
}

/// Whether checking `s` leaves the scope around it as it was: anything
/// but a constant declaration (which stays in scope) or an `auto`
/// declaration (which may retype a variable of the same name), where the
/// same holds of the statements of its nested blocks.
pub open spec fn keeps_scope_s(s: Stmt) -> bool
    decreases s, 0nat,
{
    match s {
        Stmt::ConstDecl { .. } => false,
        Stmt::VarDecl { ty, .. } => !(ty is Auto),
        Stmt::If { then_body, else_body, .. } => keeps_scope_ss(then_body, 0) && match else_body {
            Some(b) => keeps_scope_ss(b, 0),
            None => true,
        },
        Stmt::Loop(body) => keeps_scope_ss(body, 0),
        Stmt::While { body, .. } => keeps_scope_ss(body, 0),
        Stmt::For { body, .. } => keeps_scope_ss(body, 0),
        Stmt::InlineAnchor { body, .. } => keeps_scope_ss(body, 0),
        _ => true,
    }
}

/// Whether each of `ss[k..]` keeps the scope (see `keeps_scope_s`).
pub open spec fn keeps_scope_ss(ss: Vec<(Stmt, Span)>, k: int) -> bool
    decreases ss, ss.len() - k,
{
    if 0 <= k < ss.len() {
        proof {
            vstd::std_specs::vec::axiom_vec_index_decreases(ss, k);
        }
        keeps_scope_s(ss[k].0) && keeps_scope_ss(ss, k + 1)
    } else {
        true
    }
}

proof fn lemma_keeps_scope_at(ss: Vec<(Stmt, Span)>, j: int, k: int)
    requires
        0 <= j <= k < ss.len(),
        keeps_scope_ss(ss, j),
    ensures
        keeps_scope_s(ss[k].0),
    decreases k - j,
{
    if j < k {
        lemma_keeps_scope_at(ss, j + 1, k);
    }
}

/// `a` is where `b` starts: `b` keeps every diagnostic of `a`, in place.
pub open spec fn grows(a: Seq<DiagnosticV>, b: Seq<DiagnosticV>) -> bool {
    a.len() <= b.len() && forall|i: int| 0 <= i < a.len() ==> #[trigger] b[i] == a[i]
}

/// The pieces joined into one text.
fn cat(parts: Vec<&str>) -> (r: String) {
    let mut v: Vec<char> = Vec::new();
    let mut i: usize = 0;
    while i < parts.len()
        decreases parts@.len() - i,
    {
        push_str(&mut v, parts[i]);
        i = i + 1;
    }
    string_of(v.as_slice())
}

/// Three texts joined.
fn join3(a: &str, b: &str, c: &str) -> (r: String)
    ensures
        r@ == a@ + b@ + c@,
{
    let mut v = text::chars_of(a);
    push_str(&mut v, b);
    push_str(&mut v, c);
    string_of(v.as_slice())
}

/// A number in decimal.
fn num(n: usize) -> (r: String) {
    let mut v: Vec<char> = Vec::new();
    push_decimal(&mut v, n as u128);
    string_of(v.as_slice())
}

/// A copy of a text.
fn copy_text(s: &str) -> (r: String)
    ensures
        r@ == s@,
{
    string_of(text::chars_of(s).as_slice())
}

/// Where `name` first stands in `names`.
fn index_of(names: &Vec<String>, name: &str) -> (r: Option<usize>)
    ensures
        match r {
            Some(i) => i < names@.len() && first_index(names_view(names@), name@) == Some(i as int),
            None => first_index(names_view(names@), name@) is None,
        },
{
    let ghost nv = names_view(names@);
    let mut i: usize = 0;
    while i < names.len()
        invariant
            i <= names@.len(),
            nv == names_view(names@),
            forall|j: int| 0 <= j < i ==> #[trigger] nv[j] != name@,
        decreases names@.len() - i,
    {
        if crate::hover::same_text(names[i].as_str(), name) {
            proof {
                lemma_first_index_is(nv, name@, i as int);
            }
            return Some(i);
        }
        i = i + 1;
    }
    proof {
        lemma_first_index_none(nv, name@);
    }
    None
}

/// The names of a list of types, joined with `, `.
fn ty_names(ts: &Vec<Ty>) -> (r: String) {
    let mut v: Vec<char> = Vec::new();
    let mut i: usize = 0;
    while i < ts.len()
        decreases ts@.len() - i,
    {
        if i > 0 {
            push_str(&mut v, ", ");
        }
        push_str(&mut v, ty_name(&ts[i]).as_str());
        i = i + 1;
    }
    string_of(v.as_slice())
}

/// A copy of a list of types.
fn clone_tys(ts: &Vec<Ty>) -> (r: Vec<Ty>)
    ensures
        r@.map_values(|t: Ty| t@) == ts@.map_values(|t: Ty| t@),
{
    let mut v: Vec<Ty> = Vec::new();
    let mut i: usize = 0;
    while i < ts.len()
        invariant
            i <= ts@.len(),
            v@.map_values(|t: Ty| t@) == ts@.take(i as int).map_values(|t: Ty| t@),
        decreases ts@.len() - i,
    {
        v.push(ts[i].clone());
        proof {
            assert(ts@.take(i + 1).map_values(|t: Ty| t@) =~= ts@.take(i as int).map_values(|t: Ty| t@).push(ts@[i as int]@));
            assert(v@.map_values(|t: Ty| t@) =~= ts@.take(i + 1).map_values(|t: Ty| t@));
        }
        i = i + 1;
    }
    proof {
        assert(ts@.take(ts@.len() as int) =~= ts@);
    }
    v
}

/// A copy of an optional type.
fn clone_opt_ty(t: &Option<Ty>) -> (r: Option<Ty>)
    ensures
        opt_ty(r) == opt_ty(*t),
{
    match t {
        Some(x) => Some(x.clone()),
        None => None,
    }
}

/// A copy of a struct's fields.
fn clone_fields(fs: &Vec<StructField>) -> (r: Vec<StructField>)
    ensures
        fields_view(r@) == fields_view(fs@),
{
    let mut v: Vec<StructField> = Vec::new();
    let mut i: usize = 0;
    while i < fs.len()
        invariant
            i <= fs@.len(),
            fields_view(v@) == fields_view(fs@.take(i as int)),
        decreases fs@.len() - i,
    {
        v.push(StructField { ty: fs[i].ty.clone(), name: copy_text(fs[i].name.as_str()) });
        proof {
            assert(fields_view(fs@.take(i + 1)) =~= fields_view(fs@.take(i as int)).push((fs@[i as int].name@, fs@[i as int].ty@)));
            assert(fields_view(v@) =~= fields_view(fs@.take(i + 1)));
        }
        i = i + 1;
    }
    proof {
        assert(fs@.take(fs@.len() as int) =~= fs@);
    }
    v
}

/// A copy of an enum's variants.
fn clone_variants(vs: &Vec<EnumVariant>) -> (r: Vec<EnumVariant>) {
    let mut v: Vec<EnumVariant> = Vec::new();
    let mut i: usize = 0;
    while i < vs.len()
        decreases vs@.len() - i,
    {
        v.push(EnumVariant { name: copy_text(vs[i].name.as_str()), ty: clone_opt_ty(&vs[i].ty) });
        i = i + 1;
    }
    v
}

/// The field of `fs` named `name`.
fn field_named(fs: &Vec<StructField>, name: &str) -> (r: Option<usize>)
    ensures
        match r {
            Some(i) => i < fs@.len() && field_ty(fields_view(fs@), name@) == Some(fs@[i as int].ty@),
            None => field_ty(fields_view(fs@), name@) is None,
        },
{
    let ghost nv = fields_view(fs@).map_values(|p: (Seq<char>, TyV)| p.0);
    let mut i: usize = 0;
    while i < fs.len()
        invariant
            i <= fs@.len(),
            nv == fields_view(fs@).map_values(|p: (Seq<char>, TyV)| p.0),
            forall|j: int| 0 <= j < i ==> #[trigger] nv[j] != name@,
        decreases fs@.len() - i,
    {
        if crate::hover::same_text(fs[i].name.as_str(), name) {
            proof {
                assert(nv[i as int] == fs@[i as int].name@);
                lemma_first_index_is(nv, name@, i as int);
            }
            return Some(i);
        }
        proof {
            assert(nv[i as int] == fs@[i as int].name@);
        }
        i = i + 1;
    }
    proof {
        lemma_first_index_none(nv, name@);
    }
    None
}

/// The variant of `vs` named `name`.
fn variant_named(vs: &Vec<EnumVariant>, name: &str) -> (r: Option<usize>)
    ensures
        match r {
            Some(i) => i < vs@.len(),
            None => true,
        },
{
    let mut i: usize = 0;
    while i < vs.len()
        invariant
            i <= vs@.len(),
        decreases vs@.len() - i,
    {
        if crate::hover::same_text(vs[i].name.as_str(), name) {
            return Some(i);
        }
        i = i + 1;
    }
    None
}

/// The names of an enum's variants, joined with `, `.
fn variant_names(vs: &Vec<EnumVariant>) -> (r: String) {
    let mut v: Vec<char> = Vec::new();
    let mut i: usize = 0;
    while i < vs.len()
        decreases vs@.len() - i,
    {
        if i > 0 {
            push_str(&mut v, ", ");
        }
        push_str(&mut v, vs[i].name.as_str());
        i = i + 1;
    }
    string_of(v.as_slice())
}

/// Whether every name is shorter than the largest `usize`.
fn names_short(names: &[String]) -> (r: bool)
    ensures
        r ==> all_short(names@.map_values(|s: String| s@)),
{
    let mut i: usize = 0;
    while i < names.len()
        invariant
            i <= names@.len(),
            forall|j: int| 0 <= j < i ==> #[trigger] names@[j]@.len() < usize::MAX,
        decreases names@.len() - i,
    {
        if text::chars_of(names[i].as_str()).len() == usize::MAX {
            return false;
        }
        i = i + 1;
    }
    proof {
        let ns = names@.map_values(|s: String| s@);
        assert forall|j: int| 0 <= j < ns.len() implies #[trigger] ns[j].len() < usize::MAX by {
            assert(ns[j] == names@[j]@);
        }
    }
    true
}

impl Analyzer {
    /// Whether the analyzer's tables are well formed and `other` has the
    /// same declarations, lines and switches.
    pub closed spec fn keeps(&self, other: Analyzer) -> bool {
        self.wf() && self.same_tables(other)
    }

    /// Whether the analyzer is inside an anchor.
    pub closed spec fn anchored(&self) -> bool {
        self.in_anchor
    }

    /// Moves the diagnostics out.
    pub fn into_errors(self) -> (r: Vec<CompileError>)
        ensures
            r@.map_values(|e: CompileError| e@) == self.reported(),
    {
        self.errors
    }

    /// Records `name` as used.
    fn mark_used(&mut self, name: &str)
        ensures
            final(self).same_state(*old(self)),
            final(self).reported() == old(self).reported(),
            final(self).anchored() == old(self).anchored(),
    {
        if index_of(&self.used_vars, name).is_none() {
            self.used_vars.push(copy_text(name));
        }
    }

    /// Reports that variable `name` is not declared, with the closest name in
    /// scope as the hint.
    fn undeclared_var(&mut self, name: &str, scope: &Scope)
        requires
            scope.wf(),
        ensures
            final(self).same_state(*old(self)),
            grows(old(self).reported(), final(self).reported()),
            final(self).anchored() == old(self).anchored(),
    {
        if text::chars_of(name).len() < usize::MAX && names_short(scope.names()) {
            self.err_undeclared_var(name, scope);
        } else {
            self.err("E004", cat(vec!["Undeclared variable '", name, "'"]), cat(vec!["Declare '", name, "' before use, e.g. int ", name, " = ...;"]));
        }
    }

    /// Reports that function `name` is not declared, with the closest
    /// function name as the hint.
    fn undeclared_fn(&mut self, name: &str)
        ensures
            final(self).same_state(*old(self)),
            grows(old(self).reported(), final(self).reported()),
            final(self).anchored() == old(self).anchored(),
    {
        if text::chars_of(name).len() < usize::MAX && names_short(self.fn_names.as_slice()) {
            proof {
                assert(self.fn_names@.map_values(|s: String| s@) == self.function_names());
            }
            self.err_undeclared_fn(name);
        } else {
            self.err("E013", cat(vec!["Undeclared function '", name, "'"]), cat(vec!["Define it with fn ", name, "(...) { ... }"]));
        }
    }

    /// The signature of function `name`, if it is declared.
    fn fn_sig(&self, name: &str) -> (r: Option<FnSig>)
        requires
            self.wf(),
        ensures
            match r {
                Some(sig) => sig_named(self.decls(), name@) == Some(sig@),
                None => sig_named(self.decls(), name@) is None,
            },
    {
        match index_of(&self.fn_names, name) {
            Some(i) => Some(FnSig { params: clone_tys(&self.fn_sigs[i].params), return_ty: clone_opt_ty(&self.fn_sigs[i].return_ty) }),
            None => None,
        }
    }

    /// The fields of struct `name`, if it is declared.
    fn struct_def(&self, name: &str) -> (r: Option<Vec<StructField>>)
        requires
            self.wf(),
        ensures
            match r {
                Some(fs) => struct_named(self.decls(), name@) == Some(fields_view(fs@)),
                None => struct_named(self.decls(), name@) is None,
            },
    {
        match index_of(&self.struct_names, name) {
            Some(i) => Some(clone_fields(&self.struct_fields[i])),
            None => None,
        }
    }

    /// The variants of enum `name`, if it is declared.
    fn enum_def(&self, name: &str) -> (r: Option<Vec<EnumVariant>>)
        requires
            self.wf(),
    {
        match index_of(&self.enum_names, name) {
            Some(i) => Some(clone_variants(&self.enum_variants[i])),
            None => None,
        }
    }

    /// Infers the type of `expr` in `scope`, reporting what is wrong with it:
    /// undeclared names, operators on the wrong types, calls with the wrong
    /// arguments, unknown structs, fields, enums and variants, bad casts.
    /// Names read are recorded as used; a closure's body is checked too.
    #[verifier::loop_isolation(false)]
    #[verifier::spinoff_prover]
    #[verifier::rlimit(100)]
    pub fn infer_expr(&mut self, expr: &Expr, scope: &Scope) -> (r: Option<Ty>)
        requires
            old(self).wf(),
            scope.wf(),
        ensures
            final(self).keeps(*old(self)),
            grows(old(self).reported(), final(self).reported()),
            final(self).anchored() == old(self).anchored(),
            opt_ty(r) == expr_ty(old(self).decls(), scope.map(), *expr),
            *expr matches Expr::Cast { expr: inner, ty } ==> (expr_ty(old(self).decls(), scope.map(), *inner) matches Some(
                st,
            ) ==> (!cast_allowed(st, ty@) ==> final(self).reported().len() > old(self).reported().len()
                && final(self).reported().last().code == "E021"@ && final(self).reported().last().message
                == cast_message(st, ty@))),
        decreases expr, 1nat,
    {
        match expr {
            Expr::IntLit(_) => Some(Ty::Int),
            Expr::FloatLit(_) => Some(Ty::Float),
            Expr::StringLit(_) => Some(Ty::String),
            Expr::Bool(_) => Some(Ty::Bool),
            Expr::Call { .. } => self.infer_call(expr, scope),
            Expr::MethodCall { .. } => self.infer_method_call(expr, scope),
            Expr::StructInit { .. } => self.infer_struct_init(expr, scope),
            Expr::EnumVariant { .. } => self.infer_enum_variant(expr, scope),
            Expr::Ident(name) => {
                self.mark_used(name.as_str());
                match scope.get(name.as_str()) {
                    Some(info) => Some(info.ty.clone()),
                    None => {
                        self.undeclared_var(name.as_str(), scope);
                        None
                    },
                }
            },
            Expr::UnaryOp { op, expr: inner_e } => {
                let inner = self.infer_expr(inner_e, scope);
                match op {
                    UnaryOpKind::Neg => {
                        if let Some(t) = &inner {
                            if !is_numeric_ty(t) {
                                self.err("E007", cat(vec!["Cannot negate type ", ty_name(t).as_str()]), copy_text("Negation (-) only works on numeric types"));
                            }
                        }
                        inner
                    },
                    UnaryOpKind::Not => {
                        if let Some(t) = &inner {
                            if !matches!(t, Ty::Bool) {
                                self.err("E007", cat(vec!["Cannot apply '!' to type ", ty_name(t).as_str()]), copy_text("Logical not (!) only works on bool values"));
                            }
                        }
                        Some(Ty::Bool)
                    },
                }
            },
            Expr::BinOp { left, op, right } => {
                let lt = self.infer_expr(left, scope);
                let rt = self.infer_expr(right, scope);
                match op {
                    BinOpKind::Add | BinOpKind::Sub | BinOpKind::Mul | BinOpKind::Div | BinOpKind::Mod => {
                        let l_str = matches!(lt, Some(Ty::String));
                        let r_str = matches!(rt, Some(Ty::String));
                        if matches!(op, BinOpKind::Add) && (l_str || r_str) {
                            return Some(Ty::String);
                        }
                        if let (Some(l), Some(r)) = (&lt, &rt) {
                            if matches!(l, Ty::String) {
                                let sym = match op {
                                    BinOpKind::Sub => "-",
                                    BinOpKind::Mul => "*",
                                    BinOpKind::Div => "/",
                                    BinOpKind::Mod => "%",
                                    _ => "?",
                                };
                                self.err("E008", cat(vec!["Cannot use '", sym, "' on string type"]), copy_text("Only '+' is allowed for string concatenation"));
                                return lt;
                            }
                            if !types_compatible(l, r) && !types_compatible(r, l) {
                                self.err("E008", cat(vec!["Arithmetic type mismatch \u{2014} ", ty_name(l).as_str(), " vs ", ty_name(r).as_str()]), copy_text("Both sides of an arithmetic operation must be the same numeric type"));
                            }
                            if !is_numeric_ty(l) {
                                self.err("E008", cat(vec!["Arithmetic on non-numeric type ", ty_name(l).as_str()]), copy_text("Arithmetic operators (+, -, *, /, %) only work on numeric types"));
                            }
                        }
                        lt
                    },
                    BinOpKind::Lt | BinOpKind::Gt | BinOpKind::Le | BinOpKind::Ge | BinOpKind::Eq | BinOpKind::Neq => {
                        if let (Some(l), Some(r)) = (&lt, &rt) {
                            if !types_compatible(l, r) && !types_compatible(r, l) {
                                self.err("E009", cat(vec!["Comparison type mismatch \u{2014} ", ty_name(l).as_str(), " vs ", ty_name(r).as_str()]), copy_text("Both sides of a comparison must be the same type"));
                            }
                        }
                        Some(Ty::Bool)
                    },
                    BinOpKind::And | BinOpKind::Or => {
                        if let Some(l) = &lt {
                            if !matches!(l, Ty::Bool) {
                                self.err("E010", cat(vec!["Logical operator requires bool, got ", ty_name(l).as_str()]), copy_text("Use a comparison (e.g. x > 0) to produce a bool"));
                            }
                        }
                        if let Some(r) = &rt {
                            if !matches!(r, Ty::Bool) {
                                self.err("E010", cat(vec!["Logical operator requires bool, got ", ty_name(r).as_str()]), copy_text("Use a comparison (e.g. x > 0) to produce a bool"));
                            }
                        }
                        Some(Ty::Bool)
                    },
                }
            },
            Expr::ArrayLit(elems) => {
                if elems.len() == 0 {
                    self.err("E016", copy_text("Empty array literal \u{2014} cannot infer element type"), copy_text("Provide at least one element, e.g. [0]"));
                    return None;
                }
                proof {
                    vstd::std_specs::vec::axiom_vec_index_decreases(*elems, 0);
                }
                let first_ty = self.infer_expr(&elems[0], scope);
                let mut i: usize = 1;
                while i < elems.len()
                    invariant
                        1 <= i <= elems@.len(),
                        self.keeps(*old(self)),
                        grows(old(self).reported(), self.reported()),
                        self.anchored() == old(self).anchored(),
                        scope.wf(),
                    decreases elems@.len() - i,
                {
                    proof {
                        vstd::std_specs::vec::axiom_vec_index_decreases(*elems, i as int);
                    }
                    let elem_ty = self.infer_expr(&elems[i], scope);
                    if let (Some(ft), Some(et)) = (&first_ty, &elem_ty) {
                        if !ty_eq(ft, et) {
                            self.err(
                                "E002",
                                cat(vec!["Array element ", num(i).as_str(), " has type ", ty_name(et).as_str(), ", expected ", ty_name(ft).as_str()]),
                                copy_text("All array elements must be the same type"),
                            );
                        }
                    }
                    i = i + 1;
                }
                match first_ty {
                    Some(t) => Some(Ty::Array(Box::new(t))),
                    None => None,
                }
            },
            Expr::Index { array, index } => {
                let arr_ty = self.infer_expr(array, scope);
                let idx_ty = self.infer_expr(index, scope);
                if let Some(it) = &idx_ty {
                    if !matches!(it, Ty::Int) {
                        self.err("E014", cat(vec!["Array index must be int, got ", ty_name(it).as_str()]), copy_text("Use an integer value for array indexing"));
                    }
                }
                match arr_ty {
                    Some(Ty::Array(inner)) => Some((*inner).clone()),
                    Some(t) => {
                        self.err("E015", cat(vec!["Cannot index into non-array type ", ty_name(&t).as_str()]), copy_text("Only array types support indexing"));
                        None
                    },
                    None => None,
                }
            },
            Expr::Cast { expr: inner_e, ty: target_ty } => {
                let src_ty = self.infer_expr(inner_e, scope);
                self.check_cast(&src_ty, target_ty);
                proof {
                    assert(grows(old(self).reported(), self.reported()));
                }
                Some(target_ty.clone())
            },
            Expr::FieldAccess { base, field } => {
                let bt = self.infer_expr(base, scope);
                match bt {
                    Some(Ty::Struct(sname)) => match self.struct_def(sname.as_str()) {
                        Some(fs) => match field_named(&fs, field.as_str()) {
                            Some(d) => Some(fs[d].ty.clone()),
                            None => {
                                self.err("E027", cat(vec!["Struct '", sname.as_str(), "' has no field '", field.as_str(), "'"]), copy_text("Check the struct declaration for available fields"));
                                None
                            },
                        },
                        None => {
                            self.err("E026", cat(vec!["Unknown struct type '", sname.as_str(), "'"]), cat(vec!["Declare 'struct ", sname.as_str(), " { ... }' before using it"]));
                            None
                        },
                    },
                    Some(t) => {
                        self.err("E028", cat(vec!["Cannot access field '", field.as_str(), "' on non-struct type ", ty_name(&t).as_str()]), copy_text("Field access requires a struct value"));
                        None
                    },
                    None => None,
                }
            },
            Expr::Closure { params, body } => {
                let mut closure_scope = scope.duplicate();
                let mut param_tys: Vec<Ty> = Vec::new();
                let mut k: usize = 0;
                while k < params.len()
                    invariant
                        k <= params@.len(),
                        closure_scope.wf(),
                        param_tys@.map_values(|t: Ty| t@) == params@.take(k as int).map_values(
                            |p: (String, Option<Ty>)| closure_param_ty(p),
                        ),
                    decreases params@.len() - k,
                {
                    let ty = match &params[k].1 {
                        Some(t) => t.clone(),
                        None => Ty::Auto,
                    };
                    let ghost before = param_tys@.map_values(|t: Ty| t@);
                    param_tys.push(ty.clone());
                    proof {
                        assert(ty@ == closure_param_ty(params@[k as int]));
                        assert(param_tys@.map_values(|t: Ty| t@) =~= before.push(ty@));
                        assert(params@.take(k + 1).map_values(|p: (String, Option<Ty>)| closure_param_ty(p))
                            =~= params@.take(k as int).map_values(|p: (String, Option<Ty>)| closure_param_ty(p)).push(
                            closure_param_ty(params@[k as int]),
                        ));
                    }
                    closure_scope.insert(copy_text(params[k].0.as_str()), VarInfo { ty, is_vault: false });
                    k = k + 1;
                }
                proof {
                    assert(params@.take(params@.len() as int) =~= params@);
                }
                self.check_stmts(body, &mut closure_scope, None);
                let ghost pv = param_tys@;
                let res = Ty::Fn(param_tys, None);
                proof {
                    let ps = params@.map_values(|p: (String, Option<Ty>)| closure_param_ty(p));
                    assert(pv.map_values(|t: Ty| t@) == ps);
                    if let TyV::Fn(a, _) = res@ {
                        assert forall|i: int| 0 <= i < a.len() implies a[i] == ps[i] by {
                            assert(pv.map_values(|t: Ty| t@)[i] == pv[i]@);
                        }
                        assert(a =~= ps);
                    }
                    assert(res@ == TyV::Fn(ps, None));
                }
                Some(res)
            },
            Expr::FStringLit(parts) => {
                let mut k: usize = 0;
                while k < parts.len()
                    invariant
                        k <= parts@.len(),
                        self.keeps(*old(self)),
                        grows(old(self).reported(), self.reported()),
                        self.anchored() == old(self).anchored(),
                        scope.wf(),
                    decreases parts@.len() - k,
                {
                    proof {
                        vstd::std_specs::vec::axiom_vec_index_decreases(*parts, k as int);
                    }
                    match &parts[k] {
                        FStringPart::Expr(e) => {
                            self.infer_expr(e, scope);
                        },
                        FStringPart::Literal(_) => {},
                    }
                    k = k + 1;
                }
                Some(Ty::String)
            },
        }
    }

    /// The type of a call (see `infer_expr`).
    #[verifier::loop_isolation(false)]
    #[verifier::spinoff_prover]
    #[verifier::rlimit(100)]
    fn infer_call(&mut self, expr: &Expr, scope: &Scope) -> (r: Option<Ty>)
        requires
            old(self).wf(),
            scope.wf(),
            *expr is Call,
        ensures
            final(self).keeps(*old(self)),
            grows(old(self).reported(), final(self).reported()),
            final(self).anchored() == old(self).anchored(),
            opt_ty(r) == expr_ty(old(self).decls(), scope.map(), *expr),
        decreases expr, 0nat,
    {
        match expr {
            Expr::Call { name, args } => {
                if crate::hover::same_text(name.as_str(), "len") {
                    if args.len() != 1 {
                        self.err("E011", cat(vec!["'len' expects 1 argument, got ", num(args.len()).as_str()]), copy_text("Usage: len(array)"));
                    } else {
                        proof {
                            vstd::std_specs::vec::axiom_vec_index_decreases(*args, 0);
                        }
                        let arg_ty = self.infer_expr(&args[0], scope);
                        if let Some(at) = &arg_ty {
                            if !matches!(at, Ty::Array(_)) {
                                self.err("E015", cat(vec!["'len' expects an array, got ", ty_name(at).as_str()]), copy_text("Pass an array variable to len()"));
                            }
                        }
                    }
                    return Some(Ty::Int);
                }
                if crate::hover::same_text(name.as_str(), "print") {
                    self.infer_all(args, scope);
                    return Some(Ty::Int);
                }
                match self.fn_sig(name.as_str()) {
                    Some(sig) => {
                        if args.len() != sig.params.len() {
                            self.err(
                                "E011",
                                cat(vec!["'", name.as_str(), "' expects ", num(sig.params.len()).as_str(), " argument(s), got ", num(args.len()).as_str()]),
                                cat(vec!["Signature: ", name.as_str(), "(", ty_names(&sig.params).as_str(), ")"]),
                            );
                        }
                        self.check_args(args, scope, &sig.params, 0, name.as_str());
                        sig.return_ty
                    },
                    None => {
                        if scope.contains_key(name.as_str()) {
                            self.infer_all(args, scope);
                            match scope.get(name.as_str()) {
                                Some(info) => match &info.ty {
                                    Ty::Fn(_, ret) => match ret {
                                        Some(t) => Some((**t).clone()),
                                        None => None,
                                    },
                                    _ => Some(Ty::Int),
                                },
                                None => Some(Ty::Int),
                            }
                        } else {
                            self.infer_all(args, scope);
                            self.undeclared_fn(name.as_str());
                            None
                        }
                    },
                }
            },
            _ => None,
        }
    }

    /// The type of a method or module function call (see `infer_expr`).
    #[verifier::loop_isolation(false)]
    #[verifier::spinoff_prover]
    #[verifier::rlimit(100)]
    fn infer_method_call(&mut self, expr: &Expr, scope: &Scope) -> (r: Option<Ty>)
        requires
            old(self).wf(),
            scope.wf(),
            *expr is MethodCall,
        ensures
            final(self).keeps(*old(self)),
            grows(old(self).reported(), final(self).reported()),
            final(self).anchored() == old(self).anchored(),
            opt_ty(r) == expr_ty(old(self).decls(), scope.map(), *expr),
        decreases expr, 0nat,
    {
        match expr {
            Expr::MethodCall { base, method, args } => {
                proof {
                    assert(names_view(self.module_names@) =~= self.decls().modules);
                }
                if let Expr::Ident(base_name) = &**base {
                    if index_of(&self.module_names, base_name.as_str()).is_some() {
                        let qualified = join3(base_name.as_str(), "_", method.as_str());
                        match self.fn_sig(qualified.as_str()) {
                            Some(sig) => {
                                if args.len() != sig.params.len() {
                                    self.err(
                                        "E011",
                                        cat(vec!["'", qualified.as_str(), "' expects ", num(sig.params.len()).as_str(), " argument(s), got ", num(args.len()).as_str()]),
                                        cat(vec!["Call as ", base_name.as_str(), ".", method.as_str(), "(...)"]),
                                    );
                                }
                                self.check_args(args, scope, &sig.params, 0, qualified.as_str());
                                return sig.return_ty;
                            },
                            None => {
                                self.infer_all(args, scope);
                                self.err(
                                    "E013",
                                    cat(vec!["Undeclared function '", base_name.as_str(), ".", method.as_str(), "'"]),
                                    cat(vec!["Define it with mod ", base_name.as_str(), " { fn ", method.as_str(), "(...) { ... } }"]),
                                );
                                return None;
                            },
                        }
                    }
                }
                let base_ty = self.infer_expr(base, scope);
                let sname = match base_ty {
                    Some(Ty::Struct(n)) => n,
                    _ => {
                        self.err(
                            "E028",
                            cat(vec!["Cannot call method '", method.as_str(), "' on non-struct value"]),
                            copy_text("Method call requires a struct value (e.g. user.method()) or a module (e.g. mod.func())"),
                        );
                        self.infer_all(args, scope);
                        return None;
                    },
                };
                let fn_name = join3(sname.as_str(), ".", method.as_str());
                match self.fn_sig(fn_name.as_str()) {
                    Some(sig) => {
                        let expected_user_args = if sig.params.len() > 0 {
                            sig.params.len() - 1
                        } else {
                            0
                        };
                        if args.len() != expected_user_args {
                            self.err(
                                "E011",
                                cat(vec!["'", fn_name.as_str(), "' expects ", num(expected_user_args).as_str(), " argument(s), got ", num(args.len()).as_str()]),
                                cat(vec!["Method signature: ", fn_name.as_str(), "(...)"]),
                            );
                        }
                        self.check_args(args, scope, &sig.params, 1, fn_name.as_str());
                        sig.return_ty
                    },
                    None => {
                        self.infer_all(args, scope);
                        self.err(
                            "E013",
                            cat(vec!["Undeclared method '", sname.as_str(), ".", method.as_str(), "'"]),
                            cat(vec!["Define it with fn ", sname.as_str(), ".", method.as_str(), "(...) { ... }"]),
                        );
                        None
                    },
                }
            },
            _ => None,
        }
    }

    /// The type of a struct literal (see `infer_expr`).
    #[verifier::loop_isolation(false)]
    #[verifier::spinoff_prover]
    #[verifier::rlimit(100)]
    fn infer_struct_init(&mut self, expr: &Expr, scope: &Scope) -> (r: Option<Ty>)
        requires
            old(self).wf(),
            scope.wf(),
            *expr is StructInit,
        ensures
            final(self).keeps(*old(self)),
            grows(old(self).reported(), final(self).reported()),
            final(self).anchored() == old(self).anchored(),
            opt_ty(r) == expr_ty(old(self).decls(), scope.map(), *expr),
        decreases expr, 0nat,
    {
        match expr {
            Expr::StructInit { name, fields } => {
                match self.struct_def(name.as_str()) {
                    Some(def_fields) => {
                        let mut j: usize = 0;
                        while j < def_fields.len()
                            invariant
                                j <= def_fields@.len(),
                                self.keeps(*old(self)),
                                grows(old(self).reported(), self.reported()),
                                self.anchored() == old(self).anchored(),
                            decreases def_fields@.len() - j,
                        {
                            let mut found = false;
                            let mut k: usize = 0;
                            while k < fields.len()
                                invariant
                                    k <= fields@.len(),
                                    j < def_fields@.len(),
                                decreases fields@.len() - k,
                            {
                                if crate::hover::same_text(fields[k].0.as_str(), def_fields[j].name.as_str()) {
                                    found = true;
                                }
                                k = k + 1;
                            }
                            if !found {
                                self.err(
                                    "E029",
                                    cat(vec!["Missing field '", def_fields[j].name.as_str(), "' in struct init '", name.as_str(), "'"]),
                                    cat(vec!["Provide '", def_fields[j].name.as_str(), ": ...' in ", name.as_str(), " { ... }"]),
                                );
                            }
                            j = j + 1;
                        }
                        let mut k: usize = 0;
                        while k < fields.len()
                            invariant
                                k <= fields@.len(),
                                self.keeps(*old(self)),
                                grows(old(self).reported(), self.reported()),
                                self.anchored() == old(self).anchored(),
                                scope.wf(),
                            decreases fields@.len() - k,
                        {
                            proof {
                                vstd::std_specs::vec::axiom_vec_index_decreases(*fields, k as int);
                            }
                            let fname = &fields[k].0;
                            match field_named(&def_fields, fname.as_str()) {
                                Some(d) => {
                                    let got = self.infer_expr(&fields[k].1, scope);
                                    if let Some(gt) = &got {
                                        if !types_compatible(&def_fields[d].ty, gt) {
                                            self.err(
                                                "E002",
                                                cat(vec!["Type mismatch for field '", name.as_str(), ".", fname.as_str(), "' \u{2014} expected ", ty_name(&def_fields[d].ty).as_str(), ", got ", ty_name(gt).as_str()]),
                                                cat(vec!["Field '", name.as_str(), ".", fname.as_str(), "' type is ", ty_name(&def_fields[d].ty).as_str()]),
                                            );
                                        }
                                    }
                                },
                                None => {
                                    self.err("E027", cat(vec!["Struct '", name.as_str(), "' has no field '", fname.as_str(), "'"]), copy_text("Check the struct declaration for available fields"));
                                    self.infer_expr(&fields[k].1, scope);
                                },
                            }
                            k = k + 1;
                        }
                    },
                    None => {
                        self.err("E026", cat(vec!["Unknown struct type '", name.as_str(), "'"]), cat(vec!["Declare 'struct ", name.as_str(), " { ... }' before using it"]));
                        let mut k: usize = 0;
                        while k < fields.len()
                            invariant
                                k <= fields@.len(),
                                self.keeps(*old(self)),
                                grows(old(self).reported(), self.reported()),
                                self.anchored() == old(self).anchored(),
                                scope.wf(),
                            decreases fields@.len() - k,
                        {
                            proof {
                                vstd::std_specs::vec::axiom_vec_index_decreases(*fields, k as int);
                            }
                            self.infer_expr(&fields[k].1, scope);
                            k = k + 1;
                        }
                    },
                }
                Some(Ty::Struct(copy_text(name.as_str())))
            },
            _ => None,
        }
    }

    /// The type of an enum value (see `infer_expr`).
    #[verifier::loop_isolation(false)]
    #[verifier::spinoff_prover]
    #[verifier::rlimit(100)]
    fn infer_enum_variant(&mut self, expr: &Expr, scope: &Scope) -> (r: Option<Ty>)
        requires
            old(self).wf(),
            scope.wf(),
            *expr is EnumVariant,
        ensures
            final(self).keeps(*old(self)),
            grows(old(self).reported(), final(self).reported()),
            final(self).anchored() == old(self).anchored(),
            opt_ty(r) == expr_ty(old(self).decls(), scope.map(), *expr),
        decreases expr, 0nat,
    {
        match expr {
            Expr::EnumVariant { enum_name, variant, value } => {
                match self.enum_def(enum_name.as_str()) {
                    Some(variants) => match variant_named(&variants, variant.as_str()) {
                        Some(vi) => {
                            match (&variants[vi].ty, value) {
                                (Some(expected_ty), Some(val_expr)) => {
                                    let val_ty = self.infer_expr(val_expr, scope);
                                    if let Some(vt) = &val_ty {
                                        if !types_compatible(expected_ty, vt) {
                                            self.err(
                                                "E002",
                                                cat(vec!["Enum variant '", enum_name.as_str(), ".", variant.as_str(), "' expects ", ty_name(expected_ty).as_str(), ", got ", ty_name(vt).as_str()]),
                                                cat(vec!["Pass a ", ty_name(expected_ty).as_str(), " value to ", enum_name.as_str(), ".", variant.as_str()]),
                                            );
                                        }
                                    }
                                },
                                (None, Some(val_expr)) => {
                                    self.infer_expr(val_expr, scope);
                                    self.err(
                                        "E039",
                                        cat(vec!["Enum variant '", enum_name.as_str(), ".", variant.as_str(), "' takes no payload"]),
                                        cat(vec!["Use '", enum_name.as_str(), ".", variant.as_str(), "' without parentheses"]),
                                    );
                                },
                                (Some(expected_ty), None) => {
                                    self.err(
                                        "E039",
                                        cat(vec!["Enum variant '", enum_name.as_str(), ".", variant.as_str(), "' requires a ", ty_name(expected_ty).as_str(), " payload"]),
                                        cat(vec!["Use '", enum_name.as_str(), ".", variant.as_str(), "(value)'"]),
                                    );
                                },
                                (None, None) => {},
                            }
                        },
                        None => {
                            self.err(
                                "E037",
                                cat(vec!["Enum '", enum_name.as_str(), "' has no variant '", variant.as_str(), "'"]),
                                cat(vec!["Available variants: ", variant_names(&variants).as_str()]),
                            );
                        },
                    },
                    None => {
                        self.err("E038", cat(vec!["Unknown enum type '", enum_name.as_str(), "'"]), cat(vec!["Declare 'enum ", enum_name.as_str(), " { ... }' before using it"]));
                    },
                }
                Some(Ty::Enum(copy_text(enum_name.as_str())))
            },
            _ => None,
        }
    }

    /// Infers each of `args`, for what it reports.
    fn infer_all(&mut self, args: &Vec<Expr>, scope: &Scope)
        requires
            old(self).wf(),
            scope.wf(),
        ensures
            final(self).keeps(*old(self)),
            grows(old(self).reported(), final(self).reported()),
            final(self).anchored() == old(self).anchored(),
        decreases args, 0nat,
    {
        let mut k: usize = 0;
        while k < args.len()
            invariant
                k <= args@.len(),
                self.keeps(*old(self)),
                grows(old(self).reported(), self.reported()),
                self.anchored() == old(self).anchored(),
                scope.wf(),
            decreases args@.len() - k,
        {
            proof {
                vstd::std_specs::vec::axiom_vec_index_decreases(*args, k as int);
            }
            self.infer_expr(&args[k], scope);
            k = k + 1;
        }
    }

    /// Infers each of `args` and reports those that do not fit the
    /// parameter types, `params[skip + i]` for argument `i`.
    fn check_args(&mut self, args: &Vec<Expr>, scope: &Scope, params: &Vec<Ty>, skip: usize, callee: &str)
        requires
            old(self).wf(),
            scope.wf(),
            skip <= 1,
        ensures
            final(self).keeps(*old(self)),
            grows(old(self).reported(), final(self).reported()),
            final(self).anchored() == old(self).anchored(),
        decreases args, 0nat,
    {
        let mut k: usize = 0;
        while k < args.len()
            invariant
                k <= args@.len(),
                skip <= 1,
                self.keeps(*old(self)),
                grows(old(self).reported(), self.reported()),
                self.anchored() == old(self).anchored(),
                scope.wf(),
            decreases args@.len() - k,
        {
            proof {
                vstd::std_specs::vec::axiom_vec_index_decreases(*args, k as int);
            }
            let arg_ty = self.infer_expr(&args[k], scope);
            if let Some(at) = &arg_ty {
                if k + skip < params.len() {
                    let expected = &params[k + skip];
                    if !types_compatible(expected, at) {
                        self.err(
                            "E012",
                            cat(vec!["Arg ", num(k + 1).as_str(), " of '", callee, "' \u{2014} expected ", ty_name(expected).as_str(), ", got ", ty_name(at).as_str()]),
                            cat(vec!["Pass a ", ty_name(expected).as_str(), " value as argument ", num(k + 1).as_str()]),
                        );
                    }
                }
            }
            k = k + 1;
        }
    }

    /// Adds the global constants that `scope` does not name yet.
    fn add_globals(&self, scope: &mut Scope)
        requires
            self.wf(),
            old(scope).wf(),
        ensures
            final(scope).wf(),
    {
        let names = self.global_consts.names();
        let mut i: usize = 0;
        while i < names.len()
            invariant
                scope.wf(),
                self.wf(),
                i <= names@.len(),
            decreases names@.len() - i,
        {
            if !scope.contains_key(names[i].as_str()) {
                match self.global_consts.get(names[i].as_str()) {
                    Some(info) => {
                        scope.insert(copy_text(names[i].as_str()), info.clone());
                    },
                    None => {},
                }
            }
            i = i + 1;
        }
    }

    /// Checks the statements of a function body in `scope`, which the
    /// global constants join, each statement's declaration staying in scope
    /// for the ones after it.
    pub fn check_stmts(&mut self, stmts: &Vec<(Stmt, Span)>, scope: &mut Scope, return_ty: Option<&Ty>)
        requires
            old(self).wf(),
            old(scope).wf(),
        ensures
            final(self).keeps(*old(self)),
            grows(old(self).reported(), final(self).reported()),
            final(self).anchored() == old(self).anchored(),
            final(scope).wf(),
        decreases stmts, 0nat,
    {
        self.add_globals(scope);
        let mut k: usize = 0;
        while k < stmts.len()
            invariant
                k <= stmts@.len(),
                self.keeps(*old(self)),
                grows(old(self).reported(), self.reported()),
                self.anchored() == old(self).anchored(),
                scope.wf(),
            decreases stmts@.len() - k,
        {
            proof {
                vstd::std_specs::vec::axiom_vec_index_decreases(*stmts, k as int);
            }
            self.set_span(stmts[k].1);
            self.check_stmt_scoped(&stmts[k].0, scope, return_ty);
            self.collect_decl(&stmts[k].0, scope);
            k = k + 1;
        }
    }

    /// Checks a nested block: its declarations leave `scope` when it ends.
    /// Statements after one that leaves the block are reported once as
    /// unreachable; variables declared in it and never used are reported
    /// (but for names starting with `_`, or under `no_unused`).
    pub fn check_scoped_block(&mut self, stmts: &Vec<(Stmt, Span)>, scope: &mut Scope, return_ty: Option<&Ty>)
        requires
            old(self).wf(),
            old(scope).wf(),
        ensures
            final(self).keeps(*old(self)),
            grows(old(self).reported(), final(self).reported()),
            final(self).anchored() == old(self).anchored(),
            final(scope).wf(),
            keeps_scope_ss(*stmts, 0) ==> final(scope).map() == old(scope).map(),
        decreases stmts, 0nat,
    {
        let ghost m0 = scope.map();
        let ghost mut ds: Seq<(Seq<char>, (TyV, bool))> = Seq::empty();
        let mut scope_log: crate::analyzer::scope::ScopeLog = Vec::new();
        let mut decl_names: Vec<String> = Vec::new();
        let mut decl_spans: Vec<Span> = Vec::new();
        let mut found_exit = false;
        let mut k: usize = 0;
        while k < stmts.len()
            invariant
                k <= stmts@.len(),
                self.keeps(*old(self)),
                grows(old(self).reported(), self.reported()),
                self.anchored() == old(self).anchored(),
                scope.wf(),
                decl_names@.len() == decl_spans@.len(),
                keeps_scope_ss(*stmts, 0) ==> scope.map() == declare_all(m0, ds).0 && log_view(scope_log@)
                    == declare_all(m0, ds).1,
            decreases stmts@.len() - k,
        {
            proof {
                vstd::std_specs::vec::axiom_vec_index_decreases(*stmts, k as int);
            }
            let (stmt, sp) = (&stmts[k].0, stmts[k].1);
            self.set_span(sp);
            if found_exit && k > 0 {
                self.warn("W004", copy_text("Unreachable code after return/exit/break/kill"), copy_text("Remove or move the code before the exit point"));
                break;
            }
            if Self::stmt_is_early_exit(stmt) {
                found_exit = true;
            }
            proof {
                if keeps_scope_ss(*stmts, 0) {
                    lemma_keeps_scope_at(*stmts, 0, k as int);
                }
            }
            self.check_stmt_scoped(stmt, scope, return_ty);
            let declared: Option<&String> = match stmt {
                Stmt::VarDecl { name, .. } => Some(name),
                Stmt::VaultDecl { name, .. } => Some(name),
                Stmt::For { var, .. } => Some(var),
                _ => None,
            };
            if let Some(n) = declared {
                if index_of(&decl_names, n.as_str()).is_none() {
                    decl_names.push(copy_text(n.as_str()));
                    decl_spans.push(sp);
                }
            }
            let ghost mid = scope.map();
            self.collect_decl_with_log(stmt, scope, &mut scope_log);
            proof {
                match decl_of(*stmt) {
                    Some((n, info, _)) => {
                        let ds2 = ds.push((n, info));
                        assert(ds2.drop_last() =~= ds);
                        ds = ds2;
                    },
                    None => {},
                }
            }
            k = k + 1;
        }
        proof {
            if keeps_scope_ss(*stmts, 0) {
                lemma_undo_restores(m0, ds);
            }
        }
        if !self.config.no_unused {
            let mut j: usize = 0;
            while j < decl_names.len()
                invariant
                    j <= decl_names@.len(),
                    decl_names@.len() == decl_spans@.len(),
                    self.keeps(*old(self)),
                    grows(old(self).reported(), self.reported()),
                    self.anchored() == old(self).anchored(),
                decreases decl_names@.len() - j,
            {
                let n = decl_names[j].as_str();
                let starts_underscore = {
                    let cs = text::chars_of(n);
                    cs.len() > 0 && cs[0] == '_'
                };
                if !starts_underscore && index_of(&self.used_vars, n).is_none() {
                    self.set_span(decl_spans[j]);
                    self.warn("W003", cat(vec!["Variable '", n, "' is declared but never used"]), cat(vec!["Prefix with '_' to suppress: _", n]));
                }
                j = j + 1;
            }
        }
        Self::restore_scope(scope, scope_log);
    }

    /// Reports that `name` is not declared, with a hint on how to declare it.
    fn undeclared_assign(&mut self, name: &str, example: &str, rhs: &str)
        ensures
            final(self).same_state(*old(self)),
            grows(old(self).reported(), final(self).reported()),
            final(self).anchored() == old(self).anchored(),
    {
        self.err("E004", cat(vec!["Undeclared variable '", name, "'"]), cat(vec!["Declare '", name, "' before use \u{2014} e.g. ", example, " ", name, " = ", rhs, ";"]));
    }

    /// Reports a struct type that is not declared.
    fn check_struct_known(&mut self, ty: &Ty)
        requires
            old(self).wf(),
        ensures
            final(self).keeps(*old(self)),
            grows(old(self).reported(), final(self).reported()),
            final(self).anchored() == old(self).anchored(),
    {
        if let Ty::Struct(sname) = ty {
            if index_of(&self.struct_names, sname.as_str()).is_none() {
                self.err("E026", cat(vec!["Unknown struct type '", sname.as_str(), "'"]), cat(vec!["Declare 'struct ", sname.as_str(), " { ... }' before using it"]));
            }
        }
    }

    /// Checks one statement in `scope`: the types of what it declares,
    /// assigns, returns or tests, where `Kill` and `yield` stand, loops and
    /// matches; nested blocks are checked with their own declarations, which
    /// leave `scope` when they end.
    #[verifier::loop_isolation(false)]
    #[verifier::spinoff_prover]
    #[verifier::rlimit(100)]
    pub fn check_stmt_scoped(&mut self, stmt: &Stmt, scope: &mut Scope, return_ty: Option<&Ty>)
        requires
            old(self).wf(),
            old(scope).wf(),
        ensures
            final(self).keeps(*old(self)),
            grows(old(self).reported(), final(self).reported()),
            final(self).anchored() == old(self).anchored(),
            final(scope).wf(),
            keeps_scope_s(*stmt) ==> final(scope).map() == old(scope).map(),
        decreases stmt, 0nat,
    {
        match stmt {
            Stmt::VarDecl { ty, name, value } => {
                let effective_ty = if matches!(ty, Ty::Auto) {
                    match self.infer_expr(value, scope) {
                        Some(vt) => {
                            let prev = match scope.get(name.as_str()) {
                                Some(info) => Some(info.is_vault),
                                None => None,
                            };
                            if let Some(v) = prev {
                                scope.insert(copy_text(name.as_str()), VarInfo { ty: vt.clone(), is_vault: v });
                            }
                            vt
                        },
                        None => {
                            self.err("E035", copy_text("Cannot infer type for 'auto' declaration"), copy_text("Specify the type explicitly"));
                            Ty::Int
                        },
                    }
                } else {
                    ty.clone()
                };
                self.check_struct_known(&effective_ty);
                if !matches!(ty, Ty::Auto) {
                    let val_ty = self.infer_expr(value, scope);
                    if let Some(vt) = &val_ty {
                        if !types_compatible(&effective_ty, vt) {
                            self.err(
                                "E002",
                                cat(vec!["Type mismatch \u{2014} expected ", ty_name(&effective_ty).as_str(), ", got ", ty_name(vt).as_str()]),
                                cat(vec!["Change the value to type ", ty_name(&effective_ty).as_str(), ", or declare as ", ty_name(vt).as_str()]),
                            );
                        }
                    }
                }
                self.check_int_range(&effective_ty, value);
            },
            Stmt::VaultDecl { ty, value, .. } => {
                self.check_struct_known(ty);
                let val_ty = self.infer_expr(value, scope);
                if let Some(vt) = &val_ty {
                    if !types_compatible(ty, vt) {
                        self.err(
                            "E002",
                            cat(vec!["Type mismatch in vault \u{2014} expected ", ty_name(ty).as_str(), ", got ", ty_name(vt).as_str()]),
                            cat(vec!["Change the value to type ", ty_name(ty).as_str(), ", or declare vault as ", ty_name(vt).as_str()]),
                        );
                    }
                }
                self.check_int_range(ty, value);
            },
            Stmt::Assign { name, value } => {
                match scope.get(name.as_str()) {
                    Some(info) => {
                        let declared = info.ty.clone();
                        let val_ty = self.infer_expr(value, scope);
                        if let Some(vt) = &val_ty {
                            if !types_compatible(&declared, vt) {
                                self.err(
                                    "E003",
                                    cat(vec!["Cannot assign ", ty_name(vt).as_str(), " to '", name.as_str(), "' (declared as ", ty_name(&declared).as_str(), ")"]),
                                    cat(vec!["Convert the value to ", ty_name(&declared).as_str(), ", or change '", name.as_str(), "' declaration"]),
                                );
                            }
                        }
                    },
                    None => {
                        self.undeclared_assign(name.as_str(), "int", "...");
                        self.infer_expr(value, scope);
                    },
                }
            },
            Stmt::IndexAssign { name, index, value } => {
                match scope.get(name.as_str()) {
                    Some(info) => {
                        let declared = info.ty.clone();
                        match &declared {
                            Ty::Array(inner) => {
                                let idx_ty = self.infer_expr(index, scope);
                                if let Some(it) = &idx_ty {
                                    if !matches!(it, Ty::Int) {
                                        self.err("E014", cat(vec!["Array index must be int, got ", ty_name(it).as_str()]), copy_text("Use an integer value for array indexing"));
                                    }
                                }
                                let val_ty = self.infer_expr(value, scope);
                                if let Some(vt) = &val_ty {
                                    if !types_compatible(inner, vt) {
                                        self.err(
                                            "E002",
                                            cat(vec!["Type mismatch \u{2014} expected ", ty_name(inner).as_str(), ", got ", ty_name(vt).as_str()]),
                                            cat(vec!["Array element type is ", ty_name(inner).as_str()]),
                                        );
                                    }
                                }
                            },
                            _ => {
                                self.err("E015", cat(vec!["Cannot index into non-array type ", ty_name(&declared).as_str()]), copy_text("Only array types support indexing"));
                                self.infer_expr(index, scope);
                                self.infer_expr(value, scope);
                            },
                        }
                    },
                    None => {
                        self.undeclared_assign(name.as_str(), "int[]", "[...]");
                        self.infer_expr(index, scope);
                        self.infer_expr(value, scope);
                    },
                }
            },
            Stmt::FieldAssign { name, field, value } => {
                match scope.get(name.as_str()) {
                    Some(info) => {
                        let declared = info.ty.clone();
                        match &declared {
                            Ty::Struct(sname) => {
                                match self.struct_def(sname.as_str()) {
                                    Some(fs) => match field_named(&fs, field.as_str()) {
                                        Some(d) => {
                                            let expected_ty = fs[d].ty.clone();
                                            let val_ty = self.infer_expr(value, scope);
                                            if let Some(vt) = &val_ty {
                                                if !types_compatible(&expected_ty, vt) {
                                                    self.err(
                                                        "E002",
                                                        cat(vec!["Type mismatch for field '", name.as_str(), ".", field.as_str(), "' \u{2014} expected ", ty_name(&expected_ty).as_str(), ", got ", ty_name(vt).as_str()]),
                                                        cat(vec!["Field '", name.as_str(), ".", field.as_str(), "' type is ", ty_name(&expected_ty).as_str()]),
                                                    );
                                                }
                                            }
                                        },
                                        None => {
                                            self.err("E027", cat(vec!["Struct '", sname.as_str(), "' has no field '", field.as_str(), "'"]), copy_text("Check the struct declaration for available fields"));
                                            self.infer_expr(value, scope);
                                        },
                                    },
                                    None => {},
                                }
                            },
                            _ => {
                                self.err(
                                    "E028",
                                    cat(vec!["Cannot assign field '", name.as_str(), ".", field.as_str(), "' on non-struct type ", ty_name(&declared).as_str()]),
                                    copy_text("Field assignment requires a struct variable"),
                                );
                                self.infer_expr(value, scope);
                            },
                        }
                    },
                    None => {
                        self.undeclared_var(name.as_str(), scope);
                        self.infer_expr(value, scope);
                    },
                }
            },
            Stmt::CompoundAssign { name, value, .. } => {
                match scope.get(name.as_str()) {
                    Some(info) => {
                        let declared = info.ty.clone();
                        let val_ty = self.infer_expr(value, scope);
                        if let Some(vt) = &val_ty {
                            if !types_compatible(&declared, vt) {
                                self.err(
                                    "E003",
                                    cat(vec!["Cannot compound-assign ", ty_name(vt).as_str(), " to '", name.as_str(), "' (declared as ", ty_name(&declared).as_str(), ")"]),
                                    cat(vec!["Ensure the right-hand side is type ", ty_name(&declared).as_str()]),
                                );
                            }
                        }
                    },
                    None => {
                        self.undeclared_assign(name.as_str(), "int", "...");
                        self.infer_expr(value, scope);
                    },
                }
            },
            Stmt::Kill(e) => {
                if !self.in_anchor {
                    self.err("E023", copy_text("'Kill' can only be used inside an anchor"), copy_text("Move this Kill into an @anchor() { ... } block"));
                }
                if let Some(x) = e {
                    self.infer_expr(x, scope);
                }
            },
            Stmt::Exit | Stmt::Break | Stmt::Free(_) => {},
            Stmt::Yield(e) => {
                if !self.in_anchor {
                    self.err("E020", copy_text("'yield' can only be used inside an anchor"), copy_text("Move this yield into an @anchor() { ... } block"));
                }
                self.infer_expr(e, scope);
            },
            Stmt::Print(args) => {
                self.infer_all(args, scope);
            },
            Stmt::Assert { cond, message } => {
                let cond_ty = self.infer_expr(cond, scope);
                if let Some(ct) = &cond_ty {
                    if !matches!(ct, Ty::Bool) {
                        self.err("E036", cat(vec!["assert condition must be bool, got ", ty_name(ct).as_str()]), copy_text("Use a boolean expression as the assert condition"));
                    }
                }
                if let Some(m) = message {
                    self.infer_expr(m, scope);
                }
            },
            Stmt::Return(Some(e)) => {
                let val_ty = self.infer_expr(e, scope);
                if let (Some(expected), Some(got)) = (return_ty, &val_ty) {
                    if !types_compatible(expected, got) {
                        self.err(
                            "E005",
                            cat(vec!["Return type mismatch \u{2014} expected ", ty_name(expected).as_str(), ", got ", ty_name(got).as_str()]),
                            cat(vec!["Return a ", ty_name(expected).as_str(), " value, or change the function signature"]),
                        );
                    }
                }
            },
            Stmt::Return(None) => {
                if let Some(expected) = return_ty {
                    self.err(
                        "E005",
                        cat(vec!["Return type mismatch \u{2014} expected ", ty_name(expected).as_str(), ", got nothing"]),
                        copy_text("Add a return value, or change the function to return nothing"),
                    );
                }
            },
            Stmt::If { cond, then_body, else_body } => {
                let cond_ty = self.infer_expr(cond, scope);
                if let Some(ct) = &cond_ty {
                    if !matches!(ct, Ty::Bool) {
                        self.err("E006", cat(vec!["Condition must be bool, got ", ty_name(ct).as_str()]), copy_text("Use a comparison (e.g. x > 0) or a bool variable"));
                    }
                }
                self.check_scoped_block(then_body, scope, return_ty);
                if let Some(eb) = else_body {
                    self.check_scoped_block(eb, scope, return_ty);
                }
            },
            Stmt::Loop(body) => {
                if !Self::block_has_break(body) {
                    self.warn("W005", copy_text("Infinite loop: 'loop' has no 'break' statement"), copy_text("Add a 'break;' statement or use 'while cond { }' instead"));
                }
                self.check_vault_in_loop(body, "loop");
                self.check_scoped_block(body, scope, return_ty);
            },
            Stmt::While { cond, body } => {
                let cond_ty = self.infer_expr(cond, scope);
                if let Some(ct) = &cond_ty {
                    if !matches!(ct, Ty::Bool) {
                        self.err("E006", cat(vec!["While condition must be bool, got ", ty_name(ct).as_str()]), copy_text("Use a comparison (e.g. x > 0) or a bool variable"));
                    }
                }
                self.check_vault_in_loop(body, "while");
                self.check_scoped_block(body, scope, return_ty);
            },
            Stmt::For { from, to, body, .. } => {
                self.infer_expr(from, scope);
                self.infer_expr(to, scope);
                self.check_vault_in_loop(body, "for");
                let ghost m0 = scope.map();
                let mut for_scope_log: crate::analyzer::scope::ScopeLog = Vec::new();
                self.collect_decl_with_log(stmt, scope, &mut for_scope_log);
                self.check_scoped_block(body, scope, return_ty);
                proof {
                    if let Some((n, info, _)) = decl_of(*stmt) {
                        let one = seq![(n, info)];
                        assert(one.drop_last() =~= Seq::<(Seq<char>, (TyV, bool))>::empty());
                        assert(declare_all(m0, Seq::<(Seq<char>, (TyV, bool))>::empty()) == (m0, Seq::<(Seq<char>, Option<(TyV, bool)>)>::empty()));
                        assert(declare_all(m0, one).1 =~= seq![declare(m0, n, info).1]);
                        assert(declare_all(m0, one).0 == declare(m0, n, info).0);
                        assert(log_view(for_scope_log@) =~= declare_all(m0, one).1);
                        lemma_undo_restores(m0, one);
                    }
                }
                Self::restore_scope(scope, for_scope_log);
            },
            Stmt::InlineAnchor { body, .. } => {
                let saved = self.in_anchor;
                self.in_anchor = true;
                self.check_scoped_block(body, scope, return_ty);
                self.in_anchor = saved;
            },
            Stmt::Match { expr, arms } => {
                let expr_ty = self.infer_expr(expr, scope);
                let mut has_wildcard = false;
                let mut k: usize = 0;
                while k < arms.len()
                    invariant
                        k <= arms@.len(),
                        self.keeps(*old(self)),
                        grows(old(self).reported(), self.reported()),
                        self.anchored() == old(self).anchored(),
                        scope.wf(),
                    decreases arms@.len() - k,
                {
                    proof {
                        vstd::std_specs::vec::axiom_vec_index_decreases(*arms, k as int);
                    }
                    let arm = &arms[k];
                    match &arm.pattern {
                        Pattern::Wildcard => {
                            has_wildcard = true;
                        },
                        Pattern::EnumVariant { enum_name, variant, .. } => {
                            match self.enum_def(enum_name.as_str()) {
                                Some(variants) => {
                                    if variant_named(&variants, variant.as_str()).is_none() {
                                        self.err(
                                            "E037",
                                            cat(vec!["Enum '", enum_name.as_str(), "' has no variant '", variant.as_str(), "'"]),
                                            cat(vec!["Available variants: ", variant_names(&variants).as_str()]),
                                        );
                                    }
                                },
                                None => {
                                    self.err("E038", cat(vec!["Unknown enum type '", enum_name.as_str(), "'"]), cat(vec!["Declare 'enum ", enum_name.as_str(), " { ... }' before using it"]));
                                },
                            }
                        },
                        _ => {},
                    }
                    let mut arm_scope = scope.duplicate();
                    if let Pattern::EnumVariant { enum_name, variant, binding: Some(bind_name) } = &arm.pattern {
                        if let Some(variants) = self.enum_def(enum_name.as_str()) {
                            if let Some(vi) = variant_named(&variants, variant.as_str()) {
                                if let Some(payload_ty) = &variants[vi].ty {
                                    arm_scope.insert(copy_text(bind_name.as_str()), VarInfo { ty: payload_ty.clone(), is_vault: false });
                                }
                            }
                        }
                    }
                    self.check_scoped_block(&arm.body, &mut arm_scope, return_ty);
                    k = k + 1;
                }
                if let Some(Ty::Enum(ename)) = &expr_ty {
                    if !has_wildcard {
                        if let Some(variants) = self.enum_def(ename.as_str()) {
                            let mut v: usize = 0;
                            while v < variants.len()
                                invariant
                                    v <= variants@.len(),
                                    self.keeps(*old(self)),
                                    grows(old(self).reported(), self.reported()),
                                    self.anchored() == old(self).anchored(),
                                decreases variants@.len() - v,
                            {
                                let mut covered = false;
                                let mut a: usize = 0;
                                while a < arms.len()
                                    invariant
                                        a <= arms@.len(),
                                        v < variants@.len(),
                                    decreases arms@.len() - a,
                                {
                                    if let Pattern::EnumVariant { variant, .. } = &arms[a].pattern {
                                        if crate::hover::same_text(variant.as_str(), variants[v].name.as_str()) {
                                            covered = true;
                                        }
                                    }
                                    a = a + 1;
                                }
                                if !covered {
                                    self.warn(
                                        "W006",
                                        cat(vec!["Non-exhaustive match: variant '", ename.as_str(), ".", variants[v].name.as_str(), "' not covered"]),
                                        cat(vec!["Add '", ename.as_str(), ".", variants[v].name.as_str(), " => { ... }' or '_ => { ... }' as a catch-all"]),
                                    );
                                }
                                v = v + 1;
                            }
                        }
                    }
                }
            },
            Stmt::ExprStmt(e) => {
                self.infer_expr(e, scope);
            },
            Stmt::ConstDecl { ty, name, value } => {
                let effective_ty = if matches!(ty, Ty::Auto) {
                    match self.infer_expr(value, scope) {
                        Some(t) => t,
                        None => Ty::Int,
                    }
                } else {
                    ty.clone()
                };
                scope.insert(copy_text(name.as_str()), VarInfo { ty: effective_ty, is_vault: false });
                self.infer_expr(value, scope);
            },
        }
    }

    /// Checks an anchor's body in a scope that holds what the enclosing
    /// anchors declared before it and the global constants, then its
    /// children; `Kill` and `yield` are allowed there.
    #[verifier::loop_isolation(false)]
    #[verifier::spinoff_prover]
    #[verifier::rlimit(100)]
    pub fn check_anchor(&mut self, anchor: &TopLevel, inherited: &Scope)
        requires
            old(self).wf(),
            inherited.wf(),
        ensures
            final(self).keeps(*old(self)),
            grows(old(self).reported(), final(self).reported()),
            final(self).anchored() == old(self).anchored(),
        decreases anchor,
    {
        if let TopLevel::Anchor { kind, body, children, .. } = anchor {
            match kind {
                AnchorKind::Thread => {
                    self.err("E024", copy_text("Anchor kind 'Thread' is parsed but not implemented"), copy_text("Use plain @name() or @main(main) until runtime semantics are implemented"));
                },
                AnchorKind::Event(e) => {
                    self.err(
                        "E024",
                        cat(vec!["Anchor kind 'Event(", crate::parser::debug_str(e.as_str()).as_str(), ")' is parsed but not implemented"]),
                        copy_text("Use plain @name() or @main(main) until runtime semantics are implemented"),
                    );
                },
                _ => {},
            }
            let saved = self.in_anchor;
            self.in_anchor = true;
            let mut scope = inherited.duplicate();
            self.add_globals(&mut scope);
            let mut k: usize = 0;
            while k < body.len()
                invariant
                    k <= body@.len(),
                    self.keeps(*old(self)),
                    grows(old(self).reported(), self.reported()),
                    self.in_anchor,
                    scope.wf(),
                decreases body@.len() - k,
            {
                self.set_span(body[k].1);
                self.check_stmt_scoped(&body[k].0, &mut scope, None);
                self.collect_decl(&body[k].0, &mut scope);
                k = k + 1;
            }
            let mut c: usize = 0;
            while c < children.len()
                invariant
                    c <= children@.len(),
                    self.keeps(*old(self)),
                    grows(old(self).reported(), self.reported()),
                    self.in_anchor,
                    scope.wf(),
                decreases children@.len() - c,
            {
                proof {
                    vstd::std_specs::vec::axiom_vec_index_decreases(*children, c as int);
                }
                self.check_anchor(&children[c].0, &scope);
                c = c + 1;
            }
            self.in_anchor = saved;
        }
    }

    /// A scope with the parameters of a function.
    fn param_scope(params: &Vec<crate::ast::Param>) -> (r: Scope)
        ensures
            r.wf(),
    {
        let mut scope = Scope::new();
        let mut i: usize = 0;
        while i < params.len()
            invariant
                scope.wf(),
            decreases params@.len() - i,
        {
            scope.insert(copy_text(params[i].name.as_str()), VarInfo { ty: params[i].ty.clone(), is_vault: false });
            i = i + 1;
        }
        scope
    }

    /// Checks the bodies of the program's anchors, functions (but generic
    /// ones, whose types are known only when they are used), impl methods
    /// and module functions; a function with a return type must return on
    /// every path.
    fn check_bodies(&mut self, items: &Vec<(TopLevel, Span)>)
        requires
            old(self).wf(),
        ensures
            final(self).keeps(*old(self)),
            grows(old(self).reported(), final(self).reported()),
    {
        let empty = Scope::new();
        let mut k: usize = 0;
        while k < items.len()
            invariant
                k <= items@.len(),
                self.keeps(*old(self)),
                grows(old(self).reported(), self.reported()),
                empty.wf(),
            decreases items@.len() - k,
        {
            let (item, item_span) = (&items[k].0, items[k].1);
            match item {
                TopLevel::Anchor { .. } => {
                    self.check_anchor(item, &empty);
                },
                TopLevel::Function { name, params, return_ty, body, type_params, .. } => {
                    if type_params.len() == 0 {
                        let mut scope = Self::param_scope(params);
                        let rt: Option<&Ty> = match return_ty {
                            Some(t) => Some(t),
                            None => None,
                        };
                        self.check_stmts(body, &mut scope, rt);
                        if return_ty.is_some() && !Self::block_definitely_exits(body) {
                            self.set_span(item_span);
                            self.err(
                                "E033",
                                cat(vec!["Function '", name.as_str(), "' may not return a value on all paths"]),
                                copy_text("Ensure every code path has a return statement"),
                            );
                        }
                    }
                },
                TopLevel::Impl { methods, .. } => {
                    self.check_methods(methods);
                },
                TopLevel::Module { items: mod_items, .. } => {
                    self.check_methods(mod_items);
                },
                _ => {},
            }
            k = k + 1;
        }
    }

    /// Checks the bodies of the functions among `items` (those of an impl
    /// block or a module).
    fn check_methods(&mut self, items: &Vec<(TopLevel, Span)>)
        requires
            old(self).wf(),
        ensures
            final(self).keeps(*old(self)),
            grows(old(self).reported(), final(self).reported()),
            final(self).anchored() == old(self).anchored(),
    {
        let mut k: usize = 0;
        while k < items.len()
            invariant
                k <= items@.len(),
                self.keeps(*old(self)),
                grows(old(self).reported(), self.reported()),
                self.anchored() == old(self).anchored(),
            decreases items@.len() - k,
        {
            if let TopLevel::Function { params, return_ty, body, .. } = &items[k].0 {
                let mut scope = Self::param_scope(params);
                let rt: Option<&Ty> = match return_ty {
                    Some(t) => Some(t),
                    None => None,
                };
                self.check_stmts(body, &mut scope, rt);
            }
            k = k + 1;
        }
    }

    /// The whole analysis of a program: the checks on its declarations,
    /// then on the bodies of its anchors and functions. The declarations'
    /// diagnostics come first, as `check_declarations` gives them.
    pub fn analyze_with_config(program: &Program, source: &str, config: AnalyzerConfig) -> (r: Vec<CompileError>)
        ensures
            grows(
                declaration_checks(
                    Analyzer::new_decls(),
                    program.items@,
                    Span { line: 0, col: 0 },
                    text::lines(source@),
                ).1,
                r@.map_values(|e: CompileError| e@),
            ),
    {
        let mut a = Analyzer::new(source, config);
        a.check_declarations(program);
        a.check_bodies(&program.items);
        a.into_errors()
    }

    /// The whole analysis with the default switches.
    pub fn analyze(program: &Program, source: &str) -> (r: Vec<CompileError>)
        ensures
            grows(
                declaration_checks(
                    Analyzer::new_decls(),
                    program.items@,
                    Span { line: 0, col: 0 },
                    text::lines(source@),
                ).1,
                r@.map_values(|e: CompileError| e@),
            ),
    {
        Self::analyze_with_config(program, source, AnalyzerConfig::default())
    }

    /// No declarations.
    pub open spec fn new_decls() -> DeclsV {
        DeclsV {
            fn_names: Seq::empty(),
            fn_sigs: Seq::empty(),
            struct_names: Seq::empty(),
            struct_fields: Seq::empty(),
            enum_names: Seq::empty(),
            enum_variants: Seq::empty(),
            modules: Seq::empty(),
            consts: Map::empty(),
        }
    }
}

} // verus!
