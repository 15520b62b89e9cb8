use kyte::analyzer::scope::Scope;
use kyte::analyzer::{Analyzer, AnalyzerConfig, VarInfo};
use kyte::ast::{
    AnchorKind, Expr, Param, Program, Span, Stmt, StructField, TopLevel, Ty, UnaryOpKind,
};
use kyte::diagnostics::{CompileError, Severity};

fn s(x: &str) -> String {
    x.to_string()
}

fn sp(line: usize, col: usize) -> Span {
    Span { line, col }
}

fn codes(a: &Analyzer) -> Vec<&'static str> {
    a.errors().iter().map(|e| e.code).collect()
}

fn main_anchor(name: &str) -> TopLevel {
    TopLevel::Anchor { name: s(name), kind: AnchorKind::Main, body: vec![], children: vec![] }
}

fn function(name: &str, params: Vec<Param>, ret: Option<Ty>) -> TopLevel {
    TopLevel::Function {
        name: s(name),
        type_params: vec![],
        params,
        return_ty: ret,
        body: vec![],
        decorators: vec![],
    }
}

fn field(name: &str, ty: Ty) -> StructField {
    StructField { ty, name: s(name) }
}

#[test]
fn renders_an_error_with_its_source_line() {
    let e = CompileError {
        code: "E004",
        severity: Severity::Error,
        message: s("Undeclared variable 'x'"),
        hint: s("Declare it"),
        span: sp(3, 4),
        source_line: s("    y = x;  "),
    };
    let want = "  \x1b[1;31m\u{2718} ERROR [E004]\x1b[0m \x1b[1mUndeclared variable 'x'\x1b[0m\n\
                \x20    \x1b[2m\u{2500}\u{2192} line 3:4\x1b[0m\n\
                \x20     \x1b[2m\u{2502}\x1b[0m\n\
                \x20 \x1b[2m  3\x1b[0m \x1b[2m\u{2502}\x1b[0m     y = x;\n\
                \x20     \x1b[2m\u{2502}\x1b[0m     \x1b[1;31m\u{2500}\u{2500}\u{2500}\u{2500}\u{2500}\u{2500}\x1b[0m\n\
                \x20     \x1b[1;36m\u{21B3} hint:\x1b[0m \x1b[2mDeclare it\x1b[0m\n";
    assert_eq!(e.render(), want);
}

#[test]
fn renders_a_warning_on_a_blank_line_without_quoting() {
    let e = CompileError {
        code: "W003",
        severity: Severity::Warning,
        message: s("m"),
        hint: s("h"),
        span: sp(1234, 0),
        source_line: s("   "),
    };
    let want = "  \x1b[1;33m\u{26A0} WARN  [W003]\x1b[0m \x1b[1mm\x1b[0m\n\
                \x20    \x1b[2m\u{2500}\u{2192} line 1234:0\x1b[0m\n\
                \x20     \x1b[1;36m\u{21B3} hint:\x1b[0m \x1b[2mh\x1b[0m\n";
    assert_eq!(e.render(), want);
}

#[test]
fn underline_counts_bytes_of_non_ascii_text() {
    let e = CompileError {
        code: "E1",
        severity: Severity::Error,
        message: s(""),
        hint: s(""),
        span: sp(1, 0),
        source_line: s("\u{e9}a"),
    };
    let r = e.render();
    // 'é' takes two bytes, 'a' one: three dashes
    assert!(r.contains("\x1b[1;31m\u{2500}\u{2500}\u{2500}\x1b[0m\n"));
    assert!(r.contains("\x1b[2m  1\x1b[0m"));
}

#[test]
fn errors_quote_the_current_line() {
    let mut a = Analyzer::new("first\nsecond\nthird", AnalyzerConfig::default());
    a.set_span(sp(2, 3));
    a.err("E100", s("msg"), s("hint"));
    a.set_span(sp(9, 0));
    a.warn("W100", s("w"), s("h"));
    a.set_span(sp(0, 0));
    a.err("E101", s("m"), s("h"));
    let e = a.errors();
    assert_eq!(e.len(), 3);
    assert_eq!(e[0].source_line, "second");
    assert_eq!(e[0].span, sp(2, 3));
    assert_eq!(e[0].severity, Severity::Error);
    assert_eq!(e[1].source_line, "");
    assert_eq!(e[1].severity, Severity::Warning);
    // line 0 quotes the first line
    assert_eq!(e[2].source_line, "first");
}

#[test]
fn werror_turns_warnings_into_errors() {
    let config = AnalyzerConfig { wall: false, werror: true, no_unused: false };
    let mut a = Analyzer::new("", config);
    a.warn("W001", s("m"), s("h"));
    assert_eq!(a.errors()[0].severity, Severity::Error);
    assert_eq!(a.errors()[0].code, "W001");
}

#[test]
fn undeclared_variable_hints() {
    let mut scope = Scope::new();
    scope.insert(s("count"), VarInfo { ty: Ty::Int, is_vault: false });
    let mut a = Analyzer::new("", AnalyzerConfig::default());
    a.err_undeclared_var("coutn", &scope);
    a.err_undeclared_var("zzz", &scope);
    let e = a.errors();
    assert_eq!(e[0].code, "E004");
    assert_eq!(e[0].message, "Undeclared variable 'coutn'");
    assert_eq!(e[0].hint, "Did you mean 'count' ?");
    assert_eq!(e[1].hint, "Declare 'zzz' before use, e.g. int zzz = ...;");
}

#[test]
fn undeclared_function_hints() {
    let mut a = Analyzer::new("", AnalyzerConfig::default());
    let items = vec![(main_anchor("main"), sp(1, 0)), (function("compute", vec![], None), sp(2, 0))];
    a.collect_declarations(&items);
    a.err_undeclared_fn("compte");
    a.err_undeclared_fn("q");
    let e = a.errors();
    assert_eq!(e[0].code, "E013");
    assert_eq!(e[0].message, "Undeclared function 'compte'");
    assert_eq!(e[0].hint, "Did you mean 'compute' ?");
    assert_eq!(e[1].hint, "Define 'q' with fn q(...) { ... }");
}

#[test]
fn scope_restores_shadowed_declarations() {
    let mut a = Analyzer::new("", AnalyzerConfig::default());
    let mut scope = Scope::new();
    scope.insert(s("x"), VarInfo { ty: Ty::Int, is_vault: false });
    let mut log = Vec::new();
    let shadow = Stmt::VarDecl { ty: Ty::Float, name: s("x"), value: Expr::IntLit(1) };
    let fresh = Stmt::VaultDecl { ty: Ty::Bool, name: s("y"), value: Expr::Bool(true) };
    a.collect_decl_with_log(&shadow, &mut scope, &mut log);
    a.collect_decl_with_log(&fresh, &mut scope, &mut log);
    assert_eq!(scope.get("x").unwrap().ty, Ty::Float);
    assert!(scope.get("y").unwrap().is_vault);
    assert_eq!(codes(&a), vec!["W001"]);
    assert_eq!(a.errors()[0].message, "Variable 'x' shadows a previous declaration");
    Analyzer::restore_scope(&mut scope, log);
    assert_eq!(scope.get("x").unwrap().ty, Ty::Int);
    assert!(!scope.contains_key("y"));
    assert_eq!(scope.names().len(), 1);
}

#[test]
fn for_loop_variable_is_an_int_and_not_warned() {
    let mut a = Analyzer::new("", AnalyzerConfig::default());
    let mut scope = Scope::new();
    scope.insert(s("i"), VarInfo { ty: Ty::Bool, is_vault: false });
    let f = Stmt::For { var: s("i"), from: Expr::IntLit(0), to: Expr::IntLit(3), body: vec![] };
    a.collect_decl(&f, &mut scope);
    assert_eq!(scope.get("i").unwrap().ty, Ty::Int);
    assert!(a.errors().is_empty());
}

#[test]
fn control_flow_of_blocks() {
    let ret = || (Stmt::Return(None), sp(1, 0));
    let print = (Stmt::Print(vec![]), sp(1, 0));
    assert!(Analyzer::stmt_is_early_exit(&Stmt::Exit));
    assert!(!Analyzer::stmt_is_early_exit(&Stmt::Free(s("x"))));
    assert!(Analyzer::block_definitely_exits(&vec![print, ret()]));
    let half = Stmt::If { cond: Expr::Bool(true), then_body: vec![ret()], else_body: None };
    assert!(!Analyzer::block_definitely_exits(&vec![(half, sp(1, 0))]));
    let both = Stmt::If {
        cond: Expr::Bool(true),
        then_body: vec![ret()],
        else_body: Some(vec![(Stmt::Kill(None), sp(2, 0))]),
    };
    assert!(Analyzer::block_definitely_exits(&vec![(both, sp(1, 0))]));
    let nested = Stmt::If {
        cond: Expr::Bool(true),
        then_body: vec![(Stmt::Break, sp(1, 0))],
        else_body: None,
    };
    assert!(Analyzer::block_has_break(&vec![(nested, sp(1, 0))]));
    let in_loop = Stmt::Loop(vec![(Stmt::Break, sp(1, 0))]);
    assert!(!Analyzer::block_has_break(&vec![(in_loop, sp(1, 0))]));
}

#[test]
fn vaults_in_loop_bodies() {
    let mut a = Analyzer::new("", AnalyzerConfig::default());
    let v = |n: &str| (Stmt::VaultDecl { ty: Ty::Int, name: s(n), value: Expr::IntLit(0) }, sp(1, 0));
    let body = vec![
        v("a"),
        (Stmt::If { cond: Expr::Bool(true), then_body: vec![v("b")], else_body: Some(vec![v("c")]) }, sp(2, 0)),
        (Stmt::Loop(vec![v("d")]), sp(3, 0)),
    ];
    a.check_vault_in_loop(&body, "while");
    let e = a.errors();
    assert_eq!(e.len(), 3);
    assert_eq!(e[0].code, "E050");
    assert_eq!(e[0].message, "Vault 'a' allocated inside 'while' loop \u{2014} potential memory accumulation");
    assert_eq!(
        e[0].hint,
        "Move 'Vault a' outside the loop, or restructure to avoid repeated heap allocation"
    );
    assert!(e[2].message.starts_with("Vault 'c'"));
}

#[test]
fn integer_literal_ranges() {
    let mut a = Analyzer::new("", AnalyzerConfig::default());
    a.check_int_range(&Ty::I8, &Expr::IntLit(300));
    a.check_int_range(&Ty::I8, &Expr::IntLit(127));
    let neg = Expr::UnaryOp { op: UnaryOpKind::Neg, expr: Box::new(Expr::IntLit(1)) };
    a.check_int_range(&Ty::U8, &neg);
    a.check_int_range(&Ty::Float, &Expr::IntLit(1_000_000));
    let e = a.errors();
    assert_eq!(e.len(), 2);
    assert_eq!(e[0].code, "W002");
    assert_eq!(e[0].message, "Integer literal 300 overflows type i8 (range -128..127)");
    assert_eq!(e[0].hint, "Use a larger type or a value within -128..127");
    assert_eq!(e[1].message, "Integer literal -1 overflows type u8 (range 0..255)");
}

#[test]
fn main_anchor_checks() {
    let mut a = Analyzer::new("", AnalyzerConfig::default());
    a.check_main_anchors(&vec![]);
    assert_eq!(codes(&a), vec!["E018"]);
    assert_eq!(a.errors()[0].span, sp(1, 0));

    let mut b = Analyzer::new("", AnalyzerConfig::default());
    b.check_main_anchors(&vec![(main_anchor("app"), sp(2, 0)), (main_anchor("main"), sp(5, 0))]);
    assert_eq!(codes(&b), vec!["E019"]);
    assert_eq!(b.errors()[0].message, "Multiple main anchors found (2)");
    assert_eq!(b.errors()[0].span, sp(2, 0));

    // a main anchor may have any name
    let mut app = Analyzer::new("", AnalyzerConfig::default());
    app.check_main_anchors(&vec![(main_anchor("app"), sp(1, 0))]);
    assert!(app.errors().is_empty());

    let mut c = Analyzer::new("", AnalyzerConfig::default());
    c.check_main_anchors(&vec![(main_anchor("main"), sp(1, 0))]);
    assert!(c.errors().is_empty());
}

#[test]
fn duplicates_and_circular_structs() {
    let items = vec![
        (main_anchor("main"), sp(1, 0)),
        (function("f", vec![Param { ty: Ty::Int, name: s("a") }], Some(Ty::Int)), sp(2, 0)),
        (function("f", vec![], None), sp(3, 0)),
        (TopLevel::Struct { name: s("A"), fields: vec![field("b", Ty::Struct(s("B")))] }, sp(4, 0)),
        (TopLevel::Struct { name: s("B"), fields: vec![field("a", Ty::Struct(s("A")))] }, sp(5, 0)),
        (TopLevel::Struct { name: s("C"), fields: vec![field("x", Ty::Int)] }, sp(6, 0)),
        (TopLevel::Struct { name: s("C"), fields: vec![] }, sp(7, 0)),
    ];
    let program = Program { items };
    let mut a = Analyzer::new("", AnalyzerConfig::default());
    a.check_declarations(&program);
    assert_eq!(codes(&a), vec!["E001", "E025", "E034", "E034"]);
    assert_eq!(a.errors()[0].message, "Duplicate function 'f'");
    assert_eq!(a.errors()[0].hint, "Remove or rename one of the 'f' definitions");
    assert_eq!(a.errors()[1].message, "Duplicate struct 'C'");
    assert_eq!(a.errors()[1].span, sp(7, 0));
    assert_eq!(a.errors()[2].message, "Circular reference detected in struct 'A'");
    assert_eq!(a.errors()[3].span, sp(5, 0));
}

#[test]
fn struct_reaching_a_cycle_is_reported_and_path_restored() {
    let items = vec![
        (TopLevel::Struct { name: s("Top"), fields: vec![field("n", Ty::Struct(s("Node")))] }, sp(1, 0)),
        (TopLevel::Struct { name: s("Node"), fields: vec![field("next", Ty::Struct(s("Node")))] }, sp(2, 0)),
        (TopLevel::Struct { name: s("Leaf"), fields: vec![field("v", Ty::Int), field("u", Ty::Struct(s("Unknown")))] }, sp(3, 0)),
    ];
    let mut a = Analyzer::new("", AnalyzerConfig::default());
    a.collect_declarations(&items);
    let mut path = Vec::new();
    assert!(a.check_circular_struct("Top", &mut path));
    let mut path2 = vec![s("Other")];
    assert!(!a.check_circular_struct("Leaf", &mut path2));
    assert_eq!(path2, vec![s("Other")]);
    let mut path3 = vec![s("Leaf")];
    assert!(a.check_circular_struct("Leaf", &mut path3));
}

#[test]
fn module_and_impl_functions_are_declared_under_qualified_names() {
    let items = vec![
        (main_anchor("main"), sp(1, 0)),
        (TopLevel::Module { name: s("math"), items: vec![(function("abs", vec![], None), sp(2, 0))] }, sp(2, 0)),
        (
            TopLevel::Impl {
                trait_name: s("Show"),
                target_ty: s("User"),
                methods: vec![(function("show", vec![], None), sp(3, 0))],
            },
            sp(3, 0),
        ),
    ];
    let mut a = Analyzer::new("", AnalyzerConfig::default());
    a.collect_declarations(&items);
    a.err_undeclared_fn("math_ab");
    a.err_undeclared_fn("Show_User_sho");
    assert_eq!(a.errors()[0].hint, "Did you mean 'math_abs' ?");
    assert_eq!(a.errors()[1].hint, "Did you mean 'Show_User_show' ?");
}
