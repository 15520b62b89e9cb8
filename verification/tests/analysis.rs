use kyte::analyzer::scope::Scope;
use kyte::analyzer::{Analyzer, AnalyzerConfig, VarInfo};
use kyte::ast::{BinOpKind, Expr, Ty};
use kyte::diagnostics::{CompileError, Severity};
use kyte::lexer::Lexer;
use kyte::parser::Parser;

fn analyze(src: &str) -> Vec<CompileError> {
    let tokens = Lexer::new(src).tokenize();
    let mut p = Parser::new(tokens);
    let program = p.parse();
    assert!(p.errors.is_empty(), "{:?}", p.errors);
    Analyzer::analyze(&program, src)
}

fn codes(errs: &[CompileError]) -> Vec<&'static str> {
    errs.iter().map(|e| e.code).collect()
}

fn find<'a>(errs: &'a [CompileError], code: &str) -> &'a CompileError {
    errs.iter().find(|e| e.code == code).unwrap_or_else(|| panic!("no {} in {:?}", code, codes(errs)))
}

#[test]
fn hello_world_is_a_valid_program() {
    let errs = analyze("@app(main) {\n    yield \"Hello, World!\";\n}");
    assert!(errs.iter().all(|e| e.severity != Severity::Error), "{:?}", codes(&errs));
}

#[test]
fn declared_and_used_variables_give_nothing() {
    let errs = analyze("fn add(int a, int b) -> int {\n    return a + b;\n}\n@main(main) {\n    int x = add(1, 2);\n    print(x);\n}");
    assert!(errs.is_empty(), "{:?}", codes(&errs));
}

#[test]
fn type_mismatch_in_a_declaration() {
    let errs = analyze("@main(main) {\n    int x = \"text\";\n    print(x);\n}");
    let e = find(&errs, "E002");
    assert_eq!(e.message, "Type mismatch \u{2014} expected int, got string");
    assert_eq!(e.hint, "Change the value to type int, or declare as string");
    assert_eq!(e.span.line, 2);
}

#[test]
fn undeclared_variable_with_a_suggestion() {
    let errs = analyze("@main(main) {\n    int count = 1;\n    print(cout);\n}");
    let e = find(&errs, "E004");
    assert_eq!(e.message, "Undeclared variable 'cout'");
    assert_eq!(e.hint, "Did you mean 'count' ?");
}

#[test]
fn return_type_mismatch() {
    let errs = analyze("fn f() -> int {\n    return true;\n}\n@main(main) {\n    print(f());\n}");
    let e = find(&errs, "E005");
    assert_eq!(e.message, "Return type mismatch \u{2014} expected int, got bool");
}

#[test]
fn conditions_must_be_bool() {
    let errs = analyze("@main(main) {\n    int x = 1;\n    if (x) {\n        print(x);\n    }\n}");
    assert_eq!(find(&errs, "E006").message, "Condition must be bool, got int");
}

#[test]
fn operators_on_the_wrong_types() {
    let errs = analyze("@main(main) {\n    bool b = true;\n    int n = -b;\n    string s = \"a\";\n    int m = 1;\n    print(n, s - m, 1 < s, m && b);\n}");
    assert_eq!(find(&errs, "E007").message, "Cannot negate type bool");
    assert_eq!(find(&errs, "E008").message, "Cannot use '-' on string type");
    assert_eq!(find(&errs, "E009").message, "Comparison type mismatch \u{2014} int vs string");
    assert_eq!(find(&errs, "E010").message, "Logical operator requires bool, got int");
}

#[test]
fn calls_with_the_wrong_arguments() {
    let errs = analyze("fn add(int a, int b) -> int {\n    return a + b;\n}\n@main(main) {\n    print(add(1));\n    print(add(1, true));\n    print(nope(1));\n}");
    let e11 = find(&errs, "E011");
    assert_eq!(e11.message, "'add' expects 2 argument(s), got 1");
    assert_eq!(e11.hint, "Signature: add(int, int)");
    let e12 = find(&errs, "E012");
    assert_eq!(e12.message, "Arg 2 of 'add' \u{2014} expected int, got bool");
    assert_eq!(find(&errs, "E013").message, "Undeclared function 'nope'");
}

#[test]
fn yield_outside_an_anchor() {
    let errs = analyze("fn f() {\n    yield 1;\n}\n@main(main) {\n}");
    assert_eq!(find(&errs, "E020").message, "'yield' can only be used inside an anchor");
}

#[test]
fn missing_return_and_unused_and_unreachable() {
    let errs = analyze("fn f(int a) -> int {\n    if a > 0 {\n        int unused = 1;\n        return 1;\n        print(a);\n    }\n}\n@main(main) {\n}");
    assert_eq!(find(&errs, "E033").message, "Function 'f' may not return a value on all paths");
    assert_eq!(find(&errs, "W004").message, "Unreachable code after return/exit/break/kill");
    let w3 = find(&errs, "W003");
    assert_eq!(w3.message, "Variable 'unused' is declared but never used");
    assert_eq!(w3.severity, Severity::Warning);
}

#[test]
fn werror_makes_an_endless_loop_an_error() {
    let src = "@main(main) {\n    loop {\n        print(1);\n    }\n}";
    let tokens = Lexer::new(src).tokenize();
    let program = Parser::new(tokens).parse();
    let plain = Analyzer::analyze_with_config(&program, src, AnalyzerConfig::default());
    let w5 = find(&plain, "W005");
    assert_eq!(w5.severity, Severity::Warning);
    let strict = Analyzer::analyze_with_config(&program, src, AnalyzerConfig { wall: false, werror: true, no_unused: false });
    assert_eq!(find(&strict, "W005").severity, Severity::Error);
}

#[test]
fn vaults_in_loops_and_nested_scopes() {
    let errs = analyze("@main(main) {\n    while true {\n        Vault int v = 1;\n        print(v);\n        break;\n    }\n    print(v);\n}");
    assert!(codes(&errs).contains(&"E050"), "{:?}", codes(&errs));
    // `v` is gone after the loop's block
    assert_eq!(find(&errs, "E004").message, "Undeclared variable 'v'");
}

#[test]
fn inferred_types_of_expressions() {
    let mut a = Analyzer::new("", AnalyzerConfig::default());
    let mut scope = Scope::new();
    scope.insert("n".to_string(), VarInfo { ty: Ty::I64, is_vault: false });
    let arr = Expr::ArrayLit(vec![Expr::IntLit(1), Expr::IntLit(2)]);
    assert_eq!(a.infer_expr(&arr, &scope), Some(Ty::Array(Box::new(Ty::Int))));
    let concat = Expr::BinOp { left: Box::new(Expr::IntLit(1)), op: BinOpKind::Add, right: Box::new(Expr::StringLit("s".to_string())) };
    assert_eq!(a.infer_expr(&concat, &scope), Some(Ty::String));
    let cmp = Expr::BinOp { left: Box::new(Expr::Ident("n".to_string())), op: BinOpKind::Lt, right: Box::new(Expr::IntLit(3)) };
    assert_eq!(a.infer_expr(&cmp, &scope), Some(Ty::Bool));
    assert_eq!(a.infer_expr(&Expr::Ident("n".to_string()), &scope), Some(Ty::I64));
    assert!(a.errors().is_empty());
    assert_eq!(a.infer_expr(&Expr::Ident("missing".to_string()), &scope), None);
    assert_eq!(a.errors()[0].code, "E004");
    let closure = Expr::Closure { params: vec![("x".to_string(), Some(Ty::Int)), ("y".to_string(), None)], body: vec![] };
    assert_eq!(a.infer_expr(&closure, &scope), Some(Ty::Fn(vec![Ty::Int, Ty::Auto], None)));
    assert_eq!(a.infer_expr(&Expr::ArrayLit(vec![]), &scope), None);
    assert_eq!(a.errors().last().unwrap().code, "E016");
}
