use kyte::ast::{
    AnchorKind, BinOpKind, EnumVariant, Expr, MatchArm, Param, Pattern, Program, Span, Stmt, StructField, Token,
    TopLevel, TraitMethod, Ty, UnaryOpKind,
};
use kyte::lexer::Lexer;
use kyte::parser::Parser;

fn parse_tokens(toks: Vec<(Token, usize, usize)>) -> (Program, Vec<String>) {
    let mut p = Parser::new(toks);
    let prog = p.parse();
    (prog, p.errors.clone())
}

fn parse(src: &str) -> (Program, Vec<String>) {
    parse_tokens(Lexer::new(src).tokenize())
}

/// Lexes `src`, reads the words `enum`, `match`, `trait`, `impl`, `mod` and
/// `const` as their keyword tokens, and `=` directly followed by `>` as `=>`.
fn parse_with_keywords(src: &str) -> (Program, Vec<String>) {
    let raw = Lexer::new(src).tokenize();
    let mut merged: Vec<(Token, usize, usize)> = Vec::new();
    let mut i = 0;
    while i < raw.len() {
        let (t, l, c) = raw[i].clone();
        if t == Token::Eq && i + 1 < raw.len() && raw[i + 1] == (Token::Gt, l, c + 1) {
            merged.push((Token::FatArrow, l, c));
            i += 2;
        } else {
            merged.push((t, l, c));
            i += 1;
        }
    }
    let toks = merged
        .into_iter()
        .map(|(t, l, c)| {
            let t = match t {
                Token::Ident(w) if w == "enum" => Token::Enum,
                Token::Ident(w) if w == "match" => Token::Match,
                Token::Ident(w) if w == "trait" => Token::Trait,
                Token::Ident(w) if w == "impl" => Token::Impl,
                Token::Ident(w) if w == "mod" => Token::Mod,
                Token::Ident(w) if w == "const" => Token::Const,
                other => other,
            };
            (t, l, c)
        })
        .collect();
    parse_tokens(toks)
}

fn sp(line: usize, col: usize) -> Span {
    Span { line, col }
}

fn lit(n: i64) -> Expr {
    Expr::IntLit(n)
}

fn id(x: &str) -> Expr {
    Expr::Ident(x.to_string())
}

fn bin(l: Expr, op: BinOpKind, r: Expr) -> Expr {
    Expr::BinOp { left: Box::new(l), op, right: Box::new(r) }
}

fn main_anchor(body: Vec<(Stmt, Span)>, span: Span) -> (TopLevel, Span) {
    (TopLevel::Anchor { name: "main".to_string(), kind: AnchorKind::Main, body, children: vec![] }, span)
}

#[test]
fn parses_an_anchor_with_precedence() {
    let (prog, errs) = parse("@main(main) {\n    int x = 1 + 2 * 3;\n    print(x);\n}");
    assert!(errs.is_empty(), "{:?}", errs);
    let decl = Stmt::VarDecl {
        ty: Ty::Int,
        name: "x".to_string(),
        value: bin(lit(1), BinOpKind::Add, bin(lit(2), BinOpKind::Mul, lit(3))),
    };
    assert_eq!(
        prog.items,
        vec![main_anchor(vec![(decl, sp(2, 4)), (Stmt::Print(vec![id("x")]), sp(3, 4))], sp(1, 0))]
    );
}

#[test]
fn binary_operators_group_to_the_left_and_by_level() {
    let (prog, errs) = parse("@main(main) {\n    auto r = 10 - 3 - 2 == 5 || !done && -x < 0;\n}");
    assert!(errs.is_empty(), "{:?}", errs);
    let left = bin(bin(bin(lit(10), BinOpKind::Sub, lit(3)), BinOpKind::Sub, lit(2)), BinOpKind::Eq, lit(5));
    let not_done = Expr::UnaryOp { op: UnaryOpKind::Not, expr: Box::new(id("done")) };
    let neg_x = Expr::UnaryOp { op: UnaryOpKind::Neg, expr: Box::new(id("x")) };
    let right = bin(not_done, BinOpKind::And, bin(neg_x, BinOpKind::Lt, lit(0)));
    let expected = Stmt::VarDecl { ty: Ty::Auto, name: "r".to_string(), value: bin(left, BinOpKind::Or, right) };
    assert_eq!(prog.items, vec![main_anchor(vec![(expected, sp(2, 4))], sp(1, 0))]);
}

#[test]
fn parses_functions_with_parameters_and_return_types() {
    let (prog, errs) = parse("fn add(int a, int b) -> int {\n    return a + b;\n}");
    assert!(errs.is_empty(), "{:?}", errs);
    let f = TopLevel::Function {
        name: "add".to_string(),
        type_params: vec![],
        params: vec![
            Param { ty: Ty::Int, name: "a".to_string() },
            Param { ty: Ty::Int, name: "b".to_string() },
        ],
        return_ty: Some(Ty::Int),
        body: vec![(Stmt::Return(Some(bin(id("a"), BinOpKind::Add, id("b")))), sp(2, 4))],
        decorators: vec![],
    };
    assert_eq!(prog.items, vec![(f, sp(1, 0))]);
}

#[test]
fn methods_take_self_and_generics_are_type_parameters() {
    let (prog, errs) = parse("fn Point.norm() -> int {\n    return 0;\n}\nfn id<T>(T x) -> T {\n    return x;\n}");
    assert!(errs.is_empty(), "{:?}", errs);
    let m = TopLevel::Function {
        name: "Point.norm".to_string(),
        type_params: vec![],
        params: vec![Param { ty: Ty::Struct("Point".to_string()), name: "self".to_string() }],
        return_ty: Some(Ty::Int),
        body: vec![(Stmt::Return(Some(lit(0))), sp(2, 4))],
        decorators: vec![],
    };
    let g = TopLevel::Function {
        name: "id".to_string(),
        type_params: vec!["T".to_string()],
        params: vec![Param { ty: Ty::TypeParam("T".to_string()), name: "x".to_string() }],
        return_ty: Some(Ty::TypeParam("T".to_string())),
        body: vec![(Stmt::Return(Some(id("x"))), sp(5, 4))],
        decorators: vec![],
    };
    assert_eq!(prog.items, vec![(m, sp(1, 0)), (g, sp(4, 0))]);
}

#[test]
fn decorators_attach_to_the_next_function() {
    let (prog, errs) = parse("#inline\n#[cache(10, -2)]\nfn f() {\n}");
    assert!(errs.is_empty(), "{:?}", errs);
    match &prog.items[0].0 {
        TopLevel::Function { name, decorators, .. } => {
            assert_eq!(name, "f");
            assert_eq!(decorators, &vec!["inline".to_string(), "cache(10,-2)".to_string()]);
        },
        other => panic!("not a function: {:?}", other),
    }
}

#[test]
fn parses_structs_enums_and_their_values() {
    let src = "struct Point {\n    int x;\n    int y;\n}\nenum Shape {\n    Dot,\n    Circle(int)\n}\n@main(main) {\n    Shape s = Shape.Circle(3);\n    Point p = Point { x: 1, y: 2 };\n    p.x = 5;\n}";
    let (prog, errs) = parse_with_keywords(src);
    assert!(errs.is_empty(), "{:?}", errs);
    let st = TopLevel::Struct {
        name: "Point".to_string(),
        fields: vec![
            StructField { ty: Ty::Int, name: "x".to_string() },
            StructField { ty: Ty::Int, name: "y".to_string() },
        ],
    };
    let en = TopLevel::Enum {
        name: "Shape".to_string(),
        variants: vec![
            EnumVariant { name: "Dot".to_string(), ty: None },
            EnumVariant { name: "Circle".to_string(), ty: Some(Ty::Int) },
        ],
    };
    let s = Stmt::VarDecl {
        ty: Ty::Enum("Shape".to_string()),
        name: "s".to_string(),
        value: Expr::EnumVariant {
            enum_name: "Shape".to_string(),
            variant: "Circle".to_string(),
            value: Some(Box::new(lit(3))),
        },
    };
    let p = Stmt::VarDecl {
        ty: Ty::Struct("Point".to_string()),
        name: "p".to_string(),
        value: Expr::StructInit {
            name: "Point".to_string(),
            fields: vec![("x".to_string(), lit(1)), ("y".to_string(), lit(2))],
        },
    };
    let a = Stmt::FieldAssign { name: "p".to_string(), field: "x".to_string(), value: lit(5) };
    assert_eq!(
        prog.items,
        vec![
            (st, sp(1, 0)),
            (en, sp(5, 0)),
            main_anchor(vec![(s, sp(10, 4)), (p, sp(11, 4)), (a, sp(12, 4))], sp(9, 0)),
        ]
    );
}

#[test]
fn parses_control_flow() {
    let src = "@main(main) {\n    if x < 1 {\n        Kill;\n    } else if x > 2 {\n        Exit;\n    } else {\n        break;\n    }\n    while x > 0 {\n        x -= 1;\n    }\n    for i in 0..10 {\n        a[i] = i;\n    }\n    loop {\n        yield f(i);\n    }\n}";
    let (prog, errs) = parse(src);
    assert!(errs.is_empty(), "{:?}", errs);
    let iff = Stmt::If {
        cond: bin(id("x"), BinOpKind::Lt, lit(1)),
        then_body: vec![(Stmt::Kill(None), sp(3, 8))],
        else_body: Some(vec![(
            Stmt::If {
                cond: bin(id("x"), BinOpKind::Gt, lit(2)),
                then_body: vec![(Stmt::Exit, sp(5, 8))],
                else_body: Some(vec![(Stmt::Break, sp(7, 8))]),
            },
            sp(4, 11),
        )]),
    };
    let wh = Stmt::While {
        cond: bin(id("x"), BinOpKind::Gt, lit(0)),
        body: vec![(
            Stmt::CompoundAssign { name: "x".to_string(), op: BinOpKind::Sub, value: lit(1) },
            sp(10, 8),
        )],
    };
    let fo = Stmt::For {
        var: "i".to_string(),
        from: lit(0),
        to: lit(10),
        body: vec![(Stmt::IndexAssign { name: "a".to_string(), index: id("i"), value: id("i") }, sp(13, 8))],
    };
    let lo = Stmt::Loop(vec![(Stmt::Yield(Expr::Call { name: "f".to_string(), args: vec![id("i")] }), sp(16, 8))]);
    assert_eq!(
        prog.items,
        vec![main_anchor(vec![(iff, sp(2, 4)), (wh, sp(9, 4)), (fo, sp(12, 4)), (lo, sp(15, 4))], sp(1, 0))]
    );
}

#[test]
fn parses_postfix_expressions() {
    let (prog, errs) = parse("@main(main) {\n    auto v = xs[1].len(2, 3) as float;\n    obj.field;\n}");
    assert!(errs.is_empty(), "{:?}", errs);
    let call = Expr::MethodCall {
        base: Box::new(Expr::Index { array: Box::new(id("xs")), index: Box::new(lit(1)) }),
        method: "len".to_string(),
        args: vec![lit(2), lit(3)],
    };
    let v = Stmt::VarDecl {
        ty: Ty::Auto,
        name: "v".to_string(),
        value: Expr::Cast { expr: Box::new(call), ty: Ty::Float },
    };
    let f = Stmt::ExprStmt(Expr::FieldAccess { base: Box::new(id("obj")), field: "field".to_string() });
    assert_eq!(prog.items, vec![main_anchor(vec![(v, sp(2, 4)), (f, sp(3, 4))], sp(1, 0))]);
}

#[test]
fn struct_literals_are_not_read_in_conditions() {
    let (prog, errs) = parse("@main(main) {\n    if ok {\n        print(1);\n    }\n}");
    assert!(errs.is_empty(), "{:?}", errs);
    let iff = Stmt::If {
        cond: id("ok"),
        then_body: vec![(Stmt::Print(vec![lit(1)]), sp(3, 8))],
        else_body: None,
    };
    assert_eq!(prog.items, vec![main_anchor(vec![(iff, sp(2, 4))], sp(1, 0))]);
}

#[test]
fn parses_match_statements() {
    let src = "@main(main) {\n    match c {\n        1 => { print(1); },\n        -2 => { print(2); },\n        Shape.Circle(r) => { print(r); },\n        _ => { print(0); }\n    }\n}";
    let (prog, errs) = parse_with_keywords(src);
    assert!(errs.is_empty(), "{:?}", errs);
    let arm = |p: Pattern, e: Expr, line: usize| MatchArm { pattern: p, body: vec![(Stmt::Print(vec![e]), sp(line, 15))] };
    let m = Stmt::Match {
        expr: id("c"),
        arms: vec![
            arm(Pattern::IntLit(1), lit(1), 3),
            MatchArm { pattern: Pattern::IntLit(-2), body: vec![(Stmt::Print(vec![lit(2)]), sp(4, 16))] },
            MatchArm {
                pattern: Pattern::EnumVariant {
                    enum_name: "Shape".to_string(),
                    variant: "Circle".to_string(),
                    binding: Some("r".to_string()),
                },
                body: vec![(Stmt::Print(vec![id("r")]), sp(5, 29))],
            },
            arm(Pattern::Wildcard, lit(0), 6),
        ],
    };
    assert_eq!(prog.items, vec![main_anchor(vec![(m, sp(2, 4))], sp(1, 0))]);
}

#[test]
fn parses_traits_impls_modules_and_constants() {
    let src = "trait Area {\n    fn area(int s) -> int;\n}\nimpl Area {\n    fn area() -> int {\n        return 1;\n    }\n}\nmod m {\n    struct P {\n    }\n}\nconst int N = 3;";
    let (prog, errs) = parse_with_keywords(src);
    assert!(errs.is_empty(), "{:?}", errs);
    let tr = TopLevel::Trait {
        name: "Area".to_string(),
        methods: vec![TraitMethod {
            name: "area".to_string(),
            params: vec![Param { ty: Ty::Int, name: "s".to_string() }],
            return_ty: Some(Ty::Int),
        }],
    };
    let f = TopLevel::Function {
        name: "area".to_string(),
        type_params: vec![],
        params: vec![],
        return_ty: Some(Ty::Int),
        body: vec![(Stmt::Return(Some(lit(1))), sp(6, 8))],
        decorators: vec![],
    };
    let im = TopLevel::Impl { trait_name: "Area".to_string(), target_ty: "Area".to_string(), methods: vec![(f, sp(5, 4))] };
    let md = TopLevel::Module {
        name: "m".to_string(),
        items: vec![(TopLevel::Struct { name: "P".to_string(), fields: vec![] }, sp(10, 4))],
    };
    let c = TopLevel::ConstDecl { ty: Ty::Int, name: "N".to_string(), value: lit(3) };
    assert_eq!(prog.items, vec![(tr, sp(1, 0)), (im, sp(4, 0)), (md, sp(9, 0)), (c, sp(13, 0))]);
}

#[test]
fn child_anchors_and_inline_anchors() {
    let src = "@app(main) {\n    print(1);\n    @worker(thread) {\n        print(2);\n    }\n}";
    let (prog, errs) = parse(src);
    assert!(errs.is_empty(), "{:?}", errs);
    let child = TopLevel::Anchor {
        name: "worker".to_string(),
        kind: AnchorKind::Thread,
        body: vec![(Stmt::Print(vec![lit(2)]), sp(4, 8))],
        children: vec![],
    };
    let top = TopLevel::Anchor {
        name: "app".to_string(),
        kind: AnchorKind::Main,
        body: vec![(Stmt::Print(vec![lit(1)]), sp(2, 4))],
        children: vec![(child, sp(3, 4))],
    };
    assert_eq!(prog.items, vec![(top, sp(1, 0))]);
    let (prog2, errs2) = parse("fn f() {\n    @job(event(tick)) {\n        Exit;\n    }\n}");
    assert!(errs2.is_empty(), "{:?}", errs2);
    match &prog2.items[0].0 {
        TopLevel::Function { body, .. } => assert_eq!(
            body,
            &vec![(
                Stmt::InlineAnchor {
                    name: "job".to_string(),
                    kind: AnchorKind::Event("tick".to_string()),
                    body: vec![(Stmt::Exit, sp(3, 8))],
                },
                sp(2, 4),
            )]
        ),
        other => panic!("not a function: {:?}", other),
    }
}

#[test]
fn reports_and_recovers_from_errors() {
    let (prog, errs) = parse("@main(main) {\n    int x = ;\n}");
    assert_eq!(
        errs,
        vec![
            "Unexpected token in expression: Semicolon at line 2:12".to_string(),
            "Expected Semicolon but got RBrace at line 3:0".to_string(),
        ]
    );
    let decl = Stmt::VarDecl { ty: Ty::Int, name: "x".to_string(), value: lit(0) };
    assert_eq!(prog.items, vec![main_anchor(vec![(decl, sp(2, 4))], sp(1, 0))]);
}

#[test]
fn reports_unexpected_top_level_and_statement_tokens() {
    let (prog, errs) = parse("42 fn f() {\n    free x;\n}");
    assert_eq!(errs[0], "Unexpected top-level token: IntLit(42) at line 1:0");
    assert_eq!(errs[1], "Unexpected token in statement: Free at line 2:4");
    assert_eq!(errs.len(), 2);
    match &prog.items[0].0 {
        TopLevel::Function { name, body, .. } => {
            assert_eq!(name, "f");
            assert_eq!(body, &vec![(Stmt::ExprStmt(lit(0)), sp(2, 4))]);
        },
        other => panic!("not a function: {:?}", other),
    }
}

#[test]
fn invalid_assignment_targets_are_reported() {
    let (_, errs) = parse("@main(main) {\n    f(1) = 2;\n    a.b.c = 3;\n    g() += 1;\n}");
    assert_eq!(
        errs,
        vec![
            "Invalid assignment target at line 3:4".to_string(),
            "Invalid field assignment target at line 4:4".to_string(),
            "Invalid compound assignment target at line 5:0".to_string(),
        ]
    );
}

#[test]
fn deep_nesting_is_reported() {
    let src = format!("@main(main) {{\n    auto x = {}1{};\n}}", "(".repeat(300), ")".repeat(300));
    let (_, errs) = parse(&src);
    assert!(!errs.is_empty());
    assert!(errs[0].starts_with("Expression nesting too deep (>256) at line 2:"), "{:?}", errs[0]);
}

#[test]
fn stops_on_an_unclosed_block() {
    let (prog, errs) = parse("fn f() {\n    int x = 1;");
    assert_eq!(prog.items.len(), 1);
    assert_eq!(errs, vec!["Expected RBrace but got EOF at line 2:14".to_string()]);
}
