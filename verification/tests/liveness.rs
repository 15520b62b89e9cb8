use kyte::ast::{BinOpKind, Expr, Span, Stmt, Ty};
use kyte::ast::AnchorKind;
use kyte::liveness::{collect_vault_names, compute_schedule, expr_uses, stmt_uses, stmts_use, FreeSchedule};

fn s(x: &str) -> String {
    x.to_string()
}

fn sp(line: usize) -> Span {
    Span { line, col: 0 }
}

fn id(x: &str) -> Expr {
    Expr::Ident(s(x))
}

fn vault(name: &str, v: i64) -> Stmt {
    Stmt::VaultDecl { ty: Ty::Int, name: s(name), value: Expr::IntLit(v) }
}

fn print(x: &str) -> Stmt {
    Stmt::Print(vec![id(x)])
}

#[test]
fn uses_in_expressions() {
    let e = Expr::BinOp { left: Box::new(id("a")), op: BinOpKind::Add, right: Box::new(Expr::IntLit(1)) };
    assert!(expr_uses(&e, "a"));
    assert!(!expr_uses(&e, "b"));
    let call = Expr::Call { name: s("f"), args: vec![Expr::IntLit(1), id("b")] };
    assert!(expr_uses(&call, "b"));
    assert!(!expr_uses(&call, "f"));
}

#[test]
fn uses_in_statements() {
    // assigning to a variable is no read of it; a compound assignment is
    assert!(!stmt_uses(&Stmt::Assign { name: s("x"), value: Expr::IntLit(1) }, "x"));
    assert!(stmt_uses(&Stmt::CompoundAssign { name: s("x"), op: BinOpKind::Add, value: Expr::IntLit(1) }, "x"));
    assert!(!stmt_uses(&Stmt::Free(s("x")), "x"));
    let body = vec![(print("y"), sp(2))];
    let w = Stmt::While { cond: Expr::Bool(true), body };
    assert!(stmt_uses(&w, "y"));
    assert!(stmts_use(&vec![(Stmt::Break, sp(1)), (w, sp(2))], "y"));
    assert!(!stmts_use(&vec![(Stmt::Break, sp(1))], "y"));
}

#[test]
fn empty_schedule_frees_nothing() {
    let f = FreeSchedule::new();
    assert!(f.after_vars(0).is_empty());
    assert!(f.then_vars(3).is_empty());
    assert!(f.else_vars(7).is_empty());
}

#[test]
fn frees_after_the_last_use() {
    let stmts = vec![(vault("v", 1), sp(1)), (print("v"), sp(2)), (Stmt::Break, sp(3))];
    let f = compute_schedule(&stmts, &[s("v")]);
    assert_eq!(f.after_vars(1), &[s("v")][..]);
    assert!(f.after_vars(0).is_empty());
    assert!(f.after_vars(2).is_empty());
}

#[test]
fn unused_vault_is_freed_after_its_declaration() {
    let stmts = vec![(print("x"), sp(1)), (vault("v", 1), sp(2)), (Stmt::Break, sp(3))];
    let f = compute_schedule(&stmts, &[s("v")]);
    assert_eq!(f.after_vars(1), &[s("v")][..]);
}

#[test]
fn last_use_in_a_branch_frees_in_both_branches() {
    let branch = Stmt::If {
        cond: Expr::Bool(true),
        then_body: vec![(print("v"), sp(3))],
        else_body: Some(vec![(Stmt::Break, sp(5))]),
    };
    let stmts = vec![(vault("v", 1), sp(1)), (branch, sp(2))];
    let f = compute_schedule(&stmts, &[s("v")]);
    assert_eq!(f.then_vars(1), &[s("v")][..]);
    assert_eq!(f.else_vars(1), &[s("v")][..]);
    assert!(f.after_vars(1).is_empty());
}

#[test]
fn use_in_a_condition_frees_after_the_whole_if() {
    let branch = Stmt::If {
        cond: id("v"),
        then_body: vec![(Stmt::Break, sp(3))],
        else_body: Some(vec![(Stmt::Break, sp(5))]),
    };
    let stmts = vec![(vault("v", 1), sp(1)), (branch, sp(2))];
    let f = compute_schedule(&stmts, &[s("v")]);
    assert_eq!(f.after_vars(1), &[s("v")][..]);
    assert!(f.then_vars(1).is_empty());
}

#[test]
fn several_vaults_share_a_free_point_in_order() {
    let both = Stmt::Print(vec![id("a"), id("b")]);
    let stmts = vec![(vault("a", 1), sp(1)), (vault("b", 2), sp(2)), (both, sp(3))];
    let f = compute_schedule(&stmts, &[s("a"), s("b")]);
    assert_eq!(f.after_vars(2), &[s("a"), s("b")][..]);
}

#[test]
fn vaults_of_a_body_but_not_of_child_anchors() {
    let body = vec![
        (vault("a", 1), sp(1)),
        (
            Stmt::If {
                cond: Expr::Bool(true),
                then_body: vec![(vault("b", 2), sp(3))],
                else_body: Some(vec![(vault("c", 3), sp(5))]),
            },
            sp(2),
        ),
        (Stmt::Loop(vec![(vault("d", 4), sp(7)), (Stmt::Break, sp(8))]), sp(6)),
        (Stmt::InlineAnchor { name: s("child"), kind: AnchorKind::Plain, body: vec![(vault("e", 5), sp(10))] }, sp(9)),
        (Stmt::VarDecl { ty: Ty::Int, name: s("f"), value: Expr::IntLit(6) }, sp(11)),
    ];
    assert_eq!(collect_vault_names(&body), vec![s("a"), s("b"), s("c"), s("d")]);
    assert!(collect_vault_names(&Vec::new()).is_empty());
}
