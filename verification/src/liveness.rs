//! Where a Vault variable can be freed: after the last statement of its
//! block that uses it.
use vstd::prelude::*;

use std::collections::HashMap;

use crate::ast::{Expr, FStringPart, MatchArm, Span, Stmt};
use crate::text::{chars_of, string_of};

verus! {

// ───────────────────────── uses ─────────────────────────

/// Whether `n` is read anywhere in `e`.
pub open spec fn uses_e(e: Expr, n: Seq<char>) -> bool
    decreases e, 0nat,
{
    match e {
        Expr::Ident(x) => x@ == n,
        Expr::IntLit(_) | Expr::FloatLit(_) | Expr::StringLit(_) | Expr::Bool(_) => false,
        Expr::BinOp { left, right, .. } => uses_e(*left, n) || uses_e(*right, n),
        Expr::UnaryOp { expr, .. } => uses_e(*expr, n),
        Expr::Call { args, .. } => uses_es(args, n, 0),
        Expr::Index { array, index } => uses_e(*array, n) || uses_e(*index, n),
        Expr::FieldAccess { base, .. } => uses_e(*base, n),
        Expr::MethodCall { base, args, .. } => uses_e(*base, n) || uses_es(args, n, 0),
        Expr::Cast { expr, .. } => uses_e(*expr, n),
        Expr::ArrayLit(elems) => uses_es(elems, n, 0),
        Expr::StructInit { fields, .. } => uses_fields(fields, n, 0),
        Expr::Closure { body, .. } => uses_ss(body, n, 0),
        Expr::EnumVariant { value, .. } => match value {
            Some(v) => uses_e(*v, n),
            None => false,
        },
        Expr::FStringLit(parts) => uses_parts(parts, n, 0),
    }
}

/// Whether `n` is read in one of `es[k..]`.
pub open spec fn uses_es(es: Vec<Expr>, n: Seq<char>, k: int) -> bool
    decreases es, es.len() - k,
{
    if 0 <= k < es.len() {
        proof {
            vstd::std_specs::vec::axiom_vec_index_decreases(es, k);
        }
        uses_e(es[k], n) || uses_es(es, n, k + 1)
    } else {
        false
    }
}

/// Whether `n` is read in one of the values of `fs[k..]`.
pub open spec fn uses_fields(fs: Vec<(String, Expr)>, n: Seq<char>, k: int) -> bool
    decreases fs, fs.len() - k,
{
    if 0 <= k < fs.len() {
        proof {
            vstd::std_specs::vec::axiom_vec_index_decreases(fs, k);
        }
        uses_e(fs[k].1, n) || uses_fields(fs, n, k + 1)
    } else {
        false
    }
}

/// Whether `n` is read in one of the expressions of `ps[k..]`.
pub open spec fn uses_parts(ps: Vec<FStringPart>, n: Seq<char>, k: int) -> bool
    decreases ps, ps.len() - k,
{
    if 0 <= k < ps.len() {
        proof {
            vstd::std_specs::vec::axiom_vec_index_decreases(ps, k);
        }
        (match ps[k] {
            FStringPart::Expr(e) => uses_e(e, n),
            FStringPart::Literal(_) => false,
        }) || uses_parts(ps, n, k + 1)
    } else {
        false
    }
}

/// Whether `n` appears in `s`, its nested blocks included. Declaring a Vault
/// variable is no use of it.
pub open spec fn uses_s(s: Stmt, n: Seq<char>) -> bool
    decreases s, 0nat,
{
    match s {
        Stmt::VarDecl { value, .. } => uses_e(value, n),
        Stmt::ConstDecl { value, .. } => uses_e(value, n),
        Stmt::VaultDecl { name, value, .. } => name@ != n && uses_e(value, n),
        Stmt::Assign { value, .. } => uses_e(value, n),
        Stmt::CompoundAssign { name, value, .. } => name@ == n || uses_e(value, n),
        Stmt::IndexAssign { index, value, .. } => uses_e(index, n) || uses_e(value, n),
        Stmt::FieldAssign { value, .. } => uses_e(value, n),
        Stmt::Print(args) => uses_es(args, n, 0),
        Stmt::Return(Some(e)) => uses_e(e, n),
        Stmt::Return(None) | Stmt::Break | Stmt::Exit => false,
        Stmt::Kill(Some(e)) => uses_e(e, n),
        Stmt::Kill(None) => false,
        Stmt::Yield(e) => uses_e(e, n),
        Stmt::Assert { cond, message } => uses_e(cond, n) || match message {
            Some(m) => uses_e(m, n),
            None => false,
        },
        Stmt::ExprStmt(e) => uses_e(e, n),
        Stmt::If { cond, then_body, else_body } => uses_e(cond, n) || uses_ss(then_body, n, 0)
            || match else_body {
            Some(b) => uses_ss(b, n, 0),
            None => false,
        },
        Stmt::While { cond, body } => uses_e(cond, n) || uses_ss(body, n, 0),
        Stmt::Loop(body) => uses_ss(body, n, 0),
        Stmt::For { from, to, body, .. } => uses_e(from, n) || uses_e(to, n) || uses_ss(
            body,
            n,
            0,
        ),
        Stmt::InlineAnchor { body, .. } => uses_ss(body, n, 0),
        Stmt::Match { expr, arms } => uses_e(expr, n) || uses_arms(arms, n, 0),
        Stmt::Free(_) => false,
    }
}

/// Whether `n` appears in one of `ss[k..]`.
pub open spec fn uses_ss(ss: Vec<(Stmt, Span)>, n: Seq<char>, k: int) -> bool
    decreases ss, ss.len() - k,
{
    if 0 <= k < ss.len() {
        proof {
            vstd::std_specs::vec::axiom_vec_index_decreases(ss, k);
        }
        uses_s(ss[k].0, n) || uses_ss(ss, n, k + 1)
    } else {
        false
    }
}

/// Whether `n` appears in the body of one of `arms[k..]`.
pub open spec fn uses_arms(arms: Vec<MatchArm>, n: Seq<char>, k: int) -> bool
    decreases arms, arms.len() - k,
{
    if 0 <= k < arms.len() {
        proof {
            vstd::std_specs::vec::axiom_vec_index_decreases(arms, k);
        }
        uses_ss(arms[k].body, n, 0) || uses_arms(arms, n, k + 1)
    } else {
        false
    }
}

fn es_use(es: &Vec<Expr>, n: &String) -> (r: bool)
    ensures
        r == uses_es(*es, n@, 0),
    decreases es, 1nat,
{
    let mut k: usize = 0;
    while k < es.len()
        invariant
            k <= es@.len(),
            uses_es(*es, n@, k as int) == uses_es(*es, n@, 0),
        decreases es@.len() - k,
    {
        proof {
            vstd::std_specs::vec::axiom_vec_index_decreases(*es, k as int);
        }
        if e_uses(&es[k], n) {
            return true;
        }
        k = k + 1;
    }
    false
}

fn fields_use(fs: &Vec<(String, Expr)>, n: &String) -> (r: bool)
    ensures
        r == uses_fields(*fs, n@, 0),
    decreases fs, 1nat,
{
    let mut k: usize = 0;
    while k < fs.len()
        invariant
            k <= fs@.len(),
            uses_fields(*fs, n@, k as int) == uses_fields(*fs, n@, 0),
        decreases fs@.len() - k,
    {
        proof {
            vstd::std_specs::vec::axiom_vec_index_decreases(*fs, k as int);
        }
        if e_uses(&fs[k].1, n) {
            return true;
        }
        k = k + 1;
    }
    false
}

fn parts_use(ps: &Vec<FStringPart>, n: &String) -> (r: bool)
    ensures
        r == uses_parts(*ps, n@, 0),
    decreases ps, 1nat,
{
    let mut k: usize = 0;
    while k < ps.len()
        invariant
            k <= ps@.len(),
            uses_parts(*ps, n@, k as int) == uses_parts(*ps, n@, 0),
        decreases ps@.len() - k,
    {
        proof {
            vstd::std_specs::vec::axiom_vec_index_decreases(*ps, k as int);
        }
        let u = match &ps[k] {
            FStringPart::Expr(e) => e_uses(e, n),
            FStringPart::Literal(_) => false,
        };
        if u {
            return true;
        }
        k = k + 1;
    }
    false
}

fn ss_use(ss: &Vec<(Stmt, Span)>, n: &String) -> (r: bool)
    ensures
        r == uses_ss(*ss, n@, 0),
    decreases ss, 1nat,
{
    let mut k: usize = 0;
    while k < ss.len()
        invariant
            k <= ss@.len(),
            uses_ss(*ss, n@, k as int) == uses_ss(*ss, n@, 0),
        decreases ss@.len() - k,
    {
        proof {
            vstd::std_specs::vec::axiom_vec_index_decreases(*ss, k as int);
        }
        if s_uses(&ss[k].0, n) {
            return true;
        }
        k = k + 1;
    }
    false
}

fn arms_use(arms: &Vec<MatchArm>, n: &String) -> (r: bool)
    ensures
        r == uses_arms(*arms, n@, 0),
    decreases arms, 1nat,
{
    let mut k: usize = 0;
    while k < arms.len()
        invariant
            k <= arms@.len(),
            uses_arms(*arms, n@, k as int) == uses_arms(*arms, n@, 0),
        decreases arms@.len() - k,
    {
        proof {
            vstd::std_specs::vec::axiom_vec_index_decreases(*arms, k as int);
        }
        if ss_use(&arms[k].body, n) {
            return true;
        }
        k = k + 1;
    }
    false
}

fn e_uses(e: &Expr, n: &String) -> (r: bool)
    ensures
        r == uses_e(*e, n@),
    decreases e, 0nat,
{
    match e {
        Expr::Ident(x) => *x == *n,
        Expr::IntLit(_) | Expr::FloatLit(_) | Expr::StringLit(_) | Expr::Bool(_) => false,
        Expr::BinOp { left, right, .. } => e_uses(left, n) || e_uses(right, n),
        Expr::UnaryOp { expr, .. } => e_uses(expr, n),
        Expr::Call { args, .. } => es_use(args, n),
        Expr::Index { array, index } => e_uses(array, n) || e_uses(index, n),
        Expr::FieldAccess { base, .. } => e_uses(base, n),
        Expr::MethodCall { base, args, .. } => e_uses(base, n) || es_use(args, n),
        Expr::Cast { expr, .. } => e_uses(expr, n),
        Expr::ArrayLit(elems) => es_use(elems, n),
        Expr::StructInit { fields, .. } => fields_use(fields, n),
        Expr::Closure { body, .. } => ss_use(body, n),
        Expr::EnumVariant { value, .. } => match value {
            Some(v) => e_uses(v, n),
            None => false,
        },
        Expr::FStringLit(parts) => parts_use(parts, n),
    }
}

fn s_uses(s: &Stmt, n: &String) -> (r: bool)
    ensures
        r == uses_s(*s, n@),
    decreases s, 0nat,
{
    match s {
        Stmt::VarDecl { value, .. } => e_uses(value, n),
        Stmt::ConstDecl { value, .. } => e_uses(value, n),
        Stmt::VaultDecl { name, value, .. } => !(*name == *n) && e_uses(value, n),
        Stmt::Assign { value, .. } => e_uses(value, n),
        Stmt::CompoundAssign { name, value, .. } => *name == *n || e_uses(value, n),
        Stmt::IndexAssign { index, value, .. } => e_uses(index, n) || e_uses(value, n),
        Stmt::FieldAssign { value, .. } => e_uses(value, n),
        Stmt::Print(args) => es_use(args, n),
        Stmt::Return(Some(e)) => e_uses(e, n),
        Stmt::Return(None) | Stmt::Break | Stmt::Exit => false,
        Stmt::Kill(Some(e)) => e_uses(e, n),
        Stmt::Kill(None) => false,
        Stmt::Yield(e) => e_uses(e, n),
        Stmt::Assert { cond, message } => e_uses(cond, n) || match message {
            Some(m) => e_uses(m, n),
            None => false,
        },
        Stmt::ExprStmt(e) => e_uses(e, n),
        Stmt::If { cond, then_body, else_body } => e_uses(cond, n) || ss_use(then_body, n)
            || match else_body {
            Some(b) => ss_use(b, n),
            None => false,
        },
        Stmt::While { cond, body } => e_uses(cond, n) || ss_use(body, n),
        Stmt::Loop(body) => ss_use(body, n),
        Stmt::For { from, to, body, .. } => e_uses(from, n) || e_uses(to, n) || ss_use(body, n),
        Stmt::InlineAnchor { body, .. } => ss_use(body, n),
        Stmt::Match { expr, arms } => e_uses(expr, n) || arms_use(arms, n),
        Stmt::Free(_) => false,
    }
}

/// Whether `name` is read anywhere in `expr`.
pub fn expr_uses(expr: &Expr, name: &str) -> (r: bool)
    ensures
        r == uses_e(*expr, name@),
{
    let n = string_of(chars_of(name).as_slice());
    e_uses(expr, &n)
}

/// Whether `name` appears anywhere in `stmt`, nested blocks included.
pub fn stmt_uses(stmt: &Stmt, name: &str) -> (r: bool)
    ensures
        r == uses_s(*stmt, name@),
{
    let n = string_of(chars_of(name).as_slice());
    s_uses(stmt, &n)
}

/// Whether `name` is used in one of `stmts`.
pub fn stmts_use(stmts: &Vec<(Stmt, Span)>, name: &str) -> (r: bool)
    ensures
        r == uses_ss(*stmts, name@, 0),
{
    let n = string_of(chars_of(name).as_slice());
    ss_use(stmts, &n)
}

// ───────────────────────── free points ─────────────────────────

/// The last of `ss[..k]` that uses `n`.
pub open spec fn last_use(ss: Vec<(Stmt, Span)>, n: Seq<char>, k: int) -> Option<int>
    decreases k,
{
    if k <= 0 || k > ss.len() {
        None
    } else if uses_s(ss[k - 1].0, n) {
        Some(k - 1)
    } else {
        last_use(ss, n, k - 1)
    }
}

/// The first of `ss[k..]` that declares the Vault variable `n`.
pub open spec fn first_vault_decl(ss: Vec<(Stmt, Span)>, n: Seq<char>, k: int) -> Option<int>
    decreases ss.len() - k,
{
    if k < 0 || k >= ss.len() {
        None
    } else if ss[k].0 matches Stmt::VaultDecl { name, .. } && name@ == n {
        Some(k)
    } else {
        first_vault_decl(ss, n, k + 1)
    }
}

/// Where the Vault variable `n` of the block `ss` is freed: `Some((i,
/// false))` after `ss[i]`, `Some((i, true))` at the end of both branches of
/// the `if`/`else` `ss[i]`, `None` nowhere.
///
/// After the last statement that uses it; at the end of both branches when
/// that statement is an `if` with an `else` whose condition does not use it;
/// right after its declaration when nothing uses it.
pub open spec fn free_point(ss: Vec<(Stmt, Span)>, n: Seq<char>) -> Option<(int, bool)> {
    match last_use(ss, n, ss.len() as int) {
        Some(i) => match ss[i].0 {
            Stmt::If { cond, else_body: Some(_), .. } => {
                if uses_e(cond, n) {
                    Some((i, false))
                } else {
                    Some((i, true))
                }
            },
            _ => Some((i, false)),
        },
        None => match first_vault_decl(ss, n, 0) {
            Some(i) => Some((i, false)),
            None => None,
        },
    }
}

/// The variables of `vars` whose free point is `(i, in_branches)`, in order.
pub open spec fn freed_at(ss: Vec<(Stmt, Span)>, vars: Seq<Seq<char>>, i: int, in_branches: bool) -> Seq<Seq<char>>
    decreases vars.len(),
{
    if vars.len() == 0 {
        Seq::empty()
    } else {
        freed_at(ss, vars.drop_last(), i, in_branches) + if free_point(ss, vars.last()) == Some((i, in_branches)) {
            seq![vars.last()]
        } else {
            Seq::<Seq<char>>::empty()
        }
    }
}

proof fn lemma_freed_count(ss: Vec<(Stmt, Span)>, vars: Seq<Seq<char>>, v: Seq<char>, j: int, b: bool)
    requires
        vars.no_duplicates(),
    ensures
        freed_at(ss, vars, j, b).to_multiset().count(v) == (if vars.contains(v) && free_point(ss, v)
            == Some((j, b)) {
            1nat
        } else {
            0nat
        }),
    decreases vars.len(),
{
    broadcast use vstd::multiset::group_multiset_axioms, vstd::seq_lib::group_to_multiset_ensures;

    if vars.len() == 0 {
        assert(freed_at(ss, vars, j, b) =~= Seq::<Seq<char>>::empty());
    } else {
        let pre = vars.drop_last();
        assert(pre.no_duplicates()) by {
            assert forall|x: int, y: int| 0 <= x < pre.len() && 0 <= y < pre.len() && x != y implies pre[x]
                != pre[y] by {
                assert(pre[x] == vars[x] && pre[y] == vars[y]);
            }
        }
        lemma_freed_count(ss, pre, v, j, b);
        let tail = if free_point(ss, vars.last()) == Some((j, b)) {
            seq![vars.last()]
        } else {
            Seq::<Seq<char>>::empty()
        };
        vstd::seq_lib::lemma_multiset_commutative(freed_at(ss, pre, j, b), tail);
        if vars.last() == v {
            assert(!pre.contains(v)) by {
                if pre.contains(v) {
                    let x = choose|x: int| 0 <= x < pre.len() && pre[x] == v;
                    assert(vars[x] == vars[vars.len() - 1]);
                }
            }
            assert(vars.contains(v)) by {
                assert(vars[vars.len() - 1] == v);
            }
        } else {
            assert(vars.contains(v) == pre.contains(v)) by {
                if vars.contains(v) {
                    let x = choose|x: int| 0 <= x < vars.len() && vars[x] == v;
                    assert(x != vars.len() - 1);
                    assert(pre[x] == v);
                }
                if pre.contains(v) {
                    let x = choose|x: int| 0 <= x < pre.len() && pre[x] == v;
                    assert(vars[x] == v);
                }
            }
        }
    }
}

/// A Vault variable that the block uses or declares, among distinct
/// variables, is freed at exactly one point, and listed there once: after
/// one statement, or at the end of both branches of one `if`/`else` (so
/// once on either path).
pub proof fn lemma_vault_freed_once(ss: Vec<(Stmt, Span)>, vars: Seq<Seq<char>>, v: Seq<char>)
    requires
        vars.no_duplicates(),
        vars.contains(v),
        last_use(ss, v, ss.len() as int) is Some || first_vault_decl(ss, v, 0) is Some,
    ensures
        free_point(ss, v) is Some,
        forall|j: int, b: bool|
            #[trigger] freed_at(ss, vars, j, b).to_multiset().count(v) == (if free_point(ss, v) == Some(
                (j, b),
            ) {
                1nat
            } else {
                0nat
            }),
{
    assert forall|j: int, b: bool|
        #[trigger] freed_at(ss, vars, j, b).to_multiset().count(v) == (if free_point(ss, v) == Some(
            (j, b),
        ) {
            1nat
        } else {
            0nat
        }) by {
        lemma_freed_count(ss, vars, v, j, b);
    }
}

/// Whether the expressions written in `s` itself (not those of its nested
/// blocks) read `n`: the value of a declaration or an assignment (and the
/// variable a compound assignment updates), the arguments of `print`, the
/// value of `return`, `kill` and `yield`, the condition and message of
/// `assert`, an expression statement, the condition of `if` and `while`,
/// both bounds of `for`, and the value a `match` looks at.
pub open spec fn reads_directly(s: Stmt, n: Seq<char>) -> bool {
    match s {
        Stmt::VarDecl { value, .. } | Stmt::ConstDecl { value, .. } | Stmt::Assign { value, .. }
        | Stmt::FieldAssign { value, .. } => uses_e(value, n),
        Stmt::VaultDecl { name, value, .. } => name@ != n && uses_e(value, n),
        Stmt::CompoundAssign { name, value, .. } => name@ == n || uses_e(value, n),
        Stmt::IndexAssign { index, value, .. } => uses_e(index, n) || uses_e(value, n),
        Stmt::Print(args) => uses_es(args, n, 0),
        Stmt::Return(Some(e)) | Stmt::Kill(Some(e)) | Stmt::Yield(e) | Stmt::ExprStmt(e) => uses_e(e, n),
        Stmt::Assert { cond, message } => uses_e(cond, n) || (message matches Some(m) && uses_e(m, n)),
        Stmt::If { cond, .. } | Stmt::While { cond, .. } => uses_e(cond, n),
        Stmt::For { from, to, .. } => uses_e(from, n) || uses_e(to, n),
        Stmt::Match { expr, .. } => uses_e(expr, n),
        _ => false,
    }
}

/// A statement whose own expressions read `n` uses `n`.
pub proof fn lemma_reads_directly_uses(s: Stmt, n: Seq<char>)
    ensures
        reads_directly(s, n) ==> uses_s(s, n),
{
}

/// The last use among `ss[..k]` is at or after any use before `k`.
proof fn lemma_last_use_after(ss: Vec<(Stmt, Span)>, n: Seq<char>, k: int, j: int)
    requires
        0 <= j < k <= ss.len(),
        uses_s(ss[j].0, n),
    ensures
        last_use(ss, n, k) matches Some(i) && j <= i < k,
    decreases k,
{
    if !uses_s(ss[k - 1].0, n) {
        lemma_last_use_after(ss, n, k - 1, j);
    }
}

/// A variable listed at a point is freed at that point.
proof fn lemma_freed_at_point(ss: Vec<(Stmt, Span)>, vars: Seq<Seq<char>>, i: int, b: bool, v: Seq<char>)
    ensures
        freed_at(ss, vars, i, b).contains(v) ==> free_point(ss, v) == Some((i, b)),
    decreases vars.len(),
{
    if vars.len() > 0 {
        lemma_freed_at_point(ss, vars.drop_last(), i, b, v);
        let pre = freed_at(ss, vars.drop_last(), i, b);
        let tail = if free_point(ss, vars.last()) == Some((i, b)) {
            seq![vars.last()]
        } else {
            Seq::<Seq<char>>::empty()
        };
        if freed_at(ss, vars, i, b).contains(v) {
            let x = choose|x: int| 0 <= x < freed_at(ss, vars, i, b).len() && freed_at(ss, vars, i, b)[x] == v;
            assert(freed_at(ss, vars, i, b) == pre + tail);
            if x < pre.len() {
                assert(pre[x] == v);
            } else {
                assert(tail[x - pre.len()] == v);
            }
        }
    }
}

/// Law: no Vault variable is freed before a statement of its block that
/// reads it. Where `ss[j]` reads `v` in its own expressions (the bounds of
/// a `for` among them), `v` is freed after `ss[j]` or after a later
/// statement, or at the end of the branches of a later (or this very)
/// `if`/`else`; so a schedule that `compute_schedule` makes lists `v` at
/// no statement before `j`.
pub proof fn lemma_not_freed_before_read(ss: Vec<(Stmt, Span)>, vars: Seq<Seq<char>>, v: Seq<char>, j: int)
    requires
        0 <= j < ss.len(),
        reads_directly(ss[j].0, v),
    ensures
        free_point(ss, v) matches Some((i, _)) && j <= i < ss.len(),
        forall|i: int, b: bool| #[trigger] freed_at(ss, vars, i, b).contains(v) ==> j <= i,
{
    lemma_reads_directly_uses(ss[j].0, v);
    lemma_last_use_after(ss, v, ss.len() as int, j);
    assert forall|i: int, b: bool| #[trigger] freed_at(ss, vars, i, b).contains(v) implies j <= i by {
        lemma_freed_at_point(ss, vars, i, b, v);
    }
}

/// The blocks nested directly in `s`: the branches of an `if`, the body of
/// a loop, of a `for` or of an anchor, and the body of each arm of a
/// `match`.
pub open spec fn inner_blocks(s: Stmt) -> Seq<Vec<(Stmt, Span)>> {
    match s {
        Stmt::If { then_body, else_body, .. } => seq![then_body] + match else_body {
            Some(b) => seq![b],
            None => Seq::empty(),
        },
        Stmt::Loop(body) | Stmt::While { body, .. } | Stmt::For { body, .. } | Stmt::InlineAnchor { body, .. } => seq![body],
        Stmt::Match { arms, .. } => arms@.map_values(|m: MatchArm| m.body),
        _ => Seq::empty(),
    }
}

/// A use in one statement of a block is a use in the block from any
/// earlier statement on.
proof fn lemma_uses_ss_at(ss: Vec<(Stmt, Span)>, n: Seq<char>, j: int, k: int)
    requires
        0 <= j <= k < ss.len(),
        uses_s(ss[k].0, n),
    ensures
        uses_ss(ss, n, j),
    decreases k - j,
{
    if j < k {
        lemma_uses_ss_at(ss, n, j + 1, k);
    }
}

/// A use in the body of one arm is a use in the arms from any earlier arm
/// on.
proof fn lemma_uses_arms_at(arms: Vec<MatchArm>, n: Seq<char>, j: int, k: int)
    requires
        0 <= j <= k < arms.len(),
        uses_ss(arms[k].body, n, 0),
    ensures
        uses_arms(arms, n, j),
    decreases k - j,
{
    if j < k {
        lemma_uses_arms_at(arms, n, j + 1, k);
    }
}

/// Law: a statement uses `n` when a statement of one of its nested blocks
/// does (a variable read only inside a loop body or a branch is live until
/// that loop or `if` ends).
pub proof fn lemma_nested_use(s: Stmt, n: Seq<char>, b: int, k: int)
    requires
        0 <= b < inner_blocks(s).len(),
        0 <= k < inner_blocks(s)[b].len(),
        uses_s(inner_blocks(s)[b][k].0, n),
    ensures
        uses_s(s, n),
{
    let blk = inner_blocks(s)[b];
    lemma_uses_ss_at(blk, n, 0, k);
    match s {
        Stmt::If { then_body, else_body, .. } => {
            if b == 1 {
                assert(else_body is Some);
            }
        },
        Stmt::Match { arms, .. } => {
            assert(blk == arms[b].body);
            lemma_uses_arms_at(arms, n, 0, b);
        },
        _ => {},
    }
}

/// Law: no Vault variable is freed before a loop or branch whose body reads
/// it: where a statement of a block nested in `ss[j]` reads `v` in its own
/// expressions, `v` is freed at `ss[j]` or later, and a schedule that
/// `compute_schedule` makes lists `v` at no statement before `j`.
pub proof fn lemma_not_freed_before_nested_read(
    ss: Vec<(Stmt, Span)>,
    vars: Seq<Seq<char>>,
    v: Seq<char>,
    j: int,
    b: int,
    k: int,
)
    requires
        0 <= j < ss.len(),
        0 <= b < inner_blocks(ss[j].0).len(),
        0 <= k < inner_blocks(ss[j].0)[b].len(),
        reads_directly(inner_blocks(ss[j].0)[b][k].0, v),
    ensures
        free_point(ss, v) matches Some((i, _)) && j <= i < ss.len(),
        forall|i: int, bb: bool| #[trigger] freed_at(ss, vars, i, bb).contains(v) ==> j <= i,
{
    lemma_reads_directly_uses(inner_blocks(ss[j].0)[b][k].0, v);
    lemma_nested_use(ss[j].0, v, b, k);
    lemma_last_use_after(ss, v, ss.len() as int, j);
    assert forall|i: int, bb: bool| #[trigger] freed_at(ss, vars, i, bb).contains(v) implies j <= i by {
        lemma_freed_at_point(ss, vars, i, bb, v);
    }
}

/// The texts of a list of strings.
pub open spec fn names_view(v: Seq<String>) -> Seq<Seq<char>> {
    v.map_values(|s: String| s@)
}

/// The variables listed at `i` in a schedule map; none when `i` is no key.
pub open spec fn listed_at(m: HashMap<usize, Vec<String>>, i: int) -> Seq<Seq<char>> {
    if 0 <= i <= usize::MAX && m@.contains_key(i as usize) {
        names_view(m@[i as usize]@)
    } else {
        Seq::empty()
    }
}

/// `m` lists at each `i` exactly `want(i)`, and has a key only where that
/// list is not empty.
pub open spec fn lists_exactly(m: HashMap<usize, Vec<String>>, want: spec_fn(int) -> Seq<Seq<char>>) -> bool {
    &&& forall|i: int| #[trigger] listed_at(m, i) == want(i)
    &&& forall|k: usize| #[trigger] m@.contains_key(k) ==> want(k as int).len() > 0
}

/// Where to free the Vault variables of a block.
pub struct FreeSchedule {
    /// Free after `stmts[i]`.
    pub after: HashMap<usize, Vec<String>>,
    /// For the `if`/`else` at `i`: free at the end of the then-branch.
    pub in_then: HashMap<usize, Vec<String>>,
    /// For the `if`/`else` at `i`: free at the end of the else-branch.
    pub in_else: HashMap<usize, Vec<String>>,
}

impl FreeSchedule {
    /// A schedule that frees nothing.
    pub fn new() -> (r: Self)
        ensures
            r.after@ == Map::<usize, Vec<String>>::empty(),
            r.in_then@ == Map::<usize, Vec<String>>::empty(),
            r.in_else@ == Map::<usize, Vec<String>>::empty(),
    {
        FreeSchedule { after: HashMap::new(), in_then: HashMap::new(), in_else: HashMap::new() }
    }

    /// The variables to free after statement `idx`.
    pub fn after_vars(&self, idx: usize) -> (r: &[String])
        ensures
            names_view(r@) == listed_at(self.after, idx as int),
    {
        list_of(&self.after, idx)
    }

    /// The variables to free at the end of the then-branch of the `if` at `idx`.
    pub fn then_vars(&self, idx: usize) -> (r: &[String])
        ensures
            names_view(r@) == listed_at(self.in_then, idx as int),
    {
        list_of(&self.in_then, idx)
    }

    /// The variables to free at the end of the else-branch of the `if` at `idx`.
    pub fn else_vars(&self, idx: usize) -> (r: &[String])
        ensures
            names_view(r@) == listed_at(self.in_else, idx as int),
    {
        list_of(&self.in_else, idx)
    }
}

fn list_of(m: &HashMap<usize, Vec<String>>, idx: usize) -> (r: &[String])
    ensures
        names_view(r@) == listed_at(*m, idx as int),
{
    broadcast use vstd::std_specs::hash::group_hash_axioms;
    match m.get(&idx) {
        Some(v) => v.as_slice(),
        None => {
            assert(names_view(Seq::<String>::empty()) =~= Seq::<Seq<char>>::empty());
            &[]
        },
    }
}

/// Adds `v` at the end of the list at `i`.
fn push_at(m: &mut HashMap<usize, Vec<String>>, i: usize, v: String)
    ensures
        forall|j: int| #[trigger] listed_at(*final(m), j) == if j == i {
            listed_at(*old(m), j).push(v@)
        } else {
            listed_at(*old(m), j)
        },
        forall|k: usize| #[trigger] final(m)@.contains_key(k) <==> (old(m)@.contains_key(k) || k == i),
{
    broadcast use vstd::std_specs::hash::group_hash_axioms;
    let mut cur: Vec<String> = match m.remove(&i) {
        Some(x) => x,
        None => Vec::new(),
    };
    let ghost before = cur@;
    cur.push(v);
    m.insert(i, cur);
    proof {
        assert forall|j: int| #[trigger] listed_at(*final(m), j) == if j == i {
            listed_at(*old(m), j).push(v@)
        } else {
            listed_at(*old(m), j)
        } by {
            if j == i {
                assert(names_view(before.push(v)) =~= names_view(before).push(v@));
                if !old(m)@.contains_key(i) {
                    assert(names_view(before) =~= Seq::<Seq<char>>::empty());
                }
            }
        }
    }
}

/// Where `var` is freed in `stmts`: its free point, found by a scan from the
/// end for its last use.
fn free_point_of(stmts: &Vec<(Stmt, Span)>, var: &String) -> (r: Option<(usize, bool)>)
    ensures
        match r {
            Some((i, b)) => free_point(*stmts, var@) == Some((i as int, b)),
            None => free_point(*stmts, var@) is None,
        },
{
    let mut k = stmts.len();
    while k > 0
        invariant
            k <= stmts@.len(),
            last_use(*stmts, var@, k as int) == last_use(*stmts, var@, stmts@.len() as int),
        decreases k,
    {
        let i = k - 1;
        if s_uses(&stmts[i].0, var) {
            match &stmts[i].0 {
                Stmt::If { cond, then_body: _, else_body: Some(_) } => {
                    if e_uses(cond, var) {
                        return Some((i, false));
                    }
                    return Some((i, true));
                },
                _ => {
                    return Some((i, false));
                },
            }
        }
        k = i;
    }
    let mut j: usize = 0;
    while j < stmts.len()
        invariant
            j <= stmts@.len(),
            last_use(*stmts, var@, stmts@.len() as int) is None,
            first_vault_decl(*stmts, var@, j as int) == first_vault_decl(*stmts, var@, 0),
        decreases stmts@.len() - j,
    {
        match &stmts[j].0 {
            Stmt::VaultDecl { name, .. } => {
                if *name == *var {
                    return Some((j, false));
                }
            },
            _ => {},
        }
        j = j + 1;
    }
    None
}

/// Adds `var` to the schedule at its free point in `stmts`.
fn schedule_one(stmts: &Vec<(Stmt, Span)>, var: &String, sched: &mut FreeSchedule)
    ensures
        forall|j: int| #[trigger] listed_at(final(sched).after, j) == listed_at(old(sched).after, j) + if free_point(*stmts, var@) == Some((j, false)) {
            seq![var@]
        } else {
            Seq::<Seq<char>>::empty()
        },
        forall|j: int| #[trigger] listed_at(final(sched).in_then, j) == listed_at(old(sched).in_then, j) + if free_point(*stmts, var@) == Some((j, true)) {
            seq![var@]
        } else {
            Seq::<Seq<char>>::empty()
        },
        forall|j: int| #[trigger] listed_at(final(sched).in_else, j) == listed_at(old(sched).in_else, j) + if free_point(*stmts, var@) == Some((j, true)) {
            seq![var@]
        } else {
            Seq::<Seq<char>>::empty()
        },
        forall|k: usize| #[trigger] final(sched).after@.contains_key(k) <==> (old(sched).after@.contains_key(k) || free_point(*stmts, var@) == Some((k as int, false))),
        forall|k: usize| #[trigger] final(sched).in_then@.contains_key(k) <==> (old(sched).in_then@.contains_key(k) || free_point(*stmts, var@) == Some((k as int, true))),
        forall|k: usize| #[trigger] final(sched).in_else@.contains_key(k) <==> (old(sched).in_else@.contains_key(k) || free_point(*stmts, var@) == Some((k as int, true))),
{
    match free_point_of(stmts, var) {
        Some((i, false)) => {
            push_at(&mut sched.after, i, var.clone());
            assert forall|j: int| #[trigger] listed_at(sched.after, j) == listed_at(old(sched).after, j) + if free_point(*stmts, var@) == Some((j, false)) {
                seq![var@]
            } else {
                Seq::<Seq<char>>::empty()
            } by {
                if j == i {
                    assert(listed_at(old(sched).after, j).push(var@) =~= listed_at(old(sched).after, j) + seq![var@]);
                } else {
                    assert(listed_at(old(sched).after, j) =~= listed_at(old(sched).after, j) + Seq::<Seq<char>>::empty());
                }
            }
            assert forall|j: int| #[trigger] listed_at(sched.in_then, j) == listed_at(old(sched).in_then, j) + Seq::<Seq<char>>::empty() by {
                assert(listed_at(old(sched).in_then, j) =~= listed_at(old(sched).in_then, j) + Seq::<Seq<char>>::empty());
            }
            assert forall|j: int| #[trigger] listed_at(sched.in_else, j) == listed_at(old(sched).in_else, j) + Seq::<Seq<char>>::empty() by {
                assert(listed_at(old(sched).in_else, j) =~= listed_at(old(sched).in_else, j) + Seq::<Seq<char>>::empty());
            }
        },
        Some((i, true)) => {
            push_at(&mut sched.in_then, i, var.clone());
            push_at(&mut sched.in_else, i, var.clone());
            assert forall|j: int| #[trigger] listed_at(sched.in_then, j) == listed_at(old(sched).in_then, j) + if free_point(*stmts, var@) == Some((j, true)) {
                seq![var@]
            } else {
                Seq::<Seq<char>>::empty()
            } by {
                if j == i {
                    assert(listed_at(old(sched).in_then, j).push(var@) =~= listed_at(old(sched).in_then, j) + seq![var@]);
                } else {
                    assert(listed_at(old(sched).in_then, j) =~= listed_at(old(sched).in_then, j) + Seq::<Seq<char>>::empty());
                }
            }
            assert forall|j: int| #[trigger] listed_at(sched.in_else, j) == listed_at(old(sched).in_else, j) + if free_point(*stmts, var@) == Some((j, true)) {
                seq![var@]
            } else {
                Seq::<Seq<char>>::empty()
            } by {
                if j == i {
                    assert(listed_at(old(sched).in_else, j).push(var@) =~= listed_at(old(sched).in_else, j) + seq![var@]);
                } else {
                    assert(listed_at(old(sched).in_else, j) =~= listed_at(old(sched).in_else, j) + Seq::<Seq<char>>::empty());
                }
            }
            assert forall|j: int| #[trigger] listed_at(sched.after, j) == listed_at(old(sched).after, j) + Seq::<Seq<char>>::empty() by {
                assert(listed_at(old(sched).after, j) =~= listed_at(old(sched).after, j) + Seq::<Seq<char>>::empty());
            }
        },
        None => {
            assert forall|j: int| #[trigger] listed_at(sched.after, j) == listed_at(old(sched).after, j) + Seq::<Seq<char>>::empty() by {
                assert(listed_at(old(sched).after, j) =~= listed_at(old(sched).after, j) + Seq::<Seq<char>>::empty());
            }
            assert forall|j: int| #[trigger] listed_at(sched.in_then, j) == listed_at(old(sched).in_then, j) + Seq::<Seq<char>>::empty() by {
                assert(listed_at(old(sched).in_then, j) =~= listed_at(old(sched).in_then, j) + Seq::<Seq<char>>::empty());
            }
            assert forall|j: int| #[trigger] listed_at(sched.in_else, j) == listed_at(old(sched).in_else, j) + Seq::<Seq<char>>::empty() by {
                assert(listed_at(old(sched).in_else, j) =~= listed_at(old(sched).in_else, j) + Seq::<Seq<char>>::empty());
            }
        },
    }
}

/// The schedule that frees each of `vault_vars` (the Vault variables
/// declared in the block `stmts`) at its free point; the variables listed at
/// one place keep the order of `vault_vars`.
pub fn compute_schedule(stmts: &Vec<(Stmt, Span)>, vault_vars: &[String]) -> (r: FreeSchedule)
    ensures
        lists_exactly(r.after, |i: int| freed_at(*stmts, names_view(vault_vars@), i, false)),
        lists_exactly(r.in_then, |i: int| freed_at(*stmts, names_view(vault_vars@), i, true)),
        lists_exactly(r.in_else, |i: int| freed_at(*stmts, names_view(vault_vars@), i, true)),
{
    let mut sched = FreeSchedule::new();
    let ghost vars = names_view(vault_vars@);
    let mut k: usize = 0;
    while k < vault_vars.len()
        invariant
            k <= vault_vars@.len(),
            vars == names_view(vault_vars@),
            lists_exactly(sched.after, |i: int| freed_at(*stmts, vars.take(k as int), i, false)),
            lists_exactly(sched.in_then, |i: int| freed_at(*stmts, vars.take(k as int), i, true)),
            lists_exactly(sched.in_else, |i: int| freed_at(*stmts, vars.take(k as int), i, true)),
        decreases vault_vars@.len() - k,
    {
        let ghost old_sched = sched;
        schedule_one(stmts, &vault_vars[k], &mut sched);
        proof {
            let pre = vars.take(k + 1);
            assert(pre.drop_last() =~= vars.take(k as int));
            assert(pre.last() == vault_vars@[k as int]@);
        }
        k = k + 1;
    }
    assert(vars.take(vault_vars@.len() as int) =~= vars);
    sched
}


// ───────────────────────── the Vaults of a body ─────────────────────────

/// The Vault variables that `s` declares, in its own blocks too: the
/// branches of an `if` and the bodies of loops, but not child anchors.
pub open spec fn vaults_s(s: Stmt) -> Seq<Seq<char>>
    decreases s, 0nat,
{
    match s {
        Stmt::VaultDecl { name, .. } => seq![name@],
        Stmt::If { then_body, else_body, .. } => vaults_ss(then_body, 0) + match else_body {
            Some(b) => vaults_ss(b, 0),
            None => Seq::empty(),
        },
        Stmt::Loop(body) => vaults_ss(body, 0),
        Stmt::While { body, .. } => vaults_ss(body, 0),
        Stmt::For { body, .. } => vaults_ss(body, 0),
        _ => Seq::empty(),
    }
}

/// The Vault variables that `ss[k..]` declare (see `vaults_s`).
pub open spec fn vaults_ss(ss: Vec<(Stmt, Span)>, k: int) -> Seq<Seq<char>>
    decreases ss, ss.len() - k,
{
    if 0 <= k < ss.len() {
        proof {
            vstd::std_specs::vec::axiom_vec_index_decreases(ss, k);
        }
        vaults_s(ss[k].0) + vaults_ss(ss, k + 1)
    } else {
        Seq::empty()
    }
}

/// The views of a list of names.
pub open spec fn names_v(v: Seq<String>) -> Seq<Seq<char>> {
    v.map_values(|x: String| x@)
}

/// Appends the Vault variables that `ss` declare (see `vaults_ss`).
fn vaults_in(ss: &Vec<(Stmt, Span)>, out: &mut Vec<String>)
    ensures
        names_v(final(out)@) == names_v(old(out)@) + vaults_ss(*ss, 0),
    decreases ss, 1nat,
{
    let ghost o0 = names_v(out@);
    let mut k: usize = 0;
    proof {
        assert(names_v(out@) =~= o0 + vaults_ss(*ss, 0).take(0));
    }
    while k < ss.len()
        invariant
            k <= ss@.len(),
            names_v(out@) + vaults_ss(*ss, k as int) == o0 + vaults_ss(*ss, 0),
        decreases ss@.len() - k,
    {
        proof {
            vstd::std_specs::vec::axiom_vec_index_decreases(*ss, k as int);
        }
        let ghost before = names_v(out@);
        collect_vault_names_stmt(&ss[k].0, out);
        proof {
            assert(names_v(out@) + vaults_ss(*ss, k + 1) =~= before + vaults_ss(*ss, k as int));
        }
        k = k + 1;
    }
    proof {
        assert(names_v(out@) + vaults_ss(*ss, k as int) =~= names_v(out@));
    }
}

/// Appends the Vault variables that `stmt` declares (see `vaults_s`).
pub fn collect_vault_names_stmt(stmt: &Stmt, out: &mut Vec<String>)
    ensures
        names_v(final(out)@) == names_v(old(out)@) + vaults_s(*stmt),
    decreases stmt, 0nat,
{
    let ghost o0 = names_v(out@);
    match stmt {
        Stmt::VaultDecl { name, .. } => {
            out.push(string_of(chars_of(name.as_str()).as_slice()));
            proof {
                assert(names_v(out@) =~= o0 + seq![name@]);
            }
        },
        Stmt::If { then_body, else_body, .. } => {
            vaults_in(then_body, out);
            match else_body {
                Some(b) => {
                    vaults_in(b, out);
                },
                None => {},
            }
            proof {
                assert(names_v(out@) =~= o0 + vaults_s(*stmt));
            }
        },
        Stmt::Loop(body) => {
            vaults_in(body, out);
        },
        Stmt::While { body, .. } => {
            vaults_in(body, out);
        },
        Stmt::For { body, .. } => {
            vaults_in(body, out);
        },
        _ => {
            proof {
                assert(names_v(out@) =~= o0 + vaults_s(*stmt));
            }
        },
    }
}

/// The Vault variables that a body declares (see `vaults_ss`).
pub fn collect_vault_names(stmts: &Vec<(Stmt, Span)>) -> (r: Vec<String>)
    ensures
        names_v(r@) == vaults_ss(*stmts, 0),
{
    let mut out: Vec<String> = Vec::new();
    vaults_in(stmts, &mut out);
    proof {
        assert(names_v(out@) =~= Seq::<Seq<char>>::empty() + vaults_ss(*stmts, 0));
    }
    out
}

} // verus!
