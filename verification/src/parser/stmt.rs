//! Reading statements and blocks (see the grammar's `stmt_s` and the
//! functions it calls).
use crate::ast::{AnchorKind, BinOpKind, Expr, MatchArm, Stmt, Span, Token, TokenV, Ty};
use crate::ast::{arms_v, stmts_v, ExprV, StmtV};
use crate::parser::grammar::{
    args_s, expr_s, postfix_s, primary_s, arms_s, assign_tail_s, body_s, braced_s, compound_op, ident_stmt_s, inline_anchor_s, lemma_decorator_keeps,
    match_stmt_s, rem, skip_to_sync, span_at, starts_decl, stmt_s,
};
use crate::parser::{ahead, cur, same_token, token_debug, PInput, PState, Parser};
use crate::text::push_str;
use vstd::prelude::*;

verus! {

/// Whether a token names a base type that starts a declaration (see
/// `starts_decl`).
fn starts_decl_tok(t: &Token) -> (r: bool)
    ensures
        r == starts_decl(t@),
{
    match t {
        Token::Int | Token::Float | Token::String | Token::Bool | Token::TyI8 | Token::TyI16 | Token::TyI32
        | Token::TyI64 | Token::TyU8 | Token::TyU16 | Token::TyU32 | Token::TyU64 => true,
        _ => false,
    }
}

impl Parser {
    /// Skips to the next `;`, `}` or the end (see `skip_to_sync`).
    fn skip_to_sync(&mut self)
        requires
            old(self).wf(),
        ensures
            final(self).wf(),
            final(self).input() == old(self).input(),
            final(self).state() == skip_to_sync(old(self).input(), old(self).state()),
            final(self).state().depth == old(self).state().depth,
    {
        let ghost inp = self.input();
        let ghost s = self.state();
        let mut done = false;
        while !done && !same_token(self.current(), &Token::Semicolon) && !same_token(self.current(), &Token::RBrace)
            && !same_token(self.current(), &Token::EOF)
            invariant
                self.wf(),
                self.input() == inp,
                inp == old(self).input(),
                self.state().depth == s.depth,
                (if done {
                    self.state()
                } else {
                    skip_to_sync(inp, self.state())
                }) == skip_to_sync(inp, s),
            decreases (if done { 0int } else { 1int }), rem(inp, self.state()),
        {
            let q0 = self.pos;
            self.advance();
            if !(q0 < self.pos && self.pos <= self.tokens.len()) {
                done = true;
            }
        }
    }

    /// Reads statements up to `}` (see `body_s`).
    #[verifier::spinoff_prover]
    #[verifier::rlimit(60)]
    pub fn parse_body(&mut self) -> (r: Vec<(Stmt, Span)>)
        requires
            old(self).wf(),
        ensures
            final(self).wf(),
            final(self).input() == old(self).input(),
            (stmts_v(r), final(self).state()) == body_s(old(self).input(), old(self).state(), Seq::empty()),
            final(self).state().depth == old(self).state().depth,
        decreases 2 * old(self).input().fuel + 1, rem(old(self).input(), old(self).state()), 30int,
    {
        reveal(body_s);
        reveal(inline_anchor_s);
        reveal(stmt_s);
        let ghost inp = self.input();
        let ghost s = self.state();
        let mut acc: Vec<(Stmt, Span)> = Vec::new();
        proof {
            assert(stmts_v(acc) =~= Seq::empty());
        }
        let mut done = false;
        while !done && !same_token(self.current(), &Token::RBrace) && !same_token(self.current(), &Token::EOF)
            invariant
                self.wf(),
                self.input() == inp,
                inp == old(self).input(),
                s == old(self).state(),
                self.state().depth == s.depth,
                !done ==> s.pos <= self.state().pos <= inp.toks.len(),
                (if done {
                    (stmts_v(acc), self.state())
                } else {
                    body_s(inp, self.state(), stmts_v(acc))
                }) == body_s(inp, s, Seq::empty()),
            decreases (if done { 0int } else { 1int }), rem(inp, self.state()),
        {
            reveal(body_s);
            reveal(inline_anchor_s);
            reveal(stmt_s);
            let q0 = self.pos;
            if same_token(self.current(), &Token::Hash) {
                proof {
                    lemma_decorator_keeps(inp, self.state());
                }
                self.skip_decorator();
            } else {
                let st = if same_token(self.current(), &Token::At) {
                    self.parse_inline_anchor()
                } else {
                    self.parse_stmt()
                };
                let ghost sa = stmts_v(acc);
                let ghost item = (st.0@, st.1);
                acc.push(st);
                proof {
                    assert(stmts_v(acc) =~= sa.push(item));
                }
            }
            if !(q0 < self.pos && self.pos <= self.tokens.len()) {
                done = true;
            }
        }
        reveal(body_s);
        reveal(inline_anchor_s);
        reveal(stmt_s);
        acc
    }

    /// Reads an anchor inside a block (see `inline_anchor_s`).
    #[verifier::spinoff_prover]
    #[verifier::rlimit(60)]
    pub(crate) fn parse_inline_anchor(&mut self) -> (r: (Stmt, Span))
        requires
            old(self).wf(),
        ensures
            final(self).wf(),
            final(self).input() == old(self).input(),
            ((r.0@, r.1), final(self).state()) == inline_anchor_s(old(self).input(), old(self).state()),
            final(self).state().depth == old(self).state().depth,
        decreases 2 * old(self).input().fuel + 1, rem(old(self).input(), old(self).state()), 27int,
    {
        reveal(inline_anchor_s);
        reveal(body_s);
        let span = self.current_span();
        let p0 = self.pos;
        self.expect(&Token::At);
        let name = self.eat_ident();
        self.expect(&Token::LParen);
        let kind = self.parse_anchor_kind();
        self.expect(&Token::RParen);
        self.expect(&Token::LBrace);
        if !(p0 < self.pos && self.pos <= self.tokens.len()) {
            let nb: Vec<(Stmt, Span)> = Vec::new();
            proof {
                assert(stmts_v(nb) =~= Seq::empty());
            }
            return (Stmt::InlineAnchor { name, kind, body: nb }, span);
        }
        let body = self.parse_body();
        self.expect(&Token::RBrace);
        (Stmt::InlineAnchor { name, kind, body }, span)
    }

    /// Reads a block in braces for a statement that started at `p0` (see
    /// `braced_s`).
    #[verifier::spinoff_prover]
    #[verifier::rlimit(60)]
    pub(crate) fn parse_braced(&mut self, p0: usize) -> (r: Vec<(Stmt, Span)>)
        requires
            old(self).wf(),
        ensures
            final(self).wf(),
            final(self).input() == old(self).input(),
            (stmts_v(r), final(self).state()) == braced_s(old(self).input(), p0 as int, old(self).state()),
            final(self).state().depth == old(self).state().depth,
        decreases 2 * old(self).input().fuel + 1, rem(old(self).input(), PState { pos: p0 as int, ..old(self).state() }), 27int,
    {
        reveal(braced_s);
        reveal(body_s);
        self.expect(&Token::LBrace);
        if !(p0 < self.pos && self.pos <= self.tokens.len()) {
            let nb: Vec<(Stmt, Span)> = Vec::new();
            proof {
                assert(stmts_v(nb) =~= Seq::empty());
            }
            return nb;
        }
        let b = self.parse_body();
        self.expect(&Token::RBrace);
        b
    }

    /// Reads a statement (see `stmt_s`).
    #[verifier::spinoff_prover]
    #[verifier::rlimit(60)]
    pub fn parse_stmt(&mut self) -> (r: (Stmt, Span))
        requires
            old(self).wf(),
        ensures
            final(self).wf(),
            final(self).input() == old(self).input(),
            ((r.0@, r.1), final(self).state()) == stmt_s(old(self).input(), old(self).state()),
            final(self).state().depth == old(self).state().depth,
        decreases 2 * old(self).input().fuel + 1, rem(old(self).input(), old(self).state()), 29int,
    {
        reveal(stmt_s);
        reveal(match_stmt_s);
        reveal(ident_stmt_s);
        let span = self.current_span();
        let t = self.current().clone();
        match t {
            Token::Kill | Token::Return => self.parse_kill_return(),
            Token::Exit => {
                self.advance();
                self.expect(&Token::Semicolon);
                (Stmt::Exit, span)
            },
            Token::Break => {
                self.advance();
                self.expect(&Token::Semicolon);
                (Stmt::Break, span)
            },
            Token::Yield | Token::Print | Token::Assert => self.parse_simple_stmt(),
            Token::If => self.parse_if(),
            Token::Loop | Token::While => self.parse_loop_stmt(),
            Token::For => self.parse_for(),
            Token::Vault | Token::Const | Token::Auto => self.parse_decl_stmt(),
            Token::Match => {
                let st = self.parse_match_stmt();
                (st, span)
            },
            Token::Ident(name) => {
                self.advance();
                let st = self.parse_ident_stmt(name);
                (st, span)
            },
            _ => {
                if starts_decl_tok(&t) {
                    self.parse_decl_stmt()
                } else {
                    let mut m: Vec<char> = Vec::new();
                    push_str(&mut m, "Unexpected token in statement: ");
                    push_str(&mut m, token_debug(&t).as_str());
                    self.error_here(m);
                    self.skip_to_sync();
                    if same_token(self.current(), &Token::Semicolon) {
                        self.advance();
                    }
                    (Stmt::ExprStmt(Expr::IntLit(0)), span)
                }
            },
        }
    }

    /// Reads `kill` or `return`, with or without a value (arms of `stmt_s`).
    #[verifier::spinoff_prover]
    pub(crate) fn parse_kill_return(&mut self) -> (r: (Stmt, Span))
        requires
            old(self).wf(),
            cur(old(self).input(), old(self).state()) == TokenV::Kill || cur(old(self).input(), old(self).state()) == TokenV::Return,
        ensures
            final(self).wf(),
            final(self).input() == old(self).input(),
            ((r.0@, r.1), final(self).state()) == stmt_s(old(self).input(), old(self).state()),
            final(self).state().depth == old(self).state().depth,
        decreases 2 * old(self).input().fuel + 1, rem(old(self).input(), old(self).state()), 28int,
    {
        reveal(stmt_s);
        reveal(expr_s);
        let span = self.current_span();
        let p0 = self.pos;
        let kill = same_token(self.current(), &Token::Kill);
        self.advance();
        if same_token(self.current(), &Token::Semicolon) {
            self.advance();
            if kill {
                (Stmt::Kill(None), span)
            } else {
                (Stmt::Return(None), span)
            }
        } else {
            let e = self.parse_expr();
            self.expect(&Token::Semicolon);
            if kill {
                (Stmt::Kill(Some(e)), span)
            } else {
                (Stmt::Return(Some(e)), span)
            }
        }
    }

    /// Reads `yield e;`, `print(...);` or `assert(c, m);` (arms of `stmt_s`).
    #[verifier::spinoff_prover]
    pub(crate) fn parse_simple_stmt(&mut self) -> (r: (Stmt, Span))
        requires
            old(self).wf(),
            cur(old(self).input(), old(self).state()) == TokenV::Yield || cur(old(self).input(), old(self).state()) == TokenV::Print || cur(old(self).input(), old(self).state()) == TokenV::Assert,
        ensures
            final(self).wf(),
            final(self).input() == old(self).input(),
            ((r.0@, r.1), final(self).state()) == stmt_s(old(self).input(), old(self).state()),
            final(self).state().depth == old(self).state().depth,
        decreases 2 * old(self).input().fuel + 1, rem(old(self).input(), old(self).state()), 28int,
    {
        reveal(stmt_s);
        reveal(expr_s);
        reveal(args_s);
        let span = self.current_span();
        let p0 = self.pos;
        if same_token(self.current(), &Token::Yield) {
            self.advance();
            let e = self.parse_expr();
            self.expect(&Token::Semicolon);
            (Stmt::Yield(e), span)
        } else if same_token(self.current(), &Token::Print) {
            self.advance();
            self.expect(&Token::LParen);
            let args = self.parse_args(&Token::RParen);
            self.expect(&Token::RParen);
            self.expect(&Token::Semicolon);
            (Stmt::Print(args), span)
        } else {
            self.advance();
            self.expect(&Token::LParen);
            let c = self.parse_expr();
            let m = if same_token(self.current(), &Token::Comma) {
                self.advance();
                if p0 <= self.pos && self.pos <= self.tokens.len() {
                    Some(self.parse_expr())
                } else {
                    None
                }
            } else {
                None
            };
            self.expect(&Token::RParen);
            self.expect(&Token::Semicolon);
            (Stmt::Assert { cond: c, message: m }, span)
        }
    }

    /// Reads `loop { ... }` or `while c { ... }` (arms of `stmt_s`).
    #[verifier::spinoff_prover]
    pub(crate) fn parse_loop_stmt(&mut self) -> (r: (Stmt, Span))
        requires
            old(self).wf(),
            cur(old(self).input(), old(self).state()) == TokenV::Loop || cur(old(self).input(), old(self).state()) == TokenV::While,
        ensures
            final(self).wf(),
            final(self).input() == old(self).input(),
            ((r.0@, r.1), final(self).state()) == stmt_s(old(self).input(), old(self).state()),
            final(self).state().depth == old(self).state().depth,
        decreases 2 * old(self).input().fuel + 1, rem(old(self).input(), old(self).state()), 28int,
    {
        reveal(stmt_s);
        reveal(expr_s);
        reveal(braced_s);
        let span = self.current_span();
        let p0 = self.pos;
        if same_token(self.current(), &Token::Loop) {
            self.advance();
            let b = self.parse_braced(p0);
            (Stmt::Loop(b), span)
        } else {
            self.advance();
            let c = self.parse_expr();
            if !(p0 <= self.pos && self.pos <= self.tokens.len()) {
                let nb: Vec<(Stmt, Span)> = Vec::new();
                proof {
                    assert(stmts_v(nb) =~= Seq::empty());
                }
                (Stmt::While { cond: c, body: nb }, span)
            } else {
                let b = self.parse_braced(p0);
                (Stmt::While { cond: c, body: b }, span)
            }
        }
    }

    /// Reads `for v in a..b { ... }` (an arm of `stmt_s`).
    #[verifier::spinoff_prover]
    pub(crate) fn parse_for(&mut self) -> (r: (Stmt, Span))
        requires
            old(self).wf(),
            cur(old(self).input(), old(self).state()) == TokenV::For,
        ensures
            final(self).wf(),
            final(self).input() == old(self).input(),
            ((r.0@, r.1), final(self).state()) == stmt_s(old(self).input(), old(self).state()),
            final(self).state().depth == old(self).state().depth,
        decreases 2 * old(self).input().fuel + 1, rem(old(self).input(), old(self).state()), 28int,
    {
        reveal(stmt_s);
        reveal(primary_s);
        reveal(braced_s);
        let span = self.current_span();
        let p0 = self.pos;
        self.advance();
        let v = self.eat_ident();
        self.expect(&Token::In);
        let from = self.parse_primary();
        self.expect(&Token::DotDot);
        let nb: Vec<(Stmt, Span)> = Vec::new();
        proof {
            assert(stmts_v(nb) =~= Seq::empty());
        }
        if !(p0 <= self.pos && self.pos <= self.tokens.len()) {
            (Stmt::For { var: v, from, to: Expr::IntLit(0), body: nb }, span)
        } else {
            let to = self.parse_primary();
            if !(p0 <= self.pos && self.pos <= self.tokens.len()) {
                (Stmt::For { var: v, from, to, body: nb }, span)
            } else {
                let b = self.parse_braced(p0);
                (Stmt::For { var: v, from, to, body: b }, span)
            }
        }
    }

    /// Reads a declaration: `Vault T n = e;`, `const T n = e;`, `auto n = e;` or `T n = e;` (arms of `stmt_s`).
    #[verifier::spinoff_prover]
    #[verifier::rlimit(60)]
    pub(crate) fn parse_decl_stmt(&mut self) -> (r: (Stmt, Span))
        requires
            old(self).wf(),
            cur(old(self).input(), old(self).state()) == TokenV::Vault || cur(old(self).input(), old(self).state()) == TokenV::Const || cur(old(self).input(), old(self).state()) == TokenV::Auto || starts_decl(cur(old(self).input(), old(self).state())),
        ensures
            final(self).wf(),
            final(self).input() == old(self).input(),
            ((r.0@, r.1), final(self).state()) == stmt_s(old(self).input(), old(self).state()),
            final(self).state().depth == old(self).state().depth,
        decreases 2 * old(self).input().fuel + 1, rem(old(self).input(), old(self).state()), 28int,
    {
        reveal(stmt_s);
        reveal(expr_s);
        let span = self.current_span();
        let p0 = self.pos;
        if same_token(self.current(), &Token::Auto) {
            self.advance();
            let n = self.eat_var_ident();
            self.expect(&Token::Eq);
            let v = self.parse_expr();
            self.expect(&Token::Semicolon);
            return (Stmt::VarDecl { ty: Ty::Auto, name: n, value: v }, span);
        }
        let vault = same_token(self.current(), &Token::Vault);
        let konst = same_token(self.current(), &Token::Const);
        if vault || konst {
            self.advance();
        }
        let ty = self.parse_ty();
        let n = if vault {
            self.eat_ident()
        } else {
            self.eat_var_ident()
        };
        self.expect(&Token::Eq);
        let v = if !(p0 <= self.pos && self.pos <= self.tokens.len()) {
            Expr::IntLit(0)
        } else {
            let v = self.parse_expr();
            self.expect(&Token::Semicolon);
            v
        };
        if vault {
            (Stmt::VaultDecl { ty, name: n, value: v }, span)
        } else if konst {
            (Stmt::ConstDecl { ty, name: n, value: v }, span)
        } else {
            (Stmt::VarDecl { ty, name: n, value: v }, span)
        }
    }

    /// Reads an `if` statement with its `else` (an arm of `stmt_s`).
    #[verifier::spinoff_prover]
    #[verifier::rlimit(60)]
    pub(crate) fn parse_if(&mut self) -> (r: (Stmt, Span))
        requires
            old(self).wf(),
            cur(old(self).input(), old(self).state()) == TokenV::If,
        ensures
            final(self).wf(),
            final(self).input() == old(self).input(),
            ((r.0@, r.1), final(self).state()) == stmt_s(old(self).input(), old(self).state()),
            final(self).state().depth == old(self).state().depth,
        decreases 2 * old(self).input().fuel + 1, rem(old(self).input(), old(self).state()), 28int,
    {
        reveal(stmt_s);
        reveal(expr_s);
        reveal(braced_s);
        let span = self.current_span();
        let p0 = self.pos;
        self.advance();
        let saved = self.no_struct_init;
        self.no_struct_init = true;
        let c = self.parse_expr();
        self.no_struct_init = saved;
        if !(p0 <= self.pos && self.pos <= self.tokens.len()) {
            let nb: Vec<(Stmt, Span)> = Vec::new();
            proof {
                assert(stmts_v(nb) =~= Seq::empty());
            }
            return (Stmt::If { cond: c, then_body: nb, else_body: None }, span);
        }
        let tb = self.parse_braced(p0);
        if same_token(self.current(), &Token::Else) {
            self.advance();
            if same_token(self.current(), &Token::If) && p0 < self.pos && self.pos <= self.tokens.len() {
                let st = self.parse_stmt();
                let mut eb: Vec<(Stmt, Span)> = Vec::new();
                let ghost item = (st.0@, st.1);
                eb.push(st);
                proof {
                    assert(stmts_v(eb) =~= seq![item]);
                }
                (Stmt::If { cond: c, then_body: tb, else_body: Some(eb) }, span)
            } else if p0 <= self.pos && self.pos <= self.tokens.len() {
                let eb = self.parse_braced(p0);
                (Stmt::If { cond: c, then_body: tb, else_body: Some(eb) }, span)
            } else {
                (Stmt::If { cond: c, then_body: tb, else_body: None }, span)
            }
        } else {
            (Stmt::If { cond: c, then_body: tb, else_body: None }, span)
        }
    }

    /// Reads a `match` statement (see `match_stmt_s`).
    #[verifier::spinoff_prover]
    #[verifier::rlimit(60)]
    pub(crate) fn parse_match_stmt(&mut self) -> (r: Stmt)
        requires
            old(self).wf(),
        ensures
            final(self).wf(),
            final(self).input() == old(self).input(),
            (r@, final(self).state()) == match_stmt_s(old(self).input(), old(self).state()),
            final(self).state().depth == old(self).state().depth,
        decreases 2 * old(self).input().fuel + 1, rem(old(self).input(), old(self).state()), 26int,
    {
        reveal(match_stmt_s);
        reveal(expr_s);
        reveal(arms_s);
        let p0 = self.pos;
        self.expect(&Token::Match);
        self.no_struct_init = true;
        let e = self.parse_expr();
        self.no_struct_init = false;
        self.expect(&Token::LBrace);
        if !(p0 < self.pos && self.pos <= self.tokens.len()) {
            let none: Vec<MatchArm> = Vec::new();
            proof {
                assert(arms_v(none) =~= Seq::empty());
            }
            return Stmt::Match { expr: e, arms: none };
        }
        let arms = self.parse_arms();
        self.expect(&Token::RBrace);
        Stmt::Match { expr: e, arms }
    }

    /// Reads the arms of a `match` up to `}` (see `arms_s`).
    #[verifier::spinoff_prover]
    #[verifier::rlimit(60)]
    pub(crate) fn parse_arms(&mut self) -> (r: Vec<MatchArm>)
        requires
            old(self).wf(),
        ensures
            final(self).wf(),
            final(self).input() == old(self).input(),
            (arms_v(r), final(self).state()) == arms_s(old(self).input(), old(self).state(), Seq::empty()),
            final(self).state().depth == old(self).state().depth,
        decreases 2 * old(self).input().fuel + 1, rem(old(self).input(), old(self).state()), 31int,
    {
        reveal(arms_s);
        reveal(braced_s);
        let ghost inp = self.input();
        let ghost s = self.state();
        let mut acc: Vec<MatchArm> = Vec::new();
        proof {
            assert(arms_v(acc) =~= Seq::empty());
        }
        let mut done = false;
        while !done && !same_token(self.current(), &Token::RBrace) && !same_token(self.current(), &Token::EOF)
            invariant
                self.wf(),
                self.input() == inp,
                inp == old(self).input(),
                s == old(self).state(),
                self.state().depth == s.depth,
                !done ==> s.pos <= self.state().pos <= inp.toks.len(),
                (if done {
                    (arms_v(acc), self.state())
                } else {
                    arms_s(inp, self.state(), arms_v(acc))
                }) == arms_s(inp, s, Seq::empty()),
            decreases (if done { 0int } else { 1int }), rem(inp, self.state()),
        {
            reveal(arms_s);
            reveal(braced_s);
            let q0 = self.pos;
            let p = self.parse_pattern();
            self.expect(&Token::FatArrow);
            if !(q0 <= self.pos && self.pos <= self.tokens.len()) {
                done = true;
            } else {
                let b = self.parse_braced(q0);
                if same_token(self.current(), &Token::Comma) {
                    self.advance();
                }
                let ghost aa = arms_v(acc);
                let ghost item = (p@, stmts_v(b));
                acc.push(MatchArm { pattern: p, body: b });
                proof {
                    assert(arms_v(acc) =~= aa.push(item));
                }
                if !(q0 < self.pos && self.pos <= self.tokens.len()) {
                    done = true;
                }
            }
        }
        reveal(arms_s);
        reveal(braced_s);
        acc
    }
}

} // verus!
