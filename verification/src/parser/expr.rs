//! Reading expressions (see the grammar's `expr_s` and the functions it
//! calls).
use crate::ast::{BinOpKind, Expr, FStringPart, Stmt, Span, Token, Ty, UnaryOpKind};
use crate::ast::{exprs_v, fields_v, params_v, parts_v, stmts_v, ExprV, FStringPartV, StmtV};
use crate::lexer::{lex, tokens_view, Lexer};
use crate::numfmt::{dec, push_decimal};
use crate::parser::grammar::{
    args_s, atom_s, bin_loop_s, bin_op, bin_s, brace_body, cparams_s, expr_s, fresh, fscan_s, lvl_rank,
    postfix_s, primary_s, rem, sfields_s, span_at, sub_input, unary_s,
};
use crate::parser::ty::contains_name;
use crate::parser::{adv, cur, same_token, texts, PInput, PState, Parser};
use crate::text::{push_str, string_of};
use vstd::prelude::*;

verus! {

/// The text of an f-string's `{...}` that starts at `k` (just inside the
/// brace), and where reading continues after it (see `brace_body`).
fn brace_text(raw: &Vec<char>, k: usize) -> (r: (Vec<char>, usize))
    requires
        1 <= k,
    ensures
        (r.0@, r.1 as int) == brace_body(raw@, k as int, 1, Seq::empty()),
{
    let mut acc: Vec<char> = Vec::new();
    let mut i: usize = k;
    let mut depth: usize = 1;
    while i < raw.len()
        invariant
            k <= i,
            1 <= depth <= i,
            brace_body(raw@, i as int, depth as nat, acc@) == brace_body(raw@, k as int, 1, Seq::empty()),
        decreases raw@.len() - i,
    {
        let c = raw[i];
        if c == '{' {
            acc.push(c);
            depth = depth + 1;
        } else if c == '}' {
            if depth <= 1 {
                return (acc, i + 1);
            }
            acc.push(c);
            depth = depth - 1;
        } else {
            acc.push(c);
        }
        i = i + 1;
    }
    (acc, raw.len())
}

impl Parser {
    /// The operator of binding level `lvl` at the current token (see
    /// `bin_op`).
    fn bin_op_here(&self, lvl: usize) -> (r: Option<BinOpKind>)
        requires
            self.wf(),
        ensures
            r == bin_op(lvl as nat, cur(self.input(), self.state())),
    {
        let t = self.current();
        if lvl == 0 {
            match t {
                Token::Or => Some(BinOpKind::Or),
                _ => None,
            }
        } else if lvl == 1 {
            match t {
                Token::And => Some(BinOpKind::And),
                _ => None,
            }
        } else if lvl == 2 {
            match t {
                Token::Lt => Some(BinOpKind::Lt),
                Token::Gt => Some(BinOpKind::Gt),
                Token::Le => Some(BinOpKind::Le),
                Token::Ge => Some(BinOpKind::Ge),
                Token::EqEq => Some(BinOpKind::Eq),
                Token::Neq => Some(BinOpKind::Neq),
                _ => None,
            }
        } else if lvl == 3 {
            match t {
                Token::Plus => Some(BinOpKind::Add),
                Token::Minus => Some(BinOpKind::Sub),
                _ => None,
            }
        } else {
            match t {
                Token::Star => Some(BinOpKind::Mul),
                Token::Slash => Some(BinOpKind::Div),
                Token::Percent => Some(BinOpKind::Mod),
                _ => None,
            }
        }
    }

    /// Reads an expression (see `expr_s`).
    pub fn parse_expr(&mut self) -> (r: Expr)
        requires
            old(self).wf(),
        ensures
            final(self).wf(),
            final(self).input() == old(self).input(),
            (r@, final(self).state()) == expr_s(old(self).input(), old(self).state()),
            final(self).state().depth == old(self).state().depth,
        decreases 2 * old(self).input().fuel + 1, rem(old(self).input(), old(self).state()), 24int,
    {
        reveal(expr_s);
        reveal(bin_s);
        let ghost inp = self.input();
        let ghost s = self.state();
        if self.depth >= 256 {
            let mut m: Vec<char> = Vec::new();
            push_str(&mut m, "Expression nesting too deep (>256)");
            self.error_here(m);
            proof {
                assert(self.state() =~= PState {
                    depth: s.depth,
                    ..crate::parser::with_err(
                        PState { depth: s.depth + 1, ..s },
                        "Expression nesting too deep (>256)"@ + crate::parser::at_here(inp, PState { depth: s.depth + 1, ..s }),
                    )
                });
            }
            return Expr::IntLit(0);
        }
        self.depth = self.depth + 1;
        proof {
            assert(self.state() =~= PState { depth: s.depth + 1, ..s });
        }
        let e = self.parse_bin(0);
        self.depth = self.depth - 1;
        e
    }

    /// Reads the operands joined by operators of level `lvl` (see `bin_s`).
    pub(crate) fn parse_bin(&mut self, lvl: usize) -> (r: Expr)
        requires
            old(self).wf(),
            lvl <= 4,
        ensures
            final(self).wf(),
            final(self).input() == old(self).input(),
            (r@, final(self).state()) == bin_s(old(self).input(), old(self).state(), lvl as nat),
            final(self).state().depth == old(self).state().depth,
        decreases 2 * old(self).input().fuel + 1, rem(old(self).input(), old(self).state()), lvl_rank(lvl as nat),
    {
        reveal(bin_s);
        reveal(unary_s);
        reveal(bin_loop_s);
        let p0 = self.pos;
        let l = if lvl >= 4 {
            self.parse_unary()
        } else {
            self.parse_bin(lvl + 1)
        };
        if p0 <= self.pos && self.pos <= self.tokens.len() {
            self.parse_bin_loop(lvl, l)
        } else {
            l
        }
    }

    /// Reads the rest of a chain of level `lvl` after its first operand
    /// `left` (see `bin_loop_s`).
    pub(crate) fn parse_bin_loop(&mut self, lvl: usize, left: Expr) -> (r: Expr)
        requires
            old(self).wf(),
            lvl <= 4,
        ensures
            final(self).wf(),
            final(self).input() == old(self).input(),
            (r@, final(self).state()) == bin_loop_s(old(self).input(), old(self).state(), lvl as nat, left@),
            final(self).state().depth == old(self).state().depth,
        decreases 2 * old(self).input().fuel + 1, rem(old(self).input(), old(self).state()), lvl_rank(lvl as nat) - 1,
    {
        reveal(bin_loop_s);
        reveal(unary_s);
        reveal(bin_s);
        let ghost inp = self.input();
        let ghost s = self.state();
        let ghost l0 = left@;
        let mut e = left;
        let mut done = false;
        while !done
            invariant
                self.wf(),
                self.input() == inp,
                inp == old(self).input(),
                s == old(self).state(),
                lvl <= 4,
                self.state().depth == s.depth,
                !done ==> s.pos <= self.state().pos <= inp.toks.len(),
                (if done {
                    (e@, self.state())
                } else {
                    bin_loop_s(inp, self.state(), lvl as nat, e@)
                }) == bin_loop_s(inp, s, lvl as nat, l0),
            decreases (if done { 0int } else { 1int }), rem(inp, self.state()),
        {
            reveal(bin_loop_s);
            reveal(unary_s);
            reveal(bin_s);
            match self.bin_op_here(lvl) {
                None => {
                    done = true;
                },
                Some(op) => {
                    let q0 = self.pos;
                    self.advance();
                    if !(q0 < self.pos && self.pos <= self.tokens.len()) {
                        done = true;
                    } else {
                        let r = if lvl >= 4 {
                            self.parse_unary()
                        } else {
                            self.parse_bin(lvl + 1)
                        };
                        e = Expr::BinOp { left: Box::new(e), op, right: Box::new(r) };
                        if !(q0 < self.pos && self.pos <= self.tokens.len()) {
                            done = true;
                        }
                    }
                },
            }
        }
        reveal(bin_loop_s);
        e
    }

    /// Reads a unary expression (see `unary_s`).
    #[verifier::spinoff_prover]
    pub(crate) fn parse_unary(&mut self) -> (r: Expr)
        requires
            old(self).wf(),
        ensures
            final(self).wf(),
            final(self).input() == old(self).input(),
            (r@, final(self).state()) == unary_s(old(self).input(), old(self).state()),
            final(self).state().depth == old(self).state().depth,
        decreases 2 * old(self).input().fuel + 1, rem(old(self).input(), old(self).state()), 12int,
    {
        reveal(unary_s);
        let op = match self.current() {
            Token::Minus => Some(UnaryOpKind::Neg),
            Token::Not => Some(UnaryOpKind::Not),
            _ => None,
        };
        match op {
            Some(op) => {
                let p0 = self.pos;
                self.advance();
                if !(p0 < self.pos && self.pos <= self.tokens.len()) {
                    Expr::IntLit(0)
                } else {
                    let e = self.parse_unary();
                    Expr::UnaryOp { op, expr: Box::new(e) }
                }
            },
            None => self.parse_primary(),
        }
    }

    /// Reads a primary expression and what follows it (see `primary_s`).
    #[verifier::spinoff_prover]
    pub fn parse_primary(&mut self) -> (r: Expr)
        requires
            old(self).wf(),
        ensures
            final(self).wf(),
            final(self).input() == old(self).input(),
            (r@, final(self).state()) == primary_s(old(self).input(), old(self).state()),
            final(self).state().depth == old(self).state().depth,
        decreases 2 * old(self).input().fuel + 1, rem(old(self).input(), old(self).state()), 10int,
    {
        reveal(primary_s);
        let p0 = self.pos;
        let e = self.parse_atom();
        if p0 <= self.pos && self.pos <= self.tokens.len() {
            self.parse_postfix(e)
        } else {
            e
        }
    }

    /// Reads a literal, a name, a call, a struct literal, an array, a
    /// parenthesised expression, a closure or an f-string (see `atom_s`).
    #[verifier::spinoff_prover]
    pub(crate) fn parse_atom(&mut self) -> (r: Expr)
        requires
            old(self).wf(),
        ensures
            final(self).wf(),
            final(self).input() == old(self).input(),
            (r@, final(self).state()) == atom_s(old(self).input(), old(self).state()),
            final(self).state().depth == old(self).state().depth,
        decreases 2 * old(self).input().fuel + 1, rem(old(self).input(), old(self).state()), 9int,
    {
        reveal(atom_s);
        let ghost inp = self.input();
        let ghost s = self.state();
        let p0 = self.pos;
        let t = self.current().clone();
        match t {
            Token::IntLit(n) => {
                self.advance();
                Expr::IntLit(n)
            },
            Token::FloatLit(f) => {
                self.advance();
                Expr::FloatLit(f)
            },
            Token::StringLit(x) => {
                self.advance();
                Expr::StringLit(x)
            },
            Token::True => {
                self.advance();
                Expr::Bool(true)
            },
            Token::False => {
                self.advance();
                Expr::Bool(false)
            },
            Token::Ident(x) => self.parse_name_atom(x),
            Token::LBracket => self.parse_array_atom(),
            Token::LParen => self.parse_paren_atom(),
            Token::Pipe => self.parse_closure(),
            Token::FStringLit(raw) => self.parse_fstring_atom(raw),
            _ => {
                let mut m: Vec<char> = Vec::new();
                push_str(&mut m, "Unexpected token in expression: ");
                push_str(&mut m, crate::parser::token_debug(&t).as_str());
                self.error_here(m);
                self.advance();
                Expr::IntLit(0)
            },
        }
    }

    /// Reads a name, a call or a struct literal (the `Ident` arm of `atom_s`).
    #[verifier::spinoff_prover]
    pub(crate) fn parse_name_atom(&mut self, x: String) -> (r: Expr)
        requires
            old(self).wf(),
            cur(old(self).input(), old(self).state()) == crate::ast::TokenV::Ident(x@),
        ensures
            final(self).wf(),
            final(self).input() == old(self).input(),
            (r@, final(self).state()) == atom_s(old(self).input(), old(self).state()),
            final(self).state().depth == old(self).state().depth,
        decreases 2 * old(self).input().fuel + 1, rem(old(self).input(), old(self).state()), 8int,
    {
        reveal(atom_s);
        let ghost inp = self.input();
        let ghost s = self.state();
        let p0 = self.pos;
        self.advance();
        if !self.no_struct_init && same_token(self.current(), &Token::LBrace) {
            self.advance();
            if !(p0 < self.pos && self.pos <= self.tokens.len()) {
                let none: Vec<(String, Expr)> = Vec::new();
                proof {
                    assert(fields_v(none) =~= Seq::empty());
                }
                Expr::StructInit { name: x, fields: none }
            } else {
                let fs = self.parse_sfields();
                self.expect(&Token::RBrace);
                Expr::StructInit { name: x, fields: fs }
            }
        } else if same_token(self.current(), &Token::LParen) {
            self.advance();
            if !(p0 < self.pos && self.pos <= self.tokens.len()) {
                let none: Vec<Expr> = Vec::new();
                proof {
                    assert(exprs_v(none) =~= Seq::empty());
                }
                Expr::Call { name: x, args: none }
            } else {
                let args = self.parse_args(&Token::RParen);
                self.expect(&Token::RParen);
                Expr::Call { name: x, args }
            }
        } else {
            Expr::Ident(x)
        }
    }

    /// Reads an array literal (the `LBracket` arm of `atom_s`).
    #[verifier::spinoff_prover]
    pub(crate) fn parse_array_atom(&mut self) -> (r: Expr)
        requires
            old(self).wf(),
            cur(old(self).input(), old(self).state()) == crate::ast::TokenV::LBracket,
        ensures
            final(self).wf(),
            final(self).input() == old(self).input(),
            (r@, final(self).state()) == atom_s(old(self).input(), old(self).state()),
            final(self).state().depth == old(self).state().depth,
        decreases 2 * old(self).input().fuel + 1, rem(old(self).input(), old(self).state()), 8int,
    {
        reveal(atom_s);
        let ghost inp = self.input();
        let ghost s = self.state();
        let p0 = self.pos;
        self.advance();
        if !(p0 < self.pos && self.pos <= self.tokens.len()) {
            let none: Vec<Expr> = Vec::new();
            proof {
                assert(exprs_v(none) =~= Seq::empty());
            }
            Expr::ArrayLit(none)
        } else {
            let es = self.parse_args(&Token::RBracket);
            self.expect(&Token::RBracket);
            Expr::ArrayLit(es)
        }
    }

    /// Reads an expression in parentheses (the `LParen` arm of `atom_s`).
    #[verifier::spinoff_prover]
    pub(crate) fn parse_paren_atom(&mut self) -> (r: Expr)
        requires
            old(self).wf(),
            cur(old(self).input(), old(self).state()) == crate::ast::TokenV::LParen,
        ensures
            final(self).wf(),
            final(self).input() == old(self).input(),
            (r@, final(self).state()) == atom_s(old(self).input(), old(self).state()),
            final(self).state().depth == old(self).state().depth,
        decreases 2 * old(self).input().fuel + 1, rem(old(self).input(), old(self).state()), 8int,
    {
        reveal(atom_s);
        let ghost inp = self.input();
        let ghost s = self.state();
        let p0 = self.pos;
        self.advance();
        if !(p0 < self.pos && self.pos <= self.tokens.len()) {
            Expr::IntLit(0)
        } else {
            let e = self.parse_expr();
            self.expect(&Token::RParen);
            e
        }
    }

    /// Reads an f-string (the `FStringLit` arm of `atom_s`).
    #[verifier::spinoff_prover]
    pub(crate) fn parse_fstring_atom(&mut self, raw: String) -> (r: Expr)
        requires
            old(self).wf(),
            cur(old(self).input(), old(self).state()) == crate::ast::TokenV::FStringLit(raw@),
        ensures
            final(self).wf(),
            final(self).input() == old(self).input(),
            (r@, final(self).state()) == atom_s(old(self).input(), old(self).state()),
            final(self).state().depth == old(self).state().depth,
        decreases 2 * old(self).input().fuel + 1, rem(old(self).input(), old(self).state()), 8int,
    {
        reveal(atom_s);
        let ghost inp = self.input();
        let ghost s = self.state();
        let p0 = self.pos;
        let line = self.current_line();
        self.advance();
        if self.fuel > 0 {
            let (parts, errs) = self.fstring_parts(&raw, line);
            let ghost s1 = self.state();
            let mut k: usize = 0;
            proof {
                assert(s1.errs + texts(errs@.subrange(0, 0)) =~= s1.errs);
                assert(self.state() =~= PState { errs: s1.errs + texts(errs@.subrange(0, 0)), ..s1 });
            }
            while k < errs.len()
                invariant
                    k <= errs@.len(),
                    self.wf(),
                    self.input() == inp,
                    self.state() == (PState { errs: s1.errs + texts(errs@.subrange(0, k as int)), ..s1 }),
                decreases errs@.len() - k,
            {
                let ghost before = self.errors@;
                self.errors.push(errs[k].clone());
                proof {
                    assert(texts(self.errors@) =~= texts(before).push(errs@[k as int]@));
                    assert(texts(errs@.subrange(0, k + 1)) =~= texts(errs@.subrange(0, k as int)).push(errs@[k as int]@));
                    assert(self.state() =~= PState { errs: s1.errs + texts(errs@.subrange(0, k + 1)), ..s1 });
                }
                k = k + 1;
            }
            proof {
                assert(errs@.subrange(0, errs@.len() as int) =~= errs@);
            }
            Expr::FStringLit(parts)
        } else {
            let none: Vec<FStringPart> = Vec::new();
            proof {
                assert(parts_v(none) =~= Seq::empty());
            }
            Expr::FStringLit(none)
        }
    }

    /// Reads a closure after its opening `|` (the `Pipe` arm of `atom_s`).
    #[verifier::spinoff_prover]
    pub(crate) fn parse_closure(&mut self) -> (r: Expr)
        requires
            old(self).wf(),
            cur(old(self).input(), old(self).state()) == crate::ast::TokenV::Pipe,
        ensures
            final(self).wf(),
            final(self).input() == old(self).input(),
            (r@, final(self).state()) == atom_s(old(self).input(), old(self).state()),
            final(self).state().depth == old(self).state().depth,
        decreases 2 * old(self).input().fuel + 1, rem(old(self).input(), old(self).state()), 8int,
    {
        reveal(atom_s);
        let p0 = self.pos;
        self.advance();
        if !(p0 < self.pos && self.pos <= self.tokens.len()) {
            let np: Vec<(String, Option<Ty>)> = Vec::new();
            let nb: Vec<(Stmt, Span)> = Vec::new();
            proof {
                assert(params_v(np) =~= Seq::empty());
                assert(stmts_v(nb) =~= Seq::empty());
            }
            return Expr::Closure { params: np, body: nb };
        }
        let ps = self.parse_cparams();
        self.expect(&Token::Pipe);
        if same_token(self.current(), &Token::LBrace) {
            self.advance();
            if !(p0 < self.pos && self.pos <= self.tokens.len()) {
                let nb: Vec<(Stmt, Span)> = Vec::new();
                proof {
                    assert(stmts_v(nb) =~= Seq::empty());
                }
                Expr::Closure { params: ps, body: nb }
            } else {
                let b = self.parse_body();
                self.expect(&Token::RBrace);
                Expr::Closure { params: ps, body: b }
            }
        } else if !(p0 < self.pos && self.pos <= self.tokens.len()) {
            let nb: Vec<(Stmt, Span)> = Vec::new();
            proof {
                assert(stmts_v(nb) =~= Seq::empty());
            }
            Expr::Closure { params: ps, body: nb }
        } else {
            let e = self.parse_expr();
            let span = self.current_span();
            let ghost ev = e@;
            let mut b: Vec<(Stmt, Span)> = Vec::new();
            b.push((Stmt::Return(Some(e)), span));
            proof {
                assert(span == span_at(self.input(), self.state()));
                assert(stmts_v(b) =~= seq![(StmtV::Return(Some(ev)), span)]);
            }
            Expr::Closure { params: ps, body: b }
        }
    }

    /// Reads the fields of a struct literal (see `sfields_s`).
    pub(crate) fn parse_sfields(&mut self) -> (r: Vec<(String, Expr)>)
        requires
            old(self).wf(),
        ensures
            final(self).wf(),
            final(self).input() == old(self).input(),
            (fields_v(r), final(self).state()) == sfields_s(old(self).input(), old(self).state(), Seq::empty()),
            final(self).state().depth == old(self).state().depth,
        decreases 2 * old(self).input().fuel + 1, rem(old(self).input(), old(self).state()), 25int,
    {
        reveal(sfields_s);
        reveal(expr_s);
        let ghost inp = self.input();
        let ghost s = self.state();
        let mut acc: Vec<(String, Expr)> = Vec::new();
        proof {
            assert(fields_v(acc) =~= Seq::empty());
        }
        let mut done = false;
        while !done && !same_token(self.current(), &Token::RBrace) && !same_token(self.current(), &Token::EOF)
            invariant
                self.wf(),
                self.input() == inp,
                inp == old(self).input(),
                s == old(self).state(),
                self.state().depth == s.depth,
                !done ==> s.pos <= self.state().pos <= inp.toks.len(),
                (if done {
                    (fields_v(acc), self.state())
                } else {
                    sfields_s(inp, self.state(), fields_v(acc))
                }) == sfields_s(inp, s, Seq::empty()),
            decreases (if done { 0int } else { 1int }), rem(inp, self.state()),
        {
            reveal(sfields_s);
            reveal(expr_s);
            let q0 = self.pos;
            let name = self.eat_ident();
            self.expect(&Token::Colon);
            if !(q0 <= self.pos && self.pos <= self.tokens.len()) {
                done = true;
            } else {
                let v = self.parse_expr();
                if same_token(self.current(), &Token::Comma) {
                    self.advance();
                }
                let ghost fa = fields_v(acc);
                let ghost item = (name@, v@);
                acc.push((name, v));
                proof {
                    assert(fields_v(acc) =~= fa.push(item));
                }
                if !(q0 < self.pos && self.pos <= self.tokens.len()) {
                    done = true;
                }
            }
        }
        reveal(sfields_s);
        acc
    }

    /// Reads expressions separated by commas up to `close` (see `args_s`).
    pub(crate) fn parse_args(&mut self, close: &Token) -> (r: Vec<Expr>)
        requires
            old(self).wf(),
        ensures
            final(self).wf(),
            final(self).input() == old(self).input(),
            (exprs_v(r), final(self).state()) == args_s(old(self).input(), old(self).state(), close@, Seq::empty()),
            final(self).state().depth == old(self).state().depth,
        decreases 2 * old(self).input().fuel + 1, rem(old(self).input(), old(self).state()), 25int,
    {
        reveal(args_s);
        reveal(expr_s);
        let ghost inp = self.input();
        let ghost s = self.state();
        let mut acc: Vec<Expr> = Vec::new();
        proof {
            assert(exprs_v(acc) =~= Seq::empty());
        }
        let mut done = false;
        while !done && !same_token(self.current(), close) && !same_token(self.current(), &Token::EOF)
            invariant
                self.wf(),
                self.input() == inp,
                inp == old(self).input(),
                s == old(self).state(),
                self.state().depth == s.depth,
                !done ==> s.pos <= self.state().pos <= inp.toks.len(),
                (if done {
                    (exprs_v(acc), self.state())
                } else {
                    args_s(inp, self.state(), close@, exprs_v(acc))
                }) == args_s(inp, s, close@, Seq::empty()),
            decreases (if done { 0int } else { 1int }), rem(inp, self.state()),
        {
            reveal(args_s);
            reveal(expr_s);
            let q0 = self.pos;
            let e = self.parse_expr();
            if same_token(self.current(), &Token::Comma) {
                self.advance();
            }
            let ghost ea = exprs_v(acc);
            let ghost item = e@;
            acc.push(e);
            proof {
                assert(exprs_v(acc) =~= ea.push(item));
            }
            if !(q0 < self.pos && self.pos <= self.tokens.len()) {
                done = true;
            }
        }
        reveal(args_s);
        acc
    }

    /// Reads the parameters of a closure up to `|` (see `cparams_s`).
    pub(crate) fn parse_cparams(&mut self) -> (r: Vec<(String, Option<Ty>)>)
        requires
            old(self).wf(),
        ensures
            final(self).wf(),
            final(self).input() == old(self).input(),
            (params_v(r), final(self).state()) == cparams_s(old(self).input(), old(self).state(), Seq::empty()),
            final(self).state().depth == old(self).state().depth,
    {
        reveal(cparams_s);
        let ghost inp = self.input();
        let ghost s = self.state();
        let mut acc: Vec<(String, Option<Ty>)> = Vec::new();
        proof {
            assert(params_v(acc) =~= Seq::empty());
        }
        let mut done = false;
        while !done && !same_token(self.current(), &Token::Pipe) && !same_token(self.current(), &Token::EOF)
            invariant
                self.wf(),
                self.input() == inp,
                inp == old(self).input(),
                s == old(self).state(),
                self.state().depth == s.depth,
                (if done {
                    (params_v(acc), self.state())
                } else {
                    cparams_s(inp, self.state(), params_v(acc))
                }) == cparams_s(inp, s, Seq::empty()),
            decreases (if done { 0int } else { 1int }), rem(inp, self.state()),
        {
            reveal(cparams_s);
            let q0 = self.pos;
            let n = self.eat_ident();
            let t = if same_token(self.current(), &Token::Colon) {
                self.advance();
                Some(self.parse_ty())
            } else {
                None
            };
            if same_token(self.current(), &Token::Comma) {
                self.advance();
            }
            let ghost pa = params_v(acc);
            acc.push((n, t));
            proof {
                assert(params_v(acc) =~= pa.push((n@, crate::ast::opt_ty_v(t))));
            }
            if !(q0 < self.pos && self.pos <= self.tokens.len()) {
                done = true;
            }
        }
        reveal(cparams_s);
        acc
    }

    /// Reads what follows the primary expression `base` (see `postfix_s`).
    #[verifier::spinoff_prover]
    #[verifier::rlimit(40)]
    pub fn parse_postfix(&mut self, base: Expr) -> (r: Expr)
        requires
            old(self).wf(),
        ensures
            final(self).wf(),
            final(self).input() == old(self).input(),
            (r@, final(self).state()) == postfix_s(old(self).input(), old(self).state(), base@),
            final(self).state().depth == old(self).state().depth,
        decreases 2 * old(self).input().fuel + 1, rem(old(self).input(), old(self).state()), 8int,
    {
        reveal(postfix_s);
        reveal(expr_s);
        reveal(args_s);
        let ghost inp = self.input();
        let ghost s = self.state();
        let ghost b0 = base@;
        let mut e = base;
        let mut done = false;
        while !done
            invariant
                self.wf(),
                self.input() == inp,
                inp == old(self).input(),
                s == old(self).state(),
                self.state().depth == s.depth,
                !done ==> s.pos <= self.state().pos <= inp.toks.len(),
                (if done {
                    (e@, self.state())
                } else {
                    postfix_s(inp, self.state(), e@)
                }) == postfix_s(inp, s, b0),
            decreases (if done { 0int } else { 1int }), rem(inp, self.state()),
        {
            reveal(postfix_s);
            reveal(expr_s);
            reveal(args_s);
            let q0 = self.pos;
            let kind: u8 = match self.current() {
                Token::LBracket => 1,
                Token::As => 2,
                Token::Dot => 3,
                _ => 0,
            };
            if kind == 0 {
                done = true;
            } else {
                self.advance();
                if !(q0 < self.pos && self.pos <= self.tokens.len()) {
                    done = true;
                } else if kind == 1 {
                    let i = self.parse_expr();
                    self.expect(&Token::RBracket);
                    e = Expr::Index { array: Box::new(e), index: Box::new(i) };
                    if !(q0 < self.pos && self.pos <= self.tokens.len()) {
                        done = true;
                    }
                } else if kind == 2 {
                    let ty = self.parse_ty();
                    e = Expr::Cast { expr: Box::new(e), ty };
                    if !(q0 < self.pos && self.pos <= self.tokens.len()) {
                        done = true;
                    }
                } else {
                    let member = self.eat_ident();
                    let enum_name: Option<String> = match &e {
                        Expr::Ident(b) => if contains_name(&self.enum_names, b) {
                            Some(b.clone())
                        } else {
                            None
                        },
                        _ => None,
                    };
                    match enum_name {
                        Some(en) => {
                            let value = if same_token(self.current(), &Token::LParen) {
                                self.advance();
                                let v = self.parse_expr();
                                self.expect(&Token::RParen);
                                Some(Box::new(v))
                            } else {
                                None
                            };
                            e = Expr::EnumVariant { enum_name: en, variant: member, value };
                        },
                        None => {
                            if same_token(self.current(), &Token::LParen) {
                                self.advance();
                                let args = self.parse_args(&Token::RParen);
                                self.expect(&Token::RParen);
                                e = Expr::MethodCall { base: Box::new(e), method: member, args };
                            } else {
                                e = Expr::FieldAccess { base: Box::new(e), field: member };
                            }
                        },
                    }
                    if !(q0 < self.pos && self.pos <= self.tokens.len()) {
                        done = true;
                    }
                }
            }
        }
        reveal(postfix_s);
        e
    }

    /// The parts of the f-string `raw` on line `line`, each expression read
    /// by a parser of its own, and those parsers' messages (see `fscan_s`).
    fn fstring_parts(&self, raw: &String, line: usize) -> (r: (Vec<FStringPart>, Vec<String>))
        requires
            self.wf(),
            self.input().fuel > 0,
        ensures
            (parts_v(r.0), texts(r.1@)) == fscan_s(
                raw@,
                0,
                Seq::empty(),
                Seq::empty(),
                Seq::empty(),
                line as nat,
                (self.input().fuel - 1) as nat,
            ),
        decreases 2 * self.input().fuel, 0int, 0int,
    {
        let ghost fuel = (self.input().fuel - 1) as nat;
        reveal(fscan_s);
        let chars = crate::text::chars_of(raw.as_str());
        let mut lit: Vec<char> = Vec::new();
        let mut parts: Vec<FStringPart> = Vec::new();
        let mut errs: Vec<String> = Vec::new();
        proof {
            assert(parts_v(parts) =~= Seq::empty());
            assert(texts(errs@) =~= Seq::empty());
        }
        let mut i: usize = 0;
        while i < chars.len()
            invariant
                i <= chars@.len(),
                chars@ == raw@,
                fuel == self.input().fuel - 1,
                self.wf(),
                fscan_s(raw@, i as int, lit@, parts_v(parts), texts(errs@), line as nat, fuel) == fscan_s(
                    raw@,
                    0,
                    Seq::empty(),
                    Seq::empty(),
                    Seq::empty(),
                    line as nat,
                    fuel,
                ),
            decreases chars@.len() - i,
        {
            reveal(fscan_s);
            reveal(expr_s);
            let c = chars[i];
            if c == '{' && i + 1 < chars.len() && chars[i + 1] == '{' {
                lit.push('{');
                i = i + 2;
            } else if c == '{' {
                if lit.len() > 0 {
                    let ghost pv = parts_v(parts);
                    let ghost lv = lit@;
                    parts.push(FStringPart::Literal(string_of(lit.as_slice())));
                    proof {
                        assert(parts_v(parts) =~= pv.push(FStringPartV::Literal(lv)));
                    }
                    lit = Vec::new();
                }
                let (src, j) = brace_text(&chars, i + 1);
                let src_s = string_of(src.as_slice());
                proof {
                    crate::parser::grammar::lemma_brace_body_len(raw@, i as int + 1, 1, Seq::empty());
                }
                let mut lx = Lexer::new(src_s.as_str());
                let toks = lx.tokenize();
                let mut sub = Parser::new(toks);
                sub.fuel = self.fuel - 1;
                proof {
                    let li = lex(src@, 0).0;
                    assert(sub.input().toks =~= sub_input(src@, fuel).toks);
                    assert(sub.input().lines =~= sub_input(src@, fuel).lines);
                    assert(sub.input().cols =~= sub_input(src@, fuel).cols);
                    assert(sub.input() == sub_input(src@, fuel));
                    assert(sub.state() == fresh());
                }
                let e = sub.parse_expr();
                let ghost ev = e@;
                let ghost ev0 = texts(errs@);
                let mut k: usize = 0;
                while k < sub.errors.len()
                    invariant
                        k <= sub.errors@.len(),
                        texts(errs@) == ev0 + texts(sub.errors@).subrange(0, k as int).map_values(
                            |m: Seq<char>| "f-string expr error at line "@ + dec(line as nat) + ": "@ + m,
                        ),
                    decreases sub.errors@.len() - k,
                {
                    let mut m: Vec<char> = Vec::new();
                    push_str(&mut m, "f-string expr error at line ");
                    push_decimal(&mut m, line as u128);
                    push_str(&mut m, ": ");
                    crate::text::push_all(&mut m, crate::text::chars_of(sub.errors[k].as_str()).as_slice());
                    let ghost before = texts(errs@);
                    errs.push(string_of(m.as_slice()));
                    proof {
                        assert(texts(errs@) =~= before.push(m@));
                        assert(texts(sub.errors@).subrange(0, k + 1) =~= texts(sub.errors@).subrange(0, k as int).push(sub.errors@[k as int]@));
                        assert(texts(errs@) =~= ev0 + texts(sub.errors@).subrange(0, k + 1).map_values(
                            |m: Seq<char>| "f-string expr error at line "@ + dec(line as nat) + ": "@ + m,
                        ));
                    }
                    k = k + 1;
                }
                proof {
                    assert(texts(sub.errors@).subrange(0, sub.errors@.len() as int) =~= sub.state().errs);
                }
                let ghost pv = parts_v(parts);
                parts.push(FStringPart::Expr(e));
                proof {
                    assert(parts_v(parts) =~= pv.push(FStringPartV::Expr(ev)));
                    assert(lit@ =~= Seq::<char>::empty());
                }
                if i < j && j <= chars.len() {
                    i = j;
                } else {
                    return (parts, errs);
                }
            } else if c == '}' && i + 1 < chars.len() && chars[i + 1] == '}' {
                lit.push('}');
                i = i + 2;
            } else {
                lit.push(c);
                i = i + 1;
            }
        }
        reveal(fscan_s);
        if lit.len() > 0 {
            let ghost pv = parts_v(parts);
            let ghost lv = lit@;
            parts.push(FStringPart::Literal(string_of(lit.as_slice())));
            proof {
                assert(parts_v(parts) =~= pv.push(FStringPartV::Literal(lv)));
            }
        }
        (parts, errs)
    }
}

} // verus!
