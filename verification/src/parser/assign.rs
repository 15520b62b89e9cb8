//! Reading statements that start with a name: declarations with a named
//! type, assignments and expression statements.
use crate::ast::{BinOpKind, Expr, Stmt, Token, Ty};
use crate::parser::grammar::{args_s, assign_tail_s, compound_op, expr_s, ident_stmt_s, postfix_s, rem};
use crate::ast::TokenV;
use crate::parser::{ahead, cur, same_token, PState, Parser};
use crate::text::push_str;
use vstd::prelude::*;

verus! {

/// The compound assignment operator of a token (see `compound_op`).
fn compound_op_of(t: &Token) -> (r: Option<BinOpKind>)
    ensures
        r == compound_op(t@),
{
    match t {
        Token::PlusEq => Some(BinOpKind::Add),
        Token::MinusEq => Some(BinOpKind::Sub),
        Token::StarEq => Some(BinOpKind::Mul),
        Token::SlashEq => Some(BinOpKind::Div),
        Token::PercentEq => Some(BinOpKind::Mod),
        _ => None,
    }
}

impl Parser {
    /// Reads a statement that starts with the name `name`, already read
    /// (see `ident_stmt_s`).
    #[verifier::spinoff_prover]
    #[verifier::rlimit(60)]
    pub(crate) fn parse_ident_stmt(&mut self, name: String) -> (r: Stmt)
        requires
            old(self).wf(),
        ensures
            final(self).wf(),
            final(self).input() == old(self).input(),
            (r@, final(self).state()) == ident_stmt_s(old(self).input(), old(self).state(), name@),
            final(self).state().depth == old(self).state().depth,
        decreases 2 * old(self).input().fuel + 1, rem(old(self).input(), old(self).state()), 27int,
    {
        reveal(ident_stmt_s);
        reveal(expr_s);
        reveal_with_fuel(crate::ast::ty_view, 2);
        let t = self.current().clone();
        if let Token::Ident(var) = t {
            let ty = if crate::parser::ty::contains_name(&self.enum_names, &name) {
                Ty::Enum(name)
            } else {
                Ty::Struct(name)
            };
            self.advance();
            self.expect(&Token::Eq);
            let v = self.parse_expr();
            self.expect(&Token::Semicolon);
            return Stmt::VarDecl { ty, name: var, value: v };
        }
        let array_decl = same_token(self.current(), &Token::LBracket) && same_token(self.peek(1), &Token::RBracket)
            && match self.peek(2) {
            Token::Ident(_) => true,
            _ => false,
        };
        if array_decl {
            self.expect(&Token::LBracket);
            self.expect(&Token::RBracket);
            let var = self.eat_ident();
            self.expect(&Token::Eq);
            let v = self.parse_expr();
            self.expect(&Token::Semicolon);
            return Stmt::VarDecl { ty: Ty::Array(Box::new(Ty::Struct(name))), name: var, value: v };
        }
        self.parse_name_expr_stmt(name)
    }

    /// Reads an assignment or an expression statement that starts with the
    /// name `name`, already read (the last case of `ident_stmt_s`).
    #[verifier::spinoff_prover]
    pub(crate) fn parse_name_expr_stmt(&mut self, name: String) -> (r: Stmt)
        requires
            old(self).wf(),
            !(cur(old(self).input(), old(self).state()) is Ident),
            !(cur(old(self).input(), old(self).state()) == TokenV::LBracket
                && ahead(old(self).input(), old(self).state(), 1) == TokenV::RBracket
                && ahead(old(self).input(), old(self).state(), 2) is Ident),
        ensures
            final(self).wf(),
            final(self).input() == old(self).input(),
            (r@, final(self).state()) == ident_stmt_s(old(self).input(), old(self).state(), name@),
            final(self).state().depth == old(self).state().depth,
        decreases 2 * old(self).input().fuel + 1, rem(old(self).input(), old(self).state()), 26int,
    {
        reveal(ident_stmt_s);
        reveal(args_s);
        reveal(postfix_s);
        reveal(assign_tail_s);
        let p0 = self.pos;
        let base = if same_token(self.current(), &Token::LParen) {
            self.advance();
            let args = self.parse_args(&Token::RParen);
            self.expect(&Token::RParen);
            Expr::Call { name, args }
        } else {
            Expr::Ident(name)
        };
        if !(p0 <= self.pos && self.pos <= self.tokens.len()) {
            return Stmt::ExprStmt(base);
        }
        let e = self.parse_postfix(base);
        if !(p0 <= self.pos && self.pos <= self.tokens.len()) {
            return Stmt::ExprStmt(e);
        }
        self.parse_assign_tail(e)
    }

    /// Reads what follows the expression `e` that starts a statement (see
    /// `assign_tail_s`).
    #[verifier::spinoff_prover]
    #[verifier::rlimit(60)]
    pub(crate) fn parse_assign_tail(&mut self, e: Expr) -> (r: Stmt)
        requires
            old(self).wf(),
        ensures
            final(self).wf(),
            final(self).input() == old(self).input(),
            (r@, final(self).state()) == assign_tail_s(old(self).input(), old(self).state(), e@),
            final(self).state().depth == old(self).state().depth,
        decreases 2 * old(self).input().fuel + 1, rem(old(self).input(), old(self).state()), 25int,
    {
        reveal(assign_tail_s);
        reveal(expr_s);
        reveal_with_fuel(crate::ast::expr_v, 2);
        match compound_op_of(self.current()) {
            Some(op) => {
                self.advance();
                let v = self.parse_expr();
                self.expect(&Token::Semicolon);
                match e {
                    Expr::Ident(var) => Stmt::CompoundAssign { name: var, op, value: v },
                    _ => {
                        let mut m: Vec<char> = Vec::new();
                        push_str(&mut m, "Invalid compound assignment target");
                        self.error_here(m);
                        Stmt::ExprStmt(Expr::IntLit(0))
                    },
                }
            },
            None => {
                if same_token(self.current(), &Token::Eq) {
                    self.advance();
                    let v = self.parse_expr();
                    self.expect(&Token::Semicolon);
                    let target: Result<Stmt, &str> = match e {
                        Expr::Ident(var) => Ok(Stmt::Assign { name: var, value: v }),
                        Expr::Index { array, index } => match *array {
                            Expr::Ident(var) => Ok(Stmt::IndexAssign { name: var, index: *index, value: v }),
                            _ => Err("Invalid index assignment target"),
                        },
                        Expr::FieldAccess { base, field } => match *base {
                            Expr::Ident(var) => Ok(Stmt::FieldAssign { name: var, field, value: v }),
                            _ => Err("Invalid field assignment target"),
                        },
                        _ => Err("Invalid assignment target"),
                    };
                    match target {
                        Ok(st) => st,
                        Err(msg) => {
                            let mut m: Vec<char> = Vec::new();
                            push_str(&mut m, msg);
                            self.error_here(m);
                            Stmt::ExprStmt(Expr::IntLit(0))
                        },
                    }
                } else {
                    if same_token(self.current(), &Token::Semicolon) {
                        self.advance();
                    }
                    Stmt::ExprStmt(e)
                }
            },
        }
    }
}

} // verus!
