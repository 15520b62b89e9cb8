//! Types in the source: base types, names, arrays `T[]` and function types
//! `function(T, ...) -> R`.
use crate::ast::{Token, TokenV, Ty, TyV};
use crate::parser::{adv, at_here, cur, expect_s, same_token, token_debug, token_text, with_err, PInput, PState, Parser};
use crate::text::push_str;
use vstd::prelude::*;

verus! {

/// The base type a token names, if it names one.
pub open spec fn base_ty(t: TokenV) -> Option<TyV> {
    match t {
        TokenV::Int => Some(TyV::Int),
        TokenV::Float => Some(TyV::Float),
        TokenV::String => Some(TyV::String),
        TokenV::Bool => Some(TyV::Bool),
        TokenV::TyI8 => Some(TyV::I8),
        TokenV::TyI16 => Some(TyV::I16),
        TokenV::TyI32 => Some(TyV::I32),
        TokenV::TyI64 => Some(TyV::I64),
        TokenV::TyU8 => Some(TyV::U8),
        TokenV::TyU16 => Some(TyV::U16),
        TokenV::TyU32 => Some(TyV::U32),
        TokenV::TyU64 => Some(TyV::U64),
        _ => None,
    }
}

/// The type a name stands for: a type parameter of the function being read,
/// else a known enum, else a struct.
pub open spec fn named_ty(s: PState, n: Seq<char>) -> TyV {
    if s.tparams.contains(n) {
        TyV::TypeParam(n)
    } else if s.enums.contains(n) {
        TyV::Enum(n)
    } else {
        TyV::Struct(n)
    }
}

/// Reading a type. Where a type is missing there is a message, and `int`
/// stands for it.
pub open spec fn ty_s(inp: PInput, s: PState) -> (TyV, PState)
    decreases inp.toks.len() - s.pos, 1int,
{
    if cur(inp, s) == TokenV::Function {
        fn_ty_s(inp, s)
    } else {
        base_ty_s(inp, s)
    }
}

/// Reading a type that is not a function type: a base type or a name,
/// maybe followed by `[]`.
pub open spec fn base_ty_s(inp: PInput, s: PState) -> (TyV, PState) {
    let (b, s1) = match cur(inp, s) {
        TokenV::Ident(n) => (named_ty(s, n), adv(inp, s)),
        t => match base_ty(t) {
            Some(b) => (b, adv(inp, s)),
            None => (TyV::Int, with_err(s, "Expected a type but found "@ + token_text(t) + at_here(inp, s))),
        },
    };
    if cur(inp, s1) == TokenV::LBracket {
        (TyV::Array(Box::new(b)), expect_s(inp, adv(inp, s1), TokenV::RBracket))
    } else {
        (b, s1)
    }
}

/// Reading a function type `function(T, ...) -> R` (the return type is
/// optional). Reading stops where the tokens give out without progress.
pub open spec fn fn_ty_s(inp: PInput, s: PState) -> (TyV, PState)
    decreases inp.toks.len() - s.pos, 0int,
{
    let s1 = adv(inp, s);
    if !(s.pos < s1.pos <= inp.toks.len()) {
        (TyV::Fn(Seq::empty(), None), s1)
    } else {
        let s2 = expect_s(inp, s1, TokenV::LParen);
        let (ps, s3) = ty_list_s(inp, s2, Seq::empty());
        let s4 = expect_s(inp, s3, TokenV::RParen);
        if cur(inp, s4) == TokenV::Arrow {
            let s5 = adv(inp, s4);
            if s.pos < s5.pos <= inp.toks.len() {
                let (r, s6) = ty_s(inp, s5);
                (TyV::Fn(ps, Some(Box::new(r))), s6)
            } else {
                (TyV::Fn(ps, None), s5)
            }
        } else {
            (TyV::Fn(ps, None), s4)
        }
    }
}

/// Reading the parameter types of a function type, each maybe followed by a
/// comma, up to `)`.
pub open spec fn ty_list_s(inp: PInput, s: PState, acc: Seq<TyV>) -> (Seq<TyV>, PState)
    decreases inp.toks.len() - s.pos, 2int,
{
    if cur(inp, s) == TokenV::RParen || cur(inp, s) == TokenV::EOF {
        (acc, s)
    } else {
        let (t, s1) = ty_s(inp, s);
        let s2 = if cur(inp, s1) == TokenV::Comma {
            adv(inp, s1)
        } else {
            s1
        };
        if s.pos < s2.pos <= inp.toks.len() {
            ty_list_s(inp, s2, acc.push(t))
        } else {
            (acc.push(t), s2)
        }
    }
}

impl Parser {
    /// Reads a type (see `ty_s`).
    pub fn parse_ty(&mut self) -> (r: Ty)
        requires
            old(self).wf(),
        ensures
            final(self).wf(),
            final(self).input() == old(self).input(),
            (r@, final(self).state()) == ty_s(old(self).input(), old(self).state()),
            old(self).state().pos <= final(self).state().pos,
            final(self).state().depth == old(self).state().depth,
        decreases old(self).input().toks.len() - old(self).state().pos, 1int,
    {
        if same_token(self.current(), &Token::Function) {
            self.parse_fn_ty()
        } else {
            self.parse_base_ty()
        }
    }

    /// Reads a base type or a name, maybe followed by `[]`.
    fn parse_base_ty(&mut self) -> (r: Ty)
        requires
            old(self).wf(),
        ensures
            final(self).wf(),
            final(self).input() == old(self).input(),
            (r@, final(self).state()) == base_ty_s(old(self).input(), old(self).state()),
            old(self).state().pos <= final(self).state().pos,
            final(self).state().depth == old(self).state().depth,
    {
        let ghost inp = self.input();
        let ghost s = self.state();
        let mut base = Ty::Int;
        match self.current() {
            Token::Ident(n) => {
                base = self.named(n);
                self.advance();
            },
            Token::Int => { base = Ty::Int; self.advance(); },
            Token::Float => { base = Ty::Float; self.advance(); },
            Token::String => { base = Ty::String; self.advance(); },
            Token::Bool => { base = Ty::Bool; self.advance(); },
            Token::TyI8 => { base = Ty::I8; self.advance(); },
            Token::TyI16 => { base = Ty::I16; self.advance(); },
            Token::TyI32 => { base = Ty::I32; self.advance(); },
            Token::TyI64 => { base = Ty::I64; self.advance(); },
            Token::TyU8 => { base = Ty::U8; self.advance(); },
            Token::TyU16 => { base = Ty::U16; self.advance(); },
            Token::TyU32 => { base = Ty::U32; self.advance(); },
            Token::TyU64 => { base = Ty::U64; self.advance(); },
            t => {
                let mut m: Vec<char> = Vec::new();
                push_str(&mut m, "Expected a type but found ");
                push_str(&mut m, token_debug(t).as_str());
                self.error_here(m);
            },
        }
        proof {
            let (b, s1) = match cur(inp, s) {
                TokenV::Ident(n) => (named_ty(s, n), adv(inp, s)),
                t => match base_ty(t) {
                    Some(b) => (b, adv(inp, s)),
                    None => (TyV::Int, with_err(s, "Expected a type but found "@ + token_text(t) + at_here(inp, s))),
                },
            };
            assert(base@ == b);
            assert(self.state() == s1);
        }
        if same_token(self.current(), &Token::LBracket) {
            self.advance();
            self.expect(&Token::RBracket);
            Ty::Array(Box::new(base))
        } else {
            base
        }
    }

    /// Reads a function type (see `fn_ty_s`).
    fn parse_fn_ty(&mut self) -> (r: Ty)
        requires
            old(self).wf(),
        ensures
            final(self).wf(),
            final(self).input() == old(self).input(),
            (r@, final(self).state()) == fn_ty_s(old(self).input(), old(self).state()),
            old(self).state().pos <= final(self).state().pos,
            final(self).state().depth == old(self).state().depth,
        decreases old(self).input().toks.len() - old(self).state().pos, 0int,
    {
        let ghost inp = self.input();
        let ghost s = self.state();
        let p0 = self.pos;
        self.advance();
        if !(p0 < self.pos && self.pos <= self.tokens.len()) {
            let none: Vec<Ty> = Vec::new();
            proof {
                assert(none@.map_values(|x: Ty| x@) =~= Seq::<TyV>::empty());
            }
            let out = Ty::Fn(none, None);
            proof {
                lemma_fn_view(out);
            }
            return out;
        }
        self.expect(&Token::LParen);
        let ghost s2 = self.state();
        let mut params: Vec<Ty> = Vec::new();
        proof {
            assert(params@.map_values(|t: Ty| t@) =~= Seq::<TyV>::empty());
        }
        let mut done = false;
        while !done && !same_token(self.current(), &Token::RParen) && !same_token(self.current(), &Token::EOF)
            invariant
                self.wf(),
                self.input() == inp,
                inp == old(self).input(),
                s == old(self).state(),
                s.pos < self.state().pos <= inp.toks.len(),
                p0 == s.pos,
                self.state().depth == s.depth,
                (if done {
                    (params@.map_values(|t: Ty| t@), self.state())
                } else {
                    ty_list_s(inp, self.state(), params@.map_values(|t: Ty| t@))
                }) == ty_list_s(inp, s2, Seq::empty()),
            decreases inp.toks.len() - self.state().pos, if done { 0int } else { 1int },
        {
            let q0 = self.pos;
            let ghost pv = params@.map_values(|t: Ty| t@);
            let t = self.parse_ty();
            if same_token(self.current(), &Token::Comma) {
                self.advance();
            }
            let ghost tv = t@;
            params.push(t);
            proof {
                assert(params@.map_values(|x: Ty| x@) =~= pv.push(tv));
            }
            if !(q0 < self.pos && self.pos <= self.tokens.len()) {
                done = true;
            }
        }
        self.expect(&Token::RParen);
        if same_token(self.current(), &Token::Arrow) {
            self.advance();
            if p0 < self.pos && self.pos <= self.tokens.len() {
                let r = self.parse_ty();
                let out = Ty::Fn(params, Some(Box::new(r)));
                proof {
                    lemma_fn_view(out);
                }
                out
            } else {
                let out = Ty::Fn(params, None);
                proof {
                    lemma_fn_view(out);
                }
                out
            }
        } else {
            let out = Ty::Fn(params, None);
            proof {
                lemma_fn_view(out);
            }
            out
        }
    }

    /// The type a name stands for (see `named_ty`).
    fn named(&self, n: &String) -> (r: Ty)
        ensures
            r@ == named_ty(self.state(), n@),
    {
        if contains_name(&self.fn_type_params, n) {
            Ty::TypeParam(n.clone())
        } else if contains_name(&self.enum_names, n) {
            Ty::Enum(n.clone())
        } else {
            Ty::Struct(n.clone())
        }
    }
}

/// The view of a function type: its parameters' views, in order.
proof fn lemma_fn_view(t: Ty)
    requires
        t is Fn,
    ensures
        t@ == TyV::Fn(
            t->Fn_0@.map_values(|x: Ty| x@),
            match t->Fn_1 {
                Some(b) => Some(Box::new((*b)@)),
                None => None,
            },
        ),
{
    match t {
        Ty::Fn(ps, ret) => {
            assert(crate::ast::ty_view(t) matches TyV::Fn(x, _) && x =~= ps@.map_values(|y: Ty| y@));
        },
        _ => {},
    }
}

/// Whether `n` is among `names`.
pub fn contains_name(names: &Vec<String>, n: &String) -> (r: bool)
    ensures
        r == crate::parser::texts(names@).contains(n@),
{
    let mut i: usize = 0;
    while i < names.len()
        invariant
            i <= names@.len(),
            forall|j: int| 0 <= j < i ==> #[trigger] names@[j]@ != n@,
        decreases names@.len() - i,
    {
        if names[i] == *n {
            proof {
                assert(crate::parser::texts(names@)[i as int] == n@);
            }
            return true;
        }
        i = i + 1;
    }
    proof {
        if crate::parser::texts(names@).contains(n@) {
            let j = choose|j: int| 0 <= j < names@.len() && crate::parser::texts(names@)[j] == n@;
            assert(names@[j]@ == n@);
        }
    }
    false
}

} // verus!
