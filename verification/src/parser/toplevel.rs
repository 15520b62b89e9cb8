//! Reading top-level items and whole programs (see the grammar of items).
use crate::ast::{
    methods_v, names_v, opt_ty_v, params_view, sfields_view, stmts_v, tops_v, variants_v, AnchorKind, EnumVariant,
    Param, Program, Stmt, Span, StructField, Token, TokenV, TopLevel, TopLevelV, TraitMethod, Ty, TyV,
};
use crate::parser::grammar::{body_s, expr_s, lemma_decorator_keeps, rem, span_at, stmt_s};
use crate::parser::items::{
    anchor_items_s, anchor_s, decorated, decorators_s, enum_s, fns_s, fparams_s, function_s, impl_s, item_s,
    items_s, mod_items_s, mod_s, ret_ty_s, sdecl_fields_s, struct_s, tmethods_s, top_const_s, tparams_s, trait_s,
    variants_s, with_enum,
};
use crate::parser::ty::contains_name;
use crate::parser::{cur, same_token, texts, token_debug, PState, Parser};
use crate::text::{chars_eq, chars_of, push_all, push_str, string_of};
use vstd::prelude::*;

verus! {

/// A copy of a list of names.
fn copy_names(v: &Vec<String>) -> (r: Vec<String>)
    ensures
        texts(r@) == texts(v@),
{
    let mut out: Vec<String> = Vec::new();
    let mut i: usize = 0;
    while i < v.len()
        invariant
            i <= v@.len(),
            texts(out@) == texts(v@.subrange(0, i as int)),
        decreases v@.len() - i,
    {
        let ghost before = out@;
        out.push(v[i].clone());
        proof {
            assert(texts(out@) =~= texts(before).push(v@[i as int]@));
            assert(texts(v@.subrange(0, i + 1)) =~= texts(v@.subrange(0, i as int)).push(v@[i as int]@));
        }
        i = i + 1;
    }
    proof {
        assert(v@.subrange(0, v@.len() as int) =~= v@);
    }
    out
}

impl Parser {
    /// Reads type parameters up to `>` (see `tparams_s`).
    #[verifier::spinoff_prover]
    #[verifier::rlimit(30)]
    fn parse_tparams(&mut self) -> (r: Vec<String>)
        requires
            old(self).wf(),
        ensures
            final(self).wf(),
            final(self).input() == old(self).input(),
            (names_v(r), final(self).state()) == tparams_s(old(self).input(), old(self).state(), Seq::empty()),
    {
        reveal(tparams_s);
        let ghost inp = self.input();
        let ghost s = self.state();
        let mut acc: Vec<String> = Vec::new();
        proof {
            assert(names_v(acc) =~= Seq::empty());
        }
        let mut done = false;
        while !done && !same_token(self.current(), &Token::Gt) && !same_token(self.current(), &Token::EOF)
            invariant
                self.wf(),
                self.input() == inp,
                (if done {
                    (names_v(acc), self.state())
                } else {
                    tparams_s(inp, self.state(), names_v(acc))
                }) == tparams_s(inp, s, Seq::empty()),
            decreases (if done { 0int } else { 1int }), rem(inp, self.state()),
        {
            reveal(tparams_s);
            let q0 = self.pos;
            let tp = self.eat_ident();
            if same_token(self.current(), &Token::Comma) {
                self.advance();
            }
            let ghost before = names_v(acc);
            let ghost item = tp@;
            acc.push(tp);
            proof {
                assert(names_v(acc) =~= before.push(item));
            }
            if !(q0 < self.pos && self.pos <= self.tokens.len()) {
                done = true;
            }
        }
        reveal(tparams_s);
        acc
    }

    /// Reads parameters `T name` after `first` (see `fparams_s`).
    #[verifier::spinoff_prover]
    #[verifier::rlimit(30)]
    fn parse_fparams(&mut self, first: Vec<Param>, stop_at_end: bool) -> (r: Vec<Param>)
        requires
            old(self).wf(),
        ensures
            final(self).wf(),
            final(self).input() == old(self).input(),
            (params_view(r), final(self).state()) == fparams_s(
                old(self).input(),
                old(self).state(),
                params_view(first),
                stop_at_end,
            ),
    {
        reveal(fparams_s);
        let ghost inp = self.input();
        let ghost s = self.state();
        let ghost f0 = params_view(first);
        let mut acc = first;
        let mut done = false;
        while !done && !same_token(self.current(), &Token::RParen) && !(stop_at_end && same_token(
            self.current(),
            &Token::EOF,
        ))
            invariant
                self.wf(),
                self.input() == inp,
                (if done {
                    (params_view(acc), self.state())
                } else {
                    fparams_s(inp, self.state(), params_view(acc), stop_at_end)
                }) == fparams_s(inp, s, f0, stop_at_end),
            decreases (if done { 0int } else { 1int }), rem(inp, self.state()),
        {
            reveal(fparams_s);
            let q0 = self.pos;
            let ty = self.parse_ty();
            let n = self.eat_var_ident();
            if same_token(self.current(), &Token::Comma) {
                self.advance();
            }
            let ghost before = params_view(acc);
            let ghost item = (ty@, n@);
            acc.push(Param { ty, name: n });
            proof {
                assert(params_view(acc) =~= before.push(item));
            }
            if !(q0 < self.pos && self.pos <= self.tokens.len()) {
                done = true;
            }
        }
        reveal(fparams_s);
        acc
    }

    /// Reads `-> T` if it is there (see `ret_ty_s`).
    fn parse_ret_ty(&mut self) -> (r: Option<Ty>)
        requires
            old(self).wf(),
        ensures
            final(self).wf(),
            final(self).input() == old(self).input(),
            (opt_ty_v(r), final(self).state()) == ret_ty_s(old(self).input(), old(self).state()),
    {
        reveal(ret_ty_s);
        if same_token(self.current(), &Token::Arrow) {
            self.advance();
            Some(self.parse_ty())
        } else {
            None
        }
    }

    /// Reads a function (see `function_s`).
    #[verifier::spinoff_prover]
    #[verifier::rlimit(50)]
    pub fn parse_function(&mut self) -> (r: (TopLevel, Span))
        requires
            old(self).wf(),
        ensures
            final(self).wf(),
            final(self).input() == old(self).input(),
            ((r.0@, r.1), final(self).state()) == function_s(old(self).input(), old(self).state()),
    {
        reveal(function_s);
        let ghost inp = self.input();
        let ghost s = self.state();
        let span = self.current_span();
        self.expect(&Token::Function);
        let first = self.eat_ident();
        let (name, owner) = if same_token(self.current(), &Token::Dot) {
            self.advance();
            let m = self.eat_ident();
            let mut full = chars_of(first.as_str());
            full.push('.');
            push_all(&mut full, chars_of(m.as_str()).as_slice());
            proof {
                assert(full@ =~= first@ + "."@ + m@) by {
                    reveal_strlit(".");
                }
            }
            (string_of(full.as_slice()), Some(first))
        } else {
            (first, None)
        };
        let tps = if same_token(self.current(), &Token::Lt) {
            self.advance();
            let t = self.parse_tparams();
            self.expect(&Token::Gt);
            t
        } else {
            let t: Vec<String> = Vec::new();
            proof {
                assert(names_v(t) =~= Seq::empty());
            }
            t
        };
        self.fn_type_params = copy_names(&tps);
        self.expect(&Token::LParen);
        let mut first_params: Vec<Param> = Vec::new();
        match owner {
            Some(o) => {
                first_params.push(Param { ty: Ty::Struct(o), name: "self".to_owned() });
            },
            None => {},
        }
        proof {
            assert(params_view(first_params) =~= (match owner {
                Some(o) => seq![(TyV::Struct(o@), "self"@)],
                None => Seq::empty(),
            }));
        }
        let ps = self.parse_fparams(first_params, false);
        self.expect(&Token::RParen);
        let ret = self.parse_ret_ty();
        self.expect(&Token::LBrace);
        let body = self.parse_body();
        self.expect(&Token::RBrace);
        self.fn_type_params = Vec::new();
        let none: Vec<String> = Vec::new();
        proof {
            assert(names_v(none) =~= Seq::empty());
            assert(texts(self.fn_type_params@) =~= Seq::empty());
        }
        (TopLevel::Function { name, type_params: tps, params: ps, return_ty: ret, body, decorators: none }, span)
    }

    /// Reads a struct (see `struct_s`).
    #[verifier::spinoff_prover]
    #[verifier::rlimit(60)]
    pub fn parse_struct(&mut self) -> (r: (TopLevel, Span))
        requires
            old(self).wf(),
        ensures
            final(self).wf(),
            final(self).input() == old(self).input(),
            ((r.0@, r.1), final(self).state()) == struct_s(old(self).input(), old(self).state()),
    {
        reveal(struct_s);
        reveal(sdecl_fields_s);
        let ghost inp = self.input();
        let span = self.current_span();
        self.expect(&Token::Struct);
        let name = self.eat_ident();
        self.expect(&Token::LBrace);
        let ghost s3 = self.state();
        let mut acc: Vec<StructField> = Vec::new();
        proof {
            assert(sfields_view(acc) =~= Seq::empty());
        }
        let mut done = false;
        while !done && !same_token(self.current(), &Token::RBrace)
            invariant
                self.wf(),
                self.input() == inp,
                (if done {
                    (sfields_view(acc), self.state())
                } else {
                    sdecl_fields_s(inp, self.state(), sfields_view(acc))
                }) == sdecl_fields_s(inp, s3, Seq::empty()),
            decreases (if done { 0int } else { 1int }), rem(inp, self.state()),
        {
            reveal(struct_s);
            reveal(sdecl_fields_s);
            let q0 = self.pos;
            let ty = self.parse_ty();
            let n = self.eat_ident();
            self.expect(&Token::Semicolon);
            let ghost before = sfields_view(acc);
            let ghost item = (ty@, n@);
            acc.push(StructField { ty, name: n });
            proof {
                assert(sfields_view(acc) =~= before.push(item));
            }
            if !(q0 < self.pos && self.pos <= self.tokens.len()) {
                done = true;
            }
        }
        reveal(struct_s);
        reveal(sdecl_fields_s);
        self.expect(&Token::RBrace);
        (TopLevel::Struct { name, fields: acc }, span)
    }

    /// Reads an enum and learns its name (see `enum_s`).
    #[verifier::spinoff_prover]
    #[verifier::rlimit(50)]
    pub fn parse_enum(&mut self) -> (r: (TopLevel, Span))
        requires
            old(self).wf(),
        ensures
            final(self).wf(),
            final(self).input() == old(self).input(),
            ((r.0@, r.1), final(self).state()) == enum_s(old(self).input(), old(self).state()),
    {
        reveal(enum_s);
        reveal(variants_s);
        let ghost inp = self.input();
        let span = self.current_span();
        self.expect(&Token::Enum);
        let name = self.eat_ident();
        let ghost s2 = self.state();
        if !contains_name(&self.enum_names, &name) {
            let ghost before = self.enum_names@;
            self.enum_names.push(name.clone());
            proof {
                assert(texts(self.enum_names@) =~= texts(before).push(name@));
            }
        }
        proof {
            assert(self.state() =~= with_enum(s2, name@));
        }
        self.expect(&Token::LBrace);
        let ghost s3 = self.state();
        let mut acc: Vec<EnumVariant> = Vec::new();
        proof {
            assert(variants_v(acc) =~= Seq::empty());
        }
        let mut done = false;
        while !done && !same_token(self.current(), &Token::RBrace) && !same_token(self.current(), &Token::EOF)
            invariant
                self.wf(),
                self.input() == inp,
                (if done {
                    (variants_v(acc), self.state())
                } else {
                    variants_s(inp, self.state(), variants_v(acc))
                }) == variants_s(inp, s3, Seq::empty()),
            decreases (if done { 0int } else { 1int }), rem(inp, self.state()),
        {
            reveal(enum_s);
            reveal(variants_s);
            let q0 = self.pos;
            let vn = self.eat_ident();
            let ty = if same_token(self.current(), &Token::LParen) {
                self.advance();
                let t = self.parse_ty();
                self.expect(&Token::RParen);
                Some(t)
            } else {
                None
            };
            if same_token(self.current(), &Token::Comma) {
                self.advance();
            }
            let ghost before = variants_v(acc);
            let ghost item = (vn@, opt_ty_v(ty));
            acc.push(EnumVariant { name: vn, ty });
            proof {
                assert(variants_v(acc) =~= before.push(item));
            }
            if !(q0 < self.pos && self.pos <= self.tokens.len()) {
                done = true;
            }
        }
        reveal(enum_s);
        reveal(variants_s);
        self.expect(&Token::RBrace);
        (TopLevel::Enum { name, variants: acc }, span)
    }

    /// Reads a trait (see `trait_s`).
    #[verifier::spinoff_prover]
    #[verifier::rlimit(60)]
    pub fn parse_trait(&mut self) -> (r: (TopLevel, Span))
        requires
            old(self).wf(),
        ensures
            final(self).wf(),
            final(self).input() == old(self).input(),
            ((r.0@, r.1), final(self).state()) == trait_s(old(self).input(), old(self).state()),
    {
        reveal(trait_s);
        reveal(tmethods_s);
        let ghost inp = self.input();
        let span = self.current_span();
        self.expect(&Token::Trait);
        let name = self.eat_ident();
        self.expect(&Token::LBrace);
        let ghost s3 = self.state();
        let mut acc: Vec<TraitMethod> = Vec::new();
        proof {
            assert(methods_v(acc) =~= Seq::empty());
        }
        let mut done = false;
        while !done && !same_token(self.current(), &Token::RBrace) && !same_token(self.current(), &Token::EOF)
            invariant
                self.wf(),
                self.input() == inp,
                (if done {
                    (methods_v(acc), self.state())
                } else {
                    tmethods_s(inp, self.state(), methods_v(acc))
                }) == tmethods_s(inp, s3, Seq::empty()),
            decreases (if done { 0int } else { 1int }), rem(inp, self.state()),
        {
            reveal(trait_s);
            reveal(tmethods_s);
            let q0 = self.pos;
            if same_token(self.current(), &Token::Hash) {
                self.skip_decorator();
            } else {
                self.expect(&Token::Function);
                let mn = self.eat_ident();
                self.expect(&Token::LParen);
                let none: Vec<Param> = Vec::new();
                proof {
                    assert(params_view(none) =~= Seq::empty());
                }
                let ps = self.parse_fparams(none, true);
                self.expect(&Token::RParen);
                let ret = self.parse_ret_ty();
                self.expect(&Token::Semicolon);
                let ghost before = methods_v(acc);
                let ghost item = (mn@, params_view(ps), opt_ty_v(ret));
                acc.push(TraitMethod { name: mn, params: ps, return_ty: ret });
                proof {
                    assert(methods_v(acc) =~= before.push(item));
                }
            }
            if !(q0 < self.pos && self.pos <= self.tokens.len()) {
                done = true;
            }
        }
        reveal(trait_s);
        reveal(tmethods_s);
        self.expect(&Token::RBrace);
        (TopLevel::Trait { name, methods: acc }, span)
    }

    /// Reads functions up to `}` (see `fns_s`).
    #[verifier::spinoff_prover]
    #[verifier::rlimit(30)]
    fn parse_fns(&mut self) -> (r: Vec<(TopLevel, Span)>)
        requires
            old(self).wf(),
        ensures
            final(self).wf(),
            final(self).input() == old(self).input(),
            (tops_v(r), final(self).state()) == fns_s(old(self).input(), old(self).state(), Seq::empty()),
    {
        reveal(fns_s);
        let ghost inp = self.input();
        let ghost s = self.state();
        let mut acc: Vec<(TopLevel, Span)> = Vec::new();
        proof {
            assert(tops_v(acc) =~= Seq::empty());
        }
        let mut done = false;
        while !done && !same_token(self.current(), &Token::RBrace) && !same_token(self.current(), &Token::EOF)
            invariant
                self.wf(),
                self.input() == inp,
                (if done {
                    (tops_v(acc), self.state())
                } else {
                    fns_s(inp, self.state(), tops_v(acc))
                }) == fns_s(inp, s, Seq::empty()),
            decreases (if done { 0int } else { 1int }), rem(inp, self.state()),
        {
            reveal(fns_s);
            let q0 = self.pos;
            if same_token(self.current(), &Token::Hash) {
                self.skip_decorator();
            } else {
                let f = self.parse_function();
                let ghost before = tops_v(acc);
                let ghost item = (f.0@, f.1);
                acc.push(f);
                proof {
                    assert(tops_v(acc) =~= before.push(item));
                }
            }
            if !(q0 < self.pos && self.pos <= self.tokens.len()) {
                done = true;
            }
        }
        reveal(fns_s);
        acc
    }

    /// Whether the current token is the name `for`.
    fn at_for_name(&self) -> (r: bool)
        requires
            self.wf(),
        ensures
            r == (cur(self.input(), self.state()) == TokenV::Ident("for"@)),
    {
        match self.current() {
            Token::Ident(x) => {
                let w = chars_of("for");
                chars_eq(chars_of(x.as_str()).as_slice(), w.as_slice())
            },
            _ => false,
        }
    }

    /// Reads an impl (see `impl_s`).
    #[verifier::spinoff_prover]
    #[verifier::rlimit(50)]
    pub fn parse_impl(&mut self) -> (r: (TopLevel, Span))
        requires
            old(self).wf(),
        ensures
            final(self).wf(),
            final(self).input() == old(self).input(),
            ((r.0@, r.1), final(self).state()) == impl_s(old(self).input(), old(self).state()),
    {
        reveal(impl_s);
        let span = self.current_span();
        self.expect(&Token::Impl);
        let tn = self.eat_ident();
        let target = if self.at_for_name() {
            self.advance();
            self.eat_ident()
        } else if match self.current() {
            Token::Ident(_) => true,
            _ => false,
        } {
            self.eat_ident()
        } else {
            tn.clone()
        };
        self.expect(&Token::LBrace);
        let ms = self.parse_fns();
        self.expect(&Token::RBrace);
        (TopLevel::Impl { trait_name: tn, target_ty: target, methods: ms }, span)
    }

    /// Reads a module (see `mod_s`).
    #[verifier::spinoff_prover]
    #[verifier::rlimit(50)]
    pub fn parse_mod(&mut self) -> (r: (TopLevel, Span))
        requires
            old(self).wf(),
        ensures
            final(self).wf(),
            final(self).input() == old(self).input(),
            ((r.0@, r.1), final(self).state()) == mod_s(old(self).input(), old(self).state()),
    {
        reveal(mod_s);
        reveal(mod_items_s);
        let ghost inp = self.input();
        let span = self.current_span();
        self.expect(&Token::Mod);
        let name = self.eat_ident();
        self.expect(&Token::LBrace);
        let ghost s3 = self.state();
        let mut acc: Vec<(TopLevel, Span)> = Vec::new();
        proof {
            assert(tops_v(acc) =~= Seq::empty());
        }
        let mut done = false;
        while !done && !same_token(self.current(), &Token::RBrace) && !same_token(self.current(), &Token::EOF)
            invariant
                self.wf(),
                self.input() == inp,
                (if done {
                    (tops_v(acc), self.state())
                } else {
                    mod_items_s(inp, self.state(), tops_v(acc))
                }) == mod_items_s(inp, s3, Seq::empty()),
            decreases (if done { 0int } else { 1int }), rem(inp, self.state()),
        {
            reveal(mod_s);
            reveal(mod_items_s);
            let q0 = self.pos;
            let item = if same_token(self.current(), &Token::Function) {
                Some(self.parse_function())
            } else if same_token(self.current(), &Token::Struct) {
                Some(self.parse_struct())
            } else if same_token(self.current(), &Token::Enum) {
                Some(self.parse_enum())
            } else if same_token(self.current(), &Token::Hash) {
                self.skip_decorator();
                None
            } else {
                let mut m: Vec<char> = Vec::new();
                push_str(&mut m, "Unexpected token in mod");
                self.error_here(m);
                self.advance();
                None
            };
            match item {
                Some(f) => {
                    let ghost before = tops_v(acc);
                    let ghost it = (f.0@, f.1);
                    acc.push(f);
                    proof {
                        assert(tops_v(acc) =~= before.push(it));
                    }
                },
                None => {},
            }
            if !(q0 < self.pos && self.pos <= self.tokens.len()) {
                done = true;
            }
        }
        reveal(mod_s);
        reveal(mod_items_s);
        self.expect(&Token::RBrace);
        (TopLevel::Module { name, items: acc }, span)
    }

    /// Reads an anchor with its statements and child anchors (see
    /// `anchor_s`).
    #[verifier::spinoff_prover]
    #[verifier::rlimit(60)]
    pub fn parse_anchor(&mut self) -> (r: (TopLevel, Span))
        requires
            old(self).wf(),
        ensures
            final(self).wf(),
            final(self).input() == old(self).input(),
            ((r.0@, r.1), final(self).state()) == anchor_s(old(self).input(), old(self).state()),
        decreases rem(old(self).input(), old(self).state()),
    {
        reveal(anchor_s);
        reveal(anchor_items_s);
        let ghost inp = self.input();
        let ghost s = self.state();
        let span = self.current_span();
        let p0 = self.pos;
        self.expect(&Token::At);
        let name = self.eat_ident();
        self.expect(&Token::LParen);
        let kind = self.parse_anchor_kind();
        self.expect(&Token::RParen);
        self.expect(&Token::LBrace);
        let mut body: Vec<(Stmt, Span)> = Vec::new();
        let mut children: Vec<(TopLevel, Span)> = Vec::new();
        proof {
            assert(stmts_v(body) =~= Seq::empty());
            assert(tops_v(children) =~= Seq::empty());
        }
        if !(p0 < self.pos && self.pos <= self.tokens.len()) {
            return (TopLevel::Anchor { name, kind, body, children }, span);
        }
        let ghost s4 = self.state();
        let mut done = false;
        while !done && !same_token(self.current(), &Token::RBrace) && !same_token(self.current(), &Token::EOF)
            invariant
                self.wf(),
                self.input() == inp,
                inp == old(self).input(),
                s == old(self).state(),
                !done ==> s.pos < self.state().pos <= inp.toks.len(),
                (if done {
                    (stmts_v(body), tops_v(children), self.state())
                } else {
                    anchor_items_s(inp, self.state(), stmts_v(body), tops_v(children))
                }) == anchor_items_s(inp, s4, Seq::empty(), Seq::empty()),
            decreases (if done { 0int } else { 1int }), rem(inp, self.state()),
        {
            reveal(anchor_s);
            reveal(anchor_items_s);
            let q0 = self.pos;
            if same_token(self.current(), &Token::Hash) {
                self.skip_decorator();
            } else if same_token(self.current(), &Token::At) {
                let c = self.parse_anchor();
                let ghost before = tops_v(children);
                let ghost it = (c.0@, c.1);
                children.push(c);
                proof {
                    assert(tops_v(children) =~= before.push(it));
                }
            } else {
                let st = self.parse_stmt();
                let ghost before = stmts_v(body);
                let ghost it = (st.0@, st.1);
                body.push(st);
                proof {
                    assert(stmts_v(body) =~= before.push(it));
                }
            }
            if !(q0 < self.pos && self.pos <= self.tokens.len()) {
                done = true;
            }
        }
        reveal(anchor_s);
        reveal(anchor_items_s);
        self.expect(&Token::RBrace);
        (TopLevel::Anchor { name, kind, body, children }, span)
    }

    /// Reads decorators one after another (see `decorators_s`).
    #[verifier::spinoff_prover]
    #[verifier::rlimit(30)]
    fn parse_decorators(&mut self) -> (r: Vec<String>)
        requires
            old(self).wf(),
        ensures
            final(self).wf(),
            final(self).input() == old(self).input(),
            (names_v(r), final(self).state()) == decorators_s(old(self).input(), old(self).state(), Seq::empty()),
    {
        reveal(decorators_s);
        let ghost inp = self.input();
        let ghost s = self.state();
        let mut acc: Vec<String> = Vec::new();
        proof {
            assert(names_v(acc) =~= Seq::empty());
        }
        let mut done = false;
        while !done && same_token(self.current(), &Token::Hash)
            invariant
                self.wf(),
                self.input() == inp,
                (if done {
                    (names_v(acc), self.state())
                } else {
                    decorators_s(inp, self.state(), names_v(acc))
                }) == decorators_s(inp, s, Seq::empty()),
            decreases (if done { 0int } else { 1int }), rem(inp, self.state()),
        {
            reveal(decorators_s);
            let q0 = self.pos;
            let d = self.parse_decorator();
            let ghost before = names_v(acc);
            let ghost it = d@;
            acc.push(d);
            proof {
                assert(names_v(acc) =~= before.push(it));
            }
            if !(q0 < self.pos && self.pos <= self.tokens.len()) {
                done = true;
            }
        }
        reveal(decorators_s);
        acc
    }

    /// Reads a constant at the top level (see `top_const_s`).
    #[verifier::spinoff_prover]
    #[verifier::rlimit(30)]
    fn parse_top_const(&mut self) -> (r: (TopLevel, Span))
        requires
            old(self).wf(),
        ensures
            final(self).wf(),
            final(self).input() == old(self).input(),
            ((r.0@, r.1), final(self).state()) == top_const_s(old(self).input(), old(self).state()),
    {
        reveal(top_const_s);
        let span = self.current_span();
        self.advance();
        let ty = self.parse_ty();
        let name = self.eat_var_ident();
        self.expect(&Token::Eq);
        let value = self.parse_expr();
        self.expect(&Token::Semicolon);
        (TopLevel::ConstDecl { ty, name, value }, span)
    }

    /// Reads one top-level item, if one is read here (see `item_s`).
    #[verifier::spinoff_prover]
    #[verifier::rlimit(30)]
    fn parse_item(&mut self) -> (r: Option<(TopLevel, Span)>)
        requires
            old(self).wf(),
        ensures
            final(self).wf(),
            final(self).input() == old(self).input(),
            ((match r {
                Some(f) => Some((f.0@, f.1)),
                None => None,
            }), final(self).state()) == item_s(old(self).input(), old(self).state()),
    {
        reveal(item_s);
        let t = self.current().clone();
        match t {
            Token::Hash => {
                let decs = self.parse_decorators();
                if same_token(self.current(), &Token::Function) {
                    let (f, sp) = self.parse_function();
                    let ghost fv = (f@, sp);
                    let g = match f {
                        TopLevel::Function { name, type_params, params, return_ty, body, .. } => TopLevel::Function {
                            name,
                            type_params,
                            params,
                            return_ty,
                            body,
                            decorators: decs,
                        },
                        other => other,
                    };
                    proof {
                        assert((g@, sp) == decorated(fv, names_v(decs)));
                    }
                    Some((g, sp))
                } else {
                    None
                }
            },
            Token::At => Some(self.parse_anchor()),
            Token::Function => Some(self.parse_function()),
            Token::Struct => Some(self.parse_struct()),
            Token::Enum => Some(self.parse_enum()),
            Token::Trait => Some(self.parse_trait()),
            Token::Impl => Some(self.parse_impl()),
            Token::Mod => Some(self.parse_mod()),
            Token::Import => {
                self.advance();
                None
            },
            Token::Const => Some(self.parse_top_const()),
            _ => {
                let mut m: Vec<char> = Vec::new();
                push_str(&mut m, "Unexpected top-level token: ");
                push_str(&mut m, token_debug(&t).as_str());
                self.error_here(m);
                self.advance();
                None
            },
        }
    }

    /// Reads a whole program: its items up to the end of the tokens (see
    /// `items_s`). What cannot be read is reported in `errors`.
    #[verifier::spinoff_prover]
    #[verifier::rlimit(50)]
    pub fn parse(&mut self) -> (r: Program)
        requires
            old(self).wf(),
        ensures
            final(self).wf(),
            final(self).input() == old(self).input(),
            (tops_v(r.items), final(self).state()) == items_s(old(self).input(), old(self).state(), Seq::empty()),
    {
        reveal(items_s);
        let ghost inp = self.input();
        let ghost s = self.state();
        let mut acc: Vec<(TopLevel, Span)> = Vec::new();
        proof {
            assert(tops_v(acc) =~= Seq::empty());
        }
        let mut done = false;
        while !done && !same_token(self.current(), &Token::EOF)
            invariant
                self.wf(),
                self.input() == inp,
                (if done {
                    (tops_v(acc), self.state())
                } else {
                    items_s(inp, self.state(), tops_v(acc))
                }) == items_s(inp, s, Seq::empty()),
            decreases (if done { 0int } else { 1int }), rem(inp, self.state()),
        {
            reveal(items_s);
            let q0 = self.pos;
            match self.parse_item() {
                Some(f) => {
                    let ghost before = tops_v(acc);
                    let ghost it = (f.0@, f.1);
                    acc.push(f);
                    proof {
                        assert(tops_v(acc) =~= before.push(it));
                    }
                },
                None => {},
            }
            if !(q0 < self.pos && self.pos <= self.tokens.len()) {
                done = true;
            }
        }
        reveal(items_s);
        Program { items: acc }
    }
}

} // verus!
