//! Small pieces of the grammar: anchor kinds and `match` patterns.
use crate::ast::{AnchorKind, AnchorKindV, Pattern, PatternV, Token, TokenV};
use crate::parser::{
    adv, at_here, cur, eat_ident_s, eat_var_ident_s, expect_s, same_token, with_err, PInput, PState,
    Parser,
};
use crate::text::{chars_eq, chars_of, push_str};
use vstd::prelude::*;

verus! {

/// Reading the kind of an anchor inside `@name(...)`: nothing (plain),
/// `main`, `thread` or `event(name)`; any other word is reported and taken
/// as plain.
pub open spec fn anchor_kind_s(inp: PInput, s: PState) -> (AnchorKindV, PState) {
    if cur(inp, s) == TokenV::RParen {
        (AnchorKindV::Plain, s)
    } else {
        let (k, s1) = eat_ident_s(inp, s);
        if k == "main"@ {
            (AnchorKindV::Main, s1)
        } else if k == "thread"@ {
            (AnchorKindV::Thread, s1)
        } else if k == "event"@ {
            let s2 = expect_s(inp, s1, TokenV::LParen);
            let (ev, s3) = eat_ident_s(inp, s2);
            (AnchorKindV::Event(ev), expect_s(inp, s3, TokenV::RParen))
        } else {
            (AnchorKindV::Plain, with_err(s1, "Unknown anchor kind: "@ + k + at_here(inp, s1)))
        }
    }
}

/// The negation of a pattern's integer, wrapping at the least `i64`.
pub open spec fn neg_i64(n: i64) -> i64 {
    if n == i64::MIN {
        n
    } else {
        (-n) as i64
    }
}

/// Reading a `match` pattern: a literal (an integer may have a `-`), `_`,
/// `Enum.Variant` or `Enum.Variant(binding)`. A bare name matches anything,
/// as `_` does.
pub open spec fn pattern_s(inp: PInput, s: PState) -> (PatternV, PState) {
    match cur(inp, s) {
        TokenV::IntLit(n) => (PatternV::IntLit(n), adv(inp, s)),
        TokenV::FloatLit(f) => (PatternV::FloatLit(f), adv(inp, s)),
        TokenV::StringLit(x) => (PatternV::StringLit(x), adv(inp, s)),
        TokenV::True => (PatternV::Bool(true), adv(inp, s)),
        TokenV::False => (PatternV::Bool(false), adv(inp, s)),
        TokenV::Minus => {
            let s1 = adv(inp, s);
            match cur(inp, s1) {
                TokenV::IntLit(n) => (PatternV::IntLit(neg_i64(n)), adv(inp, s1)),
                _ => (
                    PatternV::Wildcard,
                    with_err(s1, "Expected integer after '-' in pattern"@ + at_here(inp, s1)),
                ),
            }
        },
        TokenV::Ident(name) => {
            let s1 = adv(inp, s);
            if name == "_"@ {
                (PatternV::Wildcard, s1)
            } else if cur(inp, s1) == TokenV::Dot {
                let (variant, s3) = eat_ident_s(inp, adv(inp, s1));
                if cur(inp, s3) == TokenV::LParen {
                    let (b, s5) = eat_var_ident_s(inp, adv(inp, s3));
                    (
                        PatternV::EnumVariant { enum_name: name, variant, binding: Some(b) },
                        expect_s(inp, s5, TokenV::RParen),
                    )
                } else {
                    (PatternV::EnumVariant { enum_name: name, variant, binding: None }, s3)
                }
            } else {
                (PatternV::Wildcard, s1)
            }
        },
        _ => (PatternV::Wildcard, adv(inp, with_err(s, "Expected pattern"@ + at_here(inp, s)))),
    }
}

/// Whether `s` is the text `t`.
fn is_text(s: &str, t: &str) -> (r: bool)
    ensures
        r == (s@ == t@),
{
    let a = chars_of(s);
    let b = chars_of(t);
    chars_eq(a.as_slice(), b.as_slice())
}

impl Parser {
    /// Reads the kind of an anchor (see `anchor_kind_s`).
    pub fn parse_anchor_kind(&mut self) -> (r: AnchorKind)
        requires
            old(self).wf(),
        ensures
            final(self).wf(),
            final(self).input() == old(self).input(),
            (r@, final(self).state()) == anchor_kind_s(old(self).input(), old(self).state()),
    {
        if same_token(self.current(), &Token::RParen) {
            return AnchorKind::Plain;
        }
        let k = self.eat_ident();
        if is_text(k.as_str(), "main") {
            AnchorKind::Main
        } else if is_text(k.as_str(), "thread") {
            AnchorKind::Thread
        } else if is_text(k.as_str(), "event") {
            self.expect(&Token::LParen);
            let ev = self.eat_ident();
            self.expect(&Token::RParen);
            AnchorKind::Event(ev)
        } else {
            let mut m: Vec<char> = Vec::new();
            push_str(&mut m, "Unknown anchor kind: ");
            push_str(&mut m, k.as_str());
            self.error_here(m);
            AnchorKind::Plain
        }
    }

    /// Reads a `match` pattern (see `pattern_s`).
    pub fn parse_pattern(&mut self) -> (r: Pattern)
        requires
            old(self).wf(),
        ensures
            final(self).wf(),
            final(self).input() == old(self).input(),
            (r@, final(self).state()) == pattern_s(old(self).input(), old(self).state()),
    {
        match self.current() {
            Token::IntLit(n) => {
                let n = *n;
                self.advance();
                Pattern::IntLit(n)
            },
            Token::FloatLit(f) => {
                let f = f.clone();
                self.advance();
                Pattern::FloatLit(f)
            },
            Token::StringLit(x) => {
                let x = x.clone();
                self.advance();
                Pattern::StringLit(x)
            },
            Token::True => {
                self.advance();
                Pattern::Bool(true)
            },
            Token::False => {
                self.advance();
                Pattern::Bool(false)
            },
            Token::Minus => {
                self.advance();
                match self.current() {
                    Token::IntLit(n) => {
                        let v = if *n == i64::MIN {
                            *n
                        } else {
                            -*n
                        };
                        self.advance();
                        Pattern::IntLit(v)
                    },
                    _ => {
                        let mut m: Vec<char> = Vec::new();
                        push_str(&mut m, "Expected integer after '-' in pattern");
                        self.error_here(m);
                        Pattern::Wildcard
                    },
                }
            },
            Token::Ident(name) => {
                let name = name.clone();
                self.advance();
                if is_text(name.as_str(), "_") {
                    Pattern::Wildcard
                } else if same_token(self.current(), &Token::Dot) {
                    self.advance();
                    let variant = self.eat_ident();
                    if same_token(self.current(), &Token::LParen) {
                        self.advance();
                        let b = self.eat_var_ident();
                        self.expect(&Token::RParen);
                        Pattern::EnumVariant { enum_name: name, variant, binding: Some(b) }
                    } else {
                        Pattern::EnumVariant { enum_name: name, variant, binding: None }
                    }
                } else {
                    Pattern::Wildcard
                }
            },
            _ => {
                let mut m: Vec<char> = Vec::new();
                push_str(&mut m, "Expected pattern");
                self.error_here(m);
                self.advance();
                Pattern::Wildcard
            },
        }
    }
}

} // verus!
