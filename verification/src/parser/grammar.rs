//! The grammar of expressions and statements, as functions from the
//! parser's state to what is read and the state after.
//!
//! Reading goes on while it makes progress: where a loop or a nested read
//! would start again at a position it has already read from, it stops
//! there (on such inputs reading would otherwise never end).
use crate::ast::{AnchorKindV, BinOpKind, ExprV, FStringPartV, PatternV, Span, StmtV, TokenV, TyV, UnaryOpKind};
use crate::lexer::lex;
use crate::numfmt::dec;
use crate::parser::leaf::{anchor_kind_s, pattern_s};
use crate::parser::ty::ty_s;
use crate::parser::{
    adv, ahead, at_here, cur, cur_line, eat_ident_s, eat_var_ident_s, expect_s, token_text, with_err,
    PInput, PState,
};
use vstd::prelude::*;

verus! {

/// How many tokens are left to read (none past the end).
pub open spec fn rem(inp: PInput, s: PState) -> nat {
    if 0 <= s.pos <= inp.toks.len() {
        (inp.toks.len() - s.pos) as nat
    } else {
        0
    }
}

/// Whether `s2` is at or after `s` and not past the end.
pub open spec fn not_back(inp: PInput, s: PState, s2: PState) -> bool {
    0 <= s.pos <= s2.pos <= inp.toks.len()
}

/// Whether `s2` is after `s` and not past the end.
pub open spec fn forward(inp: PInput, s: PState, s2: PState) -> bool {
    0 <= s.pos < s2.pos <= inp.toks.len()
}

/// The position of the token at the parser's position.
pub open spec fn span_at(inp: PInput, s: PState) -> Span {
    Span {
        line: if 0 <= s.pos < inp.lines.len() {
            inp.lines[s.pos]
        } else {
            0
        },
        col: if 0 <= s.pos < inp.cols.len() {
            inp.cols[s.pos]
        } else {
            0
        },
    }
}

/// The state with `no_struct_init` set to `b`.
pub open spec fn with_nsi(s: PState, b: bool) -> PState {
    PState { no_struct_init: b, ..s }
}

/// Past a comma, if one is there.
pub open spec fn skip_comma(inp: PInput, s: PState) -> PState {
    if cur(inp, s) == TokenV::Comma {
        adv(inp, s)
    } else {
        s
    }
}

/// The state of a parser at the start of fresh tokens.
pub open spec fn fresh() -> PState {
    PState {
        pos: 0,
        errs: Seq::empty(),
        depth: 0,
        no_struct_init: false,
        enums: Seq::empty(),
        tparams: Seq::empty(),
    }
}

/// The deepest nesting of expressions that is read.
pub open spec fn max_depth() -> int {
    256
}

/// The operator that token `t` stands for at binding level `lvl` (0: `||`,
/// 1: `&&`, 2: comparisons, 3: `+ -`, 4: `* / %`).
pub open spec fn bin_op(lvl: nat, t: TokenV) -> Option<BinOpKind> {
    if lvl == 0 {
        if t == TokenV::Or {
            Some(BinOpKind::Or)
        } else {
            None
        }
    } else if lvl == 1 {
        if t == TokenV::And {
            Some(BinOpKind::And)
        } else {
            None
        }
    } else if lvl == 2 {
        match t {
            TokenV::Lt => Some(BinOpKind::Lt),
            TokenV::Gt => Some(BinOpKind::Gt),
            TokenV::Le => Some(BinOpKind::Le),
            TokenV::Ge => Some(BinOpKind::Ge),
            TokenV::EqEq => Some(BinOpKind::Eq),
            TokenV::Neq => Some(BinOpKind::Neq),
            _ => None,
        }
    } else if lvl == 3 {
        match t {
            TokenV::Plus => Some(BinOpKind::Add),
            TokenV::Minus => Some(BinOpKind::Sub),
            _ => None,
        }
    } else {
        match t {
            TokenV::Star => Some(BinOpKind::Mul),
            TokenV::Slash => Some(BinOpKind::Div),
            TokenV::Percent => Some(BinOpKind::Mod),
            _ => None,
        }
    }
}

/// How tightly a binary operator binds, from `||` (0) to the
/// multiplicative operators `*`, `/` and `%` (4).
pub open spec fn op_level(op: BinOpKind) -> nat {
    match op {
        BinOpKind::Or => 0,
        BinOpKind::And => 1,
        BinOpKind::Lt | BinOpKind::Gt | BinOpKind::Le | BinOpKind::Ge | BinOpKind::Eq | BinOpKind::Neq => 2,
        BinOpKind::Add | BinOpKind::Sub => 3,
        BinOpKind::Mul | BinOpKind::Div | BinOpKind::Mod => 4,
    }
}

/// The token that writes a binary operator.
pub open spec fn op_token(op: BinOpKind) -> TokenV {
    match op {
        BinOpKind::Or => TokenV::Or,
        BinOpKind::And => TokenV::And,
        BinOpKind::Lt => TokenV::Lt,
        BinOpKind::Gt => TokenV::Gt,
        BinOpKind::Le => TokenV::Le,
        BinOpKind::Ge => TokenV::Ge,
        BinOpKind::Eq => TokenV::EqEq,
        BinOpKind::Neq => TokenV::Neq,
        BinOpKind::Add => TokenV::Plus,
        BinOpKind::Sub => TokenV::Minus,
        BinOpKind::Mul => TokenV::Star,
        BinOpKind::Div => TokenV::Slash,
        BinOpKind::Mod => TokenV::Percent,
    }
}

/// Law: each binary operator is read at its own binding level and at no
/// other; so `%` binds as tightly as `*` and `/`, tighter than `+` and `-`
/// (in `a + b % c` the right operand of `+` is `b % c`), and `+` and `-`
/// bind tighter than the comparisons.
pub proof fn lemma_bin_op_levels(lvl: nat, t: TokenV)
    requires
        lvl <= 4,
    ensures
        bin_op(lvl, t) matches Some(op) ==> op_level(op) == lvl && op_token(op) == t,
        forall|op: BinOpKind| #[trigger] op_token(op) == t ==> (bin_op(lvl, t) == Some(op) <==> op_level(op) == lvl),
        t == TokenV::Percent ==> (bin_op(lvl, t) == Some(BinOpKind::Mod) <==> lvl == 4),
        t == TokenV::Percent && lvl < 4 ==> bin_op(lvl, t) is None,
{
}

/// Whether `t`, after a name, leaves the name a whole operand: it starts no
/// index, cast, member, call or struct literal.
pub open spec fn ends_operand(t: TokenV) -> bool {
    !(t is LBrace || t is LParen || t is LBracket || t is As || t is Dot)
}

/// The state `s` moved `k` tokens on.
pub open spec fn moved(s: PState, k: int) -> PState {
    PState { pos: s.pos + k, ..s }
}

/// A name followed by a token that ends an operand is read as that name.
proof fn lemma_name_operand(inp: PInput, s: PState, x: Seq<char>)
    requires
        0 <= s.pos,
        s.pos + 1 < inp.toks.len(),
        inp.toks[s.pos] == TokenV::Ident(x),
        ends_operand(inp.toks[s.pos + 1]),
    ensures
        unary_s(inp, s) == (ExprV::Ident(x), moved(s, 1)),
{
    reveal(unary_s);
    reveal(primary_s);
    reveal(atom_s);
    reveal(postfix_s);
    let s1 = moved(s, 1);
    assert(adv(inp, s) == s1);
    assert(cur(inp, s) == TokenV::Ident(x));
    assert(cur(inp, s1) == inp.toks[s.pos + 1]);
    assert(atom_s(inp, s) == (ExprV::Ident(x), s1));
    assert(postfix_s(inp, s1, ExprV::Ident(x)) == (ExprV::Ident(x), s1));
    assert(primary_s(inp, s) == (ExprV::Ident(x), s1));
}

/// With no operator of level `lvl` at the current token, the chain of that
/// level ends there.
proof fn lemma_chain_ends(inp: PInput, s: PState, lvl: nat, left: ExprV)
    requires
        bin_op(lvl, cur(inp, s)) is None,
    ensures
        bin_loop_s(inp, s, lvl, left) == (left, s),
{
    reveal(bin_loop_s);
}

/// A name followed by a token that is no operator of level `lvl` or tighter
/// is read, at level `lvl`, as that name.
proof fn lemma_name_chain(inp: PInput, s: PState, x: Seq<char>, lvl: nat)
    requires
        0 <= s.pos,
        s.pos + 1 < inp.toks.len(),
        inp.toks[s.pos] == TokenV::Ident(x),
        ends_operand(inp.toks[s.pos + 1]),
        lvl <= 4,
        forall|k: nat| lvl <= k <= 4 ==> #[trigger] bin_op(k, inp.toks[s.pos + 1]) is None,
    ensures
        bin_s(inp, s, lvl) == (ExprV::Ident(x), moved(s, 1)),
    decreases 4 - lvl,
{
    reveal(bin_s);
    reveal(bin_loop_s);
    reveal(unary_s);
    if lvl < 4 {
        lemma_name_chain(inp, s, x, lvl + 1);
    } else {
        lemma_name_operand(inp, s, x);
    }
    assert(bin_op(lvl, inp.toks[s.pos + 1]) is None);
    lemma_chain_ends(inp, moved(s, 1), lvl, ExprV::Ident(x));
}

/// Law (precedence of `%`): `a + b % c`, followed by a token that is no
/// operator and ends an operand (such as `;` or `)`), is read as `a + (b %
/// c)`: the right operand of `+` is the whole `%` expression.
pub proof fn lemma_mod_binds_tighter_than_add(inp: PInput, s: PState, a: Seq<char>, b: Seq<char>, c: Seq<char>)
    requires
        0 <= s.pos,
        s.pos + 5 < inp.toks.len(),
        s.depth < max_depth(),
        inp.toks[s.pos] == TokenV::Ident(a),
        inp.toks[s.pos + 1] == TokenV::Plus,
        inp.toks[s.pos + 2] == TokenV::Ident(b),
        inp.toks[s.pos + 3] == TokenV::Percent,
        inp.toks[s.pos + 4] == TokenV::Ident(c),
        ends_operand(inp.toks[s.pos + 5]),
        forall|k: nat| k <= 4 ==> #[trigger] bin_op(k, inp.toks[s.pos + 5]) is None,
    ensures
        expr_s(inp, s).0 == (ExprV::BinOp {
            left: Box::new(ExprV::Ident(a)),
            op: BinOpKind::Add,
            right: Box::new(ExprV::BinOp { left: Box::new(ExprV::Ident(b)), op: BinOpKind::Mod, right: Box::new(ExprV::Ident(c)) }),
        }),
{
    reveal(expr_s);
    reveal(bin_s);
    reveal(bin_loop_s);
    reveal(unary_s);
    let s1 = PState { depth: s.depth + 1, ..s };
    let p = s.pos;
    let t = inp.toks[p + 5];
    let bc = ExprV::BinOp { left: Box::new(ExprV::Ident(b)), op: BinOpKind::Mod, right: Box::new(ExprV::Ident(c)) };
    let abc = ExprV::BinOp { left: Box::new(ExprV::Ident(a)), op: BinOpKind::Add, right: Box::new(bc) };
    assert(bin_op(4, t) is None && bin_op(3, t) is None && bin_op(2, t) is None && bin_op(1, t) is None && bin_op(0, t) is None);
    // `b % c` at the tightest level, from `b`
    lemma_name_operand(inp, moved(s1, 2), b);
    lemma_name_operand(inp, moved(s1, 4), c);
    lemma_chain_ends(inp, moved(s1, 5), 4, bc);
    assert(adv(inp, moved(s1, 3)) == moved(s1, 4));
    assert(bin_loop_s(inp, moved(s1, 3), 4, ExprV::Ident(b)) == (bc, moved(s1, 5)));
    assert(bin_s(inp, moved(s1, 2), 4) == (bc, moved(s1, 5)));
    // `a` at the tightest level, then `+ (b % c)` at level 3
    assert forall|k: nat| 4 <= k <= 4 implies #[trigger] bin_op(k, inp.toks[s1.pos + 1]) is None by {}
    lemma_name_chain(inp, s1, a, 4);
    lemma_chain_ends(inp, moved(s1, 5), 3, abc);
    assert(adv(inp, moved(s1, 1)) == moved(s1, 2));
    assert(bin_loop_s(inp, moved(s1, 1), 3, ExprV::Ident(a)) == (abc, moved(s1, 5)));
    assert(bin_s(inp, s1, 3) == (abc, moved(s1, 5)));
    // the looser levels end at the token after `c`
    lemma_chain_ends(inp, moved(s1, 5), 2, abc);
    lemma_chain_ends(inp, moved(s1, 5), 1, abc);
    lemma_chain_ends(inp, moved(s1, 5), 0, abc);
    assert(bin_s(inp, s1, 2) == (abc, moved(s1, 5)));
    assert(bin_s(inp, s1, 1) == (abc, moved(s1, 5)));
    assert(bin_s(inp, s1, 0) == (abc, moved(s1, 5)));
}

/// The binding levels, the tightest last.
pub open spec fn lvl_rank(lvl: nat) -> int {
    if lvl <= 4 {
        22 - 2 * lvl
    } else {
        14
    }
}

/// The compound assignment operator of token `t`.
pub open spec fn compound_op(t: TokenV) -> Option<BinOpKind> {
    match t {
        TokenV::PlusEq => Some(BinOpKind::Add),
        TokenV::MinusEq => Some(BinOpKind::Sub),
        TokenV::StarEq => Some(BinOpKind::Mul),
        TokenV::SlashEq => Some(BinOpKind::Div),
        TokenV::PercentEq => Some(BinOpKind::Mod),
        _ => None,
    }
}

/// Whether `t` names a base type that starts a declaration.
pub open spec fn starts_decl(t: TokenV) -> bool {
    t is Int || t is Float || t is String || t is Bool || t is TyI8 || t is TyI16 || t is TyI32
        || t is TyI64 || t is TyU8 || t is TyU16 || t is TyU32 || t is TyU64
}

// ───────────────────────── expressions ─────────────────────────

/// Reading an expression. Nesting deeper than `max_depth` is reported, and
/// `0` stands for the expression.
#[verifier::opaque]
pub open spec fn expr_s(inp: PInput, s: PState) -> (ExprV, PState)
    decreases 2 * inp.fuel + 1, rem(inp, s), 24int,
{
    let s1 = PState { depth: s.depth + 1, ..s };
    if s1.depth > max_depth() {
        (
            ExprV::IntLit(0),
            PState {
                depth: s.depth,
                ..with_err(s1, "Expression nesting too deep (>256)"@ + at_here(inp, s1))
            },
        )
    } else {
        let (e, s2) = bin_s(inp, s1, 0);
        (e, PState { depth: s2.depth - 1, ..s2 })
    }
}

/// Reading a chain of operands joined by the operators of level `lvl`,
/// grouping to the left.
#[verifier::opaque]
pub open spec fn bin_s(inp: PInput, s: PState, lvl: nat) -> (ExprV, PState)
    decreases 2 * inp.fuel + 1, rem(inp, s), lvl_rank(lvl),
{
    let (l, s1) = if lvl >= 4 {
        unary_s(inp, s)
    } else {
        bin_s(inp, s, lvl + 1)
    };
    if not_back(inp, s, s1) {
        bin_loop_s(inp, s1, lvl, l)
    } else {
        (l, s1)
    }
}

/// The operand of level `lvl`: the next level's chain, or a unary
/// expression below the tightest level.
#[verifier::opaque]
pub open spec fn bin_loop_s(inp: PInput, s: PState, lvl: nat, left: ExprV) -> (ExprV, PState)
    decreases 2 * inp.fuel + 1, rem(inp, s), lvl_rank(lvl) - 1,
{
    match bin_op(lvl, cur(inp, s)) {
        None => (left, s),
        Some(op) => {
            let s1 = adv(inp, s);
            if !forward(inp, s, s1) {
                (left, s1)
            } else {
                let (r, s2) = if lvl >= 4 {
                    unary_s(inp, s1)
                } else {
                    bin_s(inp, s1, lvl + 1)
                };
                let e = ExprV::BinOp { left: Box::new(left), op, right: Box::new(r) };
                if forward(inp, s, s2) {
                    bin_loop_s(inp, s2, lvl, e)
                } else {
                    (e, s2)
                }
            }
        },
    }
}

/// Reading a unary expression: `-` or `!` before one, or a primary one.
#[verifier::opaque]
pub open spec fn unary_s(inp: PInput, s: PState) -> (ExprV, PState)
    decreases 2 * inp.fuel + 1, rem(inp, s), 12int,
{
    match cur(inp, s) {
        TokenV::Minus => {
            let s1 = adv(inp, s);
            if !forward(inp, s, s1) {
                (ExprV::IntLit(0), s1)
            } else {
                let (e, s2) = unary_s(inp, s1);
                (ExprV::UnaryOp { op: UnaryOpKind::Neg, expr: Box::new(e) }, s2)
            }
        },
        TokenV::Not => {
            let s1 = adv(inp, s);
            if !forward(inp, s, s1) {
                (ExprV::IntLit(0), s1)
            } else {
                let (e, s2) = unary_s(inp, s1);
                (ExprV::UnaryOp { op: UnaryOpKind::Not, expr: Box::new(e) }, s2)
            }
        },
        _ => primary_s(inp, s),
    }
}

/// Reading a primary expression and what follows it: `[index]`, `as T`,
/// `.field`, `.method(...)`, `Enum.Variant(...)`.
#[verifier::opaque]
pub open spec fn primary_s(inp: PInput, s: PState) -> (ExprV, PState)
    decreases 2 * inp.fuel + 1, rem(inp, s), 10int,
{
    let (e, s1) = atom_s(inp, s);
    if not_back(inp, s, s1) {
        postfix_s(inp, s1, e)
    } else {
        (e, s1)
    }
}

/// Reading a primary expression: a literal, a name, a struct literal, a
/// call, an array, a parenthesised expression, a closure or an f-string.
#[verifier::opaque]
pub open spec fn atom_s(inp: PInput, s: PState) -> (ExprV, PState)
    decreases 2 * inp.fuel + 1, rem(inp, s), 9int,
{
    match cur(inp, s) {
        TokenV::IntLit(n) => (ExprV::IntLit(n), adv(inp, s)),
        TokenV::FloatLit(f) => (ExprV::FloatLit(f), adv(inp, s)),
        TokenV::StringLit(x) => (ExprV::StringLit(x), adv(inp, s)),
        TokenV::True => (ExprV::Bool(true), adv(inp, s)),
        TokenV::False => (ExprV::Bool(false), adv(inp, s)),
        TokenV::Ident(x) => {
            let s1 = adv(inp, s);
            if !s.no_struct_init && cur(inp, s1) == TokenV::LBrace {
                let s2 = adv(inp, s1);
                if !forward(inp, s, s2) {
                    (ExprV::StructInit { name: x, fields: Seq::empty() }, s2)
                } else {
                    let (fs, s3) = sfields_s(inp, s2, Seq::empty());
                    (ExprV::StructInit { name: x, fields: fs }, expect_s(inp, s3, TokenV::RBrace))
                }
            } else if cur(inp, s1) == TokenV::LParen {
                let s2 = adv(inp, s1);
                if !forward(inp, s, s2) {
                    (ExprV::Call { name: x, args: Seq::empty() }, s2)
                } else {
                    let (args, s3) = args_s(inp, s2, TokenV::RParen, Seq::empty());
                    (ExprV::Call { name: x, args }, expect_s(inp, s3, TokenV::RParen))
                }
            } else {
                (ExprV::Ident(x), s1)
            }
        },
        TokenV::LBracket => {
            let s1 = adv(inp, s);
            if !forward(inp, s, s1) {
                (ExprV::ArrayLit(Seq::empty()), s1)
            } else {
                let (es, s2) = args_s(inp, s1, TokenV::RBracket, Seq::empty());
                (ExprV::ArrayLit(es), expect_s(inp, s2, TokenV::RBracket))
            }
        },
        TokenV::LParen => {
            let s1 = adv(inp, s);
            if !forward(inp, s, s1) {
                (ExprV::IntLit(0), s1)
            } else {
                let (e, s2) = expr_s(inp, s1);
                (e, expect_s(inp, s2, TokenV::RParen))
            }
        },
        TokenV::Pipe => {
            let s1 = adv(inp, s);
            if !forward(inp, s, s1) {
                (ExprV::Closure { params: Seq::empty(), body: Seq::empty() }, s1)
            } else {
                let (ps, s2) = cparams_s(inp, s1, Seq::empty());
                let s3 = expect_s(inp, s2, TokenV::Pipe);
                if cur(inp, s3) == TokenV::LBrace {
                    let s4 = adv(inp, s3);
                    if !forward(inp, s, s4) {
                        (ExprV::Closure { params: ps, body: Seq::empty() }, s4)
                    } else {
                        let (b, s5) = body_s(inp, s4, Seq::empty());
                        (ExprV::Closure { params: ps, body: b }, expect_s(inp, s5, TokenV::RBrace))
                    }
                } else if !forward(inp, s, s3) {
                    (ExprV::Closure { params: ps, body: Seq::empty() }, s3)
                } else {
                    let (e, s4) = expr_s(inp, s3);
                    (
                        ExprV::Closure {
                            params: ps,
                            body: seq![(StmtV::Return(Some(e)), span_at(inp, s4))],
                        },
                        s4,
                    )
                }
            }
        },
        TokenV::FStringLit(raw) => {
            let line = cur_line(inp, s);
            let s1 = adv(inp, s);
            if inp.fuel > 0 {
                let (parts, errs) = fscan_s(raw, 0, Seq::empty(), Seq::empty(), Seq::empty(), line, (inp.fuel - 1) as nat);
                (ExprV::FStringLit(parts), PState { errs: s1.errs + errs, ..s1 })
            } else {
                (ExprV::FStringLit(Seq::empty()), s1)
            }
        },
        t => (
            ExprV::IntLit(0),
            adv(inp, with_err(s, "Unexpected token in expression: "@ + token_text(t) + at_here(inp, s))),
        ),
    }
}

/// Reading the fields `name: value` of a struct literal, each maybe
/// followed by a comma, up to `}`.
#[verifier::opaque]
pub open spec fn sfields_s(inp: PInput, s: PState, acc: Seq<(Seq<char>, ExprV)>) -> (Seq<(Seq<char>, ExprV)>, PState)
    decreases 2 * inp.fuel + 1, rem(inp, s), 25int,
{
    if cur(inp, s) == TokenV::RBrace || cur(inp, s) == TokenV::EOF {
        (acc, s)
    } else {
        let (name, s1) = eat_ident_s(inp, s);
        let s2 = expect_s(inp, s1, TokenV::Colon);
        if !not_back(inp, s, s2) {
            (acc, s2)
        } else {
            let (v, s3) = expr_s(inp, s2);
            let s4 = skip_comma(inp, s3);
            if forward(inp, s, s4) {
                sfields_s(inp, s4, acc.push((name, v)))
            } else {
                (acc.push((name, v)), s4)
            }
        }
    }
}

/// Reading expressions, each maybe followed by a comma, up to `close`.
#[verifier::opaque]
pub open spec fn args_s(inp: PInput, s: PState, close: TokenV, acc: Seq<ExprV>) -> (Seq<ExprV>, PState)
    decreases 2 * inp.fuel + 1, rem(inp, s), 25int,
{
    if cur(inp, s) == close || cur(inp, s) == TokenV::EOF {
        (acc, s)
    } else {
        let (e, s1) = expr_s(inp, s);
        let s2 = skip_comma(inp, s1);
        if forward(inp, s, s2) {
            args_s(inp, s2, close, acc.push(e))
        } else {
            (acc.push(e), s2)
        }
    }
}

/// Reading the parameters of a closure, `name` or `name: T`, each maybe
/// followed by a comma, up to `|`.
#[verifier::opaque]
pub open spec fn cparams_s(inp: PInput, s: PState, acc: Seq<(Seq<char>, Option<TyV>)>) -> (Seq<(Seq<char>, Option<TyV>)>, PState)
    decreases 2 * inp.fuel + 1, rem(inp, s), 25int,
{
    if cur(inp, s) == TokenV::Pipe || cur(inp, s) == TokenV::EOF {
        (acc, s)
    } else {
        let (n, s1) = eat_ident_s(inp, s);
        let (t, s2) = if cur(inp, s1) == TokenV::Colon {
            let (ty, s3) = ty_s(inp, adv(inp, s1));
            (Some(ty), s3)
        } else {
            (None, s1)
        };
        let s4 = skip_comma(inp, s2);
        if forward(inp, s, s4) {
            cparams_s(inp, s4, acc.push((n, t)))
        } else {
            (acc.push((n, t)), s4)
        }
    }
}

/// Reading what follows a primary expression `e`.
#[verifier::opaque]
pub open spec fn postfix_s(inp: PInput, s: PState, e: ExprV) -> (ExprV, PState)
    decreases 2 * inp.fuel + 1, rem(inp, s), 8int,
{
    match cur(inp, s) {
        TokenV::LBracket => {
            let s1 = adv(inp, s);
            if !forward(inp, s, s1) {
                (e, s1)
            } else {
                let (i, s2) = expr_s(inp, s1);
                let s3 = expect_s(inp, s2, TokenV::RBracket);
                let e2 = ExprV::Index { array: Box::new(e), index: Box::new(i) };
                if forward(inp, s, s3) {
                    postfix_s(inp, s3, e2)
                } else {
                    (e2, s3)
                }
            }
        },
        TokenV::As => {
            let s1 = adv(inp, s);
            if !forward(inp, s, s1) {
                (e, s1)
            } else {
                let (ty, s2) = ty_s(inp, s1);
                let e2 = ExprV::Cast { expr: Box::new(e), ty };
                if forward(inp, s, s2) {
                    postfix_s(inp, s2, e2)
                } else {
                    (e2, s2)
                }
            }
        },
        TokenV::Dot => {
            let s1 = adv(inp, s);
            if !forward(inp, s, s1) {
                (e, s1)
            } else {
                let (member, s2) = eat_ident_s(inp, s1);
                let enum_base = match e {
                    ExprV::Ident(b) => s2.enums.contains(b),
                    _ => false,
                };
                if enum_base {
                    let (value, s3) = if cur(inp, s2) == TokenV::LParen {
                        let s4 = adv(inp, s2);
                        let (v, s5) = expr_s(inp, s4);
                        (Some(Box::new(v)), expect_s(inp, s5, TokenV::RParen))
                    } else {
                        (None, s2)
                    };
                    let e2 = ExprV::EnumVariant { enum_name: e->Ident_0, variant: member, value };
                    if forward(inp, s, s3) {
                        postfix_s(inp, s3, e2)
                    } else {
                        (e2, s3)
                    }
                } else if cur(inp, s2) == TokenV::LParen {
                    let s3 = adv(inp, s2);
                    let (args, s4) = args_s(inp, s3, TokenV::RParen, Seq::empty());
                    let s5 = expect_s(inp, s4, TokenV::RParen);
                    let e2 = ExprV::MethodCall { base: Box::new(e), method: member, args };
                    if forward(inp, s, s5) {
                        postfix_s(inp, s5, e2)
                    } else {
                        (e2, s5)
                    }
                } else {
                    let e2 = ExprV::FieldAccess { base: Box::new(e), field: member };
                    if forward(inp, s, s2) {
                        postfix_s(inp, s2, e2)
                    } else {
                        (e2, s2)
                    }
                }
            }
        },
        _ => (e, s),
    }
}

// ───────────────────────── f-strings ─────────────────────────

/// The text of an f-string's `{...}` from `k` (just inside the brace, with
/// `depth` braces open), and where reading continues after its closing
/// brace.
pub open spec fn brace_body(raw: Seq<char>, k: int, depth: nat, acc: Seq<char>) -> (Seq<char>, int)
    decreases raw.len() - k,
{
    if k < 0 || k >= raw.len() {
        (acc, raw.len() as int)
    } else {
        let c = raw[k];
        if c == '{' {
            brace_body(raw, k + 1, depth + 1, acc.push(c))
        } else if c == '}' {
            if depth <= 1 {
                (acc, k + 1)
            } else {
                brace_body(raw, k + 1, (depth - 1) as nat, acc.push(c))
            }
        } else {
            brace_body(raw, k + 1, depth, acc.push(c))
        }
    }
}

/// The text of a `{...}` is no longer than what follows its start.
pub proof fn lemma_brace_body_len(raw: Seq<char>, k: int, depth: nat, acc: Seq<char>)
    requires
        0 <= k,
    ensures
        brace_body(raw, k, depth, acc).0.len() <= acc.len() + (if k <= raw.len() { raw.len() - k } else { 0 }),
    decreases raw.len() - k,
{
    if k < raw.len() {
        let c = raw[k];
        if c == '{' {
            lemma_brace_body_len(raw, k + 1, depth + 1, acc.push(c));
        } else if c == '}' {
            if depth > 1 {
                lemma_brace_body_len(raw, k + 1, (depth - 1) as nat, acc.push(c));
            }
        } else {
            lemma_brace_body_len(raw, k + 1, depth, acc.push(c));
        }
    }
}

/// The tokens of `src`, as the parser reads them.
pub open spec fn sub_input(src: Seq<char>, fuel: nat) -> PInput {
    let toks = lex(src, 0).0;
    PInput {
        toks: toks.map_values(|t: (TokenV, int, int)| t.0),
        lines: toks.map_values(|t: (TokenV, int, int)| t.1 as usize),
        cols: toks.map_values(|t: (TokenV, int, int)| t.2 as usize),
        fuel,
    }
}

/// The parts of an f-string's text from `i`: literal text (with `{{` and
/// `}}` for braces) and expressions in braces, each read by a parser of its
/// own; the messages of those parsers, marked with the f-string's line.
#[verifier::opaque]
pub open spec fn fscan_s(
    raw: Seq<char>,
    i: int,
    lit: Seq<char>,
    parts: Seq<FStringPartV>,
    errs: Seq<Seq<char>>,
    line: nat,
    fuel: nat,
) -> (Seq<FStringPartV>, Seq<Seq<char>>)
    decreases 2 * fuel + 2, (if 0 <= i <= raw.len() { raw.len() - i } else { 0 }) as nat, 0int,
{
    if i < 0 || i >= raw.len() {
        (
            if lit.len() > 0 {
                parts.push(FStringPartV::Literal(lit))
            } else {
                parts
            },
            errs,
        )
    } else {
        let c = raw[i];
        if c == '{' && i + 1 < raw.len() && raw[i + 1] == '{' {
            fscan_s(raw, i + 2, lit.push('{'), parts, errs, line, fuel)
        } else if c == '{' {
            let parts1 = if lit.len() > 0 {
                parts.push(FStringPartV::Literal(lit))
            } else {
                parts
            };
            let (src, j) = brace_body(raw, i + 1, 1, Seq::empty());
            let (e, s2) = expr_s(sub_input(src, fuel), fresh());
            let errs1 = errs + s2.errs.map_values(
                |m: Seq<char>| "f-string expr error at line "@ + dec(line) + ": "@ + m,
            );
            if i < j <= raw.len() {
                fscan_s(raw, j, Seq::empty(), parts1.push(FStringPartV::Expr(e)), errs1, line, fuel)
            } else {
                (parts1.push(FStringPartV::Expr(e)), errs1)
            }
        } else if c == '}' && i + 1 < raw.len() && raw[i + 1] == '}' {
            fscan_s(raw, i + 2, lit.push('}'), parts, errs, line, fuel)
        } else {
            fscan_s(raw, i + 1, lit.push(c), parts, errs, line, fuel)
        }
    }
}

// ───────────────────────── statements ─────────────────────────

/// Reading statements (and inline anchors; decorators are dropped) up to
/// `}`.
#[verifier::opaque]
pub open spec fn body_s(inp: PInput, s: PState, acc: Seq<(StmtV, Span)>) -> (Seq<(StmtV, Span)>, PState)
    decreases 2 * inp.fuel + 1, rem(inp, s), 30int,
{
    match cur(inp, s) {
        TokenV::RBrace | TokenV::EOF => (acc, s),
        TokenV::Hash => {
            let s1 = crate::parser::decorator_s(inp, s).1;
            if forward(inp, s, s1) {
                body_s(inp, s1, acc)
            } else {
                (acc, s1)
            }
        },
        TokenV::At => {
            let (st, s1) = inline_anchor_s(inp, s);
            if forward(inp, s, s1) {
                body_s(inp, s1, acc.push(st))
            } else {
                (acc.push(st), s1)
            }
        },
        _ => {
            let (st, s1) = stmt_s(inp, s);
            if forward(inp, s, s1) {
                body_s(inp, s1, acc.push(st))
            } else {
                (acc.push(st), s1)
            }
        },
    }
}

/// Reading a decorator's arguments changes neither the nesting of
/// expressions nor what the parser knows of names.
proof fn lemma_dec_args_keeps(inp: PInput, s: PState, depth: nat, text: Seq<char>)
    ensures
        crate::parser::dec_args_s(inp, s, depth, text).1.depth == s.depth,
        crate::parser::dec_args_s(inp, s, depth, text).1.no_struct_init == s.no_struct_init,
        crate::parser::dec_args_s(inp, s, depth, text).1.enums == s.enums,
        crate::parser::dec_args_s(inp, s, depth, text).1.tparams == s.tparams,
    decreases inp.toks.len() - s.pos,
{
    if depth != 0 {
        let (t2, d2, s2, stop) = crate::parser::dec_arg_step(inp, s, depth, text);
        if !stop && s.pos < s2.pos <= inp.toks.len() {
            lemma_dec_args_keeps(inp, s2, d2, t2);
        }
    }
}

/// Reading a decorator changes neither the nesting of expressions nor
/// what the parser knows of names.
pub proof fn lemma_decorator_keeps(inp: PInput, s: PState)
    ensures
        crate::parser::decorator_s(inp, s).1.depth == s.depth,
        crate::parser::decorator_s(inp, s).1.no_struct_init == s.no_struct_init,
        crate::parser::decorator_s(inp, s).1.enums == s.enums,
        crate::parser::decorator_s(inp, s).1.tparams == s.tparams,
{
    let s1 = expect_s(inp, s, TokenV::Hash);
    let has_bracket = cur(inp, s1) == TokenV::LBracket;
    let s2 = if has_bracket {
        adv(inp, s1)
    } else {
        s1
    };
    let (name, s3) = eat_ident_s(inp, s2);
    if cur(inp, s3) == TokenV::LParen {
        lemma_dec_args_keeps(inp, adv(inp, s3), 1, Seq::empty());
    }
}

/// Reading an anchor inside a block: `@name(kind) { ... }`.
#[verifier::opaque]
pub open spec fn inline_anchor_s(inp: PInput, s: PState) -> ((StmtV, Span), PState)
    decreases 2 * inp.fuel + 1, rem(inp, s), 27int,
{
    let span = span_at(inp, s);
    let s1 = expect_s(inp, s, TokenV::At);
    let (name, s2) = eat_ident_s(inp, s1);
    let s3 = expect_s(inp, s2, TokenV::LParen);
    let (kind, s4) = anchor_kind_s(inp, s3);
    let s5 = expect_s(inp, s4, TokenV::RParen);
    let s6 = expect_s(inp, s5, TokenV::LBrace);
    if !forward(inp, s, s6) {
        ((StmtV::InlineAnchor { name, kind, body: Seq::empty() }, span), s6)
    } else {
        let (body, s7) = body_s(inp, s6, Seq::empty());
        ((StmtV::InlineAnchor { name, kind, body }, span), expect_s(inp, s7, TokenV::RBrace))
    }
}

/// Skipping to the next `;` or `}` (or the end).
pub open spec fn skip_to_sync(inp: PInput, s: PState) -> PState
    decreases rem(inp, s),
{
    if cur(inp, s) is Semicolon || cur(inp, s) is RBrace || cur(inp, s) is EOF {
        s
    } else {
        let s1 = adv(inp, s);
        if forward(inp, s, s1) {
            skip_to_sync(inp, s1)
        } else {
            s1
        }
    }
}

/// Reading a block in braces after a keyword already read (the statement
/// started at `p0`): `{ ... }`.
#[verifier::opaque]
pub open spec fn braced_s(inp: PInput, p0: int, s: PState) -> (Seq<(StmtV, Span)>, PState)
    decreases 2 * inp.fuel + 1, rem(inp, PState { pos: p0, ..s }), 27int,
{
    let s1 = expect_s(inp, s, TokenV::LBrace);
    if !(0 <= p0 < s1.pos <= inp.toks.len()) {
        (Seq::empty(), s1)
    } else {
        let (b, s2) = body_s(inp, s1, Seq::empty());
        (b, expect_s(inp, s2, TokenV::RBrace))
    }
}

/// Reading a statement.
#[verifier::opaque]
pub open spec fn stmt_s(inp: PInput, s: PState) -> ((StmtV, Span), PState)
    decreases 2 * inp.fuel + 1, rem(inp, s), 28int,
{
    let span = span_at(inp, s);
    match cur(inp, s) {
        TokenV::Kill => {
            let s1 = adv(inp, s);
            if cur(inp, s1) == TokenV::Semicolon {
                ((StmtV::Kill(None), span), adv(inp, s1))
            } else {
                let (e, s2) = expr_s(inp, s1);
                ((StmtV::Kill(Some(e)), span), expect_s(inp, s2, TokenV::Semicolon))
            }
        },
        TokenV::Exit => ((StmtV::Exit, span), expect_s(inp, adv(inp, s), TokenV::Semicolon)),
        TokenV::Yield => {
            let (e, s2) = expr_s(inp, adv(inp, s));
            ((StmtV::Yield(e), span), expect_s(inp, s2, TokenV::Semicolon))
        },
        TokenV::Return => {
            let s1 = adv(inp, s);
            if cur(inp, s1) == TokenV::Semicolon {
                ((StmtV::Return(None), span), adv(inp, s1))
            } else {
                let (e, s2) = expr_s(inp, s1);
                ((StmtV::Return(Some(e)), span), expect_s(inp, s2, TokenV::Semicolon))
            }
        },
        TokenV::Break => ((StmtV::Break, span), expect_s(inp, adv(inp, s), TokenV::Semicolon)),
        TokenV::Print => {
            let s2 = expect_s(inp, adv(inp, s), TokenV::LParen);
            let (args, s3) = args_s(inp, s2, TokenV::RParen, Seq::empty());
            let s4 = expect_s(inp, s3, TokenV::RParen);
            ((StmtV::Print(args), span), expect_s(inp, s4, TokenV::Semicolon))
        },
        TokenV::Assert => {
            let s2 = expect_s(inp, adv(inp, s), TokenV::LParen);
            let (c, s3) = expr_s(inp, s2);
            let (m, s4) = if cur(inp, s3) == TokenV::Comma && not_back(inp, s, adv(inp, s3)) {
                let (me, s5) = expr_s(inp, adv(inp, s3));
                (Some(me), s5)
            } else if cur(inp, s3) == TokenV::Comma {
                (None, adv(inp, s3))
            } else {
                (None, s3)
            };
            let s6 = expect_s(inp, s4, TokenV::RParen);
            ((StmtV::Assert { cond: c, message: m }, span), expect_s(inp, s6, TokenV::Semicolon))
        },
        TokenV::If => {
            let s1 = adv(inp, s);
            let (c, s2) = expr_s(inp, with_nsi(s1, true));
            let s3 = with_nsi(s2, s.no_struct_init);
            if !not_back(inp, s, s3) {
                ((StmtV::If { cond: c, then_body: Seq::empty(), else_body: None }, span), s3)
            } else {
                let (tb, s4) = braced_s(inp, s.pos, s3);
                if cur(inp, s4) == TokenV::Else {
                    let s5 = adv(inp, s4);
                    if cur(inp, s5) == TokenV::If && forward(inp, s, s5) {
                        let (st, s6) = stmt_s(inp, s5);
                        ((StmtV::If { cond: c, then_body: tb, else_body: Some(seq![st]) }, span), s6)
                    } else if not_back(inp, s, s5) {
                        let (eb, s6) = braced_s(inp, s.pos, s5);
                        ((StmtV::If { cond: c, then_body: tb, else_body: Some(eb) }, span), s6)
                    } else {
                        ((StmtV::If { cond: c, then_body: tb, else_body: None }, span), s5)
                    }
                } else {
                    ((StmtV::If { cond: c, then_body: tb, else_body: None }, span), s4)
                }
            }
        },
        TokenV::Loop => {
            let (b, s2) = braced_s(inp, s.pos, adv(inp, s));
            ((StmtV::Loop(b), span), s2)
        },
        TokenV::While => {
            let (c, s2) = expr_s(inp, adv(inp, s));
            if !not_back(inp, s, s2) {
                ((StmtV::While { cond: c, body: Seq::empty() }, span), s2)
            } else {
                let (b, s3) = braced_s(inp, s.pos, s2);
                ((StmtV::While { cond: c, body: b }, span), s3)
            }
        },
        TokenV::For => {
            let (v, s2) = eat_ident_s(inp, adv(inp, s));
            let s3 = expect_s(inp, s2, TokenV::In);
            let (from, s4) = primary_s(inp, s3);
            let s5 = expect_s(inp, s4, TokenV::DotDot);
            if !not_back(inp, s, s5) {
                ((StmtV::For { var: v, from, to: ExprV::IntLit(0), body: Seq::empty() }, span), s5)
            } else {
                let (to, s6) = primary_s(inp, s5);
                if !not_back(inp, s, s6) {
                    ((StmtV::For { var: v, from, to, body: Seq::empty() }, span), s6)
                } else {
                    let (b, s7) = braced_s(inp, s.pos, s6);
                    ((StmtV::For { var: v, from, to, body: b }, span), s7)
                }
            }
        },
        TokenV::Vault => {
            let (ty, s2) = ty_s(inp, adv(inp, s));
            let (n, s3) = eat_ident_s(inp, s2);
            let s4 = expect_s(inp, s3, TokenV::Eq);
            if !not_back(inp, s, s4) {
                ((StmtV::VaultDecl { ty, name: n, value: ExprV::IntLit(0) }, span), s4)
            } else {
                let (v, s5) = expr_s(inp, s4);
                ((StmtV::VaultDecl { ty, name: n, value: v }, span), expect_s(inp, s5, TokenV::Semicolon))
            }
        },
        TokenV::Auto => {
            let (n, s2) = eat_var_ident_s(inp, adv(inp, s));
            let s3 = expect_s(inp, s2, TokenV::Eq);
            let (v, s4) = expr_s(inp, s3);
            ((StmtV::VarDecl { ty: TyV::Auto, name: n, value: v }, span), expect_s(inp, s4, TokenV::Semicolon))
        },
        TokenV::Match => {
            let (st, s2) = match_stmt_s(inp, s);
            ((st, span), s2)
        },
        TokenV::Const => {
            let (ty, s2) = ty_s(inp, adv(inp, s));
            let (n, s3) = eat_var_ident_s(inp, s2);
            let s4 = expect_s(inp, s3, TokenV::Eq);
            if !not_back(inp, s, s4) {
                ((StmtV::ConstDecl { ty, name: n, value: ExprV::IntLit(0) }, span), s4)
            } else {
                let (v, s5) = expr_s(inp, s4);
                ((StmtV::ConstDecl { ty, name: n, value: v }, span), expect_s(inp, s5, TokenV::Semicolon))
            }
        },
        TokenV::Ident(name) => {
            let (st, s2) = ident_stmt_s(inp, adv(inp, s), name);
            ((st, span), s2)
        },
        t => if starts_decl(t) {
            let (ty, s1) = ty_s(inp, s);
            let (n, s2) = eat_var_ident_s(inp, s1);
            let s3 = expect_s(inp, s2, TokenV::Eq);
            if !not_back(inp, s, s3) {
                ((StmtV::VarDecl { ty, name: n, value: ExprV::IntLit(0) }, span), s3)
            } else {
                let (v, s4) = expr_s(inp, s3);
                ((StmtV::VarDecl { ty, name: n, value: v }, span), expect_s(inp, s4, TokenV::Semicolon))
            }
        } else {
            let s1 = skip_to_sync(
                inp,
                with_err(s, "Unexpected token in statement: "@ + token_text(t) + at_here(inp, s)),
            );
            (
                (StmtV::ExprStmt(ExprV::IntLit(0)), span),
                if cur(inp, s1) == TokenV::Semicolon {
                    adv(inp, s1)
                } else {
                    s1
                },
            )
        },
    }
}

/// Reading a `match` statement: `match e { pattern => { ... }, ... }`.
#[verifier::opaque]
pub open spec fn match_stmt_s(inp: PInput, s: PState) -> (StmtV, PState)
    decreases 2 * inp.fuel + 1, rem(inp, s), 26int,
{
    let s1 = expect_s(inp, s, TokenV::Match);
    let (e, s2) = expr_s(inp, with_nsi(s1, true));
    let s3 = expect_s(inp, with_nsi(s2, false), TokenV::LBrace);
    if !forward(inp, s, s3) {
        (StmtV::Match { expr: e, arms: Seq::empty() }, s3)
    } else {
        let (arms, s4) = arms_s(inp, s3, Seq::empty());
        (StmtV::Match { expr: e, arms }, expect_s(inp, s4, TokenV::RBrace))
    }
}

/// Reading the arms of a `match`, each maybe followed by a comma, up to `}`.
#[verifier::opaque]
pub open spec fn arms_s(inp: PInput, s: PState, acc: Seq<(PatternV, Seq<(StmtV, Span)>)>) -> (Seq<(PatternV, Seq<(StmtV, Span)>)>, PState)
    decreases 2 * inp.fuel + 1, rem(inp, s), 31int,
{
    if cur(inp, s) == TokenV::RBrace || cur(inp, s) == TokenV::EOF {
        (acc, s)
    } else {
        let (p, s1) = pattern_s(inp, s);
        let s2 = expect_s(inp, s1, TokenV::FatArrow);
        if !not_back(inp, s, s2) {
            (acc, s2)
        } else {
            let (b, s3) = braced_s(inp, s.pos, s2);
            let s4 = skip_comma(inp, s3);
            if forward(inp, s, s4) {
                arms_s(inp, s4, acc.push((p, b)))
            } else {
                (acc.push((p, b)), s4)
            }
        }
    }
}

/// Reading a statement that starts with the name `name` (already read): a
/// declaration `Name var = ...;` or `Name[] var = ...;`, an assignment, a
/// compound assignment, or an expression.
#[verifier::opaque]
pub open spec fn ident_stmt_s(inp: PInput, s: PState, name: Seq<char>) -> (StmtV, PState)
    decreases 2 * inp.fuel + 1, rem(inp, s), 26int,
{
    match cur(inp, s) {
        TokenV::Ident(var) => {
            let ty = if s.enums.contains(name) {
                TyV::Enum(name)
            } else {
                TyV::Struct(name)
            };
            let s2 = expect_s(inp, adv(inp, s), TokenV::Eq);
            let (v, s3) = expr_s(inp, s2);
            (StmtV::VarDecl { ty, name: var, value: v }, expect_s(inp, s3, TokenV::Semicolon))
        },
        _ => if cur(inp, s) == TokenV::LBracket && ahead(inp, s, 1) == TokenV::RBracket && ahead(inp, s, 2) is Ident {
            let s2 = expect_s(inp, expect_s(inp, s, TokenV::LBracket), TokenV::RBracket);
            let (var, s3) = eat_ident_s(inp, s2);
            let s4 = expect_s(inp, s3, TokenV::Eq);
            let (v, s5) = expr_s(inp, s4);
            (
                StmtV::VarDecl { ty: TyV::Array(Box::new(TyV::Struct(name))), name: var, value: v },
                expect_s(inp, s5, TokenV::Semicolon),
            )
        } else {
            let (base, s1) = if cur(inp, s) == TokenV::LParen {
                let (args, s2) = args_s(inp, adv(inp, s), TokenV::RParen, Seq::empty());
                (ExprV::Call { name, args }, expect_s(inp, s2, TokenV::RParen))
            } else {
                (ExprV::Ident(name), s)
            };
            if !not_back(inp, s, s1) {
                (StmtV::ExprStmt(base), s1)
            } else {
                let (e, s4) = postfix_s(inp, s1, base);
                if !not_back(inp, s, s4) {
                    (StmtV::ExprStmt(e), s4)
                } else {
                    assign_tail_s(inp, s4, e)
                }
            }
        },
    }
}

/// What follows the expression `e` that starts a statement: a compound
/// assignment, an assignment (to a variable, an element or a field of one),
/// or nothing (an expression statement, with an optional `;`).
#[verifier::opaque]
pub open spec fn assign_tail_s(inp: PInput, s: PState, e: ExprV) -> (StmtV, PState)
    decreases 2 * inp.fuel + 1, rem(inp, s), 25int,
{
    match compound_op(cur(inp, s)) {
        Some(op) => {
            let (v, s2) = expr_s(inp, adv(inp, s));
            let s3 = expect_s(inp, s2, TokenV::Semicolon);
            match e {
                ExprV::Ident(var) => (StmtV::CompoundAssign { name: var, op, value: v }, s3),
                _ => (
                    StmtV::ExprStmt(ExprV::IntLit(0)),
                    with_err(s3, "Invalid compound assignment target"@ + at_here(inp, s3)),
                ),
            }
        },
        None => if cur(inp, s) == TokenV::Eq {
            let (v, s2) = expr_s(inp, adv(inp, s));
            let s3 = expect_s(inp, s2, TokenV::Semicolon);
            match e {
                ExprV::Ident(var) => (StmtV::Assign { name: var, value: v }, s3),
                ExprV::Index { array, index } => match *array {
                    ExprV::Ident(var) => (StmtV::IndexAssign { name: var, index: *index, value: v }, s3),
                    _ => (
                        StmtV::ExprStmt(ExprV::IntLit(0)),
                        with_err(s3, "Invalid index assignment target"@ + at_here(inp, s3)),
                    ),
                },
                ExprV::FieldAccess { base, field } => match *base {
                    ExprV::Ident(var) => (StmtV::FieldAssign { name: var, field, value: v }, s3),
                    _ => (
                        StmtV::ExprStmt(ExprV::IntLit(0)),
                        with_err(s3, "Invalid field assignment target"@ + at_here(inp, s3)),
                    ),
                },
                _ => (
                    StmtV::ExprStmt(ExprV::IntLit(0)),
                    with_err(s3, "Invalid assignment target"@ + at_here(inp, s3)),
                ),
            }
        } else {
            (StmtV::ExprStmt(e), if cur(inp, s) == TokenV::Semicolon {
                adv(inp, s)
            } else {
                s
            })
        },
    }
}

} // verus!
