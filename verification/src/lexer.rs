//! The tokenizer. `lex` below states, over the characters of the source,
//! which tokens and which error messages the lexer produces.
use vstd::prelude::*;

use crate::ast::{Token, TokenV};
use crate::numfmt::{dec, dec_val, hex_val, push_decimal};
use crate::text::{
    chars_of, chars_eq, is_alphabetic, is_alphanumeric, is_ascii_digit, is_ascii_hexdigit,
    is_whitespace, push_all, push_str, string_of,
};
use crate::numfmt;
use crate::text;

verus! {

// ───────────────────────── positions ─────────────────────────

/// The (1-based) line of position `p` of `s`.
pub open spec fn line_at(s: Seq<char>, p: int) -> int
    decreases p,
{
    if p <= 0 {
        1
    } else if s[p - 1] == '\n' {
        line_at(s, p - 1) + 1
    } else {
        line_at(s, p - 1)
    }
}

/// The (0-based) column of position `p` of `s`.
pub open spec fn col_at(s: Seq<char>, p: int) -> int
    decreases p,
{
    if p <= 0 {
        0
    } else if s[p - 1] == '\n' {
        0
    } else {
        col_at(s, p - 1) + 1
    }
}

pub proof fn lemma_pos_bounds(s: Seq<char>, p: int)
    requires
        0 <= p,
    ensures
        1 <= line_at(s, p) <= p + 1,
        0 <= col_at(s, p) <= p,
    decreases p,
{
    if p > 0 {
        lemma_pos_bounds(s, p - 1);
    }
}

// ───────────────────────── skipping ─────────────────────────

/// The first position at or after `p` that holds a newline, or the end.
pub open spec fn line_end(s: Seq<char>, p: int) -> int
    decreases s.len() - p,
{
    if p >= s.len() || s[p] == '\n' {
        p
    } else {
        line_end(s, p + 1)
    }
}

/// The position after the white space and `//` comments that start at `p`.
pub open spec fn skip_ws(s: Seq<char>, p: int) -> int
    decreases s.len() - p,
{
    if p < s.len() && text::is_white_space(s[p]) {
        skip_ws(s, p + 1)
    } else if p + 1 < s.len() && s[p] == '/' && s[p + 1] == '/' {
        if p < line_end(s, p) <= s.len() {
            skip_ws(s, line_end(s, p))
        } else {
            p
        }
    } else {
        p
    }
}

pub proof fn lemma_line_end(s: Seq<char>, p: int)
    requires
        0 <= p,
    ensures
        p <= line_end(s, p),
        line_end(s, p) <= s.len() || line_end(s, p) == p,
        p < s.len() && s[p] != '\n' ==> line_end(s, p) > p,
    decreases s.len() - p,
{
    if p < s.len() && s[p] != '\n' {
        lemma_line_end(s, p + 1);
    }
}

pub proof fn lemma_skip_ws(s: Seq<char>, p: int)
    requires
        0 <= p <= s.len(),
    ensures
        p <= skip_ws(s, p) <= s.len(),
    decreases s.len() - p,
{
    if p < s.len() && text::is_white_space(s[p]) {
        lemma_skip_ws(s, p + 1);
    } else if p + 1 < s.len() && s[p] == '/' && s[p + 1] == '/' {
        lemma_line_end(s, p);
        if p < line_end(s, p) <= s.len() {
            lemma_skip_ws(s, line_end(s, p));
        }
    }
}

// ───────────────────────── runs ─────────────────────────

/// The end of the run of at most `max` hexadecimal digits that starts at `p`.
pub open spec fn hex_run(s: Seq<char>, p: int, max: nat) -> int
    decreases max,
{
    if max > 0 && 0 <= p < s.len() && text::is_hex_digit(s[p]) {
        hex_run(s, p + 1, (max - 1) as nat)
    } else {
        p
    }
}

/// The end of the run of decimal digits that starts at `p`.
pub open spec fn digit_run(s: Seq<char>, p: int) -> int
    decreases s.len() - p,
{
    if 0 <= p < s.len() && text::is_digit(s[p]) {
        digit_run(s, p + 1)
    } else {
        p
    }
}

/// The end of the run of identifier characters that starts at `p`.
pub open spec fn word_run(s: Seq<char>, p: int) -> int
    decreases s.len() - p,
{
    if 0 <= p < s.len() && text::is_word_char(s[p]) {
        word_run(s, p + 1)
    } else {
        p
    }
}

pub proof fn lemma_hex_run(s: Seq<char>, p: int, max: nat)
    requires
        0 <= p <= s.len(),
    ensures
        p <= hex_run(s, p, max) <= s.len(),
        hex_run(s, p, max) <= p + max,
        forall|i: int| p <= i < hex_run(s, p, max) ==> text::is_hex_digit(#[trigger] s[i]),
    decreases max,
{
    if max > 0 && p < s.len() && text::is_hex_digit(s[p]) {
        lemma_hex_run(s, p + 1, (max - 1) as nat);
    }
}

pub proof fn lemma_digit_run(s: Seq<char>, p: int)
    requires
        0 <= p <= s.len(),
    ensures
        p <= digit_run(s, p) <= s.len(),
        forall|i: int| p <= i < digit_run(s, p) ==> text::is_digit(#[trigger] s[i]),
    decreases s.len() - p,
{
    if p < s.len() && text::is_digit(s[p]) {
        lemma_digit_run(s, p + 1);
    }
}

pub proof fn lemma_word_run(s: Seq<char>, p: int)
    requires
        0 <= p <= s.len(),
    ensures
        p <= word_run(s, p) <= s.len(),
    decreases s.len() - p,
{
    if p < s.len() && text::is_word_char(s[p]) {
        lemma_word_run(s, p + 1);
    }
}

// ───────────────────────── messages ─────────────────────────

/// ` at line <l>:<c>`
pub open spec fn at_pos(l: int, c: int) -> Seq<char> {
    " at line "@ + dec(l as nat) + ":"@ + dec(c as nat)
}

pub open spec fn msg_unexpected(ch: char, l: int, c: int) -> Seq<char> {
    "Unexpected character '"@ + seq![ch] + "'"@ + at_pos(l, c)
}

pub open spec fn msg_lone_amp(l: int, c: int) -> Seq<char> {
    msg_unexpected('&', l, c) + " \u{2014} did you mean '&&'?"@
}

pub open spec fn msg_lone_pipe(l: int, c: int) -> Seq<char> {
    msg_unexpected('|', l, c) + " \u{2014} did you mean '||'?"@
}

pub open spec fn msg_bad_hex(hex: Seq<char>, l: int, c: int) -> Seq<char> {
    "Invalid hex escape '\\x"@ + hex + "'"@ + at_pos(l, c)
}

pub open spec fn msg_bad_codepoint(hex: Seq<char>, l: int, c: int) -> Seq<char> {
    "Invalid unicode codepoint '\\u"@ + hex + "'"@ + at_pos(l, c)
}

pub open spec fn msg_bad_unicode(hex: Seq<char>, l: int, c: int) -> Seq<char> {
    "Invalid unicode escape '\\u"@ + hex + "'"@ + at_pos(l, c)
}

pub open spec fn msg_bad_int(digits: Seq<char>, l: int, c: int) -> Seq<char> {
    "Invalid integer literal '"@ + digits + "' (overflow or bad format)"@ + at_pos(l, c)
}

// ───────────────────────── string literals ─────────────────────────

/// Whether `v` is a Unicode scalar value, a code point that `char` holds.
pub open spec fn is_scalar(v: nat) -> bool {
    v <= 0x10FFFF && !(0xD800 <= v && v <= 0xDFFF)
}

/// The body of a string literal from `p` (after the opening quote): the
/// text read so far is `acc`, the messages so far `errs`. Returns the text,
/// the position after the closing quote (or the end) and the messages.
pub open spec fn scan_str(s: Seq<char>, p: int, acc: Seq<char>, errs: Seq<Seq<char>>) -> (
    Seq<char>,
    int,
    Seq<Seq<char>>,
)
    decreases s.len() - p,
{
    if p < 0 || p >= s.len() {
        (acc, p, errs)
    } else if s[p] == '"' {
        (acc, p + 1, errs)
    } else if s[p] != '\\' {
        scan_str(s, p + 1, acc.push(s[p]), errs)
    } else if p + 1 >= s.len() {
        (acc.push('\\'), p + 1, errs)
    } else {
        let e = s[p + 1];
        let q = p + 2;
        if e == 'n' {
            scan_str(s, q, acc.push('\n'), errs)
        } else if e == 't' {
            scan_str(s, q, acc.push('\t'), errs)
        } else if e == 'r' {
            scan_str(s, q, acc.push('\r'), errs)
        } else if e == '\\' {
            scan_str(s, q, acc.push('\\'), errs)
        } else if e == '"' {
            scan_str(s, q, acc.push('"'), errs)
        } else if e == '0' {
            scan_str(s, q, acc.push('\0'), errs)
        } else if e == 'x' {
            proof {
                lemma_hex_run(s, q, 2);
            }
            let h1 = hex_run(s, q, 2);
            let hex = s.subrange(q, h1);
            if h1 <= q {
                scan_str(
                    s,
                    h1,
                    acc.push('?'),
                    errs.push(msg_bad_hex(hex, line_at(s, h1), col_at(s, h1))),
                )
            } else {
                scan_str(s, h1, acc.push(hex_val(hex) as char), errs)
            }
        } else if e == 'u' {
            let brace = q < s.len() && s[q] == '{';
            let h0 = if brace {
                q + 1
            } else {
                q
            };
            proof {
                lemma_hex_run(s, h0, if brace {
                    6
                } else {
                    4
                });
            }
            let h1 = hex_run(s, h0, if brace {
                6
            } else {
                4
            });
            let e1 = if brace && h1 < s.len() && s[h1] == '}' {
                h1 + 1
            } else {
                h1
            };
            let hex = s.subrange(h0, h1);
            if e1 <= p {
                (acc, p, errs)
            } else if h1 <= h0 {
                scan_str(
                    s,
                    e1,
                    acc.push('\u{FFFD}'),
                    errs.push(msg_bad_unicode(hex, line_at(s, e1), col_at(s, e1))),
                )
            } else if is_scalar(hex_val(hex)) {
                scan_str(s, e1, acc.push(hex_val(hex) as char), errs)
            } else {
                scan_str(
                    s,
                    e1,
                    acc.push('\u{FFFD}'),
                    errs.push(msg_bad_codepoint(hex, line_at(s, e1), col_at(s, e1))),
                )
            }
        } else {
            scan_str(s, q, acc.push('\\').push(e), errs)
        }
    }
}

pub proof fn lemma_scan_str_end(s: Seq<char>, p: int, acc: Seq<char>, errs: Seq<Seq<char>>)
    requires
        0 <= p,
    ensures
        scan_str(s, p, acc, errs).1 >= p,
    decreases s.len() - p,
{
    if p < s.len() && s[p] != '"' {
        if s[p] != '\\' {
            lemma_scan_str_end(s, p + 1, acc.push(s[p]), errs);
        } else if p + 1 < s.len() {
            let e = s[p + 1];
            let q = p + 2;
            if e == 'x' {
                lemma_hex_run(s, q, 2);
                let h1 = hex_run(s, q, 2);
                let hex = s.subrange(q, h1);
                if h1 <= q {
                    lemma_scan_str_end(s, h1, acc.push('?'), errs.push(msg_bad_hex(hex, line_at(s, h1), col_at(s, h1))));
                } else {
                    lemma_scan_str_end(s, h1, acc.push(hex_val(hex) as char), errs);
                }
            } else if e == 'u' {
                let brace = q < s.len() && s[q] == '{';
                let h0 = if brace { q + 1 } else { q };
                lemma_hex_run(s, h0, if brace { 6 } else { 4 });
                let h1 = hex_run(s, h0, if brace { 6 } else { 4 });
                let e1 = if brace && h1 < s.len() && s[h1] == '}' { h1 + 1 } else { h1 };
                let hex = s.subrange(h0, h1);
                if h1 <= h0 {
                    lemma_scan_str_end(s, e1, acc.push('\u{FFFD}'), errs.push(msg_bad_unicode(hex, line_at(s, e1), col_at(s, e1))));
                } else if is_scalar(hex_val(hex)) {
                    lemma_scan_str_end(s, e1, acc.push(hex_val(hex) as char), errs);
                } else {
                    lemma_scan_str_end(s, e1, acc.push('\u{FFFD}'), errs.push(msg_bad_codepoint(hex, line_at(s, e1), col_at(s, e1))));
                }
            } else if e == 'n' {
                lemma_scan_str_end(s, q, acc.push('\n'), errs);
            } else if e == 't' {
                lemma_scan_str_end(s, q, acc.push('\t'), errs);
            } else if e == 'r' {
                lemma_scan_str_end(s, q, acc.push('\r'), errs);
            } else if e == '\\' {
                lemma_scan_str_end(s, q, acc.push('\\'), errs);
            } else if e == '"' {
                lemma_scan_str_end(s, q, acc.push('"'), errs);
            } else if e == '0' {
                lemma_scan_str_end(s, q, acc.push('\0'), errs);
            } else {
                lemma_scan_str_end(s, q, acc.push('\\').push(e), errs);
            }
        }
    }
}

/// How one character is written inside a string literal: `\` and `"` with
/// a `\` before them, a newline, tab, carriage return and NUL as `\n`,
/// `\t`, `\r` and `\0`, every other character as it is.
pub open spec fn escape_char(c: char) -> Seq<char> {
    if c == '\\' || c == '"' {
        seq!['\\', c]
    } else if c == '\n' {
        seq!['\\', 'n']
    } else if c == '\t' {
        seq!['\\', 't']
    } else if c == '\r' {
        seq!['\\', 'r']
    } else if c == '\0' {
        seq!['\\', '0']
    } else {
        seq![c]
    }
}

/// The text `t` written as the body of a string literal, character by
/// character (see `escape_char`).
pub open spec fn escaped(t: Seq<char>) -> Seq<char>
    decreases t.len(),
{
    if t.len() == 0 {
        Seq::empty()
    } else {
        escape_char(t[0]) + escaped(t.drop_first())
    }
}

/// Law: a string literal body written by `escaped` is read back as the
/// text it was written from, up to and past the closing quote, with no
/// message: `\\` gives one backslash, `\"` one quote, `\n` one newline.
pub proof fn lemma_scan_str_escaped(s: Seq<char>, p: int, t: Seq<char>, acc: Seq<char>, errs: Seq<Seq<char>>)
    requires
        0 <= p,
        p + escaped(t).len() < s.len(),
        s.subrange(p, p + escaped(t).len()) == escaped(t),
        s[p + escaped(t).len()] == '"',
    ensures
        scan_str(s, p, acc, errs) == (acc + t, p + escaped(t).len() + 1, errs),
    decreases t.len(),
{
    if t.len() == 0 {
        assert(acc + t =~= acc);
    } else {
        let c = t[0];
        let tail = t.drop_first();
        let head = escape_char(c);
        assert(escaped(t) == head + escaped(tail));
        let n = head.len() as int;
        assert(s[p] == escaped(t)[0]);
        if n == 2 {
            assert(s[p + 1] == escaped(t)[1]);
        }
        assert(s.subrange(p + n, p + n + escaped(tail).len()) =~= escaped(tail)) by {
            assert forall|k: int| 0 <= k < escaped(tail).len() implies s[p + n + k] == escaped(tail)[k] by {
                assert(s.subrange(p, p + escaped(t).len())[n + k] == escaped(t)[n + k]);
            }
        }
        lemma_scan_str_escaped(s, p + n, tail, acc.push(c), errs);
        assert(acc.push(c) + tail =~= acc + t);
    }
}

/// Law: where the source holds a string literal, its token holds the text
/// it was written from (see `escaped` and `lemma_scan_str_escaped`).
pub proof fn lemma_lex_string_literal(t: Seq<char>, rest: Seq<char>)
    ensures
        ({
            let s = seq!['"'] + escaped(t) + seq!['"'] + rest;
            lex(s, 0).0.len() > 0 && lex(s, 0).0[0].0 == TokenV::StringLit(t)
        }),
{
    let s = seq!['"'] + escaped(t) + seq!['"'] + rest;
    let n = escaped(t).len() as int;
    assert(s[0] == '"');
    assert(skip_ws(s, 0) == 0);
    assert(s.subrange(1, 1 + n) =~= escaped(t));
    assert(s[1 + n] == '"');
    lemma_scan_str_escaped(s, 1, t, Seq::empty(), Seq::empty());
    assert(Seq::<char>::empty() + t =~= t);
    assert(scan(s, 0) == (Some(TokenV::StringLit(t)), n + 2, Seq::<Seq<char>>::empty()));
}

// ───────────────────────── tokens ─────────────────────────

/// The token of an identifier-like word: a keyword, or `Ident(w)`.
pub open spec fn word_token(w: Seq<char>) -> TokenV {
    if w == "main"@ {
        TokenV::Main
    } else if w == "fn"@ {
        TokenV::Function
    } else if w == "Vault"@ || w == "vault"@ {
        TokenV::Vault
    } else if w == "Kill"@ || w == "kill"@ {
        TokenV::Kill
    } else if w == "Exit"@ || w == "exit"@ {
        TokenV::Exit
    } else if w == "yield"@ {
        TokenV::Yield
    } else if w == "return"@ {
        TokenV::Return
    } else if w == "if"@ {
        TokenV::If
    } else if w == "else"@ {
        TokenV::Else
    } else if w == "loop"@ {
        TokenV::Loop
    } else if w == "while"@ {
        TokenV::While
    } else if w == "for"@ {
        TokenV::For
    } else if w == "in"@ {
        TokenV::In
    } else if w == "break"@ {
        TokenV::Break
    } else if w == "true"@ {
        TokenV::True
    } else if w == "false"@ {
        TokenV::False
    } else if w == "free"@ {
        TokenV::Free
    } else if w == "print"@ {
        TokenV::Print
    } else if w == "as"@ {
        TokenV::As
    } else if w == "struct"@ {
        TokenV::Struct
    } else if w == "auto"@ {
        TokenV::Auto
    } else if w == "assert"@ {
        TokenV::Assert
    } else if w == "int"@ {
        TokenV::Int
    } else if w == "float"@ {
        TokenV::Float
    } else if w == "string"@ {
        TokenV::String
    } else if w == "bool"@ {
        TokenV::Bool
    } else if w == "i8"@ {
        TokenV::TyI8
    } else if w == "i16"@ {
        TokenV::TyI16
    } else if w == "i32"@ {
        TokenV::TyI32
    } else if w == "i64"@ {
        TokenV::TyI64
    } else if w == "u8"@ {
        TokenV::TyU8
    } else if w == "u16"@ {
        TokenV::TyU16
    } else if w == "u32"@ {
        TokenV::TyU32
    } else if w == "u64"@ {
        TokenV::TyU64
    } else {
        TokenV::Ident(w)
    }
}

/// A one-character token, or a two-character one when the second character
/// is `second`.
pub open spec fn one_or_two(s: Seq<char>, p: int, second: char, two: TokenV, one: TokenV) -> (
    Option<TokenV>,
    int,
    Seq<Seq<char>>,
) {
    if p + 1 < s.len() && s[p + 1] == second {
        (Some(two), p + 2, Seq::empty())
    } else {
        (Some(one), p + 1, Seq::empty())
    }
}

/// The number literal that starts at `p` (a digit).
pub open spec fn scan_number(s: Seq<char>, p: int) -> (Option<TokenV>, int, Seq<Seq<char>>) {
    let d = digit_run(s, p);
    if d < s.len() && s[d] == '.' && !(d + 1 < s.len() && s[d + 1] == '.') {
        let f = digit_run(s, d + 1);
        (Some(TokenV::FloatLit(s.subrange(p, f))), f, Seq::empty())
    } else {
        let digits = s.subrange(p, d);
        if dec_val(digits) <= i64::MAX {
            (Some(TokenV::IntLit(dec_val(digits) as i64)), d, Seq::empty())
        } else {
            (
                Some(TokenV::IntLit(0)),
                d,
                seq![msg_bad_int(digits, line_at(s, d), col_at(s, d))],
            )
        }
    }
}

/// What the lexer does at `p`, a position inside `s` that holds neither
/// white space nor the start of a comment: the token (if any), the position
/// after it, and the messages.
pub open spec fn scan(s: Seq<char>, p: int) -> (Option<TokenV>, int, Seq<Seq<char>>) {
    let c = s[p];
    let l = line_at(s, p);
    let col = col_at(s, p);
    if c == '@' {
        (Some(TokenV::At), p + 1, Seq::empty())
    } else if c == '#' {
        (Some(TokenV::Hash), p + 1, Seq::empty())
    } else if c == '(' {
        (Some(TokenV::LParen), p + 1, Seq::empty())
    } else if c == ')' {
        (Some(TokenV::RParen), p + 1, Seq::empty())
    } else if c == '{' {
        (Some(TokenV::LBrace), p + 1, Seq::empty())
    } else if c == '}' {
        (Some(TokenV::RBrace), p + 1, Seq::empty())
    } else if c == '[' {
        (Some(TokenV::LBracket), p + 1, Seq::empty())
    } else if c == ']' {
        (Some(TokenV::RBracket), p + 1, Seq::empty())
    } else if c == ';' {
        (Some(TokenV::Semicolon), p + 1, Seq::empty())
    } else if c == ',' {
        (Some(TokenV::Comma), p + 1, Seq::empty())
    } else if c == ':' {
        (Some(TokenV::Colon), p + 1, Seq::empty())
    } else if c == '+' {
        one_or_two(s, p, '=', TokenV::PlusEq, TokenV::Plus)
    } else if c == '*' {
        one_or_two(s, p, '=', TokenV::StarEq, TokenV::Star)
    } else if c == '%' {
        one_or_two(s, p, '=', TokenV::PercentEq, TokenV::Percent)
    } else if c == '!' {
        one_or_two(s, p, '=', TokenV::Neq, TokenV::Not)
    } else if c == '<' {
        one_or_two(s, p, '=', TokenV::Le, TokenV::Lt)
    } else if c == '>' {
        one_or_two(s, p, '=', TokenV::Ge, TokenV::Gt)
    } else if c == '=' {
        one_or_two(s, p, '=', TokenV::EqEq, TokenV::Eq)
    } else if c == '&' {
        if p + 1 < s.len() && s[p + 1] == '&' {
            (Some(TokenV::And), p + 2, Seq::empty())
        } else {
            (None, p + 1, seq![msg_lone_amp(l, col)])
        }
    } else if c == '|' {
        if p + 1 < s.len() && s[p + 1] == '|' {
            (Some(TokenV::Or), p + 2, Seq::empty())
        } else {
            (None, p + 1, seq![msg_lone_pipe(l, col)])
        }
    } else if c == '-' {
        if p + 1 < s.len() && s[p + 1] == '>' {
            (Some(TokenV::Arrow), p + 2, Seq::empty())
        } else {
            one_or_two(s, p, '=', TokenV::MinusEq, TokenV::Minus)
        }
    } else if c == '/' {
        one_or_two(s, p, '=', TokenV::SlashEq, TokenV::Slash)
    } else if c == '.' {
        one_or_two(s, p, '.', TokenV::DotDot, TokenV::Dot)
    } else if c == '"' {
        let r = scan_str(s, p + 1, Seq::empty(), Seq::empty());
        (Some(TokenV::StringLit(r.0)), r.1, r.2)
    } else if text::is_digit(c) {
        scan_number(s, p)
    } else if text::unicode_alphabetic(c) || c == '_' {
        let e = word_run(s, p);
        (Some(word_token(s.subrange(p, e))), e, Seq::empty())
    } else {
        (None, p + 1, seq![msg_unexpected(c, l, col)])
    }
}

/// The tokens (each with its line and column) and the messages of the
/// lexer from position `p` to the end; the last token is `EOF`.
pub open spec fn lex(s: Seq<char>, p: int) -> (Seq<(TokenV, int, int)>, Seq<Seq<char>>)
    decreases s.len() - p,
{
    let q = skip_ws(s, p);
    if q < p || q >= s.len() {
        (seq![(TokenV::EOF, line_at(s, q), col_at(s, q))], Seq::empty())
    } else {
        let r = scan(s, q);
        if r.1 <= q || r.1 > s.len() {
            (Seq::empty(), Seq::empty())
        } else {
            let rest = lex(s, r.1);
            (
                match r.0 {
                    Some(t) => seq![(t, line_at(s, q), col_at(s, q))] + rest.0,
                    None => rest.0,
                },
                r.2 + rest.1,
            )
        }
    }
}

/// The view of a token with its line and column.
pub open spec fn spanned_view(t: (Token, usize, usize)) -> (TokenV, int, int) {
    (t.0@, t.1 as int, t.2 as int)
}

/// The views of a list of tokens with their lines and columns.
pub open spec fn tokens_view(v: Seq<(Token, usize, usize)>) -> Seq<(TokenV, int, int)> {
    v.map_values(|t: (Token, usize, usize)| spanned_view(t))
}

/// The texts of a list of messages.
pub open spec fn msgs_view(v: Seq<String>) -> Seq<Seq<char>> {
    v.map_values(|m: String| m@)
}

// ───────────────────────── wrappers of std ─────────────────────────

/// Calls `char::from_u32`: `Some` exactly for the Unicode scalar values,
/// with that code point.
#[verifier::external_body]
fn char_from_u32(v: u32) -> (r: Option<char>)
    ensures
        r is Some <==> is_scalar(v as nat),
        r matches Some(c) ==> c as int == v as int,
{
    char::from_u32(v)
}

// ───────────────────────── the lexer ─────────────────────────

/// Turns source text into tokens with their lines and columns, collecting a
/// message for each character it cannot use.
pub struct Lexer {
    input: Vec<char>,
    pos: usize,
    line: usize,
    col: usize,
    pub errors: Vec<String>,
}

impl Lexer {
    /// The characters of the source.
    pub closed spec fn input(&self) -> Seq<char> {
        self.input@
    }

    /// The position of the lexer in its source.
    pub closed spec fn pos(&self) -> int {
        self.pos as int
    }

    /// The texts of the messages in `errors`.
    pub closed spec fn messages(&self) -> Seq<Seq<char>> {
        msgs_view(self.errors@)
    }

    /// The position is inside the source, and the line and column are those
    /// of the position.
    pub closed spec fn wf(&self) -> bool {
        &&& self.pos <= self.input@.len()
        &&& self.input@.len() < usize::MAX
        &&& self.line == line_at(self.input@, self.pos as int)
        &&& self.col == col_at(self.input@, self.pos as int)
    }

    /// A lexer at the start of `source`, with no message.
    pub fn new(source: &str) -> (r: Self)
        requires
            source@.len() < usize::MAX,
        ensures
            r.wf(),
            r.input() == source@,
            r.pos() == 0,
            r.messages().len() == 0,
    {
        Lexer { input: chars_of(source), pos: 0, line: 1, col: 0, errors: Vec::new() }
    }

    fn current(&self) -> (r: Option<char>)
        ensures
            r == if self.pos < self.input@.len() {
                Some(self.input@[self.pos as int])
            } else {
                None::<char>
            },
    {
        if self.pos < self.input.len() {
            Some(self.input[self.pos])
        } else {
            None
        }
    }

    /// The character after the current one, if any.
    fn peek_next(&self) -> (r: Option<char>)
        requires
            self.wf(),
        ensures
            r == if self.pos + 1 < self.input@.len() {
                Some(self.input@[self.pos + 1])
            } else {
                None::<char>
            },
    {
        if self.pos + 1 < self.input.len() {
            Some(self.input[self.pos + 1])
        } else {
            None
        }
    }

    fn advance(&mut self) -> (r: Option<char>)
        requires
            old(self).wf(),
            old(self).pos < old(self).input@.len(),
        ensures
            final(self).wf(),
            final(self).input@ == old(self).input@,
            final(self).errors == old(self).errors,
            final(self).pos == old(self).pos + 1,
            r == Some(old(self).input@[old(self).pos as int]),
    {
        let ch = self.input[self.pos];
        proof {
            lemma_pos_bounds(self.input@, self.pos as int);
        }
        self.pos = self.pos + 1;
        if ch == '\n' {
            self.line = self.line + 1;
            self.col = 0;
        } else {
            self.col = self.col + 1;
        }
        Some(ch)
    }

    fn skip_whitespace_and_comments(&mut self)
        requires
            old(self).wf(),
        ensures
            final(self).wf(),
            final(self).input@ == old(self).input@,
            final(self).errors == old(self).errors,
            final(self).pos == skip_ws(old(self).input@, old(self).pos as int),
    {
        let ghost s = self.input@;
        loop
            invariant
                self.wf(),
                self.input@ == s,
                s == old(self).input@,
                self.errors == old(self).errors,
                skip_ws(s, self.pos as int) == skip_ws(s, old(self).pos as int),
            decreases s.len() - self.pos,
        {
            let ghost iter_start = self.pos as int;
            while self.pos < self.input.len() && is_whitespace(self.input[self.pos])
                invariant
                    self.wf(),
                    self.input@ == s,
                    s == old(self).input@,
                    iter_start <= self.pos,
                    self.errors == old(self).errors,
                    skip_ws(s, self.pos as int) == skip_ws(s, old(self).pos as int),
                decreases s.len() - self.pos,
            {
                self.advance();
            }
            if self.pos + 1 < self.input.len() && self.input[self.pos] == '/' && self.input[self.pos
                + 1] == '/' {
                let ghost start = self.pos as int;
                proof {
                    lemma_line_end(s, start);
                }
                while self.pos < self.input.len() && self.input[self.pos] != '\n'
                    invariant
                        self.wf(),
                        self.input@ == s,
                        s == old(self).input@,
                        self.errors == old(self).errors,
                        start <= self.pos,
                        line_end(s, self.pos as int) == line_end(s, start),
                    decreases s.len() - self.pos,
                {
                    self.advance();
                }
                proof {
                    assert(line_end(s, start) == self.pos);
                    assert(line_end(s, start) > start);
                    assert(skip_ws(s, start) == skip_ws(s, self.pos as int));
                }
            } else {
                return;
            }
        }
    }

    /// Reads up to `max` hexadecimal digits.
    fn read_hex(&mut self, max: usize, hex: &mut Vec<char>)
        requires
            old(self).wf(),
        ensures
            final(self).wf(),
            final(self).input@ == old(self).input@,
            final(self).errors == old(self).errors,
            final(self).pos == hex_run(old(self).input@, old(self).pos as int, max as nat),
            final(hex)@ == old(hex)@ + old(self).input@.subrange(
                old(self).pos as int,
                final(self).pos as int,
            ),
    {
        let ghost s = self.input@;
        let ghost p0 = self.pos as int;
        let ghost h0 = hex@;
        let mut k: usize = 0;
        while k < max && self.pos < self.input.len() && is_ascii_hexdigit(self.input[self.pos])
            invariant
                self.wf(),
                self.input@ == s,
                s == old(self).input@,
                p0 == old(self).pos,
                h0 == old(hex)@,
                self.errors == old(self).errors,
                k <= max,
                p0 <= self.pos,
                hex_run(s, self.pos as int, (max - k) as nat) == hex_run(s, p0, max as nat),
                hex@ == h0 + s.subrange(p0, self.pos as int),
            decreases max - k,
        {
            let c = self.input[self.pos];
            hex.push(c);
            self.advance();
            proof {
                assert(s.subrange(p0, self.pos as int) =~= s.subrange(p0, self.pos - 1).push(c));
            }
            k = k + 1;
        }
    }

    /// Appends ` at line <line>:<col>` for the current position.
    fn push_at_pos(&self, m: &mut Vec<char>)
        requires
            self.wf(),
        ensures
            final(m)@ == old(m)@ + at_pos(line_at(self.input@, self.pos as int), col_at(self.input@, self.pos as int)),
    {
        push_str(m, " at line ");
        push_decimal(m, self.line as u128);
        push_str(m, ":");
        push_decimal(m, self.col as u128);
        assert(m@ =~= old(m)@ + at_pos(line_at(self.input@, self.pos as int), col_at(self.input@, self.pos as int)));
    }

    fn read_string(&mut self) -> (tok: Token)
        requires
            old(self).wf(),
            old(self).pos < old(self).input@.len(),
            old(self).input@[old(self).pos as int] == '"',
        ensures
            final(self).pos > old(self).pos,
            final(self).wf(),
            final(self).input@ == old(self).input@,
            ({
                let r = scan_str(old(self).input@, old(self).pos + 1, Seq::empty(), Seq::empty());
                &&& tok@ == TokenV::StringLit(r.0)
                &&& final(self).pos == r.1
                &&& msgs_view(final(self).errors@) == msgs_view(old(self).errors@) + r.2
            }),
    {
        let ghost s = self.input@;
        let ghost p0 = self.pos as int;
        let ghost e0 = msgs_view(self.errors@);
        self.advance();
        let mut out: Vec<char> = Vec::new();
        proof {
            assert(msgs_view(self.errors@) =~= e0 + Seq::<Seq<char>>::empty());
            assert(msgs_view(self.errors@).skip(e0.len() as int) =~= Seq::<Seq<char>>::empty());
            assert(msgs_view(self.errors@).take(e0.len() as int) =~= e0);
            assert(out@ =~= Seq::<char>::empty());
        }
        loop
            invariant
                self.wf(),
                self.input@ == s,
                s == old(self).input@,
                p0 == old(self).pos,
                e0 == msgs_view(old(self).errors@),
                p0 < self.pos,
                scan_str(s, self.pos as int, out@, msgs_view(self.errors@).skip(e0.len() as int))
                    == scan_str(s, p0 + 1, Seq::empty(), Seq::empty()),
                msgs_view(self.errors@).len() >= e0.len(),
                msgs_view(self.errors@).take(e0.len() as int) == e0,
            decreases s.len() - self.pos,
        {
            let ghost errs = msgs_view(self.errors@).skip(e0.len() as int);
            let ghost p_it = self.pos as int;
            let ghost out_it = out@;
            proof {
                assert(msgs_view(self.errors@) =~= e0 + errs);
            }
            let ch = match self.current() {
                Some(c) => c,
                None => {
                    return Token::StringLit(string_of(out.as_slice()));
                },
            };
            if ch == '"' {
                self.advance();
                return Token::StringLit(string_of(out.as_slice()));
            }
            if ch != '\\' {
                out.push(ch);
                self.advance();
                proof {
                    assert(scan_str(s, p_it, out_it, errs) == scan_str(s, self.pos as int, out@, errs));
                }
                continue ;
            }
            self.advance();
            let e = match self.current() {
                Some(c) => c,
                None => {
                    out.push('\\');
                    return Token::StringLit(string_of(out.as_slice()));
                },
            };
            if e == 'n' {
                out.push('\n');
                self.advance();
            } else if e == 't' {
                out.push('\t');
                self.advance();
            } else if e == 'r' {
                out.push('\r');
                self.advance();
            } else if e == '\\' {
                out.push('\\');
                self.advance();
            } else if e == '"' {
                out.push('"');
                self.advance();
            } else if e == '0' {
                out.push('\0');
                self.advance();
            } else if e == 'x' {
                self.advance();
                let ghost q = self.pos as int;
                let mut hex: Vec<char> = Vec::new();
                self.read_hex(2, &mut hex);
                proof {
                    assert(hex@ =~= s.subrange(q, self.pos as int));
                    lemma_hex_run(s, q, 2);
                }
                if hex.len() > 0 {
                    let v = self.hex_value(&hex);
                    match char_from_u32(v) {
                        Some(c) => {
                            out.push(c);
                            proof {
                                reveal_with_fuel(pow16, 3);
                                assert(hex_val(hex@) < 256);
                                assert(c == (hex_val(hex@) as char));
                                assert(scan_str(s, p_it, out_it, errs) == scan_str(s, self.pos as int, out@, errs));
                            }
                        },
                        None => {
                            out.push('?');
                            proof {
                                reveal_with_fuel(pow16, 3);
                                assert(is_scalar(v as nat));
                            }
                        },
                    }
                } else {
                    let mut m: Vec<char> = Vec::new();
                    push_str(&mut m, "Invalid hex escape '\\x");
                    push_all(&mut m, hex.as_slice());
                    push_str(&mut m, "'");
                    self.push_at_pos(&mut m);
                    let ghost before = self.errors@;
                    self.errors.push(string_of(m.as_slice()));
                    out.push('?');
                    proof {
                        assert(m@ =~= msg_bad_hex(hex@, line_at(s, self.pos as int), col_at(s, self.pos as int)));
                        assert(msgs_view(self.errors@) =~= msgs_view(before).push(m@));
                        assert(msgs_view(self.errors@).skip(e0.len() as int) =~= errs.push(m@));
                        assert(scan_str(s, p_it, out_it, errs) == scan_str(s, self.pos as int, out@, errs.push(m@)));
                    }
                }
            } else if e == 'u' {
                self.advance();
                let ghost q = self.pos as int;
                let brace = self.current() == Some('{');
                if brace {
                    self.advance();
                }
                let ghost h0 = self.pos as int;
                let mut hex: Vec<char> = Vec::new();
                let limit: usize = if brace {
                    6
                } else {
                    4
                };
                self.read_hex(limit, &mut hex);
                proof {
                    assert(hex@ =~= s.subrange(h0, self.pos as int));
                    lemma_hex_run(s, h0, limit as nat);
                }
                let ghost h1 = self.pos as int;
                if brace {
                    if self.current() == Some('}') {
                        self.advance();
                    }
                }
                if hex.len() == 0 {
                    let mut m: Vec<char> = Vec::new();
                    push_str(&mut m, "Invalid unicode escape '\\u");
                    push_all(&mut m, hex.as_slice());
                    push_str(&mut m, "'");
                    self.push_at_pos(&mut m);
                    let ghost before = self.errors@;
                    self.errors.push(string_of(m.as_slice()));
                    out.push('\u{FFFD}');
                    proof {
                        assert(m@ =~= msg_bad_unicode(hex@, line_at(s, self.pos as int), col_at(s, self.pos as int)));
                        assert(msgs_view(self.errors@) =~= msgs_view(before).push(m@));
                        assert(msgs_view(self.errors@).skip(e0.len() as int) =~= errs.push(m@));
                    }
                } else {
                    let v = self.hex_value(&hex);
                    match char_from_u32(v) {
                        Some(c) => {
                            out.push(c);
                        },
                        None => {
                            let mut m: Vec<char> = Vec::new();
                            push_str(&mut m, "Invalid unicode codepoint '\\u");
                            push_all(&mut m, hex.as_slice());
                            push_str(&mut m, "'");
                            self.push_at_pos(&mut m);
                            let ghost before = self.errors@;
                            self.errors.push(string_of(m.as_slice()));
                            out.push('\u{FFFD}');
                            proof {
                                assert(m@ =~= msg_bad_codepoint(hex@, line_at(s, self.pos as int), col_at(s, self.pos as int)));
                                assert(msgs_view(self.errors@) =~= msgs_view(before).push(m@));
                                assert(msgs_view(self.errors@).skip(e0.len() as int) =~= errs.push(m@));
                            }
                        },
                    }
                }
            } else {
                out.push('\\');
                out.push(e);
                self.advance();
            }
            proof {
                let errs2 = msgs_view(self.errors@).skip(e0.len() as int);
                assert(scan_str(s, p_it, out_it, errs) == scan_str(s, self.pos as int, out@, errs2));
                assert(msgs_view(self.errors@).take(e0.len() as int) =~= e0);
            }
        }
    }

    /// The value of at most six hexadecimal digits.
    fn hex_value(&self, hex: &Vec<char>) -> (v: u32)
        requires
            hex@.len() <= 6,
            forall|i: int| 0 <= i < hex@.len() ==> text::is_hex_digit(#[trigger] hex@[i]),
        ensures
            v as nat == hex_val(hex@),
            v < pow16(hex@.len()),
    {
        let mut v: u32 = 0;
        let mut i: usize = 0;
        while i < hex.len()
            invariant
                i <= hex@.len(),
                hex@.len() <= 6,
                i < hex@.len() ==> i <= 5,
                forall|j: int| 0 <= j < hex@.len() ==> text::is_hex_digit(#[trigger] hex@[j]),
                v as nat == hex_val(hex@.take(i as int)),
                v < pow16(i as nat),
            decreases hex@.len() - i,
        {
            let c = hex[i];
            let d: u32 = if '0' <= c && c <= '9' {
                (c as u32) - ('0' as u32)
            } else if 'a' <= c && c <= 'f' {
                (c as u32) - ('a' as u32) + 10
            } else {
                (c as u32) - ('A' as u32) + 10
            };
            proof {
                assert(text::is_hex_digit(hex@[i as int]));
                assert(d as nat == numfmt::hex_digit_val(c));
                assert(d < 16);
                lemma_pow16_le(i as nat);
                assert(hex@.take(i + 1).drop_last() =~= hex@.take(i as int));
                assert(v * 16 + d < pow16((i + 1) as nat)) by (nonlinear_arith)
                    requires
                        v < pow16(i as nat),
                        d < 16,
                        pow16((i + 1) as nat) == pow16(i as nat) * 16,
                {}
            }
            v = v * 16 + d;
            i = i + 1;
        }
        proof {
            assert(hex@.take(hex@.len() as int) =~= hex@);
        }
        v
    }

    fn read_number(&mut self) -> (tok: Token)
        requires
            old(self).wf(),
            old(self).pos < old(self).input@.len(),
            text::is_digit(old(self).input@[old(self).pos as int]),
        ensures
            final(self).pos > old(self).pos,
            final(self).wf(),
            final(self).input@ == old(self).input@,
            ({
                let r = scan_number(old(self).input@, old(self).pos as int);
                &&& Some(tok@) == r.0
                &&& final(self).pos == r.1
                &&& msgs_view(final(self).errors@) == msgs_view(old(self).errors@) + r.2
            }),
    {
        let ghost s = self.input@;
        let ghost p0 = self.pos as int;
        let mut digits: Vec<char> = Vec::new();
        let mut value: i64 = 0;
        let mut overflow = false;
        proof {
            lemma_digit_run(s, p0);
        }
        while self.pos < self.input.len() && is_ascii_digit(self.input[self.pos])
            invariant
                self.wf(),
                self.input@ == s,
                s == old(self).input@,
                p0 == old(self).pos,
                self.errors == old(self).errors,
                p0 <= self.pos,
                digit_run(s, self.pos as int) == digit_run(s, p0),
                digits@ == s.subrange(p0, self.pos as int),
                value >= 0,
                overflow <==> dec_val(digits@) > i64::MAX,
                !overflow ==> value as nat == dec_val(digits@),
            decreases s.len() - self.pos,
        {
            let c = self.input[self.pos];
            let d: i64 = (c as u32 - '0' as u32) as i64;
            let ghost old_digits = digits@;
            digits.push(c);
            proof {
                assert(digits@.drop_last() =~= old_digits);
                assert(dec_val(digits@) == dec_val(old_digits) * 10 + numfmt::digit_val(c));
                assert(d as nat == numfmt::digit_val(c));
            }
            if !overflow {
                if value <= (i64::MAX - d) / 10 {
                    proof {
                        assert(value * 10 + d <= i64::MAX) by (nonlinear_arith)
                            requires
                                0 <= value <= (i64::MAX - d) / 10,
                                0 <= d < 10,
                        {}
                    }
                    value = value * 10 + d;
                } else {
                    proof {
                        assert(value * 10 + d > i64::MAX) by (nonlinear_arith)
                            requires
                                value > (i64::MAX - d) / 10,
                                0 <= d < 10,
                        {}
                    }
                    overflow = true;
                }
            } else {
                proof {
                    assert(dec_val(old_digits) * 10 + numfmt::digit_val(c) > i64::MAX) by (nonlinear_arith)
                        requires
                            dec_val(old_digits) > i64::MAX,
                    {}
                }
            }
            self.advance();
        }
        let ghost d_end = self.pos as int;
        let is_float = match self.current() {
            Some(c) => c == '.' && self.peek_next() != Some('.'),
            None => false,
        };
        if is_float {
            let mut text: Vec<char> = digits;
            text.push('.');
            self.advance();
            proof {
                lemma_digit_run(s, d_end + 1);
            }
            while self.pos < self.input.len() && is_ascii_digit(self.input[self.pos])
                invariant
                    self.wf(),
                    self.input@ == s,
                    s == old(self).input@,
                    p0 == old(self).pos,
                    p0 <= d_end,
                    self.errors == old(self).errors,
                    d_end + 1 <= self.pos,
                    digit_run(s, self.pos as int) == digit_run(s, d_end + 1),
                    text@ == s.subrange(p0, self.pos as int),
                decreases s.len() - self.pos,
            {
                let c = self.input[self.pos];
                text.push(c);
                self.advance();
                proof {
                    assert(text@ =~= s.subrange(p0, self.pos as int));
                }
            }
            Token::FloatLit(string_of(text.as_slice()))
        } else if overflow {
            let mut m: Vec<char> = Vec::new();
            push_str(&mut m, "Invalid integer literal '");
            push_all(&mut m, digits.as_slice());
            push_str(&mut m, "' (overflow or bad format)");
            self.push_at_pos(&mut m);
            let ghost before = self.errors@;
            self.errors.push(string_of(m.as_slice()));
            proof {
                assert(m@ =~= msg_bad_int(digits@, line_at(s, self.pos as int), col_at(s, self.pos as int)));
                assert(msgs_view(self.errors@) =~= msgs_view(before) + seq![m@]);
            }
            Token::IntLit(0)
        } else {
            proof {
                assert(msgs_view(self.errors@) =~= msgs_view(old(self).errors@) + Seq::<Seq<char>>::empty());
            }
            Token::IntLit(value)
        }
    }

    fn read_ident(&mut self) -> (tok: Token)
        requires
            old(self).wf(),
            old(self).pos < old(self).input@.len(),
            text::is_word_char(old(self).input@[old(self).pos as int]),
        ensures
            final(self).pos > old(self).pos,
            final(self).wf(),
            final(self).input@ == old(self).input@,
            final(self).errors == old(self).errors,
            final(self).pos == word_run(old(self).input@, old(self).pos as int),
            tok@ == word_token(old(self).input@.subrange(old(self).pos as int, final(self).pos as int)),
    {
        let ghost s = self.input@;
        let ghost p0 = self.pos as int;
        let mut w: Vec<char> = Vec::new();
        while self.pos < self.input.len() && (is_alphanumeric(self.input[self.pos]) || self.input[self.pos] == '_')
            invariant
                self.wf(),
                self.input@ == s,
                s == old(self).input@,
                p0 == old(self).pos,
                self.errors == old(self).errors,
                p0 <= self.pos,
                word_run(s, self.pos as int) == word_run(s, p0),
                w@ == s.subrange(p0, self.pos as int),
            decreases s.len() - self.pos,
        {
            let c = self.input[self.pos];
            w.push(c);
            self.advance();
            proof {
                assert(w@ =~= s.subrange(p0, self.pos as int));
            }
        }
        word_token_of(w)
    }

    /// Splits the rest of the source into tokens, each with the line and
    /// column where it starts, ending with `EOF`; a message for each
    /// character that cannot start a token, and for each bad escape or
    /// integer literal, is added to `errors`.
    pub fn tokenize(&mut self) -> (r: Vec<(Token, usize, usize)>)
        requires
            old(self).wf(),
        ensures
            final(self).wf(),
            final(self).input() == old(self).input(),
            final(self).pos() == old(self).input().len(),
            tokens_view(r@) == lex(
                old(self).input(),
                old(self).pos(),
            ).0,
            final(self).messages() == old(self).messages() + lex(old(self).input(), old(self).pos()).1,
    {
        let ghost s = self.input@;
        let ghost p0 = self.pos as int;
        let ghost e0 = msgs_view(self.errors@);
        let mut tokens: Vec<(Token, usize, usize)> = Vec::new();
        proof {
            assert(tokens_view(tokens@) + lex(s, p0).0 =~= lex(s, p0).0);
            assert(e0 + lex(s, p0).1 =~= e0 + lex(s, p0).1);
        }
        loop
            invariant
                self.wf(),
                self.input@ == s,
                s == old(self).input@,
                p0 == old(self).pos,
                e0 == msgs_view(old(self).errors@),
                p0 <= self.pos,
                tokens_view(tokens@) + lex(s, self.pos as int).0
                    == lex(s, p0).0,
                msgs_view(self.errors@) + lex(s, self.pos as int).1 == e0 + lex(s, p0).1,
            ensures
                self.wf(),
                self.input@ == s,
                self.pos == s.len(),
                tokens_view(tokens@) == lex(s, p0).0,
                msgs_view(self.errors@) == e0 + lex(s, p0).1,
            decreases s.len() - self.pos,
        {
            let ghost before_skip = self.pos as int;
            self.skip_whitespace_and_comments();
            proof {
                lemma_skip_ws(s, before_skip);
            }
            let ghost q = self.pos as int;
            let start_line = self.line;
            let start_col = self.col;
            let ghost old_tokens = tokens_view(tokens@);
            let ghost old_errs = msgs_view(self.errors@);
            let ch = match self.current() {
                None => {
                    tokens.push((Token::EOF, start_line, start_col));
                    proof {
                        assert(lex(s, before_skip).0 == seq![(TokenV::EOF, line_at(s, q), col_at(s, q))]);
                        assert(tokens_view(tokens@) =~= old_tokens.push((TokenV::EOF, line_at(s, q), col_at(s, q))));
                        assert(old_tokens + lex(s, before_skip).0 =~= old_tokens.push((TokenV::EOF, line_at(s, q), col_at(s, q))));
                        assert(lex(s, before_skip).1 == Seq::<Seq<char>>::empty());
                        assert(msgs_view(self.errors@) =~= msgs_view(self.errors@) + Seq::<Seq<char>>::empty());
                    }
                    return tokens;
                },
                Some(c) => c,
            };
            let tok: Option<Token> = self.scan_token(ch);
            let ghost r = scan(s, q);
            proof {
                assert(r.1 > q);
                assert(lex(s, before_skip) == ({
                    let rest = lex(s, r.1);
                    (
                        match r.0 {
                            Some(t) => seq![(t, line_at(s, q), col_at(s, q))] + rest.0,
                            None => rest.0,
                        },
                        r.2 + rest.1,
                    )
                }));
            }
            match tok {
                Some(t) => {
                    tokens.push((t, start_line, start_col));
                    proof {
                        assert(tokens_view(tokens@) =~= old_tokens.push((r.0->0, line_at(s, q), col_at(s, q))));
                        assert(tokens_view(tokens@) + lex(s, self.pos as int).0 =~= old_tokens + lex(s, before_skip).0);
                    }
                },
                None => {},
            }
            proof {
                assert(msgs_view(self.errors@) + lex(s, self.pos as int).1 =~= old_errs + lex(s, before_skip).1);
            }
        }
    }

    /// Reads the token that starts with `ch`, the current character.
    fn scan_token(&mut self, ch: char) -> (tok: Option<Token>)
        requires
            old(self).wf(),
            old(self).pos < old(self).input@.len(),
            old(self).input@[old(self).pos as int] == ch,
        ensures
            final(self).wf(),
            final(self).input@ == old(self).input@,
            ({
                let r = scan(old(self).input@, old(self).pos as int);
                &&& final(self).pos == r.1
                &&& r.1 > old(self).pos
                &&& match tok {
                    Some(t) => r.0 == Some(t@),
                    None => r.0 is None,
                }
                &&& msgs_view(final(self).errors@) == msgs_view(old(self).errors@) + r.2
            }),
    {
        let ghost s = self.input@;
        let ghost p = self.pos as int;
        let start_line = self.line;
        let start_col = self.col;
        proof {
            assert(msgs_view(self.errors@) =~= msgs_view(self.errors@) + Seq::<Seq<char>>::empty());
        }
        if ch == '@' {
            self.advance();
            Some(Token::At)
        } else if ch == '#' {
            self.advance();
            Some(Token::Hash)
        } else if ch == '(' {
            self.advance();
            Some(Token::LParen)
        } else if ch == ')' {
            self.advance();
            Some(Token::RParen)
        } else if ch == '{' {
            self.advance();
            Some(Token::LBrace)
        } else if ch == '}' {
            self.advance();
            Some(Token::RBrace)
        } else if ch == '[' {
            self.advance();
            Some(Token::LBracket)
        } else if ch == ']' {
            self.advance();
            Some(Token::RBracket)
        } else if ch == ';' {
            self.advance();
            Some(Token::Semicolon)
        } else if ch == ',' {
            self.advance();
            Some(Token::Comma)
        } else if ch == ':' {
            self.advance();
            Some(Token::Colon)
        } else if ch == '+' {
            Some(self.one_or_two('=', Token::PlusEq, Token::Plus))
        } else if ch == '*' {
            Some(self.one_or_two('=', Token::StarEq, Token::Star))
        } else if ch == '%' {
            Some(self.one_or_two('=', Token::PercentEq, Token::Percent))
        } else if ch == '!' {
            Some(self.one_or_two('=', Token::Neq, Token::Not))
        } else if ch == '<' {
            Some(self.one_or_two('=', Token::Le, Token::Lt))
        } else if ch == '>' {
            Some(self.one_or_two('=', Token::Ge, Token::Gt))
        } else if ch == '=' {
            Some(self.one_or_two('=', Token::EqEq, Token::Eq))
        } else if ch == '&' || ch == '|' {
            self.advance();
            if self.current() == Some(ch) {
                self.advance();
                if ch == '&' {
                    Some(Token::And)
                } else {
                    Some(Token::Or)
                }
            } else {
                let mut m: Vec<char> = Vec::new();
                push_str(&mut m, "Unexpected character '");
                m.push(ch);
                push_str(&mut m, "'");
                push_str(&mut m, " at line ");
                push_decimal(&mut m, start_line as u128);
                push_str(&mut m, ":");
                push_decimal(&mut m, start_col as u128);
                if ch == '&' {
                    push_str(&mut m, " \u{2014} did you mean '&&'?");
                } else {
                    push_str(&mut m, " \u{2014} did you mean '||'?");
                }
                let ghost before = self.errors@;
                self.errors.push(string_of(m.as_slice()));
                proof {
                    if ch == '&' {
                        assert(m@ =~= msg_lone_amp(line_at(s, p), col_at(s, p)));
                    } else {
                        assert(m@ =~= msg_lone_pipe(line_at(s, p), col_at(s, p)));
                    }
                    assert(msgs_view(self.errors@) =~= msgs_view(before) + seq![m@]);
                }
                None
            }
        } else if ch == '-' {
            if self.peek_next() == Some('>') {
                self.advance();
                self.advance();
                Some(Token::Arrow)
            } else {
                Some(self.one_or_two('=', Token::MinusEq, Token::Minus))
            }
        } else if ch == '/' {
            Some(self.one_or_two('=', Token::SlashEq, Token::Slash))
        } else if ch == '.' {
            Some(self.one_or_two('.', Token::DotDot, Token::Dot))
        } else if ch == '"' {
            proof {
                lemma_scan_str_end(s, p + 1, Seq::empty(), Seq::empty());
            }
            Some(self.read_string())
        } else if is_ascii_digit(ch) {
            proof {
                lemma_digit_run(s, p);
            }
            Some(self.read_number())
        } else if is_alphabetic(ch) || ch == '_' {
            proof {
                lemma_word_run(s, p);
            }
            Some(self.read_ident())
        } else {
            self.advance();
            let mut m: Vec<char> = Vec::new();
            push_str(&mut m, "Unexpected character '");
            m.push(ch);
            push_str(&mut m, "'");
            push_str(&mut m, " at line ");
            push_decimal(&mut m, start_line as u128);
            push_str(&mut m, ":");
            push_decimal(&mut m, start_col as u128);
            let ghost before = self.errors@;
            self.errors.push(string_of(m.as_slice()));
            proof {
                assert(m@ =~= msg_unexpected(ch, line_at(s, p), col_at(s, p)));
                assert(msgs_view(self.errors@) =~= msgs_view(before) + seq![m@]);
            }
            None
        }
    }

    fn one_or_two(&mut self, second: char, two: Token, one: Token) -> (tok: Token)
        requires
            old(self).wf(),
            old(self).pos < old(self).input@.len(),
        ensures
            final(self).wf(),
            final(self).input@ == old(self).input@,
            final(self).errors == old(self).errors,
            ({
                let r = one_or_two(old(self).input@, old(self).pos as int, second, two@, one@);
                &&& final(self).pos == r.1
                &&& Some(tok@) == r.0
            }),
    {
        self.advance();
        if self.current() == Some(second) {
            self.advance();
            two
        } else {
            one
        }
    }
}

/// Whether `w` is the word `k`.
fn is_word(w: &[char], k: &str) -> (r: bool)
    ensures
        r == (w@ == k@),
{
    let kc = chars_of(k);
    chars_eq(w, kc.as_slice())
}

/// The token of an identifier-like word.
fn word_token_of(w: Vec<char>) -> (t: Token)
    ensures
        t@ == word_token(w@),
{
    let s = w.as_slice();
    if is_word(s, "main") {
        Token::Main
    } else if is_word(s, "fn") {
        Token::Function
    } else if is_word(s, "Vault") || is_word(s, "vault") {
        Token::Vault
    } else if is_word(s, "Kill") || is_word(s, "kill") {
        Token::Kill
    } else if is_word(s, "Exit") || is_word(s, "exit") {
        Token::Exit
    } else if is_word(s, "yield") {
        Token::Yield
    } else if is_word(s, "return") {
        Token::Return
    } else if is_word(s, "if") {
        Token::If
    } else if is_word(s, "else") {
        Token::Else
    } else if is_word(s, "loop") {
        Token::Loop
    } else if is_word(s, "while") {
        Token::While
    } else if is_word(s, "for") {
        Token::For
    } else if is_word(s, "in") {
        Token::In
    } else if is_word(s, "break") {
        Token::Break
    } else if is_word(s, "true") {
        Token::True
    } else if is_word(s, "false") {
        Token::False
    } else if is_word(s, "free") {
        Token::Free
    } else if is_word(s, "print") {
        Token::Print
    } else if is_word(s, "as") {
        Token::As
    } else if is_word(s, "struct") {
        Token::Struct
    } else if is_word(s, "auto") {
        Token::Auto
    } else if is_word(s, "assert") {
        Token::Assert
    } else if is_word(s, "int") {
        Token::Int
    } else if is_word(s, "float") {
        Token::Float
    } else if is_word(s, "string") {
        Token::String
    } else if is_word(s, "bool") {
        Token::Bool
    } else if is_word(s, "i8") {
        Token::TyI8
    } else if is_word(s, "i16") {
        Token::TyI16
    } else if is_word(s, "i32") {
        Token::TyI32
    } else if is_word(s, "i64") {
        Token::TyI64
    } else if is_word(s, "u8") {
        Token::TyU8
    } else if is_word(s, "u16") {
        Token::TyU16
    } else if is_word(s, "u32") {
        Token::TyU32
    } else if is_word(s, "u64") {
        Token::TyU64
    } else {
        Token::Ident(string_of(s))
    }
}

/// `16^n`.
pub open spec fn pow16(n: nat) -> nat
    decreases n,
{
    if n == 0 {
        1
    } else {
        pow16((n - 1) as nat) * 16
    }
}

pub proof fn lemma_pow16_le(n: nat)
    requires
        n <= 5,
    ensures
        pow16(n) <= 1048576,
        pow16(n + 1) == pow16(n) * 16,
{
    reveal_with_fuel(pow16, 7);
    if n == 0 {
    } else if n == 1 {
    } else if n == 2 {
    } else if n == 3 {
    } else if n == 4 {
    } else {
    }
}

} // verus!
