//! The parser: from tokens with their positions to a program, reporting
//! what it cannot use and carrying on.
pub mod ty;
pub mod leaf;
pub mod grammar;
pub mod expr;
pub mod stmt;
pub mod assign;
pub mod items;
pub mod toplevel;

use crate::ast::{Span, Token, TokenV};
use crate::numfmt::{dec, dec_int, push_decimal, push_decimal_signed};
use crate::text::{chars_eq, chars_of, push_all, push_str, string_of};
use vstd::prelude::*;

verus! {

/// What `{:?}` prints for a string: the text in double quotes, escaped.
pub uninterp spec fn str_debug(s: Seq<char>) -> Seq<char>;

/// Formats `s` with `{:?}`: std's `Debug` for `str`. Its result is named,
/// not restated.
#[verifier::external_body]
pub(crate) fn debug_str(s: &str) -> (r: String)
    ensures
        r@ == str_debug(s@),
{
    format!("{:?}", s)
}

/// How a token is written in messages (as `{:?}` writes it; a float
/// literal shows its source text).
pub open spec fn token_text(t: TokenV) -> Seq<char> {
    match t {
        TokenV::At => "At"@,
        TokenV::Hash => "Hash"@,
        TokenV::Main => "Main"@,
        TokenV::Function => "Function"@,
        TokenV::Vault => "Vault"@,
        TokenV::Kill => "Kill"@,
        TokenV::Exit => "Exit"@,
        TokenV::Yield => "Yield"@,
        TokenV::Return => "Return"@,
        TokenV::If => "If"@,
        TokenV::Else => "Else"@,
        TokenV::Loop => "Loop"@,
        TokenV::For => "For"@,
        TokenV::In => "In"@,
        TokenV::Break => "Break"@,
        TokenV::True => "True"@,
        TokenV::False => "False"@,
        TokenV::Free => "Free"@,
        TokenV::Print => "Print"@,
        TokenV::While => "While"@,
        TokenV::As => "As"@,
        TokenV::Struct => "Struct"@,
        TokenV::Auto => "Auto"@,
        TokenV::Assert => "Assert"@,
        TokenV::Enum => "Enum"@,
        TokenV::Match => "Match"@,
        TokenV::FatArrow => "FatArrow"@,
        TokenV::Trait => "Trait"@,
        TokenV::Impl => "Impl"@,
        TokenV::Mod => "Mod"@,
        TokenV::Const => "Const"@,
        TokenV::Fn => "Fn"@,
        TokenV::Pipe => "Pipe"@,
        TokenV::Import => "Import"@,
        TokenV::Int => "Int"@,
        TokenV::Float => "Float"@,
        TokenV::String => "String"@,
        TokenV::Bool => "Bool"@,
        TokenV::TyI8 => "TyI8"@,
        TokenV::TyI16 => "TyI16"@,
        TokenV::TyI32 => "TyI32"@,
        TokenV::TyI64 => "TyI64"@,
        TokenV::TyU8 => "TyU8"@,
        TokenV::TyU16 => "TyU16"@,
        TokenV::TyU32 => "TyU32"@,
        TokenV::TyU64 => "TyU64"@,
        TokenV::LParen => "LParen"@,
        TokenV::RParen => "RParen"@,
        TokenV::LBrace => "LBrace"@,
        TokenV::RBrace => "RBrace"@,
        TokenV::LBracket => "LBracket"@,
        TokenV::RBracket => "RBracket"@,
        TokenV::Semicolon => "Semicolon"@,
        TokenV::Comma => "Comma"@,
        TokenV::Colon => "Colon"@,
        TokenV::Dot => "Dot"@,
        TokenV::Eq => "Eq"@,
        TokenV::EqEq => "EqEq"@,
        TokenV::Neq => "Neq"@,
        TokenV::Le => "Le"@,
        TokenV::Ge => "Ge"@,
        TokenV::Arrow => "Arrow"@,
        TokenV::DotDot => "DotDot"@,
        TokenV::Plus => "Plus"@,
        TokenV::Minus => "Minus"@,
        TokenV::Star => "Star"@,
        TokenV::Slash => "Slash"@,
        TokenV::Percent => "Percent"@,
        TokenV::PlusEq => "PlusEq"@,
        TokenV::MinusEq => "MinusEq"@,
        TokenV::StarEq => "StarEq"@,
        TokenV::SlashEq => "SlashEq"@,
        TokenV::PercentEq => "PercentEq"@,
        TokenV::Not => "Not"@,
        TokenV::And => "And"@,
        TokenV::Or => "Or"@,
        TokenV::Lt => "Lt"@,
        TokenV::Gt => "Gt"@,
        TokenV::EOF => "EOF"@,
        TokenV::IntLit(n) => "IntLit("@ + dec_int(n as int) + ")"@,
        TokenV::FloatLit(s) => "FloatLit("@ + s + ")"@,
        TokenV::StringLit(s) => "StringLit("@ + str_debug(s) + ")"@,
        TokenV::FStringLit(s) => "FStringLit("@ + str_debug(s) + ")"@,
        TokenV::Ident(s) => "Ident("@ + str_debug(s) + ")"@,
    }
}

/// How a token is written in messages.
pub fn token_debug(t: &Token) -> (r: String)
    ensures
        r@ == token_text(t@),
{
    match t {
        Token::At => "At".to_owned(),
        Token::Hash => "Hash".to_owned(),
        Token::Main => "Main".to_owned(),
        Token::Function => "Function".to_owned(),
        Token::Vault => "Vault".to_owned(),
        Token::Kill => "Kill".to_owned(),
        Token::Exit => "Exit".to_owned(),
        Token::Yield => "Yield".to_owned(),
        Token::Return => "Return".to_owned(),
        Token::If => "If".to_owned(),
        Token::Else => "Else".to_owned(),
        Token::Loop => "Loop".to_owned(),
        Token::For => "For".to_owned(),
        Token::In => "In".to_owned(),
        Token::Break => "Break".to_owned(),
        Token::True => "True".to_owned(),
        Token::False => "False".to_owned(),
        Token::Free => "Free".to_owned(),
        Token::Print => "Print".to_owned(),
        Token::While => "While".to_owned(),
        Token::As => "As".to_owned(),
        Token::Struct => "Struct".to_owned(),
        Token::Auto => "Auto".to_owned(),
        Token::Assert => "Assert".to_owned(),
        Token::Enum => "Enum".to_owned(),
        Token::Match => "Match".to_owned(),
        Token::FatArrow => "FatArrow".to_owned(),
        Token::Trait => "Trait".to_owned(),
        Token::Impl => "Impl".to_owned(),
        Token::Mod => "Mod".to_owned(),
        Token::Const => "Const".to_owned(),
        Token::Fn => "Fn".to_owned(),
        Token::Pipe => "Pipe".to_owned(),
        Token::Import => "Import".to_owned(),
        Token::Int => "Int".to_owned(),
        Token::Float => "Float".to_owned(),
        Token::String => "String".to_owned(),
        Token::Bool => "Bool".to_owned(),
        Token::TyI8 => "TyI8".to_owned(),
        Token::TyI16 => "TyI16".to_owned(),
        Token::TyI32 => "TyI32".to_owned(),
        Token::TyI64 => "TyI64".to_owned(),
        Token::TyU8 => "TyU8".to_owned(),
        Token::TyU16 => "TyU16".to_owned(),
        Token::TyU32 => "TyU32".to_owned(),
        Token::TyU64 => "TyU64".to_owned(),
        Token::LParen => "LParen".to_owned(),
        Token::RParen => "RParen".to_owned(),
        Token::LBrace => "LBrace".to_owned(),
        Token::RBrace => "RBrace".to_owned(),
        Token::LBracket => "LBracket".to_owned(),
        Token::RBracket => "RBracket".to_owned(),
        Token::Semicolon => "Semicolon".to_owned(),
        Token::Comma => "Comma".to_owned(),
        Token::Colon => "Colon".to_owned(),
        Token::Dot => "Dot".to_owned(),
        Token::Eq => "Eq".to_owned(),
        Token::EqEq => "EqEq".to_owned(),
        Token::Neq => "Neq".to_owned(),
        Token::Le => "Le".to_owned(),
        Token::Ge => "Ge".to_owned(),
        Token::Arrow => "Arrow".to_owned(),
        Token::DotDot => "DotDot".to_owned(),
        Token::Plus => "Plus".to_owned(),
        Token::Minus => "Minus".to_owned(),
        Token::Star => "Star".to_owned(),
        Token::Slash => "Slash".to_owned(),
        Token::Percent => "Percent".to_owned(),
        Token::PlusEq => "PlusEq".to_owned(),
        Token::MinusEq => "MinusEq".to_owned(),
        Token::StarEq => "StarEq".to_owned(),
        Token::SlashEq => "SlashEq".to_owned(),
        Token::PercentEq => "PercentEq".to_owned(),
        Token::Not => "Not".to_owned(),
        Token::And => "And".to_owned(),
        Token::Or => "Or".to_owned(),
        Token::Lt => "Lt".to_owned(),
        Token::Gt => "Gt".to_owned(),
        Token::EOF => "EOF".to_owned(),
        Token::IntLit(n) => {
            let mut v: Vec<char> = Vec::new();
            push_str(&mut v, "IntLit(");
            push_decimal_signed(&mut v, *n as i128);
            push_str(&mut v, ")");
            proof {
                assert(v@ =~= token_text(t@));
            }
            string_of(v.as_slice())
        },
        Token::FloatLit(s) => {
            let mut v: Vec<char> = Vec::new();
            push_str(&mut v, "FloatLit(");
            push_str(&mut v, s.as_str());
            push_str(&mut v, ")");
            proof {
                assert(v@ =~= token_text(t@));
            }
            string_of(v.as_slice())
        },
        Token::StringLit(s) => {
            let mut v: Vec<char> = Vec::new();
            push_str(&mut v, "StringLit(");
            let d = debug_str(s.as_str());
            push_str(&mut v, d.as_str());
            push_str(&mut v, ")");
            proof {
                assert(v@ =~= token_text(t@));
            }
            string_of(v.as_slice())
        },
        Token::FStringLit(s) => {
            let mut v: Vec<char> = Vec::new();
            push_str(&mut v, "FStringLit(");
            let d = debug_str(s.as_str());
            push_str(&mut v, d.as_str());
            push_str(&mut v, ")");
            proof {
                assert(v@ =~= token_text(t@));
            }
            string_of(v.as_slice())
        },
        Token::Ident(s) => {
            let mut v: Vec<char> = Vec::new();
            push_str(&mut v, "Ident(");
            let d = debug_str(s.as_str());
            push_str(&mut v, d.as_str());
            push_str(&mut v, ")");
            proof {
                assert(v@ =~= token_text(t@));
            }
            string_of(v.as_slice())
        },
    }
}

/// Whether two tokens are the same.
pub fn same_token(a: &Token, b: &Token) -> (r: bool)
    ensures
        r == (a@ == b@),
{
    match a {
        Token::At => match b {
            Token::At => true,
            _ => false,
        },
        Token::Hash => match b {
            Token::Hash => true,
            _ => false,
        },
        Token::Main => match b {
            Token::Main => true,
            _ => false,
        },
        Token::Function => match b {
            Token::Function => true,
            _ => false,
        },
        Token::Vault => match b {
            Token::Vault => true,
            _ => false,
        },
        Token::Kill => match b {
            Token::Kill => true,
            _ => false,
        },
        Token::Exit => match b {
            Token::Exit => true,
            _ => false,
        },
        Token::Yield => match b {
            Token::Yield => true,
            _ => false,
        },
        Token::Return => match b {
            Token::Return => true,
            _ => false,
        },
        Token::If => match b {
            Token::If => true,
            _ => false,
        },
        Token::Else => match b {
            Token::Else => true,
            _ => false,
        },
        Token::Loop => match b {
            Token::Loop => true,
            _ => false,
        },
        Token::For => match b {
            Token::For => true,
            _ => false,
        },
        Token::In => match b {
            Token::In => true,
            _ => false,
        },
        Token::Break => match b {
            Token::Break => true,
            _ => false,
        },
        Token::True => match b {
            Token::True => true,
            _ => false,
        },
        Token::False => match b {
            Token::False => true,
            _ => false,
        },
        Token::Free => match b {
            Token::Free => true,
            _ => false,
        },
        Token::Print => match b {
            Token::Print => true,
            _ => false,
        },
        Token::While => match b {
            Token::While => true,
            _ => false,
        },
        Token::As => match b {
            Token::As => true,
            _ => false,
        },
        Token::Struct => match b {
            Token::Struct => true,
            _ => false,
        },
        Token::Auto => match b {
            Token::Auto => true,
            _ => false,
        },
        Token::Assert => match b {
            Token::Assert => true,
            _ => false,
        },
        Token::Enum => match b {
            Token::Enum => true,
            _ => false,
        },
        Token::Match => match b {
            Token::Match => true,
            _ => false,
        },
        Token::FatArrow => match b {
            Token::FatArrow => true,
            _ => false,
        },
        Token::Trait => match b {
            Token::Trait => true,
            _ => false,
        },
        Token::Impl => match b {
            Token::Impl => true,
            _ => false,
        },
        Token::Mod => match b {
            Token::Mod => true,
            _ => false,
        },
        Token::Const => match b {
            Token::Const => true,
            _ => false,
        },
        Token::Fn => match b {
            Token::Fn => true,
            _ => false,
        },
        Token::Pipe => match b {
            Token::Pipe => true,
            _ => false,
        },
        Token::Import => match b {
            Token::Import => true,
            _ => false,
        },
        Token::Int => match b {
            Token::Int => true,
            _ => false,
        },
        Token::Float => match b {
            Token::Float => true,
            _ => false,
        },
        Token::String => match b {
            Token::String => true,
            _ => false,
        },
        Token::Bool => match b {
            Token::Bool => true,
            _ => false,
        },
        Token::TyI8 => match b {
            Token::TyI8 => true,
            _ => false,
        },
        Token::TyI16 => match b {
            Token::TyI16 => true,
            _ => false,
        },
        Token::TyI32 => match b {
            Token::TyI32 => true,
            _ => false,
        },
        Token::TyI64 => match b {
            Token::TyI64 => true,
            _ => false,
        },
        Token::TyU8 => match b {
            Token::TyU8 => true,
            _ => false,
        },
        Token::TyU16 => match b {
            Token::TyU16 => true,
            _ => false,
        },
        Token::TyU32 => match b {
            Token::TyU32 => true,
            _ => false,
        },
        Token::TyU64 => match b {
            Token::TyU64 => true,
            _ => false,
        },
        Token::LParen => match b {
            Token::LParen => true,
            _ => false,
        },
        Token::RParen => match b {
            Token::RParen => true,
            _ => false,
        },
        Token::LBrace => match b {
            Token::LBrace => true,
            _ => false,
        },
        Token::RBrace => match b {
            Token::RBrace => true,
            _ => false,
        },
        Token::LBracket => match b {
            Token::LBracket => true,
            _ => false,
        },
        Token::RBracket => match b {
            Token::RBracket => true,
            _ => false,
        },
        Token::Semicolon => match b {
            Token::Semicolon => true,
            _ => false,
        },
        Token::Comma => match b {
            Token::Comma => true,
            _ => false,
        },
        Token::Colon => match b {
            Token::Colon => true,
            _ => false,
        },
        Token::Dot => match b {
            Token::Dot => true,
            _ => false,
        },
        Token::Eq => match b {
            Token::Eq => true,
            _ => false,
        },
        Token::EqEq => match b {
            Token::EqEq => true,
            _ => false,
        },
        Token::Neq => match b {
            Token::Neq => true,
            _ => false,
        },
        Token::Le => match b {
            Token::Le => true,
            _ => false,
        },
        Token::Ge => match b {
            Token::Ge => true,
            _ => false,
        },
        Token::Arrow => match b {
            Token::Arrow => true,
            _ => false,
        },
        Token::DotDot => match b {
            Token::DotDot => true,
            _ => false,
        },
        Token::Plus => match b {
            Token::Plus => true,
            _ => false,
        },
        Token::Minus => match b {
            Token::Minus => true,
            _ => false,
        },
        Token::Star => match b {
            Token::Star => true,
            _ => false,
        },
        Token::Slash => match b {
            Token::Slash => true,
            _ => false,
        },
        Token::Percent => match b {
            Token::Percent => true,
            _ => false,
        },
        Token::PlusEq => match b {
            Token::PlusEq => true,
            _ => false,
        },
        Token::MinusEq => match b {
            Token::MinusEq => true,
            _ => false,
        },
        Token::StarEq => match b {
            Token::StarEq => true,
            _ => false,
        },
        Token::SlashEq => match b {
            Token::SlashEq => true,
            _ => false,
        },
        Token::PercentEq => match b {
            Token::PercentEq => true,
            _ => false,
        },
        Token::Not => match b {
            Token::Not => true,
            _ => false,
        },
        Token::And => match b {
            Token::And => true,
            _ => false,
        },
        Token::Or => match b {
            Token::Or => true,
            _ => false,
        },
        Token::Lt => match b {
            Token::Lt => true,
            _ => false,
        },
        Token::Gt => match b {
            Token::Gt => true,
            _ => false,
        },
        Token::EOF => match b {
            Token::EOF => true,
            _ => false,
        },
        Token::IntLit(x) => match b {
            Token::IntLit(y) => *x == *y,
            _ => false,
        },
        Token::FloatLit(x) => match b {
            Token::FloatLit(y) => *x == *y,
            _ => false,
        },
        Token::StringLit(x) => match b {
            Token::StringLit(y) => *x == *y,
            _ => false,
        },
        Token::FStringLit(x) => match b {
            Token::FStringLit(y) => *x == *y,
            _ => false,
        },
        Token::Ident(x) => match b {
            Token::Ident(y) => *x == *y,
            _ => false,
        },
    }
}

/// The tokens that the parser reads, with the line and column of each.
pub struct PInput {
    pub toks: Seq<TokenV>,
    pub lines: Seq<usize>,
    pub cols: Seq<usize>,
    /// How many more levels of f-strings inside f-strings are read.
    pub fuel: nat,
}

/// The parser's state: where it is, the messages so far, how deep it is in
/// expressions, whether `Name {` may start a struct literal here, and the
/// enum names and type parameters it knows of.
#[verifier::ext_equal]
pub struct PState {
    pub pos: int,
    pub errs: Seq<Seq<char>>,
    pub depth: int,
    pub no_struct_init: bool,
    pub enums: Seq<Seq<char>>,
    pub tparams: Seq<Seq<char>>,
}

/// The token at the parser's position; `EOF` past the end.
pub open spec fn cur(inp: PInput, s: PState) -> TokenV {
    if 0 <= s.pos < inp.toks.len() {
        inp.toks[s.pos]
    } else {
        TokenV::EOF
    }
}

/// The token `k` places after the parser's position; `EOF` past the end.
pub open spec fn ahead(inp: PInput, s: PState, k: int) -> TokenV {
    if 0 <= s.pos + k < inp.toks.len() {
        inp.toks[s.pos + k]
    } else {
        TokenV::EOF
    }
}

/// The line of the token at the parser's position; 0 past the end.
pub open spec fn cur_line(inp: PInput, s: PState) -> nat {
    if 0 <= s.pos < inp.lines.len() {
        inp.lines[s.pos] as nat
    } else {
        0
    }
}

/// The column of the token at the parser's position; 0 past the end.
pub open spec fn cur_col(inp: PInput, s: PState) -> nat {
    if 0 <= s.pos < inp.cols.len() {
        inp.cols[s.pos] as nat
    } else {
        0
    }
}

/// Where the parser is, as messages write it.
pub open spec fn at_here(inp: PInput, s: PState) -> Seq<char> {
    " at line "@ + dec(cur_line(inp, s)) + ":"@ + dec(cur_col(inp, s))
}

/// The state after moving to the next token; the last token is never left.
pub open spec fn adv(inp: PInput, s: PState) -> PState {
    if s.pos + 1 < inp.toks.len() {
        PState { pos: s.pos + 1, ..s }
    } else {
        s
    }
}

/// The state with message `m` added.
pub open spec fn with_err(s: PState, m: Seq<char>) -> PState {
    PState { errs: s.errs.push(m), ..s }
}

/// Whether the parser stops skipping at `t` when a token is missing.
pub open spec fn is_sync(t: TokenV) -> bool {
    t is Semicolon || t is RBrace || t is RParen || t is RBracket || t is EOF
}

/// Expecting token `t`: past it when it is there; else a message, and past
/// the token that stands there unless the parser syncs on it.
pub open spec fn expect_s(inp: PInput, s: PState, t: TokenV) -> PState {
    if cur(inp, s) == t {
        adv(inp, s)
    } else {
        let s1 = with_err(
            s,
            "Expected "@ + token_text(t) + " but got "@ + token_text(cur(inp, s)) + at_here(inp, s),
        );
        if is_sync(cur(inp, s)) {
            s1
        } else {
            adv(inp, s1)
        }
    }
}

/// The name that a keyword token stands for where a name is expected.
pub open spec fn keyword_name(t: TokenV) -> Option<Seq<char>> {
    match t {
        TokenV::Main => Some("main"@),
        TokenV::Function => Some("function"@),
        TokenV::Vault => Some("vault"@),
        TokenV::Kill => Some("kill"@),
        TokenV::Exit => Some("exit"@),
        TokenV::Yield => Some("yield"@),
        TokenV::Return => Some("return"@),
        TokenV::If => Some("if"@),
        TokenV::Else => Some("else"@),
        TokenV::Loop => Some("loop"@),
        TokenV::For => Some("for"@),
        TokenV::In => Some("in"@),
        TokenV::Break => Some("break"@),
        TokenV::True => Some("true"@),
        TokenV::False => Some("false"@),
        TokenV::Free => Some("free"@),
        TokenV::Print => Some("print"@),
        TokenV::While => Some("while"@),
        TokenV::As => Some("as"@),
        TokenV::Struct => Some("struct"@),
        TokenV::Int => Some("int"@),
        TokenV::Float => Some("float"@),
        TokenV::String => Some("string"@),
        TokenV::Bool => Some("bool"@),
        TokenV::TyI8 => Some("i8"@),
        TokenV::TyI16 => Some("i16"@),
        TokenV::TyI32 => Some("i32"@),
        TokenV::TyI64 => Some("i64"@),
        TokenV::TyU8 => Some("u8"@),
        TokenV::TyU16 => Some("u16"@),
        TokenV::TyU32 => Some("u32"@),
        TokenV::TyU64 => Some("u64"@),
        TokenV::Auto => Some("auto"@),
        TokenV::Assert => Some("assert"@),
        TokenV::Enum => Some("enum"@),
        TokenV::Match => Some("match"@),
        TokenV::Trait => Some("trait"@),
        TokenV::Impl => Some("impl"@),
        TokenV::Mod => Some("mod"@),
        TokenV::Const => Some("const"@),
        TokenV::Import => Some("import"@),
        _ => None,
    }
}

/// Reading a name: an identifier, or a keyword as the name it stands for;
/// else `_error_` and a message, and the parser stays where it is.
pub open spec fn eat_ident_s(inp: PInput, s: PState) -> (Seq<char>, PState) {
    match cur(inp, s) {
        TokenV::Ident(x) => (x, adv(inp, s)),
        t => match keyword_name(t) {
            Some(n) => (n, adv(inp, s)),
            None => (
                "_error_"@,
                with_err(s, "Expected identifier but got "@ + token_text(t) + at_here(inp, s)),
            ),
        },
    }
}

/// The reserved words, which cannot name a variable.
pub open spec fn keywords() -> Seq<Seq<char>> {
    seq![
        "main"@,
        "fn"@,
        "Vault"@,
        "Kill"@,
        "Exit"@,
        "yield"@,
        "return"@,
        "if"@,
        "else"@,
        "loop"@,
        "while"@,
        "for"@,
        "in"@,
        "break"@,
        "true"@,
        "false"@,
        "free"@,
        "print"@,
        "as"@,
        "struct"@,
        "int"@,
        "float"@,
        "string"@,
        "bool"@,
        "auto"@,
        "assert"@,
        "i8"@,
        "i16"@,
        "i32"@,
        "i64"@,
        "u8"@,
        "u16"@,
        "u32"@,
        "u64"@,
        "enum"@,
        "match"@,
        "trait"@,
        "impl"@,
        "mod"@,
        "const"@,
        "import"@,
    ]
}

/// Reading the name of a variable: as `eat_ident_s`, with a message when it
/// is a reserved word.
pub open spec fn eat_var_ident_s(inp: PInput, s: PState) -> (Seq<char>, PState) {
    let (n, s1) = eat_ident_s(inp, s);
    if keywords().contains(n) {
        (
            n,
            with_err(
                s1,
                "Reserved keyword '"@ + n + "' cannot be used as identifier"@ + at_here(inp, s1),
            ),
        )
    } else {
        (n, s1)
    }
}

/// Reads Kyte source as tokens and builds a program from them.
pub struct Parser {
    tokens: Vec<Token>,
    lines: Vec<usize>,
    cols: Vec<usize>,
    pos: usize,
    pub errors: Vec<String>,
    depth: usize,
    no_struct_init: bool,
    enum_names: Vec<String>,
    fn_type_params: Vec<String>,
    fuel: usize,
}

/// The texts of a list of strings.
pub open spec fn texts(v: Seq<String>) -> Seq<Seq<char>> {
    v.map_values(|s: String| s@)
}

impl Parser {
    /// The tokens read, with their lines and columns.
    pub closed spec fn input(&self) -> PInput {
        PInput {
            toks: self.tokens@.map_values(|t: Token| t@),
            lines: self.lines@,
            cols: self.cols@,
            fuel: self.fuel as nat,
        }
    }

    /// The parser's state.
    pub closed spec fn state(&self) -> PState {
        PState {
            pos: self.pos as int,
            errs: texts(self.errors@),
            depth: self.depth as int,
            no_struct_init: self.no_struct_init,
            enums: texts(self.enum_names@),
            tparams: texts(self.fn_type_params@),
        }
    }

    /// The lists of tokens, lines and columns go together, and the position
    /// is on a token (or at 0 when there is none).
    pub closed spec fn wf(&self) -> bool {
        &&& self.tokens@.len() == self.lines@.len()
        &&& self.tokens@.len() == self.cols@.len()
        &&& (self.pos == 0 || self.pos < self.tokens@.len())
    }

    /// A parser at the start of `spanned_tokens` (each a token with its line
    /// and column).
    pub fn new(spanned_tokens: Vec<(Token, usize, usize)>) -> (r: Self)
        ensures
            r.wf(),
            r.input().toks == spanned_tokens@.map_values(|t: (Token, usize, usize)| t.0@),
            r.input().lines == spanned_tokens@.map_values(|t: (Token, usize, usize)| t.1),
            r.input().cols == spanned_tokens@.map_values(|t: (Token, usize, usize)| t.2),
            r.input().fuel == 1,
            r.state() == (PState {
                pos: 0,
                errs: Seq::empty(),
                depth: 0,
                no_struct_init: false,
                enums: Seq::empty(),
                tparams: Seq::empty(),
            }),
    {
        let mut tokens: Vec<Token> = Vec::new();
        let mut lines: Vec<usize> = Vec::new();
        let mut cols: Vec<usize> = Vec::new();
        let ghost src = spanned_tokens@;
        let mut i: usize = 0;
        while i < spanned_tokens.len()
            invariant
                src == spanned_tokens@,
                i <= src.len(),
                tokens@.len() == i,
                lines@.len() == i,
                cols@.len() == i,
                forall|k: int| 0 <= k < i ==> #[trigger] tokens@[k]@ == src[k].0@,
                forall|k: int| 0 <= k < i ==> #[trigger] lines@[k] == src[k].1,
                forall|k: int| 0 <= k < i ==> #[trigger] cols@[k] == src[k].2,
            decreases src.len() - i,
        {
            let (tok, line, col) = &spanned_tokens[i];
            tokens.push(tok.clone());
            lines.push(*line);
            cols.push(*col);
            i = i + 1;
        }
        let r = Parser {
            tokens,
            lines,
            cols,
            pos: 0,
            errors: Vec::new(),
            depth: 0,
            no_struct_init: false,
            enum_names: Vec::new(),
            fn_type_params: Vec::new(),
            fuel: 1,
        };
        proof {
            assert(r.input().toks =~= src.map_values(|t: (Token, usize, usize)| t.0@));
            assert(r.input().lines =~= src.map_values(|t: (Token, usize, usize)| t.1));
            assert(r.input().cols =~= src.map_values(|t: (Token, usize, usize)| t.2));
            assert(r.state().errs =~= Seq::<Seq<char>>::empty());
            assert(r.state().enums =~= Seq::<Seq<char>>::empty());
            assert(r.state().tparams =~= Seq::<Seq<char>>::empty());
        }
        r
    }

    /// The token at the parser's position.
    pub fn current(&self) -> (r: &Token)
        requires
            self.wf(),
        ensures
            r@ == cur(self.input(), self.state()),
    {
        if self.pos < self.tokens.len() {
            &self.tokens[self.pos]
        } else {
            &Token::EOF
        }
    }

    /// The token `offset` places ahead.
    pub fn peek(&self, offset: usize) -> (r: &Token)
        requires
            self.wf(),
        ensures
            r@ == ahead(self.input(), self.state(), offset as int),
    {
        if offset < self.tokens.len() && self.pos < self.tokens.len() - offset {
            &self.tokens[self.pos + offset]
        } else {
            &Token::EOF
        }
    }

    /// The line of the token at the parser's position.
    pub fn current_line(&self) -> (r: usize)
        requires
            self.wf(),
        ensures
            r == cur_line(self.input(), self.state()),
    {
        if self.pos < self.lines.len() {
            self.lines[self.pos]
        } else {
            0
        }
    }

    /// The column of the token at the parser's position.
    pub fn current_col(&self) -> (r: usize)
        requires
            self.wf(),
        ensures
            r == cur_col(self.input(), self.state()),
    {
        if self.pos < self.cols.len() {
            self.cols[self.pos]
        } else {
            0
        }
    }

    /// The position of the token at the parser's position.
    pub fn current_span(&self) -> (r: Span)
        requires
            self.wf(),
        ensures
            r.line == cur_line(self.input(), self.state()),
            r.col == cur_col(self.input(), self.state()),
    {
        Span { line: self.current_line(), col: self.current_col() }
    }

    /// Moves to the next token (never past the last one).
    pub fn advance(&mut self)
        requires
            old(self).wf(),
        ensures
            final(self).wf(),
            final(self).input() == old(self).input(),
            final(self).state() == adv(old(self).input(), old(self).state()),
    {
        if self.tokens.len() > 0 && self.pos < self.tokens.len() - 1 {
            self.pos = self.pos + 1;
        }
        proof {
            assert(self.state() =~= adv(old(self).input(), old(self).state()));
        }
    }

    /// Adds `msg` with the current position (` at line L:C`).
    pub(crate) fn error_here(&mut self, msg: Vec<char>)
        requires
            old(self).wf(),
        ensures
            final(self).wf(),
            final(self).input() == old(self).input(),
            final(self).state() == with_err(old(self).state(), msg@ + at_here(old(self).input(), old(self).state())),
    {
        let mut m = msg;
        push_str(&mut m, " at line ");
        push_decimal(&mut m, self.current_line() as u128);
        push_str(&mut m, ":");
        push_decimal(&mut m, self.current_col() as u128);
        proof {
            assert(m@ =~= msg@ + at_here(old(self).input(), old(self).state()));
        }
        let ghost e0 = self.errors@;
        self.errors.push(string_of(m.as_slice()));
        proof {
            assert(texts(self.errors@) =~= texts(e0).push(msg@ + at_here(old(self).input(), old(self).state())));
            assert(self.state() =~= with_err(old(self).state(), msg@ + at_here(old(self).input(), old(self).state())));
        }
    }

    /// Goes past token `expected`, or reports it missing and, unless the
    /// current token is one to sync on, skips that token.
    pub fn expect(&mut self, expected: &Token)
        requires
            old(self).wf(),
        ensures
            final(self).wf(),
            final(self).input() == old(self).input(),
            final(self).state() == expect_s(old(self).input(), old(self).state(), expected@),
    {
        if same_token(self.current(), expected) {
            self.advance();
        } else {
            let mut m: Vec<char> = Vec::new();
            push_str(&mut m, "Expected ");
            push_str(&mut m, token_debug(expected).as_str());
            push_str(&mut m, " but got ");
            push_str(&mut m, token_debug(self.current()).as_str());
            let sync = match self.current() {
                Token::Semicolon | Token::RBrace | Token::RParen | Token::RBracket | Token::EOF => true,
                _ => false,
            };
            self.error_here(m);
            if !sync {
                self.advance();
            }
        }
    }

    /// Reads a name: an identifier, or a keyword as the name it stands for.
    pub fn eat_ident(&mut self) -> (r: String)
        requires
            old(self).wf(),
        ensures
            final(self).wf(),
            final(self).input() == old(self).input(),
            (r@, final(self).state()) == eat_ident_s(old(self).input(), old(self).state()),
    {
        let name: Option<String> = match self.current() {
            Token::Ident(s) => Some(s.clone()),
            Token::Main => Some("main".to_owned()),
            Token::Function => Some("function".to_owned()),
            Token::Vault => Some("vault".to_owned()),
            Token::Kill => Some("kill".to_owned()),
            Token::Exit => Some("exit".to_owned()),
            Token::Yield => Some("yield".to_owned()),
            Token::Return => Some("return".to_owned()),
            Token::If => Some("if".to_owned()),
            Token::Else => Some("else".to_owned()),
            Token::Loop => Some("loop".to_owned()),
            Token::For => Some("for".to_owned()),
            Token::In => Some("in".to_owned()),
            Token::Break => Some("break".to_owned()),
            Token::True => Some("true".to_owned()),
            Token::False => Some("false".to_owned()),
            Token::Free => Some("free".to_owned()),
            Token::Print => Some("print".to_owned()),
            Token::While => Some("while".to_owned()),
            Token::As => Some("as".to_owned()),
            Token::Struct => Some("struct".to_owned()),
            Token::Int => Some("int".to_owned()),
            Token::Float => Some("float".to_owned()),
            Token::String => Some("string".to_owned()),
            Token::Bool => Some("bool".to_owned()),
            Token::TyI8 => Some("i8".to_owned()),
            Token::TyI16 => Some("i16".to_owned()),
            Token::TyI32 => Some("i32".to_owned()),
            Token::TyI64 => Some("i64".to_owned()),
            Token::TyU8 => Some("u8".to_owned()),
            Token::TyU16 => Some("u16".to_owned()),
            Token::TyU32 => Some("u32".to_owned()),
            Token::TyU64 => Some("u64".to_owned()),
            Token::Auto => Some("auto".to_owned()),
            Token::Assert => Some("assert".to_owned()),
            Token::Enum => Some("enum".to_owned()),
            Token::Match => Some("match".to_owned()),
            Token::Trait => Some("trait".to_owned()),
            Token::Impl => Some("impl".to_owned()),
            Token::Mod => Some("mod".to_owned()),
            Token::Const => Some("const".to_owned()),
            Token::Import => Some("import".to_owned()),
            _ => None,
        };
        match name {
            Some(n) => {
                self.advance();
                n
            },
            None => {
                let mut m: Vec<char> = Vec::new();
                push_str(&mut m, "Expected identifier but got ");
                push_str(&mut m, token_debug(self.current()).as_str());
                self.error_here(m);
                "_error_".to_owned()
            },
        }
    }

    /// Whether `name` is a reserved word.
    pub fn is_keyword(name: &str) -> (r: bool)
        ensures
            r == keywords().contains(name@),
    {
        let words: Vec<&'static str> = vec![
            "main", "fn", "Vault", "Kill", "Exit", "yield", "return", "if", "else", "loop", "while", "for", "in", "break", "true", "false", "free", "print", "as", "struct", "int", "float", "string", "bool", "auto", "assert", "i8", "i16", "i32", "i64", "u8", "u16", "u32", "u64", "enum", "match", "trait", "impl", "mod", "const", "import",
        ];
        proof {
            assert(words@.map_values(|w: &'static str| w@) =~= keywords());
        }
        let nc = chars_of(name);
        let mut i: usize = 0;
        while i < words.len()
            invariant
                i <= words@.len(),
                nc@ == name@,
                words@.map_values(|w: &'static str| w@) == keywords(),
                forall|j: int| 0 <= j < i ==> #[trigger] keywords()[j] != name@,
            decreases words@.len() - i,
        {
            let wc = chars_of(words[i]);
            proof {
                assert(keywords()[i as int] == words@[i as int]@);
            }
            if chars_eq(wc.as_slice(), nc.as_slice()) {
                return true;
            }
            i = i + 1;
        }
        false
    }

    /// Reads the name of a variable, reporting a reserved word.
    pub fn eat_var_ident(&mut self) -> (r: String)
        requires
            old(self).wf(),
        ensures
            final(self).wf(),
            final(self).input() == old(self).input(),
            (r@, final(self).state()) == eat_var_ident_s(old(self).input(), old(self).state()),
    {
        let name = self.eat_ident();
        if Self::is_keyword(name.as_str()) {
            let mut m: Vec<char> = Vec::new();
            push_str(&mut m, "Reserved keyword '");
            push_str(&mut m, name.as_str());
            push_str(&mut m, "' cannot be used as identifier");
            self.error_here(m);
        }
        name
    }
}

/// One token of a decorator's arguments: the text after it, the depth of
/// parentheses after it, the state after it, and whether the arguments end
/// there without their closing parenthesis.
pub open spec fn dec_arg_step(inp: PInput, s: PState, depth: nat, text: Seq<char>) -> (Seq<char>, nat, PState, bool) {
    match cur(inp, s) {
        TokenV::LParen => (text.push('('), depth + 1, adv(inp, s), false),
        TokenV::RParen => (
            if depth > 1 {
                text.push(')')
            } else {
                text
            },
            if depth > 0 {
                (depth - 1) as nat
            } else {
                0
            },
            adv(inp, s),
            false,
        ),
        TokenV::EOF => (text, depth, with_err(s, "Unclosed decorator arguments"@ + at_here(inp, s)), true),
        TokenV::Comma => (text.push(','), depth, adv(inp, s), false),
        TokenV::Ident(x) => (text + x, depth, adv(inp, s), false),
        TokenV::IntLit(n) => (text + dec_int(n as int), depth, adv(inp, s), false),
        TokenV::FloatLit(f) => (text + f, depth, adv(inp, s), false),
        TokenV::StringLit(x) => (text.push('"') + x + seq!['"'], depth, adv(inp, s), false),
        TokenV::True => (text + "true"@, depth, adv(inp, s), false),
        TokenV::False => (text + "false"@, depth, adv(inp, s), false),
        TokenV::Minus => (text.push('-'), depth, adv(inp, s), false),
        TokenV::Dot => (text.push('.'), depth, adv(inp, s), false),
        _ => (text, depth, adv(inp, s), false),
    }
}

/// The arguments of a decorator as text, up to the parenthesis that closes
/// them (the opening one already read, `depth` still open); it stops at the
/// end of the tokens, with a message.
pub open spec fn dec_args_s(inp: PInput, s: PState, depth: nat, text: Seq<char>) -> (Seq<char>, PState)
    decreases inp.toks.len() - s.pos,
{
    if depth == 0 {
        (text, s)
    } else {
        let (t2, d2, s2, stop) = dec_arg_step(inp, s, depth, text);
        if stop || !(s.pos < s2.pos <= inp.toks.len()) {
            (t2, s2)
        } else {
            dec_args_s(inp, s2, d2, t2)
        }
    }
}

/// Reading a decorator, `#name`, `#[name]` or with arguments `#name(...)`:
/// its name, with the arguments' text in parentheses when it has some.
pub open spec fn decorator_s(inp: PInput, s: PState) -> (Seq<char>, PState) {
    let s1 = expect_s(inp, s, TokenV::Hash);
    let has_bracket = cur(inp, s1) == TokenV::LBracket;
    let s2 = if has_bracket {
        adv(inp, s1)
    } else {
        s1
    };
    let (name, s3) = eat_ident_s(inp, s2);
    let (name2, s4) = if cur(inp, s3) == TokenV::LParen {
        let (text, s5) = dec_args_s(inp, adv(inp, s3), 1, Seq::empty());
        (name + "("@ + crate::text::trim(text) + ")"@, s5)
    } else {
        (name, s3)
    };
    let s6 = if has_bracket && cur(inp, s4) == TokenV::RBracket {
        adv(inp, s4)
    } else {
        s4
    };
    (name2, s6)
}

impl Parser {
    /// Reads one token of a decorator's arguments (see `dec_arg_step`).
    fn dec_arg(&mut self, depth: u128, text: &mut Vec<char>) -> (r: (u128, bool))
        requires
            old(self).wf(),
            depth > 0,
            depth < u128::MAX,
        ensures
            final(self).wf(),
            final(self).input() == old(self).input(),
            ({
                let st = dec_arg_step(old(self).input(), old(self).state(), depth as nat, old(text)@);
                final(text)@ == st.0 && r.0 == st.1 && final(self).state() == st.2 && r.1 == st.3
            }),
    {
        let ghost t0 = text@;
        let (d, stop) = match self.current() {
            Token::LParen => {
                text.push('(');
                (depth + 1, false)
            },
            Token::RParen => {
                if depth > 1 {
                    text.push(')');
                }
                (depth - 1, false)
            },
            Token::EOF => (depth, true),
            Token::Comma => {
                text.push(',');
                (depth, false)
            },
            Token::Ident(x) => {
                push_str(text, x.as_str());
                (depth, false)
            },
            Token::IntLit(n) => {
                push_decimal_signed(text, *n as i128);
                (depth, false)
            },
            Token::FloatLit(f) => {
                push_str(text, f.as_str());
                (depth, false)
            },
            Token::StringLit(x) => {
                text.push('"');
                push_str(text, x.as_str());
                text.push('"');
                (depth, false)
            },
            Token::True => {
                push_str(text, "true");
                (depth, false)
            },
            Token::False => {
                push_str(text, "false");
                (depth, false)
            },
            Token::Minus => {
                text.push('-');
                (depth, false)
            },
            Token::Dot => {
                text.push('.');
                (depth, false)
            },
            _ => (depth, false),
        };
        if stop {
            let mut m: Vec<char> = Vec::new();
            push_str(&mut m, "Unclosed decorator arguments");
            self.error_here(m);
        } else {
            self.advance();
        }
        proof {
            let st = dec_arg_step(old(self).input(), old(self).state(), depth as nat, t0);
            assert(text@ =~= st.0);
        }
        (d, stop)
    }

    /// Reads a decorator: `#name`, `#[name]`, `#name(args)`; gives its name,
    /// with the arguments' text in parentheses when it has some.
    pub fn parse_decorator(&mut self) -> (r: String)
        requires
            old(self).wf(),
        ensures
            final(self).wf(),
            final(self).input() == old(self).input(),
            (r@, final(self).state()) == decorator_s(old(self).input(), old(self).state()),
    {
        let ghost inp = self.input();
        self.expect(&Token::Hash);
        let has_bracket = same_token(self.current(), &Token::LBracket);
        if has_bracket {
            self.advance();
        }
        let mut name = self.eat_ident();
        if same_token(self.current(), &Token::LParen) {
            self.advance();
            let ghost s_start = self.state();
            proof {
                assert(s_start.pos == self.pos);
            }
            let mut depth: u128 = 1;
            let mut text: Vec<char> = Vec::new();
            let mut done = false;
            while depth > 0 && !done
                invariant
                    self.wf(),
                    self.input() == inp,
                    (if done {
                        (text@, self.state())
                    } else {
                        dec_args_s(inp, self.state(), depth as nat, text@)
                    }) == dec_args_s(inp, s_start, 1, Seq::empty()),
                    depth as nat <= self.state().pos - s_start.pos + 1,
                    0 <= s_start.pos <= self.state().pos,
                    self.state().pos <= inp.toks.len(),
                    self.state().pos == self.pos,
                decreases inp.toks.len() - self.state().pos, if done { 0int } else { 1int },
            {
                let p0 = self.pos;
                proof {
                    assert(depth < u128::MAX);
                }
                let (d, stop) = self.dec_arg(depth, &mut text);
                if stop {
                    done = true;
                } else if !(p0 < self.pos && self.pos <= self.tokens.len()) {
                    done = true;
                } else {
                    depth = d;
                }
            }
            proof {
                assert(dec_args_s(inp, s_start, 1, Seq::empty()) == (text@, self.state()));
            }
            let (a, b) = crate::text::trim_from(text.as_slice(), 0, text.len());
            let mut full: Vec<char> = Vec::new();
            push_str(&mut full, name.as_str());
            push_str(&mut full, "(");
            let mut i = a;
            while i < b
                invariant
                    a <= i <= b <= text@.len(),
                    full@ == name@ + "("@ + text@.subrange(a as int, i as int),
                decreases b - i,
            {
                full.push(text[i]);
                i = i + 1;
                proof {
                    assert(full@ =~= name@ + "("@ + text@.subrange(a as int, i as int));
                }
            }
            push_str(&mut full, ")");
            proof {
                assert(text@.subrange(0, text@.len() as int) =~= text@);
                assert(full@ =~= name@ + "("@ + crate::text::trim(text@) + ")"@);
            }
            name = string_of(full.as_slice());
        }
        if has_bracket && same_token(self.current(), &Token::RBracket) {
            self.advance();
        }
        name
    }

    /// Reads a decorator and drops it.
    pub fn skip_decorator(&mut self)
        requires
            old(self).wf(),
        ensures
            final(self).wf(),
            final(self).input() == old(self).input(),
            final(self).state() == decorator_s(old(self).input(), old(self).state()).1,
    {
        self.parse_decorator();
    }
}

} // verus!
