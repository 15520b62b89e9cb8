//! The syntax of Kyte: tokens, types, expressions, statements and items.
use vstd::prelude::*;

verus! {

/// A token of Kyte source. A float literal keeps its text (digits, a dot,
/// digits), which is what the source wrote.
#[derive(Debug, PartialEq)]
pub enum Token {
    At,
    Hash,
    Main,
    Function,
    Vault,
    Kill,
    Exit,
    Yield,
    Return,
    If,
    Else,
    Loop,
    For,
    In,
    Break,
    True,
    False,
    Free,
    Print,
    While,
    As,
    Struct,
    Auto,
    Assert,
    Enum,
    Match,
    FatArrow,
    Trait,
    Impl,
    Mod,
    Const,
    Fn,
    Pipe,
    Import,
    Int,
    Float,
    String,
    Bool,
    TyI8,
    TyI16,
    TyI32,
    TyI64,
    TyU8,
    TyU16,
    TyU32,
    TyU64,
    IntLit(i64),
    FloatLit(String),
    StringLit(String),
    FStringLit(String),
    Ident(String),
    LParen,
    RParen,
    LBrace,
    RBrace,
    LBracket,
    RBracket,
    Semicolon,
    Comma,
    Colon,
    Dot,
    Eq,
    EqEq,
    Neq,
    Le,
    Ge,
    Arrow,
    DotDot,
    Plus,
    Minus,
    Star,
    Slash,
    Percent,
    PlusEq,
    MinusEq,
    StarEq,
    SlashEq,
    PercentEq,
    Not,
    And,
    Or,
    Lt,
    Gt,
    EOF,
}

/// The mathematical view of a [`Token`]: texts as `Seq<char>`.

pub enum TokenV {
    At,
    Hash,
    Main,
    Function,
    Vault,
    Kill,
    Exit,
    Yield,
    Return,
    If,
    Else,
    Loop,
    For,
    In,
    Break,
    True,
    False,
    Free,
    Print,
    While,
    As,
    Struct,
    Auto,
    Assert,
    Enum,
    Match,
    FatArrow,
    Trait,
    Impl,
    Mod,
    Const,
    Fn,
    Pipe,
    Import,
    Int,
    Float,
    String,
    Bool,
    TyI8,
    TyI16,
    TyI32,
    TyI64,
    TyU8,
    TyU16,
    TyU32,
    TyU64,
    IntLit(i64),
    FloatLit(Seq<char>),
    StringLit(Seq<char>),
    FStringLit(Seq<char>),
    Ident(Seq<char>),
    LParen,
    RParen,
    LBrace,
    RBrace,
    LBracket,
    RBracket,
    Semicolon,
    Comma,
    Colon,
    Dot,
    Eq,
    EqEq,
    Neq,
    Le,
    Ge,
    Arrow,
    DotDot,
    Plus,
    Minus,
    Star,
    Slash,
    Percent,
    PlusEq,
    MinusEq,
    StarEq,
    SlashEq,
    PercentEq,
    Not,
    And,
    Or,
    Lt,
    Gt,
    EOF,
}

impl View for Token {
    type V = TokenV;

    open spec fn view(&self) -> TokenV {
        match self {
            Token::At => TokenV::At,
            Token::Hash => TokenV::Hash,
            Token::Main => TokenV::Main,
            Token::Function => TokenV::Function,
            Token::Vault => TokenV::Vault,
            Token::Kill => TokenV::Kill,
            Token::Exit => TokenV::Exit,
            Token::Yield => TokenV::Yield,
            Token::Return => TokenV::Return,
            Token::If => TokenV::If,
            Token::Else => TokenV::Else,
            Token::Loop => TokenV::Loop,
            Token::For => TokenV::For,
            Token::In => TokenV::In,
            Token::Break => TokenV::Break,
            Token::True => TokenV::True,
            Token::False => TokenV::False,
            Token::Free => TokenV::Free,
            Token::Print => TokenV::Print,
            Token::While => TokenV::While,
            Token::As => TokenV::As,
            Token::Struct => TokenV::Struct,
            Token::Auto => TokenV::Auto,
            Token::Assert => TokenV::Assert,
            Token::Enum => TokenV::Enum,
            Token::Match => TokenV::Match,
            Token::FatArrow => TokenV::FatArrow,
            Token::Trait => TokenV::Trait,
            Token::Impl => TokenV::Impl,
            Token::Mod => TokenV::Mod,
            Token::Const => TokenV::Const,
            Token::Fn => TokenV::Fn,
            Token::Pipe => TokenV::Pipe,
            Token::Import => TokenV::Import,
            Token::Int => TokenV::Int,
            Token::Float => TokenV::Float,
            Token::String => TokenV::String,
            Token::Bool => TokenV::Bool,
            Token::TyI8 => TokenV::TyI8,
            Token::TyI16 => TokenV::TyI16,
            Token::TyI32 => TokenV::TyI32,
            Token::TyI64 => TokenV::TyI64,
            Token::TyU8 => TokenV::TyU8,
            Token::TyU16 => TokenV::TyU16,
            Token::TyU32 => TokenV::TyU32,
            Token::TyU64 => TokenV::TyU64,
            Token::LParen => TokenV::LParen,
            Token::RParen => TokenV::RParen,
            Token::LBrace => TokenV::LBrace,
            Token::RBrace => TokenV::RBrace,
            Token::LBracket => TokenV::LBracket,
            Token::RBracket => TokenV::RBracket,
            Token::Semicolon => TokenV::Semicolon,
            Token::Comma => TokenV::Comma,
            Token::Colon => TokenV::Colon,
            Token::Dot => TokenV::Dot,
            Token::Eq => TokenV::Eq,
            Token::EqEq => TokenV::EqEq,
            Token::Neq => TokenV::Neq,
            Token::Le => TokenV::Le,
            Token::Ge => TokenV::Ge,
            Token::Arrow => TokenV::Arrow,
            Token::DotDot => TokenV::DotDot,
            Token::Plus => TokenV::Plus,
            Token::Minus => TokenV::Minus,
            Token::Star => TokenV::Star,
            Token::Slash => TokenV::Slash,
            Token::Percent => TokenV::Percent,
            Token::PlusEq => TokenV::PlusEq,
            Token::MinusEq => TokenV::MinusEq,
            Token::StarEq => TokenV::StarEq,
            Token::SlashEq => TokenV::SlashEq,
            Token::PercentEq => TokenV::PercentEq,
            Token::Not => TokenV::Not,
            Token::And => TokenV::And,
            Token::Or => TokenV::Or,
            Token::Lt => TokenV::Lt,
            Token::Gt => TokenV::Gt,
            Token::EOF => TokenV::EOF,
            Token::IntLit(v) => TokenV::IntLit(*v),
            Token::FloatLit(s) => TokenV::FloatLit(s@),
            Token::StringLit(s) => TokenV::StringLit(s@),
            Token::FStringLit(s) => TokenV::FStringLit(s@),
            Token::Ident(s) => TokenV::Ident(s@),
        }
    }
}
/// A copy of a token, equal to it.
pub fn token_clone(t: &Token) -> (r: Token)
    ensures
        r@ == t@,
{
    match t {
        Token::At => Token::At,
        Token::Hash => Token::Hash,
        Token::Main => Token::Main,
        Token::Function => Token::Function,
        Token::Vault => Token::Vault,
        Token::Kill => Token::Kill,
        Token::Exit => Token::Exit,
        Token::Yield => Token::Yield,
        Token::Return => Token::Return,
        Token::If => Token::If,
        Token::Else => Token::Else,
        Token::Loop => Token::Loop,
        Token::For => Token::For,
        Token::In => Token::In,
        Token::Break => Token::Break,
        Token::True => Token::True,
        Token::False => Token::False,
        Token::Free => Token::Free,
        Token::Print => Token::Print,
        Token::While => Token::While,
        Token::As => Token::As,
        Token::Struct => Token::Struct,
        Token::Auto => Token::Auto,
        Token::Assert => Token::Assert,
        Token::Enum => Token::Enum,
        Token::Match => Token::Match,
        Token::FatArrow => Token::FatArrow,
        Token::Trait => Token::Trait,
        Token::Impl => Token::Impl,
        Token::Mod => Token::Mod,
        Token::Const => Token::Const,
        Token::Fn => Token::Fn,
        Token::Pipe => Token::Pipe,
        Token::Import => Token::Import,
        Token::Int => Token::Int,
        Token::Float => Token::Float,
        Token::String => Token::String,
        Token::Bool => Token::Bool,
        Token::TyI8 => Token::TyI8,
        Token::TyI16 => Token::TyI16,
        Token::TyI32 => Token::TyI32,
        Token::TyI64 => Token::TyI64,
        Token::TyU8 => Token::TyU8,
        Token::TyU16 => Token::TyU16,
        Token::TyU32 => Token::TyU32,
        Token::TyU64 => Token::TyU64,
        Token::IntLit(n) => Token::IntLit(*n),
        Token::FloatLit(s) => Token::FloatLit(s.clone()),
        Token::StringLit(s) => Token::StringLit(s.clone()),
        Token::FStringLit(s) => Token::FStringLit(s.clone()),
        Token::Ident(s) => Token::Ident(s.clone()),
        Token::LParen => Token::LParen,
        Token::RParen => Token::RParen,
        Token::LBrace => Token::LBrace,
        Token::RBrace => Token::RBrace,
        Token::LBracket => Token::LBracket,
        Token::RBracket => Token::RBracket,
        Token::Semicolon => Token::Semicolon,
        Token::Comma => Token::Comma,
        Token::Colon => Token::Colon,
        Token::Dot => Token::Dot,
        Token::Eq => Token::Eq,
        Token::EqEq => Token::EqEq,
        Token::Neq => Token::Neq,
        Token::Le => Token::Le,
        Token::Ge => Token::Ge,
        Token::Arrow => Token::Arrow,
        Token::DotDot => Token::DotDot,
        Token::Plus => Token::Plus,
        Token::Minus => Token::Minus,
        Token::Star => Token::Star,
        Token::Slash => Token::Slash,
        Token::Percent => Token::Percent,
        Token::PlusEq => Token::PlusEq,
        Token::MinusEq => Token::MinusEq,
        Token::StarEq => Token::StarEq,
        Token::SlashEq => Token::SlashEq,
        Token::PercentEq => Token::PercentEq,
        Token::Not => Token::Not,
        Token::And => Token::And,
        Token::Or => Token::Or,
        Token::Lt => Token::Lt,
        Token::Gt => Token::Gt,
        Token::EOF => Token::EOF,
    }
}

impl Clone for Token {
    fn clone(&self) -> (r: Self)
        ensures
            r@ == self@,
    {
        token_clone(self)
    }
}

/// The kind of an anchor: `@name(main)`, `@name()`, `@name(thread)` or
/// `@name(event(e))`.
#[derive(Debug, PartialEq, Clone)]
pub enum AnchorKind {
    Main,
    Plain,
    Thread,
    Event(String),
}

/// The view of an anchor kind.
pub enum AnchorKindV {
    Main,
    Plain,
    Thread,
    Event(Seq<char>),
}

impl View for AnchorKind {
    type V = AnchorKindV;

    open spec fn view(&self) -> AnchorKindV {
        match self {
            AnchorKind::Main => AnchorKindV::Main,
            AnchorKind::Plain => AnchorKindV::Plain,
            AnchorKind::Thread => AnchorKindV::Thread,
            AnchorKind::Event(e) => AnchorKindV::Event(e@),
        }
    }
}

/// A source position: 1-based line and 0-based column.
#[derive(Debug, PartialEq, Eq, Clone, Copy, Structural)]
pub struct Span {
    pub line: usize,
    pub col: usize,
}

/// A Kyte type.
#[derive(Debug, PartialEq)]
pub enum Ty {
    Int,
    Float,
    String,
    Bool,
    I8,
    I16,
    I32,
    I64,
    U8,
    U16,
    U32,
    U64,
    Array(Box<Ty>),
    Struct(String),
    Auto,
    Enum(String),
    TypeParam(String),
    Fn(Vec<Ty>, Option<Box<Ty>>),
}

/// The mathematical view of a [`Ty`]: names as `Seq<char>`, parameter
/// lists as `Seq`.
pub enum TyV {
    Int,
    Float,
    String,
    Bool,
    I8,
    I16,
    I32,
    I64,
    U8,
    U16,
    U32,
    U64,
    Array(Box<TyV>),
    Struct(Seq<char>),
    Auto,
    Enum(Seq<char>),
    TypeParam(Seq<char>),
    Fn(Seq<TyV>, Option<Box<TyV>>),
}

/// The view of a type.
pub open spec fn ty_view(t: Ty) -> TyV
    decreases t,
{
    match t {
        Ty::Int => TyV::Int,
        Ty::Float => TyV::Float,
        Ty::String => TyV::String,
        Ty::Bool => TyV::Bool,
        Ty::I8 => TyV::I8,
        Ty::I16 => TyV::I16,
        Ty::I32 => TyV::I32,
        Ty::I64 => TyV::I64,
        Ty::U8 => TyV::U8,
        Ty::U16 => TyV::U16,
        Ty::U32 => TyV::U32,
        Ty::U64 => TyV::U64,
        Ty::Array(b) => TyV::Array(Box::new(ty_view(*b))),
        Ty::Struct(n) => TyV::Struct(n@),
        Ty::Auto => TyV::Auto,
        Ty::Enum(n) => TyV::Enum(n@),
        Ty::TypeParam(n) => TyV::TypeParam(n@),
        Ty::Fn(ps, ret) => TyV::Fn(
            Seq::new(
                ps@.len(),
                |i: int|
                    if 0 <= i < ps@.len() {
                        proof {
                            vstd::std_specs::vec::axiom_vec_index_decreases(ps, i);
                        }
                        ty_view(ps[i])
                    } else {
                        TyV::Auto
                    },
            ),
            match ret {
                Some(b) => Some(Box::new(ty_view(*b))),
                None => None,
            },
        ),
    }
}

impl View for Ty {
    type V = TyV;

    open spec fn view(&self) -> TyV {
        ty_view(*self)
    }
}

/// A copy of a type, equal to it.
pub fn ty_clone(t: &Ty) -> (r: Ty)
    ensures
        r@ == t@,
    decreases t,
{
    match t {
        Ty::Int => Ty::Int,
        Ty::Float => Ty::Float,
        Ty::String => Ty::String,
        Ty::Bool => Ty::Bool,
        Ty::I8 => Ty::I8,
        Ty::I16 => Ty::I16,
        Ty::I32 => Ty::I32,
        Ty::I64 => Ty::I64,
        Ty::U8 => Ty::U8,
        Ty::U16 => Ty::U16,
        Ty::U32 => Ty::U32,
        Ty::U64 => Ty::U64,
        Ty::Array(inner) => Ty::Array(Box::new(ty_clone(inner))),
        Ty::Struct(n) => Ty::Struct(n.clone()),
        Ty::Auto => Ty::Auto,
        Ty::Enum(n) => Ty::Enum(n.clone()),
        Ty::TypeParam(n) => Ty::TypeParam(n.clone()),
        Ty::Fn(ps, ret) => {
            let mut v: Vec<Ty> = Vec::new();
            let mut i: usize = 0;
            while i < ps.len()
                invariant
                    i <= ps@.len(),
                    *t == Ty::Fn(*ps, *ret),
                    v@.len() == i,
                    forall|j: int| 0 <= j < i ==> #[trigger] ty_view(v@[j]) == ty_view(ps@[j]),
                decreases ps@.len() - i,
            {
                proof {
                    vstd::std_specs::vec::axiom_vec_index_decreases(*ps, i as int);
                    assert(decreases_to!(*t => (*t)->Fn_0));
                    assert(decreases_to!(*t => ps@[i as int]));
                }
                v.push(ty_clone(&ps[i]));
                i = i + 1;
            }
            let r = match ret {
                Some(b) => Some(Box::new(ty_clone(b))),
                None => None,
            };
            let out = Ty::Fn(v, r);
            proof {
                let a = ty_view(out);
                let b = ty_view(*t);
                if let (TyV::Fn(x, _), TyV::Fn(y, _)) = (a, b) {
                    assert forall|j: int| 0 <= j < x.len() implies x[j] == y[j] by {
                        assert(ty_view(v@[j]) == ty_view(ps@[j]));
                    }
                    assert(x =~= y);
                }
            }
            out
        },
    }
}

impl Clone for Ty {
    fn clone(&self) -> (r: Self)
        ensures
            r@ == self@,
    {
        ty_clone(self)
    }
}

/// An expression. A float literal keeps its source text.
#[derive(Debug, PartialEq)]
pub enum Expr {
    IntLit(i64),
    FloatLit(String),
    StringLit(String),
    Bool(bool),
    Ident(String),
    UnaryOp { op: UnaryOpKind, expr: Box<Expr> },
    BinOp { left: Box<Expr>, op: BinOpKind, right: Box<Expr> },
    Call { name: String, args: Vec<Expr> },
    ArrayLit(Vec<Expr>),
    Index { array: Box<Expr>, index: Box<Expr> },
    Cast { expr: Box<Expr>, ty: Ty },
    StructInit { name: String, fields: Vec<(String, Expr)> },
    FieldAccess { base: Box<Expr>, field: String },
    MethodCall { base: Box<Expr>, method: String, args: Vec<Expr> },
    EnumVariant { enum_name: String, variant: String, value: Option<Box<Expr>> },
    Closure { params: Vec<(String, Option<Ty>)>, body: Vec<(Stmt, Span)> },
    FStringLit(Vec<FStringPart>),
}

#[derive(Debug, PartialEq, Eq, Clone, Copy, Structural)]
pub enum UnaryOpKind {
    Neg,
    Not,
}

#[derive(Debug, PartialEq)]
pub enum FStringPart {
    Literal(String),
    Expr(Expr),
}

#[derive(Debug, PartialEq, Eq, Clone, Copy, Structural)]
pub enum BinOpKind {
    Add,
    Sub,
    Mul,
    Div,
    Mod,
    Lt,
    Gt,
    Eq,
    Neq,
    Le,
    Ge,
    And,
    Or,
}

/// A statement.
#[derive(Debug, PartialEq)]
pub enum Stmt {
    VarDecl { ty: Ty, name: String, value: Expr },
    ConstDecl { ty: Ty, name: String, value: Expr },
    VaultDecl { ty: Ty, name: String, value: Expr },
    Assign { name: String, value: Expr },
    IndexAssign { name: String, index: Expr, value: Expr },
    FieldAssign { name: String, field: String, value: Expr },
    CompoundAssign { name: String, op: BinOpKind, value: Expr },
    Kill(Option<Expr>),
    Exit,
    Yield(Expr),
    Return(Option<Expr>),
    If { cond: Expr, then_body: Vec<(Stmt, Span)>, else_body: Option<Vec<(Stmt, Span)>> },
    Loop(Vec<(Stmt, Span)>),
    While { cond: Expr, body: Vec<(Stmt, Span)> },
    For { var: String, from: Expr, to: Expr, body: Vec<(Stmt, Span)> },
    Break,
    Free(String),
    Print(Vec<Expr>),
    Assert { cond: Expr, message: Option<Expr> },
    Match { expr: Expr, arms: Vec<MatchArm> },
    InlineAnchor { name: String, kind: AnchorKind, body: Vec<(Stmt, Span)> },
    ExprStmt(Expr),
}

/// A function parameter.
#[derive(Debug, PartialEq, Clone)]
pub struct Param {
    pub ty: Ty,
    pub name: String,
}

#[derive(Debug, PartialEq, Clone)]
pub struct StructField {
    pub ty: Ty,
    pub name: String,
}

#[derive(Debug, PartialEq, Clone)]
pub struct EnumVariant {
    pub name: String,
    pub ty: Option<Ty>,
}

#[derive(Debug, PartialEq, Clone)]
pub struct TraitMethod {
    pub name: String,
    pub params: Vec<Param>,
    pub return_ty: Option<Ty>,
}

#[derive(Debug, PartialEq)]
pub struct MatchArm {
    pub pattern: Pattern,
    pub body: Vec<(Stmt, Span)>,
}

/// A `match` pattern. A float literal keeps its source text.
#[derive(Debug, PartialEq, Clone)]
pub enum Pattern {
    IntLit(i64),
    FloatLit(String),
    StringLit(String),
    Bool(bool),
    EnumVariant { enum_name: String, variant: String, binding: Option<String> },
    Wildcard,
}

/// The view of a pattern.
pub enum PatternV {
    IntLit(i64),
    FloatLit(Seq<char>),
    StringLit(Seq<char>),
    Bool(bool),
    EnumVariant { enum_name: Seq<char>, variant: Seq<char>, binding: Option<Seq<char>> },
    Wildcard,
}

impl View for Pattern {
    type V = PatternV;

    open spec fn view(&self) -> PatternV {
        match self {
            Pattern::IntLit(n) => PatternV::IntLit(*n),
            Pattern::FloatLit(f) => PatternV::FloatLit(f@),
            Pattern::StringLit(s) => PatternV::StringLit(s@),
            Pattern::Bool(b) => PatternV::Bool(*b),
            Pattern::EnumVariant { enum_name, variant, binding } => PatternV::EnumVariant {
                enum_name: enum_name@,
                variant: variant@,
                binding: match binding {
                    Some(b) => Some(b@),
                    None => None,
                },
            },
            Pattern::Wildcard => PatternV::Wildcard,
        }
    }
}

// ───────────────────────── views of expressions and statements ─────────────────────────

/// The view of a part of an f-string.
pub enum FStringPartV {
    Literal(Seq<char>),
    Expr(ExprV),
}

/// The view of an expression.
pub enum ExprV {
    IntLit(i64),
    FloatLit(Seq<char>),
    StringLit(Seq<char>),
    Bool(bool),
    Ident(Seq<char>),
    UnaryOp { op: UnaryOpKind, expr: Box<ExprV> },
    BinOp { left: Box<ExprV>, op: BinOpKind, right: Box<ExprV> },
    Call { name: Seq<char>, args: Seq<ExprV> },
    ArrayLit(Seq<ExprV>),
    Index { array: Box<ExprV>, index: Box<ExprV> },
    Cast { expr: Box<ExprV>, ty: TyV },
    StructInit { name: Seq<char>, fields: Seq<(Seq<char>, ExprV)> },
    FieldAccess { base: Box<ExprV>, field: Seq<char> },
    MethodCall { base: Box<ExprV>, method: Seq<char>, args: Seq<ExprV> },
    EnumVariant { enum_name: Seq<char>, variant: Seq<char>, value: Option<Box<ExprV>> },
    Closure { params: Seq<(Seq<char>, Option<TyV>)>, body: Seq<(StmtV, Span)> },
    FStringLit(Seq<FStringPartV>),
}

/// The view of a statement.
pub enum StmtV {
    VarDecl { ty: TyV, name: Seq<char>, value: ExprV },
    ConstDecl { ty: TyV, name: Seq<char>, value: ExprV },
    VaultDecl { ty: TyV, name: Seq<char>, value: ExprV },
    Assign { name: Seq<char>, value: ExprV },
    IndexAssign { name: Seq<char>, index: ExprV, value: ExprV },
    FieldAssign { name: Seq<char>, field: Seq<char>, value: ExprV },
    CompoundAssign { name: Seq<char>, op: BinOpKind, value: ExprV },
    Kill(Option<ExprV>),
    Exit,
    Yield(ExprV),
    Return(Option<ExprV>),
    If { cond: ExprV, then_body: Seq<(StmtV, Span)>, else_body: Option<Seq<(StmtV, Span)>> },
    Loop(Seq<(StmtV, Span)>),
    While { cond: ExprV, body: Seq<(StmtV, Span)> },
    For { var: Seq<char>, from: ExprV, to: ExprV, body: Seq<(StmtV, Span)> },
    Break,
    Free(Seq<char>),
    Print(Seq<ExprV>),
    Assert { cond: ExprV, message: Option<ExprV> },
    Match { expr: ExprV, arms: Seq<(PatternV, Seq<(StmtV, Span)>)> },
    InlineAnchor { name: Seq<char>, kind: AnchorKindV, body: Seq<(StmtV, Span)> },
    ExprStmt(ExprV),
}

/// The view of an optional type.
pub open spec fn opt_ty_v(o: Option<Ty>) -> Option<TyV> {
    match o {
        Some(t) => Some(t@),
        None => None,
    }
}

/// The view of an expression.
pub open spec fn expr_v(e: Expr) -> ExprV
    decreases e,
{
    match e {
        Expr::IntLit(n) => ExprV::IntLit(n),
        Expr::FloatLit(f) => ExprV::FloatLit(f@),
        Expr::StringLit(s) => ExprV::StringLit(s@),
        Expr::Bool(b) => ExprV::Bool(b),
        Expr::Ident(n) => ExprV::Ident(n@),
        Expr::UnaryOp { op, expr } => ExprV::UnaryOp { op, expr: Box::new(expr_v(*expr)) },
        Expr::BinOp { left, op, right } => ExprV::BinOp {
            left: Box::new(expr_v(*left)),
            op,
            right: Box::new(expr_v(*right)),
        },
        Expr::Call { name, args } => ExprV::Call { name: name@, args: exprs_v(args) },
        Expr::ArrayLit(es) => ExprV::ArrayLit(exprs_v(es)),
        Expr::Index { array, index } => ExprV::Index {
            array: Box::new(expr_v(*array)),
            index: Box::new(expr_v(*index)),
        },
        Expr::Cast { expr, ty } => ExprV::Cast { expr: Box::new(expr_v(*expr)), ty: ty@ },
        Expr::StructInit { name, fields } => ExprV::StructInit { name: name@, fields: fields_v(fields) },
        Expr::FieldAccess { base, field } => ExprV::FieldAccess { base: Box::new(expr_v(*base)), field: field@ },
        Expr::MethodCall { base, method, args } => ExprV::MethodCall {
            base: Box::new(expr_v(*base)),
            method: method@,
            args: exprs_v(args),
        },
        Expr::EnumVariant { enum_name, variant, value } => ExprV::EnumVariant {
            enum_name: enum_name@,
            variant: variant@,
            value: match value {
                Some(v) => Some(Box::new(expr_v(*v))),
                None => None,
            },
        },
        Expr::Closure { params, body } => ExprV::Closure { params: params_v(params), body: stmts_v(body) },
        Expr::FStringLit(parts) => ExprV::FStringLit(parts_v(parts)),
    }
}

/// The views of a list of expressions.
pub open spec fn exprs_v(v: Vec<Expr>) -> Seq<ExprV>
    decreases v,
{
    Seq::new(
        v@.len(),
        |i: int|
            if 0 <= i < v@.len() {
                proof {
                    vstd::std_specs::vec::axiom_vec_index_decreases(v, i);
                }
                expr_v(v[i])
            } else {
                ExprV::IntLit(0)
            },
    )
}

/// The views of the fields of a struct literal.
pub open spec fn fields_v(v: Vec<(String, Expr)>) -> Seq<(Seq<char>, ExprV)>
    decreases v,
{
    Seq::new(
        v@.len(),
        |i: int|
            if 0 <= i < v@.len() {
                proof {
                    vstd::std_specs::vec::axiom_vec_index_decreases(v, i);
                }
                (v[i].0@, expr_v(v[i].1))
            } else {
                (Seq::empty(), ExprV::IntLit(0))
            },
    )
}

/// The views of the parameters of a closure.
pub open spec fn params_v(v: Vec<(String, Option<Ty>)>) -> Seq<(Seq<char>, Option<TyV>)> {
    v@.map_values(|p: (String, Option<Ty>)| (p.0@, opt_ty_v(p.1)))
}

/// The views of the parts of an f-string.
pub open spec fn parts_v(v: Vec<FStringPart>) -> Seq<FStringPartV>
    decreases v,
{
    Seq::new(
        v@.len(),
        |i: int|
            if 0 <= i < v@.len() {
                proof {
                    vstd::std_specs::vec::axiom_vec_index_decreases(v, i);
                }
                match v[i] {
                    FStringPart::Literal(s) => FStringPartV::Literal(s@),
                    FStringPart::Expr(e) => FStringPartV::Expr(expr_v(e)),
                }
            } else {
                FStringPartV::Literal(Seq::empty())
            },
    )
}

/// The view of a statement.
pub open spec fn stmt_v(s: Stmt) -> StmtV
    decreases s,
{
    match s {
        Stmt::VarDecl { ty, name, value } => StmtV::VarDecl { ty: ty@, name: name@, value: expr_v(value) },
        Stmt::ConstDecl { ty, name, value } => StmtV::ConstDecl { ty: ty@, name: name@, value: expr_v(value) },
        Stmt::VaultDecl { ty, name, value } => StmtV::VaultDecl { ty: ty@, name: name@, value: expr_v(value) },
        Stmt::Assign { name, value } => StmtV::Assign { name: name@, value: expr_v(value) },
        Stmt::IndexAssign { name, index, value } => StmtV::IndexAssign {
            name: name@,
            index: expr_v(index),
            value: expr_v(value),
        },
        Stmt::FieldAssign { name, field, value } => StmtV::FieldAssign {
            name: name@,
            field: field@,
            value: expr_v(value),
        },
        Stmt::CompoundAssign { name, op, value } => StmtV::CompoundAssign { name: name@, op, value: expr_v(value) },
        Stmt::Kill(e) => StmtV::Kill(
            match e {
                Some(x) => Some(expr_v(x)),
                None => None,
            },
        ),
        Stmt::Exit => StmtV::Exit,
        Stmt::Yield(e) => StmtV::Yield(expr_v(e)),
        Stmt::Return(e) => StmtV::Return(
            match e {
                Some(x) => Some(expr_v(x)),
                None => None,
            },
        ),
        Stmt::If { cond, then_body, else_body } => StmtV::If {
            cond: expr_v(cond),
            then_body: stmts_v(then_body),
            else_body: match else_body {
                Some(b) => Some(stmts_v(b)),
                None => None,
            },
        },
        Stmt::Loop(b) => StmtV::Loop(stmts_v(b)),
        Stmt::While { cond, body } => StmtV::While { cond: expr_v(cond), body: stmts_v(body) },
        Stmt::For { var, from, to, body } => StmtV::For {
            var: var@,
            from: expr_v(from),
            to: expr_v(to),
            body: stmts_v(body),
        },
        Stmt::Break => StmtV::Break,
        Stmt::Free(n) => StmtV::Free(n@),
        Stmt::Print(args) => StmtV::Print(exprs_v(args)),
        Stmt::Assert { cond, message } => StmtV::Assert {
            cond: expr_v(cond),
            message: match message {
                Some(m) => Some(expr_v(m)),
                None => None,
            },
        },
        Stmt::Match { expr, arms } => StmtV::Match { expr: expr_v(expr), arms: arms_v(arms) },
        Stmt::InlineAnchor { name, kind, body } => StmtV::InlineAnchor { name: name@, kind: kind@, body: stmts_v(body) },
        Stmt::ExprStmt(e) => StmtV::ExprStmt(expr_v(e)),
    }
}

/// The views of a block of statements.
pub open spec fn stmts_v(v: Vec<(Stmt, Span)>) -> Seq<(StmtV, Span)>
    decreases v,
{
    Seq::new(
        v@.len(),
        |i: int|
            if 0 <= i < v@.len() {
                proof {
                    vstd::std_specs::vec::axiom_vec_index_decreases(v, i);
                }
                (stmt_v(v[i].0), v[i].1)
            } else {
                (StmtV::Break, Span { line: 0, col: 0 })
            },
    )
}

/// The views of the arms of a `match`.
pub open spec fn arms_v(v: Vec<MatchArm>) -> Seq<(PatternV, Seq<(StmtV, Span)>)>
    decreases v,
{
    Seq::new(
        v@.len(),
        |i: int|
            if 0 <= i < v@.len() {
                proof {
                    vstd::std_specs::vec::axiom_vec_index_decreases(v, i);
                }
                (v[i].pattern@, stmts_v(v[i].body))
            } else {
                (PatternV::Wildcard, Seq::empty())
            },
    )
}

impl View for Expr {
    type V = ExprV;

    open spec fn view(&self) -> ExprV {
        expr_v(*self)
    }
}

impl View for Stmt {
    type V = StmtV;

    open spec fn view(&self) -> StmtV {
        stmt_v(*self)
    }
}

/// The views of function parameters: type and name of each.
pub open spec fn params_view(v: Vec<Param>) -> Seq<(TyV, Seq<char>)> {
    v@.map_values(|p: Param| (p.ty@, p.name@))
}

/// The views of struct fields: type and name of each.
pub open spec fn sfields_view(v: Vec<StructField>) -> Seq<(TyV, Seq<char>)> {
    v@.map_values(|f: StructField| (f.ty@, f.name@))
}

/// The views of enum variants: name and payload type of each.
pub open spec fn variants_v(v: Vec<EnumVariant>) -> Seq<(Seq<char>, Option<TyV>)> {
    v@.map_values(|x: EnumVariant| (x.name@, opt_ty_v(x.ty)))
}

/// The views of trait methods: name, parameters and return type of each.
pub open spec fn methods_v(v: Vec<TraitMethod>) -> Seq<(Seq<char>, Seq<(TyV, Seq<char>)>, Option<TyV>)> {
    v@.map_values(|m: TraitMethod| (m.name@, params_view(m.params), opt_ty_v(m.return_ty)))
}

/// The texts of a list of strings.
pub open spec fn names_v(v: Vec<String>) -> Seq<Seq<char>> {
    v@.map_values(|x: String| x@)
}

/// The view of a top-level item.
pub enum TopLevelV {
    Anchor { name: Seq<char>, kind: AnchorKindV, body: Seq<(StmtV, Span)>, children: Seq<(TopLevelV, Span)> },
    Function {
        name: Seq<char>,
        type_params: Seq<Seq<char>>,
        params: Seq<(TyV, Seq<char>)>,
        return_ty: Option<TyV>,
        body: Seq<(StmtV, Span)>,
        decorators: Seq<Seq<char>>,
    },
    Struct { name: Seq<char>, fields: Seq<(TyV, Seq<char>)> },
    Enum { name: Seq<char>, variants: Seq<(Seq<char>, Option<TyV>)> },
    Trait { name: Seq<char>, methods: Seq<(Seq<char>, Seq<(TyV, Seq<char>)>, Option<TyV>)> },
    Impl { trait_name: Seq<char>, target_ty: Seq<char>, methods: Seq<(TopLevelV, Span)> },
    Module { name: Seq<char>, items: Seq<(TopLevelV, Span)> },
    ConstDecl { ty: TyV, name: Seq<char>, value: ExprV },
}

/// The view of a top-level item.
pub open spec fn top_v(t: TopLevel) -> TopLevelV
    decreases t,
{
    match t {
        TopLevel::Anchor { name, kind, body, children } => TopLevelV::Anchor {
            name: name@,
            kind: kind@,
            body: stmts_v(body),
            children: tops_v(children),
        },
        TopLevel::Function { name, type_params, params, return_ty, body, decorators } => TopLevelV::Function {
            name: name@,
            type_params: names_v(type_params),
            params: params_view(params),
            return_ty: opt_ty_v(return_ty),
            body: stmts_v(body),
            decorators: names_v(decorators),
        },
        TopLevel::Struct { name, fields } => TopLevelV::Struct { name: name@, fields: sfields_view(fields) },
        TopLevel::Enum { name, variants } => TopLevelV::Enum { name: name@, variants: variants_v(variants) },
        TopLevel::Trait { name, methods } => TopLevelV::Trait { name: name@, methods: methods_v(methods) },
        TopLevel::Impl { trait_name, target_ty, methods } => TopLevelV::Impl {
            trait_name: trait_name@,
            target_ty: target_ty@,
            methods: tops_v(methods),
        },
        TopLevel::Module { name, items } => TopLevelV::Module { name: name@, items: tops_v(items) },
        TopLevel::ConstDecl { ty, name, value } => TopLevelV::ConstDecl { ty: ty@, name: name@, value: expr_v(value) },
    }
}

/// The views of top-level items with their positions.
pub open spec fn tops_v(v: Vec<(TopLevel, Span)>) -> Seq<(TopLevelV, Span)>
    decreases v,
{
    Seq::new(
        v@.len(),
        |i: int|
            if 0 <= i < v@.len() {
                proof {
                    vstd::std_specs::vec::axiom_vec_index_decreases(v, i);
                }
                (top_v(v[i].0), v[i].1)
            } else {
                (TopLevelV::Struct { name: Seq::empty(), fields: Seq::empty() }, Span { line: 0, col: 0 })
            },
    )
}

impl View for TopLevel {
    type V = TopLevelV;

    open spec fn view(&self) -> TopLevelV {
        top_v(*self)
    }
}

/// A top-level item.
#[derive(Debug, PartialEq)]
pub enum TopLevel {
    Anchor {
        name: String,
        kind: AnchorKind,
        body: Vec<(Stmt, Span)>,
        children: Vec<(TopLevel, Span)>,
    },
    Function {
        name: String,
        type_params: Vec<String>,
        params: Vec<Param>,
        return_ty: Option<Ty>,
        body: Vec<(Stmt, Span)>,
        decorators: Vec<String>,
    },
    Struct { name: String, fields: Vec<StructField> },
    Enum { name: String, variants: Vec<EnumVariant> },
    Trait { name: String, methods: Vec<TraitMethod> },
    Impl { trait_name: String, target_ty: String, methods: Vec<(TopLevel, Span)> },
    Module { name: String, items: Vec<(TopLevel, Span)> },
    ConstDecl { ty: Ty, name: String, value: Expr },
}

/// A whole program.
#[derive(Debug, PartialEq)]
pub struct Program {
    pub items: Vec<(TopLevel, Span)>,
}

} // verus!
