//! The token model: lexical categories and the token record.

use vstd::prelude::*;
use crate::keyword::Keyword;
use crate::lexeme::Lexeme;

verus! {

/// Where a token began: its 1-based source line.
#[derive(Clone, Copy, Debug, PartialEq, Eq, Structural, PartialOrd, Ord)]
pub struct Span {
    pub line: i32,
}

/// A classified lexical unit: its category, the line it began on, and
/// whether it closes a logical statement.
#[derive(Clone, Copy, Debug, PartialEq, Eq, Structural, PartialOrd, Ord)]
pub struct Token {
    pub kind: TokenKind,
    pub span: Span,
    pub eos: bool,
}

/// The closed set of lexical categories.
#[derive(Clone, Copy, Debug, PartialEq, Eq, Structural, PartialOrd, Ord)]
pub enum TokenKind {
    Assign,
    Root,
    LineComment,
    BlockComment,
    Whitespace,
    Identifier,
    IdentifierEnd,
    NewLine,
    Literal(LiteralKind),
    Lexeme(Lexeme),
    Operator(Operator),
    Collection(Collection),
    Lifetime,
    Semi,
    Comma,
    DotDotDot,
    DotDotEq,
    DotDot,
    DoubleDot,
    NamespaceSeparator,
    Dot,
    OpenParen,
    CloseParen,
    OpenBrace,
    CloseBrace,
    OpenBracket,
    CloseBracket,
    At,
    Pound,
    Tilde,
    Question,
    ColonColon,
    Colon,
    Dollar,
    EqEq,
    Eq,
    FatArrow,
    PipeLine,
    Ne,
    Equal,
    NotEqual,
    Not,
    Le,
    LArrow,
    Lt,
    ShlEq,
    Shl,
    Ge,
    Gt,
    ShrEq,
    Shr,
    RArrow,
    Minus,
    MinusEq,
    And,
    AndAnd,
    AndEq,
    Or,
    OrOr,
    OrEq,
    PlusEq,
    Plus,
    StarEq,
    Star,
    SlashEq,
    Slash,
    CaretEq,
    Caret,
    PercentEq,
    Percent,
    Keyword(Keyword),
    TypeWithGeneric,
    Macro,
    MacroRules,
    MacroBody,
    FunctionCall,
    Unknown,
}

/// The type names of the source language.
#[derive(Clone, Copy, Debug, PartialEq, Eq, Structural, PartialOrd, Ord)]
pub enum LiteralKind {
    Int32,
    Int64,
    UInt32,
    UInt64,
    Float64,
    Float32,
    Usize,
    Isize,
    Char,
    Byte,
    String,
    Boolean,
}

/// The arithmetic operators.
#[derive(Clone, Copy, Debug, PartialEq, Eq, Structural, PartialOrd, Ord)]
pub enum Operator {
    Add,
    Minus,
    Divide,
    Multiply,
    Mod,
}

/// The kinds of collection literal.
#[derive(Clone, Copy, Debug, PartialEq, Eq, Structural, PartialOrd, Ord)]
pub enum Collection {
    Array,
    HashMap,
    Tuple,
    Vector,
}

impl Token {
    /// Builds a token of the given kind that began on `line`.
    pub fn new(kind: TokenKind, line: i32, eos: bool) -> (token: Token)
        ensures
            token == (Token { kind, span: Span { line }, eos }),
    {
        Token { kind, span: Span { line }, eos }
    }
}

} // verus!
