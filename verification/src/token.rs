//! The token model: the closed set of lexical categories that the lexer
//! produces and the parser consumes, together with its ghost mirror and the
//! lexical error type.

use vstd::prelude::*;

verus! {

/// A lexical token. Literal tokens carry a decoded payload; identifiers carry
/// their exact source lexeme. A float literal carries its lexeme (digits with
/// exactly one decimal point) rather than a decoded binary value, so that the
/// token is a plain value fully determined by the source text; decoding to a
/// machine float is left to consumers of the token stream.
#[derive(Debug, PartialEq, Eq)]
pub enum Token {
    IntT,
    FloatT,
    CharT,
    BoolT,
    VoidT,
    IntN { num: i32 },
    FloatN { lexeme: String },
    CharN { num: u8 },
    BoolTrue,
    BoolFalse,
    If,
    Else,
    While,
    Return,
    LP,
    RP,
    LC,
    RC,
    LB,
    RB,
    Semicolon,
    Comma,
    Assignment,
    Plus,
    Minus,
    Star,
    Slash,
    Bigger,
    Lesser,
    Equal,
    NotEqual,
    LesserEqual,
    BiggerEqual,
    Negation,
    Inc,
    Dec,
    UnAdd,
    UnSub,
    UnMul,
    UnDiv,
    Id { tok_lexeme: String },
}

/// The ghost mirror of `Token`: identical except that lexemes are character
/// sequences, so that specifications can build token values directly from the
/// source character sequence.
pub enum SpecToken {
    IntT,
    FloatT,
    CharT,
    BoolT,
    VoidT,
    IntN { num: i32 },
    FloatN { lexeme: Seq<char> },
    CharN { num: u8 },
    BoolTrue,
    BoolFalse,
    If,
    Else,
    While,
    Return,
    LP,
    RP,
    LC,
    RC,
    LB,
    RB,
    Semicolon,
    Comma,
    Assignment,
    Plus,
    Minus,
    Star,
    Slash,
    Bigger,
    Lesser,
    Equal,
    NotEqual,
    LesserEqual,
    BiggerEqual,
    Negation,
    Inc,
    Dec,
    UnAdd,
    UnSub,
    UnMul,
    UnDiv,
    Id { lexeme: Seq<char> },
}

impl View for Token {
    type V = SpecToken;

    open spec fn view(&self) -> SpecToken {
        match self {
            Token::IntT => SpecToken::IntT,
            Token::FloatT => SpecToken::FloatT,
            Token::CharT => SpecToken::CharT,
            Token::BoolT => SpecToken::BoolT,
            Token::VoidT => SpecToken::VoidT,
            Token::IntN { num } => SpecToken::IntN { num: *num },
            Token::FloatN { lexeme } => SpecToken::FloatN { lexeme: lexeme@ },
            Token::CharN { num } => SpecToken::CharN { num: *num },
            Token::BoolTrue => SpecToken::BoolTrue,
            Token::BoolFalse => SpecToken::BoolFalse,
            Token::If => SpecToken::If,
            Token::Else => SpecToken::Else,
            Token::While => SpecToken::While,
            Token::Return => SpecToken::Return,
            Token::LP => SpecToken::LP,
            Token::RP => SpecToken::RP,
            Token::LC => SpecToken::LC,
            Token::RC => SpecToken::RC,
            Token::LB => SpecToken::LB,
            Token::RB => SpecToken::RB,
            Token::Semicolon => SpecToken::Semicolon,
            Token::Comma => SpecToken::Comma,
            Token::Assignment => SpecToken::Assignment,
            Token::Plus => SpecToken::Plus,
            Token::Minus => SpecToken::Minus,
            Token::Star => SpecToken::Star,
            Token::Slash => SpecToken::Slash,
            Token::Bigger => SpecToken::Bigger,
            Token::Lesser => SpecToken::Lesser,
            Token::Equal => SpecToken::Equal,
            Token::NotEqual => SpecToken::NotEqual,
            Token::LesserEqual => SpecToken::LesserEqual,
            Token::BiggerEqual => SpecToken::BiggerEqual,
            Token::Negation => SpecToken::Negation,
            Token::Inc => SpecToken::Inc,
            Token::Dec => SpecToken::Dec,
            Token::UnAdd => SpecToken::UnAdd,
            Token::UnSub => SpecToken::UnSub,
            Token::UnMul => SpecToken::UnMul,
            Token::UnDiv => SpecToken::UnDiv,
            Token::Id { tok_lexeme } => SpecToken::Id { lexeme: tok_lexeme@ },
        }
    }
}

impl DeepView for Token {
    type V = SpecToken;

    open spec fn deep_view(&self) -> SpecToken {
        self.view()
    }
}

/// What went wrong while scanning, without its position.
#[derive(Debug, Clone, Copy, PartialEq, Eq)]
pub enum LexErrorKind {
    /// An operator character was followed by a character that extends none of
    /// the recognized compound operators.
    InvalidCompound,
    /// A numeric literal with two or more decimal points.
    MultipleDecimalPoints,
    /// An integer literal whose value does not fit a 32-bit signed integer.
    IntLiteralOverflow,
    /// A character literal that does not hold exactly one ASCII byte.
    CharLiteralLength,
    /// A character that starts no token at all.
    UnrecognizedSymbol,
}

/// A fatal lexical error: the kind of failure and the index, in the source
/// character sequence, of the first character of the offending construct.
#[derive(Debug, Clone, Copy, PartialEq, Eq)]
pub struct LexError {
    pub kind: LexErrorKind,
    pub pos: usize,
}

} // verus!
