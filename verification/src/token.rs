//! Tokens, lexical errors, and their mathematical models.

use vstd::prelude::*;

verus! {

/// What a token carries.
#[derive(Debug, PartialEq, Eq)]
pub enum TokenKind {
    /// An identifier, with exactly the text that was matched.
    Ident(String),
    /// An integer literal, with its value.
    Number(i64),
    /// One of the operator characters.
    Operator(char),
    LParen,
    RParen,
}

/// The model of a token: text as a sequence of characters.
pub ghost enum TokenModel {
    Ident(Seq<char>),
    Number(i64),
    Operator(char),
    LParen,
    RParen,
}

impl View for TokenKind {
    type V = TokenModel;

    open spec fn view(&self) -> TokenModel {
        match self {
            TokenKind::Ident(text) => TokenModel::Ident(text@),
            TokenKind::Number(value) => TokenModel::Number(*value),
            TokenKind::Operator(op) => TokenModel::Operator(*op),
            TokenKind::LParen => TokenModel::LParen,
            TokenKind::RParen => TokenModel::RParen,
        }
    }
}

/// One lexical unit of the input.
#[derive(Debug, PartialEq, Eq)]
pub struct Token {
    pub kind: TokenKind,
}

impl View for Token {
    type V = TokenModel;

    open spec fn view(&self) -> TokenModel {
        self.kind@
    }
}

/// The models of a sequence of tokens, in order.
pub open spec fn token_models(tokens: Seq<Token>) -> Seq<TokenModel> {
    tokens.map_values(|t: Token| t@)
}

/// Why an input could not be tokenized.
#[derive(Debug, PartialEq, Eq)]
pub enum LexError {
    /// A character that cannot begin any token, with its zero-based offset
    /// counted in characters.
    InvalidChar { ch: char, position: usize },
    /// A run of digits whose value does not fit a signed 64-bit integer.
    InvalidNumber { text: String },
}

/// The model of a lexical error.
pub ghost enum LexErrorModel {
    InvalidChar { ch: char, position: int },
    InvalidNumber { text: Seq<char> },
}

impl View for LexError {
    type V = LexErrorModel;

    open spec fn view(&self) -> LexErrorModel {
        match self {
            LexError::InvalidChar { ch, position } => LexErrorModel::InvalidChar {
                ch: *ch,
                position: *position as int,
            },
            LexError::InvalidNumber { text } => LexErrorModel::InvalidNumber { text: text@ },
        }
    }
}

} // verus!
