//! Lexical classes of single characters.

use vstd::prelude::*;

verus! {

/// The category a single input character falls into.
#[derive(Clone, Copy, Debug, PartialEq, Eq, Structural)]
pub enum Class {
    Letter,
    Digit,
    Operator,
    LParen,
    RParen,
    Whitespace,
    Other,
}

/// ASCII letters and the underscore.
pub open spec fn is_letter(c: char) -> bool {
    ('a' <= c && c <= 'z') || ('A' <= c && c <= 'Z') || c == '_'
}

/// ASCII decimal digits.
pub open spec fn is_digit(c: char) -> bool {
    '0' <= c && c <= '9'
}

/// The five operator characters.
pub open spec fn is_operator(c: char) -> bool {
    c == '+' || c == '-' || c == '*' || c == '/' || c == '='
}

/// Space, tab, line feed and carriage return.
pub open spec fn is_whitespace(c: char) -> bool {
    c == ' ' || c == '\n' || c == '\t' || c == '\r'
}

/// The class of a character: a total function, every character has exactly one class.
pub open spec fn class_of(c: char) -> Class {
    if is_letter(c) {
        Class::Letter
    } else if is_digit(c) {
        Class::Digit
    } else if is_operator(c) {
        Class::Operator
    } else if c == '(' {
        Class::LParen
    } else if c == ')' {
        Class::RParen
    } else if is_whitespace(c) {
        Class::Whitespace
    } else {
        Class::Other
    }
}

/// Maps a character to its lexical class.
pub fn classify(c: char) -> (class: Class)
    ensures
        class == class_of(c),
{
    match c {
        'a'..='z' | 'A'..='Z' | '_' => Class::Letter,
        '0'..='9' => Class::Digit,
        '+' | '-' | '*' | '/' | '=' => Class::Operator,
        '(' => Class::LParen,
        ')' => Class::RParen,
        ' ' | '\n' | '\t' | '\r' => Class::Whitespace,
        _ => Class::Other,
    }
}

} // verus!
