//! What the parser computes, as functions on token sequences.

use vstd::prelude::*;
use crate::ast::ExprModel;
use crate::token::TokenModel;

verus! {

/// Why a token sequence does not begin with an expression.
#[derive(Debug, Clone, Copy, PartialEq, Eq, Structural)]
pub enum ParseError {
    /// An expression had to start here, and the next token cannot start one,
    /// or there is no next token.
    UnexpectedToken,
    /// An opening parenthesis and the expression after it are not followed
    /// by a closing parenthesis.
    UnclosedParen,
}

/// An expression or an error, and the number of tokens that were taken to get
/// there.
pub ghost struct Parsed {
    pub result: Result<ExprModel, ParseError>,
    pub used: nat,
}

/// The binding powers of an operator, left then right. Higher binds tighter.
/// `=` groups to the right; the four arithmetic operators group to the left,
/// `*` and `/` tighter than `+` and `-`.
pub open spec fn binding_of(op: char) -> Option<(u8, u8)> {
    if op == '=' {
        Some((1u8, 0u8))
    } else if op == '+' || op == '-' {
        Some((10u8, 11u8))
    } else if op == '*' || op == '/' {
        Some((20u8, 21u8))
    } else {
        None
    }
}

/// `later`, reached after `n` tokens had been taken already.
pub open spec fn done(n: nat, later: Parsed) -> Parsed {
    Parsed { result: later.result, used: n + later.used }
}

/// The operator at `pos` that an expression at level `min_bp` continues
/// with, and its right binding power: the token there is an operator whose
/// left binding power is at least `min_bp`.
pub open spec fn continues_with(toks: Seq<TokenModel>, pos: int, min_bp: u8) -> Option<(char, u8)> {
    if 0 <= pos < toks.len() {
        match toks[pos] {
            TokenModel::Operator(op) => match binding_of(op) {
                Some((left_bp, right_bp)) => if left_bp >= min_bp {
                    Some((op, right_bp))
                } else {
                    None
                },
                None => None,
            },
            _ => None,
        }
    } else {
        None
    }
}

/// The expression that starts at `pos`, with operators of left binding power
/// `min_bp` or more: a primary (a number, an identifier, or an expression in
/// parentheses), then as many operators and right-hand sides as bind.
pub open spec fn parse_expr(toks: Seq<TokenModel>, pos: int, min_bp: u8) -> Parsed
    decreases (if 0 <= pos < toks.len() { toks.len() - pos } else { 0 }),
{
    if pos < 0 || pos >= toks.len() {
        Parsed { result: Err(ParseError::UnexpectedToken), used: 0 }
    } else {
        match toks[pos] {
            TokenModel::Number(value) => done(
                1,
                parse_tail(toks, pos + 1, ExprModel::Number(value), min_bp),
            ),
            TokenModel::Ident(name) => done(
                1,
                parse_tail(toks, pos + 1, ExprModel::Ident(name), min_bp),
            ),
            TokenModel::LParen => {
                let inner = parse_expr(toks, pos + 1, 0);
                let close = pos + 1 + inner.used;
                match inner.result {
                    Err(e) => done(1, inner),
                    Ok(expr) => if close < toks.len() && toks[close] == TokenModel::RParen {
                        done(1 + inner.used + 1, parse_tail(toks, close + 1, expr, min_bp))
                    } else if close < toks.len() {
                        Parsed { result: Err(ParseError::UnclosedParen), used: 1 + inner.used + 1 }
                    } else {
                        Parsed { result: Err(ParseError::UnclosedParen), used: 1 + inner.used }
                    },
                }
            },
            _ => Parsed { result: Err(ParseError::UnexpectedToken), used: 1 },
        }
    }
}

/// The expression that `left` grows into from `pos` on: while an operator
/// follows that binds at level `min_bp`, it and the expression to its right,
/// parsed at the operator's right binding power, are folded into `left`.
pub open spec fn parse_tail(toks: Seq<TokenModel>, pos: int, left: ExprModel, min_bp: u8) -> Parsed
    decreases (if 0 <= pos < toks.len() { toks.len() - pos } else { 0 }),
{
    match continues_with(toks, pos, min_bp) {
        Some((op, right_bp)) => {
            let rhs = parse_expr(toks, pos + 1, right_bp);
            match rhs.result {
                Err(e) => done(1, rhs),
                Ok(right) => done(
                    1 + rhs.used,
                    parse_tail(
                        toks,
                        pos + 1 + rhs.used,
                        ExprModel::Binary { op, left: Box::new(left), right: Box::new(right) },
                        min_bp,
                    ),
                ),
            }
        },
        None => Parsed { result: Ok(left), used: 0 },
    }
}

} // verus!
