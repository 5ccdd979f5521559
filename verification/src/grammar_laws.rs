//! Facts about the grammar that hold of every token sequence.

use vstd::prelude::*;
use crate::ast::ExprModel;
use crate::grammar::{binding_of, continues_with, parse_expr, parse_tail};
use crate::token::TokenModel;

verus! {

/// Parsing at `pos` in the tokens from `k` on is parsing at `k + pos` in the
/// whole sequence.
pub proof fn lemma_parse_expr_on_suffix(toks: Seq<TokenModel>, k: int, pos: int, min_bp: u8)
    requires
        0 <= k <= toks.len(),
        0 <= pos,
    ensures
        parse_expr(toks.skip(k), pos, min_bp) == parse_expr(toks, k + pos, min_bp),
    decreases (if k + pos < toks.len() { toks.len() - (k + pos) } else { 0 }),
{
    let sub = toks.skip(k);
    if pos < sub.len() {
        assert(sub[pos] == toks[k + pos]);
        match toks[k + pos] {
            TokenModel::Number(value) => {
                lemma_parse_tail_on_suffix(toks, k, pos + 1, ExprModel::Number(value), min_bp);
            },
            TokenModel::Ident(name) => {
                lemma_parse_tail_on_suffix(toks, k, pos + 1, ExprModel::Ident(name), min_bp);
            },
            TokenModel::LParen => {
                lemma_parse_expr_on_suffix(toks, k, pos + 1, 0);
                let inner = parse_expr(toks, k + pos + 1, 0);
                let close = pos + 1 + inner.used;
                if let Ok(expr) = inner.result {
                    if close < sub.len() {
                        assert(sub[close] == toks[k + close]);
                        lemma_parse_tail_on_suffix(toks, k, close + 1, expr, min_bp);
                    }
                }
            },
            _ => {},
        }
    }
}

/// Continuing at `pos` in the tokens from `k` on is continuing at `k + pos`
/// in the whole sequence.
pub proof fn lemma_parse_tail_on_suffix(
    toks: Seq<TokenModel>,
    k: int,
    pos: int,
    left: ExprModel,
    min_bp: u8,
)
    requires
        0 <= k <= toks.len(),
        0 <= pos,
    ensures
        parse_tail(toks.skip(k), pos, left, min_bp) == parse_tail(toks, k + pos, left, min_bp),
    decreases (if k + pos < toks.len() { toks.len() - (k + pos) } else { 0 }),
{
    let sub = toks.skip(k);
    if pos < sub.len() {
        assert(sub[pos] == toks[k + pos]);
        match continues_with(toks, k + pos, min_bp) {
            Some((op, right_bp)) => {
                lemma_parse_expr_on_suffix(toks, k, pos + 1, right_bp);
                let rhs = parse_expr(toks, k + pos + 1, right_bp);
                if let Ok(right) = rhs.result {
                    lemma_parse_tail_on_suffix(
                        toks,
                        k,
                        pos + 1 + rhs.used,
                        ExprModel::Binary { op, left: Box::new(left), right: Box::new(right) },
                        min_bp,
                    );
                }
            },
            None => {},
        }
    }
}

/// Parsing never takes more tokens than there are, and an expression takes
/// at least one.
pub proof fn lemma_parse_expr_in_bounds(toks: Seq<TokenModel>, pos: int, min_bp: u8)
    requires
        0 <= pos <= toks.len(),
    ensures
        pos + parse_expr(toks, pos, min_bp).used <= toks.len(),
        parse_expr(toks, pos, min_bp).result is Ok ==> parse_expr(toks, pos, min_bp).used >= 1,
    decreases toks.len() - pos,
{
    if pos < toks.len() {
        match toks[pos] {
            TokenModel::Number(value) => {
                lemma_parse_tail_in_bounds(toks, pos + 1, ExprModel::Number(value), min_bp);
            },
            TokenModel::Ident(name) => {
                lemma_parse_tail_in_bounds(toks, pos + 1, ExprModel::Ident(name), min_bp);
            },
            TokenModel::LParen => {
                lemma_parse_expr_in_bounds(toks, pos + 1, 0);
                let inner = parse_expr(toks, pos + 1, 0);
                let close = pos + 1 + inner.used;
                if let Ok(expr) = inner.result {
                    if close < toks.len() {
                        lemma_parse_tail_in_bounds(toks, close + 1, expr, min_bp);
                    }
                }
            },
            _ => {},
        }
    }
}

/// Continuing an expression never takes more tokens than there are.
pub proof fn lemma_parse_tail_in_bounds(
    toks: Seq<TokenModel>,
    pos: int,
    left: ExprModel,
    min_bp: u8,
)
    requires
        0 <= pos <= toks.len(),
    ensures
        pos + parse_tail(toks, pos, left, min_bp).used <= toks.len(),
    decreases toks.len() - pos,
{
    match continues_with(toks, pos, min_bp) {
        Some((op, right_bp)) => {
            lemma_parse_expr_in_bounds(toks, pos + 1, right_bp);
            let rhs = parse_expr(toks, pos + 1, right_bp);
            if let Ok(right) = rhs.result {
                lemma_parse_tail_in_bounds(
                    toks,
                    pos + 1 + rhs.used,
                    ExprModel::Binary { op, left: Box::new(left), right: Box::new(right) },
                    min_bp,
                );
            }
        },
        None => {},
    }
}

/// An expression that parsing gives has an operator character in each of its
/// inner nodes.
pub proof fn lemma_parse_expr_well_formed(toks: Seq<TokenModel>, pos: int, min_bp: u8)
    ensures
        parse_expr(toks, pos, min_bp).result is Ok ==> parse_expr(
            toks,
            pos,
            min_bp,
        ).result->Ok_0.well_formed(),
    decreases (if 0 <= pos < toks.len() { toks.len() - pos } else { 0 }),
{
    if 0 <= pos < toks.len() {
        match toks[pos] {
            TokenModel::Number(value) => {
                lemma_parse_tail_well_formed(toks, pos + 1, ExprModel::Number(value), min_bp);
            },
            TokenModel::Ident(name) => {
                lemma_parse_tail_well_formed(toks, pos + 1, ExprModel::Ident(name), min_bp);
            },
            TokenModel::LParen => {
                lemma_parse_expr_well_formed(toks, pos + 1, 0);
                let inner = parse_expr(toks, pos + 1, 0);
                if let Ok(expr) = inner.result {
                    lemma_parse_tail_well_formed(toks, pos + 1 + inner.used + 1, expr, min_bp);
                }
            },
            _ => {},
        }
    }
}

/// Continuing a well-formed expression gives a well-formed expression.
pub proof fn lemma_parse_tail_well_formed(
    toks: Seq<TokenModel>,
    pos: int,
    left: ExprModel,
    min_bp: u8,
)
    requires
        left.well_formed(),
    ensures
        parse_tail(toks, pos, left, min_bp).result is Ok ==> parse_tail(
            toks,
            pos,
            left,
            min_bp,
        ).result->Ok_0.well_formed(),
    decreases (if 0 <= pos < toks.len() { toks.len() - pos } else { 0 }),
{
    match continues_with(toks, pos, min_bp) {
        Some((op, right_bp)) => {
            assert(binding_of(op) is Some);
            lemma_parse_expr_well_formed(toks, pos + 1, right_bp);
            let rhs = parse_expr(toks, pos + 1, right_bp);
            if let Ok(right) = rhs.result {
                lemma_parse_tail_well_formed(
                    toks,
                    pos + 1 + rhs.used,
                    ExprModel::Binary { op, left: Box::new(left), right: Box::new(right) },
                    min_bp,
                );
            }
        },
        None => {},
    }
}

} // verus!
