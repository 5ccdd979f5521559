//! The precedence-climbing parser.

use vstd::prelude::*;
use crate::ast::{Expr, ExprModel};
use crate::grammar::{binding_of, done, parse_expr, parse_tail, ParseError, Parsed};
use crate::grammar_laws::{lemma_parse_expr_on_suffix, lemma_parse_expr_well_formed};
use crate::token::{token_models, Token, TokenKind, TokenModel};

verus! {

/// The model of a parse result.
pub open spec fn result_model(r: Result<Expr, ParseError>) -> Result<ExprModel, ParseError> {
    match r {
        Ok(expr) => Ok(expr@),
        Err(e) => Err(e),
    }
}

/// The binding powers of an operator character, left then right, or `None`
/// for a character that is no operator.
pub fn binding_power(op: char) -> (powers: Option<(u8, u8)>)
    ensures
        powers == binding_of(op),
{
    match op {
        '=' => Some((1, 0)),
        '+' | '-' => Some((10, 11)),
        '*' | '/' => Some((20, 21)),
        _ => None,
    }
}

/// A cursor over a token sequence. Tokens are taken out one at a time, front
/// to back, and a token that was taken is never looked at again.
pub struct Parser {
    tokens: Vec<Token>,
    pos: usize,
}

impl Parser {
    /// The cursor lies within the token sequence.
    pub closed spec fn wf(&self) -> bool {
        self.pos <= self.tokens@.len()
    }

    /// The tokens that have not been taken yet.
    pub closed spec fn view(&self) -> Seq<TokenModel> {
        token_models(self.tokens@).skip(self.pos as int)
    }

    /// How many tokens have been taken.
    pub closed spec fn consumed(&self) -> nat {
        self.pos as nat
    }

    /// A parser at the front of `tokens`.
    pub fn new(tokens: Vec<Token>) -> (parser: Parser)
        ensures
            parser.wf(),
            parser@ == token_models(tokens@),
            parser.consumed() == 0,
    {
        proof {
            assert(token_models(tokens@).skip(0) =~= token_models(tokens@));
        }
        Parser { tokens, pos: 0 }
    }

    /// The number of tokens taken so far.
    pub fn position(&self) -> (n: usize)
        ensures
            n == self.consumed(),
    {
        self.pos
    }

    /// The number of tokens not taken yet.
    pub fn remaining(&self) -> (n: usize)
        requires
            self.wf(),
        ensures
            n == self@.len(),
    {
        self.tokens.len() - self.pos
    }

    /// The next token, left in place.
    pub fn peek(&self) -> (token: Option<&TokenKind>)
        requires
            self.wf(),
        ensures
            self@.len() == 0 ==> token is None,
            self@.len() > 0 ==> token is Some && token->0@ == self@[0],
    {
        if self.pos < self.tokens.len() {
            Some(&self.tokens[self.pos].kind)
        } else {
            None
        }
    }

    /// Takes the next token out, if there is one.
    pub fn next(&mut self) -> (token: Option<TokenKind>)
        requires
            old(self).wf(),
        ensures
            final(self).wf(),
            old(self)@.len() == 0 ==> {
                &&& token is None
                &&& final(self)@ == old(self)@
                &&& final(self).consumed() == old(self).consumed()
            },
            old(self)@.len() > 0 ==> {
                &&& token is Some
                &&& token->0@ == old(self)@[0]
                &&& final(self)@ == old(self)@.skip(1)
                &&& final(self).consumed() == old(self).consumed() + 1
            },
    {
        if self.pos >= self.tokens.len() {
            return None;
        }
        let mut taken = TokenKind::LParen;
        core::mem::swap(&mut self.tokens[self.pos].kind, &mut taken);
        self.pos += 1;
        proof {
            assert(self@ =~= old(self)@.skip(1));
        }
        Some(taken)
    }

    /// Parses one expression whose operators all bind at least as tightly as
    /// `min_bp`, from the tokens not taken yet.
    ///
    /// The result, and the number of tokens taken on the way, are those of
    /// `parse_expr` on the remaining tokens; this holds on failure too. A
    /// tree that is returned has only operator characters in its inner nodes.
    pub fn parse_expression(&mut self, min_bp: u8) -> (r: Result<Expr, ParseError>)
        requires
            old(self).wf(),
        ensures
            final(self).wf(),
            result_model(r) == parse_expr(old(self)@, 0, min_bp).result,
            parse_expr(old(self)@, 0, min_bp).used <= old(self)@.len(),
            final(self)@ == old(self)@.skip(parse_expr(old(self)@, 0, min_bp).used as int),
            final(self).consumed() == old(self).consumed() + parse_expr(old(self)@, 0, min_bp).used,
            r is Ok ==> r->Ok_0@.well_formed(),
        decreases old(self)@.len(),
    {
        let ghost toks = self@;
        let ghost before = self.consumed();
        proof {
            lemma_parse_expr_well_formed(toks, 0, min_bp);
        }
        let mut left = match self.next() {
            Some(TokenKind::Number(value)) => Expr::Number(value),
            Some(TokenKind::Ident(name)) => Expr::Ident(name),
            Some(TokenKind::LParen) => {
                let inner = self.parse_expression(0);
                proof {
                    lemma_parse_expr_on_suffix(toks, 1, 0, 0);
                    let used: int = parse_expr(toks, 1, 0).used as int;
                    assert(toks.skip(1).skip(used) =~= toks.skip(1 + used));
                }
                match inner {
                    Ok(expr) => {
                        proof {
                            let close: int = 1 + parse_expr(toks, 1, 0).used as int;
                            if close < toks.len() {
                                assert(toks.skip(close).skip(1) =~= toks.skip(close + 1));
                                assert(toks.skip(close)[0] == toks[close]);
                            }
                        }
                        match self.next() {
                            Some(TokenKind::RParen) => expr,
                            _ => {
                                return Err(ParseError::UnclosedParen);
                            },
                        }
                    },
                    Err(e) => {
                        return Err(e);
                    },
                }
            },
            _ => {
                return Err(ParseError::UnexpectedToken);
            },
        };
        let ghost mut k: int = self.consumed() - before;
        loop
            invariant
                self.wf(),
                0 < k <= toks.len(),
                self@ == toks.skip(k),
                self.consumed() == before + k,
                toks == old(self)@,
                before == old(self).consumed(),
                parse_expr(toks, 0, min_bp) == done(k as nat, parse_tail(toks, k, left@, min_bp)),
            ensures
                self.wf(),
                0 < k <= toks.len(),
                self@ == toks.skip(k),
                self.consumed() == before + k,
                parse_expr(toks, 0, min_bp) == (Parsed { result: Ok(left@), used: k as nat }),
            decreases self@.len(),
        {
            let op: char = match self.peek() {
                Some(TokenKind::Operator(op)) => *op,
                _ => {
                    break;
                },
            };
            let (l_bp, r_bp): (u8, u8) = match binding_power(op) {
                Some(powers) => powers,
                None => {
                    break;
                },
            };
            if l_bp < min_bp {
                break;
            }
            self.next();
            let rhs = self.parse_expression(r_bp);
            proof {
                lemma_parse_expr_on_suffix(toks, k + 1, 0, r_bp);
                let used: int = parse_expr(toks, k + 1, r_bp).used as int;
                assert(toks.skip(k).skip(1) =~= toks.skip(k + 1));
                assert(toks.skip(k + 1).skip(used) =~= toks.skip(k + 1 + used));
                k = k + 1 + used;
            }
            match rhs {
                Ok(right) => {
                    left = Expr::Binary { op, left: Box::new(left), right: Box::new(right) };
                },
                Err(e) => {
                    return Err(e);
                },
            }
        }
        Ok(left)
    }
}

/// Parses the expression at the front of `tokens`.
///
/// Tokens that follow the expression are left alone and are no error.
pub fn parse(tokens: Vec<Token>) -> (r: Result<Expr, ParseError>)
    ensures
        result_model(r) == parse_expr(token_models(tokens@), 0, 0).result,
        r is Ok ==> r->Ok_0@.well_formed(),
{
    let mut parser = Parser::new(tokens);
    parser.parse_expression(0)
}

} // verus!
