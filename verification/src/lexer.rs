//! The tokenizer: one left-to-right pass that drives the automaton.

use vstd::prelude::*;
use crate::automaton::{step, transition, State};
use crate::classes::{class_of, classify, is_digit, is_letter, Class};
use crate::number::{all_digits, decimal_value, parse_number};
use crate::text::{chars_of, string_of};
use crate::token::{token_models, LexError, LexErrorModel, Token, TokenKind, TokenModel};

verus! {

/// What tokenizing gives: the tokens in order, or the first error.
pub type LexOutcome = Result<Seq<TokenModel>, LexErrorModel>;

/// How many characters from `from` on are letters or digits, up to the first
/// that is neither.
pub open spec fn ident_run(s: Seq<char>, from: int) -> nat
    decreases s.len() - from,
{
    if 0 <= from < s.len() && (is_letter(s[from]) || is_digit(s[from])) {
        1 + ident_run(s, from + 1)
    } else {
        0
    }
}

/// How many characters from `from` on are digits, up to the first that is not.
pub open spec fn digit_run(s: Seq<char>, from: int) -> nat
    decreases s.len() - from,
{
    if 0 <= from < s.len() && is_digit(s[from]) {
        1 + digit_run(s, from + 1)
    } else {
        0
    }
}

/// Puts tokens that were already produced in front of what the rest of the
/// input gives. An error in the rest is the error of the whole.
pub open spec fn after(done: Seq<TokenModel>, rest: LexOutcome) -> LexOutcome {
    match rest {
        Ok(tokens) => Ok(done + tokens),
        Err(e) => Err(e),
    }
}

/// The tokens of `s` from position `pos` on, by maximal munch: white space is
/// skipped, a letter starts the longest run of letters and digits, a digit
/// the longest run of digits, an operator or a parenthesis stands alone, and
/// any other character is an error at its position.
pub open spec fn lex_from(s: Seq<char>, pos: int) -> LexOutcome
    decreases (if pos < s.len() { s.len() - pos } else { 0 }),
{
    if pos < 0 || pos >= s.len() {
        Ok(Seq::empty())
    } else {
        match class_of(s[pos]) {
            Class::Whitespace => lex_from(s, pos + 1),
            Class::Letter => {
                let end = pos + 1 + ident_run(s, pos + 1);
                after(seq![TokenModel::Ident(s.subrange(pos, end))], lex_from(s, end))
            },
            Class::Digit => {
                let end = pos + 1 + digit_run(s, pos + 1);
                let text = s.subrange(pos, end);
                if decimal_value(text) > i64::MAX {
                    Err(LexErrorModel::InvalidNumber { text })
                } else {
                    after(
                        seq![TokenModel::Number(decimal_value(text) as i64)],
                        lex_from(s, end),
                    )
                }
            },
            Class::Operator => after(seq![TokenModel::Operator(s[pos])], lex_from(s, pos + 1)),
            Class::LParen => after(seq![TokenModel::LParen], lex_from(s, pos + 1)),
            Class::RParen => after(seq![TokenModel::RParen], lex_from(s, pos + 1)),
            Class::Other => Err(LexErrorModel::InvalidChar { ch: s[pos], position: pos }),
        }
    }
}

/// The tokens of a whole input.
pub open spec fn lex(s: Seq<char>) -> LexOutcome {
    lex_from(s, 0)
}

/// The model of a tokenizer result.
pub open spec fn outcome_model(r: Result<Vec<Token>, LexError>) -> LexOutcome {
    match r {
        Ok(tokens) => Ok(token_models(tokens@)),
        Err(e) => Err(e@),
    }
}

/// The run `s[start..i]` is what the automaton in `state` has accumulated:
/// it is a non-empty beginning of the token that starts at `start`.
spec fn pending(s: Seq<char>, state: State, start: int, i: int) -> bool {
    &&& 0 <= start < i <= s.len()
    &&& match state {
        State::Ident => {
            &&& class_of(s[start]) == Class::Letter
            &&& start + 1 + ident_run(s, start + 1) == i + ident_run(s, i)
        },
        State::Number => {
            &&& class_of(s[start]) == Class::Digit
            &&& start + 1 + digit_run(s, start + 1) == i + digit_run(s, i)
            &&& all_digits(s.subrange(start, i))
        },
        State::Operator => class_of(s[start]) == Class::Operator && i == start + 1,
        State::LParen => class_of(s[start]) == Class::LParen && i == start + 1,
        State::RParen => class_of(s[start]) == Class::RParen && i == start + 1,
        State::Start | State::Error => false,
    }
}

/// The run `s[start..i]` is a whole token: no further character extends it.
spec fn complete(s: Seq<char>, state: State, start: int, i: int) -> bool {
    &&& pending(s, state, start, i)
    &&& (i == s.len() || step(state, class_of(s[i])) == State::Error)
}

/// Emits the token for the completed run `chars[start..i]`, or fails because
/// the run is a number that is too large.
fn emit_pending(
    chars: &Vec<char>,
    state: State,
    start: usize,
    i: usize,
    tokens: &mut Vec<Token>,
) -> (r: Result<(), LexError>)
    requires
        complete(chars@, state, start as int, i as int),
    ensures
        after(token_models(old(tokens)@), lex_from(chars@, start as int)) == match r {
            Ok(_) => after(token_models(final(tokens)@), lex_from(chars@, i as int)),
            Err(e) => Err(e@),
        },
{
    let ghost s = chars@;
    let ghost done = token_models(tokens@);
    proof {
        if i < s.len() {
            assert(ident_run(s, i as int) == 0 || state != State::Ident);
            assert(digit_run(s, i as int) == 0 || state != State::Number);
        }
    }
    let kind = match state {
        State::Ident => TokenKind::Ident(string_of(chars, start, i)),
        State::Number => {
            match parse_number(chars, start, i) {
                Some(value) => TokenKind::Number(value),
                None => {
                    return Err(LexError::InvalidNumber { text: string_of(chars, start, i) });
                },
            }
        },
        State::Operator => TokenKind::Operator(chars[start]),
        State::LParen => TokenKind::LParen,
        State::RParen => TokenKind::RParen,
        State::Start | State::Error => {
            // A completed run is never in one of these states.
            assert(false);
            TokenKind::LParen
        },
    };
    tokens.push(Token { kind });
    proof {
        let rest = lex_from(s, i as int);
        assert(token_models(tokens@) =~= done + seq![kind@]);
        assert(lex_from(s, start as int) == after(seq![kind@], rest));
        if let Ok(more) = rest {
            assert(done + (seq![kind@] + more) =~= (done + seq![kind@]) + more);
        }
    }
    Ok(())
}

/// Splits `input` into tokens.
///
/// The result is exactly `lex` of the input's characters: every token of the
/// input in order, or the first lexical error and nothing else.
pub fn tokenize(input: &str) -> (r: Result<Vec<Token>, LexError>)
    ensures
        outcome_model(r) == lex(input@),
{
    let chars = chars_of(input);
    let ghost s = chars@;
    let mut i: usize = 0;
    let mut state = State::Start;
    let mut start: usize = 0;
    let mut tokens: Vec<Token> = Vec::new();
    proof {
        assert(token_models(tokens@) =~= Seq::empty());
        assert(after(Seq::empty(), lex(s)) == lex(s)) by {
            if let Ok(all) = lex(s) {
                assert(Seq::<TokenModel>::empty() + all =~= all);
            }
        }
    }
    while i < chars.len()
        invariant
            s == chars@,
            s == input@,
            i <= s.len(),
            state != State::Error,
            state == State::Start ==> lex(s) == after(token_models(tokens@), lex_from(s, i as int)),
            state != State::Start ==> pending(s, state, start as int, i as int) && lex(s) == after(
                token_models(tokens@),
                lex_from(s, start as int),
            ),
        decreases 2 * (s.len() - i) + (if state == State::Start { 0int } else { 1int }),
    {
        let next = transition(state, classify(chars[i]));
        if next == State::Error {
            if state == State::Start {
                return Err(LexError::InvalidChar { ch: chars[i], position: i });
            }
            match emit_pending(&chars, state, start, i, &mut tokens) {
                Ok(_) => {},
                Err(e) => {
                    return Err(e);
                },
            }
            state = State::Start;
            start = i;
        } else {
            if state == State::Start && next != State::Start {
                start = i;
            }
            proof {
                if next == State::Number {
                    assert(all_digits(s.subrange(start as int, i + 1)));
                }
            }
            state = next;
            i += 1;
        }
    }
    if state != State::Start {
        match emit_pending(&chars, state, start, i, &mut tokens) {
            Ok(_) => {},
            Err(e) => {
                return Err(e);
            },
        }
    }
    proof {
        if let Ok(all) = lex(s) {
            assert(token_models(tokens@) + Seq::<TokenModel>::empty() =~= token_models(tokens@));
        }
    }
    Ok(tokens)
}

} // verus!
