//! What the tokenizer gives on three simple families of inputs.

use vstd::prelude::*;
use crate::classes::{class_of, is_digit, is_letter, is_operator, Class};
use crate::lexer::{digit_run, ident_run, lex, lex_from};
use crate::number::{all_digits, decimal_value, lemma_decimal_value_nonnegative};
use crate::token::{LexErrorModel, TokenModel};

verus! {

/// Every character of `s` is white space.
pub open spec fn all_whitespace(s: Seq<char>) -> bool {
    forall|i: int| 0 <= i < s.len() ==> class_of(#[trigger] s[i]) == Class::Whitespace
}

/// `s` is a letter or underscore followed by letters, digits and underscores.
pub open spec fn is_identifier(s: Seq<char>) -> bool {
    &&& s.len() > 0
    &&& is_letter(s[0])
    &&& forall|i: int| 0 <= i < s.len() ==> is_letter(#[trigger] s[i]) || is_digit(s[i])
}

proof fn lemma_whitespace_from(s: Seq<char>, pos: int)
    requires
        all_whitespace(s),
        0 <= pos,
    ensures
        lex_from(s, pos) == Ok::<Seq<TokenModel>, LexErrorModel>(Seq::empty()),
    decreases s.len() - pos,
{
    if pos < s.len() {
        assert(class_of(s[pos]) == Class::Whitespace);
        lemma_whitespace_from(s, pos + 1);
    }
}

proof fn lemma_ident_run_to_end(s: Seq<char>, from: int)
    requires
        forall|i: int| 0 <= i < s.len() ==> is_letter(#[trigger] s[i]) || is_digit(s[i]),
        0 <= from <= s.len(),
    ensures
        from + ident_run(s, from) == s.len(),
    decreases s.len() - from,
{
    if from < s.len() {
        assert(is_letter(s[from]) || is_digit(s[from]));
        lemma_ident_run_to_end(s, from + 1);
    }
}

proof fn lemma_digit_run_to_end(s: Seq<char>, from: int)
    requires
        all_digits(s),
        0 <= from <= s.len(),
    ensures
        from + digit_run(s, from) == s.len(),
    decreases s.len() - from,
{
    if from < s.len() {
        assert(is_digit(s[from]));
        lemma_digit_run_to_end(s, from + 1);
    }
}

/// An input of white space alone has no tokens.
pub proof fn lemma_whitespace_has_no_tokens(s: Seq<char>)
    requires
        all_whitespace(s),
    ensures
        lex(s) == Ok::<Seq<TokenModel>, LexErrorModel>(Seq::empty()),
{
    lemma_whitespace_from(s, 0);
}

/// An identifier is tokenized as one `Ident` token whose text is the whole
/// input.
pub proof fn lemma_identifier_is_one_token(s: Seq<char>)
    requires
        is_identifier(s),
    ensures
        lex(s) == Ok::<Seq<TokenModel>, LexErrorModel>(seq![TokenModel::Ident(s)]),
{
    lemma_ident_run_to_end(s, 1);
    assert(s.subrange(0, s.len() as int) =~= s);
    assert(lex_from(s, s.len() as int) == Ok::<Seq<TokenModel>, LexErrorModel>(Seq::empty()));
    assert(seq![TokenModel::Ident(s)] + Seq::empty() =~= seq![TokenModel::Ident(s)]);
}

/// A non-empty input of digits alone is tokenized as one `Number` token with
/// the value that the digits denote, where that value fits a signed 64-bit
/// integer, and is otherwise rejected as an invalid number, with the input
/// as the offending text.
pub proof fn lemma_digits_are_one_number(s: Seq<char>)
    requires
        s.len() > 0,
        all_digits(s),
    ensures
        decimal_value(s) <= i64::MAX ==> lex(s) == Ok::<Seq<TokenModel>, LexErrorModel>(
            seq![TokenModel::Number(decimal_value(s) as i64)],
        ),
        decimal_value(s) > i64::MAX ==> lex(s) == Err::<Seq<TokenModel>, LexErrorModel>(
            LexErrorModel::InvalidNumber { text: s },
        ),
{
    assert(is_digit(s[0]));
    lemma_digit_run_to_end(s, 1);
    assert(s.subrange(0, s.len() as int) =~= s);
    assert(lex_from(s, s.len() as int) == Ok::<Seq<TokenModel>, LexErrorModel>(Seq::empty()));
    let token = TokenModel::Number(decimal_value(s) as i64);
    assert(seq![token] + Seq::empty() =~= seq![token]);
}

/// What holds of each token that the tokenizer gives: the text of an
/// identifier is an identifier, so it is not empty; a number is not negative;
/// an operator is one of the operator characters.
pub open spec fn token_valid(token: TokenModel) -> bool {
    match token {
        TokenModel::Ident(text) => is_identifier(text),
        TokenModel::Number(value) => value >= 0,
        TokenModel::Operator(op) => is_operator(op),
        TokenModel::LParen | TokenModel::RParen => true,
    }
}

proof fn lemma_ident_run_in_bounds(s: Seq<char>, from: int)
    requires
        0 <= from <= s.len(),
    ensures
        from + ident_run(s, from) <= s.len(),
        forall|i: int|
            from <= i < from + ident_run(s, from) ==> is_letter(#[trigger] s[i]) || is_digit(s[i]),
    decreases s.len() - from,
{
    if from < s.len() && (is_letter(s[from]) || is_digit(s[from])) {
        lemma_ident_run_in_bounds(s, from + 1);
    }
}

proof fn lemma_digit_run_in_bounds(s: Seq<char>, from: int)
    requires
        0 <= from <= s.len(),
    ensures
        from + digit_run(s, from) <= s.len(),
        forall|i: int| from <= i < from + digit_run(s, from) ==> is_digit(#[trigger] s[i]),
    decreases s.len() - from,
{
    if from < s.len() && is_digit(s[from]) {
        lemma_digit_run_in_bounds(s, from + 1);
    }
}

proof fn lemma_tokens_valid_from(s: Seq<char>, pos: int)
    requires
        0 <= pos,
    ensures
        lex_from(s, pos) is Ok ==> forall|i: int|
            0 <= i < lex_from(s, pos)->Ok_0.len() ==> token_valid(
                #[trigger] lex_from(s, pos)->Ok_0[i],
            ),
    decreases s.len() - pos,
{
    if pos < s.len() {
        match class_of(s[pos]) {
            Class::Whitespace => {
                lemma_tokens_valid_from(s, pos + 1);
            },
            Class::Letter => {
                lemma_ident_run_in_bounds(s, pos + 1);
                let end = pos + 1 + ident_run(s, pos + 1);
                lemma_tokens_valid_from(s, end);
                assert(is_identifier(s.subrange(pos, end)));
            },
            Class::Digit => {
                lemma_digit_run_in_bounds(s, pos + 1);
                let end = pos + 1 + digit_run(s, pos + 1);
                lemma_tokens_valid_from(s, end);
                assert(all_digits(s.subrange(pos, end)));
                lemma_decimal_value_nonnegative(s.subrange(pos, end));
            },
            Class::Operator | Class::LParen | Class::RParen => {
                lemma_tokens_valid_from(s, pos + 1);
            },
            Class::Other => {},
        }
    }
}

/// Every token of an input that can be tokenized is valid.
pub proof fn lemma_tokens_are_valid(s: Seq<char>)
    ensures
        lex(s) is Ok ==> forall|i: int|
            0 <= i < lex(s)->Ok_0.len() ==> token_valid(#[trigger] lex(s)->Ok_0[i]),
{
    lemma_tokens_valid_from(s, 0);
}

} // verus!
