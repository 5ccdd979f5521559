use dfa_lexer::automaton::{class_index, state_index, transition, State, CLASS_COUNT, STATE_COUNT, TRANSITIONS};
use dfa_lexer::classes::{classify, Class};
use dfa_lexer::lexer::tokenize;
use dfa_lexer::number::parse_number;
use dfa_lexer::text::{chars_of, string_of};
use dfa_lexer::token::{LexError, Token, TokenKind};

fn kinds(input: &str) -> Vec<TokenKind> {
    tokenize(input).unwrap().into_iter().map(|t| t.kind).collect()
}

fn ident(text: &str) -> TokenKind {
    TokenKind::Ident(text.to_string())
}

#[test]
fn classify_letters_and_underscore() {
    for c in ['a', 'm', 'z', 'A', 'Q', 'Z', '_'] {
        assert_eq!(classify(c), Class::Letter);
    }
}

#[test]
fn classify_digits() {
    for c in '0'..='9' {
        assert_eq!(classify(c), Class::Digit);
    }
}

#[test]
fn classify_operators_and_parentheses() {
    for c in ['+', '-', '*', '/', '='] {
        assert_eq!(classify(c), Class::Operator);
    }
    assert_eq!(classify('('), Class::LParen);
    assert_eq!(classify(')'), Class::RParen);
}

#[test]
fn classify_whitespace() {
    for c in [' ', '\n', '\t', '\r'] {
        assert_eq!(classify(c), Class::Whitespace);
    }
}

#[test]
fn classify_everything_else_is_other() {
    for c in ['@', '%', '.', ',', '<', '[', '`', '{', '\u{0}', '\u{b}', '\u{c}', 'é', 'λ', '٣', '\u{10FFFF}'] {
        assert_eq!(classify(c), Class::Other);
    }
}

#[test]
fn indices_number_states_and_classes() {
    let states = [
        State::Start,
        State::Ident,
        State::Number,
        State::Operator,
        State::LParen,
        State::RParen,
        State::Error,
    ];
    let classes = [
        Class::Letter,
        Class::Digit,
        Class::Operator,
        Class::LParen,
        Class::RParen,
        Class::Whitespace,
        Class::Other,
    ];
    assert_eq!(states.len(), STATE_COUNT);
    assert_eq!(classes.len(), CLASS_COUNT);
    for (i, s) in states.iter().enumerate() {
        assert_eq!(state_index(*s), i);
    }
    for (i, c) in classes.iter().enumerate() {
        assert_eq!(class_index(*c), i);
    }
}

#[test]
fn transitions_from_start() {
    assert_eq!(transition(State::Start, Class::Letter), State::Ident);
    assert_eq!(transition(State::Start, Class::Digit), State::Number);
    assert_eq!(transition(State::Start, Class::Operator), State::Operator);
    assert_eq!(transition(State::Start, Class::LParen), State::LParen);
    assert_eq!(transition(State::Start, Class::RParen), State::RParen);
    assert_eq!(transition(State::Start, Class::Whitespace), State::Start);
    assert_eq!(transition(State::Start, Class::Other), State::Error);
}

#[test]
fn transitions_from_ident_and_number() {
    assert_eq!(transition(State::Ident, Class::Letter), State::Ident);
    assert_eq!(transition(State::Ident, Class::Digit), State::Ident);
    assert_eq!(transition(State::Number, Class::Digit), State::Number);
    assert_eq!(transition(State::Number, Class::Letter), State::Error);
    for c in [Class::Operator, Class::LParen, Class::RParen, Class::Whitespace, Class::Other] {
        assert_eq!(transition(State::Ident, c), State::Error);
        assert_eq!(transition(State::Number, c), State::Error);
    }
}

#[test]
fn one_character_states_never_extend() {
    let classes = [
        Class::Letter,
        Class::Digit,
        Class::Operator,
        Class::LParen,
        Class::RParen,
        Class::Whitespace,
        Class::Other,
    ];
    for s in [State::Operator, State::LParen, State::RParen, State::Error] {
        for c in classes {
            assert_eq!(transition(s, c), State::Error);
            assert_eq!(TRANSITIONS[state_index(s)][class_index(c)], State::Error);
        }
    }
}

#[test]
fn chars_and_strings_convert() {
    let chars = chars_of("héllo");
    assert_eq!(chars, vec!['h', 'é', 'l', 'l', 'o']);
    assert_eq!(string_of(&chars, 1, 4), "éll");
    assert_eq!(string_of(&chars, 2, 2), "");
    assert_eq!(chars_of(""), Vec::<char>::new());
}

#[test]
fn parse_number_reads_digits() {
    let chars = chars_of("x0042y");
    assert_eq!(parse_number(&chars, 1, 5), Some(42));
    assert_eq!(parse_number(&chars, 1, 2), Some(0));
    assert_eq!(parse_number(&chars, 1, 1), None);
    assert_eq!(parse_number(&chars, 0, 5), None);
    assert_eq!(parse_number(&chars, 1, 6), None);
    let max = chars_of("9223372036854775807");
    assert_eq!(parse_number(&max, 0, max.len()), Some(i64::MAX));
    let over = chars_of("9223372036854775808");
    assert_eq!(parse_number(&over, 0, over.len()), None);
    let long = chars_of("10000000000000000000000");
    assert_eq!(parse_number(&long, 0, long.len()), None);
}

#[test]
fn whitespace_only_gives_no_tokens() {
    for input in ["", " ", "\t", "\n", "\r", "  \t\r\n  \n"] {
        assert_eq!(tokenize(input), Ok(vec![]));
    }
}

#[test]
fn identifier_is_a_single_token() {
    for input in ["a", "_", "foo", "Foo_Bar9", "_9", "x1y2z3", "__init__"] {
        assert_eq!(kinds(input), vec![ident(input)]);
    }
}

#[test]
fn digits_are_a_single_number() {
    assert_eq!(kinds("0"), vec![TokenKind::Number(0)]);
    assert_eq!(kinds("7"), vec![TokenKind::Number(7)]);
    assert_eq!(kinds("007"), vec![TokenKind::Number(7)]);
    assert_eq!(kinds("1234567890"), vec![TokenKind::Number(1234567890)]);
    assert_eq!(kinds("9223372036854775807"), vec![TokenKind::Number(i64::MAX)]);
    assert_eq!(kinds("00000000000000000000000001"), vec![TokenKind::Number(1)]);
}

#[test]
fn number_out_of_range_is_invalid() {
    for input in ["9223372036854775808", "18446744073709551616", "99999999999999999999999999"] {
        assert_eq!(tokenize(input), Err(LexError::InvalidNumber { text: input.to_string() }));
    }
}

#[test]
fn at_sign_is_an_invalid_character() {
    assert_eq!(tokenize("@"), Err(LexError::InvalidChar { ch: '@', position: 0 }));
}

#[test]
fn tokenize_sum_and_product() {
    assert_eq!(
        kinds("3+4*2"),
        vec![
            TokenKind::Number(3),
            TokenKind::Operator('+'),
            TokenKind::Number(4),
            TokenKind::Operator('*'),
            TokenKind::Number(2),
        ]
    );
}

#[test]
fn tokenize_every_kind() {
    assert_eq!(
        kinds(" (alpha1 = 20)\t/ -b\n"),
        vec![
            TokenKind::LParen,
            ident("alpha1"),
            TokenKind::Operator('='),
            TokenKind::Number(20),
            TokenKind::RParen,
            TokenKind::Operator('/'),
            TokenKind::Operator('-'),
            ident("b"),
        ]
    );
}

#[test]
fn operators_and_parentheses_are_one_character_each() {
    assert_eq!(
        kinds("++(())=="),
        vec![
            TokenKind::Operator('+'),
            TokenKind::Operator('+'),
            TokenKind::LParen,
            TokenKind::LParen,
            TokenKind::RParen,
            TokenKind::RParen,
            TokenKind::Operator('='),
            TokenKind::Operator('='),
        ]
    );
}

#[test]
fn runs_are_as_long_as_they_can_be() {
    assert_eq!(kinds("12ab"), vec![TokenKind::Number(12), ident("ab")]);
    assert_eq!(kinds("ab12"), vec![ident("ab12")]);
    assert_eq!(kinds("ab 12"), vec![ident("ab"), TokenKind::Number(12)]);
    assert_eq!(kinds("1 2"), vec![TokenKind::Number(1), TokenKind::Number(2)]);
    assert_eq!(kinds("a(b"), vec![ident("a"), TokenKind::LParen, ident("b")]);
}

#[test]
fn invalid_character_reports_its_offset_in_characters() {
    assert_eq!(tokenize("ab + #"), Err(LexError::InvalidChar { ch: '#', position: 5 }));
    assert_eq!(tokenize("12$"), Err(LexError::InvalidChar { ch: '$', position: 2 }));
    assert_eq!(tokenize("x.y"), Err(LexError::InvalidChar { ch: '.', position: 1 }));
    assert_eq!(tokenize("é"), Err(LexError::InvalidChar { ch: 'é', position: 0 }));
    assert_eq!(tokenize("a é λ"), Err(LexError::InvalidChar { ch: 'é', position: 2 }));
}

#[test]
fn first_error_wins_and_nothing_else_is_returned() {
    assert_eq!(tokenize("1 + @ + 99999999999999999999"), Err(LexError::InvalidChar { ch: '@', position: 4 }));
    assert_eq!(
        tokenize("a + 99999999999999999999 @"),
        Err(LexError::InvalidNumber { text: "99999999999999999999".to_string() })
    );
    assert_eq!(
        tokenize("99999999999999999999+1"),
        Err(LexError::InvalidNumber { text: "99999999999999999999".to_string() })
    );
}

#[test]
fn token_wraps_its_kind() {
    let tokens = tokenize("x").unwrap();
    assert_eq!(tokens, vec![Token { kind: ident("x") }]);
}

#[test]
fn tokens_are_never_empty() {
    let tokens = tokenize("a1 = (b_2 + 30) * 4 - _ / 0").unwrap();
    assert_eq!(tokens.len(), 13);
    for token in tokens {
        match token.kind {
            TokenKind::Ident(text) => {
                assert!(!text.is_empty());
                assert_eq!(classify(text.chars().next().unwrap()), Class::Letter);
            }
            TokenKind::Number(value) => assert!(value >= 0),
            TokenKind::Operator(op) => assert_eq!(classify(op), Class::Operator),
            TokenKind::LParen | TokenKind::RParen => {}
        }
    }
}
