use dfa_lexer::ast::Expr;
use dfa_lexer::grammar::ParseError;
use dfa_lexer::lexer::tokenize;
use dfa_lexer::parser::{binding_power, parse, Parser};
use dfa_lexer::printer::{append_decimal, render_expr};
use dfa_lexer::token::{Token, TokenKind};

fn num(value: i64) -> Expr {
    Expr::Number(value)
}

fn var(name: &str) -> Expr {
    Expr::Ident(name.to_string())
}

fn bin(op: char, left: Expr, right: Expr) -> Expr {
    Expr::Binary { op, left: Box::new(left), right: Box::new(right) }
}

fn parse_text(input: &str) -> Result<Expr, ParseError> {
    parse(tokenize(input).unwrap())
}

#[test]
fn binding_powers() {
    assert_eq!(binding_power('='), Some((1, 0)));
    assert_eq!(binding_power('+'), Some((10, 11)));
    assert_eq!(binding_power('-'), Some((10, 11)));
    assert_eq!(binding_power('*'), Some((20, 21)));
    assert_eq!(binding_power('/'), Some((20, 21)));
    assert_eq!(binding_power('%'), None);
    assert_eq!(binding_power('('), None);
}

#[test]
fn multiplication_binds_tighter_than_addition() {
    assert_eq!(parse_text("3+4*2"), Ok(bin('+', num(3), bin('*', num(4), num(2)))));
    assert_eq!(parse_text("3*4+2"), Ok(bin('+', bin('*', num(3), num(4)), num(2))));
}

#[test]
fn parentheses_group() {
    assert_eq!(parse_text("(3+4)*2"), Ok(bin('*', bin('+', num(3), num(4)), num(2))));
    assert_eq!(parse_text("((x))"), Ok(var("x")));
    assert_eq!(parse_text("2*(3+(4-1))"), Ok(bin('*', num(2), bin('+', num(3), bin('-', num(4), num(1))))));
}

#[test]
fn assignment_groups_to_the_right() {
    assert_eq!(parse_text("a=b=c"), Ok(bin('=', var("a"), bin('=', var("b"), var("c")))));
}

#[test]
fn arithmetic_groups_to_the_left() {
    assert_eq!(parse_text("1-2-3"), Ok(bin('-', bin('-', num(1), num(2)), num(3))));
    assert_eq!(parse_text("8/4/2"), Ok(bin('/', bin('/', num(8), num(4)), num(2))));
    assert_eq!(parse_text("1+2-3"), Ok(bin('-', bin('+', num(1), num(2)), num(3))));
    assert_eq!(parse_text("8/4*2"), Ok(bin('*', bin('/', num(8), num(4)), num(2))));
}

#[test]
fn assignment_binds_loosest() {
    assert_eq!(parse_text("a=1+2*3"), Ok(bin('=', var("a"), bin('+', num(1), bin('*', num(2), num(3))))));
    assert_eq!(parse_text("1+2=3"), Ok(bin('=', bin('+', num(1), num(2)), num(3))));
}

#[test]
fn single_leaves() {
    assert_eq!(parse_text("42"), Ok(num(42)));
    assert_eq!(parse_text("answer"), Ok(var("answer")));
}

#[test]
fn unclosed_parenthesis() {
    assert_eq!(parse_text("(3+4"), Err(ParseError::UnclosedParen));
    assert_eq!(parse_text("(3+4 5)"), Err(ParseError::UnclosedParen));
    assert_eq!(parse_text("((1)"), Err(ParseError::UnclosedParen));
    assert_eq!(parse_text("(1(2)"), Err(ParseError::UnclosedParen));
}

#[test]
fn unexpected_token() {
    assert_eq!(parse_text(""), Err(ParseError::UnexpectedToken));
    assert_eq!(parse_text(")"), Err(ParseError::UnexpectedToken));
    assert_eq!(parse_text("+1"), Err(ParseError::UnexpectedToken));
    assert_eq!(parse_text("1+"), Err(ParseError::UnexpectedToken));
    assert_eq!(parse_text("1+*2"), Err(ParseError::UnexpectedToken));
    assert_eq!(parse_text("()"), Err(ParseError::UnexpectedToken));
    assert_eq!(parse_text("(1+)"), Err(ParseError::UnexpectedToken));
}

#[test]
fn tokens_after_the_expression_are_left_alone() {
    let mut parser = Parser::new(tokenize("1 2").unwrap());
    assert_eq!(parser.parse_expression(0), Ok(num(1)));
    assert_eq!(parser.position(), 1);
    assert_eq!(parser.remaining(), 1);
    assert_eq!(parser.peek(), Some(&TokenKind::Number(2)));

    let mut parser = Parser::new(tokenize("a+b) c").unwrap());
    assert_eq!(parser.parse_expression(0), Ok(bin('+', var("a"), var("b"))));
    assert_eq!(parser.position(), 3);
    assert_eq!(parser.remaining(), 2);

    assert_eq!(parse_text("1 2"), Ok(num(1)));
}

#[test]
fn minimum_binding_power_stops_the_loop() {
    let mut parser = Parser::new(tokenize("1+2*3").unwrap());
    assert_eq!(parser.parse_expression(11), Ok(num(1)));
    assert_eq!(parser.position(), 1);
    assert_eq!(parser.peek(), Some(&TokenKind::Operator('+')));

    let mut parser = Parser::new(tokenize("1*2+3").unwrap());
    assert_eq!(parser.parse_expression(11), Ok(bin('*', num(1), num(2))));
    assert_eq!(parser.remaining(), 2);

    let mut parser = Parser::new(tokenize("a=b").unwrap());
    assert_eq!(parser.parse_expression(1), Ok(bin('=', var("a"), var("b"))));
    assert_eq!(parser.remaining(), 0);

    let mut parser = Parser::new(tokenize("a=b").unwrap());
    assert_eq!(parser.parse_expression(2), Ok(var("a")));
    assert_eq!(parser.remaining(), 2);
}

#[test]
fn unknown_operator_character_ends_the_expression() {
    let tokens = vec![
        Token { kind: TokenKind::Number(1) },
        Token { kind: TokenKind::Operator('%') },
        Token { kind: TokenKind::Number(2) },
    ];
    let mut parser = Parser::new(tokens);
    assert_eq!(parser.parse_expression(0), Ok(num(1)));
    assert_eq!(parser.remaining(), 2);
}

#[test]
fn next_takes_tokens_in_order() {
    let mut parser = Parser::new(tokenize("x (7").unwrap());
    assert_eq!(parser.remaining(), 3);
    assert_eq!(parser.peek(), Some(&TokenKind::Ident("x".to_string())));
    assert_eq!(parser.next(), Some(TokenKind::Ident("x".to_string())));
    assert_eq!(parser.next(), Some(TokenKind::LParen));
    assert_eq!(parser.peek(), Some(&TokenKind::Number(7)));
    assert_eq!(parser.next(), Some(TokenKind::Number(7)));
    assert_eq!(parser.position(), 3);
    assert_eq!(parser.peek(), None);
    assert_eq!(parser.next(), None);
    assert_eq!(parser.position(), 3);
    assert_eq!(parser.remaining(), 0);
}

#[test]
fn failure_position() {
    let mut parser = Parser::new(tokenize("(1 2 3").unwrap());
    assert_eq!(parser.parse_expression(0), Err(ParseError::UnclosedParen));
    assert_eq!(parser.position(), 3);

    let mut parser = Parser::new(tokenize("(1").unwrap());
    assert_eq!(parser.parse_expression(0), Err(ParseError::UnclosedParen));
    assert_eq!(parser.position(), 2);

    let mut parser = Parser::new(tokenize("1 + ) 2").unwrap());
    assert_eq!(parser.parse_expression(0), Err(ParseError::UnexpectedToken));
    assert_eq!(parser.position(), 3);
}

#[test]
fn decimal_rendering() {
    for value in [0i64, 5, 9, 10, 42, 100, 1234567890, -1, -10, -907, i64::MAX, i64::MIN, i64::MIN + 1] {
        let mut out = String::from("n=");
        append_decimal(&mut out, value);
        assert_eq!(out, format!("n={}", value));
    }
}

#[test]
fn render_leaves() {
    assert_eq!(render_expr(&num(7), 0), "Number(7)\n");
    assert_eq!(render_expr(&num(-7), 1), "  Number(-7)\n");
    assert_eq!(render_expr(&var("abc"), 2), "    Ident(abc)\n");
}

#[test]
fn render_tree() {
    let expr = parse_text("3+4*2").unwrap();
    assert_eq!(
        render_expr(&expr, 0),
        "Binary(+)\n  Number(3)\n  Binary(*)\n    Number(4)\n    Number(2)\n"
    );
    let expr = parse_text("a=(b-1)/c").unwrap();
    assert_eq!(
        render_expr(&expr, 1),
        "  Binary(=)\n    Ident(a)\n    Binary(/)\n      Binary(-)\n        Ident(b)\n        Number(1)\n      Ident(c)\n"
    );
}
