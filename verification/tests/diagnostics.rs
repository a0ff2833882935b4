use calc::ast::Ast;
use calc::error::Error;
use calc::interpret_source;
use calc::interpreter::{interpret_node, try_interpret_node};
use calc::lexer::Lexer;
use calc::parser::Parser;
use calc::token::{Kind, Token};

#[test]
fn unrecognized_character_is_named_with_its_position() {
    let err = interpret_source("12 @ 3").unwrap_err();
    if let Error::UnexpectedCharacter { character, pos } = err {
        assert_eq!(character, '@');
        assert_eq!(pos, 3);
    } else {
        panic!("Unexpected error");
    }
}

#[test]
fn unrecognized_character_message_is_exact() {
    let err = interpret_source("1+x").unwrap_err();
    assert_eq!(err.message(), "Unexpected character 'x' at position 2");
}

#[test]
fn unexpected_token_message_is_exact() {
    let err = interpret_source("3-*1").unwrap_err();
    assert_eq!(
        err.message(),
        "Unexpected '*' (token type Star) at position 3 \
         (expecting one of [Integer, Minus, LParen])"
    );
}

#[test]
fn end_of_source_is_described_in_words() {
    let err = interpret_source("3+").unwrap_err();
    assert_eq!(
        err.message(),
        "Unexpected end of source at position 2 \
         (expecting one of [Integer, Minus, LParen])"
    );
}

#[test]
fn trailing_input_is_rejected() {
    let err = interpret_source("1 2").unwrap_err();
    if let Error::UnexpectedToken {
        current,
        pos,
        expected,
    } = err
    {
        assert_eq!(current.kind, Kind::Integer);
        assert_eq!(current.source, "2");
        assert_eq!(pos, 3);
        assert_eq!(expected, vec![Kind::Eof]);
    } else {
        panic!("Unexpected error");
    }
}

#[test]
fn empty_line_is_an_unexpected_end_of_source() {
    let err = interpret_source("").unwrap_err();
    if let Error::UnexpectedToken { current, pos, .. } = err {
        assert_eq!(current.kind, Kind::Eof);
        assert_eq!(pos, 0);
    } else {
        panic!("Unexpected error");
    }
}

#[test]
fn positions_count_characters_not_bytes() {
    let err = interpret_source("  é").unwrap_err();
    if let Error::UnexpectedCharacter { character, pos } = err {
        assert_eq!(character, 'é');
        assert_eq!(pos, 2);
    } else {
        panic!("Unexpected error");
    }
}

#[test]
fn scanner_emits_tokens_with_their_lexemes() {
    let mut lexer = Lexer::new("10 + 23");
    let t1 = lexer.next_token().unwrap();
    assert_eq!(t1.kind, Kind::Integer);
    assert_eq!(t1.source, "10");
    assert_eq!(lexer.pos(), 2);
    let t2 = lexer.next_token().unwrap();
    assert_eq!(t2.kind, Kind::Plus);
    assert_eq!(t2.source, "+");
    let t3 = lexer.next_token().unwrap();
    assert_eq!(t3.kind, Kind::Integer);
    assert_eq!(t3.source, "23");
    assert_eq!(lexer.pos(), 7);
}

#[test]
fn scanner_keeps_returning_eof_at_the_end() {
    let mut lexer = Lexer::new("7");
    let t = lexer.next_token().unwrap();
    assert_eq!(t.kind, Kind::Integer);
    for _ in 0..3 {
        let eof = lexer.next_token().unwrap();
        assert_eq!(eof.kind, Kind::Eof);
        assert_eq!(eof.source, "");
        assert_eq!(lexer.pos(), 1);
    }
}

#[test]
fn evaluator_reduces_a_hand_built_tree() {
    let two = Ast::Number(Token::new(Kind::Integer, "2"), 2);
    let three = Ast::Number(Token::new(Kind::Integer, "3"), 3);
    let sum = Ast::BinaryOperator(
        Box::new(two),
        Token::new(Kind::Plus, "+"),
        Box::new(three),
    );
    let negated = Ast::UnaryOperator(Token::new(Kind::Minus, "-"), Box::new(sum));
    assert_eq!(interpret_node(&negated), -5);
    assert_eq!(try_interpret_node(&negated), Some(-5));
}

#[test]
fn checked_evaluator_reports_faults() {
    let one = Ast::Number(Token::new(Kind::Integer, "1"), 1);
    let zero = Ast::Number(Token::new(Kind::Integer, "0"), 0);
    let division = Ast::BinaryOperator(
        Box::new(one),
        Token::new(Kind::Slash, "/"),
        Box::new(zero),
    );
    assert_eq!(try_interpret_node(&division), None);

    let min = Ast::Number(Token::new(Kind::Integer, "0"), i64::MIN);
    let negated_min = Ast::UnaryOperator(Token::new(Kind::Minus, "-"), Box::new(min));
    assert_eq!(try_interpret_node(&negated_min), None);
}

#[test]
fn parser_state_is_scoped_to_one_line() {
    let mut first = Parser::new("1+1").unwrap();
    assert_eq!(try_interpret_node(&first.parse().unwrap()), Some(2));
    let mut second = Parser::new("1+1").unwrap();
    assert_eq!(try_interpret_node(&second.parse().unwrap()), Some(2));
}
