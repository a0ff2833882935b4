use calc::error::Error;
use calc::interpret_source;
use calc::parser::Parser;
use calc::token::Kind;

#[test]
fn it_correctly_interpret_expressions() {
    let tests = vec![
        ("3", 3),
        ("-5", -5),
        ("1 * -7", -7),
        ("7 - 8 / 4", 5),
        ("2 + 7 * 4", 30),
        ("7 + (((3 + 2)))", 12),
        ("14 + 2 * 3 - 6 / 2", 17),
        ("7 + 3 * (10 / (12 / (3 + 1) - 1))", 22),
        ("7 + 3 * (10 / (12 / (4) - 1)) / (2 + 3) - 5 - 3 + (8)", 10),
    ];

    for (source, result) in tests {
        assert_eq!(interpret_source(source).unwrap().unwrap(), result);
    }
}

#[test]
fn it_expects_the_correct_token_on_errors() {
    let mut parser = Parser::new("3-*1").unwrap();
    let result = parser.parse();

    assert!(result.is_err());

    let err = result.unwrap_err();

    if let Error::UnexpectedToken {
        current,
        pos,
        expected,
    } = err
    {
        assert_eq!(current.kind, Kind::Star);
        assert_eq!(pos, 3);
        assert!(expected.contains(&Kind::Integer));
        assert!(expected.contains(&Kind::Minus));
        assert!(expected.contains(&Kind::LParen));
    } else {
        panic!("Unexpected error");
    }
}

#[test]
fn unary_minus_nests_arbitrarily() {
    assert_eq!(interpret_source("--5").unwrap().unwrap(), 5);
    assert_eq!(interpret_source("---5").unwrap().unwrap(), -5);
}

#[test]
fn division_binds_before_subtraction() {
    assert_eq!(interpret_source("7 - 8 / 4").unwrap().unwrap(), 5);
}

#[test]
fn multiplication_binds_before_addition() {
    assert_eq!(interpret_source("2 + 7 * 4").unwrap().unwrap(), 30);
}

#[test]
fn parentheses_group_arbitrarily_deep() {
    assert_eq!(interpret_source("7 + (((3 + 2)))").unwrap().unwrap(), 12);
}

#[test]
fn combined_precedence_and_grouping() {
    assert_eq!(
        interpret_source("7 + 3 * (10 / (12 / (3 + 1) - 1))")
            .unwrap()
            .unwrap(),
        22
    );
}

#[test]
fn same_precedence_folds_left_to_right() {
    assert_eq!(interpret_source("8 - 3 - 2").unwrap().unwrap(), 3);
    assert_eq!(interpret_source("100 / 10 / 5").unwrap().unwrap(), 2);
}

#[test]
fn division_truncates_toward_zero() {
    assert_eq!(interpret_source("7 / 2").unwrap().unwrap(), 3);
    assert_eq!(interpret_source("-7 / 2").unwrap().unwrap(), -3);
    assert_eq!(interpret_source("7 / -2").unwrap().unwrap(), -3);
    assert_eq!(interpret_source("-7 / -2").unwrap().unwrap(), 3);
}

#[test]
fn whitespace_between_tokens_is_skipped() {
    assert_eq!(interpret_source("  12  +  3  ").unwrap().unwrap(), 15);
}

#[test]
fn reinterpreting_the_same_line_is_identical() {
    let first = interpret_source("7 + 3 * (10 / (12 / (3 + 1) - 1))");
    let second = interpret_source("7 + 3 * (10 / (12 / (3 + 1) - 1))");
    assert_eq!(first.unwrap().unwrap(), second.unwrap().unwrap());

    let first_err = interpret_source("3-*1").unwrap_err();
    let second_err = interpret_source("3-*1").unwrap_err();
    assert_eq!(first_err.message(), second_err.message());
}

#[test]
fn division_by_zero_is_a_fault_not_a_value() {
    assert_eq!(interpret_source("1 / 0").unwrap(), None);
    assert_eq!(interpret_source("5 + 3 / (2 - 2)").unwrap(), None);
}

#[test]
fn overflow_is_a_fault_not_a_value() {
    assert_eq!(
        interpret_source("9223372036854775807 + 1").unwrap(),
        None
    );
    assert_eq!(
        interpret_source("-9223372036854775807 - 2").unwrap(),
        None
    );
}

#[test]
fn extreme_literals_still_evaluate() {
    assert_eq!(
        interpret_source("9223372036854775807").unwrap().unwrap(),
        i64::MAX
    );
    assert_eq!(
        interpret_source("9223372036854775806 + 1").unwrap().unwrap(),
        i64::MAX
    );
    assert_eq!(
        interpret_source("-9223372036854775807 - 1").unwrap().unwrap(),
        i64::MIN
    );
}

#[test]
fn oversized_literals_wrap_into_sixty_four_bits() {
    assert_eq!(
        interpret_source("18446744073709551616").unwrap().unwrap(),
        0
    );
    assert_eq!(
        interpret_source("18446744073709551617").unwrap().unwrap(),
        1
    );
}
