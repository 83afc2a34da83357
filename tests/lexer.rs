use line_calc::{convert_token, parse_i32, parse_line, tokenize, ArithmeticOperandHead, ArithmeticOperandTail, Token};

#[test]
fn operators_split_without_spaces() {
    assert_eq!(parse_line("x=a+b*3"), vec!["x", "=", "a", "+", "b", "*", "3"]);
    assert_eq!(parse_line("  c  =  a%b -  d/e "), vec!["c", "=", "a", "%", "b", "-", "d", "/", "e"]);
}

#[test]
fn empty_line_has_no_fragments() {
    assert!(parse_line("").is_empty());
    assert!(parse_line("    ").is_empty());
}

#[test]
fn other_characters_stay_in_words() {
    assert_eq!(parse_line("2.5 + 1"), vec!["2.5", "+", "1"]);
    assert_eq!(parse_line("ab(c) <= d"), vec!["ab(c)", "<", "=", "d"]);
}

#[test]
fn classify_operators() {
    assert_eq!(convert_token("+"), Token::OperatorHead(ArithmeticOperandHead::Plus));
    assert_eq!(convert_token("-"), Token::OperatorHead(ArithmeticOperandHead::Minus));
    assert_eq!(convert_token("*"), Token::OperatorTail(ArithmeticOperandTail::Multiply));
    assert_eq!(convert_token("/"), Token::OperatorTail(ArithmeticOperandTail::Divide));
    assert_eq!(convert_token("%"), Token::OperatorTail(ArithmeticOperandTail::Mod));
    assert_eq!(convert_token("="), Token::Assign);
}

#[test]
fn classify_literals_and_identifiers() {
    assert_eq!(convert_token("42"), Token::Value(42));
    assert_eq!(convert_token("-42"), Token::Value(-42));
    assert_eq!(convert_token("007"), Token::Value(7));
    assert_eq!(convert_token("2.5"), Token::Variable("2.5".to_string()));
    assert_eq!(convert_token("abc"), Token::Variable("abc".to_string()));
    assert_eq!(convert_token("2147483648"), Token::Variable("2147483648".to_string()));
}

#[test]
fn integer_parse_bounds() {
    assert_eq!(parse_i32("2147483647"), Some(2147483647));
    assert_eq!(parse_i32("-2147483648"), Some(-2147483648));
    assert_eq!(parse_i32("+12"), Some(12));
    assert_eq!(parse_i32("-2147483649"), None);
    assert_eq!(parse_i32("99999999999999999999"), None);
    assert_eq!(parse_i32("00000000000000000001"), Some(1));
    assert_eq!(parse_i32(""), None);
    assert_eq!(parse_i32("-"), None);
    assert_eq!(parse_i32("1a"), None);
}

#[test]
fn tokenize_line() {
    assert_eq!(
        tokenize("x = y*2"),
        vec![
            Token::Variable("x".to_string()),
            Token::Assign,
            Token::Variable("y".to_string()),
            Token::OperatorTail(ArithmeticOperandTail::Multiply),
            Token::Value(2),
        ]
    );
}
