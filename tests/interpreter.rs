use line_calc::{ArithmeticOperandHead, ArithmeticOperandTail, EvalError, Interpreter, Token};

fn var(name: &str) -> Token {
    Token::Variable(name.to_string())
}

fn run_text(lines: &[&str]) -> Result<Vec<i32>, EvalError> {
    let mut interpreter = Interpreter::new();
    let owned: Vec<String> = lines.iter().map(|l| l.to_string()).collect();
    interpreter.run(&owned)
}

#[test]
fn test_arithmetic_addition() {
    let mut interpreter = Interpreter::new();
    let tokens = vec![var("a"), Token::Assign, Token::Value(5)];
    interpreter.run_line(tokens).unwrap();

    let tokens = vec![var("b"), Token::Assign, Token::Value(10)];
    interpreter.run_line(tokens).unwrap();

    let tokens = vec![
        var("c"),
        Token::Assign,
        var("a"),
        Token::OperatorHead(ArithmeticOperandHead::Plus),
        var("b"),
    ];
    interpreter.run_line(tokens).unwrap();

    assert_eq!(interpreter.variable("c"), Some(15));
}

#[test]
fn test_arithmetic_subtraction() {
    let mut interpreter = Interpreter::new();
    let tokens = vec![var("x"), Token::Assign, Token::Value(20)];
    interpreter.run_line(tokens).unwrap();

    let tokens = vec![var("y"), Token::Assign, Token::Value(8)];
    interpreter.run_line(tokens).unwrap();

    let tokens = vec![
        var("z"),
        Token::Assign,
        var("x"),
        Token::OperatorHead(ArithmeticOperandHead::Minus),
        var("y"),
    ];
    interpreter.run_line(tokens).unwrap();

    assert_eq!(interpreter.variable("z"), Some(12));
}

#[test]
fn test_arithmetic_multiplication() {
    let mut interpreter = Interpreter::new();
    let tokens = vec![var("m"), Token::Assign, Token::Value(3)];
    interpreter.run_line(tokens).unwrap();

    let tokens = vec![var("n"), Token::Assign, Token::Value(7)];
    interpreter.run_line(tokens).unwrap();

    let tokens = vec![
        var("p"),
        Token::Assign,
        var("m"),
        Token::OperatorTail(ArithmeticOperandTail::Multiply),
        var("n"),
    ];
    interpreter.run_line(tokens).unwrap();

    assert_eq!(interpreter.variable("p"), Some(21));
}

#[test]
fn test_arithmetic_division() {
    let mut interpreter = Interpreter::new();
    let tokens = vec![var("a"), Token::Assign, Token::Value(20)];
    interpreter.run_line(tokens).unwrap();

    let tokens = vec![var("b"), Token::Assign, Token::Value(4)];
    interpreter.run_line(tokens).unwrap();

    let tokens = vec![
        var("c"),
        Token::Assign,
        var("a"),
        Token::OperatorTail(ArithmeticOperandTail::Divide),
        var("b"),
    ];
    interpreter.run_line(tokens).unwrap();

    assert_eq!(interpreter.variable("c"), Some(5));
}

#[test]
fn test_variable_not_found() {
    let mut interpreter = Interpreter::new();
    let tokens = vec![var("undefined")];
    assert_eq!(
        interpreter.run_line(tokens),
        Err(EvalError::UndefinedVariable("undefined".to_string()))
    );
}

#[test]
fn test_invalid_operator() {
    let mut interpreter = Interpreter::new();
    let tokens = vec![
        var("a"),
        Token::Assign,
        Token::Value(5),
        Token::OperatorHead(ArithmeticOperandHead::Plus),
    ];
    assert_eq!(interpreter.run_line(tokens), Err(EvalError::MalformedExpression));
    assert_eq!(interpreter.variable("a"), None);
}

#[test]
fn division_truncates_toward_zero() {
    assert_eq!(run_text(&["a = 7", "b = 2", "c = a / b", "c"]), Ok(vec![3]));
    let mut interpreter = Interpreter::new();
    let tokens = vec![var("c"), Token::Assign, Token::Value(-7), Token::OperatorTail(ArithmeticOperandTail::Divide), Token::Value(2)];
    interpreter.run_line(tokens).unwrap();
    assert_eq!(interpreter.variable("c"), Some(-3));
}

#[test]
fn division_by_zero_fails() {
    assert_eq!(
        run_text(&["a = 7", "b = 0", "c = a / b"]),
        Err(EvalError::DivisionByZero)
    );
}

#[test]
fn assignment_last_write_wins() {
    let mut interpreter = Interpreter::new();
    interpreter.run_source_line("x = 5").unwrap();
    interpreter.run_source_line("x = 5").unwrap();
    assert_eq!(interpreter.variable("x"), Some(5));
    interpreter.run_source_line("x = 7").unwrap();
    assert_eq!(interpreter.variable("x"), Some(7));
}

#[test]
fn printing_undefined_variable_fails() {
    assert_eq!(run_text(&["y"]), Err(EvalError::UndefinedVariable("y".to_string())));
}

#[test]
fn multiplication_binds_tighter() {
    assert_eq!(run_text(&["x = 2 + 3 * 4", "x"]), Ok(vec![14]));
    assert_eq!(run_text(&["x = 2*3+4*5-6/2", "x"]), Ok(vec![23]));
}

#[test]
fn subtraction_is_left_associative() {
    assert_eq!(run_text(&["x = 10 - 3 - 2", "x"]), Ok(vec![5]));
    assert_eq!(run_text(&["x = 100 / 10 / 5", "x"]), Ok(vec![2]));
}

#[test]
fn modulo_keeps_sign_of_left_operand() {
    assert_eq!(run_text(&["x = 17 % 5", "x"]), Ok(vec![2]));
    let mut interpreter = Interpreter::new();
    let tokens = vec![var("r"), Token::Assign, Token::Value(-17), Token::OperatorTail(ArithmeticOperandTail::Mod), Token::Value(5)];
    interpreter.run_line(tokens).unwrap();
    assert_eq!(interpreter.variable("r"), Some(-2));
    assert_eq!(run_text(&["x = 3 % 0"]), Err(EvalError::DivisionByZero));
}

#[test]
fn sum_of_two_variables_is_printed() {
    assert_eq!(run_text(&["a = 5", "b = 10", "c = a + b", "c"]), Ok(vec![15]));
}

#[test]
fn trailing_operator_line_is_rejected() {
    assert_eq!(
        run_text(&["x = 20", "x +"]),
        Err(EvalError::MissingAssignmentOperator)
    );
    assert_eq!(run_text(&["x = 20", "y = x +"]), Err(EvalError::MalformedExpression));
}

#[test]
fn malformed_shapes() {
    assert_eq!(run_text(&["x ="]), Err(EvalError::MalformedExpression));
    assert_eq!(run_text(&["x = 1 2"]), Err(EvalError::MalformedExpression));
    assert_eq!(run_text(&["x = * 2"]), Err(EvalError::MalformedExpression));
    assert_eq!(run_text(&["x = 2 *"]), Err(EvalError::MalformedExpression));
    assert_eq!(run_text(&["x = -5"]), Err(EvalError::MalformedExpression));
    assert_eq!(run_text(&["5 = 3"]), Err(EvalError::MalformedExpression));
    assert_eq!(run_text(&["x 3"]), Err(EvalError::MissingAssignmentOperator));
}

#[test]
fn empty_and_literal_lines_do_nothing() {
    assert_eq!(run_text(&["", "   ", "42", "x = 1", "x"]), Ok(vec![1]));
}

#[test]
fn run_stops_at_first_failure() {
    let mut interpreter = Interpreter::new();
    let lines: Vec<String> = vec!["a = 1".to_string(), "b".to_string(), "a = 2".to_string()];
    assert_eq!(interpreter.run(&lines), Err(EvalError::UndefinedVariable("b".to_string())));
    assert_eq!(interpreter.variable("a"), Some(1));
}

#[test]
fn overflow_is_reported() {
    assert_eq!(run_text(&["x = 2147483647 + 1"]), Err(EvalError::Overflow));
    assert_eq!(run_text(&["x = 65536 * 65536"]), Err(EvalError::Overflow));
    assert_eq!(run_text(&["x = 0 - 2147483647 - 2"]), Err(EvalError::Overflow));
    assert_eq!(run_text(&["x = 2147483647", "x"]), Ok(vec![2147483647]));
}

#[test]
fn undefined_operand_in_expression() {
    assert_eq!(
        run_text(&["x = 1 + q * 2"]),
        Err(EvalError::UndefinedVariable("q".to_string()))
    );
    assert_eq!(run_text(&["x = 1 / 0 + q"]), Err(EvalError::DivisionByZero));
}

#[test]
fn evaluate_whole_expression() {
    let interpreter = Interpreter::new();
    let tokens = vec![
        Token::Value(6),
        Token::OperatorTail(ArithmeticOperandTail::Mod),
        Token::Value(4),
        Token::OperatorHead(ArithmeticOperandHead::Minus),
        Token::Value(9),
    ];
    assert_eq!(interpreter.evaluate(&tokens), Ok(-7));
    assert_eq!(interpreter.evaluate(&vec![]), Err(EvalError::MalformedExpression));
}

#[test]
fn arrays_are_stored_and_indexed() {
    let mut interpreter = Interpreter::new();
    interpreter.declare_array("v".to_string(), vec![4, 5, 6]);
    assert_eq!(interpreter.element("v", 2), Ok(6));
    assert_eq!(interpreter.element("v", 3), Err(EvalError::IndexOutOfRange));
    assert_eq!(interpreter.element("w", 0), Err(EvalError::UndefinedVariable("w".to_string())));
    assert_eq!(run_text(&["x = 1", "x"]), Ok(vec![1]));
    assert_eq!(interpreter.run_source_line("v"), Err(EvalError::KindMismatch("v".to_string())));
    interpreter.run_source_line("x = 3").unwrap();
    assert_eq!(interpreter.element("x", 0), Err(EvalError::KindMismatch("x".to_string())));
    interpreter.run_source_line("v = 8").unwrap();
    assert_eq!(interpreter.variable("v"), Some(8));
}
