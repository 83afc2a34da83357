use line_calc::tree::{identifier_name, Interpreter, Node};
use line_calc::{BinaryOp, EvalError};

fn num(v: i32) -> Box<Node> {
    Box::new(Node::Number(v))
}

fn ident(n: &str) -> Box<Node> {
    Box::new(Node::Identifier(n.to_string()))
}

#[test]
fn declaration_binds_value_of_tree() {
    // x = (2 < 3) && (4 == 4)
    let rhs = Node::Operator(
        BinaryOp::LogicalAnd,
        Box::new(Node::Operator(BinaryOp::LessThan, num(2), num(3))),
        Box::new(Node::Operator(BinaryOp::Equal, num(4), num(4))),
    );
    let mut interpreter = Interpreter::new(Node::Declaration(ident("x"), Box::new(rhs)));
    assert_eq!(interpreter.run(), Ok(()));
    assert_eq!(interpreter.statement(&Node::Identifier("x".to_string())), Ok(1));
}

#[test]
fn tree_operators_apply_after_both_sides() {
    let interpreter = Interpreter::new(Node::Number(0));
    let tree = Node::Operator(
        BinaryOp::Minus,
        num(10),
        Box::new(Node::Operator(BinaryOp::Multiply, num(2), num(3))),
    );
    assert_eq!(interpreter.statement(&tree), Ok(4));
    let tree = Node::Operator(BinaryOp::GreaterThanOrEqual, num(1), num(2));
    assert_eq!(interpreter.statement(&tree), Ok(0));
    let tree = Node::Operator(BinaryOp::Divide, ident("q"), num(0));
    assert_eq!(interpreter.statement(&tree), Err(EvalError::UndefinedVariable("q".to_string())));
    let tree = Node::Operator(BinaryOp::Divide, num(1), num(0));
    assert_eq!(interpreter.statement(&tree), Err(EvalError::DivisionByZero));
}

#[test]
fn non_declaration_root_is_rejected() {
    let mut interpreter = Interpreter::new(Node::Number(3));
    assert_eq!(interpreter.run(), Err(EvalError::MalformedExpression));
    let mut interpreter = Interpreter::new(Node::Declaration(num(1), num(2)));
    assert_eq!(interpreter.run(), Err(EvalError::MalformedExpression));
}

#[test]
fn identifier_name_reads_identifiers_only() {
    assert_eq!(identifier_name(&Node::Identifier("abc".to_string())), Ok("abc".to_string()));
    assert_eq!(identifier_name(&Node::Number(1)), Err(EvalError::MalformedExpression));
}
