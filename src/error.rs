use vstd::prelude::*;

verus! {

/// Why evaluating a line failed. Every failure aborts the run.
#[derive(Debug, Clone, PartialEq, Eq)]
pub enum EvalError {
    /// An identifier was read that the environment does not hold.
    UndefinedVariable(String),
    /// The right operand of `/` or `%` was zero.
    DivisionByZero,
    /// The tokens do not form an expression: an operand or an operator is
    /// missing or stands where the other was expected.
    MalformedExpression,
    /// A line of two or more tokens whose second token is not `=`.
    MissingAssignmentOperator,
    /// A fragment that no token kind accepts; the classifier never reports it,
    /// as any other text becomes an identifier.
    UnclassifiableToken,
    /// An arithmetic result does not fit in an `i32`.
    Overflow,
    /// A name was read as a single value but holds an array, or indexed but
    /// holds a single value.
    KindMismatch(String),
    /// An array element was read past the end of the array.
    IndexOutOfRange,
}

/// The mathematical form of an [`EvalError`]: names become character sequences.
pub enum ErrorView {
    UndefinedVariable(Seq<char>),
    DivisionByZero,
    MalformedExpression,
    MissingAssignmentOperator,
    UnclassifiableToken,
    Overflow,
    KindMismatch(Seq<char>),
    IndexOutOfRange,
}

impl View for EvalError {
    type V = ErrorView;

    open spec fn view(&self) -> ErrorView {
        match self {
            EvalError::UndefinedVariable(n) => ErrorView::UndefinedVariable(n@),
            EvalError::DivisionByZero => ErrorView::DivisionByZero,
            EvalError::MalformedExpression => ErrorView::MalformedExpression,
            EvalError::MissingAssignmentOperator => ErrorView::MissingAssignmentOperator,
            EvalError::UnclassifiableToken => ErrorView::UnclassifiableToken,
            EvalError::Overflow => ErrorView::Overflow,
            EvalError::KindMismatch(n) => ErrorView::KindMismatch(n@),
            EvalError::IndexOutOfRange => ErrorView::IndexOutOfRange,
        }
    }
}

/// The view of a result whose success value is already mathematical.
pub open spec fn result_view<T>(r: Result<T, EvalError>) -> Result<T, ErrorView> {
    match r {
        Ok(v) => Ok(v),
        Err(e) => Err(e@),
    }
}

} // verus!
