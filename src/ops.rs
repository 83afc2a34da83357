use vstd::prelude::*;
use crate::error::{EvalError, ErrorView};

verus! {

/// The binary operators of the language.
#[derive(Debug, Clone, Copy, PartialEq, Eq)]
pub enum BinaryOp {
    Plus,
    Minus,
    Multiply,
    Divide,
    Mod,
    Equal,
    NotEqual,
    LessThan,
    GreaterThan,
    LessThanOrEqual,
    GreaterThanOrEqual,
    LogicalOr,
    LogicalAnd,
}

pub open spec fn fits_i32(x: int) -> bool {
    i32::MIN <= x <= i32::MAX
}

pub open spec fn abs(x: int) -> int {
    if x < 0 { -x } else { x }
}

/// Division that rounds toward zero, as Rust's `/` on integers does.
pub open spec fn trunc_div(a: int, b: int) -> int {
    if (a < 0) == (b < 0) {
        abs(a) / abs(b)
    } else {
        -(abs(a) / abs(b))
    }
}

/// The remainder that goes with [`trunc_div`]: it has the sign of `a`.
pub open spec fn trunc_rem(a: int, b: int) -> int {
    a - b * trunc_div(a, b)
}

/// A result of exact integer arithmetic, or `Overflow` where it leaves `i32`.
pub open spec fn narrowed(x: int) -> Result<i32, ErrorView> {
    if fits_i32(x) {
        Ok(x as i32)
    } else {
        Err(ErrorView::Overflow)
    }
}

/// Truth as a value of the language: 1 for true, 0 for false.
pub open spec fn flag(b: bool) -> i32 {
    if b { 1 } else { 0 }
}

pub open spec fn is_relational(op: BinaryOp) -> bool {
    match op {
        BinaryOp::Equal | BinaryOp::NotEqual | BinaryOp::LessThan | BinaryOp::GreaterThan
        | BinaryOp::LessThanOrEqual | BinaryOp::GreaterThanOrEqual => true,
        _ => false,
    }
}

pub open spec fn is_logical(op: BinaryOp) -> bool {
    op == BinaryOp::LogicalOr || op == BinaryOp::LogicalAnd
}

/// What `a op b` evaluates to.
pub open spec fn apply_spec(op: BinaryOp, a: i32, b: i32) -> Result<i32, ErrorView> {
    match op {
        BinaryOp::Plus => narrowed(a + b),
        BinaryOp::Minus => narrowed(a - b),
        BinaryOp::Multiply => narrowed(a * b),
        BinaryOp::Divide => if b == 0 {
            Err(ErrorView::DivisionByZero)
        } else {
            narrowed(trunc_div(a as int, b as int))
        },
        BinaryOp::Mod => if b == 0 {
            Err(ErrorView::DivisionByZero)
        } else if !fits_i32(trunc_div(a as int, b as int)) {
            Err(ErrorView::Overflow)
        } else {
            Ok(trunc_rem(a as int, b as int) as i32)
        },
        BinaryOp::Equal => Ok(flag(a == b)),
        BinaryOp::NotEqual => Ok(flag(a != b)),
        BinaryOp::LessThan => Ok(flag(a < b)),
        BinaryOp::GreaterThan => Ok(flag(a > b)),
        BinaryOp::LessThanOrEqual => Ok(flag(a <= b)),
        BinaryOp::GreaterThanOrEqual => Ok(flag(a >= b)),
        BinaryOp::LogicalOr => Ok(flag(a != 0 || b != 0)),
        BinaryOp::LogicalAnd => Ok(flag(a != 0 && b != 0)),
    }
}

/// `checked_div` of std rounds toward zero as [`trunc_div`] does.
proof fn lemma_checked_div(a: i32, b: i32)
    requires
        b != 0,
    ensures
        a.checked_div(b) == (if fits_i32(trunc_div(a as int, b as int)) {
            Some(trunc_div(a as int, b as int) as i32)
        } else {
            None::<i32>
        }),
{
    let x = a as int;
    let d = b as int;
    if x < 0 && d < 0 {
        assert((x * -1) == -x && (d * -1) == -d);
    } else if x < 0 && d > 0 {
        assert((x * -1) == -x);
        assert(((-x) / d) * -1 == -((-x) / d));
    } else if x > 0 && d < 0 {
        assert((d * -1) == -d);
        assert((x / (-d)) * -1 == -(x / (-d)));
    }
}

/// `checked_rem` of std gives the remainder of [`trunc_div`].
proof fn lemma_checked_rem(a: i32, b: i32)
    requires
        b != 0,
        fits_i32(trunc_div(a as int, b as int)),
    ensures
        a.checked_rem(b) == Some(trunc_rem(a as int, b as int) as i32),
{
    let x = a as int;
    let d = b as int;
    let q = abs(x) / abs(d);
    let r = abs(x) % abs(d);
    assert(abs(x) == abs(d) * q + r && 0 <= r < abs(d)) by (nonlinear_arith)
        requires abs(d) > 0, q == abs(x) / abs(d), r == abs(x) % abs(d), abs(x) >= 0;
    if x == i32::MIN && d == -1 {
        assert(abs(d) == 1);
        assert(abs(x) / 1 == abs(x));
    }
    assert(x * -1 == -x && d * -1 == -d);
    if x < 0 && d < 0 {
        assert((abs(x) % abs(d)) * -1 == -r);
        assert(trunc_rem(x, d) == x - d * q);
        assert(x - d * q == -r) by (nonlinear_arith)
            requires abs(x) == -x, abs(d) == -d, abs(x) == abs(d) * q + r;
    } else if x < 0 && d > 0 {
        assert((abs(x) % d) * -1 == -r);
        assert(trunc_rem(x, d) == x + d * q) by (nonlinear_arith)
            requires trunc_div(x, d) == -q;
        assert(x + d * q == -r) by (nonlinear_arith)
            requires abs(x) == -x, abs(d) == d, abs(x) == abs(d) * q + r;
    } else if x > 0 && d < 0 {
        assert(trunc_rem(x, d) == x + d * q) by (nonlinear_arith)
            requires trunc_div(x, d) == -q;
        assert(x + d * q == r) by (nonlinear_arith)
            requires abs(x) == x, abs(d) == -d, abs(x) == abs(d) * q + r;
    } else if x > 0 && d > 0 {
        assert(trunc_rem(x, d) == x - d * q);
        assert(x - d * q == r) by (nonlinear_arith)
            requires abs(x) == x, abs(d) == d, abs(x) == abs(d) * q + r;
    } else {
        assert(q == 0);
        assert(trunc_rem(x, d) == 0) by (nonlinear_arith)
            requires x == 0, trunc_div(x, d) == 0;
    }
}

/// Evaluates `a op b` on integers; the comparisons and the logical operators
/// give exactly 0 or 1.
pub fn apply(op: BinaryOp, a: i32, b: i32) -> (r: Result<i32, EvalError>)
    ensures
        crate::error::result_view(r) == apply_spec(op, a, b),
        (is_relational(op) || is_logical(op)) ==> (r == Ok::<i32, EvalError>(0) || r == Ok::<i32, EvalError>(1)),
{
    match op {
        BinaryOp::Plus => match a.checked_add(b) {
            Some(v) => Ok(v),
            None => Err(EvalError::Overflow),
        },
        BinaryOp::Minus => match a.checked_sub(b) {
            Some(v) => Ok(v),
            None => Err(EvalError::Overflow),
        },
        BinaryOp::Multiply => match a.checked_mul(b) {
            Some(v) => Ok(v),
            None => Err(EvalError::Overflow),
        },
        BinaryOp::Divide => {
            if b == 0 {
                return Err(EvalError::DivisionByZero);
            }
            proof {
                lemma_checked_div(a, b);
            }
            match a.checked_div(b) {
                Some(v) => Ok(v),
                None => Err(EvalError::Overflow),
            }
        },
        BinaryOp::Mod => {
            if b == 0 {
                return Err(EvalError::DivisionByZero);
            }
            proof {
                lemma_checked_div(a, b);
            }
            match a.checked_div(b) {
                None => Err(EvalError::Overflow),
                Some(_) => {
                    proof {
                        lemma_checked_rem(a, b);
                    }
                    match a.checked_rem(b) {
                        Some(v) => Ok(v),
                        None => Err(EvalError::Overflow),
                    }
                },
            }
        },
        BinaryOp::Equal => Ok(if a == b { 1 } else { 0 }),
        BinaryOp::NotEqual => Ok(if a != b { 1 } else { 0 }),
        BinaryOp::LessThan => Ok(if a < b { 1 } else { 0 }),
        BinaryOp::GreaterThan => Ok(if a > b { 1 } else { 0 }),
        BinaryOp::LessThanOrEqual => Ok(if a <= b { 1 } else { 0 }),
        BinaryOp::GreaterThanOrEqual => Ok(if a >= b { 1 } else { 0 }),
        BinaryOp::LogicalOr => Ok(if a != 0 || b != 0 { 1 } else { 0 }),
        BinaryOp::LogicalAnd => Ok(if a != 0 && b != 0 { 1 } else { 0 }),
    }
}

} // verus!
