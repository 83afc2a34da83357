use vstd::prelude::*;
use crate::env::Binding;
use crate::error::ErrorView;
use crate::interpreter::{expression_spec, run_line_spec, term_rest, term_spec, expression_rest, Env};
use crate::lexer::{ArithmeticOperandTail, TokenView};
use crate::ops::trunc_div;

verus! {

/// The tokens of `name = value`.
pub open spec fn assignment(name: Seq<char>, value: i32) -> Seq<TokenView> {
    seq![TokenView::Variable(name), TokenView::Assign, TokenView::Value(value)]
}

/// Assigning a literal always succeeds and binds the name to it.
pub proof fn lemma_assign_literal(env: Env, name: Seq<char>, value: i32)
    ensures
        run_line_spec(env, assignment(name, value)) == Ok::<(Env, Option<i32>), ErrorView>(
            (env.insert(name, Binding::Scalar(value)), None),
        ),
{
    let ts = assignment(name, value);
    assert(term_spec(env, ts, 2) == Ok::<(i32, int), ErrorView>((value, 3)));
    assert(expression_spec(env, ts, 2) == Ok::<i32, ErrorView>(value));
}

/// Assignment overwrites: running `x = v` twice leaves the same variables as
/// running it once, and a later `x = w` leaves `x` holding `w`.
pub proof fn lemma_assignment_overwrites(env: Env, name: Seq<char>, v: i32, w: i32)
    ensures
        ({
            let once = env.insert(name, Binding::Scalar(v));
            &&& run_line_spec(env, assignment(name, v)) == Ok::<(Env, Option<i32>), ErrorView>((once, None))
            &&& run_line_spec(once, assignment(name, v)) == Ok::<(Env, Option<i32>), ErrorView>((once, None))
            &&& run_line_spec(once, assignment(name, w)) == Ok::<(Env, Option<i32>), ErrorView>(
                (env.insert(name, Binding::Scalar(w)), None),
            )
        }),
{
    let once = env.insert(name, Binding::Scalar(v));
    lemma_assign_literal(env, name, v);
    lemma_assign_literal(once, name, v);
    lemma_assign_literal(once, name, w);
    assert(once.insert(name, Binding::Scalar(v)) =~= once);
    assert(once.insert(name, Binding::Scalar(w)) =~= env.insert(name, Binding::Scalar(w)));
}

/// A line that names a variable the environment does not hold fails with
/// `UndefinedVariable` of that name.
pub proof fn lemma_print_undefined(env: Env, name: Seq<char>)
    requires
        !env.contains_key(name),
    ensures
        run_line_spec(env, seq![TokenView::Variable(name)]) == Err::<(Env, Option<i32>), ErrorView>(
            ErrorView::UndefinedVariable(name),
        ),
{
}

/// After `a = x` and `b = y`, the line `c = a / b` stores `x / y` rounded
/// toward zero, and fails with `DivisionByZero` when `y` is 0. The one
/// quotient that leaves `i32`, `i32::MIN / -1`, is left out.
pub proof fn lemma_division_through_variables(env: Env, x: i32, y: i32)
    requires
        !(x == i32::MIN && y == -1),
    ensures
        ({
            let a = seq!['a'];
            let b = seq!['b'];
            let c = seq!['c'];
            let after_a = env.insert(a, Binding::Scalar(x));
            let after_b = after_a.insert(b, Binding::Scalar(y));
            let divide = seq![
                TokenView::Variable(c),
                TokenView::Assign,
                TokenView::Variable(a),
                TokenView::OperatorTail(ArithmeticOperandTail::Divide),
                TokenView::Variable(b),
            ];
            &&& run_line_spec(env, assignment(a, x)) == Ok::<(Env, Option<i32>), ErrorView>((after_a, None))
            &&& run_line_spec(after_a, assignment(b, y)) == Ok::<(Env, Option<i32>), ErrorView>((after_b, None))
            &&& y != 0 ==> run_line_spec(after_b, divide) == Ok::<(Env, Option<i32>), ErrorView>(
                (after_b.insert(c, Binding::Scalar(trunc_div(x as int, y as int) as i32)), None),
            )
            &&& y == 0 ==> run_line_spec(after_b, divide) == Err::<(Env, Option<i32>), ErrorView>(
                ErrorView::DivisionByZero,
            )
        }),
{
    let a = seq!['a'];
    let b = seq!['b'];
    let c = seq!['c'];
    let after_a = env.insert(a, Binding::Scalar(x));
    let after_b = after_a.insert(b, Binding::Scalar(y));
    let divide = seq![
        TokenView::Variable(c),
        TokenView::Assign,
        TokenView::Variable(a),
        TokenView::OperatorTail(ArithmeticOperandTail::Divide),
        TokenView::Variable(b),
    ];
    lemma_assign_literal(env, a, x);
    lemma_assign_literal(after_a, b, y);
    assert(a != b) by {
        assert(a[0] != b[0]);
    }
    assert(after_b[a] == Binding::Scalar(x));
    assert(after_b[b] == Binding::Scalar(y));
    if y != 0 {
        let q = trunc_div(x as int, y as int);
        assert(crate::ops::fits_i32(q)) by {
            let ax = crate::ops::abs(x as int);
            let ay = crate::ops::abs(y as int);
            assert(ax / ay <= ax) by (nonlinear_arith)
                requires ax >= 0, ay >= 1;
            assert(ax / ay >= 0) by (nonlinear_arith)
                requires ax >= 0, ay >= 1;
            if ay == 1 {
                assert(ax / 1 == ax);
            } else {
                assert(ax / ay <= ax / 2) by (nonlinear_arith)
                    requires ax >= 0, ay >= 2;
            }
        }
        assert(term_rest(after_b, divide, q as i32, 5) == Ok::<(i32, int), ErrorView>((q as i32, 5)));
        assert(term_rest(after_b, divide, x, 3) == Ok::<(i32, int), ErrorView>((q as i32, 5)));
        assert(term_spec(after_b, divide, 2) == Ok::<(i32, int), ErrorView>((q as i32, 5)));
        assert(expression_rest(after_b, divide, q as i32, 5) == Ok::<i32, ErrorView>(q as i32));
    } else {
        assert(term_rest(after_b, divide, x, 3) == Err::<(i32, int), ErrorView>(ErrorView::DivisionByZero));
    }
}

} // verus!
