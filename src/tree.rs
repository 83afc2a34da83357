use vstd::prelude::*;
use crate::env::{lookup_spec, Binding, Environment};
use crate::error::{result_view, ErrorView, EvalError};
use crate::interpreter::Env;
use crate::ops::{apply, apply_spec, BinaryOp};

verus! {

/// An expression tree whose operands a parser has already grouped.
#[derive(Debug)]
pub enum Node {
    Number(i32),
    Identifier(String),
    /// A binary operator applied to two subtrees.
    Operator(BinaryOp, Box<Node>, Box<Node>),
    /// `lhs = rhs`: binds the identifier on the left to the value on the right.
    Declaration(Box<Node>, Box<Node>),
}

/// The height of a tree.
pub open spec fn depth(node: Node) -> nat
    decreases node,
{
    match node {
        Node::Operator(_, lhs, rhs) | Node::Declaration(lhs, rhs) => {
            let (a, b) = (depth(*lhs), depth(*rhs));
            1 + if a > b { a } else { b }
        },
        _ => 0,
    }
}

/// The value of a tree: both subtrees of an operator are evaluated, left
/// first, before the operator is applied.
pub open spec fn eval_node(env: Env, node: Node) -> Result<i32, ErrorView>
    decreases node,
{
    match node {
        Node::Number(v) => Ok(v),
        Node::Identifier(n) => lookup_spec(env, n@),
        Node::Operator(op, lhs, rhs) => match eval_node(env, *lhs) {
            Err(e) => Err(e),
            Ok(a) => match eval_node(env, *rhs) {
                Err(e) => Err(e),
                Ok(b) => apply_spec(op, a, b),
            },
        },
        Node::Declaration(_, _) => Err(ErrorView::MalformedExpression),
    }
}

/// The environment after running a tree as a statement; only a declaration
/// of an identifier runs.
pub open spec fn interpret_spec(env: Env, node: Node) -> Result<Env, ErrorView> {
    match node {
        Node::Declaration(lhs, rhs) => match *lhs {
            Node::Identifier(n) => match eval_node(env, *rhs) {
                Err(e) => Err(e),
                Ok(v) => Ok(env.insert(n@, Binding::Scalar(v))),
            },
            _ => Err(ErrorView::MalformedExpression),
        },
        _ => Err(ErrorView::MalformedExpression),
    }
}

/// Evaluates one expression tree against its own variables.
pub struct Interpreter {
    root: Node,
    variables: Environment<i32>,
}

impl View for Interpreter {
    type V = Env;

    closed spec fn view(&self) -> Env {
        self.variables@
    }
}

impl Interpreter {
    pub closed spec fn wf(&self) -> bool {
        self.variables.wf()
    }

    pub closed spec fn spec_root(&self) -> Node {
        self.root
    }

    /// An interpreter for `root` with no variables.
    pub fn new(root: Node) -> (r: Self)
        ensures
            r.wf(),
            r@ == Env::empty(),
            r.spec_root() == root,
    {
        Interpreter { root, variables: Environment::new() }
    }

    /// Runs the root tree as a statement.
    pub fn run(&mut self) -> (r: Result<(), EvalError>)
        requires
            old(self).wf(),
        ensures
            final(self).wf(),
            final(self).spec_root() == old(self).spec_root(),
            match r {
                Ok(_) => interpret_spec(old(self)@, old(self).spec_root()) == Ok::<Env, ErrorView>(final(self)@),
                Err(e) => interpret_spec(old(self)@, old(self).spec_root()) == Err::<Env, ErrorView>(e@)
                    && final(self)@ == old(self)@,
            },
    {
        interpret_node(&mut self.variables, &self.root)
    }

    /// The value of `node` against the variables held.
    pub fn statement(&self, node: &Node) -> (r: Result<i32, EvalError>)
        requires
            self.wf(),
        ensures
            result_view(r) == eval_node(self@, *node),
    {
        statement(&self.variables, node)
    }
}

/// The name an identifier node holds.
pub fn identifier_name(node: &Node) -> (r: Result<String, EvalError>)
    ensures
        match r {
            Ok(name) => *node matches Node::Identifier(n) && name@ == n@,
            Err(e) => !(*node is Identifier) && e@ == ErrorView::MalformedExpression,
        },
{
    match node {
        Node::Identifier(name) => Ok(name.clone()),
        _ => Err(EvalError::MalformedExpression),
    }
}

/// Evaluates `lhs op rhs`: both sides first, then the operator.
fn operator(variables: &Environment<i32>, op: BinaryOp, lhs: &Node, rhs: &Node) -> (r: Result<i32, EvalError>)
    requires
        variables.wf(),
    ensures
        result_view(r) == eval_node(variables@, Node::Operator(op, Box::new(*lhs), Box::new(*rhs))),
    decreases 2 * (if depth(*lhs) > depth(*rhs) { depth(*lhs) } else { depth(*rhs) }) + 2,
{
    let a = match statement(variables, lhs) {
        Ok(v) => v,
        Err(e) => return Err(e),
    };
    let b = match statement(variables, rhs) {
        Ok(v) => v,
        Err(e) => return Err(e),
    };
    apply(op, a, b)
}

fn statement(variables: &Environment<i32>, node: &Node) -> (r: Result<i32, EvalError>)
    requires
        variables.wf(),
    ensures
        result_view(r) == eval_node(variables@, *node),
    decreases 2 * depth(*node) + 1,
{
    match node {
        Node::Number(v) => Ok(*v),
        Node::Identifier(name) => match variables.lookup(name) {
            Ok(v) => Ok(*v),
            Err(e) => Err(e),
        },
        Node::Operator(op, lhs, rhs) => operator(variables, *op, lhs, rhs),
        Node::Declaration(_, _) => Err(EvalError::MalformedExpression),
    }
}

fn interpret_node(variables: &mut Environment<i32>, node: &Node) -> (r: Result<(), EvalError>)
    requires
        old(variables).wf(),
    ensures
        final(variables).wf(),
        match r {
            Ok(_) => interpret_spec(old(variables)@, *node) == Ok::<Env, ErrorView>(final(variables)@),
            Err(e) => interpret_spec(old(variables)@, *node) == Err::<Env, ErrorView>(e@)
                && final(variables)@ == old(variables)@,
        },
{
    match node {
        Node::Declaration(lhs, rhs) => {
            let name = match identifier_name(lhs) {
                Ok(n) => n,
                Err(e) => return Err(e),
            };
            let value = match statement(variables, rhs) {
                Ok(v) => v,
                Err(e) => return Err(e),
            };
            variables.assign(name, value);
            Ok(())
        },
        _ => Err(EvalError::MalformedExpression),
    }
}

} // verus!
