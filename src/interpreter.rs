use vstd::prelude::*;
use crate::env::{element_spec, lookup_spec, Binding, Environment};
use crate::error::{result_view, ErrorView, EvalError};
use crate::lexer::{classify, fragments, token_views, tokenize, Token, TokenView};
use crate::ops::{apply, apply_spec};

verus! {

/// The variables of a run, as a map from names to bindings.
pub type Env = Map<Seq<char>, Binding<i32>>;

/// The value of a token in operand position.
pub open spec fn operand_spec(env: Env, t: TokenView) -> Result<i32, ErrorView> {
    match t {
        TokenView::Value(v) => Ok(v),
        TokenView::Variable(n) => lookup_spec(env, n),
        _ => Err(ErrorView::MalformedExpression),
    }
}

/// The rest of a term that starts before `pos` and whose value so far is
/// `cur`: each `* / %` with the operand after it folds into the value, from
/// left to right, up to an additive operator or the end. Gives the value and
/// the position where the term ends.
pub open spec fn term_rest(env: Env, ts: Seq<TokenView>, cur: i32, pos: int) -> Result<(i32, int), ErrorView>
    decreases ts.len() - pos,
{
    if pos < 0 || pos >= ts.len() {
        Ok((cur, pos))
    } else {
        match ts[pos] {
            TokenView::OperatorTail(m) => if pos + 1 >= ts.len() {
                Err(ErrorView::MalformedExpression)
            } else {
                match operand_spec(env, ts[pos + 1]) {
                    Err(e) => Err(e),
                    Ok(v) => match apply_spec(m.spec_op(), cur, v) {
                        Err(e) => Err(e),
                        Ok(c) => term_rest(env, ts, c, pos + 2),
                    },
                }
            },
            TokenView::OperatorHead(_) => Ok((cur, pos)),
            _ => Err(ErrorView::MalformedExpression),
        }
    }
}

/// The term that starts at `pos`: an operand, then its multiplicative tail.
pub open spec fn term_spec(env: Env, ts: Seq<TokenView>, pos: int) -> Result<(i32, int), ErrorView> {
    if pos < 0 || pos >= ts.len() {
        Err(ErrorView::MalformedExpression)
    } else {
        match operand_spec(env, ts[pos]) {
            Err(e) => Err(e),
            Ok(v) => term_rest(env, ts, v, pos + 1),
        }
    }
}

/// A term never ends before the position it was resumed at.
pub proof fn lemma_term_rest_advances(env: Env, ts: Seq<TokenView>, cur: i32, pos: int)
    ensures
        0 <= pos <= ts.len() ==> (term_rest(env, ts, cur, pos) matches Ok((_, p)) ==> pos <= p <= ts.len()),
    decreases ts.len() - pos,
{
    if 0 <= pos < ts.len() && pos + 1 < ts.len() {
        if let TokenView::OperatorTail(m) = ts[pos] {
            if let Ok(v) = operand_spec(env, ts[pos + 1]) {
                if let Ok(c) = apply_spec(m.spec_op(), cur, v) {
                    lemma_term_rest_advances(env, ts, c, pos + 2);
                }
            }
        }
    }
}

/// The rest of an expression after a term: each `+` or `-` with the term after
/// it folds into `acc`, from left to right, up to the end.
pub open spec fn expression_rest(env: Env, ts: Seq<TokenView>, acc: i32, pos: int) -> Result<i32, ErrorView>
    decreases ts.len() - pos,
{
    if pos < 0 || pos >= ts.len() {
        Ok(acc)
    } else {
        match ts[pos] {
            TokenView::OperatorHead(h) => match term_spec(env, ts, pos + 1) {
                Err(e) => Err(e),
                Ok((t, p)) => match apply_spec(h.spec_op(), acc, t) {
                    Err(e) => Err(e),
                    Ok(a) => {
                        proof {
                            if let Ok(v) = operand_spec(env, ts[pos + 1]) {
                                lemma_term_rest_advances(env, ts, v, pos + 2);
                            }
                        }
                        expression_rest(env, ts, a, p)
                    },
                },
            },
            _ => Err(ErrorView::MalformedExpression),
        }
    }
}

/// The value of the expression that fills `ts` from `start` to the end.
pub open spec fn expression_spec(env: Env, ts: Seq<TokenView>, start: int) -> Result<i32, ErrorView> {
    match term_spec(env, ts, start) {
        Err(e) => Err(e),
        Ok((t, p)) => expression_rest(env, ts, t, p),
    }
}

/// Running one line of tokens: the environment after it and the value it
/// prints, if any.
pub open spec fn run_line_spec(env: Env, ts: Seq<TokenView>) -> Result<(Env, Option<i32>), ErrorView> {
    if ts.len() == 0 {
        Ok((env, None))
    } else if ts.len() == 1 {
        match ts[0] {
            TokenView::Variable(n) => match lookup_spec(env, n) {
                Ok(v) => Ok((env, Some(v))),
                Err(e) => Err(e),
            },
            _ => Ok((env, None)),
        }
    } else if !(ts[1] is Assign) {
        Err(ErrorView::MissingAssignmentOperator)
    } else {
        match expression_spec(env, ts, 2) {
            Err(e) => Err(e),
            Ok(v) => match ts[0] {
                TokenView::Variable(n) => Ok((env.insert(n, Binding::Scalar(v)), None)),
                _ => Err(ErrorView::MalformedExpression),
            },
        }
    }
}

/// The tokens of a line of text.
pub open spec fn line_tokens(line: Seq<char>) -> Seq<TokenView> {
    fragments(line).map_values(|f: Seq<char>| classify(f))
}

/// `out` put before the values that `r` prints.
pub open spec fn after_output(out: Seq<i32>, r: Result<(Env, Seq<i32>), ErrorView>) -> Result<(Env, Seq<i32>), ErrorView> {
    match r {
        Ok((env, rest)) => Ok((env, out + rest)),
        Err(e) => Err(e),
    }
}

pub open spec fn printed(out: Option<i32>) -> Seq<i32> {
    match out {
        Some(v) => seq![v],
        None => Seq::empty(),
    }
}

/// Running lines in order: the final environment and every printed value,
/// or the first failure.
pub open spec fn run_spec(env: Env, lines: Seq<Seq<char>>) -> Result<(Env, Seq<i32>), ErrorView>
    decreases lines.len(),
{
    if lines.len() == 0 {
        Ok((env, Seq::empty()))
    } else {
        match run_line_spec(env, line_tokens(lines[0])) {
            Err(e) => Err(e),
            Ok((next, out)) => after_output(printed(out), run_spec(next, lines.drop_first())),
        }
    }
}

/// Evaluates lines against the variables it holds.
pub struct Interpreter {
    variables: Environment<i32>,
}

impl View for Interpreter {
    type V = Env;

    closed spec fn view(&self) -> Env {
        self.variables@
    }
}

impl Interpreter {
    pub closed spec fn wf(&self) -> bool {
        self.variables.wf()
    }

    /// An interpreter with no variables.
    pub fn new() -> (r: Self)
        ensures
            r.wf(),
            r@ == Env::empty(),
    {
        Interpreter { variables: Environment::new() }
    }

    /// The value of the variable `name`, if it holds a single value.
    pub fn variable(&self, name: &str) -> (r: Option<i32>)
        requires
            self.wf(),
        ensures
            r == (match lookup_spec(self@, name@) {
                Ok(v) => Some(v),
                Err(_) => None::<i32>,
            }),
    {
        match self.variables.lookup(&name.to_owned()) {
            Ok(v) => Some(*v),
            Err(_) => None,
        }
    }

    /// Element `index` of the array variable `name`.
    pub fn element(&self, name: &str, index: usize) -> (r: Result<i32, EvalError>)
        requires
            self.wf(),
        ensures
            result_view(r) == element_spec(self@, name@, index as int),
    {
        match self.variables.lookup_element(&name.to_owned(), index) {
            Ok(v) => Ok(*v),
            Err(e) => Err(e),
        }
    }

    /// Binds `name` to an array of values.
    pub fn declare_array(&mut self, name: String, values: Vec<i32>)
        requires
            old(self).wf(),
        ensures
            final(self).wf(),
            final(self)@ == old(self)@.insert(name@, Binding::Elements(values@)),
    {
        self.variables.assign_array(name, values);
    }

    fn factor(&self, token: &Token) -> (r: Result<i32, EvalError>)
        requires
            self.wf(),
        ensures
            result_view(r) == operand_spec(self@, token@),
    {
        match token {
            Token::Value(v) => Ok(*v),
            Token::Variable(name) => match self.variables.lookup(name) {
                Ok(v) => Ok(*v),
                Err(e) => Err(e),
            },
            _ => Err(EvalError::MalformedExpression),
        }
    }

    /// The term at `pos`, and the position where it ends.
    fn term(&self, tokens: &Vec<Token>, pos: usize) -> (r: Result<(i32, usize), EvalError>)
        requires
            self.wf(),
        ensures
            match r {
                Ok((v, p)) => term_spec(self@, token_views(tokens@), pos as int) == Ok::<(i32, int), ErrorView>((v, p as int))
                    && pos < p <= tokens@.len(),
                Err(e) => term_spec(self@, token_views(tokens@), pos as int) == Err::<(i32, int), ErrorView>(e@),
            },
    {
        let ghost ts = token_views(tokens@);
        let n = tokens.len();
        if pos >= n {
            return Err(EvalError::MalformedExpression);
        }
        let mut result = match self.factor(&tokens[pos]) {
            Ok(v) => v,
            Err(e) => return Err(e),
        };
        let mut p: usize = pos + 1;
        while p < n
            invariant
                ts == token_views(tokens@),
                n == tokens@.len(),
                pos < p <= n,
                self.wf(),
                term_spec(self@, ts, pos as int) == term_rest(self@, ts, result, p as int),
            decreases n - p,
        {
            match &tokens[p] {
                Token::OperatorTail(m) => {
                    if p + 1 >= n {
                        return Err(EvalError::MalformedExpression);
                    }
                    let s = match self.factor(&tokens[p + 1]) {
                        Ok(v) => v,
                        Err(e) => return Err(e),
                    };
                    result = match apply(m.op(), result, s) {
                        Ok(v) => v,
                        Err(e) => return Err(e),
                    };
                    p = p + 2;
                },
                Token::OperatorHead(_) => {
                    return Ok((result, p));
                },
                _ => {
                    return Err(EvalError::MalformedExpression);
                },
            }
        }
        Ok((result, p))
    }

    /// The expression that fills `tokens` from `start` to the end.
    fn arithmetic_equation(&self, tokens: &Vec<Token>, start: usize) -> (r: Result<i32, EvalError>)
        requires
            self.wf(),
        ensures
            result_view(r) == expression_spec(self@, token_views(tokens@), start as int),
    {
        let ghost ts = token_views(tokens@);
        let n = tokens.len();
        let (mut result, mut p) = match self.term(tokens, start) {
            Ok(tp) => tp,
            Err(e) => return Err(e),
        };
        while p < n
            invariant
                ts == token_views(tokens@),
                n == tokens@.len(),
                p <= n,
                self.wf(),
                expression_spec(self@, ts, start as int) == expression_rest(self@, ts, result, p as int),
            decreases n - p,
        {
            match &tokens[p] {
                Token::OperatorHead(h) => {
                    let (t, next) = match self.term(tokens, p + 1) {
                        Ok(tp) => tp,
                        Err(e) => return Err(e),
                    };
                    result = match apply(h.op(), result, t) {
                        Ok(v) => v,
                        Err(e) => return Err(e),
                    };
                    p = next;
                },
                _ => {
                    return Err(EvalError::MalformedExpression);
                },
            }
        }
        Ok(result)
    }

    /// Evaluates a whole token sequence as one expression.
    pub fn evaluate(&self, tokens: &Vec<Token>) -> (r: Result<i32, EvalError>)
        requires
            self.wf(),
        ensures
            result_view(r) == expression_spec(self@, token_views(tokens@), 0),
    {
        self.arithmetic_equation(tokens, 0)
    }

    /// Runs `name = expression`: the tokens hold two or more entries.
    fn equation(&mut self, tokens: &Vec<Token>) -> (r: Result<i32, EvalError>)
        requires
            old(self).wf(),
            tokens@.len() >= 2,
        ensures
            final(self).wf(),
            match r {
                Ok(v) => run_line_spec(old(self)@, token_views(tokens@)) == Ok::<(Env, Option<i32>), ErrorView>((final(self)@, None)),
                Err(e) => run_line_spec(old(self)@, token_views(tokens@)) == Err::<(Env, Option<i32>), ErrorView>(e@)
                    && final(self)@ == old(self)@,
            },
    {
        match &tokens[1] {
            Token::Assign => {},
            _ => return Err(EvalError::MissingAssignmentOperator),
        }
        let result = match self.arithmetic_equation(tokens, 2) {
            Ok(v) => v,
            Err(e) => return Err(e),
        };
        match &tokens[0] {
            Token::Variable(name) => {
                self.variables.assign(name.clone(), result);
                Ok(result)
            },
            _ => Err(EvalError::MalformedExpression),
        }
    }

    /// Runs one line of tokens. A lone identifier gives its value to print;
    /// `name = expression` stores the value of the expression; a failure
    /// leaves the variables as they were.
    pub fn run_line(&mut self, tokens: Vec<Token>) -> (r: Result<Option<i32>, EvalError>)
        requires
            old(self).wf(),
        ensures
            final(self).wf(),
            match r {
                Ok(out) => run_line_spec(old(self)@, token_views(tokens@)) == Ok::<(Env, Option<i32>), ErrorView>((final(self)@, out)),
                Err(e) => run_line_spec(old(self)@, token_views(tokens@)) == Err::<(Env, Option<i32>), ErrorView>(e@)
                    && final(self)@ == old(self)@,
            },
    {
        if tokens.len() == 0 {
            return Ok(None);
        }
        if tokens.len() == 1 {
            return match &tokens[0] {
                Token::Variable(name) => match self.variables.lookup(name) {
                    Ok(v) => Ok(Some(*v)),
                    Err(e) => Err(e),
                },
                _ => Ok(None),
            };
        }
        match self.equation(&tokens) {
            Ok(_) => Ok(None),
            Err(e) => Err(e),
        }
    }

    /// Splits, classifies and runs one line of text; an empty line does nothing.
    pub fn run_source_line(&mut self, line: &str) -> (r: Result<Option<i32>, EvalError>)
        requires
            old(self).wf(),
        ensures
            final(self).wf(),
            match r {
                Ok(out) => run_line_spec(old(self)@, line_tokens(line@)) == Ok::<(Env, Option<i32>), ErrorView>((final(self)@, out)),
                Err(e) => run_line_spec(old(self)@, line_tokens(line@)) == Err::<(Env, Option<i32>), ErrorView>(e@)
                    && final(self)@ == old(self)@,
            },
    {
        let tokens = tokenize(line);
        self.run_line(tokens)
    }

    /// Runs lines in order and gives every printed value, stopping at the first
    /// failure.
    pub fn run(&mut self, lines: &Vec<String>) -> (r: Result<Vec<i32>, EvalError>)
        requires
            old(self).wf(),
        ensures
            final(self).wf(),
            match r {
                Ok(out) => run_spec(old(self)@, crate::lexer::string_views(lines@)) == Ok::<(Env, Seq<i32>), ErrorView>((final(self)@, out@)),
                Err(e) => run_spec(old(self)@, crate::lexer::string_views(lines@)) == Err::<(Env, Seq<i32>), ErrorView>(e@),
            },
    {
        let ghost texts = crate::lexer::string_views(lines@);
        let ghost start = self@;
        let mut out: Vec<i32> = Vec::new();
        let mut i: usize = 0;
        proof {
            assert(texts.skip(0) =~= texts);
            if let Ok((e, s)) = run_spec(start, texts) {
                assert(Seq::<i32>::empty() + s =~= s);
            }
        }
        while i < lines.len()
            invariant
                texts == crate::lexer::string_views(lines@),
                start == old(self)@,
                i <= lines@.len(),
                self.wf(),
                run_spec(start, texts) == after_output(out@, run_spec(self@, texts.skip(i as int))),
            decreases lines.len() - i,
        {
            let ghost before = self@;
            proof {
                assert(texts.skip(i as int).drop_first() =~= texts.skip(i as int + 1));
                assert(texts.skip(i as int)[0] == lines@[i as int]@);
            }
            match self.run_source_line(lines[i].as_str()) {
                Ok(Some(v)) => {
                    proof {
                        let rest = run_spec(self@, texts.skip(i as int + 1));
                        if let Ok((e, s)) = rest {
                            assert(out@ + (seq![v] + s) =~= out@.push(v) + s);
                        }
                    }
                    out.push(v);
                },
                Ok(None) => {
                    proof {
                        let rest = run_spec(self@, texts.skip(i as int + 1));
                        if let Ok((e, s)) = rest {
                            assert(Seq::<i32>::empty() + s =~= s);
                        }
                    }
                },
                Err(e) => {
                    assert(run_spec(before, texts.skip(i as int)) == Err::<(Env, Seq<i32>), ErrorView>(e@));
                    assert(run_spec(start, texts) == Err::<(Env, Seq<i32>), ErrorView>(e@));
                    return Err(e);
                },
            }
            i += 1;
        }
        proof {
            assert(texts.skip(i as int).len() == 0);
            assert(out@ + Seq::<i32>::empty() =~= out@);
        }
        Ok(out)
    }
}

} // verus!
