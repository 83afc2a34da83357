use vstd::prelude::*;
use crate::error::{EvalError, ErrorView};

verus! {

/// A named single value.
#[derive(Debug, Clone)]
pub struct Value<V> {
    pub name: String,
    pub value: V,
}

/// A named sequence of values.
#[derive(Debug, Clone)]
pub struct Array<V> {
    pub name: String,
    pub values: Vec<V>,
}

/// What a name is bound to in an [`Environment`].
#[derive(Debug, Clone)]
pub enum Variable<V> {
    Value(Value<V>),
    Array(Array<V>),
}

/// The mathematical form of what a [`Variable`] holds.
pub enum Binding<V> {
    Scalar(V),
    Elements(Seq<V>),
}

impl<V> Variable<V> {
    pub open spec fn spec_name(&self) -> Seq<char> {
        match self {
            Variable::Value(v) => v.name@,
            Variable::Array(a) => a.name@,
        }
    }

    pub open spec fn binding(&self) -> Binding<V> {
        match self {
            Variable::Value(v) => Binding::Scalar(v.value),
            Variable::Array(a) => Binding::Elements(a.values@),
        }
    }

    pub fn name(&self) -> (r: &String)
        ensures
            r@ == self.spec_name(),
    {
        match self {
            Variable::Value(v) => &v.name,
            Variable::Array(a) => &a.name,
        }
    }
}

/// The map from names to bindings that a list of variables describes; a later
/// entry hides an earlier one of the same name.
pub open spec fn bindings<V>(vs: Seq<Variable<V>>) -> Map<Seq<char>, Binding<V>>
    decreases vs.len(),
{
    if vs.len() == 0 {
        Map::empty()
    } else {
        bindings(vs.drop_last()).insert(vs.last().spec_name(), vs.last().binding())
    }
}

pub open spec fn names_unique<V>(vs: Seq<Variable<V>>) -> bool {
    forall|i: int, j: int|
        0 <= i < vs.len() && 0 <= j < vs.len() && i != j ==> #[trigger] vs[i].spec_name()
            != #[trigger] vs[j].spec_name()
}

/// Reading a name as a single value.
pub open spec fn lookup_spec<V>(env: Map<Seq<char>, Binding<V>>, name: Seq<char>) -> Result<V, ErrorView> {
    if !env.contains_key(name) {
        Err(ErrorView::UndefinedVariable(name))
    } else {
        match env[name] {
            Binding::Scalar(v) => Ok(v),
            Binding::Elements(_) => Err(ErrorView::KindMismatch(name)),
        }
    }
}

/// Reading one element of an array.
pub open spec fn element_spec<V>(env: Map<Seq<char>, Binding<V>>, name: Seq<char>, index: int) -> Result<V, ErrorView> {
    if !env.contains_key(name) {
        Err(ErrorView::UndefinedVariable(name))
    } else {
        match env[name] {
            Binding::Scalar(_) => Err(ErrorView::KindMismatch(name)),
            Binding::Elements(vs) => if 0 <= index < vs.len() {
                Ok(vs[index])
            } else {
                Err(ErrorView::IndexOutOfRange)
            },
        }
    }
}

proof fn lemma_bindings_dom<V>(vs: Seq<Variable<V>>, k: Seq<char>)
    ensures
        bindings(vs).contains_key(k) <==> exists|i: int| 0 <= i < vs.len() && #[trigger] vs[i].spec_name() == k,
    decreases vs.len(),
{
    if vs.len() > 0 {
        lemma_bindings_dom(vs.drop_last(), k);
        if bindings(vs.drop_last()).contains_key(k) {
            let i = choose|i: int| 0 <= i < vs.drop_last().len() && #[trigger] vs.drop_last()[i].spec_name() == k;
            assert(vs[i].spec_name() == k);
        }
        if exists|i: int| 0 <= i < vs.len() && #[trigger] vs[i].spec_name() == k {
            let i = choose|i: int| 0 <= i < vs.len() && #[trigger] vs[i].spec_name() == k;
            if i < vs.len() - 1 {
                assert(vs.drop_last()[i].spec_name() == k);
            }
        }
    }
}

proof fn lemma_bindings_at<V>(vs: Seq<Variable<V>>, i: int)
    requires
        names_unique(vs),
        0 <= i < vs.len(),
    ensures
        bindings(vs).contains_key(vs[i].spec_name()),
        bindings(vs)[vs[i].spec_name()] == vs[i].binding(),
    decreases vs.len(),
{
    if i < vs.len() - 1 {
        assert(vs.drop_last()[i] == vs[i]);
        lemma_bindings_at(vs.drop_last(), i);
        assert(vs[i].spec_name() != vs[vs.len() - 1].spec_name());
    }
}

proof fn lemma_bindings_update<V>(vs: Seq<Variable<V>>, i: int, x: Variable<V>)
    requires
        names_unique(vs),
        0 <= i < vs.len(),
        vs[i].spec_name() == x.spec_name(),
    ensures
        bindings(vs.update(i, x)) =~= bindings(vs).insert(x.spec_name(), x.binding()),
    decreases vs.len(),
{
    let ws = vs.update(i, x);
    if i == vs.len() - 1 {
        assert(ws.drop_last() =~= vs.drop_last());
        lemma_bindings_dom(vs.drop_last(), x.spec_name());
        lemma_bindings_dom(vs, x.spec_name());
    } else {
        assert(ws.drop_last() =~= vs.drop_last().update(i, x));
        lemma_bindings_update(vs.drop_last(), i, x);
        assert(vs[vs.len() - 1].spec_name() != x.spec_name());
    }
}

/// The variables of one run: each name bound once, to a value or an array.
pub struct Environment<V> {
    variables: Vec<Variable<V>>,
}

impl<V> View for Environment<V> {
    type V = Map<Seq<char>, Binding<V>>;

    closed spec fn view(&self) -> Map<Seq<char>, Binding<V>> {
        bindings(self.variables@)
    }
}

impl<V> Environment<V> {
    pub closed spec fn wf(&self) -> bool {
        names_unique(self.variables@)
    }

    /// An environment that binds no name.
    pub fn new() -> (r: Self)
        ensures
            r.wf(),
            r@ == Map::<Seq<char>, Binding<V>>::empty(),
    {
        Environment { variables: Vec::new() }
    }

    fn find(&self, name: &String) -> (r: Option<usize>)
        requires
            self.wf(),
        ensures
            match r {
                Some(i) => i < self.variables@.len() && self.variables@[i as int].spec_name() == name@,
                None => !self@.contains_key(name@),
            },
    {
        let mut i: usize = 0;
        while i < self.variables.len()
            invariant
                i <= self.variables@.len(),
                forall|j: int| 0 <= j < i ==> #[trigger] self.variables@[j].spec_name() != name@,
            decreases self.variables.len() - i,
        {
            if self.variables[i].name().eq(name) {
                return Some(i);
            }
            i += 1;
        }
        proof {
            lemma_bindings_dom(self.variables@, name@);
        }
        None
    }

    fn bind(&mut self, x: Variable<V>)
        requires
            old(self).wf(),
        ensures
            final(self).wf(),
            final(self)@ == old(self)@.insert(x.spec_name(), x.binding()),
    {
        let name = x.name().clone();
        match self.find(&name) {
            Some(i) => {
                proof {
                    lemma_bindings_update(self.variables@, i as int, x);
                }
                self.variables.set(i, x);
                assert(names_unique(self.variables@)) by {
                    assert forall|a: int, b: int|
                        0 <= a < self.variables@.len() && 0 <= b < self.variables@.len() && a != b
                        implies #[trigger] self.variables@[a].spec_name()
                        != #[trigger] self.variables@[b].spec_name() by {
                        assert(old(self).variables@[a].spec_name() != old(self).variables@[b].spec_name());
                    }
                }
            },
            None => {
                proof {
                    lemma_bindings_dom(self.variables@, name@);
                }
                self.variables.push(x);
                assert(self.variables@.drop_last() =~= old(self).variables@);
                assert(names_unique(self.variables@)) by {
                    assert forall|a: int, b: int|
                        0 <= a < self.variables@.len() && 0 <= b < self.variables@.len() && a != b
                        implies #[trigger] self.variables@[a].spec_name()
                        != #[trigger] self.variables@[b].spec_name() by {
                        if a == self.variables@.len() - 1 {
                            assert(old(self).variables@[b].spec_name() != name@);
                        } else if b == self.variables@.len() - 1 {
                            assert(old(self).variables@[a].spec_name() != name@);
                        } else {
                            assert(old(self).variables@[a].spec_name() != old(self).variables@[b].spec_name());
                        }
                    }
                }
            },
        }
    }

    /// Binds `name` to a single value, creating or replacing its binding.
    pub fn assign(&mut self, name: String, value: V)
        requires
            old(self).wf(),
        ensures
            final(self).wf(),
            final(self)@ == old(self)@.insert(name@, Binding::Scalar(value)),
    {
        self.bind(Variable::Value(Value { name, value }));
    }

    /// Binds `name` to an array, creating or replacing its binding.
    pub fn assign_array(&mut self, name: String, values: Vec<V>)
        requires
            old(self).wf(),
        ensures
            final(self).wf(),
            final(self)@ == old(self)@.insert(name@, Binding::Elements(values@)),
    {
        self.bind(Variable::Array(Array { name, values }));
    }

    /// Reads `name` as a single value.
    pub fn lookup(&self, name: &String) -> (r: Result<&V, EvalError>)
        requires
            self.wf(),
        ensures
            match r {
                Ok(v) => lookup_spec(self@, name@) == Ok::<V, ErrorView>(*v),
                Err(e) => lookup_spec(self@, name@) == Err::<V, ErrorView>(e@),
            },
    {
        match self.find(name) {
            None => Err(EvalError::UndefinedVariable(name.clone())),
            Some(i) => {
                proof {
                    lemma_bindings_at(self.variables@, i as int);
                }
                match &self.variables[i] {
                    Variable::Value(v) => Ok(&v.value),
                    Variable::Array(_) => Err(EvalError::KindMismatch(name.clone())),
                }
            },
        }
    }

    /// Reads element `index` of the array bound to `name`.
    pub fn lookup_element(&self, name: &String, index: usize) -> (r: Result<&V, EvalError>)
        requires
            self.wf(),
        ensures
            match r {
                Ok(v) => element_spec(self@, name@, index as int) == Ok::<V, ErrorView>(*v),
                Err(e) => element_spec(self@, name@, index as int) == Err::<V, ErrorView>(e@),
            },
    {
        match self.find(name) {
            None => Err(EvalError::UndefinedVariable(name.clone())),
            Some(i) => {
                proof {
                    lemma_bindings_at(self.variables@, i as int);
                }
                match &self.variables[i] {
                    Variable::Value(_) => Err(EvalError::KindMismatch(name.clone())),
                    Variable::Array(a) => if index < a.values.len() {
                        Ok(&a.values[index])
                    } else {
                        Err(EvalError::IndexOutOfRange)
                    },
                }
            },
        }
    }
}

} // verus!
