use vstd::prelude::*;
use vstd::string::StringExecFns;
use std::rc::Rc;
use crate::function::{function_ok, Callable, Function, Overload};
use crate::value::{Data, Val};

verus! {

/// A scope of bindings: variables and functions by name, and the
/// enclosing scope that a name not bound here is looked up in.
pub struct Context<F> {
    pub par: Option<Rc<Context<F>>>,
    pub variables: Vec<(String, Val)>,
    pub functions: Vec<(String, Function<F>)>,
}

/// The first position from `j` on that holds a binding of `name`.
pub open spec fn name_pos<T>(e: Seq<(String, T)>, name: Seq<char>, j: int) -> Option<int>
    decreases e.len() - j,
{
    if j < 0 || j >= e.len() {
        None
    } else if e[j].0@ == name {
        Some(j)
    } else {
        name_pos(e, name, j + 1)
    }
}

/// `new` is `old` with `name` bound to `v`: the first binding of the name
/// replaced, or one added at the end.
pub open spec fn bound<T>(new: Seq<(String, T)>, old: Seq<(String, T)>, name: Seq<char>, v: T) -> bool {
    match name_pos(old, name, 0) {
        Some(j) => new == old.update(j, (new[j].0, v)) && new[j].0@ == old[j].0@,
        None => new.len() == old.len() + 1 && new.drop_last() == old && new.last().0@ == name
            && new.last().1 == v,
    }
}

/// The value that `name` resolves to in `c`: its binding in `c`, else its
/// resolution in the parent scope, else none.
pub open spec fn var_spec<F>(c: Context<F>, name: Seq<char>) -> Option<Data>
    decreases c,
{
    match name_pos(c.variables@, name, 0) {
        Some(i) => Some(c.variables@[i].1@),
        None => match c.par {
            Some(p) => var_spec(*p, name),
            None => None,
        },
    }
}

/// The function that `name` resolves to in `c`, searched as `var_spec`
/// searches variables.
pub open spec fn fn_spec<F>(c: Context<F>, name: Seq<char>) -> Option<Function<F>>
    decreases c,
{
    match name_pos(c.functions@, name, 0) {
        Some(i) => Some(c.functions@[i].1),
        None => match c.par {
            Some(p) => fn_spec(*p, name),
            None => None,
        },
    }
}

/// Every function bound in `c` or an enclosing scope is `function_ok`.
pub open spec fn ctx_ok<F: Fn(Vec<Val>) -> Val>(c: Context<F>) -> bool
    decreases c,
{
    &&& forall|i: int| 0 <= i < c.functions@.len() ==> function_ok(#[trigger] c.functions@[i].1)
    &&& match c.par {
        Some(p) => ctx_ok(*p),
        None => true,
    }
}

/// The enclosing scope of a scope that has one.
pub open spec fn parent_of<F>(c: Context<F>) -> Context<F> {
    *c.par->0
}

pub proof fn lemma_fn_spec_ok<F: Fn(Vec<Val>) -> Val>(c: Context<F>, name: Seq<char>)
    requires
        ctx_ok(c),
    ensures
        fn_spec(c, name) matches Some(f) ==> function_ok(f),
    decreases c,
{
    lemma_name_pos(c.functions@, name, 0);
    if name_pos(c.functions@, name, 0) is None {
        if c.par is Some {
            lemma_fn_spec_ok(parent_of(c), name);
        }
    }
}

pub proof fn lemma_name_pos<T>(e: Seq<(String, T)>, name: Seq<char>, j: int)
    requires
        0 <= j,
    ensures
        name_pos(e, name, j) matches Some(i) ==> j <= i < e.len() && e[i].0@ == name,
    decreases e.len() - j,
{
    if j < e.len() && e[j].0@ != name {
        lemma_name_pos(e, name, j + 1);
    }
}

/// The first position that holds a binding of `name`.
fn find_name<T>(e: &Vec<(String, T)>, name: &String) -> (r: Option<usize>)
    ensures
        match r {
            Some(j) => name_pos(e@, name@, 0) == Some(j as int),
            None => name_pos(e@, name@, 0) is None,
        },
{
    let mut j: usize = 0;
    while j < e.len()
        invariant
            j <= e@.len(),
            name_pos(e@, name@, 0) == name_pos(e@, name@, j as int),
        decreases e@.len() - j,
    {
        if e[j].0 == *name {
            return Some(j);
        }
        j = j + 1;
    }
    None
}

/// Relies on Rc::clone: the new handle points to the same value.
#[verifier::external_body]
fn share<T>(p: &Rc<T>) -> (r: Rc<T>)
    ensures
        r == *p,
{
    Rc::clone(p)
}

impl<F: Fn(Vec<Val>) -> Val> Context<F> {
    /// An empty scope with no parent.
    pub fn new() -> (r: Self)
        ensures
            r.par is None,
            r.variables@.len() == 0,
            r.functions@.len() == 0,
    {
        Context { par: None, variables: Vec::new(), functions: Vec::new() }
    }

    /// An empty scope inside `parent`.
    pub fn with_parent(parent: Rc<Context<F>>) -> (r: Self)
        ensures
            r.par == Some(parent),
            r.variables@.len() == 0,
            r.functions@.len() == 0,
    {
        Context { par: Some(parent), variables: Vec::new(), functions: Vec::new() }
    }

    /// Binds `name` to `val` in this scope, replacing an earlier binding.
    pub fn add_variable(&mut self, name: &str, val: Val)
        ensures
            final(self).par == old(self).par,
            final(self).functions == old(self).functions,
            bound(final(self).variables@, old(self).variables@, name@, val),
    {
        let key = String::from_str(name);
        match find_name(&self.variables, &key) {
            Some(j) => {
                proof {
                    lemma_name_pos(self.variables@, name@, 0);
                }
                let old_name = self.variables[j].0.clone();
                self.variables.set(j, (old_name, val));
                assert(self.variables@ =~= old(self).variables@.update(j as int, (self.variables@[j as int].0, val)));
            },
            None => {
                self.variables.push((key, val));
                assert(self.variables@.drop_last() =~= old(self).variables@);
            },
        }
    }

    /// What `name` resolves to, here or in an enclosing scope.
    pub fn resolve_variable(&self, name: &str) -> (r: Option<&Val>)
        ensures
            match var_spec(*self, name@) {
                Some(d) => r is Some && r->0@ == d,
                None => r is None,
            },
        decreases *self,
    {
        let key = String::from_str(name);
        match find_name(&self.variables, &key) {
            Some(j) => {
                proof {
                    lemma_name_pos(self.variables@, name@, 0);
                }
                Some(&self.variables[j].1)
            },
            None => match &self.par {
                Some(p) => p.resolve_variable(name),
                None => None,
            },
        }
    }

    /// Binds `name` to `func` in this scope, replacing an earlier binding.
    pub fn add_function(&mut self, name: &str, func: Function<F>)
        ensures
            final(self).par == old(self).par,
            final(self).variables == old(self).variables,
            bound(final(self).functions@, old(self).functions@, name@, func),
    {
        let key = String::from_str(name);
        match find_name(&self.functions, &key) {
            Some(j) => {
                proof {
                    lemma_name_pos(self.functions@, name@, 0);
                }
                let old_name = self.functions[j].0.clone();
                self.functions.set(j, (old_name, func));
                assert(self.functions@ =~= old(self).functions@.update(j as int, (self.functions@[j as int].0, func)));
            },
            None => {
                self.functions.push((key, func));
                assert(self.functions@.drop_last() =~= old(self).functions@);
            },
        }
    }

    /// The function `name` resolves to, here or in an enclosing scope.
    pub fn resolve_function(&self, name: &str) -> (r: Option<&Function<F>>)
        ensures
            match fn_spec(*self, name@) {
                Some(f) => r == Some(&f),
                None => r is None,
            },
        decreases *self,
    {
        let key = String::from_str(name);
        match find_name(&self.functions, &key) {
            Some(j) => {
                proof {
                    lemma_name_pos(self.functions@, name@, 0);
                }
                Some(&self.functions[j].1)
            },
            None => match &self.par {
                Some(p) => p.resolve_function(name),
                None => None,
            },
        }
    }

    /// A handle on the enclosing scope, if any.
    pub fn parent(&self) -> (r: Option<Rc<Context<F>>>)
        ensures
            r == self.par,
    {
        match &self.par {
            Some(p) => Some(share(p)),
            None => None,
        }
    }
}

impl<F: Fn(Vec<Val>) -> Val> Default for Context<F> {
    /// An empty scope with no parent, holding the builtin `dyn`, which
    /// returns its argument.
    fn default() -> (r: Self)
        ensures
            r.par is None,
            r.variables@.len() == 0,
            r.functions@.len() == 1,
            r.functions@[0].0@ == "dyn"@,
            r.functions@[0].1.name@ == "dyn"@,
            r.functions@[0].1.overloads@.len() == 1,
            r.functions@[0].1.overloads@[0].func is Dyn,
    {
        let mut c = Context::new();
        let mut overloads: Vec<Overload<F>> = Vec::new();
        overloads.push(Overload { key: String::from_str("dyn"), func: Callable::Dyn });
        c.functions.push((String::from_str("dyn"), Function { name: String::from_str("dyn"), overloads }));
        c
    }
}

} // verus!
