use vstd::prelude::*;
use vstd::string::StringExecFns;
use crate::value::{list_data, Data, Val};

verus! {

/// What an overload runs: a builtin of the library, or a function the
/// host supplies.
pub enum Callable<F> {
    /// Returns its first argument unchanged.
    Dyn,
    Host(F),
}

/// One implementation of a function, under a signature key.
pub struct Overload<F> {
    pub key: String,
    pub func: Callable<F>,
}

/// A named function with its overloads, in declaration order.
pub struct Function<F> {
    pub name: String,
    pub overloads: Vec<Overload<F>>,
}

/// A host function that can be called on any arguments and whose result
/// depends on the content of its arguments alone.
pub open spec fn host_ok<F: Fn(Vec<Val>) -> Val>(f: F) -> bool {
    &&& forall|v: Vec<Val>| call_requires(f, (v,))
    &&& forall|v1: Vec<Val>, v2: Vec<Val>, o1: Val, o2: Val|
        #[trigger] call_ensures(f, (v1,), o1) && #[trigger] call_ensures(f, (v2,), o2) && list_data(
            v1@,
        ) == list_data(v2@) ==> o1@ == o2@
}

/// What a host function returns on arguments of the given content.
pub open spec fn host_result<F: Fn(Vec<Val>) -> Val>(f: F, args: Seq<Data>) -> Data {
    (choose|p: (Vec<Val>, Val)| #[trigger] call_ensures(f, (p.0,), p.1) && list_data(p.0@) == args).1@
}

/// Every host overload of the function is `host_ok`.
pub open spec fn function_ok<F: Fn(Vec<Val>) -> Val>(f: Function<F>) -> bool {
    forall|i: int|
        0 <= i < f.overloads@.len() ==> match (#[trigger] f.overloads@[i]).func {
            Callable::Host(h) => host_ok(h),
            Callable::Dyn => true,
        }
}

/// The error for a call that no overload can serve.
pub open spec fn no_overload(name: Seq<char>) -> Data {
    Data::Error(None, "no matching overload for "@ + name)
}

/// The result of calling `f` on arguments of the given content: the first
/// overload decides.
pub open spec fn apply_spec<F: Fn(Vec<Val>) -> Val>(f: Function<F>, args: Seq<Data>) -> Data {
    if f.overloads@.len() == 0 {
        no_overload(f.name@)
    } else {
        match f.overloads@[0].func {
            Callable::Dyn => if args.len() == 0 {
                no_overload(f.name@)
            } else {
                args[0]
            },
            Callable::Host(h) => host_result(h, args),
        }
    }
}

impl<F: Fn(Vec<Val>) -> Val> Function<F> {
    /// A function with the given overloads.
    pub fn new(name: String, overloads: Vec<Overload<F>>) -> (r: Self)
        ensures
            r.name@ == name@,
            r.overloads@ == overloads@,
    {
        Function { name, overloads }
    }

    /// Calls the first overload on `args`.
    pub fn apply(&self, args: Vec<Val>) -> (r: Val)
        requires
            function_ok(*self),
        ensures
            r@ == apply_spec(*self, list_data(args@)),
    {
        let ghost ad = list_data(args@);
        if self.overloads.len() == 0 {
            return crate::kinds::Error::new(no_overload_message(&self.name));
        }
        match &self.overloads[0].func {
            Callable::Dyn => {
                if args.len() == 0 {
                    return crate::kinds::Error::new(no_overload_message(&self.name));
                }
                proof {
                    crate::value::lemma_list_data(args@);
                }
                let mut args = args;
                args.swap_remove(0)
            },
            Callable::Host(h) => {
                assert(host_ok(*h));
                let o = h(args);
                proof {
                    assert(call_ensures(*h, (args,), o) && list_data(args@) == ad);
                    let w = (args, o);
                    assert(call_ensures(*h, (w.0,), w.1) && list_data(w.0@) == ad);
                    let p = choose|p: (Vec<Val>, Val)| #[trigger] call_ensures(*h, (p.0,), p.1) && list_data(p.0@) == ad;
                    assert(p.1@ == o@);
                }
                o
            },
        }
    }
}

/// The message of `no_overload`.
fn no_overload_message(name: &String) -> (r: String)
    ensures
        r@ == "no matching overload for "@ + name@,
{
    let mut m = String::from_str("no matching overload for ");
    m.append(name.as_str());
    m
}

} // verus!
