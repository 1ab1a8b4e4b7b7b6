use vstd::prelude::*;
use vstd::string::StringExecFns;
use crate::ast::{ArithmeticOp, Atom, Expression, Member, RelationOp, UnaryOp};
use crate::context::{ctx_ok, lemma_fn_spec_ok, Context};
use crate::function::no_overload;
use crate::kinds::{Error, FnValue, Mapping};
use crate::kinds::String as CelString;
use crate::semantics::{
    arith_name, arith_spec, atom_data, call_spec, contains, err, eval_pairs, eval_seq, eval_spec, index_spec,
    int_arith, member_spec, relation_name, relation_spec, uint_arith, unary_spec,
};
use crate::value::{
    data_equals, entries_data, find_key, insert_all, lemma_find_get,
    lemma_list_data, lemma_mapping_data, list_data, val_equals, Data, Val, Value, SIGN_BIT,
};
use core::cmp::Ordering;

verus! {

/// An error value with the given message.
fn error_val(msg: &str) -> (r: Val)
    ensures
        r@ == err(msg@),
{
    Error::new(String::from_str(msg))
}

/// An error value whose message is `prefix` followed by `name`.
fn error_with(prefix: &str, name: &str) -> (r: Val)
    ensures
        r@ == err(prefix@ + name@),
{
    let mut m = String::from_str(prefix);
    m.append(name);
    Error::new(m)
}

fn no_overload_val(op: &str) -> (r: Val)
    ensures
        r@ == no_overload(op@),
{
    error_with("no matching overload for ", op)
}

fn arith_op_name(op: ArithmeticOp) -> (r: &'static str)
    ensures
        r@ == arith_name(op),
{
    match op {
        ArithmeticOp::Add => "_+_",
        ArithmeticOp::Subtract => "_-_",
        ArithmeticOp::Multiply => "_*_",
        ArithmeticOp::Divide => "_/_",
        ArithmeticOp::Modulus => "_%_",
    }
}

fn relation_op_name(op: RelationOp) -> (r: &'static str)
    ensures
        r@ == relation_name(op),
{
    match op {
        RelationOp::LessThan => "_<_",
        RelationOp::LessThanEq => "_<=_",
        RelationOp::GreaterThan => "_>_",
        RelationOp::GreaterThanEq => "_>=_",
        RelationOp::Equals => "_==_",
        RelationOp::NotEquals => "_!=_",
        RelationOp::In => "@in",
    }
}

/// Signed integer arithmetic, as `int_arith` states it.
pub fn int_arith_exec(op: ArithmeticOp, x: i64, y: i64) -> (r: Val)
    ensures
        r@ == int_arith(op, x, y),
{
    if y == 0 && op == ArithmeticOp::Divide {
        return error_val("divide by zero");
    }
    if y == 0 && op == ArithmeticOp::Modulus {
        return error_val("modulus by zero");
    }
    let r = match op {
        ArithmeticOp::Add => x.checked_add(y),
        ArithmeticOp::Subtract => x.checked_sub(y),
        ArithmeticOp::Multiply => x.checked_mul(y),
        ArithmeticOp::Divide => x.checked_div(y),
        ArithmeticOp::Modulus => x.checked_rem(y),
    };
    match r {
        Some(v) => Val::new_int(v),
        None => error_val("integer overflow"),
    }
}

/// Unsigned integer arithmetic, as `uint_arith` states it.
pub fn uint_arith_exec(op: ArithmeticOp, x: u64, y: u64) -> (r: Val)
    ensures
        r@ == uint_arith(op, x, y),
{
    if y == 0 && op == ArithmeticOp::Divide {
        return error_val("divide by zero");
    }
    if y == 0 && op == ArithmeticOp::Modulus {
        return error_val("modulus by zero");
    }
    let r = match op {
        ArithmeticOp::Add => x.checked_add(y),
        ArithmeticOp::Subtract => x.checked_sub(y),
        ArithmeticOp::Multiply => x.checked_mul(y),
        ArithmeticOp::Divide => Some(x / y),
        ArithmeticOp::Modulus => Some(x % y),
    };
    match r {
        Some(v) => Val::new_uint(v),
        None => error_val("integer overflow"),
    }
}

/// An arithmetic operator on two values, as `arith_spec` states it.
pub fn arith(op: ArithmeticOp, l: Val, r: Val) -> (res: Val)
    ensures
        res@ == arith_spec(op, l@, r@),
{
    if matches!(l, Val::Error(_)) {
        return l;
    }
    if matches!(r, Val::Error(_)) {
        return r;
    }
    match (&l, &r) {
        (Val::Int(x), Val::Int(y)) => int_arith_exec(op, x.0, y.0),
        (Val::UInt(x), Val::UInt(y)) => uint_arith_exec(op, x.0, y.0),
        _ => no_overload_val(arith_op_name(op)),
    }
}

/// Whether some element of `s` equals `l`.
fn list_contains(s: &Vec<Val>, l: &Val) -> (r: bool)
    ensures
        r == contains(list_data(s@), l@),
{
    proof {
        lemma_list_data(s@);
    }
    let mut i: usize = 0;
    while i < s.len()
        invariant
            i <= s@.len(),
            list_data(s@).len() == s@.len(),
            forall|j: int| 0 <= j < i ==> !data_equals(l@, #[trigger] list_data(s@)[j]),
        decreases s@.len() - i,
    {
        proof {
            lemma_list_data(s@);
        }
        if val_equals(l, &s[i]) {
            assert(data_equals(l@, list_data(s@)[i as int]));
            return true;
        }
        i = i + 1;
    }
    false
}

pub proof fn lemma_error_kind(v: Val)
    ensures
        (v@ is Error) == (v is Error),
{
}

/// A relational operator on two values, as `relation_spec` states it.
pub fn relation(op: RelationOp, l: Val, r: Val) -> (res: Val)
    ensures
        res@ == relation_spec(op, l@, r@),
{
    proof {
        lemma_error_kind(l);
        lemma_error_kind(r);
    }
    if matches!(l, Val::Error(_)) {
        return l;
    }
    if matches!(r, Val::Error(_)) {
        return r;
    }
    match op {
        RelationOp::Equals => {
            let b = val_equals(&l, &r);
            Val::new_bool(b)
        },
        RelationOp::NotEquals => Val::new_bool(!val_equals(&l, &r)),
        RelationOp::In => match &r {
            Val::List(s) => {
                let res = Val::new_bool(list_contains(s, &l));
                assert(r@ == Data::List(list_data(s@)));
                res
            },
            Val::Mapping(m) => {
                proof {
                    lemma_mapping_data(*m);
                }
                let res = Val::new_bool(m.contains_key(&l));
                assert(res@ == relation_spec(op, l@, r@));
                res
            },
            _ => no_overload_val(relation_op_name(op)),
        },
        _ => match l.compare(&r) {
            Some(o) => {
                let b = match op {
                    RelationOp::LessThan => matches!(o, Ordering::Less),
                    RelationOp::LessThanEq => !matches!(o, Ordering::Greater),
                    RelationOp::GreaterThan => matches!(o, Ordering::Greater),
                    _ => !matches!(o, Ordering::Less),
                };
                let res = Val::new_bool(b);
                assert(res@ == relation_spec(op, l@, r@));
                res
            },
            None => no_overload_val(relation_op_name(op)),
        },
    }
}

/// A unary operator on a value, as `unary_spec` states it.
pub fn unary(op: UnaryOp, v: Val) -> (r: Val)
    ensures
        r@ == unary_spec(op, v@),
{
    match (op, &v) {
        (_, Val::Error(_)) => v,
        (UnaryOp::Not, Val::Bool(b)) => Val::new_bool(!b.0),
        (UnaryOp::Minus, Val::Int(i)) => {
            if i.0 == i64::MIN {
                error_val("integer overflow")
            } else {
                Val::new_int(-i.0)
            }
        },
        (UnaryOp::Minus, Val::Double(d)) => {
            if d.0 >= SIGN_BIT {
                Val::new_double(d.0 - SIGN_BIT)
            } else {
                Val::new_double(d.0 + SIGN_BIT)
            }
        },
        (UnaryOp::Not, _) => no_overload_val("!_"),
        (UnaryOp::Minus, _) => no_overload_val("-_"),
    }
}

/// `b[i]`, as `index_spec` states it.
pub fn index(b: Val, i: Val) -> (r: Val)
    ensures
        r@ == index_spec(b@, i@),
{
    if matches!(b, Val::Error(_)) {
        return b;
    }
    if matches!(i, Val::Error(_)) {
        return i;
    }
    match &b {
        Val::Mapping(m) => {
            proof {
                lemma_mapping_data(*m);
            }
            match m.get(&i) {
                Some(v) => v.duplicate(),
                None => error_val("no such key"),
            }
        },
        Val::List(s) => {
            proof {
                lemma_list_data(s@);
            }
            match &i {
                Val::Int(k) => {
                    if 0 <= k.0 && (k.0 as u64) < (s.len() as u64) {
                        s[k.0 as usize].duplicate()
                    } else {
                        error_val("index out of range")
                    }
                },
                Val::UInt(k) => {
                    if k.0 < s.len() as u64 {
                        s[k.0 as usize].duplicate()
                    } else {
                        error_val("index out of range")
                    }
                },
                _ => no_overload_val("_[_]"),
            }
        },
        _ => no_overload_val("_[_]"),
    }
}

/// A literal's value.
pub fn atom_val(atom: &Atom) -> (r: Val)
    ensures
        r@ == atom_data(*atom),
{
    match atom {
        Atom::Int(i) => Val::new_int(*i),
        Atom::UInt(u) => Val::new_uint(*u),
        Atom::Double(d) => Val::new_double(*d),
        Atom::String(s) => Val::String(CelString(s.clone())),
        Atom::Bytes(b) => {
            let mut out: Vec<u8> = Vec::new();
            let mut i: usize = 0;
            while i < b.len()
                invariant
                    i <= b@.len(),
                    out@ == b@.subrange(0, i as int),
                decreases b@.len() - i,
            {
                out.push(b[i]);
                i = i + 1;
            }
            assert(out@ =~= b@);
            Val::new_bytes(out)
        },
        Atom::Bool(b) => Val::new_bool(*b),
        Atom::Null => Val::new_null(),
    }
}


/// The arguments that a call passes: the receiver, if any, then the
/// values of the argument expressions.
pub open spec fn call_args(receiver: Option<Data>, args: Seq<Data>) -> Seq<Data> {
    match receiver {
        Some(v) => seq![v] + args,
        None => args,
    }
}

/// The tree-walking evaluator.
pub struct Eval {}

impl Eval {
    pub fn new() -> (r: Eval) {
        Eval {}
    }

    /// Evaluates the arguments, then calls the function `name` with the
    /// receiver, if any, before them.
    pub fn eval_function<F: Fn(Vec<Val>) -> Val>(
        &self,
        name: &String,
        receiver: Option<Val>,
        argexprs: &Vec<Expression>,
        ctx: &Context<F>,
    ) -> (r: Val)
        requires
            ctx_ok(*ctx),
        ensures
            r@ == call_spec(
                *ctx,
                name@,
                call_args(
                    match receiver {
                        Some(v) => Some(v@),
                        None => None,
                    },
                    eval_seq(argexprs@, *ctx),
                ),
            ),
        decreases *argexprs,
    {
        let ghost rd = match &receiver {
            Some(v) => Some(v@),
            None => None,
        };
        let mut args: Vec<Val> = Vec::new();
        match receiver {
            Some(v) => args.push(v),
            None => {},
        }
        let ghost first = args@.len();
        let mut i: usize = 0;
        while i < argexprs.len()
            invariant
                ctx_ok(*ctx),
                i <= argexprs@.len(),
                args@.len() == first + i,
                first == (if rd is Some { 1int } else { 0int }),
                rd matches Some(d) ==> args@[0]@ == d,
                forall|j: int|
                    first <= j < first + i ==> #[trigger] args@[j]@ == eval_spec(argexprs@[j - first], *ctx),
            decreases argexprs@.len() - i,
        {
            proof {
                assert(decreases_to!(*argexprs => argexprs@));
                assert(decreases_to!(argexprs@ => argexprs@[i as int]));
            }
            let v = self.eval(&argexprs[i], ctx);
            args.push(v);
            i = i + 1;
        }
        proof {
            lemma_list_data(args@);
            assert(list_data(args@) =~= call_args(rd, eval_seq(argexprs@, *ctx)));
        }
        match ctx.resolve_function(name.as_str()) {
            Some(f) => {
                proof {
                    lemma_fn_spec_ok(*ctx, name@);
                }
                f.apply(args)
            },
            None => error_with("unknown function ", name.as_str()),
        }
    }

    /// Evaluates a member expression whose base has the value `v`.
    pub fn eval_member<F: Fn(Vec<Val>) -> Val>(&self, v: Val, member: &Member, ctx: &Context<F>) -> (r: Val)
        requires
            ctx_ok(*ctx),
        ensures
            r@ == member_spec(*member, v@, *ctx),
        decreases *member,
    {
        match member {
            Member::Attribute(name) => {
                if matches!(v, Val::Error(_)) {
                    return v;
                }
                match &v {
                    Val::Mapping(m) => {
                        proof {
                            lemma_mapping_data(*m);
                        }
                        let key = Val::new_string(name.as_str());
                        match m.get(&key) {
                            Some(found) => found.duplicate(),
                            None => error_with("no such key: ", name.as_str()),
                        }
                    },
                    _ => {
                        if ctx.resolve_function(name.as_str()).is_some() {
                            Val::Function(FnValue { name: name.clone(), receiver: Some(Box::new(v)) })
                        } else {
                            error_with("unknown attribute ", name.as_str())
                        }
                    },
                }
            },
            Member::FunctionCall(name, argexprs) => self.eval_function(name, Some(v), argexprs, ctx),
            Member::Index(i) => {
                let iv = self.eval(i, ctx);
                index(v, iv)
            },
            Member::Fields(_) => error_val("unsupported expression"),
        }
    }

    /// Evaluates a map literal's entries in order, a later key replacing
    /// the value of an equal earlier one.
    pub fn eval_map<F: Fn(Vec<Val>) -> Val>(&self, entries: &Vec<(Expression, Expression)>, ctx: &Context<F>) -> (r: Val)
        requires
            ctx_ok(*ctx),
        ensures
            r@ == Data::Mapping(insert_all(Seq::empty(), eval_pairs(entries@, *ctx))),
        decreases *entries,
    {
        let ghost pd = eval_pairs(entries@, *ctx);
        let mut m = Mapping::new();
        let mut i: usize = 0;
        while i < entries.len()
            invariant
                ctx_ok(*ctx),
                i <= entries@.len(),
                pd == eval_pairs(entries@, *ctx),
                entries_data(m.entries@) == insert_all(Seq::empty(), pd.subrange(0, i as int)),
            decreases entries@.len() - i,
        {
            proof {
                assert(decreases_to!(*entries => entries@));
                assert(decreases_to!(entries@ => entries@[i as int]));
                assert(decreases_to!(entries@[i as int] => entries@[i as int].0));
                assert(decreases_to!(entries@[i as int] => entries@[i as int].1));
            }
            let k = self.eval(&entries[i].0, ctx);
            let v = self.eval(&entries[i].1, ctx);
            proof {
                assert(pd.subrange(0, i + 1).drop_last() =~= pd.subrange(0, i as int));
            }
            m.insert(k, v);
            i = i + 1;
        }
        proof {
            assert(pd.subrange(0, i as int) =~= pd);
            lemma_mapping_data(m);
        }
        Val::Mapping(m)
    }

    /// Evaluates a list literal's elements in order.
    pub fn eval_list<F: Fn(Vec<Val>) -> Val>(&self, elems: &Vec<Expression>, ctx: &Context<F>) -> (r: Val)
        requires
            ctx_ok(*ctx),
        ensures
            r@ == Data::List(eval_seq(elems@, *ctx)),
        decreases *elems,
    {
        let mut list: Vec<Val> = Vec::new();
        let mut i: usize = 0;
        while i < elems.len()
            invariant
                ctx_ok(*ctx),
                i <= elems@.len(),
                list@.len() == i,
                forall|j: int| 0 <= j < i ==> #[trigger] list@[j]@ == eval_spec(elems@[j], *ctx),
            decreases elems@.len() - i,
        {
            proof {
                assert(decreases_to!(*elems => elems@));
                assert(decreases_to!(elems@ => elems@[i as int]));
            }
            let v = self.eval(&elems[i], ctx);
            list.push(v);
            i = i + 1;
        }
        proof {
            lemma_list_data(list@);
            assert(list_data(list@) =~= eval_seq(elems@, *ctx));
        }
        Val::new_list(list)
    }

    /// A literal's value.
    pub fn eval_atom<F: Fn(Vec<Val>) -> Val>(&self, atom: &Atom, ctx: &Context<F>) -> (r: Val)
        ensures
            r@ == atom_data(*atom),
    {
        atom_val(atom)
    }

    /// The value of `expr` in the scope `ctx`, as `eval_spec` states it.
    pub fn eval<F: Fn(Vec<Val>) -> Val>(&self, expr: &Expression, ctx: &Context<F>) -> (r: Val)
        requires
            ctx_ok(*ctx),
        ensures
            r@ == eval_spec(*expr, *ctx),
        decreases *expr,
    {
        match expr {
            Expression::Atom(a) => self.eval_atom(a, ctx),
            Expression::Ident(name) => match ctx.resolve_variable(name.as_str()) {
                Some(v) => v.duplicate(),
                None => error_with("unknown variable ", name.as_str()),
            },
            Expression::Arithmetic(l, op, r) => {
                let lv = self.eval(l, ctx);
                let rv = self.eval(r, ctx);
                arith(*op, lv, rv)
            },
            Expression::Relation(l, op, r) => {
                let lv = self.eval(l, ctx);
                let rv = self.eval(r, ctx);
                relation(*op, lv, rv)
            },
            Expression::And(l, r) => {
                let lb = self.eval(l, ctx).to_bool();
                match &lb {
                    Val::Bool(b) => if b.0 {
                        self.eval(r, ctx).to_bool()
                    } else {
                        lb
                    },
                    _ => lb,
                }
            },
            Expression::Or(l, r) => {
                let lb = self.eval(l, ctx).to_bool();
                match &lb {
                    Val::Bool(b) => if b.0 {
                        lb
                    } else {
                        self.eval(r, ctx).to_bool()
                    },
                    _ => lb,
                }
            },
            Expression::Unary(op, x) => {
                let v = self.eval(x, ctx);
                unary(*op, v)
            },
            Expression::Ternary(cond, a, b) => {
                let cb = self.eval(cond, ctx).to_bool();
                match &cb {
                    Val::Bool(t) => if t.0 {
                        self.eval(a, ctx)
                    } else {
                        self.eval(b, ctx)
                    },
                    _ => cb,
                }
            },
            Expression::List(elems) => self.eval_list(elems, ctx),
            Expression::Mapping(entries) => self.eval_map(entries, ctx),
            Expression::Member(b, m) => {
                let v = self.eval(b, ctx);
                self.eval_member(v, m, ctx)
            },
            Expression::GlobalFunctionCall(name, argexprs) => self.eval_function(name, None, argexprs, ctx),
        }
    }
}

} // verus!
