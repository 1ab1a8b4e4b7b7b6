use vstd::prelude::*;
use crate::ast::{ArithmeticOp, Atom, Expression, Member, RelationOp, UnaryOp};
use crate::context::{fn_spec, var_spec, Context};
use crate::function::{apply_spec, no_overload};
use crate::value::{
    data_compare, data_equals, data_get, data_to_bool, insert_all, Data, Val, SIGN_BIT,
};
use core::cmp::Ordering;

verus! {

/// An error value with the given message.
pub open spec fn err(msg: Seq<char>) -> Data {
    Data::Error(None, msg)
}

pub open spec fn atom_data(a: Atom) -> Data {
    match a {
        Atom::Int(i) => Data::Int(i),
        Atom::UInt(u) => Data::UInt(u),
        Atom::Double(d) => Data::Double(d),
        Atom::String(s) => Data::String(s@),
        Atom::Bytes(b) => Data::Bytes(b@),
        Atom::Bool(b) => Data::Bool(b),
        Atom::Null => Data::Null,
    }
}

pub open spec fn arith_name(op: ArithmeticOp) -> Seq<char> {
    match op {
        ArithmeticOp::Add => "_+_"@,
        ArithmeticOp::Subtract => "_-_"@,
        ArithmeticOp::Multiply => "_*_"@,
        ArithmeticOp::Divide => "_/_"@,
        ArithmeticOp::Modulus => "_%_"@,
    }
}

pub open spec fn relation_name(op: RelationOp) -> Seq<char> {
    match op {
        RelationOp::LessThan => "_<_"@,
        RelationOp::LessThanEq => "_<=_"@,
        RelationOp::GreaterThan => "_>_"@,
        RelationOp::GreaterThanEq => "_>=_"@,
        RelationOp::Equals => "_==_"@,
        RelationOp::NotEquals => "_!=_"@,
        RelationOp::In => "@in"@,
    }
}

/// Signed integer arithmetic: overflow and division by zero are errors;
/// division truncates toward zero.
pub open spec fn int_arith(op: ArithmeticOp, x: i64, y: i64) -> Data {
    if y == 0 && op == ArithmeticOp::Divide {
        err("divide by zero"@)
    } else if y == 0 && op == ArithmeticOp::Modulus {
        err("modulus by zero"@)
    } else {
        let r = match op {
            ArithmeticOp::Add => x.checked_add(y),
            ArithmeticOp::Subtract => x.checked_sub(y),
            ArithmeticOp::Multiply => x.checked_mul(y),
            ArithmeticOp::Divide => x.checked_div(y),
            ArithmeticOp::Modulus => x.checked_rem(y),
        };
        match r {
            Some(v) => Data::Int(v),
            None => err("integer overflow"@),
        }
    }
}

/// Unsigned integer arithmetic: overflow, underflow and division by zero
/// are errors.
pub open spec fn uint_arith(op: ArithmeticOp, x: u64, y: u64) -> Data {
    if y == 0 && op == ArithmeticOp::Divide {
        err("divide by zero"@)
    } else if y == 0 && op == ArithmeticOp::Modulus {
        err("modulus by zero"@)
    } else {
        let r: int = match op {
            ArithmeticOp::Add => x + y,
            ArithmeticOp::Subtract => x - y,
            ArithmeticOp::Multiply => x * y,
            ArithmeticOp::Divide => (x / y) as int,
            ArithmeticOp::Modulus => (x % y) as int,
        };
        if 0 <= r <= u64::MAX {
            Data::UInt(r as u64)
        } else {
            err("integer overflow"@)
        }
    }
}

/// An arithmetic operator on two values: an error operand is the result,
/// the left one first; two ints or two uints compute; any other pair
/// has no overload.
pub open spec fn arith_spec(op: ArithmeticOp, l: Data, r: Data) -> Data {
    if l is Error {
        l
    } else if r is Error {
        r
    } else {
        match (l, r) {
            (Data::Int(x), Data::Int(y)) => int_arith(op, x, y),
            (Data::UInt(x), Data::UInt(y)) => uint_arith(op, x, y),
            _ => no_overload(arith_name(op)),
        }
    }
}

/// Whether an ordering satisfies an ordering operator.
pub open spec fn holds(op: RelationOp, o: Ordering) -> bool {
    match op {
        RelationOp::LessThan => o == Ordering::Less,
        RelationOp::LessThanEq => o != Ordering::Greater,
        RelationOp::GreaterThan => o == Ordering::Greater,
        RelationOp::GreaterThanEq => o != Ordering::Less,
        _ => false,
    }
}

/// Whether some element of `s` equals `x`.
pub open spec fn contains(s: Seq<Data>, x: Data) -> bool {
    exists|i: int| 0 <= i < s.len() && data_equals(x, #[trigger] s[i])
}

/// A relational operator on two values: an error operand is the result,
/// the left one first; `==` and `!=` go by `data_equals`; the ordering
/// operators go by `data_compare`, where unordered operands have no
/// overload; `in` asks for an equal element of a list or an equal key of
/// a map.
pub open spec fn relation_spec(op: RelationOp, l: Data, r: Data) -> Data {
    if l is Error {
        l
    } else if r is Error {
        r
    } else {
        match op {
            RelationOp::Equals => Data::Bool(data_equals(l, r)),
            RelationOp::NotEquals => Data::Bool(!data_equals(l, r)),
            RelationOp::In => match r {
                Data::List(s) => Data::Bool(contains(s, l)),
                Data::Mapping(m) => Data::Bool(data_get(m, l, 0) is Some),
                _ => no_overload(relation_name(op)),
            },
            _ => match data_compare(l, r) {
                Some(o) => Data::Bool(holds(op, o)),
                None => no_overload(relation_name(op)),
            },
        }
    }
}

/// A double with the sign bit flipped.
pub open spec fn negate_double(b: u64) -> u64 {
    if b >= SIGN_BIT {
        (b - SIGN_BIT) as u64
    } else {
        (b + SIGN_BIT) as u64
    }
}

/// A unary operator on a value: an error operand is the result; `!`
/// negates a bool; `-` negates an int (the least one overflows) or a
/// double; anything else has no overload.
pub open spec fn unary_spec(op: UnaryOp, v: Data) -> Data {
    if v is Error {
        v
    } else {
        match (op, v) {
            (UnaryOp::Not, Data::Bool(b)) => Data::Bool(!b),
            (UnaryOp::Minus, Data::Int(i)) => if i == i64::MIN {
                err("integer overflow"@)
            } else {
                Data::Int(-i as i64)
            },
            (UnaryOp::Minus, Data::Double(d)) => Data::Double(negate_double(d)),
            (UnaryOp::Not, _) => no_overload("!_"@),
            (UnaryOp::Minus, _) => no_overload("-_"@),
        }
    }
}

/// `b.name`: an error propagates; on a map, the value under the string
/// key `name`; on any other value, the function `name` bound to it.
pub open spec fn attribute_spec<F>(c: Context<F>, b: Data, name: Seq<char>) -> Data {
    if b is Error {
        b
    } else {
        match b {
            Data::Mapping(m) => match data_get(m, Data::String(name), 0) {
                Some(v) => v,
                None => err("no such key: "@ + name),
            },
            _ => match fn_spec(c, name) {
                Some(_) => Data::Function(name, Some(Box::new(b))),
                None => err("unknown attribute "@ + name),
            },
        }
    }
}

/// `b[i]`: an error operand propagates; a map gives the value under an
/// equal key; a list gives the element at an int or uint position.
pub open spec fn index_spec(b: Data, i: Data) -> Data {
    if b is Error {
        b
    } else if i is Error {
        i
    } else {
        match b {
            Data::Mapping(m) => match data_get(m, i, 0) {
                Some(v) => v,
                None => err("no such key"@),
            },
            Data::List(s) => match i {
                Data::Int(k) => if 0 <= k < s.len() {
                    s[k as int]
                } else {
                    err("index out of range"@)
                },
                Data::UInt(k) => if k < s.len() {
                    s[k as int]
                } else {
                    err("index out of range"@)
                },
                _ => no_overload("_[_]"@),
            },
            _ => no_overload("_[_]"@),
        }
    }
}

/// A call of `name` on arguments of the given content.
pub open spec fn call_spec<F: Fn(Vec<Val>) -> Val>(c: Context<F>, name: Seq<char>, args: Seq<Data>) -> Data {
    match fn_spec(c, name) {
        Some(f) => apply_spec(f, args),
        None => err("unknown function "@ + name),
    }
}

/// The values of expressions, in order.
pub open spec fn eval_seq<F: Fn(Vec<Val>) -> Val>(es: Seq<Expression>, c: Context<F>) -> Seq<Data>
    decreases es,
{
    Seq::new(es.len(), |i: int| if 0 <= i < es.len() { eval_spec(es[i], c) } else { Data::Null })
}

/// The values of key and value expressions, in order.
pub open spec fn eval_pairs<F: Fn(Vec<Val>) -> Val>(
    es: Seq<(Expression, Expression)>,
    c: Context<F>,
) -> Seq<(Data, Data)>
    decreases es,
{
    Seq::new(
        es.len(),
        |i: int|
            if 0 <= i < es.len() {
                (eval_spec(es[i].0, c), eval_spec(es[i].1, c))
            } else {
                (Data::Null, Data::Null)
            },
    )
}

/// The value of a member expression whose base has the value `b`: an
/// attribute as `attribute_spec` states it, an index as `index_spec`
/// states it, a method call as the call of the function with `b` put
/// before the arguments.
pub open spec fn member_spec<F: Fn(Vec<Val>) -> Val>(m: Member, b: Data, c: Context<F>) -> Data
    decreases m,
{
    match m {
        Member::Attribute(name) => attribute_spec(c, b, name@),
        Member::Index(i) => index_spec(b, eval_spec(*i, c)),
        Member::FunctionCall(name, args) => call_spec(c, name@, seq![b] + eval_seq(args@, c)),
        Member::Fields(_) => err("unsupported expression"@),
    }
}

/// The value of an expression in a scope.
pub open spec fn eval_spec<F: Fn(Vec<Val>) -> Val>(e: Expression, c: Context<F>) -> Data
    decreases e,
{
    match e {
        Expression::Atom(a) => atom_data(a),
        Expression::Ident(name) => match var_spec(c, name@) {
            Some(v) => v,
            None => err("unknown variable "@ + name@),
        },
        Expression::Arithmetic(l, op, r) => arith_spec(op, eval_spec(*l, c), eval_spec(*r, c)),
        Expression::Relation(l, op, r) => relation_spec(op, eval_spec(*l, c), eval_spec(*r, c)),
        Expression::And(l, r) => {
            let lb = data_to_bool(eval_spec(*l, c));
            match lb {
                Data::Bool(true) => data_to_bool(eval_spec(*r, c)),
                _ => lb,
            }
        },
        Expression::Or(l, r) => {
            let lb = data_to_bool(eval_spec(*l, c));
            match lb {
                Data::Bool(false) => data_to_bool(eval_spec(*r, c)),
                _ => lb,
            }
        },
        Expression::Unary(op, x) => unary_spec(op, eval_spec(*x, c)),
        Expression::Ternary(cond, a, b) => {
            let cb = data_to_bool(eval_spec(*cond, c));
            match cb {
                Data::Bool(true) => eval_spec(*a, c),
                Data::Bool(false) => eval_spec(*b, c),
                _ => cb,
            }
        },
        Expression::List(es) => Data::List(eval_seq(es@, c)),
        Expression::Mapping(es) => Data::Mapping(insert_all(Seq::empty(), eval_pairs(es@, c))),
        Expression::Member(b, m) => member_spec(*m, eval_spec(*b, c), c),
        Expression::GlobalFunctionCall(name, args) => call_spec(c, name@, eval_seq(args@, c)),
    }
}

} // verus!
