use vstd::prelude::*;
use core::cmp::Ordering;
use crate::ast::{ArithmeticOp, Atom, Expression, Member, RelationOp};
use crate::context::{var_spec, Context};
use crate::program::truthy;
use crate::semantics::{arith_spec, atom_data, eval_pairs, eval_seq, eval_spec, relation_spec};
use crate::ty::Ty;
use crate::value::{
    covered_from, covers_from, data_equals, data_to_bool, double_order, keys_unique, kind_of,
    lemma_insert_all_unique, matched_from, matching_from, Data, Val,
};

verus! {

/// Evaluating a literal yields the value of the literal's own kind that
/// holds the literal's payload.
pub proof fn law_literal_value<F: Fn(Vec<Val>) -> Val>(a: Atom, c: Context<F>)
    ensures
        eval_spec(Expression::Atom(a), c) == atom_data(a),
        kind_of(atom_data(a)) == match a {
            Atom::Int(_) => Ty::Int,
            Atom::UInt(_) => Ty::UInt,
            Atom::Double(_) => Ty::Double,
            Atom::String(_) => Ty::String,
            Atom::Bytes(_) => Ty::Bytes,
            Atom::Bool(_) => Ty::Bool,
            Atom::Null => Ty::Null,
        },
{
}

/// Values of different kinds are never equal.
pub proof fn law_equals_cross_kind(a: Data, b: Data)
    requires
        kind_of(a) != kind_of(b),
    ensures
        !data_equals(a, b),
{
}

/// Each entry of a map whose keys and values equal themselves is matched
/// in the map itself.
proof fn lemma_self_match(m: Seq<(Data, Data)>)
    requires
        forall|i: int| #![trigger m[i]] 0 <= i < m.len() ==> data_equals(m[i].0, m[i].0) && data_equals(m[i].1, m[i].1),
    ensures
        covers_from(m, m, 0),
        covered_from(m, m, 0),
{
    assert forall|i: int, j: int| 0 <= j <= i < m.len() implies #[trigger] matched_from(m, m, i, j) by {
        assert(m[i] == m[i]);
        lemma_matched_upto(m, i, j);
    }
    assert forall|i: int, j: int| 0 <= i <= j < m.len() implies #[trigger] matching_from(m, m, j, i) by {
        assert(m[j] == m[j]);
        lemma_matching_upto(m, j, i);
    }
    lemma_covers_self(m, 0);
    lemma_covered_self(m, 0);
}

proof fn lemma_matched_upto(m: Seq<(Data, Data)>, i: int, j: int)
    requires
        0 <= j <= i < m.len(),
        data_equals(m[i].0, m[i].0) && data_equals(m[i].1, m[i].1),
    ensures
        matched_from(m, m, i, j),
    decreases i - j,
{
    if j < i {
        lemma_matched_upto(m, i, j + 1);
    }
}

proof fn lemma_matching_upto(m: Seq<(Data, Data)>, j: int, i: int)
    requires
        0 <= i <= j < m.len(),
        data_equals(m[j].0, m[j].0) && data_equals(m[j].1, m[j].1),
    ensures
        matching_from(m, m, j, i),
    decreases j - i,
{
    if i < j {
        lemma_matching_upto(m, j, i + 1);
    }
}

proof fn lemma_covers_self(m: Seq<(Data, Data)>, k: int)
    requires
        0 <= k,
        forall|i: int, j: int| 0 <= j <= i < m.len() ==> #[trigger] matched_from(m, m, i, j),
    ensures
        covers_from(m, m, k),
    decreases m.len() - k,
{
    if k < m.len() {
        assert(matched_from(m, m, k, 0));
        lemma_covers_self(m, k + 1);
    }
}

proof fn lemma_covered_self(m: Seq<(Data, Data)>, k: int)
    requires
        0 <= k,
        forall|i: int, j: int| 0 <= i <= j < m.len() ==> #[trigger] matching_from(m, m, j, i),
    ensures
        covered_from(m, m, k),
    decreases m.len() - k,
{
    if k < m.len() {
        assert(matching_from(m, m, k, 0));
        lemma_covered_self(m, k + 1);
    }
}

/// Every value equals itself.
pub proof fn law_equals_reflexive(a: Data)
    ensures
        data_equals(a, a),
    decreases a,
{
    match a {
        Data::Double(x) => {
            assert(double_order(x, x) == Ordering::Equal);
        },
        Data::List(s) => {
            assert forall|i: int| 0 <= i < s.len() implies data_equals(#[trigger] s[i], s[i]) by {
                law_equals_reflexive(s[i]);
            }
        },
        Data::Mapping(m) => {
            assert forall|i: int| #![trigger m[i]] 0 <= i < m.len() implies data_equals(m[i].0, m[i].0) && data_equals(
                m[i].1,
                m[i].1,
            ) by {
                law_equals_reflexive(m[i].0);
                law_equals_reflexive(m[i].1);
            }
            lemma_self_match(m);
        },
        Data::Function(_, r) => {
            if let Some(x) = r {
                law_equals_reflexive(*x);
            }
        },
        _ => {},
    }
}

/// Matching entries of `m` in `n` is matching them the other way round,
/// where equality of the entries is symmetric.
proof fn lemma_match_swap(m: Seq<(Data, Data)>, n: Seq<(Data, Data)>)
    requires
        forall|i: int, j: int|
            0 <= i < m.len() && 0 <= j < n.len() ==> (data_equals(#[trigger] m[i].0, #[trigger] n[j].0) == data_equals(
                n[j].0,
                m[i].0,
            )) && (data_equals(m[i].1, n[j].1) == data_equals(n[j].1, m[i].1)),
    ensures
        covers_from(m, n, 0) == covered_from(n, m, 0),
        covered_from(m, n, 0) == covers_from(n, m, 0),
{
    assert forall|i: int, j: int| 0 <= j <= n.len() implies #[trigger] matched_from(m, n, i, j) == matching_from(n, m, i, j) by {
        lemma_matched_swap(m, n, i, j);
    }
    assert forall|j: int, i: int| 0 <= i <= m.len() implies #[trigger] matching_from(m, n, j, i) == matched_from(n, m, j, i) by {
        lemma_matching_swap(m, n, j, i);
    }
    lemma_covers_swap(m, n, 0);
    lemma_covered_swap(m, n, 0);
}

proof fn lemma_matched_swap(m: Seq<(Data, Data)>, n: Seq<(Data, Data)>, i: int, j: int)
    requires
        0 <= j <= n.len(),
        forall|i: int, j: int|
            0 <= i < m.len() && 0 <= j < n.len() ==> (data_equals(#[trigger] m[i].0, #[trigger] n[j].0) == data_equals(
                n[j].0,
                m[i].0,
            )) && (data_equals(m[i].1, n[j].1) == data_equals(n[j].1, m[i].1)),
    ensures
        matched_from(m, n, i, j) == matching_from(n, m, i, j),
    decreases n.len() - j,
{
    if 0 <= i < m.len() && j < n.len() {
        assert(data_equals(m[i].0, n[j].0) == data_equals(n[j].0, m[i].0));
        lemma_matched_swap(m, n, i, j + 1);
    }
}

proof fn lemma_matching_swap(m: Seq<(Data, Data)>, n: Seq<(Data, Data)>, j: int, i: int)
    requires
        0 <= i <= m.len(),
        forall|i: int, j: int|
            0 <= i < m.len() && 0 <= j < n.len() ==> (data_equals(#[trigger] m[i].0, #[trigger] n[j].0) == data_equals(
                n[j].0,
                m[i].0,
            )) && (data_equals(m[i].1, n[j].1) == data_equals(n[j].1, m[i].1)),
    ensures
        matching_from(m, n, j, i) == matched_from(n, m, j, i),
    decreases m.len() - i,
{
    if 0 <= j < n.len() && i < m.len() {
        assert(data_equals(m[i].0, n[j].0) == data_equals(n[j].0, m[i].0));
        lemma_matching_swap(m, n, j, i + 1);
    }
}

proof fn lemma_covers_swap(m: Seq<(Data, Data)>, n: Seq<(Data, Data)>, k: int)
    requires
        0 <= k,
        forall|i: int, j: int| 0 <= j <= n.len() ==> #[trigger] matched_from(m, n, i, j) == matching_from(n, m, i, j),
    ensures
        covers_from(m, n, k) == covered_from(n, m, k),
    decreases m.len() - k,
{
    if k < m.len() {
        assert(matched_from(m, n, k, 0) == matching_from(n, m, k, 0));
        lemma_covers_swap(m, n, k + 1);
    }
}

proof fn lemma_covered_swap(m: Seq<(Data, Data)>, n: Seq<(Data, Data)>, k: int)
    requires
        0 <= k,
        forall|j: int, i: int| 0 <= i <= m.len() ==> #[trigger] matching_from(m, n, j, i) == matched_from(n, m, j, i),
    ensures
        covered_from(m, n, k) == covers_from(n, m, k),
    decreases n.len() - k,
{
    if k < n.len() {
        assert(matching_from(m, n, k, 0) == matched_from(n, m, k, 0));
        lemma_covered_swap(m, n, k + 1);
    }
}

/// Equality is symmetric: `a` equals `b` exactly when `b` equals `a`.
pub proof fn law_equals_symmetric(a: Data, b: Data)
    ensures
        data_equals(a, b) == data_equals(b, a),
    decreases a,
{
    match (a, b) {
        (Data::Double(x), Data::Double(y)) => {
            assert((double_order(x, y) == Ordering::Equal) == (double_order(y, x) == Ordering::Equal));
        },
        (Data::List(s), Data::List(t)) => {
            if s.len() == t.len() {
                assert forall|i: int| 0 <= i < s.len() implies data_equals(#[trigger] s[i], t[i])
                    == data_equals(t[i], s[i]) by {
                    law_equals_symmetric(s[i], t[i]);
                }
            }
        },
        (Data::Mapping(m), Data::Mapping(n)) => {
            assert forall|i: int, j: int| 0 <= i < m.len() && 0 <= j < n.len() implies (data_equals(
                #[trigger] m[i].0,
                #[trigger] n[j].0,
            ) == data_equals(n[j].0, m[i].0)) && (data_equals(m[i].1, n[j].1) == data_equals(n[j].1, m[i].1)) by {
                law_equals_symmetric(m[i].0, n[j].0);
                law_equals_symmetric(m[i].1, n[j].1);
            }
            lemma_match_swap(m, n);
        },
        (Data::Function(f, r), Data::Function(g, q)) => {
            if let (Some(x), Some(y)) = (r, q) {
                law_equals_symmetric(*x, *y);
            }
        },
        _ => {},
    }
}

/// The map that a map literal evaluates to never holds two equal keys: a
/// later equal key replaces the value of the earlier one.
pub proof fn law_map_literal_keys_unique<F: Fn(Vec<Val>) -> Val>(
    es: Vec<(Expression, Expression)>,
    c: Context<F>,
)
    ensures
        eval_spec(Expression::Mapping(es), c) matches Data::Mapping(m) && keys_unique(m),
{
    lemma_insert_all_unique(Seq::empty(), eval_pairs(es@, c));
}

/// `l && x` is false whatever `x` is, once `l` is false.
pub proof fn law_and_short_circuit<F: Fn(Vec<Val>) -> Val>(l: Expression, x: Expression, c: Context<F>)
    requires
        data_to_bool(eval_spec(l, c)) == Data::Bool(false),
    ensures
        eval_spec(Expression::And(Box::new(l), Box::new(x)), c) == Data::Bool(false),
{
}

/// `l || x` is true whatever `x` is, once `l` is true.
pub proof fn law_or_short_circuit<F: Fn(Vec<Val>) -> Val>(l: Expression, x: Expression, c: Context<F>)
    requires
        data_to_bool(eval_spec(l, c)) == Data::Bool(true),
    ensures
        eval_spec(Expression::Or(Box::new(l), Box::new(x)), c) == Data::Bool(true),
{
}

/// An arithmetic or relational operator with an error operand yields an
/// error: the left operand's if it is one, else the right one's.
pub proof fn law_error_infection(aop: ArithmeticOp, rop: RelationOp, l: Data, r: Data)
    requires
        l is Error || r is Error,
    ensures
        arith_spec(aop, l, r) == (if l is Error { l } else { r }),
        relation_spec(rop, l, r) == (if l is Error { l } else { r }),
{
}

/// An identifier that is bound nowhere evaluates to an error, and a
/// program made of it executes to `false`.
pub proof fn law_unknown_identifier<F: Fn(Vec<Val>) -> Val>(name: String, c: Context<F>)
    requires
        var_spec(c, name@) is None,
    ensures
        eval_spec(Expression::Ident(name), c) is Error,
        !truthy(eval_spec(Expression::Ident(name), c)),
{
}

/// A method call `b.f(args)` evaluates as the call `f(b, args)`.
pub proof fn law_bound_call<F: Fn(Vec<Val>) -> Val>(
    b: Expression,
    name: String,
    args: Vec<Expression>,
    all: Vec<Expression>,
    c: Context<F>,
)
    requires
        all@ == seq![b] + args@,
    ensures
        eval_spec(Expression::Member(Box::new(b), Box::new(Member::FunctionCall(name, args))), c)
            == eval_spec(Expression::GlobalFunctionCall(name, all), c),
        eval_spec(Expression::GlobalFunctionCall(name, all), c) == crate::semantics::call_spec(
            c,
            name@,
            seq![eval_spec(b, c)] + eval_seq(args@, c),
        ),
{
    let m = Member::FunctionCall(name, args);
    let e = Expression::Member(Box::new(b), Box::new(m));
    assert(eval_spec(e, c) == crate::semantics::member_spec(m, eval_spec(b, c), c));
    assert(eval_seq(all@, c) =~= seq![eval_spec(b, c)] + eval_seq(args@, c));
}

} // verus!
