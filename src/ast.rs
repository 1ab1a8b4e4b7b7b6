use vstd::prelude::*;

verus! {

/// A literal.
#[derive(Debug)]
pub enum Atom {
    Int(i64),
    UInt(u64),
    /// An IEEE-754 double, held as its bit pattern.
    Double(u64),
    String(String),
    Bytes(Vec<u8>),
    Bool(bool),
    Null,
}

#[derive(Clone, Copy, Debug, PartialEq, Eq, Structural)]
pub enum RelationOp {
    LessThan,
    LessThanEq,
    GreaterThan,
    GreaterThanEq,
    Equals,
    NotEquals,
    In,
}

#[derive(Clone, Copy, Debug, PartialEq, Eq, Structural)]
pub enum ArithmeticOp {
    Add,
    Subtract,
    Divide,
    Multiply,
    Modulus,
}

#[derive(Clone, Copy, Debug, PartialEq, Eq, Structural)]
pub enum UnaryOp {
    /// Logical negation, `!x`.
    Not,
    /// Arithmetic negation, `-x`.
    Minus,
}

/// What follows the `.` or `[` of a member expression.
#[derive(Debug)]
pub enum Member {
    /// `x.name`
    Attribute(String),
    /// `x.name(args)`
    FunctionCall(String, Vec<Expression>),
    /// `x[index]`
    Index(Box<Expression>),
    /// `x{field: value, ...}`
    Fields(Vec<(String, Expression)>),
}

/// An expression tree.
#[derive(Debug)]
pub enum Expression {
    Arithmetic(Box<Expression>, ArithmeticOp, Box<Expression>),
    Relation(Box<Expression>, RelationOp, Box<Expression>),
    /// `cond ? then : otherwise`
    Ternary(Box<Expression>, Box<Expression>, Box<Expression>),
    Or(Box<Expression>, Box<Expression>),
    And(Box<Expression>, Box<Expression>),
    Unary(UnaryOp, Box<Expression>),
    Member(Box<Expression>, Box<Member>),
    /// `name(args)`
    GlobalFunctionCall(String, Vec<Expression>),
    List(Vec<Expression>),
    /// A map literal's entries, key then value.
    Mapping(Vec<(Expression, Expression)>),
    Atom(Atom),
    Ident(String),
}


/// The content of a literal.
pub enum AtomV {
    Int(i64),
    UInt(u64),
    Double(u64),
    String(Seq<char>),
    Bytes(Seq<u8>),
    Bool(bool),
    Null,
}

/// The content of an expression tree: what the grammar speaks of.
pub enum ExprV {
    Arithmetic(Box<ExprV>, ArithmeticOp, Box<ExprV>),
    Relation(Box<ExprV>, RelationOp, Box<ExprV>),
    Ternary(Box<ExprV>, Box<ExprV>, Box<ExprV>),
    Or(Box<ExprV>, Box<ExprV>),
    And(Box<ExprV>, Box<ExprV>),
    Unary(UnaryOp, Box<ExprV>),
    Attribute(Box<ExprV>, Seq<char>),
    MethodCall(Box<ExprV>, Seq<char>, Seq<ExprV>),
    Index(Box<ExprV>, Box<ExprV>),
    Fields(Box<ExprV>, Seq<(Seq<char>, ExprV)>),
    GlobalFunctionCall(Seq<char>, Seq<ExprV>),
    List(Seq<ExprV>),
    Mapping(Seq<(ExprV, ExprV)>),
    Atom(AtomV),
    Ident(Seq<char>),
}

pub open spec fn atom_view(a: Atom) -> AtomV {
    match a {
        Atom::Int(i) => AtomV::Int(i),
        Atom::UInt(u) => AtomV::UInt(u),
        Atom::Double(d) => AtomV::Double(d),
        Atom::String(s) => AtomV::String(s@),
        Atom::Bytes(b) => AtomV::Bytes(b@),
        Atom::Bool(b) => AtomV::Bool(b),
        Atom::Null => AtomV::Null,
    }
}

/// The content of a sequence of expressions.
pub open spec fn exprs_view(v: Seq<Expression>) -> Seq<ExprV>
    decreases v,
{
    Seq::new(v.len(), |i: int| if 0 <= i < v.len() { expr_view(v[i]) } else { ExprV::Atom(AtomV::Null) })
}

/// The content of a sequence of key and value expressions.
pub open spec fn pairs_view(v: Seq<(Expression, Expression)>) -> Seq<(ExprV, ExprV)>
    decreases v,
{
    Seq::new(
        v.len(),
        |i: int|
            if 0 <= i < v.len() {
                (expr_view(v[i].0), expr_view(v[i].1))
            } else {
                (ExprV::Atom(AtomV::Null), ExprV::Atom(AtomV::Null))
            },
    )
}

/// The content of a sequence of field initializers.
pub open spec fn fields_view(v: Seq<(String, Expression)>) -> Seq<(Seq<char>, ExprV)>
    decreases v,
{
    Seq::new(
        v.len(),
        |i: int| if 0 <= i < v.len() { (v[i].0@, expr_view(v[i].1)) } else { (Seq::empty(), ExprV::Atom(AtomV::Null)) },
    )
}

/// The content of an expression tree.
#[verifier::opaque]
pub open spec fn expr_view(e: Expression) -> ExprV
    decreases e,
{
    match e {
        Expression::Arithmetic(l, op, r) => ExprV::Arithmetic(Box::new(expr_view(*l)), op, Box::new(expr_view(*r))),
        Expression::Relation(l, op, r) => ExprV::Relation(Box::new(expr_view(*l)), op, Box::new(expr_view(*r))),
        Expression::Ternary(c, a, b) => ExprV::Ternary(
            Box::new(expr_view(*c)),
            Box::new(expr_view(*a)),
            Box::new(expr_view(*b)),
        ),
        Expression::Or(l, r) => ExprV::Or(Box::new(expr_view(*l)), Box::new(expr_view(*r))),
        Expression::And(l, r) => ExprV::And(Box::new(expr_view(*l)), Box::new(expr_view(*r))),
        Expression::Unary(op, x) => ExprV::Unary(op, Box::new(expr_view(*x))),
        Expression::Member(b, m) => match *m {
            Member::Attribute(n) => ExprV::Attribute(Box::new(expr_view(*b)), n@),
            Member::FunctionCall(n, args) => ExprV::MethodCall(Box::new(expr_view(*b)), n@, exprs_view(args@)),
            Member::Index(i) => ExprV::Index(Box::new(expr_view(*b)), Box::new(expr_view(*i))),
            Member::Fields(fs) => ExprV::Fields(Box::new(expr_view(*b)), fields_view(fs@)),
        },
        Expression::GlobalFunctionCall(n, args) => ExprV::GlobalFunctionCall(n@, exprs_view(args@)),
        Expression::List(es) => ExprV::List(exprs_view(es@)),
        Expression::Mapping(es) => ExprV::Mapping(pairs_view(es@)),
        Expression::Atom(a) => ExprV::Atom(atom_view(a)),
        Expression::Ident(n) => ExprV::Ident(n@),
    }
}

pub proof fn lemma_view_atom(a: Atom)
    ensures
        Expression::Atom(a)@ == ExprV::Atom(atom_view(a)),
{
    reveal(expr_view);
}

pub proof fn lemma_view_ident(n: String)
    ensures
        Expression::Ident(n)@ == ExprV::Ident(n@),
{
    reveal(expr_view);
}

pub proof fn lemma_view_arithmetic(l: Expression, op: ArithmeticOp, r: Expression)
    ensures
        Expression::Arithmetic(Box::new(l), op, Box::new(r))@ == ExprV::Arithmetic(Box::new(l@), op, Box::new(r@)),
{
    reveal(expr_view);
}

pub proof fn lemma_view_relation(l: Expression, op: RelationOp, r: Expression)
    ensures
        Expression::Relation(Box::new(l), op, Box::new(r))@ == ExprV::Relation(Box::new(l@), op, Box::new(r@)),
{
    reveal(expr_view);
}

pub proof fn lemma_view_or(l: Expression, r: Expression)
    ensures
        Expression::Or(Box::new(l), Box::new(r))@ == ExprV::Or(Box::new(l@), Box::new(r@)),
{
    reveal(expr_view);
}

pub proof fn lemma_view_and(l: Expression, r: Expression)
    ensures
        Expression::And(Box::new(l), Box::new(r))@ == ExprV::And(Box::new(l@), Box::new(r@)),
{
    reveal(expr_view);
}

pub proof fn lemma_view_ternary(c: Expression, a: Expression, b: Expression)
    ensures
        Expression::Ternary(Box::new(c), Box::new(a), Box::new(b))@ == ExprV::Ternary(
            Box::new(c@),
            Box::new(a@),
            Box::new(b@),
        ),
{
    reveal(expr_view);
}

pub proof fn lemma_view_unary(op: UnaryOp, x: Expression)
    ensures
        Expression::Unary(op, Box::new(x))@ == ExprV::Unary(op, Box::new(x@)),
{
    reveal(expr_view);
}

pub proof fn lemma_view_method(b: Expression, n: String, args: Vec<Expression>)
    ensures
        Expression::Member(Box::new(b), Box::new(Member::FunctionCall(n, args)))@ == ExprV::MethodCall(
            Box::new(b@),
            n@,
            exprs_view(args@),
        ),
{
    reveal(expr_view);
}

pub proof fn lemma_view_attribute(b: Expression, n: String)
    ensures
        Expression::Member(Box::new(b), Box::new(Member::Attribute(n)))@ == ExprV::Attribute(Box::new(b@), n@),
{
    reveal(expr_view);
}

pub proof fn lemma_view_index(b: Expression, i: Expression)
    ensures
        Expression::Member(Box::new(b), Box::new(Member::Index(Box::new(i))))@ == ExprV::Index(
            Box::new(b@),
            Box::new(i@),
        ),
{
    reveal(expr_view);
}

pub proof fn lemma_view_call(n: String, args: Vec<Expression>)
    ensures
        Expression::GlobalFunctionCall(n, args)@ == ExprV::GlobalFunctionCall(n@, exprs_view(args@)),
{
    reveal(expr_view);
}

pub proof fn lemma_view_list(items: Vec<Expression>)
    ensures
        Expression::List(items)@ == ExprV::List(exprs_view(items@)),
{
    reveal(expr_view);
}

pub proof fn lemma_view_mapping(es: Vec<(Expression, Expression)>)
    ensures
        Expression::Mapping(es)@ == ExprV::Mapping(pairs_view(es@)),
{
    reveal(expr_view);
}

impl View for Expression {
    type V = ExprV;

    open spec fn view(&self) -> ExprV {
        expr_view(*self)
    }
}

} // verus!
