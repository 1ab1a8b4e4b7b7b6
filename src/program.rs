use vstd::prelude::*;
use crate::ast::Expression;
use crate::context::{ctx_ok, Context};
use crate::eval::Eval;
use crate::grammar::parse_spec;
use crate::parser::{ParseError, Parser};
use crate::semantics::eval_spec;
use crate::value::{data_to_bool, Data, Val};

verus! {

/// A parsed expression, ready to be evaluated against any number of
/// scopes.
pub struct Program {
    pub expr: Expression,
}

/// What `execute` answers for a value: whether it coerces to `true`.
pub open spec fn truthy(d: Data) -> bool {
    data_to_bool(d) == Data::Bool(true)
}

impl Program {
    /// Parses `source`: a program exactly when the whole text reads as one
    /// expression under the grammar, holding the tree it reads as.
    pub fn new(source: &str) -> (r: Result<Program, ParseError>)
        ensures
            match parse_spec(source@) {
                Some(e) => r matches Ok(p) && p.expr@ == e,
                None => r is Err,
            },
    {
        let parser = Parser::new(source);
        match parser.parse() {
            Ok(expr) => Ok(Program { expr }),
            Err(e) => Err(e),
        }
    }

    /// A program for an expression tree built by other means.
    pub fn from_expression(expr: Expression) -> (r: Program)
        ensures
            r.expr == expr,
    {
        Program { expr }
    }

    /// Evaluates the program and coerces the result to a bool; anything
    /// but `true`, an error included, gives `false`.
    pub fn execute<F: Fn(Vec<Val>) -> Val>(&self, context: &Context<F>) -> (r: bool)
        requires
            ctx_ok(*context),
        ensures
            r == truthy(eval_spec(self.expr, *context)),
    {
        let v = self.eval(context).to_bool();
        match v.as_bool() {
            Some(b) => b,
            None => false,
        }
    }

    /// The value of the program in the scope `context`.
    pub fn eval<F: Fn(Vec<Val>) -> Val>(&self, context: &Context<F>) -> (r: Val)
        requires
            ctx_ok(*context),
        ensures
            r@ == eval_spec(self.expr, *context),
    {
        let e = Eval::new();
        e.eval(&self.expr, context)
    }
}

} // verus!
