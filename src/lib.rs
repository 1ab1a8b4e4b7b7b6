//! An evaluator for a small, side-effect-free expression language over
//! dynamically typed values, resolved against a host-supplied environment.

pub mod ty;
pub mod kinds;
pub mod value;
pub mod function;
pub mod context;
pub mod ast;
pub mod semantics;
pub mod eval;
pub mod grammar;
pub mod parser;
pub mod program;
pub mod laws;

pub use context::Context;
pub use function::{Callable, Function, Overload};
pub use parser::ParseError;
pub use program::Program;
pub use ty::Ty;
pub use value::{Val, Value};
