use vstd::prelude::*;
use vstd::string::StringExecFns;

verus! {

/// The kind of a value.
#[derive(Clone, Copy, Debug, PartialEq, Eq, Structural)]
pub enum Ty {
    Int,
    UInt,
    Double,
    Bool,
    String,
    Bytes,
    List,
    Mapping,
    Null,
    Type,
    Unknown,
    Error,
    Dyn,
}

/// The name under which a kind is shown in messages.
pub open spec fn ty_name(t: Ty) -> Seq<char> {
    match t {
        Ty::Int => "int"@,
        Ty::UInt => "uint"@,
        Ty::Double => "double"@,
        Ty::Bool => "bool"@,
        Ty::String => "string"@,
        Ty::Bytes => "bytes"@,
        Ty::List => "list"@,
        Ty::Mapping => "map"@,
        Ty::Null => "null_type"@,
        Ty::Type => "type"@,
        Ty::Unknown => "unknown"@,
        Ty::Error => "error"@,
        Ty::Dyn => "dyn"@,
    }
}

impl Ty {
    /// The kind's name, as `ty_name` gives it.
    pub fn to_string(&self) -> (r: String)
        ensures
            r@ == ty_name(*self),
    {
        match self {
            Ty::Int => String::from_str("int"),
            Ty::UInt => String::from_str("uint"),
            Ty::Double => String::from_str("double"),
            Ty::Bool => String::from_str("bool"),
            Ty::String => String::from_str("string"),
            Ty::Bytes => String::from_str("bytes"),
            Ty::List => String::from_str("list"),
            Ty::Mapping => String::from_str("map"),
            Ty::Null => String::from_str("null_type"),
            Ty::Type => String::from_str("type"),
            Ty::Unknown => String::from_str("unknown"),
            Ty::Error => String::from_str("error"),
            Ty::Dyn => String::from_str("dyn"),
        }
    }
}

} // verus!
