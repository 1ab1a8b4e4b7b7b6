use vstd::prelude::*;
use core::cmp::Ordering;
use crate::ty::Ty;
use crate::value::{
    bytes_eq, double_cmp, function_equals, int_cmp, lemma_mapping_data, lex_cmp, mapping_equals,
    uint_cmp, Data, Val, Value,
};

verus! {

/// A boolean.
#[derive(Clone, Copy, Debug)]
pub struct Bool(pub bool);

/// A signed 64-bit integer.
#[derive(Clone, Copy, Debug)]
pub struct Int(pub i64);

/// An unsigned 64-bit integer.
#[derive(Clone, Copy, Debug)]
pub struct Uint(pub u64);

/// An IEEE-754 double, held as its bit pattern.
#[derive(Clone, Copy, Debug)]
pub struct Double(pub u64);

/// The null value.
#[derive(Clone, Copy, Debug)]
pub struct Null {}

/// A UTF-8 string.
#[derive(Clone, Debug)]
pub struct String(pub std::string::String);

/// A byte sequence.
#[derive(Clone, Debug)]
pub struct Bytes(pub Vec<u8>);

/// A map from values to values, entries in insertion order. Outside this
/// crate it is built only through `Mapping::new`, `Mapping::insert` and
/// `Val::new_map`, which keep its keys unique.
#[derive(Debug)]
pub struct Mapping {
    pub(crate) entries: Vec<(Val, Val)>,
}

/// A function, by name, optionally bound to a receiver.
#[derive(Debug)]
pub struct FnValue {
    pub name: std::string::String,
    pub receiver: Option<Box<Val>>,
}

/// A failure carried as a value: an optional id and a message.
#[derive(Clone, Debug)]
pub struct Error {
    pub id: Option<i64>,
    pub message: std::string::String,
}

} // verus!

verus! {

impl Bool {
    pub fn new(b: bool) -> (r: Self)
        ensures
            r.0 == b,
    {
        Bool(b)
    }
}

impl Int {
    pub fn new(i: i64) -> (r: Self)
        ensures
            r.0 == i,
    {
        Int(i)
    }
}

impl Uint {
    pub fn new(u: u64) -> (r: Self)
        ensures
            r.0 == u,
    {
        Uint(u)
    }
}

impl Double {
    /// A double, given by its IEEE-754 bit pattern.
    pub fn new(bits: u64) -> (r: Self)
        ensures
            r.0 == bits,
    {
        Double(bits)
    }
}

impl Null {
    pub fn new() -> (r: Self) {
        Null {}
    }
}

impl String {
    pub fn new(s: std::string::String) -> (r: Self)
        ensures
            r.0@ == s@,
    {
        String(s)
    }
}

impl Bytes {
    pub fn new(b: Vec<u8>) -> (r: Self)
        ensures
            r.0@ == b@,
    {
        Bytes(b)
    }
}

impl Value for Bool {
    open spec fn data(&self) -> Data {
        Data::Bool(self.0)
    }

    fn ty(&self) -> (r: Ty) {
        Ty::Bool
    }

    fn into_val(self) -> (r: Val) {
        Val::Bool(self)
    }

    fn equals(&self, other: &Val) -> (r: bool) {
        match other {
            Val::Bool(o) => o.0 == self.0,
            _ => false,
        }
    }

    fn compare(&self, other: &Val) -> (r: Option<Ordering>) {
        match other {
            Val::Bool(o) => Some(uint_cmp(self.0 as u64, o.0 as u64)),
            _ => None,
        }
    }
}

impl Value for Int {
    open spec fn data(&self) -> Data {
        Data::Int(self.0)
    }

    fn ty(&self) -> (r: Ty) {
        Ty::Int
    }

    fn into_val(self) -> (r: Val) {
        Val::Int(self)
    }

    fn equals(&self, other: &Val) -> (r: bool) {
        match other {
            Val::Int(o) => o.0 == self.0,
            _ => false,
        }
    }

    fn compare(&self, other: &Val) -> (r: Option<Ordering>) {
        match other {
            Val::Int(o) => Some(int_cmp(self.0, o.0)),
            _ => None,
        }
    }
}

impl Value for Uint {
    open spec fn data(&self) -> Data {
        Data::UInt(self.0)
    }

    fn ty(&self) -> (r: Ty) {
        Ty::UInt
    }

    fn into_val(self) -> (r: Val) {
        Val::UInt(self)
    }

    fn equals(&self, other: &Val) -> (r: bool) {
        match other {
            Val::UInt(o) => o.0 == self.0,
            _ => false,
        }
    }

    fn compare(&self, other: &Val) -> (r: Option<Ordering>) {
        match other {
            Val::UInt(o) => Some(uint_cmp(self.0, o.0)),
            _ => None,
        }
    }
}

impl Value for Double {
    open spec fn data(&self) -> Data {
        Data::Double(self.0)
    }

    fn ty(&self) -> (r: Ty) {
        Ty::Double
    }

    fn into_val(self) -> (r: Val) {
        Val::Double(self)
    }

    fn equals(&self, other: &Val) -> (r: bool) {
        match other {
            Val::Double(o) => matches!(double_cmp(self.0, o.0), Ordering::Equal),
            _ => false,
        }
    }

    fn compare(&self, other: &Val) -> (r: Option<Ordering>) {
        match other {
            Val::Double(o) => Some(double_cmp(self.0, o.0)),
            _ => None,
        }
    }
}

impl Value for Null {
    open spec fn data(&self) -> Data {
        Data::Null
    }

    fn ty(&self) -> (r: Ty) {
        Ty::Null
    }

    fn into_val(self) -> (r: Val) {
        Val::Null(self)
    }

    fn equals(&self, other: &Val) -> (r: bool) {
        matches!(other, Val::Null(_))
    }

    fn compare(&self, other: &Val) -> (r: Option<Ordering>) {
        match other {
            Val::Null(_) => Some(Ordering::Equal),
            _ => None,
        }
    }
}

impl Value for String {
    open spec fn data(&self) -> Data {
        Data::String(self.0@)
    }

    fn ty(&self) -> (r: Ty) {
        Ty::String
    }

    fn into_val(self) -> (r: Val) {
        Val::String(self)
    }

    fn equals(&self, other: &Val) -> (r: bool) {
        match other {
            Val::String(o) => o.0 == self.0,
            _ => false,
        }
    }

    fn compare(&self, other: &Val) -> (r: Option<Ordering>) {
        match other {
            Val::String(o) => Some(lex_cmp(self.0.as_str().as_bytes(), o.0.as_str().as_bytes())),
            _ => None,
        }
    }
}

impl Value for Bytes {
    open spec fn data(&self) -> Data {
        Data::Bytes(self.0@)
    }

    fn ty(&self) -> (r: Ty) {
        Ty::Bytes
    }

    fn into_val(self) -> (r: Val) {
        Val::Bytes(self)
    }

    fn equals(&self, other: &Val) -> (r: bool) {
        match other {
            Val::Bytes(o) => bytes_eq(self.0.as_slice(), o.0.as_slice()),
            _ => false,
        }
    }

    fn compare(&self, other: &Val) -> (r: Option<Ordering>) {
        match other {
            Val::Bytes(o) => Some(lex_cmp(self.0.as_slice(), o.0.as_slice())),
            _ => None,
        }
    }
}

impl Value for Ty {
    open spec fn data(&self) -> Data {
        Data::Type(*self)
    }

    fn ty(&self) -> (r: Ty) {
        Ty::Type
    }

    fn into_val(self) -> (r: Val) {
        Val::Type(self)
    }

    fn equals(&self, other: &Val) -> (r: bool) {
        match other {
            Val::Type(o) => *o == *self,
            _ => false,
        }
    }

    fn compare(&self, other: &Val) -> (r: Option<Ordering>) {
        None
    }
}

impl Value for Error {
    open spec fn data(&self) -> Data {
        Data::Error(self.id, self.message@)
    }

    fn ty(&self) -> (r: Ty) {
        Ty::Error
    }

    fn into_val(self) -> (r: Val) {
        Val::Error(self)
    }

    fn equals(&self, other: &Val) -> (r: bool) {
        match other {
            Val::Error(o) => {
                let same_id = match (self.id, o.id) {
                    (None, None) => true,
                    (Some(x), Some(y)) => x == y,
                    _ => false,
                };
                same_id && o.message == self.message
            },
            _ => false,
        }
    }

    fn compare(&self, other: &Val) -> (r: Option<Ordering>) {
        None
    }
}

impl Value for Mapping {
    open spec fn data(&self) -> Data {
        Val::Mapping(*self)@
    }

    fn ty(&self) -> (r: Ty) {
        Ty::Mapping
    }

    fn into_val(self) -> (r: Val) {
        Val::Mapping(self)
    }

    fn equals(&self, other: &Val) -> (r: bool) {
        proof {
            lemma_mapping_data(*self);
        }
        mapping_equals(self, other)
    }

    fn compare(&self, other: &Val) -> (r: Option<Ordering>) {
        None
    }
}

impl Value for FnValue {
    open spec fn data(&self) -> Data {
        Val::Function(*self)@
    }

    fn ty(&self) -> (r: Ty) {
        Ty::Dyn
    }

    fn into_val(self) -> (r: Val) {
        Val::Function(self)
    }

    fn equals(&self, other: &Val) -> (r: bool) {
        function_equals(self, other)
    }

    fn compare(&self, other: &Val) -> (r: Option<Ordering>) {
        None
    }
}

} // verus!
