use vstd::prelude::*;
use vstd::string::StringExecFns;
use core::cmp::Ordering;
use crate::ty::{Ty, ty_name};
use crate::kinds::{Bool, Bytes, Double, Error, FnValue, Int, Mapping, Null, Uint};
use crate::kinds::String as CelString;

verus! {

broadcast use vstd::std_specs::vec::group_vec_axioms;

/// The mathematical content of a value: what equality, ordering and
/// evaluation are stated over.
pub enum Data {
    Int(i64),
    UInt(u64),
    /// An IEEE-754 double, held as its bit pattern.
    Double(u64),
    Bool(bool),
    Null,
    String(Seq<char>),
    Bytes(Seq<u8>),
    List(Seq<Data>),
    /// Entries in insertion order.
    Mapping(Seq<(Data, Data)>),
    /// A function's name, with the receiver it is bound to, if any.
    Function(Seq<char>, Option<Box<Data>>),
    Type(Ty),
    /// An error's optional id and its message.
    Error(Option<i64>, Seq<char>),
}

/// The kind of a value; functions report `Dyn`.
pub open spec fn kind_of(d: Data) -> Ty {
    match d {
        Data::Int(_) => Ty::Int,
        Data::UInt(_) => Ty::UInt,
        Data::Double(_) => Ty::Double,
        Data::Bool(_) => Ty::Bool,
        Data::Null => Ty::Null,
        Data::String(_) => Ty::String,
        Data::Bytes(_) => Ty::Bytes,
        Data::List(_) => Ty::List,
        Data::Mapping(_) => Ty::Mapping,
        Data::Function(_, _) => Ty::Dyn,
        Data::Type(_) => Ty::Type,
        Data::Error(_, _) => Ty::Error,
    }
}

pub open spec fn int_order(a: int, b: int) -> Ordering {
    if a < b {
        Ordering::Less
    } else if a == b {
        Ordering::Equal
    } else {
        Ordering::Greater
    }
}

pub open spec fn bool_int(b: bool) -> int {
    if b {
        1
    } else {
        0
    }
}

pub const SIGN_BIT: u64 = 0x8000_0000_0000_0000;

pub const FRACTION_UNIT: u64 = 0x10_0000_0000_0000;

/// A double is NaN when its eleven exponent bits are all set and its
/// fraction is not zero.
pub open spec fn double_is_nan(b: u64) -> bool {
    (b % SIGN_BIT) / FRACTION_UNIT == 0x7ff && b % FRACTION_UNIT != 0
}

/// Where a double that is not NaN stands on the number line, up to
/// monotone rescaling: the magnitude bits, negated when the sign bit is
/// set. Both zeros map to 0.
pub open spec fn double_key(b: u64) -> int {
    if b >= SIGN_BIT {
        -((b % SIGN_BIT) as int)
    } else {
        b as int
    }
}

/// The total order on doubles: numeric order, with the two zeros equal,
/// and every NaN equal to every other NaN and above every number.
pub open spec fn double_order(a: u64, b: u64) -> Ordering {
    if double_is_nan(a) && double_is_nan(b) {
        Ordering::Equal
    } else if double_is_nan(a) {
        Ordering::Greater
    } else if double_is_nan(b) {
        Ordering::Less
    } else {
        int_order(double_key(a), double_key(b))
    }
}

/// Lexicographic order of `a` and `b` from position `i` on, given that
/// they agree before `i`.
pub open spec fn lex_from(a: Seq<u8>, b: Seq<u8>, i: int) -> Ordering
    decreases a.len() - i,
{
    if i < 0 || i >= a.len() || i >= b.len() {
        int_order(a.len() as int, b.len() as int)
    } else if a[i] != b[i] {
        int_order(a[i] as int, b[i] as int)
    } else {
        lex_from(a, b, i + 1)
    }
}

pub open spec fn lex_order(a: Seq<u8>, b: Seq<u8>) -> Ordering {
    lex_from(a, b, 0)
}

/// The value stored under the first key from position `j` on that equals `k`.
pub open spec fn data_get(n: Seq<(Data, Data)>, k: Data, j: int) -> Option<Data>
    decreases k, n.len() - j,
{
    if j < 0 || j >= n.len() {
        None
    } else if data_equals(k, n[j].0) {
        Some(n[j].1)
    } else {
        data_get(n, k, j + 1)
    }
}

/// The first position from `j` on whose key equals `k`, if any.
pub open spec fn data_find(n: Seq<(Data, Data)>, k: Data, j: int) -> Option<int>
    decreases n.len() - j,
{
    if j < 0 || j >= n.len() {
        None
    } else if data_equals(k, n[j].0) {
        Some(j)
    } else {
        data_find(n, k, j + 1)
    }
}

/// The entries after `k` is set to `v`: the value of the first equal key
/// is replaced, or the pair is added at the end.
pub open spec fn data_insert(n: Seq<(Data, Data)>, k: Data, v: Data) -> Seq<(Data, Data)> {
    match data_find(n, k, 0) {
        Some(j) => n.update(j, (n[j].0, v)),
        None => n.push((k, v)),
    }
}

/// No key of the entries equals an earlier one.
pub open spec fn keys_unique(n: Seq<(Data, Data)>) -> bool {
    forall|i: int, j: int| 0 <= j < i < n.len() ==> !data_equals(#[trigger] n[i].0, #[trigger] n[j].0)
}

/// Whether entry `i` of `m` has an entry with an equal key and an equal
/// value among the entries of `n` from `j` on.
pub open spec fn matched_from(m: Seq<(Data, Data)>, n: Seq<(Data, Data)>, i: int, j: int) -> bool
    decreases m[i], n.len() - j,
{
    if i < 0 || i >= m.len() || j < 0 || j >= n.len() {
        false
    } else if data_equals(m[i].0, n[j].0) && data_equals(m[i].1, n[j].1) {
        true
    } else {
        matched_from(m, n, i, j + 1)
    }
}

/// Whether entry `j` of `n` has an entry with an equal key and an equal
/// value among the entries of `m` from `i` on.
pub open spec fn matching_from(m: Seq<(Data, Data)>, n: Seq<(Data, Data)>, j: int, i: int) -> bool
    decreases m, m.len() - i,
{
    if i < 0 || i >= m.len() || j < 0 || j >= n.len() {
        false
    } else if data_equals(m[i].0, n[j].0) && data_equals(m[i].1, n[j].1) {
        true
    } else {
        matching_from(m, n, j, i + 1)
    }
}

/// Whether every entry of `m` from `i` on is matched in `n`.
pub open spec fn covers_from(m: Seq<(Data, Data)>, n: Seq<(Data, Data)>, i: int) -> bool
    decreases m, m.len() - i,
{
    if i < 0 || i >= m.len() {
        true
    } else {
        matched_from(m, n, i, 0) && covers_from(m, n, i + 1)
    }
}

/// Whether every entry of `n` from `j` on is matched in `m`.
pub open spec fn covered_from(m: Seq<(Data, Data)>, n: Seq<(Data, Data)>, j: int) -> bool
    decreases m, m.len() + n.len() + 1 - j,
{
    if j < 0 || j >= n.len() {
        true
    } else {
        matching_from(m, n, j, 0) && covered_from(m, n, j + 1)
    }
}

/// Value equality. Values of different kinds are never equal. Doubles are
/// equal under `double_order`; lists are equal element by element; two
/// maps are equal when they have as many entries, every entry of the first
/// has an entry of the second with an equal key and an equal value, and
/// every entry of the second has such an entry in the first, whatever the
/// order.
pub open spec fn data_equals(a: Data, b: Data) -> bool
    decreases a, 0int,
{
    match a {
        Data::Double(x) => match b {
            Data::Double(y) => double_order(x, y) == Ordering::Equal,
            _ => false,
        },
        Data::List(xs) => match b {
            Data::List(ys) => xs.len() == ys.len() && forall|i: int|
                0 <= i < xs.len() ==> data_equals(#[trigger] xs[i], ys[i]),
            _ => false,
        },
        Data::Mapping(m) => match b {
            Data::Mapping(n) => m.len() == n.len() && covers_from(m, n, 0) && covered_from(m, n, 0),
            _ => false,
        },
        Data::Function(f, r) => match b {
            Data::Function(g, s) => f == g && match (r, s) {
                (None, None) => true,
                (Some(x), Some(y)) => data_equals(*x, *y),
                _ => false,
            },
            _ => false,
        },
        _ => a == b,
    }
}

/// Ordering of two values, or `None` where they are not ordered: values of
/// different kinds, and lists, maps, functions, types and errors.
pub open spec fn data_compare(a: Data, b: Data) -> Option<Ordering> {
    match (a, b) {
        (Data::Int(x), Data::Int(y)) => Some(int_order(x as int, y as int)),
        (Data::UInt(x), Data::UInt(y)) => Some(int_order(x as int, y as int)),
        (Data::Double(x), Data::Double(y)) => Some(double_order(x, y)),
        (Data::Bool(x), Data::Bool(y)) => Some(int_order(bool_int(x), bool_int(y))),
        (Data::Null, Data::Null) => Some(Ordering::Equal),
        (Data::String(x), Data::String(y)) => Some(
            lex_order(vstd::utf8::encode_utf8(x), vstd::utf8::encode_utf8(y)),
        ),
        (Data::Bytes(x), Data::Bytes(y)) => Some(lex_order(x, y)),
        _ => None,
    }
}

/// The error that an operation which a kind does not support yields.
pub open spec fn unsupported(t: Ty, op: Seq<char>) -> Data {
    Data::Error(None, ty_name(t) + " does not implement "@ + op)
}

/// The error that a conversion between two kinds yields.
pub open spec fn bad_conversion(from: Ty, to: Ty) -> Data {
    Data::Error(None, "type "@ + ty_name(from) + " could not be converted to "@ + ty_name(to))
}

/// Coercion to a boolean: a bool stays, an error propagates, any other
/// kind yields an error.
pub open spec fn data_to_bool(a: Data) -> Data {
    match a {
        Data::Bool(_) => a,
        Data::Error(_, _) => a,
        _ => unsupported(kind_of(a), "to_bool"@),
    }
}

/// Conversion to a kind: to its own kind a value stays, an error
/// propagates, any other conversion yields an error.
pub open spec fn data_to_type(a: Data, t: Ty) -> Data {
    if kind_of(a) == t || a is Error {
        a
    } else {
        bad_conversion(kind_of(a), t)
    }
}


/// A value: exactly one kind, with the payload of that kind.
#[derive(Debug)]
pub enum Val {
    Int(Int),
    UInt(Uint),
    Double(Double),
    Bool(Bool),
    Null(Null),
    String(CelString),
    Bytes(Bytes),
    List(Vec<Val>),
    Mapping(Mapping),
    Function(FnValue),
    Type(Ty),
    Error(Error),
}

/// The content of a list of values.
pub open(crate) spec fn list_data(v: Seq<Val>) -> Seq<Data>
    decreases v,
{
    Seq::new(v.len(), |i: int| if 0 <= i < v.len() { val_data(v[i]) } else { Data::Null })
}

/// The content of a value.
pub open(crate) spec fn val_data(v: Val) -> Data
    decreases v,
{
    match v {
        Val::Int(x) => Data::Int(x.0),
        Val::UInt(x) => Data::UInt(x.0),
        Val::Double(x) => Data::Double(x.0),
        Val::Bool(x) => Data::Bool(x.0),
        Val::Null(_) => Data::Null,
        Val::String(x) => Data::String(x.0@),
        Val::Bytes(x) => Data::Bytes(x.0@),
        Val::List(xs) => Data::List(list_data(xs@)),
        Val::Mapping(m) => Data::Mapping(
            Seq::new(
                m.entries@.len(),
                |i: int|
                    if 0 <= i < m.entries@.len() {
                        (val_data(m.entries@[i].0), val_data(m.entries@[i].1))
                    } else {
                        (Data::Null, Data::Null)
                    },
            ),
        ),
        Val::Function(f) => Data::Function(
            f.name@,
            match f.receiver {
                Some(r) => Some(Box::new(val_data(*r))),
                None => None,
            },
        ),
        Val::Type(t) => Data::Type(t),
        Val::Error(e) => Data::Error(e.id, e.message@),
    }
}

impl View for Val {
    type V = Data;

    open spec fn view(&self) -> Data {
        val_data(*self)
    }
}


/// The capability every kind of value has: its kind, equality against any
/// value, and ordering against any value. The left operand's kind decides;
/// a right operand of another kind is unequal and unordered.
pub trait Value {
    /// The content of this value.
    spec fn data(&self) -> Data;

    fn ty(&self) -> (r: Ty)
        ensures
            r == kind_of(self.data()),
    ;

    fn equals(&self, other: &Val) -> (r: bool)
        ensures
            r == data_equals(self.data(), other@),
    ;

    fn compare(&self, other: &Val) -> (r: Option<Ordering>)
        ensures
            r == data_compare(self.data(), other@),
    ;

    /// This value, as a `Val`.
    fn into_val(self) -> (r: Val)
        ensures
            r@ == self.data(),
    ;
}

pub fn int_cmp(a: i64, b: i64) -> (r: Ordering)
    ensures
        r == int_order(a as int, b as int),
{
    if a < b {
        Ordering::Less
    } else if a == b {
        Ordering::Equal
    } else {
        Ordering::Greater
    }
}

pub fn uint_cmp(a: u64, b: u64) -> (r: Ordering)
    ensures
        r == int_order(a as int, b as int),
{
    if a < b {
        Ordering::Less
    } else if a == b {
        Ordering::Equal
    } else {
        Ordering::Greater
    }
}

/// The total order on doubles given by their bit patterns.
pub fn double_cmp(a: u64, b: u64) -> (r: Ordering)
    ensures
        r == double_order(a, b),
{
    let a_nan = (a % SIGN_BIT) / FRACTION_UNIT == 0x7ff && a % FRACTION_UNIT != 0;
    let b_nan = (b % SIGN_BIT) / FRACTION_UNIT == 0x7ff && b % FRACTION_UNIT != 0;
    if a_nan && b_nan {
        Ordering::Equal
    } else if a_nan {
        Ordering::Greater
    } else if b_nan {
        Ordering::Less
    } else {
        let a_neg = a >= SIGN_BIT;
        let b_neg = b >= SIGN_BIT;
        let a_mag = a % SIGN_BIT;
        let b_mag = b % SIGN_BIT;
        if a_neg && b_neg {
            uint_cmp(b_mag, a_mag)
        } else if a_neg {
            if a_mag == 0 && b_mag == 0 {
                Ordering::Equal
            } else {
                Ordering::Less
            }
        } else if b_neg {
            if a_mag == 0 && b_mag == 0 {
                Ordering::Equal
            } else {
                Ordering::Greater
            }
        } else {
            uint_cmp(a, b)
        }
    }
}

/// Lexicographic order of two byte sequences.
pub fn lex_cmp(a: &[u8], b: &[u8]) -> (r: Ordering)
    ensures
        r == lex_order(a@, b@),
{
    let mut i: usize = 0;
    while i < a.len() && i < b.len()
        invariant
            0 <= i <= a@.len(),
            i <= b@.len(),
            lex_from(a@, b@, 0) == lex_from(a@, b@, i as int),
        decreases a@.len() - i,
    {
        if a[i] != b[i] {
            return uint_cmp(a[i] as u64, b[i] as u64);
        }
        i = i + 1;
    }
    uint_cmp(a.len() as u64, b.len() as u64)
}

/// Equality of two byte sequences.
pub fn bytes_eq(a: &[u8], b: &[u8]) -> (r: bool)
    ensures
        r == (a@ == b@),
{
    if a.len() != b.len() {
        return false;
    }
    let mut i: usize = 0;
    while i < a.len()
        invariant
            0 <= i <= a@.len(),
            a@.len() == b@.len(),
            forall|j: int| 0 <= j < i ==> a@[j] == b@[j],
        decreases a@.len() - i,
    {
        if a[i] != b[i] {
            return false;
        }
        i = i + 1;
    }
    assert(a@ =~= b@);
    true
}


pub proof fn lemma_find_get(n: Seq<(Data, Data)>, k: Data, j: int)
    requires
        0 <= j <= n.len(),
    ensures
        match data_find(n, k, j) {
            Some(i) => j <= i < n.len() && data_get(n, k, j) == Some(n[i].1),
            None => data_get(n, k, j) is None,
        },
    decreases n.len() - j,
{
    if j < n.len() {
        lemma_find_get(n, k, j + 1);
    }
}

/// The first position from `0` on whose key equals `k`, if any.
pub fn find_key(entries: &Vec<(Val, Val)>, k: &Val) -> (r: Option<usize>)
    ensures
        match r {
            Some(j) => data_find(entries_data(entries@), k@, 0) == Some(j as int),
            None => data_find(entries_data(entries@), k@, 0) is None,
        },
        match r {
            Some(j) => j < entries@.len() && data_get(entries_data(entries@), k@, 0) == Some(
                entries@[j as int].1@,
            ),
            None => data_get(entries_data(entries@), k@, 0) is None,
        },
    decreases *k, 1int,
{
    let ghost nd = entries_data(entries@);
    let mut j: usize = 0;
    while j < entries.len()
        invariant
            j <= entries@.len(),
            nd == entries_data(entries@),
            data_get(nd, k@, 0) == data_get(nd, k@, j as int),
            data_find(nd, k@, 0) == data_find(nd, k@, j as int),
        decreases entries@.len() - j,
    {
        assert(nd[j as int] == (entries@[j as int].0@, entries@[j as int].1@));
        if val_equals(k, &entries[j].0) {
            return Some(j);
        }
        j = j + 1;
    }
    None
}

/// The content of a sequence of map entries.
pub open spec fn entries_data(e: Seq<(Val, Val)>) -> Seq<(Data, Data)> {
    Seq::new(e.len(), |i: int| (e[i].0@, e[i].1@))
}

pub(crate) proof fn lemma_mapping_data(m: Mapping)
    ensures
        val_data(Val::Mapping(m)) == Data::Mapping(entries_data(m.entries@)),
{
    let d = val_data(Val::Mapping(m));
    assert(d->Mapping_0 =~= entries_data(m.entries@));
}

pub proof fn lemma_list_data(v: Seq<Val>)
    ensures
        list_data(v).len() == v.len(),
        forall|i: int| 0 <= i < v.len() ==> #[trigger] list_data(v)[i] == v[i]@,
{
}

/// Value equality, as `data_equals` states it.
pub fn val_equals(a: &Val, b: &Val) -> (r: bool)
    ensures
        r == data_equals(a@, b@),
    decreases *a, 0int,
{
    match a {
        Val::List(xs) => match b {
            Val::List(ys) => {
                proof {
                    lemma_list_data(xs@);
                    lemma_list_data(ys@);
                }
                if xs.len() != ys.len() {
                    return false;
                }
                let ghost xd = list_data(xs@);
                let ghost yd = list_data(ys@);
                let mut i: usize = 0;
                while i < xs.len()
                    invariant
                        i <= xs@.len(),
                        xs@.len() == ys@.len(),
                        xd == list_data(xs@),
                        yd == list_data(ys@),
                        *a == Val::List(*xs),
                        *b == Val::List(*ys),
                        forall|j: int| 0 <= j < i ==> data_equals(#[trigger] xd[j], yd[j]),
                    decreases xs@.len() - i,
                {
                    proof {
                        lemma_list_data(xs@);
                        lemma_list_data(ys@);
                        assert(decreases_to!(*a => (*a)->List_0));
                        assert(decreases_to!(*xs => xs@));
                        assert(decreases_to!(xs@ => xs@[i as int]));
                    }
                    if !val_equals(&xs[i], &ys[i]) {
                        assert(!data_equals(xd[i as int], yd[i as int]));
                        return false;
                    }
                    i = i + 1;
                }
                assert(data_equals(a@, b@));
                true
            },
            _ => false,
        },
        Val::Mapping(m) => mapping_equals(m, b),
        Val::Function(f) => function_equals(f, b),
        Val::Int(x) => x.equals(b),
        Val::UInt(x) => x.equals(b),
        Val::Double(x) => x.equals(b),
        Val::Bool(x) => x.equals(b),
        Val::Null(x) => x.equals(b),
        Val::String(x) => x.equals(b),
        Val::Bytes(x) => x.equals(b),
        Val::Type(x) => x.equals(b),
        Val::Error(x) => x.equals(b),
    }
}


/// Map equality, as `data_equals` states it for a map on the left.
pub fn mapping_equals(m: &Mapping, b: &Val) -> (r: bool)
    ensures
        r == data_equals(Val::Mapping(*m)@, b@),
    decreases *m, 0int,
{
    let ghost a = Val::Mapping(*m);
    match b {
        Val::Mapping(n) => {
            proof {
                lemma_mapping_data(*m);
                lemma_mapping_data(*n);
            }
            if m.entries.len() != n.entries.len() {
                return false;
            }
            let ghost md = entries_data(m.entries@);
            let ghost nd = entries_data(n.entries@);
            let len = m.entries.len();
            // Every entry of `m` has an equal entry in `n`.
            let mut i: usize = 0;
            while i < len
                invariant
                    i <= len == m.entries@.len() == n.entries@.len(),
                    md == entries_data(m.entries@),
                    nd == entries_data(n.entries@),
                    a@ == Data::Mapping(md),
                    b@ == Data::Mapping(nd),
                    a == Val::Mapping(*m),
                    *b == Val::Mapping(*n),
                    covers_from(md, nd, 0) == covers_from(md, nd, i as int),
                decreases len - i,
            {
                let mut found = false;
                let mut j: usize = 0;
                while j < len && !found
                    invariant
                        i < len == m.entries@.len() == n.entries@.len(),
                        j <= len,
                        md == entries_data(m.entries@),
                        nd == entries_data(n.entries@),
                        a == Val::Mapping(*m),
                        !found ==> matched_from(md, nd, i as int, 0) == matched_from(md, nd, i as int, j as int),
                        found ==> matched_from(md, nd, i as int, 0),
                    decreases len - j,
                {
                    assert(md[i as int] == (m.entries@[i as int].0@, m.entries@[i as int].1@));
                    assert(nd[j as int] == (n.entries@[j as int].0@, n.entries@[j as int].1@));
                    if val_equals(&m.entries[i].0, &n.entries[j].0) && val_equals(&m.entries[i].1, &n.entries[j].1) {
                        found = true;
                    }
                    j = j + 1;
                }
                if !found {
                    return false;
                }
                i = i + 1;
            }
            // Every entry of `n` has an equal entry in `m`.
            let mut j: usize = 0;
            while j < len
                invariant
                    i == len,
                    j <= len == m.entries@.len() == n.entries@.len(),
                    md == entries_data(m.entries@),
                    nd == entries_data(n.entries@),
                    a@ == Data::Mapping(md),
                    b@ == Data::Mapping(nd),
                    a == Val::Mapping(*m),
                    covers_from(md, nd, 0),
                    covered_from(md, nd, 0) == covered_from(md, nd, j as int),
                decreases len - j,
            {
                let mut found = false;
                let mut k: usize = 0;
                while k < len && !found
                    invariant
                        j < len == m.entries@.len() == n.entries@.len(),
                        k <= len,
                        md == entries_data(m.entries@),
                        nd == entries_data(n.entries@),
                        a == Val::Mapping(*m),
                        !found ==> matching_from(md, nd, j as int, 0) == matching_from(md, nd, j as int, k as int),
                        found ==> matching_from(md, nd, j as int, 0),
                    decreases len - k,
                {
                    assert(md[k as int] == (m.entries@[k as int].0@, m.entries@[k as int].1@));
                    assert(nd[j as int] == (n.entries@[j as int].0@, n.entries@[j as int].1@));
                    if val_equals(&m.entries[k].0, &n.entries[j].0) && val_equals(&m.entries[k].1, &n.entries[j].1) {
                        found = true;
                    }
                    k = k + 1;
                }
                if !found {
                    return false;
                }
                j = j + 1;
            }
            assert(md.len() == len && nd.len() == len);
            true
        },
        _ => false,
    }
}

/// Function equality, as `data_equals` states it for a function on the left.
pub fn function_equals(f: &FnValue, b: &Val) -> (r: bool)
    ensures
        r == data_equals(Val::Function(*f)@, b@),
    decreases *f, 0int,
{
    match b {
        Val::Function(g) => {
            if f.name != g.name {
                return false;
            }
            match (&f.receiver, &g.receiver) {
                (None, None) => true,
                (Some(x), Some(y)) => val_equals(x, y),
                _ => false,
            }
        },
        _ => false,
    }
}


impl Value for Val {
    open spec fn data(&self) -> Data {
        self@
    }

    fn ty(&self) -> (r: Ty) {
        match self {
            Val::Int(x) => x.ty(),
            Val::UInt(x) => x.ty(),
            Val::Double(x) => x.ty(),
            Val::Bool(x) => x.ty(),
            Val::Null(x) => x.ty(),
            Val::String(x) => x.ty(),
            Val::Bytes(x) => x.ty(),
            Val::List(_) => Ty::List,
            Val::Mapping(x) => x.ty(),
            Val::Function(x) => x.ty(),
            Val::Type(x) => x.ty(),
            Val::Error(x) => x.ty(),
        }
    }

    fn equals(&self, other: &Val) -> (r: bool) {
        val_equals(self, other)
    }

    fn compare(&self, other: &Val) -> (r: Option<Ordering>) {
        match self {
            Val::Int(x) => x.compare(other),
            Val::UInt(x) => x.compare(other),
            Val::Double(x) => x.compare(other),
            Val::Bool(x) => x.compare(other),
            Val::Null(x) => x.compare(other),
            Val::String(x) => x.compare(other),
            Val::Bytes(x) => x.compare(other),
            Val::List(_) => None,
            Val::Mapping(x) => x.compare(other),
            Val::Function(x) => x.compare(other),
            Val::Type(x) => x.compare(other),
            Val::Error(x) => x.compare(other),
        }
    }

    fn into_val(self) -> (r: Val) {
        self
    }
}

impl PartialEq for Val {
    fn eq(&self, other: &Val) -> (r: bool) {
        val_equals(self, other)
    }
}

impl vstd::std_specs::cmp::PartialEqSpecImpl for Val {
    open spec fn obeys_eq_spec() -> bool {
        true
    }

    open spec fn eq_spec(&self, other: &Val) -> bool {
        data_equals(self@, other@)
    }
}

impl Val {
    /// Wraps a value of any kind.
    pub fn new<V: Value>(v: V) -> (r: Val)
        ensures
            r@ == v.data(),
    {
        v.into_val()
    }

    pub fn new_bool(b: bool) -> (r: Val)
        ensures
            r@ == Data::Bool(b),
    {
        Val::Bool(Bool(b))
    }

    pub fn new_error(e: std::string::String) -> (r: Val)
        ensures
            r@ == Data::Error(None, e@),
    {
        Val::Error(Error { id: None, message: e })
    }

    pub fn new_string(s: &str) -> (r: Val)
        ensures
            r@ == Data::String(s@),
    {
        Val::String(CelString(std::string::String::from_str(s)))
    }

    pub fn new_null() -> (r: Val)
        ensures
            r@ == Data::Null,
    {
        Val::Null(Null {})
    }

    pub fn new_bytes(b: Vec<u8>) -> (r: Val)
        ensures
            r@ == Data::Bytes(b@),
    {
        Val::Bytes(Bytes(b))
    }

    /// A double, given by its IEEE-754 bit pattern.
    pub fn new_double(bits: u64) -> (r: Val)
        ensures
            r@ == Data::Double(bits),
    {
        Val::Double(Double(bits))
    }

    pub fn new_uint(u: u64) -> (r: Val)
        ensures
            r@ == Data::UInt(u),
    {
        Val::UInt(Uint(u))
    }

    pub fn new_int(i: i64) -> (r: Val)
        ensures
            r@ == Data::Int(i),
    {
        Val::Int(Int(i))
    }

    /// A map holding the given entries, inserted in order: of two equal
    /// keys the later one's value stays, at the earlier one's position.
    pub fn new_map(entries: Vec<(Val, Val)>) -> (r: Val)
        ensures
            r@ == Data::Mapping(insert_all(Seq::empty(), entries_data(entries@))),
            keys_unique(insert_all(Seq::empty(), entries_data(entries@))),
    {
        proof {
            lemma_insert_all_unique(Seq::empty(), entries_data(entries@));
        }
        let ghost ed = entries_data(entries@);
        let mut m = Mapping::new();
        let mut i: usize = 0;
        while i < entries.len()
            invariant
                i <= entries@.len(),
                ed == entries_data(entries@),
                entries_data(m.entries@) == insert_all(Seq::empty(), ed.subrange(0, i as int)),
            decreases entries@.len() - i,
        {
            let k = entries[i].0.duplicate();
            let v = entries[i].1.duplicate();
            proof {
                assert(ed.subrange(0, i + 1).drop_last() =~= ed.subrange(0, i as int));
            }
            m.insert(k, v);
            i = i + 1;
        }
        proof {
            assert(ed.subrange(0, i as int) =~= ed);
            lemma_mapping_data(m);
        }
        Val::Mapping(m)
    }

    /// A list holding the given items in order.
    pub fn new_list(items: Vec<Val>) -> (r: Val)
        ensures
            r@ == Data::List(list_data(items@)),
    {
        Val::List(items)
    }

    pub fn as_bool(&self) -> (r: Option<bool>)
        ensures
            r == (match self@ {
                Data::Bool(b) => Some(b),
                _ => None,
            }),
    {
        match self {
            Val::Bool(b) => Some(b.0),
            _ => None,
        }
    }

    pub fn as_int(&self) -> (r: Option<i64>)
        ensures
            r == (match self@ {
                Data::Int(i) => Some(i),
                _ => None,
            }),
    {
        match self {
            Val::Int(i) => Some(i.0),
            _ => None,
        }
    }

    /// Coercion to a boolean, as `data_to_bool` states it.
    pub fn to_bool(&self) -> (r: Val)
        ensures
            r@ == data_to_bool(self@),
    {
        match self {
            Val::Bool(b) => Val::Bool(Bool(b.0)),
            Val::Error(_) => self.duplicate(),
            _ => Error::unimplemented(self.ty(), "to_bool"),
        }
    }

    /// Conversion to a kind, as `data_to_type` states it.
    pub fn to_type(&self, ty: Ty) -> (r: Val)
        ensures
            r@ == data_to_type(self@, ty),
    {
        let own = self.ty();
        if own == ty || matches!(self, Val::Error(_)) {
            self.duplicate()
        } else {
            Error::invalid_conversion(own, ty)
        }
    }

    /// A copy of this value, with equal content.
    pub fn duplicate(&self) -> (r: Val)
        ensures
            r@ == self@,
        decreases self,
    {
        match self {
            Val::Int(x) => Val::Int(Int(x.0)),
            Val::UInt(x) => Val::UInt(Uint(x.0)),
            Val::Double(x) => Val::Double(Double(x.0)),
            Val::Bool(x) => Val::Bool(Bool(x.0)),
            Val::Null(_) => Val::Null(Null {}),
            Val::String(x) => Val::String(CelString(x.0.clone())),
            Val::Bytes(x) => {
                let mut out: Vec<u8> = Vec::new();
                let mut i: usize = 0;
                while i < x.0.len()
                    invariant
                        i <= x.0@.len(),
                        out@ == x.0@.subrange(0, i as int),
                    decreases x.0@.len() - i,
                {
                    out.push(x.0[i]);
                    i = i + 1;
                }
                assert(out@ =~= x.0@);
                Val::Bytes(Bytes(out))
            },
            Val::List(xs) => {
                let mut out: Vec<Val> = Vec::new();
                let mut i: usize = 0;
                while i < xs.len()
                    invariant
                        i <= xs@.len(),
                        *self == Val::List(*xs),
                        out@.len() == i,
                        forall|j: int| 0 <= j < i ==> #[trigger] out@[j]@ == xs@[j]@,
                    decreases xs@.len() - i,
                {
                    proof {
                        assert(decreases_to!(*self => (*self)->List_0));
                        assert(decreases_to!(*xs => xs@));
                        assert(decreases_to!(xs@ => xs@[i as int]));
                    }
                    out.push(xs[i].duplicate());
                    i = i + 1;
                }
                proof {
                    lemma_list_data(xs@);
                    lemma_list_data(out@);
                    assert(list_data(out@) =~= list_data(xs@));
                }
                Val::List(out)
            },
            Val::Mapping(m) => {
                let mut out: Vec<(Val, Val)> = Vec::new();
                let mut i: usize = 0;
                while i < m.entries.len()
                    invariant
                        i <= m.entries@.len(),
                        *self == Val::Mapping(*m),
                        out@.len() == i,
                        forall|j: int| 0 <= j < i ==> #[trigger] out@[j].0@ == m.entries@[j].0@
                            && out@[j].1@ == m.entries@[j].1@,
                    decreases m.entries@.len() - i,
                {
                    proof {
                        assert(decreases_to!(*self => (*self)->Mapping_0));
                        assert(decreases_to!(*m => m.entries));
                        assert(decreases_to!(m.entries => m.entries@));
                        assert(decreases_to!(m.entries@ => m.entries@[i as int]));
                        assert(decreases_to!(m.entries@[i as int] => m.entries@[i as int].0));
                        assert(decreases_to!(m.entries@[i as int] => m.entries@[i as int].1));
                    }
                    let k = m.entries[i].0.duplicate();
                    let v = m.entries[i].1.duplicate();
                    out.push((k, v));
                    i = i + 1;
                }
                let r = Mapping { entries: out };
                proof {
                    lemma_mapping_data(*m);
                    lemma_mapping_data(r);
                    assert(entries_data(r.entries@) =~= entries_data(m.entries@));
                }
                Val::Mapping(r)
            },
            Val::Function(f) => {
                let receiver = match &f.receiver {
                    Some(x) => Some(Box::new(x.duplicate())),
                    None => None,
                };
                Val::Function(FnValue { name: f.name.clone(), receiver })
            },
            Val::Type(t) => Val::Type(*t),
            Val::Error(e) => Val::Error(Error { id: e.id, message: e.message.clone() }),
        }
    }
}

proof fn lemma_find_none(n: Seq<(Data, Data)>, k: Data, j: int)
    requires
        0 <= j <= n.len(),
        data_find(n, k, j) is None,
    ensures
        forall|i: int| j <= i < n.len() ==> !data_equals(k, #[trigger] n[i].0),
    decreases n.len() - j,
{
    if j < n.len() {
        lemma_find_none(n, k, j + 1);
    }
}

/// Inserting into entries with unique keys keeps the keys unique.
pub proof fn lemma_insert_unique(n: Seq<(Data, Data)>, k: Data, v: Data)
    requires
        keys_unique(n),
    ensures
        keys_unique(data_insert(n, k, v)),
{
    lemma_find_get(n, k, 0);
    match data_find(n, k, 0) {
        Some(j) => {
            let m = data_insert(n, k, v);
            assert forall|a: int, b: int| 0 <= b < a < m.len() implies !data_equals(#[trigger] m[a].0, #[trigger] m[b].0) by {
                assert(m[a].0 == n[a].0 && m[b].0 == n[b].0);
            }
        },
        None => {
            lemma_find_none(n, k, 0);
            let m = data_insert(n, k, v);
            assert forall|a: int, b: int| 0 <= b < a < m.len() implies !data_equals(#[trigger] m[a].0, #[trigger] m[b].0) by {
                if a == n.len() {
                    assert(m[a].0 == k);
                    assert(m[b].0 == n[b].0);
                } else {
                    assert(m[a].0 == n[a].0 && m[b].0 == n[b].0);
                }
            }
        },
    }
}

/// Inserting pairs one by one into entries with unique keys keeps the
/// keys unique.
pub proof fn lemma_insert_all_unique(n: Seq<(Data, Data)>, items: Seq<(Data, Data)>)
    requires
        keys_unique(n),
    ensures
        keys_unique(insert_all(n, items)),
    decreases items.len(),
{
    if items.len() > 0 {
        lemma_insert_all_unique(n, items.drop_last());
        lemma_insert_unique(insert_all(n, items.drop_last()), items.last().0, items.last().1);
    }
}

/// The entries after each pair of `items` is inserted in order.
pub open spec fn insert_all(n: Seq<(Data, Data)>, items: Seq<(Data, Data)>) -> Seq<(Data, Data)>
    decreases items.len(),
{
    if items.len() == 0 {
        n
    } else {
        data_insert(insert_all(n, items.drop_last()), items.last().0, items.last().1)
    }
}

impl Mapping {
    /// The entries, in insertion order.
    pub open(crate) spec fn pairs(&self) -> Seq<(Val, Val)> {
        self.entries@
    }

    /// The empty map.
    pub fn new() -> (r: Mapping)
        ensures
            r.pairs().len() == 0,
            keys_unique(entries_data(r.pairs())),
    {
        Mapping { entries: Vec::new() }
    }

    /// Sets `k` to `v`: the value under an equal key is replaced, or the
    /// pair is added at the end.
    pub fn insert(&mut self, k: Val, v: Val)
        ensures
            entries_data(final(self).pairs()) == data_insert(
                entries_data(old(self).pairs()),
                k@,
                v@,
            ),
            keys_unique(entries_data(old(self).pairs())) ==> keys_unique(entries_data(final(self).pairs())),
    {
        proof {
            if keys_unique(entries_data(self.entries@)) {
                lemma_insert_unique(entries_data(self.entries@), k@, v@);
            }
        }
        let ghost nd = entries_data(self.entries@);
        proof {
            lemma_find_get(nd, k@, 0);
        }
        match find_key(&self.entries, &k) {
            Some(j) => {
                assert(data_find(nd, k@, 0) == Some(j as int));
                let old_key = self.entries[j].0.duplicate();
                self.entries.set(j, (old_key, v));
                proof {
                    assert(entries_data(self.entries@) =~= nd.update(j as int, (nd[j as int].0, v@)));
                }
            },
            None => {
                assert(data_find(nd, k@, 0) is None);
                self.entries.push((k, v));
                proof {
                    assert(entries_data(self.entries@) =~= nd.push((k@, v@)));
                }
            },
        }
    }

    /// The value stored under a key equal to `k`, if any.
    pub fn get(&self, k: &Val) -> (r: Option<&Val>)
        ensures
            match data_get(entries_data(self.pairs()), k@, 0) {
                Some(v) => r is Some && r->0@ == v,
                None => r is None,
            },
    {
        match find_key(&self.entries, k) {
            Some(j) => Some(&self.entries[j].1),
            None => None,
        }
    }

    /// Whether a key equal to `k` is stored.
    pub fn contains_key(&self, k: &Val) -> (r: bool)
        ensures
            r == data_get(entries_data(self.pairs()), k@, 0) is Some,
    {
        proof {
            lemma_find_get(entries_data(self.entries@), k@, 0);
        }
        find_key(&self.entries, k).is_some()
    }
}

impl Error {
    /// An error value with the given message and no id.
    pub fn new(error: std::string::String) -> (r: Val)
        ensures
            r@ == Data::Error(None, error@),
    {
        Val::Error(Error { id: None, message: error })
    }

    /// The error for an operation that a kind does not support.
    pub fn unimplemented(ty: Ty, f: &str) -> (r: Val)
        ensures
            r@ == unsupported(ty, f@),
    {
        let mut m = ty.to_string();
        m.append(" does not implement ");
        m.append(f);
        Error::new(m)
    }

    /// The error for a conversion between two kinds.
    pub fn invalid_conversion(from_ty: Ty, to_ty: Ty) -> (r: Val)
        ensures
            r@ == bad_conversion(from_ty, to_ty),
    {
        let mut m = std::string::String::from_str("type ");
        let from = from_ty.to_string();
        let to = to_ty.to_string();
        m.append(from.as_str());
        m.append(" could not be converted to ");
        m.append(to.as_str());
        Error::new(m)
    }
}

} // verus!
