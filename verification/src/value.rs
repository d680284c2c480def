//! Plain values carried by records and query arguments.

use vstd::prelude::*;

verus! {

/// A value as the backend returns and accepts it. `Null` doubles as the
/// provisional value of a backend-autogenerated key that is not yet known.
#[derive(Debug)]
pub enum PrismaValue {
    Null,
    Boolean(bool),
    Int(i64),
    Text(String),
}

/// Equality of two values by content.
pub open spec fn value_matches(a: PrismaValue, b: PrismaValue) -> bool {
    match (a, b) {
        (PrismaValue::Null, PrismaValue::Null) => true,
        (PrismaValue::Boolean(x), PrismaValue::Boolean(y)) => x == y,
        (PrismaValue::Int(x), PrismaValue::Int(y)) => x == y,
        (PrismaValue::Text(x), PrismaValue::Text(y)) => x@ == y@,
        _ => false,
    }
}

impl Clone for PrismaValue {
    fn clone(&self) -> (r: Self)
        ensures
            r == *self,
    {
        match self {
            PrismaValue::Null => PrismaValue::Null,
            PrismaValue::Boolean(b) => PrismaValue::Boolean(*b),
            PrismaValue::Int(i) => PrismaValue::Int(*i),
            PrismaValue::Text(s) => PrismaValue::Text(s.clone()),
        }
    }
}

impl PrismaValue {
    /// True exactly on the `Null` variant.
    pub fn is_null(&self) -> (r: bool)
        ensures
            r == (self is Null),
    {
        match self {
            PrismaValue::Null => true,
            _ => false,
        }
    }
}

impl PartialEq for PrismaValue {
    fn eq(&self, other: &PrismaValue) -> (r: bool) {
        match (self, other) {
            (PrismaValue::Null, PrismaValue::Null) => true,
            (PrismaValue::Boolean(a), PrismaValue::Boolean(b)) => a == b,
            (PrismaValue::Int(a), PrismaValue::Int(b)) => a == b,
            (PrismaValue::Text(a), PrismaValue::Text(b)) => a.eq(b),
            _ => false,
        }
    }
}

impl Eq for PrismaValue {}

impl vstd::std_specs::cmp::PartialEqSpecImpl for PrismaValue {
    open spec fn obeys_eq_spec() -> bool {
        true
    }

    open spec fn eq_spec(&self, other: &PrismaValue) -> bool {
        value_matches(*self, *other)
    }
}

} // verus!
