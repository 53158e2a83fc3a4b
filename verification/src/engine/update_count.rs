use crate::error::{Error, ErrorKind};
use crate::stmt::{Type, Value};
use vstd::prelude::*;

verus! {

/// Loader used by generated update builders when composed into a batch.
pub struct UpdateCount;

/// What loading a `u64` from `v` gives: the number, or a type error.
pub open spec fn spec_load_u64(v: Value) -> Option<u64> {
    match v {
        Value::U64(n) => Some(n),
        _ => None,
    }
}

/// What loading an update count from `v` gives: zero for an empty list, the
/// single element of a one-element list, else `v` itself read as a `u64`.
pub open spec fn spec_load_count(v: Value) -> Option<u64> {
    match v {
        Value::List(vs) => if vs@.len() == 0 {
            Some(0)
        } else if vs@.len() == 1 {
            spec_load_u64(vs@[0])
        } else {
            None
        },
        _ => spec_load_u64(v),
    }
}

/// Reads a `u64`.
pub fn load_u64(value: Value) -> (r: Result<u64, Error>)
    ensures
        match spec_load_u64(value) {
            Some(n) => r == Ok::<u64, Error>(n),
            None => r matches Err(e) && e.spec_kind() matches ErrorKind::TypeConversion(m) && m@ == "expected a u64"@,
        },
{
    match value {
        Value::U64(n) => Ok(n),
        _ => Err(Error::type_conversion("expected a u64")),
    }
}

impl UpdateCount {
    /// The type an update count is loaded from.
    pub fn ty() -> (r: Type)
        ensures
            r == Type::U64,
    {
        Type::U64
    }

    /// Loads an update count.
    pub fn load(value: Value) -> (r: Result<u64, Error>)
        ensures
            match spec_load_count(value) {
                Some(n) => r == Ok::<u64, Error>(n),
                None => r matches Err(e) && e.spec_kind() matches ErrorKind::TypeConversion(m) && m@ == "expected a u64"@,
            },
    {
        match value {
            Value::List(mut values) => {
                if values.len() == 0 {
                    Ok(0)
                } else if values.len() == 1 {
                    let ghost vs = values@;
                    let v = values.pop().unwrap();
                    assert(v == vs[0]);
                    load_u64(v)
                } else {
                    Err(Error::type_conversion("expected a u64"))
                }
            },
            value => load_u64(value),
        }
    }
}

} // verus!
