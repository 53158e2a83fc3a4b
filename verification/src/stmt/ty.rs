use vstd::prelude::*;

verus! {

/// The application-level type of a value.
#[derive(Clone, Copy, Debug, PartialEq, Eq, Structural)]
pub enum Type {
    /// A boolean.
    Bool,
    /// A signed 64-bit integer.
    I64,
    /// An unsigned 64-bit integer.
    U64,
    /// A string.
    String,
    /// A byte string.
    Bytes,
    /// A UUID.
    Uuid,
}

} // verus!
