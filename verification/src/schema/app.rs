use vstd::prelude::*;

verus! {

/// Identifies an application model.
#[derive(Clone, Copy, Debug, PartialEq, Eq, Hash, Structural)]
pub struct ModelId(pub usize);

} // verus!
