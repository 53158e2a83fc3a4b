//! Parts of the query engine: the update-count loader and the operation that
//! narrows update-returning rows to one.

pub mod return_first;
pub mod update_count;

pub use update_count::UpdateCount;
