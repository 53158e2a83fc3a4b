//! Operations that the engine hands to database drivers.

pub mod operation;

pub use operation::{DeleteByKey, Operation, UpdateByKey, UpdateReturning};
