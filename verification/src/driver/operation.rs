use crate::schema::db::{ColumnId, TableId};
use crate::stmt::{Expr, Value};
use vstd::prelude::*;

verus! {

/// One column assignment of an update.
#[derive(Debug)]
pub struct Assignment {
    /// The position of the assigned column in its table.
    pub column: usize,
    /// The value assigned.
    pub value: Expr,
}

/// Values returned by a key-value update.
#[derive(Debug, Clone)]
pub enum UpdateReturning {
    /// Return post-update column values.
    New(Vec<ColumnId>),
    /// Return pre-update column values.
    Old(Vec<ColumnId>),
}

/// Updates one or more records identified by primary key.
#[derive(Debug)]
pub struct UpdateByKey {
    /// The table to update.
    pub table: TableId,
    /// Primary key values identifying the records to update.
    pub keys: Vec<Value>,
    /// Column assignments describing how to modify the records.
    pub assignments: Vec<Assignment>,
    /// Optional filter: only records that match it are updated.
    pub filter: Option<Expr>,
    /// Optional precondition that must hold for the update to be applied.
    pub condition: Option<Expr>,
    /// The columns to return for each updated row; `None` returns the
    /// affected-row count.
    pub returning: Option<UpdateReturning>,
}

/// Deletes one or more records identified by primary key.
#[derive(Debug)]
pub struct DeleteByKey {
    /// The table to delete from.
    pub table: TableId,
    /// Primary key values identifying the records to delete.
    pub keys: Vec<Value>,
    /// Optional filter: only records that match it are deleted.
    pub filter: Option<Expr>,
    /// Optional precondition that must hold for the delete to be applied.
    pub condition: Option<Expr>,
}

/// An operation for a driver.
#[derive(Debug)]
pub enum Operation {
    UpdateByKey(UpdateByKey),
    DeleteByKey(DeleteByKey),
}

impl UpdateReturning {
    /// Columns to return, in result order.
    pub fn columns(&self) -> (r: &[ColumnId])
        ensures
            match *self {
                UpdateReturning::New(c) => r@ == c@,
                UpdateReturning::Old(c) => r@ == c@,
            },
    {
        match self {
            UpdateReturning::New(columns) => columns.as_slice(),
            UpdateReturning::Old(columns) => columns.as_slice(),
        }
    }

    /// Returns `true` for pre-update values.
    pub fn is_old(&self) -> (r: bool)
        ensures
            r == (*self is Old),
    {
        matches!(self, UpdateReturning::Old(_))
    }
}

impl From<UpdateByKey> for Operation {
    fn from(value: UpdateByKey) -> (r: Operation) {
        Operation::UpdateByKey(value)
    }
}

impl vstd::std_specs::convert::FromSpecImpl<UpdateByKey> for Operation {
    open spec fn obeys_from_spec() -> bool {
        true
    }

    open spec fn from_spec(v: UpdateByKey) -> Operation {
        Operation::UpdateByKey(v)
    }
}

} // verus!
