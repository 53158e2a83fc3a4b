use super::expr::Expr;
use crate::schema::app::ModelId;
use crate::schema::db::TableId;
use vstd::prelude::*;

verus! {

/// Identifies the model or table belonging to an [`ExprRow`].
#[derive(Clone, Copy, Debug, PartialEq, Eq, Hash, Structural)]
pub enum ExprRowTarget {
    /// An application model before lowering.
    Model(ModelId),
    /// A database table after lowering.
    Table(TableId),
}

/// A qualified row made available to an expression by the surrounding
/// statement.
#[derive(Clone, Copy, Debug, PartialEq, Eq, Structural)]
pub enum ExprRow {
    /// The row proposed by an upsert's create branch.
    Incoming(ExprRowTarget),
    /// The row before an update.
    Old(ExprRowTarget),
}

impl ExprRow {
    /// Creates an application-model row proposed by an upsert.
    pub fn incoming_model(model: ModelId) -> (r: Self)
        ensures
            r == ExprRow::Incoming(ExprRowTarget::Model(model)),
    {
        ExprRow::Incoming(ExprRowTarget::Model(model))
    }

    /// Creates a database-table row proposed by an upsert.
    pub fn incoming_table(table: TableId) -> (r: Self)
        ensures
            r == ExprRow::Incoming(ExprRowTarget::Table(table)),
    {
        ExprRow::Incoming(ExprRowTarget::Table(table))
    }

    /// Creates an application-model row as it was before an update.
    pub fn old_model(model: ModelId) -> (r: Self)
        ensures
            r == ExprRow::Old(ExprRowTarget::Model(model)),
    {
        ExprRow::Old(ExprRowTarget::Model(model))
    }

    /// Creates a database-table row as it was before an update.
    pub fn old_table(table: TableId) -> (r: Self)
        ensures
            r == ExprRow::Old(ExprRowTarget::Table(table)),
    {
        ExprRow::Old(ExprRowTarget::Table(table))
    }

    /// Returns the model or table belonging to this row.
    pub fn target(&self) -> (r: ExprRowTarget)
        ensures
            match *self {
                ExprRow::Incoming(t) => r == t,
                ExprRow::Old(t) => r == t,
            },
    {
        match self {
            ExprRow::Incoming(target) => *target,
            ExprRow::Old(target) => *target,
        }
    }
}

impl From<ExprRow> for Expr {
    fn from(value: ExprRow) -> (r: Expr) {
        Expr::Row(value)
    }
}

impl vstd::std_specs::convert::FromSpecImpl<ExprRow> for Expr {
    open spec fn obeys_from_spec() -> bool {
        true
    }

    open spec fn from_spec(v: ExprRow) -> Expr {
        Expr::Row(v)
    }
}

} // verus!
