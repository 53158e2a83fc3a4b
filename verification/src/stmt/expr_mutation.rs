use super::expr::Expr;
use crate::schema::app::ModelId;
use crate::schema::db::TableId;
use vstd::prelude::*;

verus! {

/// Identifies a row image produced by an update.
#[derive(Clone, Copy, Debug, PartialEq, Eq, Hash, Structural)]
pub enum MutationImage {
    /// The row before the update.
    Old,
    /// The row after the update.
    New,
}

/// An update row available to a returning expression.
#[derive(Clone, Copy, Debug, PartialEq, Eq, Structural)]
pub enum ExprMutation {
    /// An application-model row before lowering.
    Model {
        /// The model being updated.
        model: ModelId,
        /// The requested row image.
        image: MutationImage,
    },
    /// A database-table row after lowering.
    Table {
        /// The table being updated.
        table: TableId,
        /// The requested row image.
        image: MutationImage,
    },
}

impl ExprMutation {
    /// Creates an old application-model row.
    pub fn old_model(model: ModelId) -> (r: Self)
        ensures
            r == (ExprMutation::Model { model, image: MutationImage::Old }),
    {
        ExprMutation::Model { model, image: MutationImage::Old }
    }

    /// Creates a new application-model row.
    pub fn new_model(model: ModelId) -> (r: Self)
        ensures
            r == (ExprMutation::Model { model, image: MutationImage::New }),
    {
        ExprMutation::Model { model, image: MutationImage::New }
    }

    /// Creates an old database-table row.
    pub fn old_table(table: TableId) -> (r: Self)
        ensures
            r == (ExprMutation::Table { table, image: MutationImage::Old }),
    {
        ExprMutation::Table { table, image: MutationImage::Old }
    }

    /// Creates a new database-table row.
    pub fn new_table(table: TableId) -> (r: Self)
        ensures
            r == (ExprMutation::Table { table, image: MutationImage::New }),
    {
        ExprMutation::Table { table, image: MutationImage::New }
    }

    /// Returns the selected row image.
    pub fn image(&self) -> (r: MutationImage)
        ensures
            match *self {
                ExprMutation::Model { image, .. } => r == image,
                ExprMutation::Table { image, .. } => r == image,
            },
    {
        match self {
            ExprMutation::Model { image, .. } => *image,
            ExprMutation::Table { image, .. } => *image,
        }
    }
}

impl From<ExprMutation> for Expr {
    fn from(value: ExprMutation) -> (r: Expr) {
        Expr::Mutation(value)
    }
}

impl vstd::std_specs::convert::FromSpecImpl<ExprMutation> for Expr {
    open spec fn obeys_from_spec() -> bool {
        true
    }

    open spec fn from_spec(v: ExprMutation) -> Expr {
        Expr::Mutation(v)
    }
}

} // verus!
