//! Statement-level types: values, expressions and returning clauses.

pub mod expr;
pub mod expr_mutation;
pub mod expr_row;
pub mod ty;
pub mod value;

pub use expr::{BinaryOp, Expr, ExprReference};
pub use expr_mutation::{ExprMutation, MutationImage};
pub use expr_row::{ExprRow, ExprRowTarget};
pub use ty::Type;
pub use value::Value;
pub mod returning;

pub use returning::{Include, Returning, ReturningCardinality, ReturningExpr, RowImage};
pub mod statement;

pub use statement::{Delete, ExprSet, Insert, Query, Select, Statement, Update, Values};
pub mod eval;
