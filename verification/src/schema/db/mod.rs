//! The database-level schema: tables, columns, indices and the tools that
//! compare two schemas.

pub mod diff;
pub mod history_file;
pub mod migration;
pub mod rename_hints;
pub mod table;

pub use table::{
    Column, ColumnId, Index, IndexColumn, IndexId, IndexOp, IndexScope, PrimaryKey, Schema,
    Table, TableId, Type,
};
pub use rename_hints::RenameHints;
pub use diff::{ColumnsDiffItem, IndicesDiffItem, SchemaDiff, TablesDiffItem};
pub use history_file::{HistoryFile, HistoryFileMigration};
pub use migration::{AppliedMigration, Migration};
