//! Migration configuration and the files that record migrations.

pub mod config;

pub use crate::cli::snapshot_file::SnapshotFile;
pub use crate::schema::db::history_file::{HistoryFile, HistoryFileMigration};
pub use config::{Config, MigrationConfig, MigrationPrefixStyle};
