//! The decisions of the migration command line tool: snapshot files, rename
//! prompts and the generate, apply and drop commands.

pub mod snapshot_file;

pub use snapshot_file::{
    SnapshotFile, StoredColumnRename, StoredIndexRename, StoredRenameHints, StoredTableRename,
};
pub mod rename_session;
pub mod commands;

pub use commands::{ApplyCommand, DropCommand, GenerateCommand};
pub mod toml_layout;
