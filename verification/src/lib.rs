//! Migration planning, schema diffing and statement metadata for the Toasty ORM.

pub mod cli;
pub mod driver;
pub mod dynamodb;
pub mod engine;
pub mod error;
pub mod macros;
pub mod migrate;
pub mod migrator;
pub mod schema;
pub mod stmt;
pub mod text;
