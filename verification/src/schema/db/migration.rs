use vstd::prelude::*;

verus! {

/// A database migration generated from a schema diff by a driver.
///
/// Currently only SQL migrations are supported.
pub enum Migration {
    /// A SQL migration containing one or more statements.
    Sql(Vec<String>),
}

impl Migration {
    /// Creates a SQL migration from a list of SQL statements.
    pub fn new_sql(statements: Vec<String>) -> (r: Self)
        ensures
            r == Migration::Sql(statements),
    {
        Migration::Sql(statements)
    }

    /// Returns the individual SQL statements in this migration.
    pub fn statements(&self) -> (r: &[String])
        ensures
            match *self {
                Migration::Sql(stmts) => r@ == stmts@,
            },
    {
        match self {
            Migration::Sql(stmts) => stmts.as_slice(),
        }
    }
}

/// Metadata about a migration that has already been applied to a database.
pub struct AppliedMigration {
    id: u64,
}

impl AppliedMigration {
    pub closed spec fn spec_id(&self) -> u64 {
        self.id
    }

    /// Creates a new `AppliedMigration` with the given ID.
    pub fn new(id: u64) -> (r: Self)
        ensures
            r.spec_id() == id,
    {
        AppliedMigration { id }
    }

    /// Returns the migration's unique ID.
    pub fn id(&self) -> (r: u64)
        ensures
            r == self.spec_id(),
    {
        self.id
    }
}

} // verus!
