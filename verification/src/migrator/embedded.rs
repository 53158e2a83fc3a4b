use super::{unapplied, unapplied_upto};
use vstd::prelude::*;

verus! {

/// A single migration embedded into the binary at compile time.
pub struct EmbeddedMigration {
    /// Unique identifier sourced from `history.toml`.
    pub id: u64,
    /// File name of this migration (e.g. `"0001_migration.sql"`).
    pub name: &'static str,
    /// SQL content embedded at compile time.
    pub sql: &'static str,
}

/// A set of migrations embedded at compile time, ready to apply to a
/// database.
pub struct Migrator {
    migrations: &'static [EmbeddedMigration],
}

/// The IDs of a list of embedded migrations.
pub open spec fn ids_of(ms: Seq<EmbeddedMigration>) -> Seq<u64> {
    ms.map_values(|m: EmbeddedMigration| m.id)
}

/// Collects the IDs of `ms`.
fn collect_ids(ms: &[EmbeddedMigration]) -> (r: Vec<u64>)
    ensures
        r@ == ids_of(ms@),
{
    let mut out: Vec<u64> = Vec::new();
    let mut i: usize = 0;
    while i < ms.len()
        invariant
            i <= ms@.len(),
            out@ == ids_of(ms@).take(i as int),
        decreases ms@.len() - i,
    {
        out.push(ms[i].id);
        assert(ids_of(ms@).take(i + 1) =~= ids_of(ms@).take(i as int).push(ms@[i as int].id));
        i = i + 1;
    }
    assert(ids_of(ms@).take(ms@.len() as int) =~= ids_of(ms@));
    out
}

impl Migrator {
    pub closed spec fn spec_migrations(&self) -> Seq<EmbeddedMigration> {
        self.migrations@
    }

    /// Creates a migrator over a static slice of embedded migrations.
    pub fn new(migrations: &'static [EmbeddedMigration]) -> (r: Self)
        ensures
            r.spec_migrations() == migrations@,
    {
        Migrator { migrations }
    }

    /// The positions of the migrations to apply to a database with the
    /// `applied` IDs, in order: those whose IDs it lacks.
    pub fn pending(&self, applied: &Vec<u64>) -> (r: Vec<usize>)
        ensures
            r@ == unapplied_upto(ids_of(self.spec_migrations()), applied@, self.spec_migrations().len() as int),
    {
        let ids = collect_ids(self.migrations);
        unapplied(&ids, applied)
    }
}

} // verus!
