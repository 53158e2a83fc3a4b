use super::snapshot_file::{SnapshotFile, StoredRenameHints};
use crate::error::Error;
use crate::schema::db::diff::SchemaDiff;
use crate::schema::db::diff::{is_first, lemma_first_match_some};
use crate::schema::db::history_file::{first_segment, name_number, spec_next_number, HistoryFile, HistoryFileMigration};
use crate::schema::db::Schema;
use crate::migrator::unapplied_upto;
use crate::text::{decimal_padded, is_digit, lemma_padded_decimal_value, pad_left, spec_decimal};
use rand::Rng;
use vstd::prelude::*;

verus! {

/// A uniformly random integer in `low..high`, from the thread-local
/// generator of `rand`.
///
/// Calls `rand::thread_rng().gen_range(low..high)`; `rand` documents that the
/// result lies in the half-open range and that an empty range panics, which
/// `requires` rules out. Which value comes back is chance.
#[verifier::external_body]
fn random_in_range(low: i64, high: i64) -> (r: i64)
    requires
        low < high,
    ensures
        low <= r < high,
{
    rand::thread_rng().gen_range(low..high)
}

/// Generates a new migration from the difference between the last snapshot
/// and the current schema.
pub struct GenerateCommand {
    /// Name for the migration.
    pub name: Option<String>,
}

/// Drops a migration from the history.
pub struct DropCommand {
    /// Snapshot name of the migration to drop (if not provided, the user is
    /// asked).
    pub name: Option<String>,
    /// Drop the latest migration.
    pub latest: bool,
}

/// Applies the pending migrations to the database.
pub struct ApplyCommand {}

/// The number of a migration, zero-padded to four digits.
pub open spec fn padded_number(n: u32) -> Seq<char> {
    pad_left(spec_decimal(n as nat), 4, '0')
}

/// The history name of migration `n`: the given name, or a numbered default.
pub open spec fn migration_name(name: Option<String>, n: u32) -> Seq<char> {
    match name {
        Some(s) => s@,
        None => padded_number(n) + "_migration.sql"@,
    }
}

/// The snapshot file name of migration `n`.
pub open spec fn snapshot_name(name: Option<String>, n: u32) -> Seq<char> {
    match name {
        Some(s) => padded_number(n) + "_"@ + s@ + "_snapshot.toml"@,
        None => padded_number(n) + "_snapshot.toml"@,
    }
}

/// `after` is `before` with one more migration: number `n` (the next one
/// after `before`), named after `name`, with ID `id` and no checksum; `g`
/// holds its snapshot name and a snapshot of `schema` that keeps `stored`
/// only when it holds some hint.
pub open spec fn records_migration(
    name: Option<String>,
    before: HistoryFile,
    after: HistoryFile,
    schema: Schema,
    stored: StoredRenameHints,
    id: u64,
    g: GeneratedMigration,
) -> bool {
    let n = spec_next_number(before.spec_migrations()) as u32;
    let entry = after.spec_migrations().last();
    &&& after.spec_migrations().len() == before.spec_migrations().len() + 1
    &&& after.spec_migrations().drop_last() == before.spec_migrations()
    &&& after.spec_version() == before.spec_version()
    &&& entry.id == id
    &&& entry.name@ == migration_name(name, n)
    &&& entry.snapshot_name@ == snapshot_name(name, n)
    &&& entry.checksum is None
    &&& g.snapshot_name@ == entry.snapshot_name@
    &&& g.snapshot.spec_schema() == schema
    &&& g.snapshot.spec_version() == crate::cli::snapshot_file::SNAPSHOT_FILE_VERSION
    &&& g.snapshot.spec_rename_hints() == (if stored.tables@.len() == 0 && stored.columns@.len() == 0
        && stored.indices@.len() == 0 {
        None
    } else {
        Some(stored)
    })
}

/// What the generate command produces: the snapshot to write and its file
/// name.
pub struct GeneratedMigration {
    pub snapshot_name: String,
    pub snapshot: SnapshotFile,
}

impl GenerateCommand {
    /// The history and snapshot names of migration number `number`.
    pub fn names(&self, number: u32) -> (r: (String, String))
        ensures
            r.0@ == migration_name(self.name, number),
            r.1@ == snapshot_name(self.name, number),
    {
        let num = decimal_padded(number as u64, 4);
        match &self.name {
            Some(n) => {
                let mut snap = num.clone();
                snap.append("_");
                snap.append(n.as_str());
                snap.append("_snapshot.toml");
                (n.clone(), snap)
            },
            None => {
                let mut name = num.clone();
                name.append("_migration.sql");
                let mut snap = num;
                snap.append("_snapshot.toml");
                (name, snap)
            },
        }
    }

    /// Records a new migration in `history` when `diff` is not empty: the
    /// next number, the names, the given `id`, and a snapshot of `schema`
    /// that keeps `stored` hints only when there are some. Returns `None`,
    /// changing nothing, when the schema matches the previous snapshot.
    pub fn generate(
        &self,
        history: &mut HistoryFile,
        diff: &SchemaDiff,
        schema: Schema,
        stored: StoredRenameHints,
        id: u64,
    ) -> (r: Option<GeneratedMigration>)
        requires
            old(history).spec_migrations().len() > 0 ==> name_number(
                old(history).spec_migrations().last().name@,
            ) != Some(u32::MAX),
        ensures
            diff.items().len() == 0 <==> r is None,
            r is None ==> *final(history) == *old(history),
            r matches Some(g) ==> records_migration(self.name, *old(history), *final(history), schema, stored, id, g),
    {
        if diff.is_empty() {
            return None;
        }
        let number = history.next_migration_number();
        let (name, snap_name) = self.names(number);
        let snapshot = if stored.is_empty() {
            SnapshotFile::new(schema)
        } else {
            SnapshotFile::with_rename_hints(schema, stored)
        };
        let entry = HistoryFileMigration { id, name, snapshot_name: snap_name.clone(), checksum: None };
        let ghost before = history.spec_migrations();
        history.add_migration(entry);
        assert(history.spec_migrations().drop_last() =~= before);
        Some(GeneratedMigration { snapshot_name: snap_name, snapshot })
    }

    /// Like [`GenerateCommand::generate`], with a fresh random migration ID
    /// below `i64::MAX` (some databases only support signed 64-bit integers).
    pub fn generate_with_random_id(
        &self,
        history: &mut HistoryFile,
        diff: &SchemaDiff,
        schema: Schema,
        stored: StoredRenameHints,
    ) -> (r: Option<GeneratedMigration>)
        requires
            old(history).spec_migrations().len() > 0 ==> name_number(
                old(history).spec_migrations().last().name@,
            ) != Some(u32::MAX),
        ensures
            diff.items().len() == 0 <==> r is None,
            r is None ==> *final(history) == *old(history),
            r matches Some(g) ==> {
                let id = final(history).spec_migrations().last().id;
                &&& id < i64::MAX
                &&& records_migration(self.name, *old(history), *final(history), schema, stored, id, g)
            },
    {
        let id = random_in_range(0, i64::MAX);
        self.generate(history, diff, schema, stored, id as u64)
    }
}

/// Which migration the drop command removes.
pub enum DropTarget {
    /// The migration at this position of the history.
    Index(usize),
    /// The user has to pick one.
    Ask,
}

/// The position of the first migration of `ms` with snapshot name `name`.
pub open spec fn is_first_snapshot(ms: Seq<HistoryFileMigration>, name: Seq<char>, i: int) -> bool {
    &&& 0 <= i < ms.len()
    &&& ms[i].snapshot_name@ == name
    &&& forall|k: int| 0 <= k < i ==> ms[k].snapshot_name@ != name
}

impl DropCommand {
    /// Decides which migration to drop: none when the history is empty, the
    /// last one when `latest` is set, else the first with the given snapshot
    /// name, else the user's choice.
    pub fn target(&self, history: &HistoryFile) -> (r: Result<DropTarget, Error>)
        ensures
            history.spec_migrations().len() == 0 ==> (r matches Err(e) && e.spec_display()
                == "No migrations found in history"@),
            history.spec_migrations().len() > 0 && self.latest ==> (r matches Ok(DropTarget::Index(i))
                && i == history.spec_migrations().len() - 1),
            history.spec_migrations().len() > 0 && !self.latest && self.name is Some ==> match r {
                Ok(DropTarget::Index(i)) => is_first_snapshot(history.spec_migrations(), self.name->0@, i as int),
                Ok(DropTarget::Ask) => false,
                Err(e) => e.spec_display() == ("Migration '"@ + self.name->0@ + "' not found"@)
                    && forall|k: int| 0 <= k < history.spec_migrations().len()
                        ==> history.spec_migrations()[k].snapshot_name@ != self.name->0@,
            },
            history.spec_migrations().len() > 0 && !self.latest && self.name is None ==> (r matches Ok(DropTarget::Ask)),
    {
        let ms = history.migrations();
        if ms.len() == 0 {
            return Err(Error::msg("No migrations found in history".to_owned()));
        }
        if self.latest {
            return Ok(DropTarget::Index(ms.len() - 1));
        }
        match &self.name {
            Some(name) => {
                let mut i: usize = 0;
                while i < ms.len()
                    invariant
                        ms@ == history.spec_migrations(),
                        ms@.len() > 0,
                        !self.latest,
                        self.name matches Some(n) && n@ == name@,
                        i <= ms@.len(),
                        forall|k: int| 0 <= k < i ==> ms@[k].snapshot_name@ != name@,
                    decreases ms@.len() - i,
                {
                    if ms[i].snapshot_name.eq(name) {
                        return Ok(DropTarget::Index(i));
                    }
                    i = i + 1;
                }
                let mut message = "Migration '".to_owned();
                message.append(name.as_str());
                message.append("' not found");
                Err(Error::msg(message))
            },
            None => Ok(DropTarget::Ask),
        }
    }

    /// Removes migration `index` from `history`, returning its snapshot name
    /// (the snapshot file to delete).
    pub fn drop_migration(history: &mut HistoryFile, index: usize) -> (r: String)
        requires
            index < old(history).spec_migrations().len(),
        ensures
            r@ == old(history).spec_migrations()[index as int].snapshot_name@,
            final(history).spec_migrations() == old(history).spec_migrations().remove(index as int),
            final(history).spec_version() == old(history).spec_version(),
    {
        let name = history.migrations()[index].snapshot_name.clone();
        history.remove_migration(index);
        name
    }
}

/// The IDs of a list of history entries.
pub open spec fn history_ids(ms: Seq<HistoryFileMigration>) -> Seq<u64> {
    ms.map_values(|m: HistoryFileMigration| m.id)
}

/// Whether `applied` contains `id`.
pub fn contains_id(applied: &Vec<u64>, id: u64) -> (r: bool)
    ensures
        r == applied@.contains(id),
{
    let mut i: usize = 0;
    while i < applied.len()
        invariant
            i <= applied@.len(),
            forall|k: int| 0 <= k < i ==> applied@[k] != id,
        decreases applied@.len() - i,
    {
        if applied[i] == id {
            assert(applied@[i as int] == id);
            return true;
        }
        i = i + 1;
    }
    false
}

impl ApplyCommand {
    /// The positions in `history` of the migrations that have not been
    /// applied yet, in history order.
    pub fn pending_indices(history: &HistoryFile, applied: &Vec<u64>) -> (r: Vec<usize>)
        ensures
            r@ == unapplied_upto(
                history_ids(history.spec_migrations()),
                applied@,
                history.spec_migrations().len() as int,
            ),
    {
        let ms = history.migrations();
        let mut out: Vec<usize> = Vec::new();
        let mut i: usize = 0;
        while i < ms.len()
            invariant
                ms@ == history.spec_migrations(),
                i <= ms@.len(),
                out@ == unapplied_upto(history_ids(ms@), applied@, i as int),
            decreases ms@.len() - i,
        {
            assert(history_ids(ms@)[i as int] == ms@[i as int].id);
            if !contains_id(applied, ms[i].id) {
                out.push(i);
            }
            i = i + 1;
        }
        out
    }

    /// The position of the migration whose snapshot is the starting point
    /// of migration `index`: the one before it, if any.
    pub fn previous_index(index: usize) -> (r: Option<usize>)
        ensures
            index == 0 ==> r is None,
            index > 0 ==> r == Some((index - 1) as usize),
    {
        if index == 0 {
            None
        } else {
            Some(index - 1)
        }
    }
}

/// A migration recorded under its default name reads back as number `n`, so
/// the next migration generated after it gets number `n + 1`.
pub proof fn law_default_names_count_up(ms: Seq<HistoryFileMigration>, m: HistoryFileMigration, n: u32)
    requires
        m.name@ == migration_name(None, n),
    ensures
        name_number(m.name@) == Some(n),
        spec_next_number(ms.push(m)) == n + 1,
{
    let p = padded_number(n);
    let name = m.name@;
    reveal_strlit("_migration.sql");
    lemma_padded_decimal_value(n as nat, 4);
    assert(name == p + "_migration.sql"@);
    let under = |c: char| c == '_';
    assert forall|k: int| 0 <= k < p.len() implies !under(#[trigger] name[k]) by {
        assert(name[k] == p[k]);
        assert(is_digit(p[k]));
    }
    assert(name[p.len() as int] == '_');
    assert(is_first(name, under, p.len() as int));
    lemma_first_match_some(name, under, p.len() as int);
    assert(name.take(p.len() as int) =~= p);
    assert(first_segment(name) == p);
    assert(is_digit(p[0]));
    assert(ms.push(m).last() == m);
}

} // verus!
