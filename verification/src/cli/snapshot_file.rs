use crate::error::Error;
use crate::schema::db::diff::{law_diff_depends_only_on_hint_maps, schema_changes};
use crate::schema::db::rename_hints::RenameHints;
use crate::schema::db::{ColumnId, IndexId, Schema, TableId};
use crate::text::{decimal, spec_decimal};
use vstd::prelude::*;

verus! {

/// The snapshot file format version that this library reads and writes.
pub const SNAPSHOT_FILE_VERSION: u32 = 1;

/// A single table rename recorded in a snapshot.
#[derive(Debug, Clone, Copy)]
pub struct StoredTableRename {
    pub from: usize,
    pub to: usize,
}

/// A single column rename recorded in a snapshot.
#[derive(Debug, Clone, Copy)]
pub struct StoredColumnRename {
    pub from_table: usize,
    pub from_col: usize,
    pub to_table: usize,
    pub to_col: usize,
}

/// A single index rename recorded in a snapshot.
#[derive(Debug, Clone, Copy)]
pub struct StoredIndexRename {
    pub from_table: usize,
    pub from_idx: usize,
    pub to_table: usize,
    pub to_idx: usize,
}

/// Rename hints stored in a snapshot file.
///
/// Parallel to [`RenameHints`] but uses plain integer indices instead of
/// the newtype wrappers so that the data serializes cleanly.
#[derive(Debug, Clone)]
pub struct StoredRenameHints {
    /// Table renames.
    pub tables: Vec<StoredTableRename>,
    /// Column renames.
    pub columns: Vec<StoredColumnRename>,
    /// Index renames.
    pub indices: Vec<StoredIndexRename>,
}

/// The table renames that a list of stored renames records, later entries
/// overriding earlier ones.
pub open spec fn stored_table_map(s: Seq<StoredTableRename>) -> Map<(usize, usize), (usize, usize)>
    decreases s.len(),
{
    if s.len() == 0 {
        Map::empty()
    } else {
        stored_table_map(s.drop_last()).insert((s.last().from, 0), (s.last().to, 0))
    }
}

/// The column renames that a list of stored renames records.
pub open spec fn stored_column_map(s: Seq<StoredColumnRename>) -> Map<(usize, usize), (usize, usize)>
    decreases s.len(),
{
    if s.len() == 0 {
        Map::empty()
    } else {
        stored_column_map(s.drop_last()).insert(
            (s.last().from_table, s.last().from_col),
            (s.last().to_table, s.last().to_col),
        )
    }
}

/// The index renames that a list of stored renames records.
pub open spec fn stored_index_map(s: Seq<StoredIndexRename>) -> Map<(usize, usize), (usize, usize)>
    decreases s.len(),
{
    if s.len() == 0 {
        Map::empty()
    } else {
        stored_index_map(s.drop_last()).insert(
            (s.last().from_table, s.last().from_idx),
            (s.last().to_table, s.last().to_idx),
        )
    }
}

/// The message of the error for an unsupported snapshot file version.
pub open spec fn unsupported_snapshot_message(version: u32) -> Seq<char> {
    "Unsupported snapshot file version: "@ + spec_decimal(version as nat) + ". Expected version 1"@
}

impl StoredRenameHints {
    /// No rename hints at all.
    pub fn new() -> (r: Self)
        ensures
            r.tables@.len() == 0,
            r.columns@.len() == 0,
            r.indices@.len() == 0,
    {
        StoredRenameHints { tables: Vec::new(), columns: Vec::new(), indices: Vec::new() }
    }

    /// Returns `true` if there are no rename hints.
    pub fn is_empty(&self) -> (r: bool)
        ensures
            r == (self.tables@.len() == 0 && self.columns@.len() == 0 && self.indices@.len() == 0),
    {
        self.tables.len() == 0 && self.columns.len() == 0 && self.indices.len() == 0
    }

    /// Converts stored hints back into [`RenameHints`] for use during diff
    /// computation.
    pub fn into_rename_hints(self) -> (r: RenameHints)
        ensures
            r.table_map() == stored_table_map(self.tables@),
            r.column_map() == stored_column_map(self.columns@),
            r.index_map() == stored_index_map(self.indices@),
    {
        let mut hints = RenameHints::new();
        let mut i: usize = 0;
        while i < self.tables.len()
            invariant
                i <= self.tables@.len(),
                hints.table_map() == stored_table_map(self.tables@.take(i as int)),
                hints.column_map() == Map::<(usize, usize), (usize, usize)>::empty(),
                hints.index_map() == Map::<(usize, usize), (usize, usize)>::empty(),
            decreases self.tables@.len() - i,
        {
            let r = self.tables[i];
            hints.add_table_hint(TableId(r.from), TableId(r.to));
            assert(self.tables@.take(i + 1).drop_last() =~= self.tables@.take(i as int));
            i = i + 1;
        }
        assert(self.tables@.take(self.tables@.len() as int) =~= self.tables@);
        let mut i: usize = 0;
        while i < self.columns.len()
            invariant
                i <= self.columns@.len(),
                hints.table_map() == stored_table_map(self.tables@),
                hints.column_map() == stored_column_map(self.columns@.take(i as int)),
                hints.index_map() == Map::<(usize, usize), (usize, usize)>::empty(),
            decreases self.columns@.len() - i,
        {
            let r = self.columns[i];
            hints.add_column_hint(
                ColumnId { table: TableId(r.from_table), index: r.from_col },
                ColumnId { table: TableId(r.to_table), index: r.to_col },
            );
            assert(self.columns@.take(i + 1).drop_last() =~= self.columns@.take(i as int));
            i = i + 1;
        }
        assert(self.columns@.take(self.columns@.len() as int) =~= self.columns@);
        let mut i: usize = 0;
        while i < self.indices.len()
            invariant
                i <= self.indices@.len(),
                hints.table_map() == stored_table_map(self.tables@),
                hints.column_map() == stored_column_map(self.columns@),
                hints.index_map() == stored_index_map(self.indices@.take(i as int)),
            decreases self.indices@.len() - i,
        {
            let r = self.indices[i];
            hints.add_index_hint(
                IndexId { table: TableId(r.from_table), index: r.from_idx },
                IndexId { table: TableId(r.to_table), index: r.to_idx },
            );
            assert(self.indices@.take(i + 1).drop_last() =~= self.indices@.take(i as int));
            i = i + 1;
        }
        assert(self.indices@.take(self.indices@.len() as int) =~= self.indices@);
        hints
    }
}

impl Default for StoredRenameHints {
    fn default() -> (r: Self)
        ensures
            r.tables@.len() == 0,
            r.columns@.len() == 0,
            r.indices@.len() == 0,
    {
        StoredRenameHints::new()
    }
}

/// Snapshot file containing the database schema state after a migration.
#[derive(Debug, Clone)]
pub struct SnapshotFile {
    version: u32,
    /// Rename hints that were used to compute the diff from the previous
    /// snapshot, so that the diff can be reconstructed at apply time.
    pub rename_hints: Option<StoredRenameHints>,
    /// The database schema.
    pub schema: Schema,
}

impl SnapshotFile {
    pub closed spec fn spec_version(&self) -> u32 {
        self.version
    }

    pub closed spec fn spec_rename_hints(&self) -> Option<StoredRenameHints> {
        self.rename_hints
    }

    pub closed spec fn spec_schema(&self) -> Schema {
        self.schema
    }

    /// Create a new snapshot file with the given schema and no rename hints.
    pub fn new(schema: Schema) -> (r: Self)
        ensures
            r.spec_version() == SNAPSHOT_FILE_VERSION,
            r.spec_rename_hints() is None,
            r.spec_schema() == schema,
    {
        SnapshotFile { version: SNAPSHOT_FILE_VERSION, rename_hints: None, schema }
    }

    /// Create a new snapshot file with the given schema and rename hints.
    pub fn with_rename_hints(schema: Schema, rename_hints: StoredRenameHints) -> (r: Self)
        ensures
            r.spec_version() == SNAPSHOT_FILE_VERSION,
            r.spec_rename_hints() == Some(rename_hints),
            r.spec_schema() == schema,
    {
        SnapshotFile { version: SNAPSHOT_FILE_VERSION, rename_hints: Some(rename_hints), schema }
    }

    /// Builds a snapshot from the contents of a parsed file, refusing an
    /// unsupported format version.
    pub fn from_parts(version: u32, rename_hints: Option<StoredRenameHints>, schema: Schema) -> (r: Result<Self, Error>)
        ensures
            version == SNAPSHOT_FILE_VERSION <==> r is Ok,
            r matches Ok(s) ==> s.spec_version() == version && s.spec_rename_hints() == rename_hints
                && s.spec_schema() == schema,
            r matches Err(e) ==> e.spec_kind() is Message && e.spec_display() == unsupported_snapshot_message(
                version,
            ),
    {
        if version == SNAPSHOT_FILE_VERSION {
            Ok(SnapshotFile { version, rename_hints, schema })
        } else {
            let mut message = "Unsupported snapshot file version: ".to_owned();
            let digits = decimal(version as u64);
            message.append(digits.as_str());
            message.append(". Expected version 1");
            Err(Error::msg(message))
        }
    }

    /// The snapshot file format version.
    pub fn version(&self) -> (r: u32)
        ensures
            r == self.spec_version(),
    {
        self.version
    }
}

/// The table renames that a snapshot's optional hints record.
pub open spec fn restored_table_map(s: Option<StoredRenameHints>) -> Map<(usize, usize), (usize, usize)> {
    match s {
        Some(h) => stored_table_map(h.tables@),
        None => Map::empty(),
    }
}

/// The column renames that a snapshot's optional hints record.
pub open spec fn restored_column_map(s: Option<StoredRenameHints>) -> Map<(usize, usize), (usize, usize)> {
    match s {
        Some(h) => stored_column_map(h.columns@),
        None => Map::empty(),
    }
}

/// The index renames that a snapshot's optional hints record.
pub open spec fn restored_index_map(s: Option<StoredRenameHints>) -> Map<(usize, usize), (usize, usize)> {
    match s {
        Some(h) => stored_index_map(h.indices@),
        None => Map::empty(),
    }
}

/// The rename hints that a snapshot's diff is reconstructed with: the ones
/// it stores, or none.
pub fn restored_hints(stored: Option<StoredRenameHints>) -> (r: RenameHints)
    ensures
        r.table_map() == restored_table_map(stored),
        r.column_map() == restored_column_map(stored),
        r.index_map() == restored_index_map(stored),
{
    match stored {
        Some(h) => h.into_rename_hints(),
        None => RenameHints::new(),
    }
}

/// A migration is applied with the diff it was generated with: the hints
/// used to generate it, stored in its snapshot (or left out when there are
/// none) and restored from there, give the same changes between the same
/// two schemas.
pub proof fn law_apply_reconstructs_generated_diff(
    from: Schema,
    to: Schema,
    used: RenameHints,
    stored: StoredRenameHints,
    restored: RenameHints,
)
    requires
        used.table_map() == stored_table_map(stored.tables@),
        used.column_map() == stored_column_map(stored.columns@),
        used.index_map() == stored_index_map(stored.indices@),
        ({
            let kept = if stored.tables@.len() == 0 && stored.columns@.len() == 0 && stored.indices@.len() == 0 {
                None
            } else {
                Some(stored)
            };
            &&& restored.table_map() == restored_table_map(kept)
            &&& restored.column_map() == restored_column_map(kept)
            &&& restored.index_map() == restored_index_map(kept)
        }),
    ensures
        schema_changes(from, to, used) == schema_changes(from, to, restored),
{
    law_diff_depends_only_on_hint_maps(from, to, used, restored);
}

} // verus!
