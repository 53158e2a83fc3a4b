use super::diff::{first_match, is_first, lemma_first_match_none, lemma_first_match_some};
use crate::error::Error;
use crate::text::{decimal, parse_u32, spec_decimal, spec_parse_u32};
use vstd::prelude::*;

verus! {

/// The history file format version that this library reads and writes.
pub const HISTORY_FILE_VERSION: u32 = 1;

/// A single entry in the migration history.
///
/// Each entry records the randomly-assigned ID used by the database driver to
/// track application status, the migration file name, the companion snapshot
/// file name, and an optional checksum.
#[derive(Debug, Clone)]
pub struct HistoryFileMigration {
    /// Random unique identifier for this migration.
    pub id: u64,
    /// Migration file name (e.g. `"0001_create_users.sql"`).
    pub name: String,
    /// Name of the snapshot generated alongside this migration.
    pub snapshot_name: String,
    /// Optional checksum of the migration file to detect changes.
    pub checksum: Option<String>,
}

/// A record of all migrations that have been generated, in the order they
/// were created, with the version of the file format.
#[derive(Debug, Clone)]
pub struct HistoryFile {
    version: u32,
    migrations: Vec<HistoryFileMigration>,
}

/// The part of `s` before its first underscore (all of `s` if it has none).
pub open spec fn first_segment(s: Seq<char>) -> Seq<char> {
    match first_match(s, |c: char| c == '_') {
        Some(i) => s.take(i),
        None => s,
    }
}

/// The number that a migration name starts with, if any.
pub open spec fn name_number(name: Seq<char>) -> Option<u32> {
    spec_parse_u32(first_segment(name))
}

/// The number that follows the last migration of `ms`: one more than the
/// number its name starts with, or zero when there is none or it has none.
pub open spec fn spec_next_number(ms: Seq<HistoryFileMigration>) -> int {
    if ms.len() == 0 {
        0
    } else {
        match name_number(ms.last().name@) {
            Some(n) => n + 1,
            None => 0,
        }
    }
}

/// The message of the error for an unsupported history file version.
pub open spec fn unsupported_version_message(version: u32) -> Seq<char> {
    "unsupported history file version: "@ + spec_decimal(version as nat) + "; expected 1"@
}

/// Parses the number that a migration name starts with.
pub fn leading_number(name: &str) -> (r: Option<u32>)
    ensures
        r == name_number(name@),
{
    let ghost under = |c: char| c == '_';
    let n = name.unicode_len();
    let mut i: usize = 0;
    while i < n
        invariant
            n == name@.len(),
            i <= n,
            under == (|c: char| c == '_'),
            forall|k: int| 0 <= k < i ==> !under(#[trigger] name@[k]),
        decreases n - i,
    {
        if name.get_char(i) == '_' {
            proof {
                assert(is_first(name@, under, i as int));
                lemma_first_match_some(name@, under, i as int);
            }
            let head = name.substring_char(0, i);
            assert(head@ == first_segment(name@));
            return parse_u32(head);
        }
        i = i + 1;
    }
    proof {
        lemma_first_match_none(name@, under);
    }
    parse_u32(name)
}

impl HistoryFileMigration {
    /// The number this migration's name starts with, if any.
    pub fn number(&self) -> (r: Option<u32>)
        ensures
            r == name_number(self.name@),
    {
        leading_number(self.name.as_str())
    }
}

impl HistoryFile {
    pub closed spec fn spec_version(&self) -> u32 {
        self.version
    }

    pub closed spec fn spec_migrations(&self) -> Seq<HistoryFileMigration> {
        self.migrations@
    }

    /// Creates a new empty history file with the current format version.
    pub fn new() -> (r: Self)
        ensures
            r.spec_version() == HISTORY_FILE_VERSION,
            r.spec_migrations().len() == 0,
    {
        HistoryFile { version: HISTORY_FILE_VERSION, migrations: Vec::new() }
    }

    /// Builds a history file from the contents of a parsed file, refusing an
    /// unsupported format version.
    pub fn from_parts(version: u32, migrations: Vec<HistoryFileMigration>) -> (r: Result<Self, Error>)
        ensures
            version == HISTORY_FILE_VERSION <==> r is Ok,
            r matches Ok(h) ==> h.spec_version() == version && h.spec_migrations() == migrations@,
            r matches Err(e) ==> e.spec_is_migration_failed()
                && e.spec_display() == "migration failed: "@ + unsupported_version_message(version),
    {
        if version == HISTORY_FILE_VERSION {
            Ok(HistoryFile { version, migrations })
        } else {
            let mut message = "unsupported history file version: ".to_owned();
            let digits = decimal(version as u64);
            message.append(digits.as_str());
            message.append("; expected 1");
            Err(Error::migration_failed(message))
        }
    }

    /// Returns the file format version.
    pub fn version(&self) -> (r: u32)
        ensures
            r == self.spec_version(),
    {
        self.version
    }

    /// Returns the ordered list of migrations in this history.
    pub fn migrations(&self) -> (r: &[HistoryFileMigration])
        ensures
            r@ == self.spec_migrations(),
    {
        self.migrations.as_slice()
    }

    /// Gets the next migration number by parsing the last migration's name.
    ///
    /// Migration names are expected to start with a zero-padded number
    /// (e.g. `"0001_create_users.sql"`). Returns `0` if the history is empty
    /// or the last name cannot be parsed.
    pub fn next_migration_number(&self) -> (r: u32)
        requires
            self.spec_migrations().len() > 0 ==> name_number(self.spec_migrations().last().name@)
                != Some(u32::MAX),
        ensures
            r == spec_next_number(self.spec_migrations()),
    {
        let len = self.migrations.len();
        if len == 0 {
            return 0;
        }
        match self.migrations[len - 1].number() {
            Some(n) => n + 1,
            None => 0,
        }
    }

    /// Appends a migration to the history.
    pub fn add_migration(&mut self, migration: HistoryFileMigration)
        ensures
            final(self).spec_migrations() == old(self).spec_migrations().push(migration),
            final(self).spec_version() == old(self).spec_version(),
    {
        self.migrations.push(migration);
    }

    /// Removes a migration from the history by index.
    pub fn remove_migration(&mut self, index: usize)
        requires
            index < old(self).spec_migrations().len(),
        ensures
            final(self).spec_migrations() == old(self).spec_migrations().remove(index as int),
            final(self).spec_version() == old(self).spec_version(),
    {
        self.migrations.remove(index);
    }

    /// The history to work with: the one read from the history file when
    /// the file exists (`loaded` is `Some`, with the outcome of reading it),
    /// else an empty history.
    pub fn load_or_default(loaded: Option<Result<HistoryFile, Error>>) -> (r: Result<HistoryFile, Error>)
        ensures
            match loaded {
                Some(outcome) => r == outcome,
                None => r matches Ok(h) && h.spec_version() == HISTORY_FILE_VERSION && h.spec_migrations().len()
                    == 0,
            },
    {
        match loaded {
            Some(outcome) => outcome,
            None => Ok(HistoryFile::new()),
        }
    }

    /// Validates that the history file version matches the expected format.
    ///
    /// Returns `true` if the version is supported, `false` otherwise.
    pub fn is_supported_version(&self) -> (r: bool)
        ensures
            r == (self.spec_version() == HISTORY_FILE_VERSION),
    {
        self.version == HISTORY_FILE_VERSION
    }
}

impl Default for HistoryFile {
    fn default() -> (r: Self)
        ensures
            r.spec_version() == HISTORY_FILE_VERSION,
            r.spec_migrations().len() == 0,
    {
        HistoryFile::new()
    }
}

/// Adding a migration and then removing the last one gives back the history
/// it started from.
pub proof fn law_add_then_remove_last_restores(ms: Seq<HistoryFileMigration>, m: HistoryFileMigration)
    ensures
        ms.push(m).remove(ms.len() as int) == ms,
{
    assert(ms.push(m).remove(ms.len() as int) =~= ms);
}

} // verus!
