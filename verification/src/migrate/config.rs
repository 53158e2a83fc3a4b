use vstd::prelude::*;

verus! {

/// How migration file names are prefixed.
#[derive(Clone, Copy, Debug, PartialEq, Eq, Structural)]
pub enum MigrationPrefixStyle {
    /// `0001_`, `0002_`, ...
    Sequential,
    /// The time of generation.
    Timestamp,
}

/// Where migrations live and how they are written.
#[derive(Clone, Debug)]
pub struct MigrationConfig {
    /// The directory holding migrations, snapshots and the history file.
    pub path: String,
    /// How migration file names are prefixed.
    pub prefix_style: MigrationPrefixStyle,
    /// Whether to record checksums of migration files.
    pub checksums: bool,
    /// Whether to separate statements with breakpoints.
    pub statement_breakpoints: bool,
}

/// The configuration of the migration tooling.
#[derive(Clone, Debug)]
pub struct Config {
    pub migration: MigrationConfig,
}

/// `base` joined with the relative path `name`, as `Path::join` does:
/// a separator is added unless `base` is empty or already ends with one.
pub open spec fn join_path(base: Seq<char>, name: Seq<char>) -> Seq<char> {
    if base.len() == 0 {
        name
    } else if base.last() == '/' {
        base + name
    } else {
        base + "/"@ + name
    }
}

/// Joins `base` and the relative path `name`.
pub fn join(base: &str, name: &str) -> (r: String)
    ensures
        r@ == join_path(base@, name@),
{
    let n = base.unicode_len();
    let mut s = base.to_owned();
    if n == 0 {
        return name.to_owned();
    }
    if base.get_char(n - 1) != '/' {
        s.append("/");
    }
    s.append(name);
    s
}

impl MigrationConfig {
    /// The directory holding migration files.
    pub fn get_migrations_dir(&self) -> (r: String)
        ensures
            r@ == join_path(self.path@, "migrations"@),
    {
        join(self.path.as_str(), "migrations")
    }

    /// The directory holding snapshot files.
    pub fn get_snapshots_dir(&self) -> (r: String)
        ensures
            r@ == join_path(self.path@, "snapshots"@),
    {
        join(self.path.as_str(), "snapshots")
    }

    /// The path of the history file.
    pub fn get_history_file_path(&self) -> (r: String)
        ensures
            r@ == join_path(self.path@, "history.toml"@),
    {
        join(self.path.as_str(), "history.toml")
    }
}

impl Default for MigrationConfig {
    fn default() -> (r: Self)
        ensures
            r.path@ == "toasty"@,
            r.prefix_style == MigrationPrefixStyle::Sequential,
            !r.checksums,
            r.statement_breakpoints,
    {
        MigrationConfig {
            path: "toasty".to_owned(),
            prefix_style: MigrationPrefixStyle::Sequential,
            checksums: false,
            statement_breakpoints: true,
        }
    }
}

impl Default for Config {
    fn default() -> (r: Self)
        ensures
            r.migration.path@ == "toasty"@,
            r.migration.prefix_style == MigrationPrefixStyle::Sequential,
            !r.migration.checksums,
            r.migration.statement_breakpoints,
    {
        Config { migration: MigrationConfig::default() }
    }
}

} // verus!
