//! The decisions of the `migrate!` macro, which embeds the migrations listed
//! in a history file into a binary.

use crate::schema::db::history_file::{HistoryFileMigration, HISTORY_FILE_VERSION};
use crate::text::{decimal, spec_decimal};
use vstd::prelude::*;

verus! {

/// The directory, relative to the crate, that holds the migrations: the
/// macro's argument, or `toasty` when it has none.
pub fn migrations_base(argument: Option<String>) -> (r: String)
    ensures
        r@ == match argument {
            Some(a) => a@,
            None => "toasty"@,
        },
{
    match argument {
        Some(a) => a,
        None => "toasty".to_owned(),
    }
}

/// The message for a history file at `path` whose version is unsupported.
pub open spec fn spec_unsupported_message(version: u32, path: Seq<char>) -> Seq<char> {
    "unsupported history file version "@ + spec_decimal(version as nat) + " in "@ + path + "; expected 1"@
}

/// The migrations to embed, as `(id, name)` pairs in history order, from
/// the `version` and `migrations` read from the history file at `path`, or
/// the error message when that version is unsupported.
pub fn embedded_entries(version: u32, migrations: &[HistoryFileMigration], path: &str) -> (r: Result<
    Vec<(u64, String)>,
    String,
>)
    ensures
        version == HISTORY_FILE_VERSION <==> r is Ok,
        r matches Ok(v) ==> v@.len() == migrations@.len() && forall|i: int|
            0 <= i < v@.len() ==> (#[trigger] v@[i]).0 == migrations@[i].id && v@[i].1@ == migrations@[i].name@,
        r matches Err(m) ==> m@ == spec_unsupported_message(version, path@),
{
    if version != HISTORY_FILE_VERSION {
        let mut m = "unsupported history file version ".to_owned();
        let d = decimal(version as u64);
        m.append(d.as_str());
        m.append(" in ");
        m.append(path);
        m.append("; expected 1");
        return Err(m);
    }
    let mut out: Vec<(u64, String)> = Vec::new();
    let mut i: usize = 0;
    while i < migrations.len()
        invariant
            i <= migrations@.len(),
            out@.len() == i,
            forall|k: int|
                0 <= k < i ==> (#[trigger] out@[k]).0 == migrations@[k].id && out@[k].1@ == migrations@[k].name@,
        decreases migrations@.len() - i,
    {
        let m: &HistoryFileMigration = &migrations[i];
        out.push((m.id, m.name.clone()));
        i = i + 1;
    }
    Ok(out)
}

} // verus!
