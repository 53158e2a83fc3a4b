//! Embedded migration support: migrations compiled into a binary and the
//! choice of which of them to apply.

pub mod embedded;

use vstd::prelude::*;

verus! {

/// A single migration embedded at compile time.
pub struct EmbeddedMigration {
    /// Unique identifier assigned when the migration was generated.
    pub id: u64,
    /// File name of the migration (e.g. `"0000_migration.sql"`).
    pub name: &'static str,
    /// Raw SQL content of the migration file.
    pub sql: &'static str,
}

/// A set of compile-time-embedded migrations.
pub struct Migrator {
    migrations: &'static [EmbeddedMigration],
}

/// The positions among the first `n` of `ids` whose IDs are not in
/// `applied`, in order.
pub open spec fn unapplied_upto(ids: Seq<u64>, applied: Seq<u64>, n: int) -> Seq<usize>
    decreases n,
{
    if n <= 0 {
        seq![]
    } else {
        let rest = unapplied_upto(ids, applied, n - 1);
        if applied.contains(ids[n - 1]) {
            rest
        } else {
            rest.push((n - 1) as usize)
        }
    }
}

/// The positions of `ids` whose IDs are not in `applied`, in order.
pub fn unapplied(ids: &Vec<u64>, applied: &Vec<u64>) -> (r: Vec<usize>)
    ensures
        r@ == unapplied_upto(ids@, applied@, ids@.len() as int),
{
    let mut out: Vec<usize> = Vec::new();
    let mut i: usize = 0;
    while i < ids.len()
        invariant
            i <= ids@.len(),
            out@ == unapplied_upto(ids@, applied@, i as int),
        decreases ids@.len() - i,
    {
        if !crate::cli::commands::contains_id(applied, ids[i]) {
            out.push(i);
        }
        i = i + 1;
    }
    out
}

/// The IDs of a list of embedded migrations.
pub open spec fn ids_of(ms: Seq<EmbeddedMigration>) -> Seq<u64> {
    ms.map_values(|m: EmbeddedMigration| m.id)
}

/// Collects the IDs of `ms`.
pub fn collect_ids(ms: &[EmbeddedMigration]) -> (r: Vec<u64>)
    ensures
        r@ == ids_of(ms@),
{
    let mut out: Vec<u64> = Vec::new();
    let mut i: usize = 0;
    while i < ms.len()
        invariant
            i <= ms@.len(),
            out@ == ids_of(ms@).take(i as int),
        decreases ms@.len() - i,
    {
        out.push(ms[i].id);
        assert(ids_of(ms@).take(i + 1) =~= ids_of(ms@).take(i as int).push(ms@[i as int].id));
        i = i + 1;
    }
    assert(ids_of(ms@).take(ms@.len() as int) =~= ids_of(ms@));
    out
}

impl Migrator {
    pub closed spec fn spec_migrations(&self) -> Seq<EmbeddedMigration> {
        self.migrations@
    }

    /// Creates a new `Migrator` from a static slice of embedded migrations.
    pub fn new(migrations: &'static [EmbeddedMigration]) -> (r: Self)
        ensures
            r.spec_migrations() == migrations@,
    {
        Migrator { migrations }
    }

    /// The embedded migrations, in order.
    pub fn migrations(&self) -> (r: &'static [EmbeddedMigration])
        ensures
            r@ == self.spec_migrations(),
    {
        self.migrations
    }

    /// The positions of the migrations that applying to a database with the
    /// `applied` IDs would run, in order: those whose IDs it lacks. The number
    /// of migrations applied is the length of the result.
    pub fn pending(&self, applied: &Vec<u64>) -> (r: Vec<usize>)
        ensures
            r@ == unapplied_upto(ids_of(self.spec_migrations()), applied@, self.spec_migrations().len() as int),
    {
        let ids = collect_ids(self.migrations);
        unapplied(&ids, applied)
    }
}

/// A position is pending exactly when it is among the first `n` and its ID
/// has not been applied; the pending positions come in increasing order.
pub proof fn law_pending_are_the_unapplied(ids: Seq<u64>, applied: Seq<u64>, n: int)
    requires
        0 <= n <= ids.len(),
        ids.len() <= usize::MAX,
    ensures
        forall|i: int| 0 <= i < ids.len() ==> (unapplied_upto(ids, applied, n).contains(i as usize) <==> (i
            < n && !applied.contains(ids[i]))),
        forall|a: int, b: int|
            0 <= a < b < unapplied_upto(ids, applied, n).len() ==> unapplied_upto(ids, applied, n)[a]
                < unapplied_upto(ids, applied, n)[b],
        forall|a: int|
            0 <= a < unapplied_upto(ids, applied, n).len() ==> unapplied_upto(ids, applied, n)[a] < n,
    decreases n,
{
    if n > 0 {
        law_pending_are_the_unapplied(ids, applied, n - 1);
        let rest = unapplied_upto(ids, applied, n - 1);
        let cur = unapplied_upto(ids, applied, n);
        assert forall|i: int| 0 <= i < ids.len() implies (cur.contains(i as usize) <==> (i < n
            && !applied.contains(ids[i]))) by {
            if !applied.contains(ids[n - 1]) {
                assert(cur == rest.push((n - 1) as usize));
                if cur.contains(i as usize) && i != n - 1 {
                    let k = choose|k: int| 0 <= k < cur.len() && cur[k] == i as usize;
                    assert(k < rest.len());
                    assert(rest.contains(i as usize));
                }
                if i < n - 1 && !applied.contains(ids[i]) {
                    let k = choose|k: int| 0 <= k < rest.len() && rest[k] == i as usize;
                    assert(cur[k] == i as usize);
                }
                if i == n - 1 {
                    assert(cur[rest.len() as int] == i as usize);
                }
            }
        }
    }
}

/// Applying the pending migrations and then asking again finds nothing
/// pending: once the IDs at the pending positions are recorded as applied,
/// every migration is.
pub proof fn law_apply_is_idempotent(ids: Seq<u64>, applied: Seq<u64>)
    requires
        ids.len() <= usize::MAX,
    ensures
        ({
            let pending = unapplied_upto(ids, applied, ids.len() as int);
            let now_applied = applied + pending.map_values(|i: usize| ids[i as int]);
            unapplied_upto(ids, now_applied, ids.len() as int).len() == 0
        }),
{
    let n = ids.len() as int;
    let pending = unapplied_upto(ids, applied, n);
    let now_applied = applied + pending.map_values(|i: usize| ids[i as int]);
    law_pending_are_the_unapplied(ids, applied, n);
    assert forall|j: int| 0 <= j < n implies now_applied.contains(#[trigger] ids[j]) by {
        if applied.contains(ids[j]) {
            let k = choose|k: int| 0 <= k < applied.len() && applied[k] == ids[j];
            assert(now_applied[k] == ids[j]);
        } else {
            assert(pending.contains(j as usize));
            let k = choose|k: int| 0 <= k < pending.len() && pending[k] == j as usize;
            assert(now_applied[applied.len() + k] == ids[j]);
        }
    }
    lemma_all_applied_none_pending(ids, now_applied, n);
}

proof fn lemma_all_applied_none_pending(ids: Seq<u64>, applied: Seq<u64>, n: int)
    requires
        n <= ids.len(),
        forall|j: int| 0 <= j < n ==> applied.contains(#[trigger] ids[j]),
    ensures
        unapplied_upto(ids, applied, n).len() == 0,
    decreases n,
{
    if n > 0 {
        lemma_all_applied_none_pending(ids, applied, n - 1);
        assert(applied.contains(ids[n - 1]));
    }
}

} // verus!
