use super::table::{ColumnId, IndexId, TableId};
use vstd::prelude::*;

verus! {

/// A finite map between identifier pairs, kept as a list of entries in
/// which no key occurs twice.
pub struct IdPairs {
    entries: Vec<((usize, usize), (usize, usize))>,
}

/// The position of `k` among the keys of `s`, if any.
pub open spec fn key_at(s: Seq<((usize, usize), (usize, usize))>, k: (usize, usize), i: int) -> bool {
    0 <= i < s.len() && s[i].0 == k
}

/// No key occurs twice in `s`.
pub open spec fn keys_distinct(s: Seq<((usize, usize), (usize, usize))>) -> bool {
    forall|i: int, j: int| 0 <= i < s.len() && 0 <= j < s.len() && i != j ==> s[i].0 != s[j].0
}

/// The map that a list of entries with distinct keys stands for.
pub open spec fn entries_map(s: Seq<((usize, usize), (usize, usize))>) -> Map<(usize, usize), (usize, usize)> {
    Map::new(
        |k: (usize, usize)| exists|i: int| key_at(s, k, i),
        |k: (usize, usize)| s[choose|i: int| key_at(s, k, i)].1,
    )
}

/// Lookup in a map, as an `Option`.
pub open spec fn map_get(m: Map<(usize, usize), (usize, usize)>, k: (usize, usize)) -> Option<(usize, usize)> {
    if m.contains_key(k) { Some(m[k]) } else { None }
}

proof fn lemma_entries_map_at(s: Seq<((usize, usize), (usize, usize))>, i: int)
    requires
        keys_distinct(s),
        0 <= i < s.len(),
    ensures
        entries_map(s).contains_key(s[i].0),
        entries_map(s)[s[i].0] == s[i].1,
{
    let k = s[i].0;
    assert(key_at(s, k, i));
    let j = choose|j: int| key_at(s, k, j);
    assert(key_at(s, k, j));
}

impl IdPairs {
    #[verifier::type_invariant]
    spec fn inv(self) -> bool {
        keys_distinct(self.entries@)
    }

    /// The map these entries stand for.
    pub closed spec fn view(&self) -> Map<(usize, usize), (usize, usize)> {
        entries_map(self.entries@)
    }

    /// An empty map.
    pub fn new() -> (r: Self)
        ensures
            r.view() == Map::<(usize, usize), (usize, usize)>::empty(),
    {
        let r = IdPairs { entries: Vec::new() };
        assert(r.view() =~= Map::<(usize, usize), (usize, usize)>::empty());
        r
    }

    /// Looks up `k`.
    pub fn get(&self, k: (usize, usize)) -> (r: Option<(usize, usize)>)
        ensures
            r == map_get(self.view(), k),
    {
        proof {
            use_type_invariant(self);
        }
        let mut i: usize = 0;
        while i < self.entries.len()
            invariant
                i <= self.entries@.len(),
                keys_distinct(self.entries@),
                forall|j: int| 0 <= j < i ==> self.entries@[j].0 != k,
            decreases self.entries@.len() - i,
        {
            let e = self.entries[i];
            if e.0.0 == k.0 && e.0.1 == k.1 {
                proof {
                    lemma_entries_map_at(self.entries@, i as int);
                }
                return Some(e.1);
            }
            i = i + 1;
        }
        assert(!self.view().contains_key(k));
        None
    }

    /// Maps `k` to `v`, replacing any earlier value of `k`.
    pub fn insert(&mut self, k: (usize, usize), v: (usize, usize))
        ensures
            final(self).view() == old(self).view().insert(k, v),
    {
        proof {
            use_type_invariant(&*self);
        }
        let ghost s0 = self.entries@;
        let mut i: usize = 0;
        while i < self.entries.len()
            invariant
                self.entries@ == s0,
                old(self).entries@ == s0,
                keys_distinct(s0),
                i <= s0.len(),
                forall|j: int| 0 <= j < i ==> s0[j].0 != k,
            decreases s0.len() - i,
        {
            let e = self.entries[i];
            if e.0.0 == k.0 && e.0.1 == k.1 {
                let mut entries = Vec::new();
                std::mem::swap(&mut entries, &mut self.entries);
                entries.set(i, (k, v));
                let ghost s1 = entries@;
                assert(s1 == s0.update(i as int, (k, v)));
                assert(keys_distinct(s1));
                assert(entries_map(s1) =~= entries_map(s0).insert(k, v)) by {
                    assert forall|k2: (usize, usize)|
                        entries_map(s1).contains_key(k2) == entries_map(s0).insert(k, v).contains_key(k2)
                    by {
                        if k2 == k {
                            assert(key_at(s1, k2, i as int));
                        } else if entries_map(s0).contains_key(k2) {
                            let j = choose|j: int| key_at(s0, k2, j);
                            assert(key_at(s1, k2, j));
                        } else if entries_map(s1).contains_key(k2) {
                            let j = choose|j: int| key_at(s1, k2, j);
                            assert(key_at(s0, k2, j));
                        }
                    }
                    assert forall|k2: (usize, usize)| #[trigger] entries_map(s1).contains_key(k2)
                        implies entries_map(s1)[k2] == entries_map(s0).insert(k, v)[k2]
                    by {
                        let j = choose|j: int| key_at(s1, k2, j);
                        lemma_entries_map_at(s1, j);
                        if k2 != k {
                            assert(key_at(s0, k2, j));
                            lemma_entries_map_at(s0, j);
                        }
                    }
                }
                self.entries = entries;
                return;
            }
            i = i + 1;
        }
        let mut entries = Vec::new();
        std::mem::swap(&mut entries, &mut self.entries);
        entries.push((k, v));
        let ghost s1 = entries@;
        assert(s1 == s0.push((k, v)));
        assert(keys_distinct(s1));
        assert(entries_map(s1) =~= entries_map(s0).insert(k, v)) by {
            assert forall|k2: (usize, usize)|
                entries_map(s1).contains_key(k2) == entries_map(s0).insert(k, v).contains_key(k2)
            by {
                if k2 == k {
                    assert(key_at(s1, k2, s0.len() as int));
                } else if entries_map(s0).contains_key(k2) {
                    let j = choose|j: int| key_at(s0, k2, j);
                    assert(key_at(s1, k2, j));
                } else if entries_map(s1).contains_key(k2) {
                    let j = choose|j: int| key_at(s1, k2, j);
                    assert(key_at(s0, k2, j));
                }
            }
            assert forall|k2: (usize, usize)| #[trigger] entries_map(s1).contains_key(k2)
                implies entries_map(s1)[k2] == entries_map(s0).insert(k, v)[k2]
            by {
                let j = choose|j: int| key_at(s1, k2, j);
                lemma_entries_map_at(s1, j);
                if k2 != k {
                    assert(key_at(s0, k2, j));
                    lemma_entries_map_at(s0, j);
                }
            }
        }
        self.entries = entries;
    }
}

/// The key under which a table rename is recorded.
pub open spec fn table_key(id: TableId) -> (usize, usize) {
    (id.0, 0)
}

/// The key under which a column rename is recorded.
pub open spec fn column_key(id: ColumnId) -> (usize, usize) {
    (id.table.0, id.index)
}

/// The key under which an index rename is recorded.
pub open spec fn index_key(id: IndexId) -> (usize, usize) {
    (id.table.0, id.index)
}

/// User-provided hints that some tables, columns and indices of the new
/// schema are renames of ones in the previous schema.
pub struct RenameHints {
    tables: IdPairs,
    columns: IdPairs,
    indices: IdPairs,
}

impl RenameHints {
    /// Table renames, keyed by [`table_key`].
    pub closed spec fn table_map(&self) -> Map<(usize, usize), (usize, usize)> {
        self.tables.view()
    }

    /// Column renames, keyed by [`column_key`].
    pub closed spec fn column_map(&self) -> Map<(usize, usize), (usize, usize)> {
        self.columns.view()
    }

    /// Index renames, keyed by [`index_key`].
    pub closed spec fn index_map(&self) -> Map<(usize, usize), (usize, usize)> {
        self.indices.view()
    }

    /// The table that `from` is renamed to, if any.
    pub open spec fn spec_get_table(&self, from: TableId) -> Option<TableId> {
        match map_get(self.table_map(), table_key(from)) {
            Some(v) => Some(TableId(v.0)),
            None => None,
        }
    }

    /// The column that `from` is renamed to, if any.
    pub open spec fn spec_get_column(&self, from: ColumnId) -> Option<ColumnId> {
        match map_get(self.column_map(), column_key(from)) {
            Some(v) => Some(ColumnId { table: TableId(v.0), index: v.1 }),
            None => None,
        }
    }

    /// The index that `from` is renamed to, if any.
    pub open spec fn spec_get_index(&self, from: IndexId) -> Option<IndexId> {
        match map_get(self.index_map(), index_key(from)) {
            Some(v) => Some(IndexId { table: TableId(v.0), index: v.1 }),
            None => None,
        }
    }

    /// Creates an empty set of hints.
    pub fn new() -> (r: Self)
        ensures
            r.table_map() == Map::<(usize, usize), (usize, usize)>::empty(),
            r.column_map() == Map::<(usize, usize), (usize, usize)>::empty(),
            r.index_map() == Map::<(usize, usize), (usize, usize)>::empty(),
    {
        RenameHints { tables: IdPairs::new(), columns: IdPairs::new(), indices: IdPairs::new() }
    }

    /// Records that table `from` was renamed to `to`.
    pub fn add_table_hint(&mut self, from: TableId, to: TableId)
        ensures
            final(self).table_map() == old(self).table_map().insert(table_key(from), table_key(to)),
            final(self).column_map() == old(self).column_map(),
            final(self).index_map() == old(self).index_map(),
    {
        self.tables.insert((from.0, 0), (to.0, 0));
    }

    /// Records that column `from` was renamed to `to`.
    pub fn add_column_hint(&mut self, from: ColumnId, to: ColumnId)
        ensures
            final(self).column_map() == old(self).column_map().insert(column_key(from), column_key(to)),
            final(self).table_map() == old(self).table_map(),
            final(self).index_map() == old(self).index_map(),
    {
        self.columns.insert((from.table.0, from.index), (to.table.0, to.index));
    }

    /// Records that index `from` was renamed to `to`.
    pub fn add_index_hint(&mut self, from: IndexId, to: IndexId)
        ensures
            final(self).index_map() == old(self).index_map().insert(index_key(from), index_key(to)),
            final(self).table_map() == old(self).table_map(),
            final(self).column_map() == old(self).column_map(),
    {
        self.indices.insert((from.table.0, from.index), (to.table.0, to.index));
    }

    /// The table renames as a map of keys.
    pub(crate) fn table_pairs(&self) -> (r: &IdPairs)
        ensures
            r.view() == self.table_map(),
    {
        &self.tables
    }

    /// The column renames as a map of keys.
    pub(crate) fn column_pairs(&self) -> (r: &IdPairs)
        ensures
            r.view() == self.column_map(),
    {
        &self.columns
    }

    /// The index renames as a map of keys.
    pub(crate) fn index_pairs(&self) -> (r: &IdPairs)
        ensures
            r.view() == self.index_map(),
    {
        &self.indices
    }

    /// The table that `from` is renamed to, if any.
    pub fn get_table(&self, from: TableId) -> (r: Option<TableId>)
        ensures
            r == self.spec_get_table(from),
    {
        match self.tables.get((from.0, 0)) {
            Some(v) => Some(TableId(v.0)),
            None => None,
        }
    }

    /// The column that `from` is renamed to, if any.
    pub fn get_column(&self, from: ColumnId) -> (r: Option<ColumnId>)
        ensures
            r == self.spec_get_column(from),
    {
        match self.columns.get((from.table.0, from.index)) {
            Some(v) => Some(ColumnId { table: TableId(v.0), index: v.1 }),
            None => None,
        }
    }

    /// The index that `from` is renamed to, if any.
    pub fn get_index(&self, from: IndexId) -> (r: Option<IndexId>)
        ensures
            r == self.spec_get_index(from),
    {
        match self.indices.get((from.table.0, from.index)) {
            Some(v) => Some(IndexId { table: TableId(v.0), index: v.1 }),
            None => None,
        }
    }
}

impl Default for RenameHints {
    fn default() -> (r: Self)
        ensures
            r.table_map() == Map::<(usize, usize), (usize, usize)>::empty(),
            r.column_map() == Map::<(usize, usize), (usize, usize)>::empty(),
            r.index_map() == Map::<(usize, usize), (usize, usize)>::empty(),
    {
        RenameHints::new()
    }
}

/// A rename hint that was just recorded is the one found for its source,
/// for tables, columns and indices alike.
pub proof fn law_hint_found_after_add(
    before: RenameHints,
    after: RenameHints,
    table: (TableId, TableId),
    column: (ColumnId, ColumnId),
    index: (IndexId, IndexId),
)
    requires
        after.table_map() == before.table_map().insert(table_key(table.0), table_key(table.1)),
        after.column_map() == before.column_map().insert(column_key(column.0), column_key(column.1)),
        after.index_map() == before.index_map().insert(index_key(index.0), index_key(index.1)),
    ensures
        after.spec_get_table(table.0) == Some(table.1),
        after.spec_get_column(column.0) == Some(column.1),
        after.spec_get_index(index.0) == Some(index.1),
{
}

/// Hints with no entries find nothing.
pub proof fn law_no_hints_find_nothing(hints: RenameHints, table: TableId, column: ColumnId, index: IndexId)
    requires
        hints.table_map() == Map::<(usize, usize), (usize, usize)>::empty(),
        hints.column_map() == Map::<(usize, usize), (usize, usize)>::empty(),
        hints.index_map() == Map::<(usize, usize), (usize, usize)>::empty(),
    ensures
        hints.spec_get_table(table) is None,
        hints.spec_get_column(column) is None,
        hints.spec_get_index(index) is None,
{
}

} // verus!
