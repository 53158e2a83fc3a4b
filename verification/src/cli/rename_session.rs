use super::snapshot_file::{
    stored_column_map, stored_index_map, stored_table_map, StoredColumnRename, StoredIndexRename,
    StoredRenameHints, StoredTableRename,
};
use crate::schema::db::diff::{
    column_item_views, first_match, law_same_schema_no_diff, schema_names_distinct, DiffEntry, index_item_views, is_first, lemma_first_match_some,
    match_position, schema_changes, table_additions, table_item_views, table_removals, Change,
    ColumnsDiffItem, IndicesDiffItem, SchemaDiff, TableChange, TablesDiffItem,
};
use crate::schema::db::rename_hints::{table_key, RenameHints};
use crate::schema::db::{Column, ColumnId, Index, IndexId, Schema, Table, TableId};
use vstd::prelude::*;

verus! {

/// The tables that `items` drops and that the user has not yet confirmed as
/// dropped.
pub open spec fn open_dropped_tables(items: Seq<TableChange>, ignored: Seq<TableId>) -> Seq<Table>
    decreases items.len(),
{
    if items.len() == 0 {
        seq![]
    } else {
        let rest = open_dropped_tables(items.drop_last(), ignored);
        match items.last() {
            TableChange::Drop(t) => if ignored.contains(t.id) { rest } else { rest.push(t) },
            _ => rest,
        }
    }
}

/// The tables that `items` creates.
pub open spec fn created_tables(items: Seq<TableChange>) -> Seq<Table>
    decreases items.len(),
{
    if items.len() == 0 {
        seq![]
    } else {
        let rest = created_tables(items.drop_last());
        match items.last() {
            TableChange::Create(t) => rest.push(t),
            _ => rest,
        }
    }
}

/// The entries that `changes` drops and that the user has not yet confirmed
/// as dropped in table `table`.
pub open spec fn open_dropped<T>(
    changes: Seq<Change<T>>,
    table: TableId,
    ignored: Seq<(TableId, (usize, usize))>,
    key: spec_fn(T) -> (usize, usize),
) -> Seq<T>
    decreases changes.len(),
{
    if changes.len() == 0 {
        seq![]
    } else {
        let rest = open_dropped(changes.drop_last(), table, ignored, key);
        match changes.last() {
            Change::Dropped(c) => if ignored.contains((table, key(c))) { rest } else { rest.push(c) },
            _ => rest,
        }
    }
}

/// The entries that `changes` adds.
pub open spec fn added<T>(changes: Seq<Change<T>>) -> Seq<T>
    decreases changes.len(),
{
    if changes.len() == 0 {
        seq![]
    } else {
        let rest = added(changes.drop_last());
        match changes.last() {
            Change::Added(c) => rest.push(c),
            _ => rest,
        }
    }
}

pub open spec fn column_id_key(c: Column) -> (usize, usize) {
    (c.id.table.0, c.id.index)
}

pub open spec fn index_id_key(i: Index) -> (usize, usize) {
    (i.id.table.0, i.id.index)
}

/// A question to put to the user: is the missing entry dropped, or renamed
/// to one of the new ones?
pub enum Question {
    Table(Table, Seq<Table>),
    Column(Table, Column, Seq<Column>),
    Index(Table, Index, Seq<Index>),
}

/// The question that an altered table raises, if any: first about its
/// columns, then about its indices.
pub open spec fn alter_question(
    c: TableChange,
    ignored_columns: Seq<(TableId, (usize, usize))>,
    ignored_indices: Seq<(TableId, (usize, usize))>,
) -> Option<Question> {
    match c {
        TableChange::Alter(p, n, cols, idxs) => {
            let dc = open_dropped(cols, p.id, ignored_columns, |c: Column| column_id_key(c));
            let ac = added(cols);
            let di = open_dropped(idxs, p.id, ignored_indices, |i: Index| index_id_key(i));
            let ai = added(idxs);
            if dc.len() > 0 && ac.len() > 0 {
                Some(Question::Column(p, dc[0], ac))
            } else if di.len() > 0 && ai.len() > 0 {
                Some(Question::Index(p, di[0], ai))
            } else {
                None
            }
        },
        _ => None,
    }
}

/// The question that the first altered table raising one raises.
pub open spec fn first_alter_question(
    items: Seq<TableChange>,
    ignored_columns: Seq<(TableId, (usize, usize))>,
    ignored_indices: Seq<(TableId, (usize, usize))>,
) -> Option<Question>
    decreases items.len(),
{
    if items.len() == 0 {
        None
    } else {
        match first_alter_question(items.drop_last(), ignored_columns, ignored_indices) {
            Some(q) => Some(q),
            None => alter_question(items.last(), ignored_columns, ignored_indices),
        }
    }
}

/// The next question for a diff: a table question while tables are both
/// dropped and created, else the first column or index question.
pub open spec fn next_question_for(
    items: Seq<TableChange>,
    ignored_tables: Seq<TableId>,
    ignored_columns: Seq<(TableId, (usize, usize))>,
    ignored_indices: Seq<(TableId, (usize, usize))>,
) -> Option<Question> {
    let dt = open_dropped_tables(items, ignored_tables);
    let ct = created_tables(items);
    if dt.len() > 0 && ct.len() > 0 {
        Some(Question::Table(dt[0], ct))
    } else {
        first_alter_question(items, ignored_columns, ignored_indices)
    }
}

/// A question referring to the entries of the schemas it is about.
pub enum RenameQuestion<'a> {
    /// Table `dropped` is missing; is it one of `candidates`, renamed?
    Table { dropped: &'a Table, candidates: Vec<&'a Table> },
    /// Column `dropped` of `table` is missing; is it one of `candidates`?
    Column { table: &'a Table, dropped: &'a Column, candidates: Vec<&'a Column> },
    /// Index `dropped` of `table` is missing; is it one of `candidates`?
    Index { table: &'a Table, dropped: &'a Index, candidates: Vec<&'a Index> },
}

pub open spec fn deref_all<'a, T>(s: Seq<&'a T>) -> Seq<T> {
    s.map_values(|r: &'a T| *r)
}

impl<'a> RenameQuestion<'a> {
    pub open spec fn view(&self) -> Question {
        match *self {
            RenameQuestion::Table { dropped, candidates } => Question::Table(*dropped, deref_all(candidates@)),
            RenameQuestion::Column { table, dropped, candidates } => Question::Column(*table, *dropped, deref_all(candidates@)),
            RenameQuestion::Index { table, dropped, candidates } => Question::Index(*table, *dropped, deref_all(candidates@)),
        }
    }

    /// The number of rename candidates; answers range from 0 (dropped) to
    /// this number.
    pub open spec fn spec_num_candidates(&self) -> nat {
        match *self {
            RenameQuestion::Table { candidates, .. } => candidates@.len(),
            RenameQuestion::Column { candidates, .. } => candidates@.len(),
            RenameQuestion::Index { candidates, .. } => candidates@.len(),
        }
    }

    /// The number of rename candidates.
    pub fn num_candidates(&self) -> (r: usize)
        ensures
            r == self.spec_num_candidates(),
    {
        match self {
            RenameQuestion::Table { candidates, .. } => candidates.len(),
            RenameQuestion::Column { candidates, .. } => candidates.len(),
            RenameQuestion::Index { candidates, .. } => candidates.len(),
        }
    }
}

fn contains_table(s: &Vec<TableId>, id: TableId) -> (r: bool)
    ensures
        r == s@.contains(id),
{
    let mut i: usize = 0;
    while i < s.len()
        invariant
            i <= s@.len(),
            forall|k: int| 0 <= k < i ==> s@[k] != id,
        decreases s@.len() - i,
    {
        if s[i] == id {
            assert(s@[i as int] == id);
            return true;
        }
        i = i + 1;
    }
    false
}

fn contains_pair(s: &Vec<(TableId, (usize, usize))>, p: (TableId, (usize, usize))) -> (r: bool)
    ensures
        r == s@.contains(p),
{
    let mut i: usize = 0;
    while i < s.len()
        invariant
            i <= s@.len(),
            forall|k: int| 0 <= k < i ==> s@[k] != p,
        decreases s@.len() - i,
    {
        let e = s[i];
        if e.0 == p.0 && e.1.0 == p.1.0 && e.1.1 == p.1.1 {
            assert(s@[i as int] == p);
            return true;
        }
        i = i + 1;
    }
    false
}

/// The state of the dialogue that asks the user, for each missing table,
/// column or index, whether it was dropped or renamed.
///
/// Each step computes the diff under the hints gathered so far and either
/// asks the next question or finds nothing more to ask. A rename answer adds
/// a hint (so the next diff changes); a drop answer is remembered so that
/// the same entry is not asked about again.
pub struct RenameSession {
    hints: RenameHints,
    stored: StoredRenameHints,
    ignored_tables: Vec<TableId>,
    ignored_columns: Vec<(TableId, (usize, usize))>,
    ignored_indices: Vec<(TableId, (usize, usize))>,
}

impl RenameSession {
    #[verifier::type_invariant]
    spec fn inv(self) -> bool {
        &&& self.hints.table_map() == stored_table_map(self.stored.tables@)
        &&& self.hints.column_map() == stored_column_map(self.stored.columns@)
        &&& self.hints.index_map() == stored_index_map(self.stored.indices@)
    }

    pub closed spec fn spec_hints(&self) -> RenameHints {
        self.hints
    }

    pub closed spec fn spec_stored(&self) -> StoredRenameHints {
        self.stored
    }

    pub closed spec fn spec_ignored_tables(&self) -> Seq<TableId> {
        self.ignored_tables@
    }

    pub closed spec fn spec_ignored_columns(&self) -> Seq<(TableId, (usize, usize))> {
        self.ignored_columns@
    }

    pub closed spec fn spec_ignored_indices(&self) -> Seq<(TableId, (usize, usize))> {
        self.ignored_indices@
    }

    /// The question this session asks next about the change from `previous`
    /// to `next`.
    pub open spec fn spec_next_question(&self, previous: Schema, next: Schema) -> Option<Question> {
        next_question_for(
            schema_changes(previous, next, self.spec_hints()),
            self.spec_ignored_tables(),
            self.spec_ignored_columns(),
            self.spec_ignored_indices(),
        )
    }

    /// A session with no hints and nothing confirmed.
    pub fn new() -> (r: Self)
        ensures
            r.spec_hints().table_map() == Map::<(usize, usize), (usize, usize)>::empty(),
            r.spec_hints().column_map() == Map::<(usize, usize), (usize, usize)>::empty(),
            r.spec_hints().index_map() == Map::<(usize, usize), (usize, usize)>::empty(),
            r.spec_stored().tables@.len() == 0,
            r.spec_stored().columns@.len() == 0,
            r.spec_stored().indices@.len() == 0,
            r.spec_ignored_tables().len() == 0,
            r.spec_ignored_columns().len() == 0,
            r.spec_ignored_indices().len() == 0,
    {
        RenameSession {
            hints: RenameHints::new(),
            stored: StoredRenameHints::new(),
            ignored_tables: Vec::new(),
            ignored_columns: Vec::new(),
            ignored_indices: Vec::new(),
        }
    }

    /// The hints gathered so far.
    pub fn hints(&self) -> (r: &RenameHints)
        ensures
            *r == self.spec_hints(),
    {
        &self.hints
    }

    /// Ends the session, giving the hints for diff computation and their
    /// stored form for the snapshot file.
    pub fn finish(self) -> (r: (RenameHints, StoredRenameHints))
        ensures
            r.0 == self.spec_hints(),
            r.1 == self.spec_stored(),
            r.0.table_map() == stored_table_map(r.1.tables@),
            r.0.column_map() == stored_column_map(r.1.columns@),
            r.0.index_map() == stored_index_map(r.1.indices@),
    {
        proof {
            use_type_invariant(&self);
        }
        (self.hints, self.stored)
    }
}

pub open spec fn question_view<'a>(q: Option<RenameQuestion<'a>>) -> Option<Question> {
    match q {
        Some(q) => Some(q.view()),
        None => None,
    }
}

/// The tables that `items` drops (and the user has not confirmed) and the
/// tables it creates.
fn collect_tables<'a>(items: &Vec<TablesDiffItem<'a>>, ignored: &Vec<TableId>) -> (r: (Vec<&'a Table>, Vec<&'a Table>))
    ensures
        deref_all(r.0@) == open_dropped_tables(table_item_views(items@), ignored@),
        deref_all(r.1@) == created_tables(table_item_views(items@)),
{
    let mut dropped: Vec<&'a Table> = Vec::new();
    let mut created: Vec<&'a Table> = Vec::new();
    let mut i: usize = 0;
    while i < items.len()
        invariant
            i <= items@.len(),
            deref_all(dropped@) == open_dropped_tables(table_item_views(items@.take(i as int)), ignored@),
            deref_all(created@) == created_tables(table_item_views(items@.take(i as int))),
        decreases items@.len() - i,
    {
        let ghost d0 = dropped@;
        let ghost c0 = created@;
        assert(table_item_views(items@.take(i + 1)).drop_last() =~= table_item_views(items@.take(i as int)));
        assert(table_item_views(items@.take(i + 1)).last() == items@[i as int].view());
        match &items[i] {
            TablesDiffItem::DropTable(t) => {
                let t: &'a Table = *t;
                if !contains_table(ignored, t.id) {
                    dropped.push(t);
                    assert(deref_all(dropped@) =~= deref_all(d0).push(*t));
                }
            },
            TablesDiffItem::CreateTable(t) => {
                let t: &'a Table = *t;
                created.push(t);
                assert(deref_all(created@) =~= deref_all(c0).push(*t));
            },
            _ => {},
        }
        i = i + 1;
    }
    assert(items@.take(items@.len() as int) =~= items@);
    (dropped, created)
}

/// The columns that `cols` drops from `table` (and the user has not
/// confirmed) and the columns it adds.
fn collect_columns<'a>(
    cols: &Vec<ColumnsDiffItem<'a>>,
    table: TableId,
    ignored: &Vec<(TableId, (usize, usize))>,
) -> (r: (Vec<&'a Column>, Vec<&'a Column>))
    ensures
        deref_all(r.0@) == open_dropped(column_item_views(cols@), table, ignored@, |c: Column| column_id_key(c)),
        deref_all(r.1@) == added(column_item_views(cols@)),
{
    let ghost key = |c: Column| column_id_key(c);
    let mut dropped: Vec<&'a Column> = Vec::new();
    let mut adds: Vec<&'a Column> = Vec::new();
    let mut i: usize = 0;
    while i < cols.len()
        invariant
            i <= cols@.len(),
            key == (|c: Column| column_id_key(c)),
            deref_all(dropped@) == open_dropped(column_item_views(cols@.take(i as int)), table, ignored@, key),
            deref_all(adds@) == added(column_item_views(cols@.take(i as int))),
        decreases cols@.len() - i,
    {
        let ghost d0 = dropped@;
        let ghost a0 = adds@;
        assert(column_item_views(cols@.take(i + 1)).drop_last() =~= column_item_views(cols@.take(i as int)));
        assert(column_item_views(cols@.take(i + 1)).last() == cols@[i as int].view());
        match &cols[i] {
            ColumnsDiffItem::DropColumn(c) => {
                let c: &'a Column = *c;
                if !contains_pair(ignored, (table, (c.id.table.0, c.id.index))) {
                    dropped.push(c);
                    assert(deref_all(dropped@) =~= deref_all(d0).push(*c));
                }
            },
            ColumnsDiffItem::AddColumn(c) => {
                let c: &'a Column = *c;
                adds.push(c);
                assert(deref_all(adds@) =~= deref_all(a0).push(*c));
            },
            _ => {},
        }
        i = i + 1;
    }
    assert(cols@.take(cols@.len() as int) =~= cols@);
    (dropped, adds)
}

/// The indices that `idxs` drops from `table` (and the user has not
/// confirmed) and the indices it creates.
fn collect_indices<'a>(
    idxs: &Vec<IndicesDiffItem<'a>>,
    table: TableId,
    ignored: &Vec<(TableId, (usize, usize))>,
) -> (r: (Vec<&'a Index>, Vec<&'a Index>))
    ensures
        deref_all(r.0@) == open_dropped(index_item_views(idxs@), table, ignored@, |i: Index| index_id_key(i)),
        deref_all(r.1@) == added(index_item_views(idxs@)),
{
    let ghost key = |i: Index| index_id_key(i);
    let mut dropped: Vec<&'a Index> = Vec::new();
    let mut adds: Vec<&'a Index> = Vec::new();
    let mut i: usize = 0;
    while i < idxs.len()
        invariant
            i <= idxs@.len(),
            key == (|i: Index| index_id_key(i)),
            deref_all(dropped@) == open_dropped(index_item_views(idxs@.take(i as int)), table, ignored@, key),
            deref_all(adds@) == added(index_item_views(idxs@.take(i as int))),
        decreases idxs@.len() - i,
    {
        let ghost d0 = dropped@;
        let ghost a0 = adds@;
        assert(index_item_views(idxs@.take(i + 1)).drop_last() =~= index_item_views(idxs@.take(i as int)));
        assert(index_item_views(idxs@.take(i + 1)).last() == idxs@[i as int].view());
        match &idxs[i] {
            IndicesDiffItem::DropIndex(x) => {
                let x: &'a Index = *x;
                if !contains_pair(ignored, (table, (x.id.table.0, x.id.index))) {
                    dropped.push(x);
                    assert(deref_all(dropped@) =~= deref_all(d0).push(*x));
                }
            },
            IndicesDiffItem::CreateIndex(x) => {
                let x: &'a Index = *x;
                adds.push(x);
                assert(deref_all(adds@) =~= deref_all(a0).push(*x));
            },
            _ => {},
        }
        i = i + 1;
    }
    assert(idxs@.take(idxs@.len() as int) =~= idxs@);
    (dropped, adds)
}

/// The question that one table change raises, if any.
fn alter_question_of<'a>(
    item: &TablesDiffItem<'a>,
    ignored_columns: &Vec<(TableId, (usize, usize))>,
    ignored_indices: &Vec<(TableId, (usize, usize))>,
) -> (r: Option<RenameQuestion<'a>>)
    ensures
        question_view(r) == alter_question(item.view(), ignored_columns@, ignored_indices@),
{
    match item {
        TablesDiffItem::AlterTable { previous, next: _, columns, indices } => {
            let previous: &'a Table = *previous;
            let (dc, ac) = collect_columns(columns, previous.id, ignored_columns);
            if dc.len() > 0 && ac.len() > 0 {
                let q = RenameQuestion::Column { table: previous, dropped: dc[0], candidates: ac };
                assert(deref_all(dc@)[0] == *dc@[0]);
                return Some(q);
            }
            let (di, ai) = collect_indices(indices, previous.id, ignored_indices);
            if di.len() > 0 && ai.len() > 0 {
                let q = RenameQuestion::Index { table: previous, dropped: di[0], candidates: ai };
                assert(deref_all(di@)[0] == *di@[0]);
                return Some(q);
            }
            None
        },
        _ => None,
    }
}

impl RenameSession {
    /// The next question to ask about the change from `previous` to `next`
    /// under the hints gathered so far, or `None` when there is nothing more
    /// to ask.
    pub fn next_question<'a>(&self, previous: &'a Schema, next: &'a Schema) -> (r: Option<RenameQuestion<'a>>)
        ensures
            question_view(r) == self.spec_next_question(*previous, *next),
    {
        let diff = SchemaDiff::from(previous, next, &self.hints);
        let items = diff.tables();
        let ghost views = table_item_views(items@);
        let (dt, ct) = collect_tables(items, &self.ignored_tables);
        if dt.len() > 0 && ct.len() > 0 {
            assert(deref_all(dt@)[0] == *dt@[0]);
            return Some(RenameQuestion::Table { dropped: dt[0], candidates: ct });
        }
        let mut found: Option<RenameQuestion<'a>> = None;
        let mut i: usize = 0;
        while i < items.len()
            invariant
                i <= items@.len(),
                views == table_item_views(items@),
                question_view(found) == first_alter_question(
                    table_item_views(items@.take(i as int)),
                    self.ignored_columns@,
                    self.ignored_indices@,
                ),
            decreases items@.len() - i,
        {
            assert(table_item_views(items@.take(i + 1)).drop_last() =~= table_item_views(items@.take(i as int)));
            assert(table_item_views(items@.take(i + 1)).last() == items@[i as int].view());
            if found.is_none() {
                found = alter_question_of(&items[i], &self.ignored_columns, &self.ignored_indices);
            }
            i = i + 1;
        }
        assert(items@.take(items@.len() as int) =~= items@);
        found
    }
}

impl RenameSession {
    /// Records the user's answer to `question`: `0` confirms the entry as
    /// dropped, `k > 0` renames it to the `k`-th candidate.
    pub fn answer<'a>(&mut self, question: &RenameQuestion<'a>, selection: usize)
        requires
            selection <= question.spec_num_candidates(),
        ensures
            match question.view() {
                Question::Table(d, cands) => if selection == 0 {
                    &&& final(self).spec_ignored_tables() == old(self).spec_ignored_tables().push(d.id)
                    &&& final(self).spec_hints() == old(self).spec_hints()
                    &&& final(self).spec_stored() == old(self).spec_stored()
                } else {
                    let c = cands[selection - 1];
                    &&& final(self).spec_ignored_tables() == old(self).spec_ignored_tables()
                    &&& final(self).spec_hints().table_map() == old(self).spec_hints().table_map().insert(
                        (d.id.0, 0usize),
                        (c.id.0, 0usize),
                    )
                    &&& final(self).spec_hints().column_map() == old(self).spec_hints().column_map()
                    &&& final(self).spec_hints().index_map() == old(self).spec_hints().index_map()
                    &&& final(self).spec_stored().tables@ == old(self).spec_stored().tables@.push(
                        StoredTableRename { from: d.id.0, to: c.id.0 },
                    )
                    &&& final(self).spec_stored().columns@ == old(self).spec_stored().columns@
                    &&& final(self).spec_stored().indices@ == old(self).spec_stored().indices@
                },
                Question::Column(t, d, cands) => if selection == 0 {
                    &&& final(self).spec_ignored_columns() == old(self).spec_ignored_columns().push(
                        (t.id, column_id_key(d)),
                    )
                    &&& final(self).spec_ignored_tables() == old(self).spec_ignored_tables()
                    &&& final(self).spec_hints() == old(self).spec_hints()
                    &&& final(self).spec_stored() == old(self).spec_stored()
                } else {
                    let c = cands[selection - 1];
                    &&& final(self).spec_ignored_columns() == old(self).spec_ignored_columns()
                    &&& final(self).spec_ignored_tables() == old(self).spec_ignored_tables()
                    &&& final(self).spec_hints().column_map() == old(self).spec_hints().column_map().insert(
                        column_id_key(d),
                        column_id_key(c),
                    )
                    &&& final(self).spec_hints().table_map() == old(self).spec_hints().table_map()
                    &&& final(self).spec_hints().index_map() == old(self).spec_hints().index_map()
                    &&& final(self).spec_stored().columns@ == old(self).spec_stored().columns@.push(
                        StoredColumnRename {
                            from_table: d.id.table.0,
                            from_col: d.id.index,
                            to_table: c.id.table.0,
                            to_col: c.id.index,
                        },
                    )
                    &&& final(self).spec_stored().tables@ == old(self).spec_stored().tables@
                    &&& final(self).spec_stored().indices@ == old(self).spec_stored().indices@
                },
                Question::Index(t, d, cands) => if selection == 0 {
                    &&& final(self).spec_ignored_indices() == old(self).spec_ignored_indices().push(
                        (t.id, index_id_key(d)),
                    )
                    &&& final(self).spec_ignored_tables() == old(self).spec_ignored_tables()
                    &&& final(self).spec_hints() == old(self).spec_hints()
                    &&& final(self).spec_stored() == old(self).spec_stored()
                } else {
                    let c = cands[selection - 1];
                    &&& final(self).spec_ignored_indices() == old(self).spec_ignored_indices()
                    &&& final(self).spec_ignored_tables() == old(self).spec_ignored_tables()
                    &&& final(self).spec_hints().index_map() == old(self).spec_hints().index_map().insert(
                        index_id_key(d),
                        index_id_key(c),
                    )
                    &&& final(self).spec_hints().table_map() == old(self).spec_hints().table_map()
                    &&& final(self).spec_hints().column_map() == old(self).spec_hints().column_map()
                    &&& final(self).spec_stored().indices@ == old(self).spec_stored().indices@.push(
                        StoredIndexRename {
                            from_table: d.id.table.0,
                            from_idx: d.id.index,
                            to_table: c.id.table.0,
                            to_idx: c.id.index,
                        },
                    )
                    &&& final(self).spec_stored().tables@ == old(self).spec_stored().tables@
                    &&& final(self).spec_stored().columns@ == old(self).spec_stored().columns@
                },
            },
            match question.view() {
                Question::Table(..) => final(self).spec_ignored_columns() == old(self).spec_ignored_columns()
                    && final(self).spec_ignored_indices() == old(self).spec_ignored_indices(),
                Question::Column(..) => final(self).spec_ignored_indices() == old(self).spec_ignored_indices(),
                Question::Index(..) => final(self).spec_ignored_columns() == old(self).spec_ignored_columns(),
            },
    {
        let mut cur = RenameSession::new();
        std::mem::swap(&mut cur, self);
        proof {
            use_type_invariant(&cur);
        }
        let RenameSession {
            mut hints,
            mut stored,
            mut ignored_tables,
            mut ignored_columns,
            mut ignored_indices,
        } = cur;
        match question {
            RenameQuestion::Table { dropped, candidates } => {
                if selection == 0 {
                    ignored_tables.push(dropped.id);
                } else {
                    let to = candidates[selection - 1];
                    let ghost s0 = stored.tables@;
                    stored.tables.push(StoredTableRename { from: dropped.id.0, to: to.id.0 });
                    assert(stored.tables@.drop_last() =~= s0);
                    hints.add_table_hint(dropped.id, to.id);
                }
            },
            RenameQuestion::Column { table, dropped, candidates } => {
                if selection == 0 {
                    ignored_columns.push((table.id, (dropped.id.table.0, dropped.id.index)));
                } else {
                    let to = candidates[selection - 1];
                    let ghost s0 = stored.columns@;
                    stored.columns.push(
                        StoredColumnRename {
                            from_table: dropped.id.table.0,
                            from_col: dropped.id.index,
                            to_table: to.id.table.0,
                            to_col: to.id.index,
                        },
                    );
                    assert(stored.columns@.drop_last() =~= s0);
                    hints.add_column_hint(dropped.id, to.id);
                }
            },
            RenameQuestion::Index { table, dropped, candidates } => {
                if selection == 0 {
                    ignored_indices.push((table.id, (dropped.id.table.0, dropped.id.index)));
                } else {
                    let to = candidates[selection - 1];
                    let ghost s0 = stored.indices@;
                    stored.indices.push(
                        StoredIndexRename {
                            from_table: dropped.id.table.0,
                            from_idx: dropped.id.index,
                            to_table: to.id.table.0,
                            to_idx: to.id.index,
                        },
                    );
                    assert(stored.indices@.drop_last() =~= s0);
                    hints.add_index_hint(dropped.id, to.id);
                }
            },
        }
        *self = RenameSession { hints, stored, ignored_tables, ignored_columns, ignored_indices };
    }
}

proof fn lemma_open_dropped_tables_not_ignored(items: Seq<TableChange>, ignored: Seq<TableId>)
    ensures
        forall|k: int|
            0 <= k < open_dropped_tables(items, ignored).len() ==> !ignored.contains(
                (#[trigger] open_dropped_tables(items, ignored)[k]).id,
            ),
    decreases items.len(),
{
    if items.len() > 0 {
        lemma_open_dropped_tables_not_ignored(items.drop_last(), ignored);
        let rest = open_dropped_tables(items.drop_last(), ignored);
        let cur = open_dropped_tables(items, ignored);
        assert forall|k: int| 0 <= k < cur.len() implies !ignored.contains((#[trigger] cur[k]).id) by {
            if k < rest.len() {
                assert(cur[k] == rest[k]);
            }
        }
    }
}

proof fn lemma_open_dropped_not_ignored<T>(
    changes: Seq<Change<T>>,
    table: TableId,
    ignored: Seq<(TableId, (usize, usize))>,
    key: spec_fn(T) -> (usize, usize),
)
    ensures
        forall|k: int|
            0 <= k < open_dropped(changes, table, ignored, key).len() ==> !ignored.contains(
                (table, key(#[trigger] open_dropped(changes, table, ignored, key)[k])),
            ),
    decreases changes.len(),
{
    if changes.len() > 0 {
        lemma_open_dropped_not_ignored(changes.drop_last(), table, ignored, key);
        let rest = open_dropped(changes.drop_last(), table, ignored, key);
        let cur = open_dropped(changes, table, ignored, key);
        assert forall|k: int| 0 <= k < cur.len() implies !ignored.contains((table, key(#[trigger] cur[k]))) by {
            if k < rest.len() {
                assert(cur[k] == rest[k]);
            }
        }
    }
}

proof fn lemma_alter_questions_not_ignored(
    items: Seq<TableChange>,
    ignored_columns: Seq<(TableId, (usize, usize))>,
    ignored_indices: Seq<(TableId, (usize, usize))>,
)
    ensures
        first_alter_question(items, ignored_columns, ignored_indices) matches Some(Question::Column(t, d, _))
            ==> !ignored_columns.contains((t.id, column_id_key(d))),
        first_alter_question(items, ignored_columns, ignored_indices) matches Some(Question::Index(t, d, _))
            ==> !ignored_indices.contains((t.id, index_id_key(d))),
        !(first_alter_question(items, ignored_columns, ignored_indices) is Some && first_alter_question(
            items,
            ignored_columns,
            ignored_indices,
        )->0 is Table),
    decreases items.len(),
{
    if items.len() > 0 {
        lemma_alter_questions_not_ignored(items.drop_last(), ignored_columns, ignored_indices);
        if let TableChange::Alter(p, n, cols, idxs) = items.last() {
            lemma_open_dropped_not_ignored(cols, p.id, ignored_columns, |c: Column| column_id_key(c));
            lemma_open_dropped_not_ignored(idxs, p.id, ignored_indices, |i: Index| index_id_key(i));
        }
    }
}

/// Once the user confirms that a table, column or index was dropped, the
/// session does not ask about it again: no question names a dropped entry
/// that the session has recorded as confirmed.
pub proof fn law_confirmed_drop_not_asked_again(
    items: Seq<TableChange>,
    ignored_tables: Seq<TableId>,
    ignored_columns: Seq<(TableId, (usize, usize))>,
    ignored_indices: Seq<(TableId, (usize, usize))>,
)
    ensures
        ({
            let q = next_question_for(items, ignored_tables, ignored_columns, ignored_indices);
            &&& q matches Some(Question::Table(d, _)) ==> !ignored_tables.contains(d.id)
            &&& q matches Some(Question::Column(t, d, _)) ==> !ignored_columns.contains((t.id, column_id_key(d)))
            &&& q matches Some(Question::Index(t, d, _)) ==> !ignored_indices.contains((t.id, index_id_key(d)))
        }),
{
    lemma_open_dropped_tables_not_ignored(items, ignored_tables);
    lemma_alter_questions_not_ignored(items, ignored_columns, ignored_indices);
}

/// Every table rename hint in `hints` names a table of `next`.
pub open spec fn table_hints_target(hints: RenameHints, next: Schema) -> bool {
    forall|k: (usize, usize)|
        #[trigger] hints.table_map().contains_key(k) ==> exists|j: int|
            0 <= j < next.tables@.len() && table_key(next.tables@[j].id) == hints.table_map()[k]
}

/// `t` is one of the tables of `ts`.
pub open spec fn has_table(ts: Seq<Table>, t: Table) -> bool {
    exists|j: int| 0 <= j < ts.len() && ts[j] == t
}

proof fn lemma_first_match_exists<T>(s: Seq<T>, p: spec_fn(T) -> bool, j: int)
    requires
        0 <= j < s.len(),
        p(s[j]),
    ensures
        first_match(s, p) is Some,
    decreases j,
{
    if exists|k: int| 0 <= k < j && p(#[trigger] s[k]) {
        let k = choose|k: int| 0 <= k < j && p(#[trigger] s[k]);
        lemma_first_match_exists(s, p, k);
    } else {
        assert(is_first(s, p, j));
        lemma_first_match_some(s, p, j);
    }
}

proof fn lemma_removals_shape(prev: Seq<Table>, next: Seq<Table>, hints: RenameHints)
    ensures
        forall|i: int|
            0 <= i < table_removals(prev, next, hints).len() ==> match #[trigger] table_removals(
                prev,
                next,
                hints,
            )[i] {
                TableChange::Drop(t) => has_table(prev, t) && match_position(t, next, hints.table_map()) is None,
                TableChange::Create(_) => false,
                _ => true,
            },
    decreases prev.len(),
{
    if prev.len() > 0 {
        lemma_removals_shape(prev.drop_last(), next, hints);
        let rest = table_removals(prev.drop_last(), next, hints);
        let cur = table_removals(prev, next, hints);
        assert forall|i: int| 0 <= i < cur.len() implies match #[trigger] cur[i] {
            TableChange::Drop(t) => has_table(prev, t) && match_position(t, next, hints.table_map()) is None,
            TableChange::Create(_) => false,
            _ => true,
        } by {
            if i < rest.len() {
                assert(cur[i] == rest[i]);
                if let TableChange::Drop(t) = rest[i] {
                    let j = choose|j: int| 0 <= j < prev.drop_last().len() && prev.drop_last()[j] == t;
                    assert(prev[j] == t);
                }
            } else {
                assert(prev[prev.len() - 1] == prev.last());
            }
        }
    }
}

proof fn lemma_additions_shape(prev: Seq<Table>, next: Seq<Table>, hints: RenameHints, n: int)
    requires
        n <= next.len(),
    ensures
        forall|i: int|
            0 <= i < table_additions(prev, next, hints, n).len() ==> (#[trigger] table_additions(
                prev,
                next,
                hints,
                n,
            )[i] matches TableChange::Create(t) && has_table(next, t)),
    decreases n,
{
    if n > 0 {
        lemma_additions_shape(prev, next, hints, n - 1);
        let rest = table_additions(prev, next, hints, n - 1);
        let cur = table_additions(prev, next, hints, n);
        assert forall|i: int| 0 <= i < cur.len() implies (#[trigger] cur[i] matches TableChange::Create(t)
            && has_table(next, t)) by {
            if i < rest.len() {
                assert(cur[i] == rest[i]);
            } else {
                assert(cur[i] == TableChange::Create(next[n - 1]));
            }
        }
    }
}

proof fn lemma_open_dropped_tables_from(items: Seq<TableChange>, ignored: Seq<TableId>)
    ensures
        forall|k: int|
            0 <= k < open_dropped_tables(items, ignored).len() ==> exists|i: int|
                0 <= i < items.len() && items[i] == TableChange::Drop(
                    #[trigger] open_dropped_tables(items, ignored)[k],
                ),
    decreases items.len(),
{
    if items.len() > 0 {
        lemma_open_dropped_tables_from(items.drop_last(), ignored);
        let rest = open_dropped_tables(items.drop_last(), ignored);
        let cur = open_dropped_tables(items, ignored);
        assert forall|k: int| 0 <= k < cur.len() implies exists|i: int|
            0 <= i < items.len() && items[i] == TableChange::Drop(#[trigger] cur[k]) by {
            if k < rest.len() {
                assert(cur[k] == rest[k]);
                let i = choose|i: int|
                    0 <= i < items.drop_last().len() && items.drop_last()[i] == TableChange::Drop(rest[k]);
                assert(items[i] == items.drop_last()[i]);
            } else {
                assert(items[items.len() - 1] == items.last());
            }
        }
    }
}

proof fn lemma_created_tables_from(items: Seq<TableChange>)
    ensures
        forall|k: int|
            0 <= k < created_tables(items).len() ==> exists|i: int|
                0 <= i < items.len() && items[i] == TableChange::Create(#[trigger] created_tables(items)[k]),
    decreases items.len(),
{
    if items.len() > 0 {
        lemma_created_tables_from(items.drop_last());
        let rest = created_tables(items.drop_last());
        let cur = created_tables(items);
        assert forall|k: int| 0 <= k < cur.len() implies exists|i: int|
            0 <= i < items.len() && items[i] == TableChange::Create(#[trigger] cur[k]) by {
            if k < rest.len() {
                assert(cur[k] == rest[k]);
                let i = choose|i: int|
                    0 <= i < items.drop_last().len() && items.drop_last()[i] == TableChange::Create(rest[k]);
                assert(items[i] == items.drop_last()[i]);
            } else {
                assert(items[items.len() - 1] == items.last());
            }
        }
    }
}

/// Each answer to a table question is progress. The table asked about is a
/// table of the previous schema, not yet confirmed as dropped and with no
/// rename hint yet (so answering either confirms it or gives it its first
/// hint), and every candidate is a table of the new schema (so the hints
/// keep naming tables of the new schema). The previous tables that are
/// neither confirmed nor hinted therefore become fewer with each table
/// answer.
pub proof fn law_table_answer_makes_progress(
    previous: Schema,
    next: Schema,
    hints: RenameHints,
    ignored_tables: Seq<TableId>,
    ignored_columns: Seq<(TableId, (usize, usize))>,
    ignored_indices: Seq<(TableId, (usize, usize))>,
)
    requires
        table_hints_target(hints, next),
    ensures
        next_question_for(
            schema_changes(previous, next, hints),
            ignored_tables,
            ignored_columns,
            ignored_indices,
        ) matches Some(Question::Table(d, candidates)) ==> {
            &&& has_table(previous.tables@, d)
            &&& !ignored_tables.contains(d.id)
            &&& !hints.table_map().contains_key(table_key(d.id))
            &&& forall|k: int| 0 <= k < candidates.len() ==> has_table(next.tables@, #[trigger] candidates[k])
        },
{
    let items = schema_changes(previous, next, hints);
    let removed = table_removals(previous.tables@, next.tables@, hints);
    let added = table_additions(previous.tables@, next.tables@, hints, next.tables@.len() as int);
    let q = next_question_for(items, ignored_tables, ignored_columns, ignored_indices);
    if let Some(Question::Table(d, candidates)) = q {
        lemma_open_dropped_tables_not_ignored(items, ignored_tables);
        lemma_open_dropped_tables_from(items, ignored_tables);
        lemma_created_tables_from(items);
        lemma_removals_shape(previous.tables@, next.tables@, hints);
        lemma_additions_shape(previous.tables@, next.tables@, hints, next.tables@.len() as int);
        lemma_alter_questions_not_ignored(items, ignored_columns, ignored_indices);
        let dt = open_dropped_tables(items, ignored_tables);
        let ct = created_tables(items);
        assert(dt.len() > 0 && ct.len() > 0);
        assert(d == dt[0] && candidates == ct);
        assert(items == removed + added);
        let i = choose|i: int| 0 <= i < items.len() && items[i] == TableChange::Drop(dt[0]);
        if i >= removed.len() {
            assert(items[i] == added[i - removed.len()]);
        }
        assert(items[i] == removed[i]);
        assert(match_position(d, next.tables@, hints.table_map()) is None);
        if hints.table_map().contains_key(table_key(d.id)) {
            let target = hints.table_map()[table_key(d.id)];
            let j = choose|j: int| 0 <= j < next.tables@.len() && table_key(next.tables@[j].id) == target;
            let by_key = |c: Table| c.entry_key() == hints.table_map()[d.entry_key()];
            assert(d.entry_key() == table_key(d.id));
            assert(next.tables@[j].entry_key() == table_key(next.tables@[j].id));
            assert(by_key(next.tables@[j]));
            lemma_first_match_exists(next.tables@, by_key, j);
            assert(first_match(next.tables@, by_key) is Some);
            assert(match_position(d, next.tables@, hints.table_map()) is Some);
        }
        assert forall|k: int| 0 <= k < candidates.len() implies has_table(next.tables@, #[trigger] candidates[k]) by {
            let m = choose|m: int| 0 <= m < items.len() && items[m] == TableChange::Create(ct[k]);
            if m < removed.len() {
                assert(items[m] == removed[m]);
            } else {
                assert(items[m] == added[m - removed.len()]);
            }
        }
    }
}

/// Generating again with the schema of the last snapshot is a no-op: a
/// fresh session asks nothing, and the diff under its (empty) hints has no
/// changes, so nothing is recorded. This holds when no two tables, and no
/// two columns or indices of one table, share a name.
pub proof fn law_regenerate_unchanged_is_noop(
    s: Schema,
    hints: RenameHints,
    ignored_tables: Seq<TableId>,
    ignored_columns: Seq<(TableId, (usize, usize))>,
    ignored_indices: Seq<(TableId, (usize, usize))>,
)
    requires
        hints.table_map() == Map::<(usize, usize), (usize, usize)>::empty(),
        hints.column_map() == Map::<(usize, usize), (usize, usize)>::empty(),
        hints.index_map() == Map::<(usize, usize), (usize, usize)>::empty(),
        schema_names_distinct(s),
    ensures
        next_question_for(schema_changes(s, s, hints), ignored_tables, ignored_columns, ignored_indices) is None,
        schema_changes(s, s, hints).len() == 0,
{
    law_same_schema_no_diff(s, hints);
    let items = schema_changes(s, s, hints);
    assert(open_dropped_tables(items, ignored_tables).len() == 0);
    assert(first_alter_question(items, ignored_columns, ignored_indices) is None);
}

proof fn lemma_first_alter_question_scan(
    items: Seq<TableChange>,
    ignored_columns: Seq<(TableId, (usize, usize))>,
    ignored_indices: Seq<(TableId, (usize, usize))>,
)
    ensures
        first_alter_question(items, ignored_columns, ignored_indices) is None <==> forall|k: int|
            0 <= k < items.len() ==> (#[trigger] alter_question(items[k], ignored_columns, ignored_indices)) is None,
        first_alter_question(items, ignored_columns, ignored_indices) matches Some(q) ==> exists|k: int|
            0 <= k < items.len() && #[trigger] alter_question(items[k], ignored_columns, ignored_indices) == Some(q)
                && forall|m: int| 0 <= m < k ==> (#[trigger] alter_question(items[m], ignored_columns, ignored_indices)) is None,
    decreases items.len(),
{
    if items.len() > 0 {
        let q = items.drop_last();
        lemma_first_alter_question_scan(q, ignored_columns, ignored_indices);
        assert forall|k: int| 0 <= k < q.len() implies #[trigger] q[k] == items[k] by {}
        let last = items.len() - 1;
        assert(items.last() == items[last]);
        if first_alter_question(q, ignored_columns, ignored_indices) is None {
            if first_alter_question(items, ignored_columns, ignored_indices) is None {
                assert forall|k: int| 0 <= k < items.len() implies (#[trigger] alter_question(
                    items[k],
                    ignored_columns,
                    ignored_indices,
                )) is None by {
                    if k < last {
                        assert(alter_question(q[k], ignored_columns, ignored_indices) is None);
                    }
                }
            }
            if let Some(x) = first_alter_question(items, ignored_columns, ignored_indices) {
                assert(alter_question(items[last], ignored_columns, ignored_indices) == Some(x));
                assert forall|m: int| 0 <= m < last implies (#[trigger] alter_question(
                    items[m],
                    ignored_columns,
                    ignored_indices,
                )) is None by {
                    assert(alter_question(q[m], ignored_columns, ignored_indices) is None);
                }
            }
        } else {
            let x = first_alter_question(q, ignored_columns, ignored_indices)->0;
            let k = choose|k: int|
                0 <= k < q.len() && #[trigger] alter_question(q[k], ignored_columns, ignored_indices) == Some(x)
                    && forall|m: int| 0 <= m < k ==> (#[trigger] alter_question(q[m], ignored_columns, ignored_indices)) is None;
            assert(alter_question(items[k], ignored_columns, ignored_indices) == Some(x));
            assert forall|m: int| 0 <= m < k implies (#[trigger] alter_question(items[m], ignored_columns, ignored_indices)) is None by {
                assert(alter_question(q[m], ignored_columns, ignored_indices) is None);
            }
        }
    }
}

/// The session looks at every altered table. It has nothing left to ask
/// only when no table is both dropped and created and no altered table,
/// wherever it stands in the diff, has both an unconfirmed dropped column
/// and an added one, or both an unconfirmed dropped index and an added one.
/// When it asks about a column or an index, the question comes from the
/// first altered table that raises one: about its first unconfirmed dropped
/// column (or index), with all its added ones as candidates.
pub proof fn law_every_altered_table_is_examined(
    items: Seq<TableChange>,
    ignored_tables: Seq<TableId>,
    ignored_columns: Seq<(TableId, (usize, usize))>,
    ignored_indices: Seq<(TableId, (usize, usize))>,
)
    ensures
        next_question_for(items, ignored_tables, ignored_columns, ignored_indices) is None <==> {
            &&& !(open_dropped_tables(items, ignored_tables).len() > 0 && created_tables(items).len() > 0)
            &&& forall|k: int|
                0 <= k < items.len() ==> (#[trigger] items[k] matches TableChange::Alter(p, _, cols, idxs) ==> {
                    &&& !(open_dropped(cols, p.id, ignored_columns, |c: Column| column_id_key(c)).len() > 0
                        && added(cols).len() > 0)
                    &&& !(open_dropped(idxs, p.id, ignored_indices, |i: Index| index_id_key(i)).len() > 0
                        && added(idxs).len() > 0)
                })
        },
        next_question_for(items, ignored_tables, ignored_columns, ignored_indices) matches Some(
            Question::Column(t, d, cands),
        ) ==> exists|k: int|
            0 <= k < items.len() && (#[trigger] items[k] matches TableChange::Alter(p, _, cols, _) && p == t && d
                == open_dropped(cols, p.id, ignored_columns, |c: Column| column_id_key(c))[0] && cands == added(
                cols,
            )),
        next_question_for(items, ignored_tables, ignored_columns, ignored_indices) matches Some(
            Question::Index(t, d, cands),
        ) ==> exists|k: int|
            0 <= k < items.len() && (#[trigger] items[k] matches TableChange::Alter(p, _, _, idxs) && p == t && d
                == open_dropped(idxs, p.id, ignored_indices, |i: Index| index_id_key(i))[0] && cands == added(
                idxs,
            )),
{
    lemma_first_alter_question_scan(items, ignored_columns, ignored_indices);
    let none_alter = forall|k: int|
        0 <= k < items.len() ==> (#[trigger] items[k] matches TableChange::Alter(p, _, cols, idxs) ==> {
            &&& !(open_dropped(cols, p.id, ignored_columns, |c: Column| column_id_key(c)).len() > 0 && added(cols).len()
                > 0)
            &&& !(open_dropped(idxs, p.id, ignored_indices, |i: Index| index_id_key(i)).len() > 0 && added(idxs).len()
                > 0)
        });
    if none_alter {
        assert forall|k: int| 0 <= k < items.len() implies (#[trigger] alter_question(
            items[k],
            ignored_columns,
            ignored_indices,
        )) is None by {
            assert(items[k] matches TableChange::Alter(p, _, cols, idxs) ==> {
                &&& !(open_dropped(cols, p.id, ignored_columns, |c: Column| column_id_key(c)).len() > 0 && added(
                    cols,
                ).len() > 0)
                &&& !(open_dropped(idxs, p.id, ignored_indices, |i: Index| index_id_key(i)).len() > 0 && added(
                    idxs,
                ).len() > 0)
            });
        }
    }
    if first_alter_question(items, ignored_columns, ignored_indices) is None {
        assert forall|k: int| 0 <= k < items.len() implies (#[trigger] items[k] matches TableChange::Alter(
            p,
            _,
            cols,
            idxs,
        ) ==> {
            &&& !(open_dropped(cols, p.id, ignored_columns, |c: Column| column_id_key(c)).len() > 0 && added(cols).len()
                > 0)
            &&& !(open_dropped(idxs, p.id, ignored_indices, |i: Index| index_id_key(i)).len() > 0 && added(idxs).len()
                > 0)
        }) by {
            assert(alter_question(items[k], ignored_columns, ignored_indices) is None);
        }
    }
    if let Some(x) = first_alter_question(items, ignored_columns, ignored_indices) {
        let k = choose|k: int|
            0 <= k < items.len() && #[trigger] alter_question(items[k], ignored_columns, ignored_indices) == Some(x)
                && forall|m: int| 0 <= m < k ==> (#[trigger] alter_question(items[m], ignored_columns, ignored_indices)) is None;
        assert(alter_question(items[k], ignored_columns, ignored_indices) == Some(x));
        assert(items[k] is Alter);
    }
}

} // verus!
