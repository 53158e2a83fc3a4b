use super::rename_hints::{column_key, index_key, table_key, IdPairs, RenameHints};
use super::table::{Column, Index, IndexColumn, Schema, Table};
use vstd::prelude::*;

verus! {

/// Something that a schema diff pairs up between two schemas: it has a key
/// that rename hints refer to, a name, and a notion of having changed.
pub trait DiffEntry: Sized {
    /// The key that rename hints use for this entry.
    spec fn entry_key(&self) -> (usize, usize);

    /// The entry's name.
    spec fn entry_name(&self) -> Seq<char>;

    /// Whether `other`, paired with this entry, differs from it.
    spec fn entry_differs(&self, other: &Self) -> bool;

    fn key(&self) -> (r: (usize, usize))
        ensures
            r == self.entry_key(),
    ;

    fn name_ref(&self) -> (r: &String)
        ensures
            r@ == self.entry_name(),
    ;

    fn differs(&self, other: &Self) -> (r: bool)
        ensures
            r == self.entry_differs(other),
    ;
}

/// `j` is the first position of `s` whose element satisfies `p`.
pub open spec fn is_first<T>(s: Seq<T>, p: spec_fn(T) -> bool, j: int) -> bool {
    &&& 0 <= j < s.len()
    &&& p(s[j])
    &&& forall|k: int| 0 <= k < j ==> !p(#[trigger] s[k])
}

/// The first position of `s` whose element satisfies `p`.
pub open spec fn first_match<T>(s: Seq<T>, p: spec_fn(T) -> bool) -> Option<int> {
    if exists|j: int| is_first(s, p, j) {
        Some(choose|j: int| is_first(s, p, j))
    } else {
        None
    }
}

pub proof fn lemma_first_match_some<T>(s: Seq<T>, p: spec_fn(T) -> bool, j: int)
    requires
        is_first(s, p, j),
    ensures
        first_match(s, p) == Some(j),
{
    let c = choose|c: int| is_first(s, p, c);
    assert(is_first(s, p, c));
    if c < j {
        assert(!p(s[c]));
    } else if j < c {
        assert(!p(s[j]));
    }
}

pub proof fn lemma_first_match_none<T>(s: Seq<T>, p: spec_fn(T) -> bool)
    requires
        forall|k: int| 0 <= k < s.len() ==> !p(#[trigger] s[k]),
    ensures
        first_match(s, p) is None,
{
    if exists|j: int| is_first(s, p, j) {
        let c = choose|c: int| is_first(s, p, c);
        assert(p(s[c]));
    }
}

/// The position in `next` that entry `p` of the previous schema is paired
/// with: the entry its rename hint names if that entry exists, else the first
/// entry with the same name.
pub open spec fn match_position<T: DiffEntry>(
    p: T,
    next: Seq<T>,
    hints: Map<(usize, usize), (usize, usize)>,
) -> Option<int> {
    let by_hint = if hints.contains_key(p.entry_key()) {
        first_match(next, |c: T| c.entry_key() == hints[p.entry_key()])
    } else {
        None
    };
    match by_hint {
        Some(j) => Some(j),
        None => first_match(next, |c: T| c.entry_name() == p.entry_name()),
    }
}

/// Position `j` of `next` is paired with some entry of `prev`.
pub open spec fn is_matched<T: DiffEntry>(
    prev: Seq<T>,
    next: Seq<T>,
    hints: Map<(usize, usize), (usize, usize)>,
    j: int,
) -> bool {
    exists|i: int| 0 <= i < prev.len() && #[trigger] match_position(prev[i], next, hints) == Some(j)
}

/// One change between two lists of entries.
pub enum Change<T> {
    Added(T),
    Dropped(T),
    Altered(T, T),
}

/// The changes that the entries of `prev` undergo, in the order of `prev`:
/// an entry with no partner is dropped, one whose partner differs is altered.
pub open spec fn removals<T: DiffEntry>(
    prev: Seq<T>,
    next: Seq<T>,
    hints: Map<(usize, usize), (usize, usize)>,
) -> Seq<Change<T>>
    decreases prev.len(),
{
    if prev.len() == 0 {
        seq![]
    } else {
        let rest = removals(prev.drop_last(), next, hints);
        let p = prev.last();
        match match_position(p, next, hints) {
            None => rest.push(Change::Dropped(p)),
            Some(j) => if p.entry_differs(&next[j]) {
                rest.push(Change::Altered(p, next[j]))
            } else {
                rest
            },
        }
    }
}

/// The entries among the first `n` of `next` that no entry of `prev` is
/// paired with, in the order of `next`.
pub open spec fn additions<T: DiffEntry>(
    prev: Seq<T>,
    next: Seq<T>,
    hints: Map<(usize, usize), (usize, usize)>,
    n: int,
) -> Seq<Change<T>>
    decreases n,
{
    if n <= 0 {
        seq![]
    } else {
        let rest = additions(prev, next, hints, n - 1);
        if is_matched(prev, next, hints, n - 1) {
            rest
        } else {
            rest.push(Change::Added(next[n - 1]))
        }
    }
}

/// All changes from `prev` to `next`: removals and alterations first, then
/// additions.
pub open spec fn changes<T: DiffEntry>(
    prev: Seq<T>,
    next: Seq<T>,
    hints: Map<(usize, usize), (usize, usize)>,
) -> Seq<Change<T>> {
    removals(prev, next, hints) + additions(prev, next, hints, next.len() as int)
}

/// A change that refers to the entries of the two lists it compares.
pub enum ChangeRef<'a, T> {
    Added(&'a T),
    Dropped(&'a T),
    Altered(&'a T, &'a T),
}

impl<'a, T> ChangeRef<'a, T> {
    pub open spec fn view(&self) -> Change<T> {
        match *self {
            ChangeRef::Added(t) => Change::Added(*t),
            ChangeRef::Dropped(t) => Change::Dropped(*t),
            ChangeRef::Altered(a, b) => Change::Altered(*a, *b),
        }
    }
}

pub open spec fn change_views<'a, T>(s: Seq<ChangeRef<'a, T>>) -> Seq<Change<T>> {
    s.map_values(|c: ChangeRef<'a, T>| c.view())
}

/// Finds the entry of `next` that `p` is paired with.
pub fn find_match<T: DiffEntry>(p: &T, next: &Vec<T>, hints: &IdPairs) -> (r: Option<usize>)
    ensures
        match r {
            Some(j) => match_position(*p, next@, hints.view()) == Some(j as int),
            None => match_position(*p, next@, hints.view()) is None,
        },
{
    let ghost h = hints.view();
    let ghost by_key = |c: T| c.entry_key() == h[p.entry_key()];
    let ghost by_name = |c: T| c.entry_name() == p.entry_name();
    let key = p.key();
    if let Some(target) = hints.get(key) {
        let mut i: usize = 0;
        while i < next.len()
            invariant
                i <= next@.len(),
                h == hints.view(),
                h.contains_key(p.entry_key()),
                h[p.entry_key()] == target,
                by_key == (|c: T| c.entry_key() == h[p.entry_key()]),
                forall|k: int| 0 <= k < i ==> !by_key(#[trigger] next@[k]),
            decreases next@.len() - i,
        {
            let c = next[i].key();
            if c.0 == target.0 && c.1 == target.1 {
                proof {
                    assert(is_first(next@, by_key, i as int));
                    lemma_first_match_some(next@, by_key, i as int);
                }
                return Some(i);
            }
            i = i + 1;
        }
        proof {
            lemma_first_match_none(next@, by_key);
        }
    }
    assert(match_position(*p, next@, h) == first_match(next@, by_name));
    let name = p.name_ref();
    let mut i: usize = 0;
    while i < next.len()
        invariant
            i <= next@.len(),
            name@ == p.entry_name(),
            h == hints.view(),
            match_position(*p, next@, h) == first_match(next@, by_name),
            by_name == (|c: T| c.entry_name() == p.entry_name()),
            forall|k: int| 0 <= k < i ==> !by_name(#[trigger] next@[k]),
        decreases next@.len() - i,
    {
        if next[i].name_ref().eq(name) {
            proof {
                assert(is_first(next@, by_name, i as int));
                lemma_first_match_some(next@, by_name, i as int);
            }
            return Some(i);
        }
        i = i + 1;
    }
    proof {
        lemma_first_match_none(next@, by_name);
    }
    None
}

/// Marks, for each position of `next`, whether an entry of `prev` is paired
/// with it.
fn matched_positions<T: DiffEntry>(prev: &Vec<T>, next: &Vec<T>, hints: &IdPairs) -> (r: Vec<bool>)
    ensures
        r@.len() == next@.len(),
        forall|j: int| 0 <= j < next@.len() ==> r@[j] == is_matched(prev@, next@, hints.view(), j),
{
    let ghost h = hints.view();
    let mut matched: Vec<bool> = Vec::new();
    let mut j: usize = 0;
    while j < next.len()
        invariant
            j <= next@.len(),
            matched@.len() == j,
            forall|k: int| 0 <= k < j ==> !matched@[k],
        decreases next@.len() - j,
    {
        matched.push(false);
        j = j + 1;
    }
    let mut i: usize = 0;
    while i < prev.len()
        invariant
            i <= prev@.len(),
            h == hints.view(),
            matched@.len() == next@.len(),
            forall|k: int| 0 <= k < next@.len() ==> matched@[k] == (exists|m: int|
                0 <= m < i && #[trigger] match_position(prev@[m], next@, h) == Some(k)),
        decreases prev@.len() - i,
    {
        let m = find_match(&prev[i], next, hints);
        if let Some(k) = m {
            matched.set(k, true);
        }
        assert forall|k: int| 0 <= k < next@.len() implies matched@[k] == (exists|m: int|
            0 <= m < i + 1 && #[trigger] match_position(prev@[m], next@, h) == Some(k)) by {
            if match_position(prev@[i as int], next@, h) == Some(k) {
                assert(matched@[k]);
            }
        }
        i = i + 1;
    }
    matched
}

/// Computes the changes from `prev` to `next`, as references into the two
/// lists.
pub fn diff_entries<'a, T: DiffEntry>(prev: &'a Vec<T>, next: &'a Vec<T>, hints: &IdPairs) -> (r: Vec<ChangeRef<'a, T>>)
    ensures
        change_views(r@) == changes(prev@, next@, hints.view()),
{
    let ghost h = hints.view();
    let mut out: Vec<ChangeRef<'a, T>> = Vec::new();
    let mut i: usize = 0;
    while i < prev.len()
        invariant
            i <= prev@.len(),
            h == hints.view(),
            change_views(out@) == removals(prev@.take(i as int), next@, h),
        decreases prev@.len() - i,
    {
        let ghost before = out@;
        let p = &prev[i];
        assert(prev@.take(i + 1).drop_last() =~= prev@.take(i as int));
        assert(prev@.take(i + 1).last() == prev@[i as int]);
        match find_match(p, next, hints) {
            None => {
                out.push(ChangeRef::Dropped(p));
                assert(change_views(out@) =~= change_views(before).push(Change::Dropped(*p)));
            },
            Some(j) => {
                if p.differs(&next[j]) {
                    out.push(ChangeRef::Altered(p, &next[j]));
                    assert(change_views(out@) =~= change_views(before).push(Change::Altered(*p, next@[j as int])));
                }
            },
        }
        i = i + 1;
    }
    assert(prev@.take(prev@.len() as int) =~= prev@);
    let matched = matched_positions(prev, next, hints);
    let ghost removed = out@;
    let mut j: usize = 0;
    while j < next.len()
        invariant
            j <= next@.len(),
            h == hints.view(),
            matched@.len() == next@.len(),
            forall|k: int| 0 <= k < next@.len() ==> matched@[k] == is_matched(prev@, next@, h, k),
            change_views(out@) == removals(prev@, next@, h) + additions(prev@, next@, h, j as int),
        decreases next@.len() - j,
    {
        let ghost before = out@;
        if !matched[j] {
            out.push(ChangeRef::Added(&next[j]));
            assert(change_views(out@) =~= change_views(before).push(Change::Added(next@[j as int])));
        }
        assert(additions(prev@, next@, h, j + 1) == (if is_matched(prev@, next@, h, j as int) {
            additions(prev@, next@, h, j as int)
        } else {
            additions(prev@, next@, h, j as int).push(Change::Added(next@[j as int]))
        }));
        j = j + 1;
    }
    out
}

impl DiffEntry for Column {
    open spec fn entry_key(&self) -> (usize, usize) {
        column_key(self.id)
    }

    open spec fn entry_name(&self) -> Seq<char> {
        self.name@
    }

    open spec fn entry_differs(&self, other: &Self) -> bool {
        ||| self.name@ != other.name@
        ||| self.storage_ty != other.storage_ty
        ||| self.nullable != other.nullable
        ||| self.primary_key != other.primary_key
        ||| self.auto_increment != other.auto_increment
    }

    fn key(&self) -> (r: (usize, usize)) {
        (self.id.table.0, self.id.index)
    }

    fn name_ref(&self) -> (r: &String) {
        &self.name
    }

    fn differs(&self, other: &Self) -> (r: bool) {
        !self.name.eq(&other.name) || self.storage_ty != other.storage_ty || self.nullable
            != other.nullable || self.primary_key != other.primary_key || self.auto_increment
            != other.auto_increment
    }
}

/// Whether two lists of index columns are equal.
fn index_columns_eq(a: &Vec<IndexColumn>, b: &Vec<IndexColumn>) -> (r: bool)
    ensures
        r == (a@ == b@),
{
    if a.len() != b.len() {
        return false;
    }
    let mut i: usize = 0;
    while i < a.len()
        invariant
            a@.len() == b@.len(),
            i <= a@.len(),
            forall|k: int| 0 <= k < i ==> a@[k] == b@[k],
        decreases a@.len() - i,
    {
        if a[i] != b[i] {
            return false;
        }
        i = i + 1;
    }
    assert(a@ =~= b@);
    true
}

impl DiffEntry for Index {
    open spec fn entry_key(&self) -> (usize, usize) {
        index_key(self.id)
    }

    open spec fn entry_name(&self) -> Seq<char> {
        self.name@
    }

    open spec fn entry_differs(&self, other: &Self) -> bool {
        ||| self.name@ != other.name@
        ||| self.columns@ != other.columns@
        ||| self.unique != other.unique
        ||| self.primary_key != other.primary_key
    }

    fn key(&self) -> (r: (usize, usize)) {
        (self.id.table.0, self.id.index)
    }

    fn name_ref(&self) -> (r: &String) {
        &self.name
    }

    fn differs(&self, other: &Self) -> (r: bool) {
        !self.name.eq(&other.name) || !index_columns_eq(&self.columns, &other.columns)
            || self.unique != other.unique || self.primary_key != other.primary_key
    }
}

impl DiffEntry for Table {
    open spec fn entry_key(&self) -> (usize, usize) {
        table_key(self.id)
    }

    open spec fn entry_name(&self) -> Seq<char> {
        self.name@
    }

    open spec fn entry_differs(&self, other: &Self) -> bool {
        self.name@ != other.name@
    }

    fn key(&self) -> (r: (usize, usize)) {
        (self.id.0, 0)
    }

    fn name_ref(&self) -> (r: &String) {
        &self.name
    }

    fn differs(&self, other: &Self) -> (r: bool) {
        !self.name.eq(&other.name)
    }
}

/// A change to a column between two schemas.
pub enum ColumnsDiffItem<'a> {
    AddColumn(&'a Column),
    DropColumn(&'a Column),
    AlterColumn { previous: &'a Column, next: &'a Column },
}

impl<'a> ColumnsDiffItem<'a> {
    pub open spec fn view(&self) -> Change<Column> {
        match *self {
            ColumnsDiffItem::AddColumn(c) => Change::Added(*c),
            ColumnsDiffItem::DropColumn(c) => Change::Dropped(*c),
            ColumnsDiffItem::AlterColumn { previous, next } => Change::Altered(*previous, *next),
        }
    }
}

/// A change to an index between two schemas.
pub enum IndicesDiffItem<'a> {
    CreateIndex(&'a Index),
    DropIndex(&'a Index),
    AlterIndex { previous: &'a Index, next: &'a Index },
}

impl<'a> IndicesDiffItem<'a> {
    pub open spec fn view(&self) -> Change<Index> {
        match *self {
            IndicesDiffItem::CreateIndex(c) => Change::Added(*c),
            IndicesDiffItem::DropIndex(c) => Change::Dropped(*c),
            IndicesDiffItem::AlterIndex { previous, next } => Change::Altered(*previous, *next),
        }
    }
}

pub open spec fn column_item_views<'a>(s: Seq<ColumnsDiffItem<'a>>) -> Seq<Change<Column>> {
    s.map_values(|c: ColumnsDiffItem<'a>| c.view())
}

pub open spec fn index_item_views<'a>(s: Seq<IndicesDiffItem<'a>>) -> Seq<Change<Index>> {
    s.map_values(|c: IndicesDiffItem<'a>| c.view())
}

/// The column changes from `prev` to `next`.
pub fn diff_columns<'a>(prev: &'a Vec<Column>, next: &'a Vec<Column>, hints: &IdPairs) -> (r: Vec<ColumnsDiffItem<'a>>)
    ensures
        column_item_views(r@) == changes(prev@, next@, hints.view()),
{
    let refs = diff_entries(prev, next, hints);
    let mut out: Vec<ColumnsDiffItem<'a>> = Vec::new();
    let mut i: usize = 0;
    while i < refs.len()
        invariant
            i <= refs@.len(),
            column_item_views(out@) == change_views(refs@.take(i as int)),
        decreases refs@.len() - i,
    {
        let item = match refs[i] {
            ChangeRef::Added(c) => ColumnsDiffItem::AddColumn(c),
            ChangeRef::Dropped(c) => ColumnsDiffItem::DropColumn(c),
            ChangeRef::Altered(a, b) => ColumnsDiffItem::AlterColumn { previous: a, next: b },
        };
        let ghost before = out@;
        out.push(item);
        assert(column_item_views(out@) =~= column_item_views(before).push(item.view()));
        assert(refs@.take(i + 1) =~= refs@.take(i as int).push(refs@[i as int]));
        assert(change_views(refs@.take(i + 1)) =~= change_views(refs@.take(i as int)).push(refs@[i as int].view()));
        i = i + 1;
    }
    assert(refs@.take(refs@.len() as int) =~= refs@);
    out
}

/// The index changes from `prev` to `next`.
pub fn diff_indices<'a>(prev: &'a Vec<Index>, next: &'a Vec<Index>, hints: &IdPairs) -> (r: Vec<IndicesDiffItem<'a>>)
    ensures
        index_item_views(r@) == changes(prev@, next@, hints.view()),
{
    let refs = diff_entries(prev, next, hints);
    let mut out: Vec<IndicesDiffItem<'a>> = Vec::new();
    let mut i: usize = 0;
    while i < refs.len()
        invariant
            i <= refs@.len(),
            index_item_views(out@) == change_views(refs@.take(i as int)),
        decreases refs@.len() - i,
    {
        let item = match refs[i] {
            ChangeRef::Added(c) => IndicesDiffItem::CreateIndex(c),
            ChangeRef::Dropped(c) => IndicesDiffItem::DropIndex(c),
            ChangeRef::Altered(a, b) => IndicesDiffItem::AlterIndex { previous: a, next: b },
        };
        let ghost before = out@;
        out.push(item);
        assert(index_item_views(out@) =~= index_item_views(before).push(item.view()));
        assert(refs@.take(i + 1) =~= refs@.take(i as int).push(refs@[i as int]));
        assert(change_views(refs@.take(i + 1)) =~= change_views(refs@.take(i as int)).push(refs@[i as int].view()));
        i = i + 1;
    }
    assert(refs@.take(refs@.len() as int) =~= refs@);
    out
}

/// One change to a table between two schemas.
pub enum TableChange {
    Create(Table),
    Drop(Table),
    Alter(Table, Table, Seq<Change<Column>>, Seq<Change<Index>>),
}

/// The change that pairing table `p` with table `n` makes, if any: an
/// alteration when the name, a column or an index differs.
pub open spec fn table_pair_change(p: Table, n: Table, hints: RenameHints) -> Option<TableChange> {
    let cols = changes(p.columns@, n.columns@, hints.column_map());
    let idxs = changes(p.indices@, n.indices@, hints.index_map());
    if p.name@ != n.name@ || cols.len() > 0 || idxs.len() > 0 {
        Some(TableChange::Alter(p, n, cols, idxs))
    } else {
        None
    }
}

/// The changes that the tables of `prev` undergo, in the order of `prev`.
pub open spec fn table_removals(prev: Seq<Table>, next: Seq<Table>, hints: RenameHints) -> Seq<TableChange>
    decreases prev.len(),
{
    if prev.len() == 0 {
        seq![]
    } else {
        let rest = table_removals(prev.drop_last(), next, hints);
        let p = prev.last();
        match match_position(p, next, hints.table_map()) {
            None => rest.push(TableChange::Drop(p)),
            Some(j) => match table_pair_change(p, next[j], hints) {
                Some(c) => rest.push(c),
                None => rest,
            },
        }
    }
}

/// The tables among the first `n` of `next` that no table of `prev` is
/// paired with, each to be created.
pub open spec fn table_additions(prev: Seq<Table>, next: Seq<Table>, hints: RenameHints, n: int) -> Seq<TableChange>
    decreases n,
{
    if n <= 0 {
        seq![]
    } else {
        let rest = table_additions(prev, next, hints, n - 1);
        if is_matched(prev, next, hints.table_map(), n - 1) {
            rest
        } else {
            rest.push(TableChange::Create(next[n - 1]))
        }
    }
}

/// All table changes from schema `from` to schema `to` under `hints`.
pub open spec fn schema_changes(from: Schema, to: Schema, hints: RenameHints) -> Seq<TableChange> {
    table_removals(from.tables@, to.tables@, hints) + table_additions(
        from.tables@,
        to.tables@,
        hints,
        to.tables@.len() as int,
    )
}

/// A change to a table between two schemas.
pub enum TablesDiffItem<'a> {
    CreateTable(&'a Table),
    DropTable(&'a Table),
    AlterTable {
        previous: &'a Table,
        next: &'a Table,
        columns: Vec<ColumnsDiffItem<'a>>,
        indices: Vec<IndicesDiffItem<'a>>,
    },
}

impl<'a> TablesDiffItem<'a> {
    pub open spec fn view(&self) -> TableChange {
        match *self {
            TablesDiffItem::CreateTable(t) => TableChange::Create(*t),
            TablesDiffItem::DropTable(t) => TableChange::Drop(*t),
            TablesDiffItem::AlterTable { previous, next, columns, indices } => TableChange::Alter(
                *previous,
                *next,
                column_item_views(columns@),
                index_item_views(indices@),
            ),
        }
    }
}

pub open spec fn table_item_views<'a>(s: Seq<TablesDiffItem<'a>>) -> Seq<TableChange> {
    s.map_values(|c: TablesDiffItem<'a>| c.view())
}

/// The differences between two schemas.
pub struct SchemaDiff<'a> {
    tables: Vec<TablesDiffItem<'a>>,
}

impl<'a> SchemaDiff<'a> {
    /// The table changes, in order.
    pub closed spec fn items(&self) -> Seq<TableChange> {
        table_item_views(self.tables@)
    }

    /// Computes the changes that turn schema `previous` into schema `next`,
    /// pairing tables, columns and indices by rename hint first and by name
    /// second.
    pub fn from(previous: &'a Schema, next: &'a Schema, hints: &RenameHints) -> (r: SchemaDiff<'a>)
        ensures
            r.items() == schema_changes(*previous, *next, *hints),
    {
        let prev = &previous.tables;
        let nxt = &next.tables;
        let table_hints = hints.table_pairs();
        let ghost h = *hints;
        let mut out: Vec<TablesDiffItem<'a>> = Vec::new();
        let mut i: usize = 0;
        while i < prev.len()
            invariant
                i <= prev@.len(),
                h == *hints,
                table_hints.view() == hints.table_map(),
                table_item_views(out@) == table_removals(prev@.take(i as int), nxt@, h),
            decreases prev@.len() - i,
        {
            let ghost before = out@;
            let p = &prev[i];
            assert(prev@.take(i + 1).drop_last() =~= prev@.take(i as int));
            assert(prev@.take(i + 1).last() == prev@[i as int]);
            match find_match(p, nxt, table_hints) {
                None => {
                    out.push(TablesDiffItem::DropTable(p));
                    assert(table_item_views(out@) =~= table_item_views(before).push(TableChange::Drop(*p)));
                },
                Some(j) => {
                    let n = &nxt[j];
                    let columns = diff_columns(&p.columns, &n.columns, hints.column_pairs());
                    let indices = diff_indices(&p.indices, &n.indices, hints.index_pairs());
                    if !p.name.eq(&n.name) || columns.len() > 0 || indices.len() > 0 {
                        let item = TablesDiffItem::AlterTable { previous: p, next: n, columns, indices };
                        out.push(item);
                        assert(table_item_views(out@) =~= table_item_views(before).push(item.view()));
                    }
                },
            }
            i = i + 1;
        }
        assert(prev@.take(prev@.len() as int) =~= prev@);
        let matched = matched_positions(prev, nxt, table_hints);
        let mut j: usize = 0;
        while j < nxt.len()
            invariant
                j <= nxt@.len(),
                h == *hints,
                table_hints.view() == hints.table_map(),
                matched@.len() == nxt@.len(),
                forall|k: int| 0 <= k < nxt@.len() ==> matched@[k] == is_matched(prev@, nxt@, h.table_map(), k),
                table_item_views(out@) == table_removals(prev@, nxt@, h) + table_additions(prev@, nxt@, h, j as int),
            decreases nxt@.len() - j,
        {
            let ghost before = out@;
            if !matched[j] {
                out.push(TablesDiffItem::CreateTable(&nxt[j]));
                assert(table_item_views(out@) =~= table_item_views(before).push(TableChange::Create(nxt@[j as int])));
            }
            assert(table_additions(prev@, nxt@, h, j + 1) == (if is_matched(prev@, nxt@, h.table_map(), j as int) {
                table_additions(prev@, nxt@, h, j as int)
            } else {
                table_additions(prev@, nxt@, h, j as int).push(TableChange::Create(nxt@[j as int]))
            }));
            j = j + 1;
        }
        SchemaDiff { tables: out }
    }

    /// The table changes, in order.
    pub fn tables(&self) -> (r: &Vec<TablesDiffItem<'a>>)
        ensures
            table_item_views(r@) == self.items(),
    {
        &self.tables
    }

    /// Whether the two schemas are the same up to renames that change nothing.
    pub fn is_empty(&self) -> (r: bool)
        ensures
            r == (self.items().len() == 0),
    {
        self.tables.len() == 0
    }
}

/// The table changes depend on the rename hints only through what they map:
/// two sets of hints that map the same keys to the same targets give the same
/// changes between any two schemas.
pub proof fn law_diff_depends_only_on_hint_maps(from: Schema, to: Schema, h1: RenameHints, h2: RenameHints)
    requires
        h1.table_map() == h2.table_map(),
        h1.column_map() == h2.column_map(),
        h1.index_map() == h2.index_map(),
    ensures
        schema_changes(from, to, h1) == schema_changes(from, to, h2),
{
    lemma_removals_same_maps(from.tables@, to.tables@, h1, h2);
    lemma_additions_same_maps(from.tables@, to.tables@, h1, h2, to.tables@.len() as int);
}

proof fn lemma_removals_same_maps(prev: Seq<Table>, next: Seq<Table>, h1: RenameHints, h2: RenameHints)
    requires
        h1.table_map() == h2.table_map(),
        h1.column_map() == h2.column_map(),
        h1.index_map() == h2.index_map(),
    ensures
        table_removals(prev, next, h1) == table_removals(prev, next, h2),
    decreases prev.len(),
{
    if prev.len() > 0 {
        lemma_removals_same_maps(prev.drop_last(), next, h1, h2);
    }
}

proof fn lemma_additions_same_maps(prev: Seq<Table>, next: Seq<Table>, h1: RenameHints, h2: RenameHints, n: int)
    requires
        h1.table_map() == h2.table_map(),
    ensures
        table_additions(prev, next, h1, n) == table_additions(prev, next, h2, n),
    decreases n,
{
    if n > 0 {
        lemma_additions_same_maps(prev, next, h1, h2, n - 1);
    }
}

/// Every table of the new schema is created, in order, when the previous
/// schema has no tables.
pub proof fn law_diff_from_empty_creates_all(from: Schema, to: Schema, hints: RenameHints)
    requires
        from.tables@.len() == 0,
    ensures
        schema_changes(from, to, hints) == to.tables@.map_values(|t: Table| TableChange::Create(t)),
{
    assert(table_removals(from.tables@, to.tables@, hints) == Seq::<TableChange>::empty());
    lemma_additions_from_empty(from.tables@, to.tables@, hints, to.tables@.len() as int);
    assert(to.tables@.take(to.tables@.len() as int) =~= to.tables@);
    assert(schema_changes(from, to, hints) =~= to.tables@.map_values(|t: Table| TableChange::Create(t)));
}

proof fn lemma_additions_from_empty(prev: Seq<Table>, next: Seq<Table>, hints: RenameHints, n: int)
    requires
        prev.len() == 0,
        0 <= n <= next.len(),
    ensures
        table_additions(prev, next, hints, n) == next.take(n).map_values(|t: Table| TableChange::Create(t)),
    decreases n,
{
    if n > 0 {
        lemma_additions_from_empty(prev, next, hints, n - 1);
        assert(!is_matched(prev, next, hints.table_map(), n - 1));
        assert(next.take(n) =~= next.take(n - 1).push(next[n - 1]));
        assert(next.take(n).map_values(|t: Table| TableChange::Create(t)) =~= next.take(n - 1).map_values(
            |t: Table| TableChange::Create(t),
        ).push(TableChange::Create(next[n - 1])));
    } else {
        assert(next.take(n).map_values(|t: Table| TableChange::Create(t)) =~= Seq::<TableChange>::empty());
    }
}

/// Every table of the previous schema is dropped, in order, when the new
/// schema has no tables.
pub proof fn law_diff_to_empty_drops_all(from: Schema, to: Schema, hints: RenameHints)
    requires
        to.tables@.len() == 0,
    ensures
        schema_changes(from, to, hints) == from.tables@.map_values(|t: Table| TableChange::Drop(t)),
{
    lemma_removals_to_empty(from.tables@, to.tables@, hints);
    assert(table_additions(from.tables@, to.tables@, hints, 0) == Seq::<TableChange>::empty());
    assert(schema_changes(from, to, hints) =~= from.tables@.map_values(|t: Table| TableChange::Drop(t)));
}

proof fn lemma_removals_to_empty(prev: Seq<Table>, next: Seq<Table>, hints: RenameHints)
    requires
        next.len() == 0,
    ensures
        table_removals(prev, next, hints) == prev.map_values(|t: Table| TableChange::Drop(t)),
    decreases prev.len(),
{
    if prev.len() > 0 {
        lemma_removals_to_empty(prev.drop_last(), next, hints);
        let p = prev.last();
        lemma_first_match_none(next, |c: Table| c.entry_key() == hints.table_map()[p.entry_key()]);
        lemma_first_match_none(next, |c: Table| c.entry_name() == p.entry_name());
        assert(match_position(p, next, hints.table_map()) is None);
        assert(prev.map_values(|t: Table| TableChange::Drop(t)) =~= prev.drop_last().map_values(
            |t: Table| TableChange::Drop(t),
        ).push(TableChange::Drop(p)));
    } else {
        assert(prev.map_values(|t: Table| TableChange::Drop(t)) =~= Seq::<TableChange>::empty());
    }
}

/// No two entries of `s` share a name.
pub open spec fn names_distinct<T: DiffEntry>(s: Seq<T>) -> bool {
    forall|i: int, j: int| 0 <= i < j < s.len() ==> s[i].entry_name() != s[j].entry_name()
}

/// No two tables of `schema` share a name, nor two columns or two indices of
/// one table.
pub open spec fn schema_names_distinct(schema: Schema) -> bool {
    &&& names_distinct(schema.tables@)
    &&& forall|t: int| 0 <= t < schema.tables@.len() ==> {
        &&& names_distinct(#[trigger] schema.tables@[t].columns@)
        &&& names_distinct(schema.tables@[t].indices@)
    }
}

proof fn lemma_match_self<T: DiffEntry>(s: Seq<T>, h: Map<(usize, usize), (usize, usize)>, i: int)
    requires
        h == Map::<(usize, usize), (usize, usize)>::empty(),
        names_distinct(s),
        0 <= i < s.len(),
    ensures
        match_position(s[i], s, h) == Some(i),
{
    let by_name = |c: T| c.entry_name() == s[i].entry_name();
    assert(is_first(s, by_name, i));
    lemma_first_match_some(s, by_name, i);
}

proof fn lemma_removals_self<T: DiffEntry>(s: Seq<T>, h: Map<(usize, usize), (usize, usize)>, k: int)
    requires
        h == Map::<(usize, usize), (usize, usize)>::empty(),
        names_distinct(s),
        forall|i: int| 0 <= i < s.len() ==> !(#[trigger] s[i]).entry_differs(&s[i]),
        0 <= k <= s.len(),
    ensures
        removals(s.take(k), s, h) == Seq::<Change<T>>::empty(),
    decreases k,
{
    if k > 0 {
        lemma_removals_self(s, h, k - 1);
        assert(s.take(k).drop_last() =~= s.take(k - 1));
        lemma_match_self(s, h, k - 1);
        assert(!s[k - 1].entry_differs(&s[k - 1]));
    }
}

proof fn lemma_additions_self<T: DiffEntry>(s: Seq<T>, h: Map<(usize, usize), (usize, usize)>, n: int)
    requires
        h == Map::<(usize, usize), (usize, usize)>::empty(),
        names_distinct(s),
        0 <= n <= s.len(),
    ensures
        additions(s, s, h, n) == Seq::<Change<T>>::empty(),
    decreases n,
{
    if n > 0 {
        lemma_additions_self(s, h, n - 1);
        lemma_match_self(s, h, n - 1);
        assert(is_matched(s, s, h, n - 1));
    }
}

proof fn lemma_changes_self<T: DiffEntry>(s: Seq<T>, h: Map<(usize, usize), (usize, usize)>)
    requires
        h == Map::<(usize, usize), (usize, usize)>::empty(),
        names_distinct(s),
        forall|i: int| 0 <= i < s.len() ==> !(#[trigger] s[i]).entry_differs(&s[i]),
    ensures
        changes(s, s, h) == Seq::<Change<T>>::empty(),
{
    lemma_removals_self(s, h, s.len() as int);
    assert(s.take(s.len() as int) =~= s);
    lemma_additions_self(s, h, s.len() as int);
    assert(changes(s, s, h) =~= Seq::<Change<T>>::empty());
}

proof fn lemma_table_removals_self(s: Schema, hints: RenameHints, k: int)
    requires
        hints.table_map() == Map::<(usize, usize), (usize, usize)>::empty(),
        hints.column_map() == Map::<(usize, usize), (usize, usize)>::empty(),
        hints.index_map() == Map::<(usize, usize), (usize, usize)>::empty(),
        schema_names_distinct(s),
        0 <= k <= s.tables@.len(),
    ensures
        table_removals(s.tables@.take(k), s.tables@, hints) == Seq::<TableChange>::empty(),
    decreases k,
{
    if k > 0 {
        let ts = s.tables@;
        lemma_table_removals_self(s, hints, k - 1);
        assert(ts.take(k).drop_last() =~= ts.take(k - 1));
        lemma_match_self(ts, hints.table_map(), k - 1);
        let t = ts[k - 1];
        assert(names_distinct(t.columns@) && names_distinct(t.indices@));
        lemma_changes_self(t.columns@, hints.column_map());
        lemma_changes_self(t.indices@, hints.index_map());
        assert(table_pair_change(t, t, hints) is None);
    }
}

/// A schema compared with itself, with no rename hints, has no changes,
/// provided no two tables, and no two columns or indices of one table, share
/// a name.
pub proof fn law_same_schema_no_diff(s: Schema, hints: RenameHints)
    requires
        hints.table_map() == Map::<(usize, usize), (usize, usize)>::empty(),
        hints.column_map() == Map::<(usize, usize), (usize, usize)>::empty(),
        hints.index_map() == Map::<(usize, usize), (usize, usize)>::empty(),
        schema_names_distinct(s),
    ensures
        schema_changes(s, s, hints).len() == 0,
{
    let ts = s.tables@;
    lemma_table_removals_self(s, hints, ts.len() as int);
    assert(ts.take(ts.len() as int) =~= ts);
    lemma_additions_self_tables(ts, hints, ts.len() as int);
}

proof fn lemma_additions_self_tables(ts: Seq<Table>, hints: RenameHints, n: int)
    requires
        hints.table_map() == Map::<(usize, usize), (usize, usize)>::empty(),
        names_distinct(ts),
        0 <= n <= ts.len(),
    ensures
        table_additions(ts, ts, hints, n) == Seq::<TableChange>::empty(),
    decreases n,
{
    if n > 0 {
        lemma_additions_self_tables(ts, hints, n - 1);
        lemma_match_self(ts, hints.table_map(), n - 1);
        assert(is_matched(ts, ts, hints.table_map(), n - 1));
    }
}

proof fn lemma_match_in_range<T: DiffEntry>(p: T, next: Seq<T>, hints: Map<(usize, usize), (usize, usize)>)
    ensures
        match_position(p, next, hints) matches Some(j) ==> 0 <= j < next.len(),
{
    let by_name = |c: T| c.entry_name() == p.entry_name();
    if exists|j: int| is_first(next, by_name, j) {
        let j = choose|j: int| is_first(next, by_name, j);
        assert(is_first(next, by_name, j));
    }
    if hints.contains_key(p.entry_key()) {
        let by_key = |c: T| c.entry_key() == hints[p.entry_key()];
        if exists|j: int| is_first(next, by_key, j) {
            let j = choose|j: int| is_first(next, by_key, j);
            assert(is_first(next, by_key, j));
        }
    }
}

proof fn lemma_removals_altered<T: DiffEntry>(prev: Seq<T>, next: Seq<T>, hints: Map<(usize, usize), (usize, usize)>)
    ensures
        forall|i: int|
            0 <= i < prev.len() && (#[trigger] match_position(prev[i], next, hints)) is Some
                && prev[i].entry_differs(&next[match_position(prev[i], next, hints)->0]) ==> removals(
                prev,
                next,
                hints,
            ).contains(Change::Altered(prev[i], next[match_position(prev[i], next, hints)->0])),
        forall|k: int|
            0 <= k < removals(prev, next, hints).len() ==> (#[trigger] removals(prev, next, hints)[k] matches Change::Altered(
                a,
                b,
            ) ==> a.entry_differs(&b)),
    decreases prev.len(),
{
    if prev.len() > 0 {
        let q = prev.drop_last();
        lemma_removals_altered(q, next, hints);
        let rest = removals(q, next, hints);
        let cur = removals(prev, next, hints);
        assert forall|k: int| 0 <= k < cur.len() implies (#[trigger] cur[k] matches Change::Altered(a, b)
            ==> a.entry_differs(&b)) by {
            if k < rest.len() {
                assert(cur[k] == rest[k]);
            }
        }
        assert forall|i: int|
            0 <= i < prev.len() && (#[trigger] match_position(prev[i], next, hints)) is Some
                && prev[i].entry_differs(&next[match_position(prev[i], next, hints)->0]) implies cur.contains(
            Change::Altered(prev[i], next[match_position(prev[i], next, hints)->0]),
        ) by {
            let j = match_position(prev[i], next, hints)->0;
            if i < prev.len() - 1 {
                assert(q[i] == prev[i]);
                assert(match_position(q[i], next, hints) is Some);
                let m = choose|m: int| 0 <= m < rest.len() && rest[m] == Change::Altered(prev[i], next[j]);
                assert(cur[m] == rest[m]);
            } else {
                assert(prev.last() == prev[i]);
                assert(cur[cur.len() - 1] == Change::Altered(prev[i], next[j]));
            }
        }
    }
}

proof fn lemma_additions_added<T: DiffEntry>(prev: Seq<T>, next: Seq<T>, hints: Map<(usize, usize), (usize, usize)>, n: int)
    ensures
        forall|k: int|
            0 <= k < additions(prev, next, hints, n).len() ==> (#[trigger] additions(prev, next, hints, n)[k]) is Added,
    decreases n,
{
    if n > 0 {
        lemma_additions_added(prev, next, hints, n - 1);
        let rest = additions(prev, next, hints, n - 1);
        let cur = additions(prev, next, hints, n);
        assert forall|k: int| 0 <= k < cur.len() implies (#[trigger] cur[k]) is Added by {
            if k < rest.len() {
                assert(cur[k] == rest[k]);
            }
        }
    }
}

/// The column differences that count: name, storage type, nullability,
/// primary-key flag, auto-increment flag.
pub open spec fn columns_differ(a: Column, b: Column) -> bool {
    ||| a.name@ != b.name@
    ||| a.storage_ty != b.storage_ty
    ||| a.nullable != b.nullable
    ||| a.primary_key != b.primary_key
    ||| a.auto_increment != b.auto_increment
}

/// A column of the previous schema and the column it is paired with are
/// reported as altered exactly when their name, storage type, nullability,
/// primary-key flag or auto-increment flag differ.
pub proof fn law_column_change_reported(
    prev: Seq<Column>,
    next: Seq<Column>,
    hints: Map<(usize, usize), (usize, usize)>,
    i: int,
)
    requires
        0 <= i < prev.len(),
        match_position(prev[i], next, hints) is Some,
    ensures
        ({
            let j = match_position(prev[i], next, hints)->0;
            &&& 0 <= j < next.len()
            &&& changes(prev, next, hints).contains(Change::Altered(prev[i], next[j])) <==> columns_differ(
                prev[i],
                next[j],
            )
        }),
{
    let j = match_position(prev[i], next, hints)->0;
    lemma_match_in_range(prev[i], next, hints);
    lemma_removals_altered(prev, next, hints);
    lemma_additions_added(prev, next, hints, next.len() as int);
    let r = removals(prev, next, hints);
    let a = additions(prev, next, hints, next.len() as int);
    let c = changes(prev, next, hints);
    assert(c == r + a);
    assert(match_position(prev[i], next, hints) is Some);
    if columns_differ(prev[i], next[j]) {
        assert(prev[i].entry_differs(&next[j]));
        let m = choose|m: int| 0 <= m < r.len() && r[m] == Change::Altered(prev[i], next[j]);
        assert(c[m] == r[m]);
    }
    if c.contains(Change::Altered(prev[i], next[j])) {
        let m = choose|m: int| 0 <= m < c.len() && c[m] == Change::Altered(prev[i], next[j]);
        if m >= r.len() {
            assert(c[m] == a[m - r.len()]);
        } else {
            assert(c[m] == r[m]);
        }
    }
}

proof fn lemma_table_removals_pair(prev: Seq<Table>, next: Seq<Table>, hints: RenameHints, t: int)
    requires
        0 <= t < prev.len(),
        match_position(prev[t], next, hints.table_map()) is Some,
        table_pair_change(prev[t], next[match_position(prev[t], next, hints.table_map())->0], hints) is Some,
    ensures
        table_removals(prev, next, hints).contains(
            table_pair_change(prev[t], next[match_position(prev[t], next, hints.table_map())->0], hints)->0,
        ),
    decreases prev.len(),
{
    let q = prev.drop_last();
    let rest = table_removals(q, next, hints);
    let cur = table_removals(prev, next, hints);
    if t < prev.len() - 1 {
        assert(q[t] == prev[t]);
        lemma_table_removals_pair(q, next, hints, t);
        let x = table_pair_change(prev[t], next[match_position(prev[t], next, hints.table_map())->0], hints)->0;
        let m = choose|m: int| 0 <= m < rest.len() && rest[m] == x;
        assert(cur[m] == rest[m]);
    } else {
        assert(prev.last() == prev[t]);
        assert(cur[cur.len() - 1] == table_pair_change(
            prev[t],
            next[match_position(prev[t], next, hints.table_map())->0],
            hints,
        )->0);
    }
}

/// When a table of the previous schema is paired with a table of the new
/// schema and one of its columns is paired with a column that differs from
/// it (in name, storage type, nullability, primary-key or auto-increment
/// flag), the schema diff alters that table and lists that column as
/// altered.
pub proof fn law_schema_reports_column_change(from: Schema, to: Schema, hints: RenameHints, t: int, c: int)
    requires
        0 <= t < from.tables@.len(),
        match_position(from.tables@[t], to.tables@, hints.table_map()) is Some,
        ({
            let p = from.tables@[t];
            let n = to.tables@[match_position(p, to.tables@, hints.table_map())->0];
            &&& 0 <= c < p.columns@.len()
            &&& match_position(p.columns@[c], n.columns@, hints.column_map()) is Some
            &&& columns_differ(
                p.columns@[c],
                n.columns@[match_position(p.columns@[c], n.columns@, hints.column_map())->0],
            )
        }),
    ensures
        ({
            let p = from.tables@[t];
            let n = to.tables@[match_position(p, to.tables@, hints.table_map())->0];
            let d = match_position(p.columns@[c], n.columns@, hints.column_map())->0;
            exists|k: int|
                0 <= k < schema_changes(from, to, hints).len() && (#[trigger] schema_changes(from, to, hints)[k]
                    matches TableChange::Alter(p2, n2, cols, _) && p2 == p && n2 == n && cols.contains(
                    Change::Altered(p.columns@[c], n.columns@[d]),
                ))
        }),
{
    let p = from.tables@[t];
    let u = match_position(p, to.tables@, hints.table_map())->0;
    let n = to.tables@[u];
    let d = match_position(p.columns@[c], n.columns@, hints.column_map())->0;
    law_column_change_reported(p.columns@, n.columns@, hints.column_map(), c);
    let cols = changes(p.columns@, n.columns@, hints.column_map());
    assert(cols.contains(Change::Altered(p.columns@[c], n.columns@[d])));
    assert(cols.len() > 0);
    let x = table_pair_change(p, n, hints);
    assert(x is Some);
    lemma_table_removals_pair(from.tables@, to.tables@, hints, t);
    let r = table_removals(from.tables@, to.tables@, hints);
    let all = schema_changes(from, to, hints);
    let m = choose|m: int| 0 <= m < r.len() && r[m] == x->0;
    assert(all[m] == r[m]);
}

/// The index differences that count: name, indexed columns, uniqueness,
/// primary-key flag.
pub open spec fn indices_differ(a: Index, b: Index) -> bool {
    ||| a.name@ != b.name@
    ||| a.columns@ != b.columns@
    ||| a.unique != b.unique
    ||| a.primary_key != b.primary_key
}

/// An index of the previous schema and the index it is paired with are
/// reported as altered exactly when their name, indexed columns, uniqueness
/// or primary-key flag differ.
pub proof fn law_index_change_reported(
    prev: Seq<Index>,
    next: Seq<Index>,
    hints: Map<(usize, usize), (usize, usize)>,
    i: int,
)
    requires
        0 <= i < prev.len(),
        match_position(prev[i], next, hints) is Some,
    ensures
        ({
            let j = match_position(prev[i], next, hints)->0;
            &&& 0 <= j < next.len()
            &&& changes(prev, next, hints).contains(Change::Altered(prev[i], next[j])) <==> indices_differ(
                prev[i],
                next[j],
            )
        }),
{
    let j = match_position(prev[i], next, hints)->0;
    lemma_match_in_range(prev[i], next, hints);
    lemma_removals_altered(prev, next, hints);
    lemma_additions_added(prev, next, hints, next.len() as int);
    let r = removals(prev, next, hints);
    let a = additions(prev, next, hints, next.len() as int);
    let c = changes(prev, next, hints);
    assert(c == r + a);
    if indices_differ(prev[i], next[j]) {
        assert(prev[i].entry_differs(&next[j]));
        let m = choose|m: int| 0 <= m < r.len() && r[m] == Change::Altered(prev[i], next[j]);
        assert(c[m] == r[m]);
    }
    if c.contains(Change::Altered(prev[i], next[j])) {
        let m = choose|m: int| 0 <= m < c.len() && c[m] == Change::Altered(prev[i], next[j]);
        if m >= r.len() {
            assert(c[m] == a[m - r.len()]);
        } else {
            assert(c[m] == r[m]);
        }
    }
}

} // verus!
