//! The layout of a snapshot file's TOML document.
//!
//! A serializer writes every struct as an inline table and every list of
//! structs as an inline array. The snapshot format instead writes the schema
//! as a `[schema]` section and its tables, columns and indices as
//! `[[schema.tables]]`, `[[schema.tables.columns]]` and
//! `[[schema.tables.indices]]` blocks. This module holds the document as
//! plain values and rewrites its layout; what the document holds does not
//! change.

use vstd::prelude::*;

verus! {

/// An item of a TOML document, as it is laid out.
#[derive(Debug)]
pub enum TomlItem {
    /// No value.
    Empty,
    /// A string, number, boolean or date, as written in TOML.
    Scalar(String),
    /// An inline array `[a, b]`.
    Array(Vec<TomlItem>),
    /// An inline table `{ k = v }`.
    InlineTable(Vec<(String, TomlItem)>),
    /// A table written as a `[section]`.
    Table(Vec<(String, TomlItem)>),
    /// An array of tables written as `[[section]]` blocks.
    ArrayOfTables(Vec<Vec<(String, TomlItem)>>),
}

/// The mathematical form of a [`TomlItem`].
pub enum TomlTree {
    Nothing,
    Scalar(Seq<char>),
    Array(Seq<TomlTree>),
    InlineTable(Seq<(Seq<char>, TomlTree)>),
    Table(Seq<(Seq<char>, TomlTree)>),
    ArrayOfTables(Seq<Seq<(Seq<char>, TomlTree)>>),
}

pub open spec fn tree_of(x: TomlItem) -> TomlTree
    decreases x, 1nat,
{
    match x {
        TomlItem::Empty => TomlTree::Nothing,
        TomlItem::Scalar(s) => TomlTree::Scalar(s@),
        TomlItem::Array(a) => TomlTree::Array(trees_of(a@)),
        TomlItem::InlineTable(e) => TomlTree::InlineTable(entries_of(e@)),
        TomlItem::Table(e) => TomlTree::Table(entries_of(e@)),
        TomlItem::ArrayOfTables(ts) => TomlTree::ArrayOfTables(tables_of(ts@)),
    }
}

pub open spec fn trees_of(s: Seq<TomlItem>) -> Seq<TomlTree>
    decreases s, 0nat,
{
    if s.len() == 0 {
        seq![]
    } else {
        trees_of(s.drop_last()).push(tree_of(s.last()))
    }
}

pub open spec fn entries_of(s: Seq<(String, TomlItem)>) -> Seq<(Seq<char>, TomlTree)>
    decreases s, 0nat,
{
    if s.len() == 0 {
        seq![]
    } else {
        entries_of(s.drop_last()).push((s.last().0@, tree_of(s.last().1)))
    }
}

pub open spec fn tables_of(s: Seq<Vec<(String, TomlItem)>>) -> Seq<Seq<(Seq<char>, TomlTree)>>
    decreases s, 0nat,
{
    if s.len() == 0 {
        seq![]
    } else {
        tables_of(s.drop_last()).push(entries_of(s.last()@))
    }
}

impl View for TomlItem {
    type V = TomlTree;

    open spec fn view(&self) -> TomlTree {
        tree_of(*self)
    }
}

/// Every element of `s` is an inline table.
pub open spec fn all_inline_tables(s: Seq<TomlTree>) -> bool {
    forall|i: int| 0 <= i < s.len() ==> (#[trigger] s[i]) is InlineTable
}

/// `t`, found at nesting depth `depth` of a document, with its layout
/// expanded: an inline table at depth 1 becomes a section; a non-empty inline
/// array of inline tables at depth 3 or less becomes an array of tables; the
/// contents of sections and arrays of tables are expanded one level deeper;
/// everything else stays as it is.
pub open spec fn expanded(t: TomlTree, depth: nat) -> TomlTree
    decreases t, 1nat,
{
    match t {
        TomlTree::InlineTable(e) => if depth == 1 {
            TomlTree::Table(expanded_entries(e, depth + 1))
        } else {
            t
        },
        TomlTree::Array(a) => if depth <= 3 && a.len() > 0 && all_inline_tables(a) {
            TomlTree::ArrayOfTables(expanded_array_tables(a, depth + 1))
        } else {
            t
        },
        TomlTree::Table(e) => TomlTree::Table(expanded_entries(e, depth + 1)),
        TomlTree::ArrayOfTables(ts) => TomlTree::ArrayOfTables(expanded_tables(ts, depth + 1)),
        _ => t,
    }
}

/// The entries of a table, each expanded at `depth`.
pub open spec fn expanded_entries(e: Seq<(Seq<char>, TomlTree)>, depth: nat) -> Seq<(Seq<char>, TomlTree)>
    decreases e, 0nat,
{
    if e.len() == 0 {
        seq![]
    } else {
        expanded_entries(e.drop_last(), depth).push((e.last().0, expanded(e.last().1, depth)))
    }
}

/// The tables of an array of tables, their entries expanded at `depth`.
pub open spec fn expanded_tables(ts: Seq<Seq<(Seq<char>, TomlTree)>>, depth: nat) -> Seq<Seq<(Seq<char>, TomlTree)>>
    decreases ts, 0nat,
{
    if ts.len() == 0 {
        seq![]
    } else {
        expanded_tables(ts.drop_last(), depth).push(expanded_entries(ts.last(), depth))
    }
}

/// The inline tables of an array, turned into tables whose entries are
/// expanded at `depth`.
pub open spec fn expanded_array_tables(a: Seq<TomlTree>, depth: nat) -> Seq<Seq<(Seq<char>, TomlTree)>>
    decreases a, 0nat,
{
    if a.len() == 0 {
        seq![]
    } else {
        expanded_array_tables(a.drop_last(), depth).push(
            match a.last() {
                TomlTree::InlineTable(e) => expanded_entries(e, depth),
                _ => seq![],
            },
        )
    }
}

/// What a document holds, with its layout forgotten: every section is read
/// as an inline table and every array of tables as an inline array of
/// inline tables.
pub open spec fn data(t: TomlTree) -> TomlTree
    decreases t, 1nat,
{
    match t {
        TomlTree::Array(a) => TomlTree::Array(data_all(a)),
        TomlTree::InlineTable(e) => TomlTree::InlineTable(data_entries(e)),
        TomlTree::Table(e) => TomlTree::InlineTable(data_entries(e)),
        TomlTree::ArrayOfTables(ts) => TomlTree::Array(data_tables(ts)),
        _ => t,
    }
}

pub open spec fn data_all(a: Seq<TomlTree>) -> Seq<TomlTree>
    decreases a, 0nat,
{
    if a.len() == 0 {
        seq![]
    } else {
        data_all(a.drop_last()).push(data(a.last()))
    }
}

pub open spec fn data_entries(e: Seq<(Seq<char>, TomlTree)>) -> Seq<(Seq<char>, TomlTree)>
    decreases e, 0nat,
{
    if e.len() == 0 {
        seq![]
    } else {
        data_entries(e.drop_last()).push((e.last().0, data(e.last().1)))
    }
}

pub open spec fn data_tables(ts: Seq<Seq<(Seq<char>, TomlTree)>>) -> Seq<TomlTree>
    decreases ts, 0nat,
{
    if ts.len() == 0 {
        seq![]
    } else {
        data_tables(ts.drop_last()).push(TomlTree::InlineTable(data_entries(ts.last())))
    }
}

/// `t`, found at depth `depth`, is laid out as snapshot files are: no inline
/// table at depth 1, no non-empty inline array of inline tables at depth 3
/// or less, and the same for the contents of its sections and arrays of
/// tables one level deeper.
pub open spec fn laid_out(t: TomlTree, depth: nat) -> bool
    decreases t, 1nat,
{
    match t {
        TomlTree::InlineTable(_) => depth != 1,
        TomlTree::Array(a) => !(depth <= 3 && a.len() > 0 && all_inline_tables(a)),
        TomlTree::Table(e) => entries_laid_out(e, depth + 1),
        TomlTree::ArrayOfTables(ts) => tables_laid_out(ts, depth + 1),
        _ => true,
    }
}

pub open spec fn entries_laid_out(e: Seq<(Seq<char>, TomlTree)>, depth: nat) -> bool
    decreases e, 0nat,
{
    e.len() == 0 || (entries_laid_out(e.drop_last(), depth) && laid_out(e.last().1, depth))
}

pub open spec fn tables_laid_out(ts: Seq<Seq<(Seq<char>, TomlTree)>>, depth: nat) -> bool
    decreases ts, 0nat,
{
    ts.len() == 0 || (tables_laid_out(ts.drop_last(), depth) && entries_laid_out(ts.last(), depth))
}

/// Expanding the layout keeps what the document holds: read without its
/// layout, an expanded item is the item it was.
pub proof fn law_expand_keeps_data(t: TomlTree, depth: nat)
    ensures
        data(expanded(t, depth)) == data(t),
    decreases t, 1nat,
{
    match t {
        TomlTree::InlineTable(e) => {
            if depth == 1 {
                lemma_entries_keep_data(e, depth + 1);
            }
        },
        TomlTree::Array(a) => {
            if depth <= 3 && a.len() > 0 && all_inline_tables(a) {
                lemma_array_tables_keep_data(a, depth + 1);
            }
        },
        TomlTree::Table(e) => {
            lemma_entries_keep_data(e, depth + 1);
        },
        TomlTree::ArrayOfTables(ts) => {
            lemma_tables_keep_data(ts, depth + 1);
        },
        _ => {},
    }
}

proof fn lemma_entries_keep_data(e: Seq<(Seq<char>, TomlTree)>, depth: nat)
    ensures
        data_entries(expanded_entries(e, depth)) == data_entries(e),
    decreases e, 0nat,
{
    if e.len() > 0 {
        lemma_entries_keep_data(e.drop_last(), depth);
        law_expand_keeps_data(e.last().1, depth);
        let x = expanded_entries(e, depth);
        assert(x.drop_last() =~= expanded_entries(e.drop_last(), depth));
    }
}

proof fn lemma_tables_keep_data(ts: Seq<Seq<(Seq<char>, TomlTree)>>, depth: nat)
    ensures
        data_tables(expanded_tables(ts, depth)) == data_tables(ts),
    decreases ts, 0nat,
{
    if ts.len() > 0 {
        lemma_tables_keep_data(ts.drop_last(), depth);
        lemma_entries_keep_data(ts.last(), depth);
        let x = expanded_tables(ts, depth);
        assert(x.drop_last() =~= expanded_tables(ts.drop_last(), depth));
    }
}

proof fn lemma_array_tables_keep_data(a: Seq<TomlTree>, depth: nat)
    requires
        all_inline_tables(a),
    ensures
        data_tables(expanded_array_tables(a, depth)) == data_all(a),
    decreases a, 0nat,
{
    if a.len() > 0 {
        assert(a.last() is InlineTable);
        assert(all_inline_tables(a.drop_last())) by {
            assert forall|i: int| 0 <= i < a.drop_last().len() implies (#[trigger] a.drop_last()[i]) is InlineTable by {
                assert(a.drop_last()[i] == a[i]);
            }
        }
        lemma_array_tables_keep_data(a.drop_last(), depth);
        let x = expanded_array_tables(a, depth);
        assert(x.drop_last() =~= expanded_array_tables(a.drop_last(), depth));
        if let TomlTree::InlineTable(e) = a.last() {
            lemma_entries_keep_data(e, depth);
            assert(x.last() == expanded_entries(e, depth));
            assert(data(a.last()) == TomlTree::InlineTable(data_entries(e)));
            assert(data_tables(x) == data_tables(x.drop_last()).push(TomlTree::InlineTable(data_entries(x.last()))));
            assert(data_all(a) == data_all(a.drop_last()).push(data(a.last())));
        }
    }
}

/// An expanded item is laid out as snapshot files are.
pub proof fn law_expand_lays_out(t: TomlTree, depth: nat)
    ensures
        laid_out(expanded(t, depth), depth),
    decreases t, 1nat,
{
    match t {
        TomlTree::InlineTable(e) => {
            if depth == 1 {
                lemma_entries_lay_out(e, depth + 1);
            }
        },
        TomlTree::Array(a) => {
            if depth <= 3 && a.len() > 0 && all_inline_tables(a) {
                lemma_array_tables_lay_out(a, depth + 1);
            }
        },
        TomlTree::Table(e) => {
            lemma_entries_lay_out(e, depth + 1);
        },
        TomlTree::ArrayOfTables(ts) => {
            lemma_tables_lay_out(ts, depth + 1);
        },
        _ => {},
    }
}

proof fn lemma_entries_lay_out(e: Seq<(Seq<char>, TomlTree)>, depth: nat)
    ensures
        entries_laid_out(expanded_entries(e, depth), depth),
    decreases e, 0nat,
{
    if e.len() > 0 {
        lemma_entries_lay_out(e.drop_last(), depth);
        law_expand_lays_out(e.last().1, depth);
        let x = expanded_entries(e, depth);
        assert(x.drop_last() =~= expanded_entries(e.drop_last(), depth));
    }
}

proof fn lemma_tables_lay_out(ts: Seq<Seq<(Seq<char>, TomlTree)>>, depth: nat)
    ensures
        tables_laid_out(expanded_tables(ts, depth), depth),
    decreases ts, 0nat,
{
    if ts.len() > 0 {
        lemma_tables_lay_out(ts.drop_last(), depth);
        lemma_entries_lay_out(ts.last(), depth);
        let x = expanded_tables(ts, depth);
        assert(x.drop_last() =~= expanded_tables(ts.drop_last(), depth));
    }
}

proof fn lemma_array_tables_lay_out(a: Seq<TomlTree>, depth: nat)
    ensures
        tables_laid_out(expanded_array_tables(a, depth), depth),
    decreases a, 0nat,
{
    if a.len() > 0 {
        lemma_array_tables_lay_out(a.drop_last(), depth);
        let x = expanded_array_tables(a, depth);
        assert(x.drop_last() =~= expanded_array_tables(a.drop_last(), depth));
        if let TomlTree::InlineTable(e) = a.last() {
            lemma_entries_lay_out(e, depth);
            assert(x.last() == expanded_entries(e, depth));
        } else {
            assert(x.last() == Seq::<(Seq<char>, TomlTree)>::empty());
        }
        assert(tables_laid_out(x, depth) == (tables_laid_out(x.drop_last(), depth) && entries_laid_out(x.last(), depth)));
    }
}

/// Below depth 3 the depth no longer matters.
proof fn lemma_expand_deep(t: TomlTree, depth: nat)
    requires
        depth >= 4,
    ensures
        expanded(t, depth) == expanded(t, depth + 1),
    decreases t, 1nat,
{
    match t {
        TomlTree::Table(e) => {
            lemma_entries_deep(e, depth + 1);
        },
        TomlTree::ArrayOfTables(ts) => {
            lemma_tables_deep(ts, depth + 1);
        },
        _ => {},
    }
}

proof fn lemma_entries_deep(e: Seq<(Seq<char>, TomlTree)>, depth: nat)
    requires
        depth >= 4,
    ensures
        expanded_entries(e, depth) == expanded_entries(e, depth + 1),
    decreases e, 0nat,
{
    if e.len() > 0 {
        lemma_entries_deep(e.drop_last(), depth);
        lemma_expand_deep(e.last().1, depth);
    }
}

proof fn lemma_tables_deep(ts: Seq<Seq<(Seq<char>, TomlTree)>>, depth: nat)
    requires
        depth >= 4,
    ensures
        expanded_tables(ts, depth) == expanded_tables(ts, depth + 1),
    decreases ts, 0nat,
{
    if ts.len() > 0 {
        lemma_tables_deep(ts.drop_last(), depth);
        lemma_entries_deep(ts.last(), depth);
    }
}

proof fn lemma_trees_of_index(s: Seq<TomlItem>)
    ensures
        trees_of(s).len() == s.len(),
        forall|i: int| 0 <= i < s.len() ==> #[trigger] trees_of(s)[i] == tree_of(s[i]),
    decreases s.len(),
{
    if s.len() > 0 {
        lemma_trees_of_index(s.drop_last());
        assert forall|i: int| 0 <= i < s.len() implies #[trigger] trees_of(s)[i] == tree_of(s[i]) by {
            if i < s.len() - 1 {
                assert(s.drop_last()[i] == s[i]);
            }
        }
    }
}

/// Whether every element of `a` is an inline table.
fn is_inline_table_array(a: &Vec<TomlItem>) -> (r: bool)
    ensures
        r == all_inline_tables(trees_of(a@)),
{
    proof {
        lemma_trees_of_index(a@);
    }
    let mut i: usize = 0;
    while i < a.len()
        invariant
            i <= a@.len(),
            trees_of(a@).len() == a@.len(),
            forall|j: int| 0 <= j < a@.len() ==> #[trigger] trees_of(a@)[j] == tree_of(a@[j]),
            forall|j: int| 0 <= j < i ==> (#[trigger] trees_of(a@)[j]) is InlineTable,
        decreases a@.len() - i,
    {
        match &a[i] {
            TomlItem::InlineTable(_) => {},
            _ => {
                assert(!(trees_of(a@)[i as int] is InlineTable));
                return false;
            },
        }
        i = i + 1;
    }
    true
}

/// Expands the layout of `item`, found at nesting depth `depth`.
fn expand_owned(item: TomlItem, depth: usize) -> (r: TomlItem)
    ensures
        r@ == expanded(item@, depth as nat),
    decreases item, 1nat,
{
    let next: usize = if depth < usize::MAX {
        depth + 1
    } else {
        depth
    };
    match item {
        TomlItem::InlineTable(e) => {
            if depth == 1 {
                TomlItem::Table(expand_entries(e, 2))
            } else {
                TomlItem::InlineTable(e)
            }
        },
        TomlItem::Array(a) => {
            proof {
                lemma_trees_of_index(a@);
            }
            if depth <= 3 && a.len() > 0 && is_inline_table_array(&a) {
                TomlItem::ArrayOfTables(expand_array_tables(a, next))
            } else {
                TomlItem::Array(a)
            }
        },
        TomlItem::Table(e) => {
            let ghost v = entries_of(e@);
            let out = expand_entries(e, next);
            proof {
                if next == depth {
                    lemma_entries_deep(v, depth as nat);
                }
            }
            TomlItem::Table(out)
        },
        TomlItem::ArrayOfTables(ts) => {
            let ghost v = tables_of(ts@);
            let out = expand_tables(ts, next);
            proof {
                if next == depth {
                    lemma_tables_deep(v, depth as nat);
                }
            }
            TomlItem::ArrayOfTables(out)
        },
        other => other,
    }
}

/// Expands the layout of each entry of a table, at nesting depth `depth`.
fn expand_entries(entries: Vec<(String, TomlItem)>, depth: usize) -> (r: Vec<(String, TomlItem)>)
    ensures
        entries_of(r@) == expanded_entries(entries_of(entries@), depth as nat),
    decreases entries, 0nat,
{
    let ghost orig = entries@;
    let mut rest = entries;
    let mut out: Vec<(String, TomlItem)> = Vec::new();
    while rest.len() > 0
        invariant
            out@.len() <= orig.len(),
            orig == entries@,
            rest@ == orig.subrange(out@.len() as int, orig.len() as int),
            entries_of(out@) == expanded_entries(entries_of(orig.take(out@.len() as int)), depth as nat),
        decreases rest@.len(),
    {
        let ghost k = out@.len() as int;
        let (key, child) = rest.remove(0);
        assert(key == orig[k].0 && child == orig[k].1);
        assert(decreases_to!(entries => entries@[k].1));
        let grown = expand_owned(child, depth);
        let ghost before = out@;
        out.push((key, grown));
        proof {
            let p = orig.take(k + 1);
            assert(p.drop_last() =~= orig.take(k));
            assert(p.last() == orig[k]);
            assert(out@.drop_last() =~= before);
            assert(entries_of(p) == entries_of(orig.take(k)).push((key@, child@)));
            let ep = entries_of(p);
            assert(ep.drop_last() =~= entries_of(orig.take(k)));
            assert(expanded_entries(ep, depth as nat) == expanded_entries(ep.drop_last(), depth as nat).push(
                (key@, expanded(child@, depth as nat)),
            ));
            assert(entries_of(out@) == entries_of(before).push((key@, grown@)));
        }
    }
    assert(orig.take(orig.len() as int) =~= orig);
    out
}

/// Expands the layout of each table of an array of tables, at nesting depth
/// `depth`.
fn expand_tables(tables: Vec<Vec<(String, TomlItem)>>, depth: usize) -> (r: Vec<Vec<(String, TomlItem)>>)
    ensures
        tables_of(r@) == expanded_tables(tables_of(tables@), depth as nat),
    decreases tables, 0nat,
{
    let ghost orig = tables@;
    let mut rest = tables;
    let mut out: Vec<Vec<(String, TomlItem)>> = Vec::new();
    while rest.len() > 0
        invariant
            out@.len() <= orig.len(),
            orig == tables@,
            rest@ == orig.subrange(out@.len() as int, orig.len() as int),
            tables_of(out@) == expanded_tables(tables_of(orig.take(out@.len() as int)), depth as nat),
        decreases rest@.len(),
    {
        let ghost k = out@.len() as int;
        let table = rest.remove(0);
        assert(table == orig[k]);
        assert(decreases_to!(tables => tables@[k]));
        let grown = expand_entries(table, depth);
        let ghost before = out@;
        out.push(grown);
        proof {
            let p = orig.take(k + 1);
            assert(p.drop_last() =~= orig.take(k));
            assert(p.last() == orig[k]);
            assert(out@.drop_last() =~= before);
            assert(tables_of(p) == tables_of(orig.take(k)).push(entries_of(table@)));
            let tp = tables_of(p);
            assert(tp.drop_last() =~= tables_of(orig.take(k)));
            assert(expanded_tables(tp, depth as nat) == expanded_tables(tp.drop_last(), depth as nat).push(
                expanded_entries(entries_of(table@), depth as nat),
            ));
            assert(tables_of(out@) == tables_of(before).push(entries_of(grown@)));
        }
    }
    assert(orig.take(orig.len() as int) =~= orig);
    out
}

/// Turns each inline table of an array into a table whose entries are
/// expanded at nesting depth `depth`.
fn expand_array_tables(values: Vec<TomlItem>, depth: usize) -> (r: Vec<Vec<(String, TomlItem)>>)
    ensures
        tables_of(r@) == expanded_array_tables(trees_of(values@), depth as nat),
    decreases values, 0nat,
{
    let ghost orig = values@;
    let mut rest = values;
    let mut out: Vec<Vec<(String, TomlItem)>> = Vec::new();
    while rest.len() > 0
        invariant
            out@.len() <= orig.len(),
            orig == values@,
            rest@ == orig.subrange(out@.len() as int, orig.len() as int),
            tables_of(out@) == expanded_array_tables(trees_of(orig.take(out@.len() as int)), depth as nat),
        decreases rest@.len(),
    {
        let ghost k = out@.len() as int;
        let value = rest.remove(0);
        assert(value == orig[k]);
        let ghost tv = value@;
        let grown = match value {
            TomlItem::InlineTable(e) => {
                assert(decreases_to!(values => values@[k]));
                expand_entries(e, depth)
            },
            _ => Vec::new(),
        };
        let ghost before = out@;
        out.push(grown);
        proof {
            let p = orig.take(k + 1);
            assert(p.drop_last() =~= orig.take(k));
            assert(p.last() == orig[k]);
            assert(out@.drop_last() =~= before);
            assert(trees_of(p) == trees_of(orig.take(k)).push(tv));
            let tp = trees_of(p);
            assert(tp.drop_last() =~= trees_of(orig.take(k)));
            assert(entries_of(Seq::<(String, TomlItem)>::empty()) == Seq::<(Seq<char>, TomlTree)>::empty());
            assert(expanded_array_tables(tp, depth as nat) == expanded_array_tables(tp.drop_last(), depth as nat).push(
                match tv {
                    TomlTree::InlineTable(e) => expanded_entries(e, depth as nat),
                    _ => seq![],
                },
            ));
            assert(tables_of(out@) == tables_of(before).push(entries_of(grown@)));
        }
    }
    assert(orig.take(orig.len() as int) =~= orig);
    out
}

/// Expands the layout of `item`, found at nesting depth `depth` of a
/// document: inline tables at depth 1 become sections, non-empty inline
/// arrays of inline tables at depth 3 or less become arrays of tables, and
/// deeper structures stay inline.
pub fn expand_item(item: &mut TomlItem, depth: usize)
    ensures
        final(item)@ == expanded(old(item)@, depth as nat),
{
    let mut taken = TomlItem::Empty;
    std::mem::swap(item, &mut taken);
    *item = expand_owned(taken, depth);
}

/// Lays out a serialized document as snapshot files are written: each item
/// of the root table is expanded at depth 1.
pub fn expand_document(root: Vec<(String, TomlItem)>) -> (r: Vec<(String, TomlItem)>)
    ensures
        entries_of(r@) == expanded_entries(entries_of(root@), 1),
{
    expand_entries(root, 1)
}

} // verus!
