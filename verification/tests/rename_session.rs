use toasty::cli::rename_session::{RenameQuestion, RenameSession};
use toasty::schema::db::{
    Column, ColumnId, Index, IndexColumn, IndexId, IndexOp, IndexScope, PrimaryKey, Schema,
    SchemaDiff, Table, TableId, TablesDiffItem, Type,
};
use toasty::stmt;

fn col(table: usize, idx: usize, name: &str) -> Column {
    Column {
        id: ColumnId {
            table: TableId(table),
            index: idx,
        },
        name: name.to_string(),
        ty: stmt::Type::String,
        storage_ty: Type::Text,
        nullable: false,
        primary_key: idx == 0,
        auto_increment: false,
    }
}

fn index(table: usize, idx: usize, name: &str, on_col: usize) -> Index {
    Index {
        id: IndexId {
            table: TableId(table),
            index: idx,
        },
        name: name.to_string(),
        on: TableId(table),
        columns: vec![IndexColumn {
            column: ColumnId {
                table: TableId(table),
                index: on_col,
            },
            op: IndexOp::Eq,
            scope: IndexScope::Local,
        }],
        unique: false,
        primary_key: false,
    }
}

fn table(id: usize, name: &str, columns: Vec<Column>, indices: Vec<Index>) -> Table {
    Table {
        id: TableId(id),
        name: name.to_string(),
        columns,
        primary_key: PrimaryKey {
            columns: vec![],
            index: IndexId {
                table: TableId(id),
                index: 0,
            },
        },
        indices,
    }
}

fn one(t: Table) -> Schema {
    Schema { tables: vec![t] }
}

#[test]
fn table_rename_is_asked_then_recorded() {
    let prev = one(table(0, "users", vec![col(0, 0, "id")], vec![]));
    let next = one(table(0, "people", vec![col(0, 0, "id")], vec![]));
    let mut session = RenameSession::new();

    let question = session.next_question(&prev, &next).unwrap();
    match &question {
        RenameQuestion::Table { dropped, candidates } => {
            assert_eq!(dropped.name, "users");
            assert_eq!(candidates.len(), 1);
            assert_eq!(candidates[0].name, "people");
        }
        _ => panic!("expected a table question"),
    }
    assert_eq!(question.num_candidates(), 1);
    session.answer(&question, 1);

    assert!(session.next_question(&prev, &next).is_none());
    let (hints, stored) = session.finish();
    assert_eq!(hints.get_table(TableId(0)), Some(TableId(0)));
    assert_eq!(stored.tables.len(), 1);
    assert_eq!(stored.tables[0].from, 0);
    assert_eq!(stored.tables[0].to, 0);

    let diff = SchemaDiff::from(&prev, &next, &hints);
    assert_eq!(diff.tables().len(), 1);
    assert!(matches!(&diff.tables()[0], TablesDiffItem::AlterTable { .. }));
}

#[test]
fn confirmed_table_drop_is_not_asked_again() {
    let prev = one(table(0, "users", vec![col(0, 0, "id")], vec![]));
    let next = one(table(0, "people", vec![col(0, 0, "id")], vec![]));
    let mut session = RenameSession::new();

    let question = session.next_question(&prev, &next).unwrap();
    session.answer(&question, 0);

    assert!(session.next_question(&prev, &next).is_none());
    let (hints, stored) = session.finish();
    assert!(stored.is_empty());
    let diff = SchemaDiff::from(&prev, &next, &hints);
    assert_eq!(diff.tables().len(), 2);
}

#[test]
fn column_rename_is_asked_then_recorded() {
    let prev = one(table(0, "users", vec![col(0, 0, "id"), col(0, 1, "old_name")], vec![]));
    let next = one(table(0, "users", vec![col(0, 0, "id"), col(0, 1, "new_name")], vec![]));
    let mut session = RenameSession::new();

    let question = session.next_question(&prev, &next).unwrap();
    match &question {
        RenameQuestion::Column {
            table,
            dropped,
            candidates,
        } => {
            assert_eq!(table.name, "users");
            assert_eq!(dropped.name, "old_name");
            assert_eq!(candidates.len(), 1);
            assert_eq!(candidates[0].name, "new_name");
        }
        _ => panic!("expected a column question"),
    }
    session.answer(&question, 1);
    assert!(session.next_question(&prev, &next).is_none());

    let (hints, stored) = session.finish();
    assert_eq!(stored.columns.len(), 1);
    assert_eq!(stored.columns[0].from_col, 1);
    assert_eq!(stored.columns[0].to_col, 1);
    let from = ColumnId {
        table: TableId(0),
        index: 1,
    };
    assert_eq!(hints.get_column(from), Some(from));
}

#[test]
fn confirmed_column_drop_then_index_question() {
    let prev = one(table(
        0,
        "users",
        vec![col(0, 0, "id"), col(0, 1, "a")],
        vec![index(0, 0, "idx_old", 0)],
    ));
    let next = one(table(
        0,
        "users",
        vec![col(0, 0, "id"), col(0, 1, "b")],
        vec![index(0, 0, "idx_new", 0)],
    ));
    let mut session = RenameSession::new();

    let first = session.next_question(&prev, &next).unwrap();
    assert!(matches!(&first, RenameQuestion::Column { .. }));
    session.answer(&first, 0);

    let second = session.next_question(&prev, &next).unwrap();
    match &second {
        RenameQuestion::Index { dropped, candidates, .. } => {
            assert_eq!(dropped.name, "idx_old");
            assert_eq!(candidates[0].name, "idx_new");
        }
        _ => panic!("expected an index question"),
    }
    session.answer(&second, 1);
    assert!(session.next_question(&prev, &next).is_none());

    let (_, stored) = session.finish();
    assert!(stored.columns.is_empty());
    assert_eq!(stored.indices.len(), 1);
    assert_eq!(stored.indices[0].from_idx, 0);
}

#[test]
fn nothing_to_ask_without_drops_and_additions() {
    let prev = one(table(0, "users", vec![col(0, 0, "id")], vec![]));
    let next = Schema {
        tables: vec![
            table(0, "users", vec![col(0, 0, "id")], vec![]),
            table(1, "todos", vec![col(1, 0, "id")], vec![]),
        ],
    };
    let session = RenameSession::new();
    assert!(session.next_question(&prev, &next).is_none());
    assert_eq!(session.hints().get_table(TableId(0)), None);
}
