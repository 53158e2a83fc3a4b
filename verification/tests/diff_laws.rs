use toasty::schema::db::{
    Column, ColumnId, IndexId, PrimaryKey, RenameHints, Schema, SchemaDiff, Table, TableId,
    TablesDiffItem, Type,
};
use toasty::stmt;

fn col(table: usize, idx: usize, name: &str, nullable: bool) -> Column {
    Column {
        id: ColumnId {
            table: TableId(table),
            index: idx,
        },
        name: name.to_string(),
        ty: stmt::Type::String,
        storage_ty: Type::Text,
        nullable,
        primary_key: idx == 0,
        auto_increment: false,
    }
}

fn table(id: usize, name: &str, columns: Vec<Column>) -> Table {
    Table {
        id: TableId(id),
        name: name.to_string(),
        columns,
        primary_key: PrimaryKey {
            columns: vec![],
            index: IndexId {
                table: TableId(id),
                index: 0,
            },
        },
        indices: vec![],
    }
}

fn names(diff: &SchemaDiff<'_>) -> Vec<String> {
    diff.tables()
        .iter()
        .map(|item| match item {
            TablesDiffItem::CreateTable(t) => format!("create {}", t.name),
            TablesDiffItem::DropTable(t) => format!("drop {}", t.name),
            TablesDiffItem::AlterTable { previous, next, .. } => {
                format!("alter {} -> {}", previous.name, next.name)
            }
        })
        .collect()
}

#[test]
fn hint_is_found_after_it_is_added() {
    let mut hints = RenameHints::new();
    assert_eq!(hints.get_table(TableId(3)), None);
    hints.add_table_hint(TableId(3), TableId(4));
    hints.add_table_hint(TableId(3), TableId(5));
    assert_eq!(hints.get_table(TableId(3)), Some(TableId(5)));
    let from = ColumnId {
        table: TableId(0),
        index: 1,
    };
    let to = ColumnId {
        table: TableId(0),
        index: 2,
    };
    hints.add_column_hint(from, to);
    assert_eq!(hints.get_column(from), Some(to));
    assert_eq!(hints.get_column(to), None);
    let idx = IndexId {
        table: TableId(1),
        index: 0,
    };
    hints.add_index_hint(idx, idx);
    assert_eq!(hints.get_index(idx), Some(idx));
    assert_eq!(RenameHints::default().get_index(idx), None);
}

#[test]
fn diff_depends_only_on_what_hints_map() {
    let from = Schema {
        tables: vec![table(0, "users", vec![col(0, 0, "id", false)]), table(1, "posts", vec![])],
    };
    let to = Schema {
        tables: vec![table(0, "people", vec![col(0, 0, "id", false)]), table(1, "articles", vec![])],
    };
    let mut a = RenameHints::new();
    a.add_table_hint(TableId(0), TableId(0));
    a.add_table_hint(TableId(1), TableId(1));
    let mut b = RenameHints::new();
    b.add_table_hint(TableId(1), TableId(1));
    b.add_table_hint(TableId(0), TableId(7));
    b.add_table_hint(TableId(0), TableId(0));
    assert_eq!(names(&SchemaDiff::from(&from, &to, &a)), names(&SchemaDiff::from(&from, &to, &b)));
    assert_eq!(
        names(&SchemaDiff::from(&from, &to, &a)),
        vec!["alter users -> people", "alter posts -> articles"]
    );
}

#[test]
fn diff_from_empty_creates_every_table_in_order() {
    let empty = Schema::default();
    let to = Schema {
        tables: vec![table(0, "b", vec![]), table(1, "a", vec![]), table(2, "c", vec![])],
    };
    let hints = RenameHints::new();
    assert_eq!(
        names(&SchemaDiff::from(&empty, &to, &hints)),
        vec!["create b", "create a", "create c"]
    );
    assert_eq!(
        names(&SchemaDiff::from(&to, &empty, &hints)),
        vec!["drop b", "drop a", "drop c"]
    );
}

#[test]
fn same_schema_with_shared_names_is_not_empty() {
    // Two tables named alike: both are paired with the first, whose columns
    // differ from the second's, and the second is left unpaired, so comparing
    // the schema with itself reports changes.
    let s = Schema {
        tables: vec![
            table(0, "users", vec![col(0, 0, "id", false)]),
            table(1, "users", vec![col(1, 0, "id", true)]),
        ],
    };
    let hints = RenameHints::new();
    let diff = SchemaDiff::from(&s, &s, &hints);
    assert_eq!(names(&diff), vec!["alter users -> users", "create users"]);

    let distinct = Schema {
        tables: vec![
            table(0, "users", vec![col(0, 0, "id", false)]),
            table(1, "todos", vec![col(1, 0, "id", true)]),
        ],
    };
    assert!(SchemaDiff::from(&distinct, &distinct, &hints).is_empty());
}
