use toasty::cli::toml_layout::{expand_document, TomlItem};
use toasty::cli::{
    SnapshotFile, StoredColumnRename, StoredIndexRename, StoredRenameHints, StoredTableRename,
};
use toasty::error::Error;
use toasty::schema::db::{ColumnId, IndexId, Schema, TableId};
use toml_edit::{Array, ArrayOfTables, DocumentMut, InlineTable, Item, Table, Value};

// ── TOML text for snapshots of an empty schema ──────────────────────────────

fn scalar(n: usize) -> TomlItem {
    TomlItem::Scalar(n.to_string())
}

fn fields(pairs: &[(&str, usize)]) -> TomlItem {
    TomlItem::InlineTable(pairs.iter().map(|(k, v)| (k.to_string(), scalar(*v))).collect())
}

fn hints_item(h: &StoredRenameHints) -> TomlItem {
    let mut entries = Vec::new();
    if !h.tables.is_empty() {
        let items = h.tables.iter().map(|r| fields(&[("from", r.from), ("to", r.to)])).collect();
        entries.push(("tables".to_string(), TomlItem::Array(items)));
    }
    if !h.columns.is_empty() {
        let items = h
            .columns
            .iter()
            .map(|r| {
                fields(&[
                    ("from_table", r.from_table),
                    ("from_col", r.from_col),
                    ("to_table", r.to_table),
                    ("to_col", r.to_col),
                ])
            })
            .collect();
        entries.push(("columns".to_string(), TomlItem::Array(items)));
    }
    if !h.indices.is_empty() {
        let items = h
            .indices
            .iter()
            .map(|r| {
                fields(&[
                    ("from_table", r.from_table),
                    ("from_idx", r.from_idx),
                    ("to_table", r.to_table),
                    ("to_idx", r.to_idx),
                ])
            })
            .collect();
        entries.push(("indices".to_string(), TomlItem::Array(items)));
    }
    TomlItem::InlineTable(entries)
}

fn to_value(item: TomlItem) -> Value {
    match item {
        TomlItem::Scalar(s) => s.parse().unwrap(),
        TomlItem::Array(items) => {
            let mut a = Array::new();
            for i in items {
                a.push(to_value(i));
            }
            Value::Array(a)
        }
        TomlItem::InlineTable(e) | TomlItem::Table(e) => {
            let mut t = InlineTable::new();
            for (k, v) in e {
                t.insert(k, to_value(v));
            }
            Value::InlineTable(t)
        }
        other => panic!("not a value: {other:?}"),
    }
}

fn to_table(entries: Vec<(String, TomlItem)>) -> Table {
    let mut t = Table::new();
    for (k, v) in entries {
        let item = match v {
            TomlItem::Table(e) => Item::Table(to_table(e)),
            TomlItem::ArrayOfTables(ts) => {
                let mut a = ArrayOfTables::new();
                for e in ts {
                    a.push(to_table(e));
                }
                Item::ArrayOfTables(a)
            }
            TomlItem::Empty => Item::None,
            value => Item::Value(to_value(value)),
        };
        t.insert(&k, item);
    }
    t
}

/// Writes a snapshot as its file does: serialized fields, laid out by the
/// library.
fn render(snapshot: &SnapshotFile) -> String {
    assert!(snapshot.schema.tables.is_empty());
    let mut root = vec![("version".to_string(), scalar(snapshot.version() as usize))];
    if let Some(h) = &snapshot.rename_hints {
        root.push(("rename_hints".to_string(), hints_item(h)));
    }
    root.push((
        "schema".to_string(),
        TomlItem::InlineTable(vec![("tables".to_string(), TomlItem::Array(vec![]))]),
    ));
    DocumentMut::from(to_table(expand_document(root))).to_string()
}

fn num(t: &toml::Table, k: &str) -> usize {
    t[k].as_integer().unwrap() as usize
}

fn list<'a>(t: &'a toml::Table, k: &str) -> Vec<&'a toml::Table> {
    match t.get(k) {
        Some(v) => v.as_array().unwrap().iter().map(|x| x.as_table().unwrap()).collect(),
        None => vec![],
    }
}

/// Reads a snapshot back: the parser gives the fields, the library checks
/// the version.
fn parse(text: &str) -> Result<SnapshotFile, Error> {
    let doc: toml::Table = toml::from_str(text).unwrap();
    let version = doc["version"].as_integer().unwrap() as u32;
    let hints = doc.get("rename_hints").map(|h| {
        let h = h.as_table().unwrap();
        StoredRenameHints {
            tables: list(h, "tables")
                .into_iter()
                .map(|r| StoredTableRename {
                    from: num(r, "from"),
                    to: num(r, "to"),
                })
                .collect(),
            columns: list(h, "columns")
                .into_iter()
                .map(|r| StoredColumnRename {
                    from_table: num(r, "from_table"),
                    from_col: num(r, "from_col"),
                    to_table: num(r, "to_table"),
                    to_col: num(r, "to_col"),
                })
                .collect(),
            indices: list(h, "indices")
                .into_iter()
                .map(|r| StoredIndexRename {
                    from_table: num(r, "from_table"),
                    from_idx: num(r, "from_idx"),
                    to_table: num(r, "to_table"),
                    to_idx: num(r, "to_idx"),
                })
                .collect(),
        }
    });
    let tables = doc["schema"].as_table().unwrap()["tables"].as_array().unwrap();
    assert!(tables.is_empty());
    SnapshotFile::from_parts(version, hints, Schema::default())
}

#[test]
fn snapshot_roundtrip_no_hints() {
    let snapshot = SnapshotFile::new(Schema::default());
    let toml_str = render(&snapshot);

    assert!(
        !toml_str.contains("rename_hints"),
        "empty hints should be omitted from TOML"
    );

    let parsed: SnapshotFile = parse(&toml_str).unwrap();
    assert!(parsed.rename_hints.is_none());
}

#[test]
fn snapshot_roundtrip_with_hints() {
    let hints = StoredRenameHints {
        tables: vec![StoredTableRename { from: 0, to: 1 }],
        columns: vec![StoredColumnRename {
            from_table: 0,
            from_col: 1,
            to_table: 1,
            to_col: 2,
        }],
        indices: vec![StoredIndexRename {
            from_table: 0,
            from_idx: 0,
            to_table: 1,
            to_idx: 0,
        }],
    };

    let snapshot = SnapshotFile::with_rename_hints(Schema::default(), hints);
    let toml_str = render(&snapshot);
    assert!(toml_str.contains("[[rename_hints.tables]]"));
    assert!(toml_str.contains("[schema]"));

    let parsed: SnapshotFile = parse(&toml_str).unwrap();
    let stored = parsed.rename_hints.expect("rename_hints should be present");

    assert_eq!(stored.tables.len(), 1);
    assert_eq!(stored.tables[0].from, 0);
    assert_eq!(stored.tables[0].to, 1);

    assert_eq!(stored.columns.len(), 1);
    assert_eq!(stored.columns[0].from_table, 0);
    assert_eq!(stored.columns[0].from_col, 1);
    assert_eq!(stored.columns[0].to_table, 1);
    assert_eq!(stored.columns[0].to_col, 2);

    assert_eq!(stored.indices.len(), 1);
    assert_eq!(stored.indices[0].from_table, 0);
    assert_eq!(stored.indices[0].from_idx, 0);
    assert_eq!(stored.indices[0].to_table, 1);
    assert_eq!(stored.indices[0].to_idx, 0);
}

#[test]
fn snapshot_with_unsupported_version_is_refused() {
    let err = match parse("version = 7\n[schema]\ntables = []\n") {
        Err(e) => e,
        Ok(_) => panic!("expected an error"),
    };
    assert!(!err.is_migration_failed());
    assert_eq!(
        err.message(),
        "Unsupported snapshot file version: 7. Expected version 1"
    );
}

#[test]
fn stored_hints_into_rename_hints_roundtrip() {
    let stored = StoredRenameHints {
        tables: vec![StoredTableRename { from: 2, to: 3 }],
        columns: vec![StoredColumnRename {
            from_table: 0,
            from_col: 5,
            to_table: 0,
            to_col: 6,
        }],
        indices: vec![StoredIndexRename {
            from_table: 1,
            from_idx: 2,
            to_table: 1,
            to_idx: 3,
        }],
    };

    let hints = stored.into_rename_hints();
    assert_eq!(hints.get_table(TableId(2)), Some(TableId(3)));
    assert_eq!(hints.get_table(TableId(0)), None);
    assert_eq!(
        hints.get_column(ColumnId {
            table: TableId(0),
            index: 5
        }),
        Some(ColumnId {
            table: TableId(0),
            index: 6
        })
    );
    assert_eq!(
        hints.get_index(IndexId {
            table: TableId(1),
            index: 2
        }),
        Some(IndexId {
            table: TableId(1),
            index: 3
        })
    );
}

#[test]
fn later_stored_rename_overrides_earlier() {
    let stored = StoredRenameHints {
        tables: vec![
            StoredTableRename { from: 1, to: 2 },
            StoredTableRename { from: 1, to: 5 },
        ],
        columns: vec![],
        indices: vec![],
    };
    let hints = stored.into_rename_hints();
    assert_eq!(hints.get_table(TableId(1)), Some(TableId(5)));
    assert!(!StoredRenameHints::default().into_rename_hints().get_table(TableId(1)).is_some());
}
