use toasty::cli::toml_layout::{expand_document, expand_item, TomlItem};

fn scalar(s: &str) -> TomlItem {
    TomlItem::Scalar(s.to_string())
}

fn entry(k: &str, v: TomlItem) -> (String, TomlItem) {
    (k.to_string(), v)
}

fn column(name: &str) -> TomlItem {
    TomlItem::InlineTable(vec![
        entry("name", scalar(&format!("\"{name}\""))),
        entry(
            "id",
            TomlItem::InlineTable(vec![entry("table", scalar("0")), entry("index", scalar("0"))]),
        ),
    ])
}

/// `schema = { tables = [ { name = "users", columns = [ {..}, {..} ] } ] }`
fn serialized_schema() -> TomlItem {
    TomlItem::InlineTable(vec![entry(
        "tables",
        TomlItem::Array(vec![TomlItem::InlineTable(vec![
            entry("name", scalar("\"users\"")),
            entry("columns", TomlItem::Array(vec![column("id"), column("name")])),
            entry("indices", TomlItem::Array(vec![])),
        ])]),
    )])
}

#[test]
fn schema_becomes_section_with_arrays_of_tables() {
    let mut item = serialized_schema();
    expand_item(&mut item, 1);

    let TomlItem::Table(schema) = &item else {
        panic!("expected the schema as a section");
    };
    assert_eq!(schema[0].0, "tables");
    let TomlItem::ArrayOfTables(tables) = &schema[0].1 else {
        panic!("expected [[schema.tables]]");
    };
    assert_eq!(tables.len(), 1);
    assert_eq!(tables[0][0].0, "name");
    assert!(matches!(&tables[0][0].1, TomlItem::Scalar(s) if s == "\"users\""));

    // [[schema.tables.columns]] at depth 3
    let TomlItem::ArrayOfTables(columns) = &tables[0][1].1 else {
        panic!("expected [[schema.tables.columns]]");
    };
    assert_eq!(columns.len(), 2);
    // Deeper structures such as `id = { table = 0, index = 0 }` stay inline.
    assert!(matches!(&columns[0][1].1, TomlItem::InlineTable(_)));

    // An empty array stays an inline array.
    assert!(matches!(&tables[0][2].1, TomlItem::Array(a) if a.is_empty()));
}

#[test]
fn inline_table_below_depth_one_stays_inline() {
    let mut item = TomlItem::InlineTable(vec![entry("a", scalar("1"))]);
    expand_item(&mut item, 2);
    assert!(matches!(item, TomlItem::InlineTable(_)));
}

#[test]
fn arrays_deeper_than_three_stay_inline() {
    let mut item = TomlItem::Array(vec![TomlItem::InlineTable(vec![entry("a", scalar("1"))])]);
    expand_item(&mut item, 4);
    assert!(matches!(item, TomlItem::Array(_)));

    let mut item = TomlItem::Array(vec![TomlItem::InlineTable(vec![entry("a", scalar("1"))])]);
    expand_item(&mut item, 3);
    assert!(matches!(item, TomlItem::ArrayOfTables(_)));
}

#[test]
fn mixed_arrays_stay_inline() {
    let mut item = TomlItem::Array(vec![
        TomlItem::InlineTable(vec![entry("a", scalar("1"))]),
        scalar("2"),
    ]);
    expand_item(&mut item, 2);
    assert!(matches!(item, TomlItem::Array(a) if a.len() == 2));
}

#[test]
fn document_expands_each_root_item() {
    let root = vec![
        entry("version", scalar("1")),
        entry("schema", serialized_schema()),
    ];
    let out = expand_document(root);
    assert_eq!(out.len(), 2);
    assert!(matches!(&out[0].1, TomlItem::Scalar(s) if s == "1"));
    assert!(matches!(&out[1].1, TomlItem::Table(_)));
}

#[test]
fn expanding_twice_changes_nothing_more() {
    let mut once = serialized_schema();
    expand_item(&mut once, 1);
    let mut twice = serialized_schema();
    expand_item(&mut twice, 1);
    expand_item(&mut twice, 1);
    assert_eq!(format!("{once:?}"), format!("{twice:?}"));
}

/// The document's contents with its layout forgotten.
fn data(item: &TomlItem) -> String {
    match item {
        TomlItem::Empty => "none".to_string(),
        TomlItem::Scalar(s) => s.clone(),
        TomlItem::Array(a) => format!("[{}]", a.iter().map(data).collect::<Vec<_>>().join(",")),
        TomlItem::InlineTable(e) | TomlItem::Table(e) => table_data(e),
        TomlItem::ArrayOfTables(ts) => {
            format!("[{}]", ts.iter().map(|t| table_data(t)).collect::<Vec<_>>().join(","))
        }
    }
}

fn table_data(e: &[(String, TomlItem)]) -> String {
    format!(
        "{{{}}}",
        e.iter().map(|(k, v)| format!("{k}={}", data(v))).collect::<Vec<_>>().join(",")
    )
}

#[test]
fn expansion_keeps_the_data() {
    let before = serialized_schema();
    let mut after = serialized_schema();
    expand_item(&mut after, 1);
    assert_eq!(data(&before), data(&after));
    assert!(!matches!(after, TomlItem::InlineTable(_)));
}
