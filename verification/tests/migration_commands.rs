use toasty::cli::commands::{contains_id, DropTarget};
use toasty::cli::snapshot_file::restored_hints;
use toasty::cli::{ApplyCommand, DropCommand, GenerateCommand, StoredRenameHints, StoredTableRename};
use toasty::migrate::{HistoryFile, HistoryFileMigration};
use toasty::schema::db::{
    Column, ColumnId, IndexId, PrimaryKey, RenameHints, Schema, SchemaDiff, Table, TableId,
    TablesDiffItem, Type,
};
use toasty::stmt;

fn col(table: usize, idx: usize, name: &str) -> Column {
    Column {
        id: ColumnId {
            table: TableId(table),
            index: idx,
        },
        name: name.to_string(),
        ty: stmt::Type::String,
        storage_ty: Type::Text,
        nullable: false,
        primary_key: idx == 0,
        auto_increment: false,
    }
}

fn table(id: usize, name: &str) -> Table {
    Table {
        id: TableId(id),
        name: name.to_string(),
        columns: vec![col(id, 0, "id"), col(id, 1, "name")],
        primary_key: PrimaryKey {
            columns: vec![ColumnId {
                table: TableId(id),
                index: 0,
            }],
            index: IndexId {
                table: TableId(id),
                index: 0,
            },
        },
        indices: vec![],
    }
}

fn users() -> Schema {
    Schema {
        tables: vec![table(0, "users")],
    }
}

fn users_and_todos() -> Schema {
    Schema {
        tables: vec![table(0, "users"), table(1, "todos")],
    }
}

fn entry(id: u64, name: &str, snapshot: &str) -> HistoryFileMigration {
    HistoryFileMigration {
        id,
        name: name.to_string(),
        snapshot_name: snapshot.to_string(),
        checksum: None,
    }
}

// ── generate ────────────────────────────────────────────────────────────────

#[test]
fn generate_records_initial_migration() {
    let prev = Schema::default();
    let next = users();
    let hints = RenameHints::new();
    let diff = SchemaDiff::from(&prev, &next, &hints);
    let mut history = HistoryFile::new();

    let generated = GenerateCommand { name: None }
        .generate(&mut history, &diff, next.clone(), StoredRenameHints::new(), 7)
        .unwrap();

    assert_eq!(history.migrations().len(), 1);
    assert_eq!(history.migrations()[0].id, 7);
    assert_eq!(history.migrations()[0].name, "0000_migration.sql");
    assert_eq!(history.migrations()[0].snapshot_name, "0000_snapshot.toml");
    assert_eq!(generated.snapshot_name, "0000_snapshot.toml");
    assert!(generated.snapshot.rename_hints.is_none());
    assert_eq!(generated.snapshot.schema.tables.len(), 1);
    assert_eq!(generated.snapshot.version(), 1);
}

#[test]
fn generate_without_changes_leaves_history_alone() {
    let s = users();
    let hints = RenameHints::new();
    let diff = SchemaDiff::from(&s, &s, &hints);
    let mut history = HistoryFile::new();
    history.add_migration(entry(1, "0000_migration.sql", "0000_snapshot.toml"));

    let generated =
        GenerateCommand { name: None }.generate(&mut history, &diff, s.clone(), StoredRenameHints::new(), 2);

    assert!(generated.is_none());
    assert_eq!(history.migrations().len(), 1);
}

#[test]
fn generate_numbers_the_next_migration() {
    let first = users();
    let second = users_and_todos();
    let empty = Schema::default();
    let hints = RenameHints::new();
    let mut history = HistoryFile::new();

    let diff1 = SchemaDiff::from(&empty, &first, &hints);
    GenerateCommand { name: None }
        .generate(&mut history, &diff1, first.clone(), StoredRenameHints::new(), 1)
        .unwrap();
    assert_eq!(history.next_migration_number(), 1);

    let diff2 = SchemaDiff::from(&first, &second, &hints);
    let generated = GenerateCommand { name: None }
        .generate(&mut history, &diff2, second.clone(), StoredRenameHints::new(), 2)
        .unwrap();

    assert_eq!(history.migrations().len(), 2);
    assert_eq!(history.migrations()[1].snapshot_name, "0001_snapshot.toml");
    assert_eq!(history.migrations()[1].name, "0001_migration.sql");
    assert_eq!(generated.snapshot_name, "0001_snapshot.toml");
    assert_eq!(history.next_migration_number(), 2);
}

#[test]
fn generate_with_custom_name() {
    let prev = Schema::default();
    let next = users();
    let hints = RenameHints::new();
    let diff = SchemaDiff::from(&prev, &next, &hints);
    let mut history = HistoryFile::new();

    GenerateCommand {
        name: Some("init".to_string()),
    }
    .generate(&mut history, &diff, next.clone(), StoredRenameHints::new(), 3)
    .unwrap();

    assert_eq!(history.migrations()[0].name, "init");
    assert_eq!(history.migrations()[0].snapshot_name, "0000_init_snapshot.toml");
}

#[test]
fn generate_keeps_rename_hints_in_snapshot() {
    let prev = users();
    let mut renamed = users();
    renamed.tables[0].name = "people".to_string();
    let mut hints = RenameHints::new();
    hints.add_table_hint(TableId(0), TableId(0));
    let diff = SchemaDiff::from(&prev, &renamed, &hints);
    let stored = StoredRenameHints {
        tables: vec![StoredTableRename { from: 0, to: 0 }],
        columns: vec![],
        indices: vec![],
    };
    let mut history = HistoryFile::new();

    let generated = GenerateCommand { name: None }
        .generate(&mut history, &diff, renamed.clone(), stored, 9)
        .unwrap();

    let kept = generated.snapshot.rename_hints.unwrap();
    assert_eq!(kept.tables.len(), 1);
    assert_eq!(kept.tables[0].from, 0);
}

#[test]
fn generate_with_random_id_stays_below_i64_max() {
    let prev = Schema::default();
    let next = users();
    let hints = RenameHints::new();
    let diff = SchemaDiff::from(&prev, &next, &hints);
    let mut ids = Vec::new();
    for _ in 0..20 {
        let mut history = HistoryFile::new();
        GenerateCommand { name: None }
            .generate_with_random_id(&mut history, &diff, next.clone(), StoredRenameHints::new())
            .unwrap();
        assert!(history.migrations()[0].id < i64::MAX as u64);
        ids.push(history.migrations()[0].id);
    }
    // The IDs are drawn at random: twenty draws are not all the same.
    assert!(ids.iter().any(|&id| id != ids[0]));
}

#[test]
fn command_names() {
    let (name, snapshot) = GenerateCommand { name: None }.names(12);
    assert_eq!(name, "0012_migration.sql");
    assert_eq!(snapshot, "0012_snapshot.toml");
    let (name, snapshot) = GenerateCommand {
        name: Some("add_users".to_string()),
    }
    .names(12345);
    assert_eq!(name, "add_users");
    assert_eq!(snapshot, "12345_add_users_snapshot.toml");
}

// ── drop ────────────────────────────────────────────────────────────────────

fn three_migrations() -> HistoryFile {
    let mut history = HistoryFile::new();
    history.add_migration(entry(1, "0000_migration.sql", "0000_snapshot.toml"));
    history.add_migration(entry(2, "0001_migration.sql", "0001_snapshot.toml"));
    history.add_migration(entry(3, "0002_migration.sql", "0002_snapshot.toml"));
    history
}

#[test]
fn drop_with_empty_history_fails() {
    let history = HistoryFile::new();
    let err = match (DropCommand {
        name: None,
        latest: true,
    })
    .target(&history)
    {
        Err(e) => e,
        Ok(_) => panic!("expected an error"),
    };
    assert!(!err.is_migration_failed());
    assert_eq!(err.message(), "No migrations found in history");
}

#[test]
fn drop_latest_picks_last() {
    let history = three_migrations();
    let target = DropCommand {
        name: Some("0000_snapshot.toml".to_string()),
        latest: true,
    }
    .target(&history);
    assert!(matches!(target, Ok(DropTarget::Index(2))));
}

#[test]
fn drop_by_name() {
    let history = three_migrations();
    let target = DropCommand {
        name: Some("0001_snapshot.toml".to_string()),
        latest: false,
    }
    .target(&history);
    assert!(matches!(target, Ok(DropTarget::Index(1))));
}

#[test]
fn drop_unknown_name_fails() {
    let history = three_migrations();
    let err = match (DropCommand {
        name: Some("nope".to_string()),
        latest: false,
    })
    .target(&history)
    {
        Err(e) => e,
        Ok(_) => panic!("expected an error"),
    };
    assert_eq!(err.message(), "Migration 'nope' not found");
}

#[test]
fn drop_without_name_asks() {
    let history = three_migrations();
    let target = DropCommand {
        name: None,
        latest: false,
    }
    .target(&history);
    assert!(matches!(target, Ok(DropTarget::Ask)));
}

#[test]
fn drop_migration_removes_entry() {
    let mut history = three_migrations();
    let removed = DropCommand::drop_migration(&mut history, 1);
    assert_eq!(removed, "0001_snapshot.toml");
    assert_eq!(history.migrations().len(), 2);
    assert_eq!(history.migrations()[1].id, 3);
}

// ── apply ───────────────────────────────────────────────────────────────────

#[test]
fn pending_skips_applied() {
    let history = three_migrations();
    let applied = vec![2u64];
    let pending = ApplyCommand::pending_indices(&history, &applied);
    assert_eq!(pending, vec![0, 2]);
    assert!(contains_id(&applied, 2));
    assert!(!contains_id(&applied, 3));
}

#[test]
fn applying_pending_twice_is_a_no_op() {
    let history = three_migrations();
    let mut applied = vec![2u64];
    let pending = ApplyCommand::pending_indices(&history, &applied);
    for i in &pending {
        applied.push(history.migrations()[*i].id);
    }
    assert!(ApplyCommand::pending_indices(&history, &applied).is_empty());
}

#[test]
fn nothing_pending_on_empty_history() {
    let history = HistoryFile::new();
    assert!(ApplyCommand::pending_indices(&history, &vec![]).is_empty());
}

#[test]
fn previous_snapshot_position() {
    assert_eq!(ApplyCommand::previous_index(0), None);
    assert_eq!(ApplyCommand::previous_index(3), Some(2));
}

#[test]
fn apply_reconstructs_the_generated_rename() {
    let prev = users();
    let mut renamed = users();
    renamed.tables[0].name = "people".to_string();
    let stored = StoredRenameHints {
        tables: vec![StoredTableRename { from: 0, to: 0 }],
        columns: vec![],
        indices: vec![],
    };

    let restored = restored_hints(Some(stored));
    let diff = SchemaDiff::from(&prev, &renamed, &restored);
    assert_eq!(diff.tables().len(), 1);
    assert!(matches!(
        &diff.tables()[0],
        TablesDiffItem::AlterTable { previous, next, .. } if previous.name == "users" && next.name == "people"
    ));

    let none = restored_hints(None);
    let diff = SchemaDiff::from(&prev, &renamed, &none);
    assert_eq!(diff.tables().len(), 2);
}

#[test]
fn random_id_generation_keeps_name_and_hints() {
    let prev = users();
    let mut renamed = users();
    renamed.tables[0].name = "people".to_string();
    let mut hints = RenameHints::new();
    hints.add_table_hint(TableId(0), TableId(0));
    let diff = SchemaDiff::from(&prev, &renamed, &hints);
    let stored = StoredRenameHints {
        tables: vec![StoredTableRename { from: 0, to: 0 }],
        columns: vec![],
        indices: vec![],
    };
    let mut history = HistoryFile::new();

    let generated = GenerateCommand {
        name: Some("init".to_string()),
    }
    .generate_with_random_id(&mut history, &diff, renamed.clone(), stored)
    .unwrap();

    let entry = &history.migrations()[0];
    assert_eq!(entry.name, "init");
    assert_eq!(entry.snapshot_name, "0000_init_snapshot.toml");
    assert!(entry.checksum.is_none());
    assert!(entry.id < i64::MAX as u64);
    assert_eq!(generated.snapshot_name, "0000_init_snapshot.toml");
    assert_eq!(generated.snapshot.rename_hints.unwrap().tables.len(), 1);
}

#[test]
fn drop_error_detail_has_no_kind() {
    let history = HistoryFile::new();
    let err = match (DropCommand {
        name: None,
        latest: false,
    })
    .target(&history)
    {
        Err(e) => e,
        Ok(_) => panic!("expected an error"),
    };
    assert_eq!(err.detail(), "No migrations found in history");
}
