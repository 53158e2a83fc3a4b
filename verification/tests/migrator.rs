use toasty::macros::{embedded_entries, migrations_base};
use toasty::migrate::{HistoryFile, HistoryFileMigration};
use toasty::migrator::{collect_ids, embedded, unapplied, EmbeddedMigration, Migrator};
use toasty::schema::db::{AppliedMigration, Migration};

fn three() -> &'static [EmbeddedMigration] {
    &[
        EmbeddedMigration {
            id: 11,
            name: "0000_migration.sql",
            sql: "CREATE TABLE a (id INTEGER)",
        },
        EmbeddedMigration {
            id: 22,
            name: "0001_migration.sql",
            sql: "CREATE TABLE b (id INTEGER)",
        },
        EmbeddedMigration {
            id: 33,
            name: "0002_migration.sql",
            sql: "CREATE TABLE c (id INTEGER)",
        },
    ]
}

#[test]
fn pending_are_the_unapplied_in_order() {
    let m = Migrator::new(three());
    assert_eq!(m.migrations().len(), 3);
    assert_eq!(m.pending(&vec![]), vec![0, 1, 2]);
    assert_eq!(m.pending(&vec![22]), vec![0, 2]);
    assert_eq!(m.pending(&vec![33, 11, 22]), Vec::<usize>::new());
}

#[test]
fn applying_pending_twice_applies_nothing_more() {
    let m = Migrator::new(three());
    let mut applied = vec![11u64];
    let pending = m.pending(&applied);
    assert_eq!(pending.len(), 2);
    for i in pending {
        applied.push(m.migrations()[i].id);
    }
    assert!(m.pending(&applied).is_empty());
}

#[test]
fn embedded_migrator_skips_applied() {
    let ms: &'static [embedded::EmbeddedMigration] = &[
        embedded::EmbeddedMigration {
            id: 1,
            name: "0000_migration.sql",
            sql: "SELECT 1",
        },
        embedded::EmbeddedMigration {
            id: 2,
            name: "0001_migration.sql",
            sql: "SELECT 2",
        },
    ];
    let m = embedded::Migrator::new(ms);
    assert_eq!(m.pending(&vec![1]), vec![1]);
    assert_eq!(m.pending(&vec![2, 1]), Vec::<usize>::new());
}

#[test]
fn ids_and_unapplied() {
    assert_eq!(collect_ids(three()), vec![11, 22, 33]);
    assert_eq!(unapplied(&vec![5, 6, 7], &vec![6]), vec![0, 2]);
    assert!(unapplied(&vec![], &vec![1]).is_empty());
}

#[test]
fn migration_statements_and_applied_ids() {
    let m = Migration::new_sql(vec!["CREATE TABLE users (id INTEGER PRIMARY KEY)".to_string()]);
    assert_eq!(m.statements(), &["CREATE TABLE users (id INTEGER PRIMARY KEY)".to_string()]);
    assert_eq!(AppliedMigration::new(42).id(), 42);
}

#[test]
fn macro_base_directory() {
    assert_eq!(migrations_base(None), "toasty");
    assert_eq!(migrations_base(Some("../migrations".to_string())), "../migrations");
}

#[test]
fn macro_embeds_history_entries() {
    let migrations = vec![HistoryFileMigration {
        id: 8000000000000001,
        name: "0000_test.sql".to_string(),
        snapshot_name: "0000_snapshot.toml".to_string(),
        checksum: None,
    }];
    let entries = embedded_entries(1, &migrations, "toasty/history.toml").unwrap();
    assert_eq!(entries, vec![(8000000000000001, "0000_test.sql".to_string())]);
}

#[test]
fn macro_refuses_unsupported_history_version() {
    let err = embedded_entries(2, &[], "fixtures/history.toml").unwrap_err();
    assert_eq!(err, "unsupported history file version 2 in fixtures/history.toml; expected 1");
    assert!(embedded_entries(1, &[], "h.toml").unwrap().is_empty());
    assert!(HistoryFile::from_parts(2, vec![]).is_err());
}
