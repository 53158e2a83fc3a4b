use toasty::migrate::{MigrationConfig, MigrationPrefixStyle};

#[test]
fn migration_config_defaults() {
    let cfg = MigrationConfig::default();
    assert_eq!(cfg.path, "toasty");
    assert_eq!(cfg.prefix_style, MigrationPrefixStyle::Sequential);
    assert!(!cfg.checksums);
    assert!(cfg.statement_breakpoints);
}

#[test]
fn migration_config_derived_paths() {
    let cfg = MigrationConfig::default();
    assert_eq!(cfg.get_migrations_dir(), "toasty/migrations");
    assert_eq!(cfg.get_snapshots_dir(), "toasty/snapshots");
    assert_eq!(cfg.get_history_file_path(), "toasty/history.toml");
}

#[test]
fn join_keeps_single_separator() {
    let mut cfg = MigrationConfig::default();
    cfg.path = "db/".to_string();
    assert_eq!(cfg.get_history_file_path(), "db/history.toml");
    cfg.path = String::new();
    assert_eq!(cfg.get_snapshots_dir(), "snapshots");
}
