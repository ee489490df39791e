use flowforge::migration::{
    advance, check_sequence, next_step, Migration, MigrationError, SchemaStore, Step,
};
use flowforge::error::StoreError;
use flowforge::schema::{
    migrations, ADD_VAT_NUMBER, CREATE_INITIAL_TABLES, DATABASE_URL, ENABLE_FOREIGN_KEYS,
    LATEST_VERSION,
};

fn migration(version: u64, statements: &[&str]) -> Migration {
    Migration {
        version,
        description: format!("m{}", version),
        script: statements.iter().map(|s| s.to_string()).collect(),
    }
}

#[test]
fn new_store_runs_every_migration_in_order() {
    let list = vec![migration(1, &["a", "b"]), migration(2, &["c"])];
    let mut store = SchemaStore::new();
    assert_eq!(store.migrate(&list), Ok(2));
    assert_eq!(store.version(), 2);
    assert_eq!(store.statements(), &vec!["a".to_string(), "b".to_string(), "c".to_string()]);
}

#[test]
fn second_run_changes_nothing() {
    let list = migrations();
    let mut store = SchemaStore::new();
    assert_eq!(store.migrate(&list), Ok(2));
    let version = store.version();
    let statements = store.statements().clone();
    assert_eq!(store.migrate(&list), Ok(0));
    assert_eq!(store.version(), version);
    assert_eq!(store.statements(), &statements);
}

#[test]
fn gap_is_refused_before_anything_runs() {
    let list = vec![migration(1, &["a"]), migration(3, &["c"])];
    let mut store = SchemaStore::new();
    assert_eq!(store.migrate(&list), Err(MigrationError::OutOfSequence { index: 1 }));
    assert_eq!(store.version(), 0);
    assert!(store.statements().is_empty());
}

#[test]
fn repeat_is_refused_before_anything_runs() {
    let list = vec![migration(1, &["a"]), migration(1, &["b"]), migration(2, &["c"])];
    let mut store = SchemaStore::new();
    assert_eq!(store.migrate(&list), Err(MigrationError::OutOfSequence { index: 1 }));
    assert_eq!(store.version(), 0);
    assert!(store.statements().is_empty());
    assert_eq!(check_sequence(&list), Err(MigrationError::OutOfSequence { index: 1 }));
}

#[test]
fn list_that_does_not_start_at_one_is_refused() {
    let list = vec![migration(2, &["a"])];
    assert_eq!(check_sequence(&list), Err(MigrationError::OutOfSequence { index: 0 }));
    assert_eq!(next_step(&list, 0), Err(MigrationError::OutOfSequence { index: 0 }));
}

#[test]
fn migrations_at_or_below_the_recorded_version_do_not_run() {
    let list = vec![migration(1, &["a"]), migration(2, &["b"]), migration(3, &["c"])];
    let mut store = SchemaStore::restore(2, vec!["x".to_string()]);
    assert_eq!(store.migrate(&list), Ok(1));
    assert_eq!(store.version(), 3);
    assert_eq!(store.statements(), &vec!["x".to_string(), "c".to_string()]);
}

#[test]
fn store_from_a_newer_build_is_refused() {
    let list = migrations();
    let mut store = SchemaStore::restore(5, vec!["x".to_string()]);
    let refused = store.migrate(&list);
    assert_eq!(refused, Err(MigrationError::UnsupportedSchemaVersion { recorded: 5, latest: 2 }));
    assert_eq!(refused.unwrap_err().kind(), StoreError::Conflict);
    assert_eq!(store.version(), 5);
    assert_eq!(store.statements(), &vec!["x".to_string()]);
}

#[test]
fn next_step_hands_out_the_version_after_the_recorded_one() {
    let list = migrations();
    assert_eq!(next_step(&list, 0), Ok(Step::Apply { index: 0 }));
    assert_eq!(next_step(&list, 1), Ok(Step::Apply { index: 1 }));
    assert_eq!(list[1].version, 2);
    assert_eq!(next_step(&list, 2), Ok(Step::UpToDate));
    assert_eq!(
        next_step(&list, 3),
        Err(MigrationError::UnsupportedSchemaVersion { recorded: 3, latest: 2 })
    );
}

#[test]
fn advance_records_a_committed_step_and_stops_on_a_failed_one() {
    let list = migrations();
    assert_eq!(advance(&list, 0, true), Ok(1));
    assert_eq!(advance(&list, 1, true), Ok(2));
    assert_eq!(advance(&list, 2, true), Ok(2));
    assert_eq!(advance(&list, 2, false), Ok(2));
    let failed = advance(&list, 1, false);
    assert_eq!(failed, Err(MigrationError::ScriptFailed { version: 2 }));
    assert_eq!(failed.unwrap_err().kind(), StoreError::StoreUnavailable);
    assert_eq!(
        advance(&list, 7, true),
        Err(MigrationError::UnsupportedSchemaVersion { recorded: 7, latest: 2 })
    );
    let broken = vec![migration(1, &["a"]), migration(1, &["b"])];
    let refused = advance(&broken, 0, true);
    assert_eq!(refused, Err(MigrationError::OutOfSequence { index: 1 }));
    assert_eq!(refused.unwrap_err().kind(), StoreError::Conflict);
}

#[test]
fn built_in_migrations_create_the_tables_then_add_the_vat_number() {
    let list = migrations();
    assert_eq!(list.len() as u64, LATEST_VERSION);
    assert_eq!(check_sequence(&list), Ok(()));
    assert_eq!(list[0].version, 1);
    assert_eq!(list[0].description, "create_initial_tables");
    assert_eq!(list[0].script, vec![CREATE_INITIAL_TABLES.to_string()]);
    assert_eq!(list[1].version, 2);
    assert_eq!(list[1].description, "add_vat_number_to_clients");
    assert_eq!(list[1].script, vec![ADD_VAT_NUMBER.to_string()]);
}

#[test]
fn released_scripts_are_handed_on_to_the_letter() {
    let list = migrations();
    let first = list[0].script_text();
    assert_eq!(first, CREATE_INITIAL_TABLES);
    assert_eq!(first.len(), 2597);
    assert!(first.starts_with("\n                CREATE TABLE IF NOT EXISTS clients (\n"));
    assert!(first.ends_with("value TEXT\n                );\n            "));
    assert_eq!(first.matches("CREATE TABLE IF NOT EXISTS").count(), 6);
    assert_eq!(first.matches("FOREIGN KEY").count(), 4);
    assert_eq!(first.lines().count(), 66);
    assert!(!first.contains('\r'));
    assert!(!first.contains('\t'));
    assert_eq!(list[1].script_text(), "ALTER TABLE clients ADD COLUMN vat_number TEXT;");
}

#[test]
fn script_text_puts_nothing_between_the_statements() {
    assert_eq!(migration(1, &["a;", " b;\n", "c"]).script_text(), "a; b;\nc");
    assert_eq!(migration(1, &["only"]).script_text(), "only");
    assert_eq!(migration(1, &[]).script_text(), "");
}

#[test]
fn committed_step_applies_the_script_and_records_the_version() {
    let list = vec![migration(1, &["a", "b"]), migration(2, &["c"])];
    let mut store = SchemaStore::new();
    assert_eq!(store.apply_next(&list, true), Ok(1));
    assert_eq!(store.version(), 1);
    assert_eq!(store.statements(), &vec!["a".to_string(), "b".to_string()]);
    assert_eq!(store.apply_next(&list, true), Ok(2));
    assert_eq!(store.version(), 2);
    assert_eq!(store.statements(), &vec!["a".to_string(), "b".to_string(), "c".to_string()]);
    assert_eq!(store.apply_next(&list, true), Ok(2));
    assert_eq!(store.apply_next(&list, false), Ok(2));
    assert_eq!(store.version(), 2);
    assert_eq!(store.statements().len(), 3);
}

#[test]
fn failed_step_leaves_the_store_as_it_was() {
    let list = vec![migration(1, &["a", "b"]), migration(2, &["c", "d"])];
    let mut store = SchemaStore::new();
    assert_eq!(store.apply_next(&list, false), Err(MigrationError::ScriptFailed { version: 1 }));
    assert_eq!(store.version(), 0);
    assert!(store.statements().is_empty());
    assert_eq!(store.apply_next(&list, true), Ok(1));
    assert_eq!(store.apply_next(&list, false), Err(MigrationError::ScriptFailed { version: 2 }));
    assert_eq!(store.version(), 1);
    assert_eq!(store.statements(), &vec!["a".to_string(), "b".to_string()]);
    assert_eq!(store.migrate(&list), Ok(1));
    assert_eq!(store.version(), 2);
    assert_eq!(store.statements().len(), 4);
}

#[test]
fn step_on_a_refused_list_or_version_changes_nothing() {
    let broken = vec![migration(1, &["a"]), migration(3, &["c"])];
    let mut store = SchemaStore::new();
    assert_eq!(store.apply_next(&broken, true), Err(MigrationError::OutOfSequence { index: 1 }));
    assert_eq!(store.version(), 0);
    assert!(store.statements().is_empty());
    let list = migrations();
    let mut newer = SchemaStore::restore(4, vec!["x".to_string()]);
    assert_eq!(
        newer.apply_next(&list, true),
        Err(MigrationError::UnsupportedSchemaVersion { recorded: 4, latest: 2 })
    );
    assert_eq!(newer.version(), 4);
    assert_eq!(newer.statements(), &vec!["x".to_string()]);
}

#[test]
fn empty_list_leaves_a_new_store_as_it_is() {
    let list: Vec<Migration> = Vec::new();
    let mut store = SchemaStore::new();
    assert_eq!(store.migrate(&list), Ok(0));
    assert_eq!(store.version(), 0);
    assert_eq!(next_step(&list, 0), Ok(Step::UpToDate));
}

#[test]
fn foreign_keys_are_switched_on_by_one_statement() {
    assert_eq!(ENABLE_FOREIGN_KEYS, "PRAGMA foreign_keys = ON;");
    assert_eq!(DATABASE_URL, "sqlite:flowforge.db");
}
