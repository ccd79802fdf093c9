//! Tests of the database location and schema.

use codelane::db::{get_db_url, INIT_SCHEMA};
use codelane::migrations::{get_all_migrations_sql, Migration};

#[test]
fn test_get_db_url_format() {
    let url = get_db_url("/home/user");
    assert!(url.starts_with("sqlite:"));
    assert!(url.contains("codelane.db"));
}

#[test]
fn test_init_schema_not_empty() {
    assert!(!INIT_SCHEMA.is_empty());
}

#[test]
fn test_init_schema_contains_sql() {
    // Schema should contain common SQL keywords
    assert!(INIT_SCHEMA.contains("CREATE") || INIT_SCHEMA.contains("create"));
}

#[test]
fn test_migrations_sql_contains_tracking_table() {

    let migrations = vec![Migration {
        version: 1,
        name: "initial_schema".to_string(),
        sql: "CREATE TABLE t (id INTEGER);".to_string(),
    }];
    let sql = get_all_migrations_sql(&migrations);
    assert!(sql.contains("schema_migrations"));
    assert!(sql.contains("-- Migration 1: initial_schema"));
    assert!(sql.contains("CREATE TABLE t (id INTEGER);"));
    assert!(sql.contains("INSERT OR IGNORE INTO schema_migrations (version, name, applied_at) VALUES (1, 'initial_schema', strftime('%s', 'now'));"));
}
