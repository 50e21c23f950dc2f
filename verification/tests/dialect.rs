use rsx::builder::{db_cust_with_values, RawSqlBuilder};
use rsx::dialect::{db_builtin_func, db_lock_table_sql, DbBackend, DbFunc, DbLockMode, PlaceholderStyle};
use rsx::value::SqlValue;

fn s(text: &str) -> SqlValue {
    SqlValue::Str(String::from(text))
}

#[test]
fn test_builtin_func_names() {
    assert_eq!(db_builtin_func(DbBackend::Postgres, DbFunc::Now), "CURRENT_TIMESTAMP");
    assert_eq!(db_builtin_func(DbBackend::Postgres, DbFunc::Least), "LEAST");
    assert_eq!(db_builtin_func(DbBackend::Postgres, DbFunc::Greatest), "GREATEST");
    assert_eq!(db_builtin_func(DbBackend::Postgres, DbFunc::Upper), "UPPER");
    assert_eq!(db_builtin_func(DbBackend::Postgres, DbFunc::Lower), "LOWER");
    assert_eq!(db_builtin_func(DbBackend::Sqlite, DbFunc::Now), "CURRENT_TIMESTAMP");
    assert_eq!(db_builtin_func(DbBackend::Sqlite, DbFunc::Least), "MIN");
    assert_eq!(db_builtin_func(DbBackend::Sqlite, DbFunc::Greatest), "MAX");
    assert_eq!(db_builtin_func(DbBackend::Sqlite, DbFunc::Upper), "UPPER");
    assert_eq!(db_builtin_func(DbBackend::Sqlite, DbFunc::Lower), "LOWER");
}

#[test]
fn test_lock_table_sql() {
    assert_eq!(
        db_lock_table_sql(DbBackend::Postgres, "t_user", DbLockMode::Share).unwrap(),
        "LOCK TABLE t_user IN SHARE MODE;"
    );
    assert_eq!(
        db_lock_table_sql(DbBackend::Postgres, "t_user", DbLockMode::Exclusive).unwrap(),
        "LOCK TABLE t_user IN EXCLUSIVE MODE;"
    );
    assert_eq!(
        db_lock_table_sql(DbBackend::Postgres, "t_user", DbLockMode::AccessExclusive).unwrap(),
        "LOCK TABLE t_user IN ACCESS EXCLUSIVE MODE;"
    );
    // An empty table name locks nothing.
    assert_eq!(db_lock_table_sql(DbBackend::Postgres, "", DbLockMode::Share).unwrap(), "");
    // A single-writer embedded dialect succeeds with a no-op.
    assert_eq!(db_lock_table_sql(DbBackend::Sqlite, "t_user", DbLockMode::Share).unwrap(), "");
    // A dialect without table-locking semantics returns a recoverable error.
    let e = db_lock_table_sql(DbBackend::MySql, "t_user", DbLockMode::Share).unwrap_err();
    assert!(!e.is_fatal());
}

#[test]
fn test_placeholder_styles() {
    assert_eq!(DbBackend::Postgres.placeholder_style(), PlaceholderStyle::Numbered);
    assert_eq!(DbBackend::Sqlite.placeholder_style(), PlaceholderStyle::Repeated);
    assert_eq!(DbBackend::MySql.placeholder_style(), PlaceholderStyle::Repeated);
}

#[test]
fn test_dialect_rendering_two_placeholders() {
    // Two placeholders: Postgres renders `$1`, `$2`; SQLite and MySQL
    // render `?`, `?`.
    let mut w = RawSqlBuilder::new(DbBackend::Postgres);
    w.write_with_args("a = ? AND b = ?", vec![s("x"), s("y")]);
    assert_eq!(&w.into_statement().sql, "a = $1 AND b = $2");

    let mut w = RawSqlBuilder::new(DbBackend::Sqlite);
    w.write_with_args("a = ? AND b = ?", vec![s("x"), s("y")]);
    assert_eq!(&w.into_statement().sql, "a = ? AND b = ?");

    let mut w = RawSqlBuilder::new(DbBackend::MySql);
    w.write_with_args("a = ? AND b = ?", vec![s("x"), s("y")]);
    assert_eq!(&w.into_statement().sql, "a = ? AND b = ?");
}

#[test]
fn test_numbered_placeholders_continue_across_writes() {
    // Placeholder N pairs with value-list index N - 1, across calls.
    let mut w = RawSqlBuilder::new(DbBackend::Postgres);
    w.write_with_args("a = ?", vec![s("x")]);
    w.write(" AND ");
    w.write_with_args("b = ? AND c = ?", vec![s("y"), s("z")]);
    let stmt = w.into_statement();
    assert_eq!(&stmt.sql, "a = $1 AND b = $2 AND c = $3");
    assert_eq!(stmt.values.len(), 3);
}

#[test]
fn test_cust_with_values_escapes() {
    assert_eq!(db_cust_with_values(DbBackend::Postgres, "? '??' ?"), "$1 '?' $2");
    assert_eq!(db_cust_with_values(DbBackend::Sqlite, "? '??' ?"), "? '?' ?");
}

#[test]
fn test_statement_from_string() {
    let stmt = rsx::statement::Statement::from_string(
        DbBackend::Sqlite,
        String::from("PRAGMA user_version"),
    );
    assert_eq!(&stmt.sql, "PRAGMA user_version");
    assert!(stmt.values.is_empty());
}
