use rsx::builder::{with_values_to_string, RawSqlBuilder};
use rsx::cache::SqlCache;
use rsx::dialect::DbBackend;
use rsx::statement::Statement;
use rsx::template::SqlHelper;
use rsx::value::SqlValue;

fn s(text: &str) -> SqlValue {
    SqlValue::Str(String::from(text))
}

#[test]
fn test_sql_helper() {
    // `?` markers render their values; `??` stands for a literal `?`.
    let vals = vec![s("a"), s("b")];
    assert_eq!(
        format!("SELECT {}", with_values_to_string("? '??' ?", &vals)),
        "SELECT 'a' '?' 'b'"
    );
    let vals = vec![s("a"), s("b")];
    assert_eq!(
        format!("SELECT {}", with_values_to_string("? '??' ?", &vals)),
        "SELECT 'a' '?' 'b'"
    );

    let cache = SqlCache::new();
    for _ in 0..10 {
        let mut q = cache.get("SQL1", DbBackend::Postgres, |be| {
            let mut w = RawSqlBuilder::new(be);
            w.write("SELECT * FROM t_user\n");
            w.write_with_args("WHERE name = ?\n", vec![s(":name")]);
            w.write("FOR UPDATE");
            w.into_sql_helper()
        });
        q.bind_param(":name", s("Tom")).unwrap();
        let statement = q.into_statement();
        assert_eq!(
            &statement.sql,
            "SELECT * FROM t_user\nWHERE name = $1\nFOR UPDATE"
        );

        let mut q = cache.get("SQL2", DbBackend::Postgres, |be| {
            let mut w = RawSqlBuilder::new(be);
            w.write("SELECT {{*}} FROM t_user\n");
            w.write_with_args("WHERE name = ? AND nickname = ?\n", vec![s(":name"), s("Mike")]);
            w.write_with_args("AND mobile = ?\n", vec![s(":mobile")]);
            w.write("{:order_by}\n");
            w.write("{:limit}\n");
            w.write("{:order_by}\n");
            w.write("FOR UPDATE");
            w.into_sql_helper()
        });
        q.bind_param(":name", s("Tom")).unwrap();
        q.bind_param(":mobile", s("123456789")).unwrap();
        q.bind_param(":order_by", s("ORDER BY name")).unwrap();
        q.bind_param(":limit", s("LIMIT 100")).unwrap();

        let statement = q.into_statement();
        assert_eq!(
            &statement.sql,
            "SELECT {*} FROM t_user\nWHERE name = $1 AND nickname = $2\nAND mobile = $3\nORDER BY name\nLIMIT 100\nORDER BY name\nFOR UPDATE"
        );
    }
}

#[test]
fn test_round_trip_no_markers() {
    let stmt = Statement {
        db_backend: DbBackend::Postgres,
        sql: String::from("SELECT a, b FROM t WHERE a = $1"),
        values: vec![s("x")],
    };
    let t = SqlHelper::from_statement(stmt);
    let out = t.into_statement();
    assert_eq!(&out.sql, "SELECT a, b FROM t WHERE a = $1");
    assert_eq!(out.values.len(), 1);
}

#[test]
fn test_round_trip_markers_unbound() {
    // Text-slice markers are kept verbatim until rebound.
    let stmt = Statement {
        db_backend: DbBackend::Sqlite,
        sql: String::from("SELECT * FROM t {:tail} END"),
        values: Vec::new(),
    };
    let t = SqlHelper::from_statement(stmt);
    let out = t.into_statement();
    assert_eq!(&out.sql, "SELECT * FROM t {:tail} END");
}

#[test]
fn test_brace_escapes_collapse() {
    // `{{` and `}}` stand for single braces in the finalized text.
    let stmt = Statement {
        db_backend: DbBackend::Sqlite,
        sql: String::from("a {{x}} b"),
        values: Vec::new(),
    };
    let t = SqlHelper::from_statement(stmt);
    assert_eq!(&t.into_statement().sql, "a {x} b");
}

#[test]
fn test_multi_location_consistency() {
    // One name at three distinct locations: two value slots and one text
    // slice; one rebind updates all three.
    let stmt = Statement {
        db_backend: DbBackend::Sqlite,
        sql: String::from("v = ? OR w = ? OR {:x}"),
        values: vec![s(":x"), s(":x")],
    };
    let mut t = SqlHelper::from_statement(stmt);
    t.bind_param(":x", s("Z")).unwrap();
    let out = t.into_statement();
    assert_eq!(&out.sql, "v = ? OR w = ? OR Z");
    assert!(matches!(&out.values[0], SqlValue::Str(v) if v == "Z"));
    assert!(matches!(&out.values[1], SqlValue::Str(v) if v == "Z"));
}

#[test]
fn test_bind_idempotent() {
    let make = || {
        let stmt = Statement {
            db_backend: DbBackend::Postgres,
            sql: String::from("WHERE a = $1 {:tail}"),
            values: vec![s(":a")],
        };
        SqlHelper::from_statement(stmt)
    };
    let mut once = make();
    once.bind_param(":a", s("v")).unwrap();
    once.bind_param(":tail", s("ORDER BY a")).unwrap();
    let mut twice = make();
    twice.bind_param(":a", s("v")).unwrap();
    twice.bind_param(":a", s("v")).unwrap();
    twice.bind_param(":tail", s("ORDER BY a")).unwrap();
    twice.bind_param(":tail", s("ORDER BY a")).unwrap();
    let a = once.into_statement();
    let b = twice.into_statement();
    assert_eq!(a.sql, b.sql);
    assert_eq!(a.values.len(), b.values.len());
}

#[test]
fn test_bind_unknown_name_is_fatal() {
    let stmt = Statement {
        db_backend: DbBackend::Postgres,
        sql: String::from("SELECT 1"),
        values: Vec::new(),
    };
    let mut t = SqlHelper::from_statement(stmt);
    let e = t.bind_param(":missing", s("x")).unwrap_err();
    assert!(e.is_fatal());
    assert_eq!(e.detail(), ":missing");
}

#[test]
fn test_bind_non_literal_to_text_slice_is_fatal() {
    let stmt = Statement {
        db_backend: DbBackend::Postgres,
        sql: String::from("SELECT * FROM t {:tail}"),
        values: Vec::new(),
    };
    let mut t = SqlHelper::from_statement(stmt);
    let e = t.bind_param(":tail", SqlValue::Int(1)).unwrap_err();
    assert!(e.is_fatal());
    // The template is left untouched.
    assert_eq!(&t.into_statement().sql, "SELECT * FROM t {:tail}");
}

#[test]
fn test_bind_optional() {
    let stmt = Statement {
        db_backend: DbBackend::Postgres,
        sql: String::from("WHERE 0 <> $1"),
        values: vec![s(":flag")],
    };
    let mut t = SqlHelper::from_statement(stmt);
    t.bind_optional(":flag", true).unwrap();
    let out = t.into_statement();
    assert!(matches!(out.values[0], SqlValue::Int(1)));
    let stmt = Statement {
        db_backend: DbBackend::Postgres,
        sql: String::from("WHERE 0 <> $1"),
        values: vec![s(":flag")],
    };
    let mut t = SqlHelper::from_statement(stmt);
    t.bind_optional(":flag", false).unwrap();
    assert!(matches!(t.into_statement().values[0], SqlValue::Int(0)));
}

#[test]
fn test_iter_params_order() {
    let stmt = Statement {
        db_backend: DbBackend::Postgres,
        sql: String::from("{:b} AND x = $1"),
        values: vec![s(":a")],
    };
    let t = SqlHelper::from_statement(stmt);
    let mut it = t.iter_params();
    // Value-slot names are recorded first, then text-slice names.
    assert_eq!(it.next().unwrap(), ":a");
    assert_eq!(it.next().unwrap(), ":b");
    assert!(it.next().is_none());
}

#[test]
fn test_sql_accessor_keeps_original_text() {
    let stmt = Statement {
        db_backend: DbBackend::Postgres,
        sql: String::from("a {:m} b"),
        values: Vec::new(),
    };
    let t = SqlHelper::from_statement(stmt);
    assert_eq!(t.sql(), "a {:m} b");
}

#[test]
fn test_value_literal_escaping() {
    let vals = vec![SqlValue::Str(String::from("O'Brien")), SqlValue::Int(-3), SqlValue::Null];
    assert_eq!(with_values_to_string("?, ?, ?", &vals), "'O''Brien', -3, NULL");
    let vals = vec![SqlValue::Bool(true), SqlValue::UInt(42)];
    assert_eq!(with_values_to_string("? ?", &vals), "TRUE 42");
}
