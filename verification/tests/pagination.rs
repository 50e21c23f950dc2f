use rsx::builder::RawSqlBuilder;
use rsx::dialect::DbBackend;
use rsx::expr::SqlCmp;
use rsx::order_by::OrderByHelper;
use rsx::value::SqlValue;

fn cols(names: &[&str]) -> Vec<String> {
    names.iter().map(|n| String::from(*n)).collect()
}

#[test]
fn test_keyset_scenario() {
    // Spec "name DESC, age" with cursor {id:5, name:"Bob", age:30}:
    // filters id <> 5, name <= 'Bob', age >= 30; order by name DESC, age
    // ASC.
    let mut h = OrderByHelper::new("t");
    h.set_id_field("id");
    h.set_order_by(Some("name DESC, age"), None, None);
    let columns = cols(&["id", "name", "age"]);
    let pks = cols(&["id"]);
    let cursor = vec![
        (String::from("id"), SqlValue::Int(5)),
        (String::from("name"), SqlValue::Str(String::from("Bob"))),
        (String::from("age"), SqlValue::Int(30)),
    ];

    let preds = h.build_filters(&columns, &pks, Some(&cursor));
    assert_eq!(preds.len(), 3);
    assert_eq!(preds[0].op, SqlCmp::Ne);
    assert_eq!(preds[1].op, SqlCmp::Le);
    assert_eq!(preds[2].op, SqlCmp::Ge);
    let mut w = RawSqlBuilder::new(DbBackend::Postgres);
    w.write("SELECT * FROM t WHERE 1 = 1");
    h.raw_sql_filters(&mut w, &columns, &pks, Some(&cursor));
    h.raw_sql_order_by(&mut w, &columns);
    let stmt = w.into_statement();
    assert_eq!(
        &stmt.sql,
        "SELECT * FROM t WHERE 1 = 1 AND \"t\".\"id\" <> $1 AND \"t\".\"name\" <= $2 AND \"t\".\"age\" >= $3 ORDER BY \"t\".\"name\" DESC, \"t\".\"age\" ASC"
    );
    assert_eq!(stmt.values.len(), 3);
    assert!(matches!(stmt.values[0], SqlValue::Int(5)));
    assert!(matches!(&stmt.values[1], SqlValue::Str(v) if v == "Bob"));
    assert!(matches!(stmt.values[2], SqlValue::Int(30)));

    // Inline display of a predicate.
    let text = RawSqlBuilder::expr_to_string(DbBackend::Postgres, &preds[0]);
    assert_eq!(text, "\"t\".\"id\" <> 5");
    let text = RawSqlBuilder::expr_to_string(DbBackend::Postgres, &preds[1]);
    assert_eq!(text, "\"t\".\"name\" <= 'Bob'");
}

#[test]
fn test_order_spec_parsing() {
    let mut h = OrderByHelper::new("t");
    h.set_order_by(Some("a ASC; b desc, c"), None, None);
    let columns = cols(&["a", "b", "c"]);
    let items = h.build_order_by(&columns);
    assert_eq!(items.len(), 3);
    let mut w = RawSqlBuilder::new(DbBackend::Sqlite);
    h.raw_sql_order_by(&mut w, &columns);
    assert_eq!(
        &w.into_statement().sql,
        " ORDER BY \"t\".\"a\" ASC, \"t\".\"b\" DESC, \"t\".\"c\" ASC"
    );
}

#[test]
fn test_order_spec_leniency() {
    // Unrecognized tokens and unknown columns are silently dropped.
    let mut h = OrderByHelper::new("t");
    h.set_order_by(Some("!! weird token b, ghost, a DESC,, ;"), None, None);
    let columns = cols(&["a", "b"]);
    let mut w = RawSqlBuilder::new(DbBackend::Postgres);
    h.raw_sql_order_by(&mut w, &columns);
    // "weird token b" keeps its trailing word; "ghost" names no column.
    assert_eq!(&w.into_statement().sql, " ORDER BY \"t\".\"b\" ASC, \"t\".\"a\" DESC");
}

#[test]
fn test_wrapper_applied_to_both_sides() {
    let mut h = OrderByHelper::new("t");
    h.set_id_field("id");
    let wrappers = vec![(String::from("ts"), String::from("DATE"))];
    h.set_order_by(Some("ts"), Some(&wrappers), None);
    let columns = cols(&["id", "ts"]);
    let pks = cols(&["id"]);
    let cursor = vec![(String::from("ts"), SqlValue::Str(String::from("2022-01-01")))];
    let mut w = RawSqlBuilder::new(DbBackend::Postgres);
    h.raw_sql_filters(&mut w, &columns, &pks, Some(&cursor));
    let stmt = w.into_statement();
    // No id value in the cursor: only the field predicate, wrapped on
    // both sides.
    assert_eq!(&stmt.sql, " AND DATE(\"t\".\"ts\") >= DATE($1)");
}

#[test]
fn test_aggregate_after_wrapper_in_order_by() {
    let mut h = OrderByHelper::new("t");
    let wrappers = vec![(String::from("v"), String::from("DATE"))];
    let aggregates = vec![(String::from("v"), String::from("MAX"))];
    h.set_order_by(Some("v DESC"), Some(&wrappers), Some(&aggregates));
    let columns = cols(&["v"]);
    let mut w = RawSqlBuilder::new(DbBackend::MySql);
    h.raw_sql_order_by(&mut w, &columns);
    assert_eq!(&w.into_statement().sql, " ORDER BY MAX(DATE(`t`.`v`)) DESC");
}

#[test]
fn test_pk_fallback_when_id_unresolved() {
    let mut h = OrderByHelper::new("t");
    h.set_id_field("no_such_column");
    let columns = cols(&["a", "b"]);
    let pks = cols(&["a", "b"]);
    let cursor = vec![
        (String::from("a"), SqlValue::Int(1)),
        (String::from("b"), SqlValue::Int(2)),
    ];
    let preds = h.build_filters(&columns, &pks, Some(&cursor));
    assert_eq!(preds.len(), 2);
    assert_eq!(preds[0].op, SqlCmp::Ne);
    assert_eq!(preds[1].op, SqlCmp::Ne);
}

#[test]
fn test_null_and_absent_cursor_values_skipped() {
    let mut h = OrderByHelper::new("t");
    h.set_id_field("id");
    h.set_order_by(Some("a, b"), None, None);
    let columns = cols(&["id", "a", "b"]);
    let pks = cols(&["id"]);
    let cursor = vec![
        (String::from("id"), SqlValue::Null),
        (String::from("a"), SqlValue::Int(7)),
    ];
    // Null id and absent b yield no predicates for them.
    let preds = h.build_filters(&columns, &pks, Some(&cursor));
    assert_eq!(preds.len(), 1);
    assert_eq!(preds[0].op, SqlCmp::Ge);
    // No cursor at all yields nothing.
    assert!(h.build_filters(&columns, &pks, None).is_empty());
}

#[test]
fn test_qualified_id_field() {
    let mut h = OrderByHelper::new("t");
    h.set_id_field("public.t.id");
    let columns = cols(&["id"]);
    let pks = cols(&["id"]);
    let cursor = vec![(String::from("id"), SqlValue::Int(9))];
    let mut w = RawSqlBuilder::new(DbBackend::Postgres);
    h.raw_sql_filters(&mut w, &columns, &pks, Some(&cursor));
    assert_eq!(&w.into_statement().sql, " AND \"t\".\"id\" <> $1");
}
