use rsx::builder::RawSqlBuilder;
use rsx::dialect::DbBackend;
use rsx::order_by::OrderByHelper;
use rsx::statement::Statement;
use rsx::template::SqlHelper;
use rsx::value::SqlValue;

fn s(text: &str) -> SqlValue {
    SqlValue::Str(String::from(text))
}

fn from_text(sql: &str) -> SqlHelper {
    SqlHelper::from_statement(Statement {
        db_backend: DbBackend::Postgres,
        sql: String::from(sql),
        values: Vec::new(),
    })
}

#[test]
fn test_adjacent_markers() {
    let mut t = from_text("{:a}{:b}");
    t.bind_param(":a", s("X")).unwrap();
    t.bind_param(":b", s("Y")).unwrap();
    assert_eq!(&t.into_statement().sql, "XY");
}

#[test]
fn test_marker_at_start_and_end() {
    let mut t = from_text("{:head} middle {:tail}");
    t.bind_param(":head", s("H")).unwrap();
    t.bind_param(":tail", s("T")).unwrap();
    assert_eq!(&t.into_statement().sql, "H middle T");
}

#[test]
fn test_escape_only_text() {
    let t = from_text("{{}}");
    assert_eq!(&t.into_statement().sql, "{}");
}

#[test]
fn test_incomplete_markers_kept_verbatim() {
    // `{:}`, `{x}` and an unclosed `{:a` match no marker.
    let t = from_text("a {:} b {x} c {:a");
    assert_eq!(&t.into_statement().sql, "a {:} b {x} c {:a");
}

#[test]
fn test_empty_statement() {
    let t = from_text("");
    assert_eq!(&t.into_statement().sql, "");
}

#[test]
fn test_rebind_overwrites_previous_binding() {
    let mut t = from_text("SELECT {:x}");
    t.bind_param(":x", s("1")).unwrap();
    t.bind_param(":x", s("2")).unwrap();
    assert_eq!(&t.into_statement().sql, "SELECT 2");
}

#[test]
fn test_empty_order_spec_clears() {
    let mut h = OrderByHelper::new("t");
    h.set_order_by(Some("a"), None, None);
    let columns = vec![String::from("a")];
    assert_eq!(h.build_order_by(&columns).len(), 1);
    h.set_order_by(None, None, None);
    assert!(h.build_order_by(&columns).is_empty());
    h.set_order_by(Some(""), None, None);
    assert!(h.build_order_by(&columns).is_empty());
}

#[test]
fn test_unpaired_marker_kept() {
    // More `?` markers than values: the leftover marker stays verbatim.
    let mut w = RawSqlBuilder::new(DbBackend::Postgres);
    w.write_with_args("a = ? AND b = ?", vec![s("x")]);
    let stmt = w.into_statement();
    assert_eq!(&stmt.sql, "a = $1 AND b = ?");
    assert_eq!(stmt.values.len(), 1);
}

#[test]
fn test_values_without_markers_still_appended() {
    let mut w = RawSqlBuilder::new(DbBackend::Postgres);
    w.write_with_args("a = 1", vec![s("x")]);
    let stmt = w.into_statement();
    assert_eq!(&stmt.sql, "a = 1");
    assert_eq!(stmt.values.len(), 1);
}
