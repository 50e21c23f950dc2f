use rsx::builder::RawSqlBuilder;
use rsx::cache::SqlCache;
use rsx::dialect::DbBackend;
use rsx::template::SqlHelper;
use rsx::value::SqlValue;

fn make_template(be: DbBackend) -> SqlHelper {
    let mut w = RawSqlBuilder::new(be);
    w.write("SELECT * FROM t WHERE a = ");
    w.write_with_args("?", vec![SqlValue::Str(String::from(":a"))]);
    w.into_sql_helper()
}

#[test]
fn test_cache_convergence() {
    // First-time calls invoke the factory at least once; every call
    // returns a template whose finalized SQL is identical.
    let cache = SqlCache::new();
    let mut runs = 0;
    let first = cache.get("Q1", DbBackend::Postgres, |be| {
        runs += 1;
        make_template(be)
    });
    assert_eq!(runs, 1);
    let mut texts: Vec<String> = Vec::new();
    texts.push(first.into_statement().sql);
    for _ in 0..7 {
        let t = cache.get("Q1", DbBackend::Postgres, |be| {
            runs += 1;
            make_template(be)
        });
        texts.push(t.into_statement().sql);
    }
    // The factory never ran again: the entry was already cached.
    assert_eq!(runs, 1);
    for text in &texts {
        assert_eq!(text, "SELECT * FROM t WHERE a = $1");
    }
}

#[test]
fn test_cache_keys_by_dialect() {
    let cache = SqlCache::new();
    let p = cache.get("Q", DbBackend::Postgres, make_template);
    let l = cache.get("Q", DbBackend::Sqlite, make_template);
    assert_eq!(&p.into_statement().sql, "SELECT * FROM t WHERE a = $1");
    assert_eq!(&l.into_statement().sql, "SELECT * FROM t WHERE a = ?");
}

#[test]
fn test_cache_remove_and_clear() {
    let cache = SqlCache::new();
    let mut runs = 0;
    let _ = cache.get("Q", DbBackend::Postgres, |be| {
        runs += 1;
        make_template(be)
    });
    assert_eq!(runs, 1);
    // Removing the entry makes the next access rebuild it.
    let removed = cache.remove("Q", DbBackend::Postgres);
    assert!(removed.is_some());
    let _ = cache.get("Q", DbBackend::Postgres, |be| {
        runs += 1;
        make_template(be)
    });
    assert_eq!(runs, 2);
    // Clearing does the same for every key.
    cache.clear();
    let _ = cache.get("Q", DbBackend::Postgres, |be| {
        runs += 1;
        make_template(be)
    });
    assert_eq!(runs, 3);
    assert!(cache.remove("missing", DbBackend::Postgres).is_none());
}

#[test]
fn test_cached_copies_rebind_independently() {
    let cache = SqlCache::new();
    let mut a = cache.get("Q1", DbBackend::Postgres, make_template);
    let b = cache.get("Q1", DbBackend::Postgres, make_template);
    a.bind_param(":a", SqlValue::Str(String::from("x"))).unwrap();
    // Rebinding one copy leaves the other's values untouched.
    let sa = a.into_statement();
    let sb = b.into_statement();
    assert!(matches!(&sa.values[0], SqlValue::Str(v) if v == "x"));
    assert!(matches!(&sb.values[0], SqlValue::Str(v) if v == ":a"));
}
