//! Template cache: a concurrent, key-based memoization store returning
//! independent rebindable copies of templates built by caller-supplied
//! factories.

use std::sync::Arc;

use vstd::prelude::*;

use crate::dialect::DbBackend;
use crate::template::{spec_wf, SqlHelper};

verus! {

/// The shared map at the heart of the cache: an insertion-ordered map
/// behind a sharded reader-writer lock.
///
/// Both the lock and the map come from outside crates, and every access
/// races with other threads, so no wrapper below can promise which entry
/// an access sees. The one property stated is well-formedness of what
/// comes out: templates enter the map only through [`Self::insert_or_get`],
/// which demands a well-formed template, and cloning is field-wise.
#[verifier::external_body]
struct CacheMap {
    map: crossbeam::sync::ShardedLock<ritelinked::LinkedHashMap<String, Arc<SqlHelper>>>,
}

impl CacheMap {
    /// Relies on crossbeam's `ShardedLock::new` and ritelinked's
    /// `LinkedHashMap::new`: a fresh, empty, lockable map.
    #[verifier::external_body]
    fn new() -> CacheMap {
        CacheMap {
            map: crossbeam::sync::ShardedLock::new(ritelinked::LinkedHashMap::new()),
        }
    }

    /// Relies on crossbeam's `ShardedLock::read` and ritelinked's
    /// `LinkedHashMap::get`: under a shared lock, a clone of the entry at
    /// `key` — if one is present at that moment; reads never block other
    /// reads.
    #[verifier::external_body]
    fn lookup(&self, key: &String) -> (r: Option<SqlHelper>)
        ensures
            r matches Some(t) ==> spec_wf(t@),
    {
        let guard = self.map.read().unwrap();
        guard.get(key).map(|v| SqlHelper::clone(v))
    }

    /// Relies on crossbeam's `ShardedLock::write` and ritelinked's
    /// `RawEntryMut::or_insert`: under an exclusive lock, insert `value`
    /// unless the key is already taken, and return a clone of whichever
    /// entry ends up at the key — the caller's own freshly built value if
    /// it won the race, or a concurrently inserted one otherwise.
    #[verifier::external_body]
    fn insert_or_get(&self, key: String, value: SqlHelper) -> (r: SqlHelper)
        requires
            spec_wf(value@),
        ensures
            spec_wf(r@),
    {
        let mut guard = self.map.write().unwrap();
        let entry = guard.raw_entry_mut().from_key(&key).or_insert(key, Arc::new(value)).1;
        SqlHelper::clone(entry)
    }

    /// Relies on crossbeam's `ShardedLock::write` and ritelinked's
    /// `LinkedHashMap::remove`: under an exclusive lock, take the entry at
    /// `key` out, if one is present at that moment.
    #[verifier::external_body]
    fn remove(&self, key: &String) -> (r: Option<Arc<SqlHelper>>) {
        self.map.write().unwrap().remove(key)
    }

    /// Relies on crossbeam's `ShardedLock::write` and ritelinked's
    /// `LinkedHashMap::clear`: under an exclusive lock, drop every entry.
    #[verifier::external_body]
    fn clear(&self) {
        self.map.write().unwrap().clear()
    }
}

/// A concurrent memoization store for templates, keyed by dialect and
/// logical name.
///
/// Under concurrent first access to one key the factory may run more than
/// once (at-least-once construction); exactly one result survives per key,
/// and every call returns an independent clone. Factories must therefore
/// be pure with respect to external state.
pub struct SqlCache {
    map: CacheMap,
}

impl SqlCache {
    /// An empty cache.
    pub fn new() -> SqlCache {
        SqlCache { map: CacheMap::new() }
    }

    /// The cache key of a logical name on a dialect.
    fn cache_key(name: &str, db_backend: DbBackend) -> (r: String)
        ensures
            r@ == db_backend.spec_tag() + "://"@ + name@,
    {
        let mut key = String::from_str(db_backend.tag());
        key.append("://");
        key.append(name);
        key
    }

    /// A rebindable copy of the template cached under `(db_backend, name)`.
    ///
    /// On a hit, a clone of the existing entry is returned under a shared
    /// lock. On a miss, `maker` runs outside any lock; the result is then
    /// inserted unless a concurrent call beat it there, and a clone of the
    /// surviving entry is returned.
    pub fn get<F: FnOnce(DbBackend) -> SqlHelper>(
        &self,
        name: &str,
        db_backend: DbBackend,
        maker: F,
    ) -> (r: SqlHelper)
        requires
            call_requires(maker, (db_backend,)),
            forall|t: SqlHelper| call_ensures(maker, (db_backend,), t) ==> spec_wf(t@),
        ensures
            spec_wf(r@),
    {
        let key = Self::cache_key(name, db_backend);
        match self.map.lookup(&key) {
            Some(t) => t,
            None => {
                // Build outside any lock; the factory may race with other
                // first-time callers.
                let made = maker(db_backend);
                self.map.insert_or_get(key, made)
            },
        }
    }

    /// Drop the entry under `(db_backend, name)`, returning it if it was
    /// present at that moment.
    pub fn remove(&self, name: &str, db_backend: DbBackend) -> (r: Option<Arc<SqlHelper>>) {
        let key = Self::cache_key(name, db_backend);
        self.map.remove(&key)
    }

    /// Drop every entry.
    pub fn clear(&self) {
        self.map.clear()
    }
}

} // verus!
