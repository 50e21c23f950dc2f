//! Dialect translator: maps logical operation names (built-in functions,
//! locking modes, placeholder style) to literal SQL text per backend dialect.

use vstd::prelude::*;

use crate::error::SqlError;

verus! {

/// Identifier of a target SQL backend.
#[derive(Clone, Copy, Debug, PartialEq, Eq, Structural)]
pub enum DbBackend {
    Postgres,
    Sqlite,
    MySql,
}

/// Placeholder style a dialect renders bound values with.
#[derive(Clone, Copy, Debug, PartialEq, Eq, Structural)]
pub enum PlaceholderStyle {
    /// `$1`, `$2`, ... — the N-th placeholder names the N-th value (1-based).
    Numbered,
    /// `?`, `?`, ... — placeholders refer to values in order of occurrence.
    Repeated,
}

/// A logical built-in function, translated to dialect-specific text.
#[derive(Clone, Copy, Debug, PartialEq, Eq, Structural)]
pub enum DbFunc {
    Least,
    Greatest,
    Now,
    Upper,
    Lower,
}

/// A table-locking mode, translated to dialect-specific lock statements.
#[derive(Clone, Copy, Debug, PartialEq, Eq, Structural)]
pub enum DbLockMode {
    /// Protects a table from concurrent data changes.
    Share,
    /// Do not allow other data changes.
    Exclusive,
    /// Do not allow any other access.
    AccessExclusive,
}

impl DbBackend {
    /// How this dialect renders value placeholders in SQL text.
    pub open spec fn spec_placeholder_style(self) -> PlaceholderStyle {
        match self {
            DbBackend::Postgres => PlaceholderStyle::Numbered,
            DbBackend::Sqlite => PlaceholderStyle::Repeated,
            DbBackend::MySql => PlaceholderStyle::Repeated,
        }
    }

    /// How this dialect renders value placeholders in SQL text.
    pub fn placeholder_style(self) -> (r: PlaceholderStyle)
        ensures
            r == self.spec_placeholder_style(),
    {
        match self {
            DbBackend::Postgres => PlaceholderStyle::Numbered,
            DbBackend::Sqlite => PlaceholderStyle::Repeated,
            DbBackend::MySql => PlaceholderStyle::Repeated,
        }
    }

    /// The name of the dialect, as used in cache keys.
    pub open spec fn spec_tag(self) -> Seq<char> {
        match self {
            DbBackend::Postgres => "Postgres"@,
            DbBackend::Sqlite => "Sqlite"@,
            DbBackend::MySql => "MySql"@,
        }
    }

    /// The name of the dialect, as used in cache keys.
    pub fn tag(self) -> (r: &'static str)
        ensures
            r@ == self.spec_tag(),
    {
        match self {
            DbBackend::Postgres => "Postgres",
            DbBackend::Sqlite => "Sqlite",
            DbBackend::MySql => "MySql",
        }
    }

    /// Whether the mapping table of built-in function names covers this dialect.
    pub open spec fn has_builtin_funcs(self) -> bool {
        self == DbBackend::Postgres || self == DbBackend::Sqlite
    }
}

/// The literal text a logical built-in function translates to on a dialect.
pub open spec fn spec_builtin_func(backend: DbBackend, func: DbFunc) -> Seq<char> {
    match backend {
        DbBackend::Sqlite => match func {
            DbFunc::Now => "CURRENT_TIMESTAMP"@,
            DbFunc::Least => "MIN"@,
            DbFunc::Greatest => "MAX"@,
            DbFunc::Upper => "UPPER"@,
            DbFunc::Lower => "LOWER"@,
        },
        _ => match func {
            DbFunc::Now => "CURRENT_TIMESTAMP"@,
            DbFunc::Least => "LEAST"@,
            DbFunc::Greatest => "GREATEST"@,
            DbFunc::Upper => "UPPER"@,
            DbFunc::Lower => "LOWER"@,
        },
    }
}

/// Translate a logical built-in function to its literal text on a dialect.
///
/// The mapping table is exhaustive by construction for the dialects it
/// covers; asking for a dialect outside the table is a programming mistake,
/// so callers must stay inside it.
pub fn db_builtin_func(backend: DbBackend, func: DbFunc) -> (r: &'static str)
    requires
        backend.has_builtin_funcs(),
    ensures
        r@ == spec_builtin_func(backend, func),
{
    match backend {
        DbBackend::Postgres => match func {
            DbFunc::Now => "CURRENT_TIMESTAMP",
            DbFunc::Least => "LEAST",
            DbFunc::Greatest => "GREATEST",
            DbFunc::Upper => "UPPER",
            DbFunc::Lower => "LOWER",
        },
        _ => match func {
            DbFunc::Now => "CURRENT_TIMESTAMP",
            DbFunc::Least => "MIN",
            DbFunc::Greatest => "MAX",
            DbFunc::Upper => "UPPER",
            DbFunc::Lower => "LOWER",
        },
    }
}

/// The lock-mode keyword of a table-lock statement.
pub open spec fn spec_lock_mode_text(mode: DbLockMode) -> Seq<char> {
    match mode {
        DbLockMode::Share => "SHARE"@,
        DbLockMode::Exclusive => "EXCLUSIVE"@,
        DbLockMode::AccessExclusive => "ACCESS EXCLUSIVE"@,
    }
}

/// The SQL text that locks `table` on a dialect, when the dialect has
/// table-locking semantics.
pub open spec fn spec_lock_table_sql(table: Seq<char>, mode: DbLockMode) -> Seq<char> {
    "LOCK TABLE "@ + table + " IN "@ + spec_lock_mode_text(mode) + " MODE;"@
}

/// Build the statement text that locks a table on a dialect.
///
/// A single-writer embedded dialect returns empty text (a no-op success,
/// reflecting equivalent transactional guarantees); a dialect without
/// table-locking semantics gets a recoverable unsupported error. An empty
/// table name yields empty text.
pub fn db_lock_table_sql(backend: DbBackend, table: &str, mode: DbLockMode) -> (r: Result<
    String,
    SqlError,
>)
    ensures
        backend == DbBackend::Postgres && table@.len() > 0 ==> (r matches Ok(s) && s@
            == spec_lock_table_sql(table@, mode)),
        backend == DbBackend::Postgres && table@.len() == 0 ==> (r matches Ok(s) && s@.len() == 0),
        backend == DbBackend::Sqlite ==> (r matches Ok(s) && s@.len() == 0),
        backend == DbBackend::MySql ==> (r matches Err(e) && e is Unsupported),
{
    match backend {
        DbBackend::Postgres => {
            if table.unicode_len() > 0 {
                let mut s = String::from_str("LOCK TABLE ");
                s.append(table);
                s.append(" IN ");
                match mode {
                    DbLockMode::Share => s.append("SHARE"),
                    DbLockMode::Exclusive => s.append("EXCLUSIVE"),
                    DbLockMode::AccessExclusive => s.append("ACCESS EXCLUSIVE"),
                }
                s.append(" MODE;");
                Ok(s)
            } else {
                Ok(String::new())
            }
        },
        DbBackend::Sqlite => Ok(String::new()),
        DbBackend::MySql => Err(SqlError::Unsupported(String::from_str("no implementation"))),
    }
}

} // verus!
