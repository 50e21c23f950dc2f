//! A dialect-tagged SQL statement: text plus its ordered list of bound
//! values.

use vstd::prelude::*;

use crate::dialect::DbBackend;
use crate::value::{SqlValue, ValV};

verus! {

/// A finished statement: dialect tag, SQL text and the ordered value list.
#[derive(Debug)]
pub struct Statement {
    pub db_backend: DbBackend,
    pub sql: String,
    pub values: Vec<SqlValue>,
}

/// Mathematical model of a [`Statement`].
pub struct StmtV {
    pub db_backend: DbBackend,
    pub sql: Seq<char>,
    pub values: Seq<ValV>,
}

impl View for Statement {
    type V = StmtV;

    open spec fn view(&self) -> StmtV {
        StmtV { db_backend: self.db_backend, sql: self.sql@, values: self.values.deep_view() }
    }
}

impl Statement {
    /// A statement holding bare text and no values.
    pub fn from_string(db_backend: DbBackend, sql: String) -> (r: Statement)
        ensures
            r.db_backend == db_backend,
            r.sql@ == sql@,
            r.values@.len() == 0,
    {
        Statement { db_backend, sql, values: Vec::new() }
    }
}

} // verus!
