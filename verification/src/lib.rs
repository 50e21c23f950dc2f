//! Query-templating core of a relational-database access layer.
//!
//! A dialect-neutral statement (SQL text plus an ordered value list) is turned
//! into a reusable, rebindable template; a concurrent cache memoizes such
//! templates; and a keyset-pagination engine builds seek predicates and
//! ORDER BY clauses from a free-text ordering specification.

pub mod builder;
pub mod cache;
pub mod dialect;
pub mod expr;
pub mod future;
pub mod num;
pub mod error;
pub mod order_by;
pub mod snowflake;
pub mod statement;
pub mod template;
pub mod text;
pub mod value;
