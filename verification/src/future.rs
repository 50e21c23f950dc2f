//! Pairings of asynchronous halves: the data each combinator owns. The
//! sink and stream trait machinery around these types lives with the
//! asynchronous runtime, outside this crate's verified core.

pub mod duplex;
pub mod sink;
