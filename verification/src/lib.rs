//! Account management core: credential hashing, input validation, the
//! account record lifecycle over an email-keyed table, and the bookkeeping
//! of a bounded connection pool.

pub mod error;
pub mod handlers;
pub mod hashing;
pub mod models;
pub mod pool;
pub mod repository;
pub mod store;
pub mod validation;
