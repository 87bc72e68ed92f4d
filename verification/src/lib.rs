//! Registration and renaming of the peers of a rendezvous server.
//!
//! The library holds the decisions. It says which statement goes to the database and what
//! follows from each reply; sending statements and taking locks is left to the caller.

pub mod calls;
pub mod database;
pub mod json;
pub mod laws;
pub mod peer;
pub mod query;
pub mod sql;
pub mod table;
pub mod text;
