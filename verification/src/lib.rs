//! Embedded schema migrations: scan a directory of versioned migration
//! folders, capture each folder's forward SQL, and assemble an ordered,
//! immutable registry that can later be applied to a database connection
//! without touching the filesystem again.

pub mod errors;
pub mod laws;
pub mod lex;
pub mod registry;
pub mod runner;
pub mod scan;
pub mod version;
