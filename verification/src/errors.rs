//! Error taxonomy for scanning, building, and applying migrations.
//!
//! Build-time failures (`ScanError`, `BuildError`) abort the whole build: no
//! partial registry is ever produced. Run-time failures (`RunError`) identify
//! the migration that failed.

use vstd::prelude::*;

verus! {

/// A failure while listing the migrations root.
#[derive(Debug, PartialEq, Eq)]
pub enum ScanError {
    /// The root path does not exist or is not a directory.
    DirectoryNotFound,
    /// The root or one of its entries could not be read.
    IoError(String),
    /// A directory name yields no usable version token; the payload is the
    /// offending directory name.
    InvalidVersion(String),
}

/// A failure while assembling the registry from scanned directories.
#[derive(Debug, PartialEq, Eq)]
pub enum BuildError {
    /// A directory name yields no usable version token; the payload is the
    /// offending directory name.
    InvalidVersion(String),
    /// The directory named by the payload has no forward SQL file.
    MissingUpFile(String),
    /// A forward SQL file could not be read.
    IoError(String),
}

/// A failure while applying embedded migrations to a connection.
#[derive(Debug, PartialEq, Eq)]
pub enum RunError {
    /// The executor rejected the forward SQL of the migration with this
    /// version.
    DatabaseError { version: String, message: String },
    /// Reverting is never a valid operation: no reverse SQL is captured, so
    /// asking for it signals a logic error in the caller.
    RevertUnsupported,
}

} // verus!
