//! Decoding of an untyped configuration value tree into typed lock-file
//! records, together with the decision core of a breadth-first search for the
//! on-disk directory of a named, versioned dependency.
//!
//! Parsing the configuration text itself, filesystem access, and process
//! orchestration are left to the caller; this crate owns the logic that turns
//! an already-parsed value tree into `Package` and `CargoLock` records and
//! that steers the directory search.

pub mod decode;
pub mod resolve;
pub mod schema;
pub mod value;
