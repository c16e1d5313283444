//! Cross-platform persistent state management: atomic configuration
//! read/write with versioned backups, and privilege-aware, idempotent
//! persistence of two environment variables across user and system scope,
//! with scope-precedence resolution.
pub mod admin;
pub mod atomic;
pub mod backup;
pub mod block;
pub mod document;
pub mod envtext;
pub mod paths;
pub mod search;
pub mod status;
pub mod text;
pub mod winenv;

use vstd::prelude::*;

verus! {

/// The sizes and locations of the package registry and git caches, as
/// reported to the front end.
#[derive(Clone, Debug)]
pub struct CacheStats {
    pub registry_size: u64,
    pub registry_path: String,
    pub git_size: u64,
    pub git_path: String,
}

} // verus!
