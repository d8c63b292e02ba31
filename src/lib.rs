//! Verified core of a single-test execution engine for compiled Cairo test
//! programs: hint indexing, run validation, resource accounting, outcome
//! extraction, cancellation decisions, the runtime extension chain with its
//! cheat overrides, and the fork read cache.

pub mod text;
pub mod felt;
pub mod summary;
pub mod hints;
pub mod resources;
pub mod runner;
pub mod schedule;
pub mod extensions;
pub mod fork_cache;
pub mod cheats;
