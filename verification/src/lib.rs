//! Activity capture and integration engine.
//!
//! The library turns focus-probe samples into closed activity intervals
//! (a debounced state machine with a minimum-duration filter), stores the
//! intervals in an append-only store with range queries and ranked
//! aggregation, and drives a plugin layer that extracts ticket identifiers
//! from a record and prepares/interprets time-entry synchronization against
//! an external ticket tracker.

pub mod config;
pub mod extract;
pub mod plugin;
pub mod probe;
pub mod record;
pub mod recorder;
pub mod store;
pub mod summary;
pub mod sync;
pub mod text;
pub mod time;
