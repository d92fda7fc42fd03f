//! Storage backends.
//!
//! - [`InMemoryFactStore`]: id-keyed in-memory store, no external deps.
pub mod memory;

pub use memory::InMemoryFactStore;
