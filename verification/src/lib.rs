//! Memory management for small language models: a working-memory ring
//! buffer, content-addressed episodes, an id-keyed fact store and the
//! columnar layout that storage backends exchange.
pub mod arrow;
pub mod embedding;
pub mod error;
pub mod memory;
pub mod storage;
pub mod types;

pub use error::MembridError;
pub use types::{
    compute_memory_id, memory_id_to_hex, AssembledContext, Entity, EntityKind, Episode,
    EpisodeMetadata, Fact, MemoryId, MemoryMetadata, MemoryTier, RetrievedMemory, Role,
    TokenCount,
};
