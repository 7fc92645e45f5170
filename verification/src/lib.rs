//! Validation and representation of the tagged chunks of IFF-family
//! binary formats: four-byte chunk identifiers and length-declared chunks.

pub mod chunk;
pub mod chunkid;


pub use chunk::Chunk;
pub use chunkid::ChunkId;
