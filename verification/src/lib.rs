//! A PNG container codec: it parses a PNG byte stream into a sequence of
//! length-prefixed, CRC-protected chunks, validates each chunk's integrity
//! and type-name semantics, and rebuilds a byte-exact stream after chunks
//! are inserted or removed.

pub mod chunk;
pub mod chunk_type;
pub mod crc32;
pub mod error;
pub mod png;
pub mod text;
pub mod wire;

pub use chunk::Chunk;
pub use chunk_type::ChunkType;
pub use error::ChunkError;
pub use png::Png;
