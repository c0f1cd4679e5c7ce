pub mod args;
pub mod chunk;
pub mod chunk_type;
pub mod png;

pub use chunk::{Chunk, ChunkError};
pub use chunk_type::{ChunkType, InvalidChunkError};
pub use png::{Png, PngError};
