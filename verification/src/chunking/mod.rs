//! Content-defined chunking with the AES-Gear rolling hash.

pub mod aes_gear;
pub mod aes_gear_table;
pub mod chunker_state;
pub mod stream_chunker;

pub use aes_gear::AesGearConfig;
pub use chunker_state::ChunkerConfig;
pub use stream_chunker::StreamChunker;
