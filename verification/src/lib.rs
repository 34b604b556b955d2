//! Content-defined deduplicating backup: chunking, packs, and the encrypted archive stream.

pub mod cas;
pub mod chacha20_blake3;
pub mod chunking;
pub mod common;
pub mod encryptor;
pub mod error;
pub mod index;
pub mod pack;
pub mod primitives;
pub mod segment;
pub mod stream_writer;

pub use encryptor::Encryptor;
pub use error::Error;
pub use stream_writer::StreamWriter;
