//! The global index: where every blob of every pack is found.

pub mod index_writer;
