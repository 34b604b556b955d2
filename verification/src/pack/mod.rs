//! Packs: many blobs in one file, followed by a sorted index.

pub mod pack_writer;
