//! Content-addressable storage.

pub mod content_addressable_store;
pub mod directory;

pub use content_addressable_store::ContentAddressableStorage;
pub use directory::DirectoryCas;
