//! What a store of blobs offers, whatever it keeps them in.

use vstd::prelude::*;

use crate::error::Error;
use crate::primitives::blake3_hash;

verus! {

/// A store that finds every blob by the hash of its content.
pub trait ContentAddressableStorage {
    /// The hashes of all blobs in the store.
    fn list(&self) -> Result<Vec<[u8; 32]>, Error>;

    /// The blob with the given hash, or `None` if the store has none.
    fn get(&self, hash: [u8; 32]) -> Result<Option<Vec<u8>>, Error>;

    /// Stores a blob and returns the hash of its content. Storing a blob that
    /// the store already has changes nothing and is no error.
    fn store(&self, bytes: &[u8]) -> (res: Result<[u8; 32], Error>)
        ensures
            res matches Ok(hash) ==> hash@ == blake3_hash(bytes@),
    ;
}

} // verus!
