//! Error kinds surfaced by the library.

use vstd::prelude::*;

verus! {

/// `std::io::Error`, carried through without looking inside.
#[verifier::external_type_specification]
#[verifier::external_body]
pub struct ExIoError(std::io::Error);

/// What can go wrong while building packs or archives.
#[derive(Debug)]
#[non_exhaustive]
pub enum Error {
    /// The recipient list holds more than `u32::MAX` entries.
    TooManyRecipients,
    /// The operating system or the downstream writer failed.
    Io(std::io::Error),
    /// A buffer is too long for the cipher, or a tag did not match.
    EncryptionError,
    /// A blob is longer than `u32::MAX` bytes.
    InvalidInput,
    /// The pack already extends past offset `u32::MAX`.
    FileTooLarge,
}

} // verus!
