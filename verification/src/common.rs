//! Constants of the archive format.

use vstd::prelude::*;

verus! {

/// The four bytes `bak0` that open every archive.
pub const BAKPAK_MAGIC: [u8; 4] = [0x62u8, 0x61u8, 0x6bu8, 0x30u8];

/// Context of the key that encrypts the sender's identity.
pub const SENDER_ENCRYPTION_KEY_CTX: &'static str =
    "bakpak.rasen.dev 2025-11-01 sender encryption key";

/// Context of the key that authenticates the header.
pub const HEADER_MAC_KEY_CTX: &'static str = "bakpak.rasen.dev 2025-11-01 header mac key";

/// Context of the key that encrypts the payload segments.
pub const PAYLOAD_ENCRYPTION_KEY_CTX: &'static str =
    "bakpak.rasen.dev 2025-11-01 payload encryption";

/// Context of the key that names a recipient.
pub const RECIPIENT_MAC_KEY_CTX: &'static str = "bakpak.rasen.dev 2025-11-01 recipient mac key";

/// Context of the key that wraps the file key for a recipient.
pub const WRAP_KEY_CTX: &'static str = "bakpak.rasen.dev 2025-11-01 wrap key";

} // verus!
