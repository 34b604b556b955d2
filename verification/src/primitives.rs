//! The cryptographic primitives the library builds on.
//!
//! Every function here hands its arguments to an outside crate and is believed,
//! not proved. Results that are functions of the arguments alone are tied to
//! uninterpreted spec functions so that callers can state exact contracts.

use vstd::prelude::*;

use aes::cipher::{BlockEncrypt, KeyInit, KeyIvInit, StreamCipher};
use rand_core::RngCore;
use zeroize::Zeroize;

verus! {

/// The BLAKE3 digest of `input`.
pub uninterp spec fn blake3_hash(input: Seq<u8>) -> Seq<u8>;

/// The BLAKE3 keyed hash of `input` under `key`.
pub uninterp spec fn blake3_keyed_hash(key: Seq<u8>, input: Seq<u8>) -> Seq<u8>;

/// The BLAKE3 key derived from `key_material` in the given context.
pub uninterp spec fn blake3_derive_key(context: Seq<char>, key_material: Seq<u8>) -> Seq<u8>;

/// The first `len` bytes of the ChaCha20 keystream for `key` and `nonce`,
/// starting at block zero.
pub uninterp spec fn chacha20_keystream(key: Seq<u8>, nonce: Seq<u8>, len: nat) -> Seq<u8>;

/// The AES-128 encryption of one 16-byte `block` under `key`.
pub uninterp spec fn aes128_encrypt(key: Seq<u8>, block: Seq<u8>) -> Seq<u8>;

/// The Ed25519 signature of `message` under the secret key `secret`.
pub uninterp spec fn ed25519_signature(secret: Seq<u8>, message: Seq<u8>) -> Seq<u8>;

/// The Ed25519 public key that belongs to the secret key `secret`.
pub uninterp spec fn ed25519_public_key(secret: Seq<u8>) -> Seq<u8>;

/// The X25519 public share that belongs to the secret `secret`.
pub uninterp spec fn x25519_public_key(secret: Seq<u8>) -> Seq<u8>;

/// The X25519 shared secret between `secret` and the peer's public share.
pub uninterp spec fn x25519_shared_secret(secret: Seq<u8>, their_public: Seq<u8>) -> Seq<u8>;

/// Byte-wise exclusive or of `data` with the leading bytes of `pad`.
pub open spec fn xor_bytes(data: Seq<u8>, pad: Seq<u8>) -> Seq<u8> {
    Seq::new(data.len(), |i: int| data[i] ^ pad[i])
}

/// A sequence of `len` zero bytes.
pub open spec fn zeros(len: nat) -> Seq<u8> {
    Seq::new(len, |i: int| 0u8)
}

/// Calls `blake3::hash`; the result is the 32-byte digest of `input`.
#[verifier::external_body]
pub(crate) fn hash(input: &[u8]) -> (digest: [u8; 32])
    ensures
        digest@ == blake3_hash(input@),
{
    blake3::hash(input).into()
}

/// Calls `blake3::keyed_hash`; the result is the 32-byte MAC of `input` under `key`.
#[verifier::external_body]
pub(crate) fn keyed_hash(key: &[u8; 32], input: &[u8]) -> (mac: [u8; 32])
    ensures
        mac@ == blake3_keyed_hash(key@, input@),
{
    blake3::keyed_hash(key, input).into()
}

/// Calls `blake3::derive_key`; the result is the 32-byte subkey for `context`.
#[verifier::external_body]
pub(crate) fn derive_key(context: &str, key_material: &[u8]) -> (key: [u8; 32])
    ensures
        key@ == blake3_derive_key(context@, key_material@),
{
    blake3::derive_key(context, key_material)
}

/// Compares two tags with the constant-time equality of `blake3::Hash`, which
/// holds exactly when all 32 bytes agree.
#[verifier::external_body]
pub(crate) fn tags_match(left: &[u8; 32], right: &[u8; 32]) -> (same: bool)
    ensures
        same == (left@ == right@),
{
    blake3::Hash::from_bytes(*left) == blake3::Hash::from_bytes(*right)
}

/// Builds a fresh `chacha20::ChaCha20` and calls `apply_keystream`, which
/// replaces every byte of `buffer` by its exclusive or with the keystream.
/// The cipher panics once its 32-bit block counter runs out, so longer
/// buffers are left out.
#[verifier::external_body]
pub(crate) fn chacha20_apply_keystream(key: &[u8; 32], nonce: &[u8; 12], buffer: &mut [u8])
    requires
        old(buffer)@.len() / 64 < u32::MAX,
    ensures
        final(buffer)@ == xor_bytes(
            old(buffer)@,
            chacha20_keystream(key@, nonce@, old(buffer)@.len()),
        ),
{
    let mut cipher = chacha20::ChaCha20::new(key.into(), nonce.into());
    cipher.apply_keystream(buffer);
}

/// Builds an `aes::Aes128Enc` from `key` and calls `encrypt_block` on a copy
/// of `block`.
#[verifier::external_body]
pub(crate) fn aes128_encrypt_block(key: &[u8; 16], block: &[u8; 16]) -> (out: [u8; 16])
    ensures
        out@ == aes128_encrypt(key@, block@),
{
    let cipher = aes::Aes128Enc::new(key.into());
    let mut data = aes::Block::from(*block);
    cipher.encrypt_block(&mut data);
    data.into()
}

/// Builds an `ed25519_dalek::SigningKey` from `secret` and signs `message`
/// with `Signer::sign`; Ed25519 signatures are deterministic.
#[verifier::external_body]
pub(crate) fn ed25519_sign(secret: &[u8; 32], message: &[u8]) -> (signature: [u8; 64])
    ensures
        signature@ == ed25519_signature(secret@, message@),
{
    let key = ed25519_dalek::SigningKey::from_bytes(secret);
    ed25519_dalek::Signer::sign(&key, message).to_bytes()
}

/// Builds an `ed25519_dalek::SigningKey` from `secret` and returns the bytes
/// of its `verifying_key`.
#[verifier::external_body]
pub(crate) fn ed25519_verifying_key(secret: &[u8; 32]) -> (public: [u8; 32])
    ensures
        public@ == ed25519_public_key(secret@),
{
    ed25519_dalek::SigningKey::from_bytes(secret).verifying_key().to_bytes()
}

/// Converts `secret` into an `x25519_dalek::StaticSecret` and returns the
/// bytes of the `PublicKey` made from it.
#[verifier::external_body]
pub(crate) fn x25519_public(secret: &[u8; 32]) -> (public: [u8; 32])
    ensures
        public@ == x25519_public_key(secret@),
{
    let secret = x25519_dalek::StaticSecret::from(*secret);
    x25519_dalek::PublicKey::from(&secret).to_bytes()
}

/// Converts `secret` into an `x25519_dalek::StaticSecret` and returns the
/// bytes of its `diffie_hellman` with the peer's public share.
#[verifier::external_body]
pub(crate) fn x25519_diffie_hellman(secret: &[u8; 32], their_public: &[u8; 32]) -> (shared: [u8; 32])
    ensures
        shared@ == x25519_shared_secret(secret@, their_public@),
{
    let secret = x25519_dalek::StaticSecret::from(*secret);
    secret.diffie_hellman(&x25519_dalek::PublicKey::from(*their_public)).to_bytes()
}

/// Calls `Zeroize::zeroize` on the slice, which overwrites every byte with zero.
#[verifier::external_body]
pub(crate) fn wipe(secret: &mut [u8])
    ensures
        final(secret)@ == zeros(old(secret)@.len()),
{
    secret.zeroize();
}

/// Asks `rand_core::OsRng` for 32 random bytes through `try_fill_bytes` and
/// hands a failure of the operating system's generator on as an I/O error.
/// Nothing is known of the bytes themselves.
#[verifier::external_body]
pub(crate) fn random_key() -> (key: Result<[u8; 32], std::io::Error>)
{
    let mut key = [0u8; 32];
    match rand_core::OsRng.try_fill_bytes(&mut key) {
        Ok(()) => Ok(key),
        Err(_) => Err(std::io::Error::from(std::io::ErrorKind::Other)),
    }
}

/// Makes the `std::io::Error` of kind `WriteZero`, for a writer that takes no
/// more bytes.
#[verifier::external_body]
pub(crate) fn write_zero() -> (error: std::io::Error)
{
    std::io::Error::from(std::io::ErrorKind::WriteZero)
}

} // verus!
