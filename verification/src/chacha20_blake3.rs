//! An AEAD built from the ChaCha20 stream cipher and a BLAKE3 keyed MAC.
//!
//! The cipher key and the MAC key are derived separately from the AEAD key,
//! the ciphertext is authenticated together with the nonce, the associated
//! data and both lengths, and decryption checks the tag before it touches the
//! buffer.

use vstd::prelude::*;
use vstd::bytes::{spec_u64_to_le_bytes, u64_to_le_bytes};

use crate::error::Error;
use crate::primitives::{
    blake3_derive_key, blake3_keyed_hash, chacha20_apply_keystream, chacha20_keystream,
    derive_key, keyed_hash, tags_match, wipe, xor_bytes,
};

verus! {

/// Size of a ChaCha20 block in bytes.
pub const BLOCK_SIZE: usize = 64;

/// Number of blocks at which the ChaCha20 block counter would overflow.
pub const MAX_BLOCKS: usize = 0xffff_ffff;

/// Context string for the key of the stream cipher.
pub const ENCRYPTION_KEY_CTX: &'static str = "ChaCha20.Encrypt()";

/// Context string for the key of the MAC.
pub const MAC_KEY_CTX: &'static str = "BLAKE3-256.KeyedHash()";

/// Whether a buffer of `len` bytes is too long to be encrypted under one nonce.
pub open spec fn too_long(len: nat) -> bool {
    len / 64 >= 0xffff_ffff
}

/// The key handed to the stream cipher for the AEAD key `key`.
pub open spec fn cipher_key(key: Seq<u8>) -> Seq<u8> {
    blake3_derive_key(ENCRYPTION_KEY_CTX@, key)
}

/// The key handed to the MAC for the AEAD key `key`.
pub open spec fn mac_key(key: Seq<u8>) -> Seq<u8> {
    blake3_derive_key(MAC_KEY_CTX@, key)
}

/// `data` with the keystream for `key` and `nonce` applied. Encryption and
/// decryption are the same map.
pub open spec fn apply_cipher(key: Seq<u8>, nonce: Seq<u8>, data: Seq<u8>) -> Seq<u8> {
    xor_bytes(data, chacha20_keystream(cipher_key(key), nonce, data.len()))
}

/// The byte string that the MAC absorbs.
pub open spec fn mac_input(nonce: Seq<u8>, associated_data: Seq<u8>, ciphertext: Seq<u8>) -> Seq<u8> {
    nonce + associated_data + ciphertext
        + spec_u64_to_le_bytes(associated_data.len() as u64)
        + spec_u64_to_le_bytes(ciphertext.len() as u64)
}

/// The tag that authenticates `ciphertext` under `key`, `nonce` and `associated_data`.
pub open spec fn auth_tag(
    key: Seq<u8>,
    nonce: Seq<u8>,
    associated_data: Seq<u8>,
    ciphertext: Seq<u8>,
) -> Seq<u8> {
    blake3_keyed_hash(mac_key(key), mac_input(nonce, associated_data, ciphertext))
}

/// The ChaCha20 + BLAKE3 AEAD under one 32-byte key.
pub struct ChaChaBlake3 {
    key: [u8; 32],
}

impl View for ChaChaBlake3 {
    type V = Seq<u8>;

    /// The key bytes.
    closed spec fn view(&self) -> Seq<u8> {
        self.key@
    }
}

impl ChaChaBlake3 {
    /// An AEAD instance under `key`.
    pub fn new(key: &[u8; 32]) -> (aead: Self)
        ensures
            aead@ == key@,
    {
        ChaChaBlake3 { key: *key }
    }

    /// Overwrites the key with zeros.
    pub fn zeroize(&mut self)
        ensures
            final(self)@ == crate::primitives::zeros(32),
    {
        wipe(&mut self.key);
    }

    /// Encrypts `buffer` in place and returns the tag over the ciphertext.
    ///
    /// Fails, leaving the buffer as it was, exactly when the buffer is too
    /// long for the block counter of the cipher.
    pub fn encrypt_in_place_detached(
        &self,
        nonce: &[u8; 12],
        associated_data: &[u8],
        buffer: &mut [u8],
    ) -> (res: Result<[u8; 32], Error>)
        ensures
            too_long(old(buffer)@.len()) ==> (res matches Err(Error::EncryptionError))
                && final(buffer)@ == old(buffer)@,
            !too_long(old(buffer)@.len()) ==> res is Ok
                && final(buffer)@ == apply_cipher(self@, nonce@, old(buffer)@)
                && res->Ok_0@ == auth_tag(self@, nonce@, associated_data@, final(buffer)@),
    {
        if buffer.len() / BLOCK_SIZE >= MAX_BLOCKS {
            return Err(Error::EncryptionError);
        }
        let mut encryption_key = derive_key(ENCRYPTION_KEY_CTX, self.key.as_slice());
        chacha20_apply_keystream(&encryption_key, nonce, buffer);
        wipe(&mut encryption_key);

        let tag = self.compute_tag(nonce, associated_data, buffer);
        Ok(tag)
    }

    /// Checks `tag` against the ciphertext in `buffer` and, only if it
    /// matches, decrypts the buffer in place.
    ///
    /// Fails, leaving the ciphertext in the buffer, when the buffer is too
    /// long or the tag is not the one that authenticates it.
    pub fn decrypt_in_place_detached(
        &self,
        nonce: &[u8; 12],
        associated_data: &[u8],
        buffer: &mut [u8],
        tag: &[u8; 32],
    ) -> (res: Result<(), Error>)
        ensures
            res is Ok <==> !too_long(old(buffer)@.len())
                && tag@ == auth_tag(self@, nonce@, associated_data@, old(buffer)@),
            res is Ok ==> final(buffer)@ == apply_cipher(self@, nonce@, old(buffer)@),
            res is Err ==> (res matches Err(Error::EncryptionError))
                && final(buffer)@ == old(buffer)@,
    {
        if buffer.len() / BLOCK_SIZE >= MAX_BLOCKS {
            return Err(Error::EncryptionError);
        }
        let computed_tag = self.compute_tag(nonce, associated_data, buffer);
        if tags_match(&computed_tag, tag) {
            let mut encryption_key = derive_key(ENCRYPTION_KEY_CTX, self.key.as_slice());
            chacha20_apply_keystream(&encryption_key, nonce, buffer);
            wipe(&mut encryption_key);
            Ok(())
        } else {
            Err(Error::EncryptionError)
        }
    }

    /// The MAC over nonce, associated data, ciphertext and the two lengths.
    fn compute_tag(&self, nonce: &[u8; 12], associated_data: &[u8], ciphertext: &[u8]) -> (tag: [u8; 32])
        ensures
            tag@ == auth_tag(self@, nonce@, associated_data@, ciphertext@),
    {
        let mut mac_key = derive_key(MAC_KEY_CTX, self.key.as_slice());

        let mut message: Vec<u8> = Vec::new();
        message.extend_from_slice(nonce.as_slice());
        message.extend_from_slice(associated_data);
        message.extend_from_slice(ciphertext);
        let ad_len = u64_to_le_bytes(associated_data.len() as u64);
        message.extend_from_slice(ad_len.as_slice());
        let ct_len = u64_to_le_bytes(ciphertext.len() as u64);
        message.extend_from_slice(ct_len.as_slice());
        assert(message@ == mac_input(nonce@, associated_data@, ciphertext@));

        let tag = keyed_hash(&mac_key, message.as_slice());
        wipe(&mut mac_key);
        tag
    }
}

/// Applying the cipher twice under the same key and nonce gives the data back.
pub proof fn lemma_apply_cipher_twice(key: Seq<u8>, nonce: Seq<u8>, data: Seq<u8>)
    ensures
        apply_cipher(key, nonce, apply_cipher(key, nonce, data)) == data,
{
    let pad = chacha20_keystream(cipher_key(key), nonce, data.len());
    let once = apply_cipher(key, nonce, data);
    assert(once.len() == data.len());
    let twice = apply_cipher(key, nonce, once);
    assert forall|i: int| 0 <= i < data.len() implies twice[i] == data[i] by {
        let d = data[i];
        let k = pad[i];
        assert((d ^ k) ^ k == d) by (bit_vector);
    }
    assert(twice =~= data);
}

/// Decryption inverts encryption: the ciphertext and tag that encryption
/// produces for a plaintext of admissible length meet the condition under
/// which decryption succeeds, and decryption then restores the plaintext.
pub proof fn lemma_decrypt_inverts_encrypt(
    key: Seq<u8>,
    nonce: Seq<u8>,
    associated_data: Seq<u8>,
    plaintext: Seq<u8>,
)
    requires
        !too_long(plaintext.len()),
    ensures
        ({
            let ciphertext = apply_cipher(key, nonce, plaintext);
            &&& !too_long(ciphertext.len())
            &&& apply_cipher(key, nonce, ciphertext) == plaintext
        }),
{
    lemma_apply_cipher_twice(key, nonce, plaintext);
}

/// What the MAC absorbs determines the nonce, the associated data and the
/// ciphertext: no two different triples are authenticated as the same byte
/// string. A change to any of the three therefore changes the input of the
/// MAC.
pub proof fn lemma_mac_input_is_unambiguous(
    nonce: Seq<u8>,
    associated_data: Seq<u8>,
    ciphertext: Seq<u8>,
    other_nonce: Seq<u8>,
    other_associated_data: Seq<u8>,
    other_ciphertext: Seq<u8>,
)
    requires
        nonce.len() == 12,
        other_nonce.len() == 12,
        associated_data.len() <= u64::MAX,
        ciphertext.len() <= u64::MAX,
        other_associated_data.len() <= u64::MAX,
        other_ciphertext.len() <= u64::MAX,
        mac_input(nonce, associated_data, ciphertext) == mac_input(
            other_nonce,
            other_associated_data,
            other_ciphertext,
        ),
    ensures
        nonce == other_nonce,
        associated_data == other_associated_data,
        ciphertext == other_ciphertext,
{
    vstd::bytes::lemma_auto_spec_u64_to_from_le_bytes();
    let one = mac_input(nonce, associated_data, ciphertext);
    let two = mac_input(other_nonce, other_associated_data, other_ciphertext);
    let ad_len = spec_u64_to_le_bytes(associated_data.len() as u64);
    let ct_len = spec_u64_to_le_bytes(ciphertext.len() as u64);
    let other_ad_len = spec_u64_to_le_bytes(other_associated_data.len() as u64);
    let other_ct_len = spec_u64_to_le_bytes(other_ciphertext.len() as u64);
    let end = one.len() as int;
    assert(one.subrange(end - 16, end - 8) =~= ad_len);
    assert(one.subrange(end - 8, end) =~= ct_len);
    assert(two.subrange(end - 16, end - 8) =~= other_ad_len);
    assert(two.subrange(end - 8, end) =~= other_ct_len);
    assert(associated_data.len() as u64 == other_associated_data.len() as u64) by {
        assert(vstd::bytes::spec_u64_from_le_bytes(ad_len) == associated_data.len() as u64);
        assert(vstd::bytes::spec_u64_from_le_bytes(other_ad_len)
            == other_associated_data.len() as u64);
    }
    let ad_end = 12 + associated_data.len() as int;
    assert(one.subrange(0, 12) =~= nonce);
    assert(two.subrange(0, 12) =~= other_nonce);
    assert(one.subrange(12, ad_end) =~= associated_data);
    assert(two.subrange(12, ad_end) =~= other_associated_data);
    assert(one.subrange(ad_end, end - 16) =~= ciphertext);
    assert(two.subrange(ad_end, end - 16) =~= other_ciphertext);
}

/// Flipping any one bit of a tag gives a different tag, which decryption
/// therefore rejects.
pub proof fn lemma_flipped_tag_differs(tag: Seq<u8>, index: int, bit: u8)
    requires
        0 <= index < tag.len(),
        bit < 8,
    ensures
        tag.update(index, tag[index] ^ (1u8 << bit)) != tag,
{
    let byte = tag[index];
    assert(byte ^ (1u8 << bit) != byte) by (bit_vector)
        requires
            bit < 8,
    ;
    assert(tag.update(index, byte ^ (1u8 << bit))[index] != tag[index]);
}

} // verus!
