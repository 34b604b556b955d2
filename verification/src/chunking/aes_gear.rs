//! The AES-Gear rolling hash: a gear register whose value is passed through
//! one AES-128 block encryption before its low bits are inspected.

use vstd::prelude::*;
use vstd::bytes::{
    lemma_auto_spec_u64_to_from_le_bytes, spec_u64_from_le_bytes, spec_u64_to_le_bytes,
    spec_u64_to_le_bytes_to_open,
};

use crate::chunking::aes_gear_table::DEFAULT_TABLE;
use crate::primitives::{aes128_encrypt, aes128_encrypt_block, zeros};

verus! {

/// The register after absorbing `byte`: shifted left by one, plus the table
/// entry of the byte, modulo 2^64.
pub open spec fn gear_update(table: Seq<u64>, state: u64, byte: u8) -> u64 {
    (state << 1).wrapping_add(table[byte as int])
}

/// The block handed to AES: the register in little-endian order, then zeros.
pub open spec fn gear_block(state: u64) -> Seq<u8> {
    spec_u64_to_le_bytes(state) + zeros(8)
}

/// The hash value of a register: the first eight bytes of the encrypted
/// block, read as a little-endian integer.
pub open spec fn gear_digest(key: Seq<u8>, state: u64) -> u64 {
    spec_u64_from_le_bytes(aes128_encrypt(key, gear_block(state)).subrange(0, 8))
}

/// The parameters of the rolling hash: the substitution table and the AES key.
pub struct AesGearConfig<'a> {
    table: &'a [u64; 256],
    aes_key: [u8; 16],
}

impl<'a> AesGearConfig<'a> {
    /// The substitution table.
    pub closed spec fn table(&self) -> Seq<u64> {
        self.table@
    }

    /// The AES-128 key.
    pub closed spec fn key(&self) -> Seq<u8> {
        self.aes_key@
    }

    /// The table always has one entry per byte value.
    pub proof fn lemma_table_len(&self)
        ensures
            self.table().len() == 256,
    {
    }
}

impl AesGearConfig<'static> {
    /// A configuration with the default table and the given AES-128 key.
    pub fn new(aes_key: [u8; 16]) -> (config: Self)
        ensures
            config.table() == DEFAULT_TABLE@,
            config.key() == aes_key@,
    {
        AesGearConfig { table: &DEFAULT_TABLE, aes_key }
    }
}

/// A running gear register.
#[derive(Clone, Copy)]
pub struct AesGearHash<'a> {
    config: &'a AesGearConfig<'a>,
    state: u64,
}

impl<'a> AesGearHash<'a> {
    /// The configuration the hash runs under.
    pub closed spec fn config(&self) -> AesGearConfig<'a> {
        *self.config
    }

    /// The current value of the register.
    pub closed spec fn state(&self) -> u64 {
        self.state
    }

    /// A register that starts at zero.
    pub fn new(config: &'a AesGearConfig<'a>) -> (hash: Self)
        ensures
            hash.config() == *config,
            hash.state() == 0,
    {
        AesGearHash { config, state: 0 }
    }

    /// Consumes one byte of input.
    pub fn update(&mut self, byte: u8)
        ensures
            final(self).config() == old(self).config(),
            final(self).state() == gear_update(old(self).config().table(), old(self).state(), byte),
    {
        self.state = (self.state << 1).wrapping_add(self.config.table[byte as usize]);
    }

    /// The current hash value.
    pub fn hash(&self) -> (digest: u64)
        ensures
            digest == gear_digest(self.config().key(), self.state()),
    {
        let block = block_of(self.state);
        let encrypted = aes128_encrypt_block(&self.config.aes_key, &block);
        leading_u64(&encrypted)
    }
}

/// One byte of a register: bits `shift` to `shift + 7`.
fn byte_at(state: u64, shift: u64) -> (byte: u8)
    requires
        shift < 64,
    ensures
        byte == ((state >> shift) & 0xff) as u8,
{
    let bits = (state >> shift) & 0xff;
    assert(bits <= 0xff) by (bit_vector)
        requires
            bits == (state >> shift) & 0xff,
    ;
    bits as u8
}

/// The block that is encrypted for a register.
fn block_of(state: u64) -> (block: [u8; 16])
    ensures
        block@ == gear_block(state),
{
    let block = [
        byte_at(state, 0),
        byte_at(state, 8),
        byte_at(state, 16),
        byte_at(state, 24),
        byte_at(state, 32),
        byte_at(state, 40),
        byte_at(state, 48),
        byte_at(state, 56),
        0u8,
        0u8,
        0u8,
        0u8,
        0u8,
        0u8,
        0u8,
        0u8,
    ];
    proof {
        spec_u64_to_le_bytes_to_open(state);
        assert(state >> 0 == state) by (bit_vector);
        assert(block@ =~= gear_block(state));
    }
    block
}

/// The first eight bytes of a block as a little-endian integer.
fn leading_u64(block: &[u8; 16]) -> (value: u64)
    ensures
        value == spec_u64_from_le_bytes(block@.subrange(0, 8)),
{
    let b0 = block[0] as u64;
    let b1 = block[1] as u64;
    let b2 = block[2] as u64;
    let b3 = block[3] as u64;
    let b4 = block[4] as u64;
    let b5 = block[5] as u64;
    let b6 = block[6] as u64;
    let b7 = block[7] as u64;
    let value = b0 | b1 << 8 | b2 << 16 | b3 << 24 | b4 << 32 | b5 << 40 | b6 << 48 | b7 << 56;
    proof {
        let bytes = block@.subrange(0, 8);
        assert(value & 0xff == b0 && (value >> 8) & 0xff == b1 && (value >> 16) & 0xff == b2 && (
        value >> 24) & 0xff == b3 && (value >> 32) & 0xff == b4 && (value >> 40) & 0xff == b5 && (
        value >> 48) & 0xff == b6 && (value >> 56) & 0xff == b7) by (bit_vector)
            requires
                value == b0 | b1 << 8 | b2 << 16 | b3 << 24 | b4 << 32 | b5 << 40 | b6 << 48 | b7
                    << 56,
                b0 < 256,
                b1 < 256,
                b2 < 256,
                b3 < 256,
                b4 < 256,
                b5 < 256,
                b6 < 256,
                b7 < 256,
        ;
        spec_u64_to_le_bytes_to_open(value);
        assert(spec_u64_to_le_bytes(value) =~= bytes);
        lemma_auto_spec_u64_to_from_le_bytes();
    }
    value
}

} // verus!
