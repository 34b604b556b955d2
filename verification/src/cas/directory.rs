//! A store that keeps one file per blob in a directory, named by the
//! lowercase hexadecimal form of the blob's hash.
//!
//! This module decides names; reading and writing the files is left to the
//! owner of the directory.

use vstd::prelude::*;

use crate::primitives::{blake3_hash, hash};

verus! {

/// The sixteen lowercase hexadecimal digits.
pub open spec fn hex_digits() -> Seq<char> {
    seq!['0', '1', '2', '3', '4', '5', '6', '7', '8', '9', 'a', 'b', 'c', 'd', 'e', 'f']
}

/// The lowercase hexadecimal form of `data`: two digits per byte, the high
/// half first.
pub open spec fn hex_lower(data: Seq<u8>) -> Seq<char>
    decreases data.len(),
{
    if data.len() == 0 {
        Seq::empty()
    } else {
        hex_lower(data.drop_last()) + seq![
            hex_digits()[(data.last() >> 4) as int],
            hex_digits()[(data.last() & 0xf) as int],
        ]
    }
}

/// The value of a hexadecimal digit of either case.
pub open spec fn hex_value(digit: char) -> Option<u8> {
    let code = digit as u32;
    if 0x30 <= code <= 0x39 {
        Some((code - 0x30) as u8)
    } else if 0x61 <= code <= 0x66 {
        Some((code - 0x61 + 10) as u8)
    } else if 0x41 <= code <= 0x46 {
        Some((code - 0x41 + 10) as u8)
    } else {
        None
    }
}

/// `name` without a leading `0x` or `0X`.
pub open spec fn without_prefix(name: Seq<char>) -> Seq<char> {
    if name.len() >= 2 && name[0] == '0' && (name[1] == 'x' || name[1] == 'X') {
        name.skip(2)
    } else {
        name
    }
}

/// The hash that a file name stands for: the name must be 64 hexadecimal
/// digits of either case, with or without a leading `0x`.
pub open spec fn parsed_name(name: Seq<char>) -> Option<Seq<u8>> {
    let digits = without_prefix(name);
    if digits.len() == 64 && (forall|i: int| 0 <= i < 64 ==> hex_value(#[trigger] digits[i]) is Some) {
        Some(
            Seq::new(
                32,
                |i: int|
                    (hex_value(digits[2 * i])->Some_0 * 16 + hex_value(digits[2 * i + 1])->Some_0) as u8,
            ),
        )
    } else {
        None
    }
}

/// The hashes that a listing of file names stands for: the names that parse,
/// in their order; the others are passed over.
pub open spec fn parsed_names(names: Seq<Seq<char>>) -> Seq<Seq<u8>>
    decreases names.len(),
{
    if names.len() == 0 {
        Seq::empty()
    } else {
        match parsed_name(names.last()) {
            Some(hash) => parsed_names(names.drop_last()).push(hash),
            None => parsed_names(names.drop_last()),
        }
    }
}

/// Every byte gives two digits.
pub proof fn lemma_hex_lower_digits(data: Seq<u8>, i: int)
    requires
        0 <= i < data.len(),
    ensures
        hex_lower(data).len() == 2 * data.len(),
        hex_lower(data)[2 * i] == hex_digits()[(data[i] >> 4) as int],
        hex_lower(data)[2 * i + 1] == hex_digits()[(data[i] & 0xf) as int],
    decreases data.len(),
{
    lemma_hex_lower_len(data);
    lemma_hex_lower_len(data.drop_last());
    if i < data.len() - 1 {
        lemma_hex_lower_digits(data.drop_last(), i);
    }
}

/// The hexadecimal form is twice as long as the data.
pub proof fn lemma_hex_lower_len(data: Seq<u8>)
    ensures
        hex_lower(data).len() == 2 * data.len(),
    decreases data.len(),
{
    if data.len() > 0 {
        lemma_hex_lower_len(data.drop_last());
    }
}

/// The name of a blob's file parses back to the hash of the blob.
pub proof fn lemma_name_round_trip(hash: Seq<u8>)
    requires
        hash.len() == 32,
    ensures
        parsed_name(hex_lower(hash)) == Some(hash),
{
    let name = hex_lower(hash);
    lemma_hex_lower_len(hash);
    assert forall|i: int| 0 <= i < 32 implies {
        &&& hex_value(#[trigger] name[2 * i]) == Some(hash[i] >> 4)
        &&& hex_value(name[2 * i + 1]) == Some(hash[i] & 0xf)
    } by {
        lemma_hex_lower_digits(hash, i);
        let byte = hash[i];
        assert(byte >> 4 < 16 && byte & 0xf < 16) by (bit_vector);
        lemma_digit_value(byte >> 4);
        lemma_digit_value(byte & 0xf);
    }
    assert(name[0] == hex_digits()[(hash[0] >> 4) as int] && name[1] == hex_digits()[(hash[0]
        & 0xf) as int]) by {
        lemma_hex_lower_digits(hash, 0);
    }
    assert(hex_value(name[1]) is Some) by {
        assert(hex_value(name[2 * 0int + 1]) == Some(hash[0] & 0xf));
    }
    assert(without_prefix(name) == name);
    assert forall|j: int| 0 <= j < 64 implies hex_value(#[trigger] name[j]) is Some by {
        let i = j / 2;
        assert(hex_value(name[2 * i]) == Some(hash[i] >> 4));
        assert(j == 2 * i || j == 2 * i + 1);
    }
    let parsed = parsed_name(name)->Some_0;
    assert forall|i: int| 0 <= i < 32 implies parsed[i] == hash[i] by {
        assert(hex_value(name[2 * i]) == Some(hash[i] >> 4));
        let byte = hash[i];
        assert((byte >> 4) * 16 + (byte & 0xf) == byte) by (bit_vector);
    }
    assert(parsed =~= hash);
}

/// Each of the sixteen digits has its position as its value.
proof fn lemma_digit_value(nibble: u8)
    requires
        nibble < 16,
    ensures
        hex_value(hex_digits()[nibble as int]) == Some(nibble),
        hex_digits()[nibble as int] != 'x',
        hex_digits()[nibble as int] != 'X',
{
    let digits = hex_digits();
    assert(digits[0] == '0' && digits[1] == '1' && digits[2] == '2' && digits[3] == '3'
        && digits[4] == '4' && digits[5] == '5' && digits[6] == '6' && digits[7] == '7'
        && digits[8] == '8' && digits[9] == '9' && digits[10] == 'a' && digits[11] == 'b'
        && digits[12] == 'c' && digits[13] == 'd' && digits[14] == 'e' && digits[15] == 'f');
}

/// Calls `const_hex::encode`, which writes every byte as two lowercase
/// hexadecimal digits.
#[verifier::external_body]
fn hex_encode(data: &[u8]) -> (text: String)
    ensures
        text@ == hex_lower(data@),
{
    const_hex::encode(data)
}

/// Calls `const_hex::decode_to_slice` with room for 32 bytes, which succeeds
/// exactly on 64 hexadecimal digits of either case, with or without a
/// leading `0x`, and then gives the bytes they stand for.
#[verifier::external_body]
fn hex_decode(name: &str) -> (hash: Option<[u8; 32]>)
    ensures
        match hash {
            Some(bytes) => parsed_name(name@) == Some(bytes@),
            None => parsed_name(name@) is None,
        },
{
    let mut hash = [0u8; 32];
    match const_hex::decode_to_slice(name, &mut hash) {
        Ok(()) => Some(hash),
        Err(_) => None,
    }
}

/// Where a blob that is handed to the store goes.
pub struct Placement {
    /// The hash of the blob's content.
    pub hash: [u8; 32],
    /// The name of the blob's file within the directory.
    pub file_name: String,
}

/// A store of blobs in the directory `base_path`.
pub struct DirectoryCas {
    base_path: String,
}

impl DirectoryCas {
    /// The directory of the store.
    pub closed spec fn base(&self) -> Seq<char> {
        self.base_path@
    }

    /// A store in the directory `base_path`.
    pub fn new(base_path: String) -> (store: Self)
        ensures
            store.base() == base_path@,
    {
        DirectoryCas { base_path }
    }

    /// The directory of the store.
    pub fn base_path(&self) -> (path: &str)
        ensures
            path@ == self.base(),
    {
        self.base_path.as_str()
    }

    /// The name, within the directory, of the file of the blob with the
    /// given hash.
    pub fn file_name(hash: &[u8; 32]) -> (name: String)
        ensures
            name@ == hex_lower(hash@),
            parsed_name(name@) == Some(hash@),
    {
        proof {
            lemma_name_round_trip(hash@);
        }
        hex_encode(hash.as_slice())
    }

    /// The hash that a file name stands for, or `None` if the file is not a
    /// blob of the store.
    pub fn hash_of_name(name: &str) -> (hash: Option<[u8; 32]>)
        ensures
            match hash {
                Some(bytes) => parsed_name(name@) == Some(bytes@),
                None => parsed_name(name@) is None,
            },
    {
        hex_decode(name)
    }

    /// The hashes of a listing of the directory: entries whose names are not
    /// hashes are passed over.
    pub fn list(names: &Vec<String>) -> (hashes: Vec<[u8; 32]>)
        ensures
            hashes@.map_values(|hash: [u8; 32]| hash@) == parsed_names(
                names@.map_values(|name: String| name@),
            ),
    {
        let ghost all = names@.map_values(|name: String| name@);
        let mut hashes: Vec<[u8; 32]> = Vec::new();
        let mut i: usize = 0;
        while i < names.len()
            invariant
                i <= names@.len(),
                all == names@.map_values(|name: String| name@),
                hashes@.map_values(|hash: [u8; 32]| hash@) == parsed_names(all.take(i as int)),
            decreases names@.len() - i,
        {
            let ghost before = hashes@.map_values(|hash: [u8; 32]| hash@);
            proof {
                assert(all.take(i + 1).drop_last() =~= all.take(i as int));
                assert(all.take(i + 1).last() == names@[i as int]@);
            }
            match Self::hash_of_name(names[i].as_str()) {
                Some(hash) => {
                    hashes.push(hash);
                    assert(hashes@.map_values(|hash: [u8; 32]| hash@) =~= before.push(hash@));
                },
                None => {},
            }
            i = i + 1;
        }
        assert(all.take(i as int) =~= all);
        hashes
    }

    /// Where a blob goes: the hash of its content and the name of its file.
    /// Equal blobs go to the same file, so that a blob whose file exists
    /// need not be written again.
    pub fn store(bytes: &[u8]) -> (placement: Placement)
        ensures
            placement.hash@ == blake3_hash(bytes@),
            placement.file_name@ == hex_lower(placement.hash@),
            parsed_name(placement.file_name@) == Some(placement.hash@),
    {
        let hash = hash(bytes);
        let file_name = Self::file_name(&hash);
        Placement { hash, file_name }
    }
}

} // verus!
