//! Builds the archive header: the wrapped file key for every recipient, the
//! encrypted identity of the sender, and the MAC over all of it.

use vstd::prelude::*;
use vstd::bytes::{spec_u32_to_le_bytes, u32_to_le_bytes};

use crate::chacha20_blake3::{apply_cipher, auth_tag, ChaChaBlake3};
use crate::common::{
    BAKPAK_MAGIC, HEADER_MAC_KEY_CTX, PAYLOAD_ENCRYPTION_KEY_CTX, RECIPIENT_MAC_KEY_CTX,
    SENDER_ENCRYPTION_KEY_CTX, WRAP_KEY_CTX,
};
use crate::error::Error;
use crate::primitives::{
    blake3_derive_key, blake3_keyed_hash, derive_key, ed25519_public_key, ed25519_verifying_key,
    keyed_hash, random_key, wipe, x25519_diffie_hellman, x25519_public, x25519_public_key,
    x25519_shared_secret, zeros,
};
use crate::stream_writer::{StreamView, StreamWriter};

verus! {

/// The key under which the sender's identity is encrypted.
pub open spec fn sender_encryption_key(file_key: Seq<u8>) -> Seq<u8> {
    blake3_derive_key(SENDER_ENCRYPTION_KEY_CTX@, file_key)
}

/// The key of the MAC over the header.
pub open spec fn header_mac_key(file_key: Seq<u8>) -> Seq<u8> {
    blake3_derive_key(HEADER_MAC_KEY_CTX@, file_key)
}

/// The key under which the payload segments are encrypted.
pub open spec fn payload_encryption_key(file_key: Seq<u8>) -> Seq<u8> {
    blake3_derive_key(PAYLOAD_ENCRYPTION_KEY_CTX@, file_key)
}

/// The identifier under which `recipient` finds its entry.
pub open spec fn recipient_id(ephemeral: Seq<u8>, recipient: Seq<u8>) -> Seq<u8> {
    blake3_keyed_hash(
        blake3_derive_key(RECIPIENT_MAC_KEY_CTX@, x25519_shared_secret(ephemeral, recipient)),
        recipient,
    )
}

/// The key that wraps the file key for `recipient`.
pub open spec fn wrap_key(ephemeral: Seq<u8>, recipient: Seq<u8>) -> Seq<u8> {
    blake3_derive_key(WRAP_KEY_CTX@, x25519_shared_secret(ephemeral, recipient))
}

/// `plaintext` encrypted under `key` with the all-zero nonce and no
/// associated data, followed by its tag.
pub open spec fn sealed(key: Seq<u8>, plaintext: Seq<u8>) -> Seq<u8> {
    let ciphertext = apply_cipher(key, zeros(12), plaintext);
    ciphertext + auth_tag(key, zeros(12), Seq::<u8>::empty(), ciphertext)
}

/// The header entry of one recipient: its identifier, then the wrapped file key.
pub open spec fn recipient_entry(file_key: Seq<u8>, ephemeral: Seq<u8>, recipient: Seq<u8>) -> Seq<u8> {
    recipient_id(ephemeral, recipient) + sealed(wrap_key(ephemeral, recipient), file_key)
}

/// The entries of all recipients, in the order given.
pub open spec fn recipient_entries(
    file_key: Seq<u8>,
    ephemeral: Seq<u8>,
    recipients: Seq<Seq<u8>>,
) -> Seq<u8>
    decreases recipients.len(),
{
    if recipients.len() == 0 {
        Seq::<u8>::empty()
    } else {
        recipient_entries(file_key, ephemeral, recipients.drop_last()) + recipient_entry(
            file_key,
            ephemeral,
            recipients.last(),
        )
    }
}

/// Everything in the header that the header MAC covers.
pub open spec fn header_body(
    file_key: Seq<u8>,
    ephemeral: Seq<u8>,
    sender_public: Seq<u8>,
    recipients: Seq<Seq<u8>>,
) -> Seq<u8> {
    BAKPAK_MAGIC@ + spec_u32_to_le_bytes(recipients.len() as u32) + x25519_public_key(ephemeral)
        + recipient_entries(file_key, ephemeral, recipients) + sealed(
        sender_encryption_key(file_key),
        sender_public,
    )
}

/// The complete header: the body, then the MAC of the body.
pub open spec fn header_bytes(
    file_key: Seq<u8>,
    ephemeral: Seq<u8>,
    sender_public: Seq<u8>,
    recipients: Seq<Seq<u8>>,
) -> Seq<u8> {
    let body = header_body(file_key, ephemeral, sender_public, recipients);
    body + blake3_keyed_hash(header_mac_key(file_key), body)
}

/// Length of the header of an archive for `recipients` recipients.
pub open spec fn header_size(recipients: nat) -> nat {
    4 + 4 + 32 + recipients * (32 + 32 + 32) + 32 + 32 + 32
}

/// The recipients' public shares as byte sequences.
pub open spec fn recipient_keys(recipients: Seq<[u8; 32]>) -> Seq<Seq<u8>> {
    recipients.map_values(|r: [u8; 32]| r@)
}

/// Holds the finished header and the keys that the payload stream needs.
pub struct Encryptor {
    header: Vec<u8>,
    signing_key: [u8; 32],
    payload_encryption_key: [u8; 32],
}

impl Encryptor {
    /// The header bytes.
    pub closed spec fn header(&self) -> Seq<u8> {
        self.header@
    }

    /// The sender's Ed25519 secret key.
    pub closed spec fn signing_key(&self) -> Seq<u8> {
        self.signing_key@
    }

    /// The key of the payload segments.
    pub closed spec fn payload_key(&self) -> Seq<u8> {
        self.payload_encryption_key@
    }

    /// Whether this is the encryptor that `file_key` and `ephemeral` give for
    /// the sender and recipients.
    pub open spec fn built_from(
        &self,
        file_key: Seq<u8>,
        ephemeral: Seq<u8>,
        sender: Seq<u8>,
        recipients: Seq<Seq<u8>>,
    ) -> bool {
        &&& self.header() == header_bytes(
            file_key,
            ephemeral,
            ed25519_public_key(sender),
            recipients,
        )
        &&& self.header().len() == header_size(recipients.len())
        &&& self.signing_key() == sender
        &&& self.payload_key() == payload_encryption_key(file_key)
    }

    /// An encryptor with a file key and an ephemeral secret drawn from the
    /// operating system's random number generator.
    ///
    /// Fails with `TooManyRecipients` exactly when there are more than
    /// `u32::MAX` recipients, and with `Io` only when the generator fails.
    pub fn new(sender: &[u8; 32], recipients: &[[u8; 32]]) -> (res: Result<Encryptor, Error>)
        ensures
            res matches Err(Error::TooManyRecipients) <==> recipients@.len() > u32::MAX,
            res matches Err(e) ==> e is TooManyRecipients || e is Io,
            res matches Ok(encryptor) ==> exists|file_key: Seq<u8>, ephemeral: Seq<u8>|
                encryptor.built_from(file_key, ephemeral, sender@, recipient_keys(recipients@)),
    {
        if recipients.len() > u32::MAX as usize {
            return Err(Error::TooManyRecipients);
        }
        let file_key = match random_key() {
            Ok(key) => key,
            Err(err) => {
                return Err(Error::Io(err));
            },
        };
        let ephemeral = match random_key() {
            Ok(key) => key,
            Err(err) => {
                return Err(Error::Io(err));
            },
        };
        let res = Encryptor::with_random(file_key, ephemeral, sender, recipients);
        proof {
            if res is Ok {
                assert(res->Ok_0.built_from(
                    file_key@,
                    ephemeral@,
                    sender@,
                    recipient_keys(recipients@),
                ));
            }
        }
        res
    }

    /// An encryptor built from the given randomness: `file_key` is the root
    /// secret of the archive, `ephemeral_secret` the X25519 secret whose
    /// public share goes into the header.
    ///
    /// Fails with `TooManyRecipients` exactly when there are more than
    /// `u32::MAX` recipients; otherwise the header is laid out as the format
    /// prescribes. Both secrets are wiped before returning.
    pub fn with_random(
        file_key: [u8; 32],
        ephemeral_secret: [u8; 32],
        sender: &[u8; 32],
        recipients: &[[u8; 32]],
    ) -> (res: Result<Encryptor, Error>)
        ensures
            recipients@.len() > u32::MAX ==> res matches Err(Error::TooManyRecipients),
            recipients@.len() <= u32::MAX ==> res is Ok && res->Ok_0.built_from(
                file_key@,
                ephemeral_secret@,
                sender@,
                recipient_keys(recipients@),
            ),
    {
        if recipients.len() > u32::MAX as usize {
            return Err(Error::TooManyRecipients);
        }
        let mut file_key = file_key;
        let mut ephemeral_secret = ephemeral_secret;
        let ghost fk = file_key@;
        let ghost eph = ephemeral_secret@;
        let ghost keys = recipient_keys(recipients@);

        let mut sender_encryption_key = derive_key(SENDER_ENCRYPTION_KEY_CTX, file_key.as_slice());
        let mut header_mac_key = derive_key(HEADER_MAC_KEY_CTX, file_key.as_slice());
        let payload_encryption_key = derive_key(PAYLOAD_ENCRYPTION_KEY_CTX, file_key.as_slice());

        let nonce = [0u8; 12];
        let no_data: [u8; 0] = [];
        assert(nonce@ =~= zeros(12));
        assert(no_data@ =~= Seq::<u8>::empty());

        let mut header: Vec<u8> = Vec::new();
        header.extend_from_slice(BAKPAK_MAGIC.as_slice());
        let count = u32_to_le_bytes(recipients.len() as u32);
        header.extend_from_slice(count.as_slice());
        let ephemeral_share = x25519_public(&ephemeral_secret);
        header.extend_from_slice(ephemeral_share.as_slice());
        let ghost prefix = header@;

        let mut i: usize = 0;
        while i < recipients.len()
            invariant
                i <= recipients.len(),
                recipients@.len() <= u32::MAX,
                keys == recipient_keys(recipients@),
                file_key@ == fk,
                ephemeral_secret@ == eph,
                nonce@ == zeros(12),
                no_data@ == Seq::<u8>::empty(),
                prefix.len() == 40,
                header@ == prefix + recipient_entries(fk, eph, keys.take(i as int)),
                header@.len() == 40 + i * 96,
            decreases recipients.len() - i,
        {
            let recipient = &recipients[i];
            let mut shared_secret = x25519_diffie_hellman(&ephemeral_secret, recipient);
            let mut recipient_mac_key = derive_key(RECIPIENT_MAC_KEY_CTX, shared_secret.as_slice());
            let recipient_id = keyed_hash(&recipient_mac_key, recipient.as_slice());
            wipe(&mut recipient_mac_key);

            let mut wrapping_key = derive_key(WRAP_KEY_CTX, shared_secret.as_slice());
            wipe(&mut shared_secret);
            let mut cipher = ChaChaBlake3::new(&wrapping_key);
            wipe(&mut wrapping_key);

            let mut wrapped_key = file_key;
            let sealing = cipher.encrypt_in_place_detached(
                &nonce,
                no_data.as_slice(),
                &mut wrapped_key,
            );
            cipher.zeroize();
            let tag = match sealing {
                Ok(tag) => tag,
                Err(err) => {
                    return Err(err);
                },
            };

            header.extend_from_slice(recipient_id.as_slice());
            header.extend_from_slice(wrapped_key.as_slice());
            header.extend_from_slice(tag.as_slice());

            proof {
                let next = keys.take(i + 1);
                assert(next.drop_last() =~= keys.take(i as int));
                assert(next.last() == recipients@[i as int]@);
                assert(wrapped_key@ + tag@ == sealed(wrap_key(eph, recipient@), fk));
                assert(header@ =~= prefix + recipient_entries(fk, eph, next));
            }
            i += 1;
        }
        assert(keys.take(i as int) =~= keys);
        wipe(&mut ephemeral_secret);

        let mut sender_id = ed25519_verifying_key(sender);
        let mut cipher = ChaChaBlake3::new(&sender_encryption_key);
        wipe(&mut sender_encryption_key);
        let sealing = cipher.encrypt_in_place_detached(&nonce, no_data.as_slice(), &mut sender_id);
        cipher.zeroize();
        let sender_id_tag = match sealing {
            Ok(tag) => tag,
            Err(err) => {
                return Err(err);
            },
        };
        wipe(&mut file_key);
        header.extend_from_slice(sender_id.as_slice());
        header.extend_from_slice(sender_id_tag.as_slice());
        let ghost body = header@;
        assert(body =~= header_body(fk, eph, ed25519_public_key(sender@), keys));
        assert(body.len() == 40 + recipients@.len() * 96 + 64);

        let header_mac = keyed_hash(&header_mac_key, header.as_slice());
        wipe(&mut header_mac_key);
        header.extend_from_slice(header_mac.as_slice());
        assert(header@ =~= body + header_mac@);
        assert(keys.len() == recipients@.len());

        Ok(Encryptor { header, signing_key: *sender, payload_encryption_key })
    }

    /// The header bytes, which open the archive.
    pub fn header_bytes(&self) -> (bytes: &[u8])
        ensures
            bytes@ == self.header(),
    {
        self.header.as_slice()
    }

    /// Turns the encryptor into the header, which has to be written first,
    /// and the writer for the payload that follows it.
    ///
    /// The writer has to be ended with `StreamWriter::finish`; an archive
    /// without its last frame is truncated and will not decrypt.
    pub fn wrap_output(self) -> (res: (Vec<u8>, StreamWriter))
        ensures
            res.0@ == self.header(),
            res.1.wf(),
            res.1.pending() == Seq::<u8>::empty(),
            res.1.stream() == (StreamView {
                signing_key: self.signing_key(),
                encryption_key: self.payload_key(),
                payload: Seq::empty(),
            }),
    {
        let Encryptor { header, mut signing_key, mut payload_encryption_key } = self;
        let writer = StreamWriter::new(&signing_key, &payload_encryption_key);
        wipe(&mut signing_key);
        wipe(&mut payload_encryption_key);
        (header, writer)
    }

    /// Overwrites the keys with zeros; the header stays.
    pub fn zeroize(&mut self)
        ensures
            final(self).header() == old(self).header(),
            final(self).signing_key() == zeros(32),
            final(self).payload_key() == zeros(32),
    {
        wipe(&mut self.signing_key);
        wipe(&mut self.payload_encryption_key);
    }
}

} // verus!
