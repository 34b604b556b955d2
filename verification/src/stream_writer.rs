//! The payload of an archive: the input is cut into segments of 64 KiB, and
//! every segment is signed, encrypted and emitted as one frame.
//!
//! Nothing here writes. `StreamState` turns input into frames, and
//! `StreamWriter` keeps the frame that the downstream writer has not yet
//! taken in full; whoever owns that writer offers it the pending bytes and
//! reports how many it accepted.

use vstd::prelude::*;
use vstd::bytes::{
    spec_u16_to_le_bytes, spec_u64_to_le_bytes, spec_u64_to_le_bytes_to_open, u16_to_le_bytes,
    u64_to_le_bytes,
};
use vstd::slice::slice_subrange;

use crate::chacha20_blake3::{apply_cipher, auth_tag, ChaChaBlake3};
use crate::error::Error;
use crate::primitives::{
    blake3_hash, ed25519_sign, ed25519_signature, hash, wipe, write_zero, zeros,
};
use crate::segment::{
    frame_as_mut_slice, frame_as_slice, frame_bytes, frame_extend, frame_len, frame_new,
    frame_wipe, Segment, SEGMENT_SIZE,
};

verus! {

/// The 15 bytes `bakpak segment` and a trailing NUL that open everything a
/// segment signature covers.
pub const SIGNATURE_DOMAIN: [u8; 15] = [
    0x62u8, 0x61u8, 0x6bu8, 0x70u8, 0x61u8, 0x6bu8, 0x20u8, 0x73u8,
    0x65u8, 0x67u8, 0x6du8, 0x65u8, 0x6eu8, 0x74u8, 0x00u8,
];

/// The first segment count that no nonce can carry.
pub const SEGMENT_LIMIT: u64 = 0x8000_0000_0000_0000;

/// The 64-bit value that a nonce carries: the segment count in the low 63
/// bits, the last-segment flag in the top bit.
pub open spec fn nonce_value(segment_count: u64, last_segment: bool) -> u64 {
    (segment_count & 0x7fff_ffff_ffff_ffffu64) | (if last_segment {
        0x8000_0000_0000_0000u64
    } else {
        0u64
    })
}

/// The nonce of a segment: four zero bytes, then the nonce value in
/// little-endian order.
pub open spec fn nonce_bytes(segment_count: u64, last_segment: bool) -> Seq<u8> {
    zeros(4) + spec_u64_to_le_bytes(nonce_value(segment_count, last_segment))
}

/// The padding that fills the last `to_pad` bytes of the last segment: a
/// short pad ends in its own length, a long pad in its length as two
/// little-endian bytes and a zero byte.
pub open spec fn padding(to_pad: nat) -> Seq<u8> {
    if to_pad <= 255 {
        zeros((to_pad - 1) as nat) + seq![to_pad as u8]
    } else {
        zeros((to_pad - 3) as nat) + spec_u16_to_le_bytes((to_pad % 65536) as u16) + seq![0u8]
    }
}

/// The last segment's plaintext, padded to the full segment size.
pub open spec fn padded(plaintext: Seq<u8>) -> Seq<u8> {
    plaintext + padding((65536 - plaintext.len()) as nat)
}

/// The pad length that a reader takes from the end of a padded segment: the
/// last byte if it is not zero, else the two bytes before it.
pub open spec fn decoded_padding(segment: Seq<u8>) -> nat {
    let last = segment[segment.len() - 1];
    if last != 0 {
        last as nat
    } else {
        vstd::bytes::spec_u16_from_le_bytes(
            segment.subrange(segment.len() - 3, segment.len() - 1),
        ) as nat
    }
}

/// What the signature of a segment covers: the domain, the payload key, the
/// nonce and the hash of the plaintext.
pub open spec fn signature_base(encryption_key: Seq<u8>, nonce: Seq<u8>, plaintext: Seq<u8>) -> Seq<u8> {
    SIGNATURE_DOMAIN@ + encryption_key + nonce + blake3_hash(plaintext)
}

/// The frame of a segment: plaintext and signature, encrypted under the
/// segment's nonce, followed by the tag.
pub open spec fn sealed_frame(
    signing_key: Seq<u8>,
    encryption_key: Seq<u8>,
    segment_count: u64,
    last_segment: bool,
    plaintext: Seq<u8>,
) -> Seq<u8> {
    let nonce = nonce_bytes(segment_count, last_segment);
    let signature = ed25519_signature(
        signing_key,
        signature_base(encryption_key, nonce, plaintext),
    );
    let ciphertext = apply_cipher(encryption_key, nonce, plaintext + signature);
    ciphertext + auth_tag(encryption_key, nonce, Seq::<u8>::empty(), ciphertext)
}

/// A payload stream as mathematical values.
pub struct StreamView {
    /// The sender's Ed25519 secret key.
    pub signing_key: Seq<u8>,
    /// The key of the payload segments.
    pub encryption_key: Seq<u8>,
    /// Every byte written so far.
    pub payload: Seq<u8>,
}

impl StreamView {
    /// Number of segments that are complete, which is also the count of the
    /// segment under construction.
    pub open spec fn segment_count(self) -> nat {
        self.payload.len() / 65536
    }

    /// The bytes of the segment under construction.
    pub open spec fn buffered(self) -> Seq<u8> {
        self.payload.skip(self.segment_count() as int * 65536)
    }

    /// The plaintext of the complete segment number `index`.
    pub open spec fn segment(self, index: nat) -> Seq<u8> {
        self.payload.subrange(index as int * 65536, (index as int + 1) * 65536)
    }

    /// The frame of the complete segment number `index`.
    pub open spec fn frame(self, index: nat) -> Seq<u8> {
        sealed_frame(
            self.signing_key,
            self.encryption_key,
            index as u64,
            false,
            self.segment(index),
        )
    }

    /// The frame that ends the stream: the padded rest of the payload,
    /// sealed with the last-segment flag.
    pub open spec fn last_frame(self) -> Seq<u8> {
        sealed_frame(
            self.signing_key,
            self.encryption_key,
            self.segment_count() as u64,
            true,
            padded(self.buffered()),
        )
    }

    /// The stream after `bytes` more have been written.
    pub open spec fn extended(self, bytes: Seq<u8>) -> StreamView {
        StreamView { payload: self.payload + bytes, ..self }
    }
}

/// The number of frames of a payload: one for every complete segment and
/// one that ends the stream. That is one frame for an empty payload, and
/// the number of segments begun for a payload that does not end on a segment
/// boundary; a payload that does is followed by a frame of padding only.
pub proof fn lemma_frame_count(stream: StreamView)
    ensures
        stream.payload.len() == 0 ==> stream.segment_count() + 1 == 1,
        stream.payload.len() % 65536 != 0 ==> stream.segment_count() + 1 == (
        stream.payload.len() + 65535) / 65536,
        stream.payload.len() % 65536 == 0 ==> stream.segment_count() + 1 == (
        stream.payload.len() + 65535) / 65536 + 1,
        stream.buffered().len() == stream.payload.len() % 65536,
{
}

/// The top bit of the last nonce byte tells whether the segment is the last.
pub proof fn lemma_nonce_flag(segment_count: u64, last_segment: bool)
    ensures
        nonce_bytes(segment_count, last_segment).len() == 12,
        nonce_bytes(segment_count, last_segment)[11] >= 0x80 <==> last_segment,
{
    let value = nonce_value(segment_count, last_segment);
    spec_u64_to_le_bytes_to_open(value);
    let top = ((value >> 56) & 0xff) as u8;
    assert(spec_u64_to_le_bytes(value)[7] == top);
    assert(nonce_bytes(segment_count, last_segment)[11] == top);
    let flag = if last_segment {
        0x8000_0000_0000_0000u64
    } else {
        0u64
    };
    assert((((((segment_count & 0x7fff_ffff_ffff_ffffu64) | flag) >> 56) & 0xff) as u8 >= 0x80)
        <==> flag == 0x8000_0000_0000_0000u64) by (bit_vector)
        requires
            flag == 0x8000_0000_0000_0000u64 || flag == 0u64,
    ;
}

/// Segments with different counts below 2^63, or of which only one is the
/// last, have different nonce values.
pub proof fn lemma_nonce_values_differ(first: u64, first_last: bool, second: u64, second_last: bool)
    requires
        first < 0x8000_0000_0000_0000,
        second < 0x8000_0000_0000_0000,
        first != second || first_last != second_last,
    ensures
        nonce_value(first, first_last) != nonce_value(second, second_last),
{
    let a = if first_last {
        0x8000_0000_0000_0000u64
    } else {
        0u64
    };
    let b = if second_last {
        0x8000_0000_0000_0000u64
    } else {
        0u64
    };
    assert(((first & 0x7fff_ffff_ffff_ffffu64) | a) == ((second & 0x7fff_ffff_ffff_ffffu64) | b)
        ==> first == second && a == b) by (bit_vector)
        requires
            first < 0x8000_0000_0000_0000u64,
            second < 0x8000_0000_0000_0000u64,
            a == 0x8000_0000_0000_0000u64 || a == 0u64,
            b == 0x8000_0000_0000_0000u64 || b == 0u64,
    ;
}

/// Padding fills a segment exactly, and the pad length can be read back
/// from its end. A pad of the whole segment, 65536 bytes, is read back as 0:
/// its length does not fit the two bytes that carry it.
pub proof fn lemma_padding_decodes(plaintext: Seq<u8>)
    requires
        plaintext.len() < 65536,
    ensures
        padded(plaintext).len() == 65536,
        padded(plaintext).subrange(0, plaintext.len() as int) == plaintext,
        decoded_padding(padded(plaintext)) == (65536 - plaintext.len()) % 65536,
{
    let to_pad = (65536 - plaintext.len()) as nat;
    let whole = padded(plaintext);
    vstd::bytes::lemma_auto_spec_u16_to_from_le_bytes();
    assert(whole.subrange(0, plaintext.len() as int) =~= plaintext);
    if to_pad <= 255 {
        assert(whole[whole.len() - 1] == to_pad as u8);
    } else {
        let length = spec_u16_to_le_bytes((to_pad % 65536) as u16);
        assert(length.len() == 2);
        assert(whole[whole.len() - 1] == 0u8);
        assert(whole.subrange(whole.len() - 3, whole.len() - 1) =~= length);
    }
}

/// The state of a payload stream: the keys, the count of the segment under
/// construction, and its bytes so far.
pub struct StreamState {
    signing_key: [u8; 32],
    encryption_key: [u8; 32],
    segment_count: u64,
    segment: Segment,
    payload: Ghost<Seq<u8>>,
}

impl View for StreamState {
    type V = StreamView;

    closed spec fn view(&self) -> StreamView {
        StreamView {
            signing_key: self.signing_key@,
            encryption_key: self.encryption_key@,
            payload: self.payload@,
        }
    }
}

impl StreamState {
    /// The invariant of the state: the counter and the buffer agree with the
    /// bytes written so far, and the buffer has room for at least one byte.
    pub closed spec fn wf(&self) -> bool {
        &&& self.segment_count == self@.segment_count()
        &&& self.segment_count <= SEGMENT_LIMIT
        &&& frame_bytes(self.segment) == self@.buffered()
    }

    /// A stream that nothing has been written to.
    pub fn new(signing_key: &[u8; 32], encryption_key: &[u8; 32]) -> (state: StreamState)
        ensures
            state.wf(),
            state@ == (StreamView {
                signing_key: signing_key@,
                encryption_key: encryption_key@,
                payload: Seq::empty(),
            }),
    {
        let state = StreamState {
            signing_key: *signing_key,
            encryption_key: *encryption_key,
            segment_count: 0,
            segment: frame_new(),
            payload: Ghost(Seq::empty()),
        };
        assert(state@.buffered() =~= Seq::<u8>::empty());
        state
    }

    /// Overwrites both keys and the segment buffer with zeros. What is left
    /// is a stream under all-zero keys that nothing has been written to.
    pub fn zeroize(&mut self)
        ensures
            final(self).wf(),
            final(self)@ == (StreamView {
                signing_key: zeros(32),
                encryption_key: zeros(32),
                payload: Seq::empty(),
            }),
    {
        wipe(&mut self.signing_key);
        wipe(&mut self.encryption_key);
        frame_wipe(&mut self.segment);
        self.segment_count = 0;
        self.payload = Ghost(Seq::empty());
        assert(self@.buffered() =~= Seq::<u8>::empty());
    }

    /// Takes as many bytes of `buf` as the segment under construction has
    /// room for. Returns their number and, if they complete the segment,
    /// its frame.
    ///
    /// Fails, taking nothing, exactly when the bytes would complete a segment
    /// whose count no nonce can carry.
    pub fn write(&mut self, buf: &[u8]) -> (res: Result<(usize, Option<Segment>), Error>)
        requires
            old(self).wf(),
        ensures
            final(self).wf(),
            res is Err <==> old(self)@.buffered().len() + buf@.len() >= 65536
                && old(self)@.segment_count() >= SEGMENT_LIMIT,
            res is Err ==> (res matches Err(Error::EncryptionError))
                && final(self)@ == old(self)@,
            res matches Ok((len, frame)) ==> {
                &&& len == if old(self)@.buffered().len() + buf@.len() >= 65536 {
                    65536 - old(self)@.buffered().len()
                } else {
                    buf@.len() as int
                }
                &&& buf@.len() > 0 ==> len > 0
                &&& final(self)@ == old(self)@.extended(buf@.take(len as int))
                &&& frame is Some <==> final(self)@.segment_count() == old(self)@.segment_count()
                    + 1
                &&& frame is None <==> final(self)@.segment_count() == old(self)@.segment_count()
                &&& frame matches Some(sealed) ==> frame_bytes(sealed) == final(self)@.frame(
                    old(self)@.segment_count(),
                ) && frame_bytes(sealed).len() == 65632
            },
    {
        let ghost before = self@;
        let held = frame_len(&self.segment);
        let capacity = SEGMENT_SIZE - held;
        let len = if buf.len() < capacity {
            buf.len()
        } else {
            capacity
        };
        if len == capacity && self.segment_count >= SEGMENT_LIMIT {
            return Err(Error::EncryptionError);
        }
        let taken = slice_subrange(buf, 0, len);
        let fits = frame_extend(&mut self.segment, taken);
        assert(fits);
        proof {
            self.payload@ = self.payload@ + taken@;
            let count = before.segment_count();
            let now = self@;
            assert(before.payload.len() == count * 65536 + held);
            if len == capacity {
                assert(now.payload.len() == (count + 1) * 65536);
                assert(now.payload.subrange(count as int * 65536, (count as int + 1) * 65536)
                    =~= before.buffered() + taken@);
            } else {
                assert(now.segment_count() == count);
                assert(now.buffered() =~= before.buffered() + taken@);
            }
        }

        if len == capacity {
            let sealed = Self::signcrypt_segment(
                &self.signing_key,
                &self.encryption_key,
                self.segment_count,
                &mut self.segment,
                false,
            );
            self.segment_count = self.segment_count + 1;
            assert(self@.buffered() =~= Seq::<u8>::empty());
            Ok((len, Some(sealed)))
        } else {
            Ok((len, None))
        }
    }

    /// Pads the segment under construction and returns the frame that ends
    /// the stream.
    ///
    /// Fails exactly when no nonce can carry the count of the segment.
    pub fn finish(self) -> (res: Result<Segment, Error>)
        requires
            self.wf(),
        ensures
            res is Err <==> self@.segment_count() >= SEGMENT_LIMIT,
            res is Err ==> (res matches Err(Error::EncryptionError)),
            res matches Ok(sealed) ==> frame_bytes(sealed) == self@.last_frame() && frame_bytes(
                sealed,
            ).len() == 65632,
    {
        let mut state = self;
        if state.segment_count >= SEGMENT_LIMIT {
            state.zeroize();
            return Err(Error::EncryptionError);
        }
        let sealed = Self::signcrypt_segment(
            &state.signing_key,
            &state.encryption_key,
            state.segment_count,
            &mut state.segment,
            true,
        );
        state.zeroize();
        Ok(sealed)
    }

    /// The padding for a segment with `to_pad` bytes of room.
    fn padding_bytes(to_pad: usize) -> (pad: Vec<u8>)
        requires
            1 <= to_pad <= 65536,
        ensures
            pad@ == padding(to_pad as nat),
            pad@.len() == to_pad,
    {
        let zero_count = if to_pad <= 255 {
            to_pad - 1
        } else {
            to_pad - 3
        };
        let mut pad: Vec<u8> = Vec::new();
        let mut i: usize = 0;
        while i < zero_count
            invariant
                i <= zero_count,
                pad@ == zeros(i as nat),
            decreases zero_count - i,
        {
            pad.push(0u8);
            assert(pad@ =~= zeros((i + 1) as nat));
            i = i + 1;
        }
        if to_pad <= 255 {
            pad.push(to_pad as u8);
            assert(pad@ =~= padding(to_pad as nat));
        } else {
            let length = u16_to_le_bytes((to_pad % 65536) as u16);
            pad.extend_from_slice(length.as_slice());
            pad.push(0u8);
            assert(pad@ =~= padding(to_pad as nat));
        }
        pad
    }

    /// Fills what is left of the segment with padding.
    pub fn pad_segment(segment: &mut Segment)
        requires
            frame_bytes(*old(segment)).len() < 65536,
        ensures
            frame_bytes(*final(segment)) == padded(frame_bytes(*old(segment))),
            frame_bytes(*final(segment)).len() == 65536,
    {
        let to_pad = SEGMENT_SIZE - frame_len(segment);
        let pad = Self::padding_bytes(to_pad);
        let fits = frame_extend(segment, pad.as_slice());
        assert(fits);
    }

    /// Signs and encrypts the segment in `segment`, padding it first if it
    /// is the last, and returns the frame. The buffer is left empty.
    fn signcrypt_segment(
        signing_key: &[u8; 32],
        encryption_key: &[u8; 32],
        segment_count: u64,
        segment: &mut Segment,
        last_segment: bool,
    ) -> (sealed: Segment)
        requires
            last_segment ==> frame_bytes(*old(segment)).len() < 65536,
            !last_segment ==> frame_bytes(*old(segment)).len() == 65536,
        ensures
            frame_bytes(sealed) == sealed_frame(
                signing_key@,
                encryption_key@,
                segment_count,
                last_segment,
                if last_segment {
                    padded(frame_bytes(*old(segment)))
                } else {
                    frame_bytes(*old(segment))
                },
            ),
            frame_bytes(sealed).len() == 65632,
            frame_bytes(*final(segment)) == Seq::<u8>::empty(),
    {
        if last_segment {
            Self::pad_segment(segment);
        }
        let ghost plaintext = frame_bytes(*segment);
        let nonce = Self::nonce(segment_count, last_segment);

        // 15 bytes signature domain, 32 bytes key, 12 bytes nonce, 32 bytes content hash
        let mut signed: Vec<u8> = Vec::new();
        signed.extend_from_slice(SIGNATURE_DOMAIN.as_slice());
        signed.extend_from_slice(encryption_key.as_slice());
        signed.extend_from_slice(nonce.as_slice());
        let content_hash = hash(frame_as_slice(segment));
        signed.extend_from_slice(content_hash.as_slice());
        assert(signed@ =~= signature_base(encryption_key@, nonce@, plaintext));

        let signature = ed25519_sign(signing_key, signed.as_slice());
        wipe(signed.as_mut_slice());
        let fits = frame_extend(segment, signature.as_slice());
        assert(fits);

        let mut cipher = ChaChaBlake3::new(encryption_key);
        let no_data: [u8; 0] = [];
        assert(no_data@ =~= Seq::<u8>::empty());
        let sealing = cipher.encrypt_in_place_detached(
            &nonce,
            no_data.as_slice(),
            frame_as_mut_slice(segment),
        );
        cipher.zeroize();
        let tag = match sealing {
            Ok(tag) => tag,
            Err(_) => {
                proof {
                    assert(false);
                }
                vstd::pervasive::unreached()
            },
        };
        let fits = frame_extend(segment, tag.as_slice());
        assert(fits);

        let mut sealed = frame_new();
        core::mem::swap(segment, &mut sealed);
        sealed
    }

    /// Room left in the segment under construction, which is never zero.
    pub fn segment_capacity(&self) -> (capacity: usize)
        requires
            self.wf(),
        ensures
            capacity == 65536 - self@.buffered().len(),
            capacity > 0,
    {
        SEGMENT_SIZE - frame_len(&self.segment)
    }

    /// The nonce of the segment with the given count.
    pub fn nonce(counter: u64, last_segment: bool) -> (nonce: [u8; 12])
        ensures
            nonce@ == nonce_bytes(counter, last_segment),
    {
        let flag: u64 = if last_segment {
            0x8000_0000_0000_0000
        } else {
            0
        };
        let value = (counter & 0x7fff_ffff_ffff_ffff) | flag;
        let bytes = u64_to_le_bytes(value);
        let mut result = [0u8; 12];
        let mut i: usize = 0;
        while i < 8
            invariant
                i <= 8,
                bytes@.len() == 8,
                forall|j: int| 0 <= j < 4 ==> result@[j] == 0u8,
                forall|j: int| 0 <= j < i ==> result@[4 + j] == bytes@[j],
            decreases 8 - i,
        {
            result[4 + i] = bytes[i];
            i = i + 1;
        }
        assert(result@ =~= nonce_bytes(counter, last_segment));
        result
    }
}

/// The bytes of a frame that the downstream writer has not taken yet: the
/// frame from the saved position on.
pub open spec fn owed(pending: Option<(Segment, usize)>) -> Seq<u8> {
    match pending {
        Some((frame, pos)) => frame_bytes(frame).skip(pos as int),
        None => Seq::empty(),
    }
}

/// A payload stream together with the frame that is on its way to the
/// downstream writer.
pub struct StreamWriter {
    state: StreamState,
    pending_segment: Option<(Segment, usize)>,
}

impl StreamWriter {
    /// The payload stream.
    pub closed spec fn stream(&self) -> StreamView {
        self.state@
    }

    /// The bytes that the downstream writer has to take before more input
    /// is accepted.
    pub closed spec fn pending(&self) -> Seq<u8> {
        owed(self.pending_segment)
    }

    /// The invariant of the writer: a pending frame always has bytes left.
    pub closed spec fn wf(&self) -> bool {
        &&& self.state.wf()
        &&& match self.pending_segment {
            Some((frame, pos)) => pos < frame_bytes(frame).len(),
            None => true,
        }
    }

    /// A writer for a stream that nothing has been written to.
    pub fn new(signing_key: &[u8; 32], encryption_key: &[u8; 32]) -> (writer: StreamWriter)
        ensures
            writer.wf(),
            writer.pending() == Seq::<u8>::empty(),
            writer.stream() == (StreamView {
                signing_key: signing_key@,
                encryption_key: encryption_key@,
                payload: Seq::empty(),
            }),
    {
        StreamWriter { state: StreamState::new(signing_key, encryption_key), pending_segment: None }
    }

    /// The bytes to offer to the downstream writer next; empty when no frame
    /// is pending.
    pub fn pending_bytes(&self) -> (bytes: &[u8])
        requires
            self.wf(),
        ensures
            bytes@ == self.pending(),
    {
        match &self.pending_segment {
            Some((frame, pos)) => {
                let all = frame_as_slice(frame);
                assert(all@.subrange(*pos as int, all@.len() as int) =~= all@.skip(*pos as int));
                slice_subrange(all, *pos, all.len())
            },
            None => {
                let all: &[u8] = &[];
                assert(all@ =~= Seq::<u8>::empty());
                all
            },
        }
    }

    /// Records that the downstream writer accepted `written` of the pending
    /// bytes.
    ///
    /// Fails with a write-zero I/O error, changing nothing, exactly when bytes
    /// are pending and none was accepted.
    pub fn write_pending(&mut self, written: usize) -> (res: Result<(), Error>)
        requires
            old(self).wf(),
            written <= old(self).pending().len(),
        ensures
            final(self).wf(),
            final(self).stream() == old(self).stream(),
            res is Err <==> old(self).pending().len() > 0 && written == 0,
            res is Err ==> res->Err_0 is Io && final(self).pending() == old(self).pending(),
            res is Ok ==> final(self).pending() == old(self).pending().skip(written as int),
    {
        let done = match &mut self.pending_segment {
            Some((frame, pos)) => {
                if written == 0 {
                    return Err(Error::Io(write_zero()));
                }
                let ghost before = *pos;
                let total = frame_len(frame);
                *pos = *pos + written;
                assert(frame_bytes(*frame).skip(before as int).skip(written as int)
                    =~= frame_bytes(*frame).skip(*pos as int));
                *pos == total
            },
            None => {
                assert(Seq::<u8>::empty().skip(0) =~= Seq::<u8>::empty());
                false
            },
        };
        if done {
            self.pending_segment = None;
        }
        Ok(())
    }

    /// Takes input for the stream. Returns the number of bytes of `buf`
    /// taken, which is zero while a frame is pending. If the bytes complete a
    /// segment, its frame becomes pending.
    ///
    /// Fails, taking nothing, exactly when no frame is pending and the bytes
    /// would complete a segment whose count no nonce can carry.
    pub fn write(&mut self, buf: &[u8]) -> (res: Result<usize, Error>)
        requires
            old(self).wf(),
        ensures
            final(self).wf(),
            old(self).pending().len() > 0 ==> (res matches Ok(0))
                && final(self).pending() == old(self).pending()
                && final(self).stream() == old(self).stream(),
            old(self).pending().len() == 0 ==> {
                &&& res is Err <==> old(self).stream().buffered().len() + buf@.len() >= 65536
                    && old(self).stream().segment_count() >= SEGMENT_LIMIT
                &&& res is Err ==> (res matches Err(Error::EncryptionError))
                    && final(self).stream() == old(self).stream()
                    && final(self).pending().len() == 0
                &&& res matches Ok(len) ==> {
                    &&& len == if old(self).stream().buffered().len() + buf@.len() >= 65536 {
                        65536 - old(self).stream().buffered().len()
                    } else {
                        buf@.len() as int
                    }
                    &&& final(self).stream() == old(self).stream().extended(
                        buf@.take(len as int),
                    )
                    &&& final(self).pending() == if final(self).stream().segment_count()
                        == old(self).stream().segment_count() {
                        Seq::<u8>::empty()
                    } else {
                        final(self).stream().frame(old(self).stream().segment_count())
                    }
                    &&& final(self).pending().len() == 0 || final(self).pending().len() == 65632
                }
            },
    {
        if self.pending_segment.is_some() {
            return Ok(0);
        }
        match self.state.write(buf) {
            Err(err) => Err(err),
            Ok((consumed, frame)) => {
                match frame {
                    Some(sealed) => {
                        assert(frame_bytes(sealed).skip(0) =~= frame_bytes(sealed));
                        self.pending_segment = Some((sealed, 0));
                    },
                    None => {},
                }
                Ok(consumed)
            },
        }
    }

    /// Ends the stream. Returns the frame that is still pending, if any, and
    /// the last frame; the downstream writer has to take the rest of the
    /// former, then all of the latter.
    ///
    /// Fails exactly when no nonce can carry the count of the last segment.
    pub fn finish(self) -> (res: Result<(Option<(Segment, usize)>, Segment), Error>)
        requires
            self.wf(),
        ensures
            res is Err <==> self.stream().segment_count() >= SEGMENT_LIMIT,
            res is Err ==> (res matches Err(Error::EncryptionError)),
            res matches Ok((pending, last)) ==> owed(pending) == self.pending() && frame_bytes(
                last,
            ) == self.stream().last_frame() && frame_bytes(last).len() == 65632,
    {
        let StreamWriter { state, pending_segment } = self;
        match state.finish() {
            Ok(last) => Ok((pending_segment, last)),
            Err(err) => Err(err),
        }
    }

    /// Overwrites the keys and the segment buffer with zeros and drops the
    /// pending frame. What is left is a writer under all-zero keys that
    /// nothing has been written to.
    pub fn zeroize(&mut self)
        ensures
            final(self).wf(),
            final(self).pending() == Seq::<u8>::empty(),
            final(self).stream() == (StreamView {
                signing_key: zeros(32),
                encryption_key: zeros(32),
                payload: Seq::empty(),
            }),
    {
        self.state.zeroize();
        self.pending_segment = None;
    }
}

} // verus!
