use bakup::chacha20_blake3::ChaChaBlake3;
use bakup::common::BAKPAK_MAGIC;
use bakup::encryptor::Encryptor;
use bakup::error::Error;
use bakup::segment::{FRAME_SIZE, SEGMENT_SIZE};
use bakup::stream_writer::{StreamState, StreamWriter, SIGNATURE_DOMAIN};
use ed25519_dalek::{Signature, SigningKey, Verifier};

const FILE_KEY: [u8; 32] = [0x11; 32];
const EPHEMERAL: [u8; 32] = [0x22; 32];
const SENDER: [u8; 32] = [0x33; 32];

fn header_size(recipients: usize) -> usize {
    4 + 4 + 32 + recipients * (32 + 32 + 32) + 32 + 32 + 32
}

fn recipient(secret: [u8; 32]) -> [u8; 32] {
    x25519_dalek::PublicKey::from(&x25519_dalek::StaticSecret::from(secret)).to_bytes()
}

fn payload_key() -> [u8; 32] {
    blake3::derive_key("bakpak.rasen.dev 2025-11-01 payload encryption", &FILE_KEY)
}

/// Writes `payload` through a writer whose downstream takes everything, and
/// returns the header followed by the frames.
fn archive(recipients: &[[u8; 32]], payload: &[u8], step: usize) -> Vec<u8> {
    let encryptor = Encryptor::with_random(FILE_KEY, EPHEMERAL, &SENDER, recipients).unwrap();
    let (header, mut writer) = encryptor.wrap_output();
    let mut out = header;
    let mut pos = 0;
    while pos < payload.len() {
        let end = usize::min(payload.len(), pos + step);
        let taken = writer.write(&payload[pos..end]).unwrap();
        assert!(taken > 0);
        pos += taken;
        let pending = writer.pending_bytes().to_vec();
        out.extend_from_slice(&pending);
        writer.write_pending(pending.len()).unwrap();
        assert!(writer.pending_bytes().is_empty());
    }
    let (pending, last) = writer.finish().unwrap();
    assert!(pending.is_none());
    out.extend_from_slice(&last);
    out
}

/// Opens the frame with the given count and flag; returns its plaintext
/// after checking the signature.
fn open_frame(frame: &[u8], count: u64, last: bool) -> Option<Vec<u8>> {
    assert_eq!(frame.len(), FRAME_SIZE);
    let key = payload_key();
    let nonce = StreamState::nonce(count, last);
    let mut body = frame[..SEGMENT_SIZE + 64].to_vec();
    let tag: [u8; 32] = frame[SEGMENT_SIZE + 64..].try_into().unwrap();
    ChaChaBlake3::new(&key)
        .decrypt_in_place_detached(&nonce, &[], &mut body, &tag)
        .ok()?;
    let signature = Signature::from_bytes(body[SEGMENT_SIZE..].try_into().unwrap());
    let plaintext = body[..SEGMENT_SIZE].to_vec();
    let mut base = Vec::new();
    base.extend_from_slice(b"bakpak segment\0");
    base.extend_from_slice(&key);
    base.extend_from_slice(&nonce);
    base.extend_from_slice(blake3::hash(&plaintext).as_bytes());
    assert_eq!(base.len(), 91);
    SigningKey::from_bytes(&SENDER)
        .verifying_key()
        .verify(&base, &signature)
        .expect("the segment is signed by the sender");
    Some(plaintext)
}

/// The pad length at the end of a padded segment.
fn pad_length(segment: &[u8]) -> usize {
    let last = segment[segment.len() - 1];
    if last != 0 {
        last as usize
    } else {
        let low = segment[segment.len() - 3] as usize;
        let high = segment[segment.len() - 2] as usize;
        let length = low | high << 8;
        if length == 0 {
            65536
        } else {
            length
        }
    }
}

/// Opens all frames of an archive and returns the payload.
fn open_archive(archive: &[u8], recipients: usize) -> Vec<u8> {
    let frames = &archive[header_size(recipients)..];
    assert_eq!(frames.len() % FRAME_SIZE, 0);
    let count = frames.len() / FRAME_SIZE;
    let mut payload = Vec::new();
    for (i, frame) in frames.chunks(FRAME_SIZE).enumerate() {
        let last = i == count - 1;
        assert!(open_frame(frame, i as u64, !last).is_none(), "only the right flag opens a frame");
        let plaintext = open_frame(frame, i as u64, last).expect("frame opens");
        if last {
            let pad = pad_length(&plaintext);
            payload.extend_from_slice(&plaintext[..SEGMENT_SIZE - pad]);
        } else {
            payload.extend_from_slice(&plaintext);
        }
    }
    payload
}

#[test]
fn test_encryptor_constructor() {
    let sender = SigningKey::generate(&mut rand_core::OsRng);
    let recipients = vec![x25519_dalek::PublicKey::from(
        &x25519_dalek::StaticSecret::random_from_rng(rand_core::OsRng),
    )
    .to_bytes()];
    let encryptor = Encryptor::new(&sender.to_bytes(), &recipients);
    assert!(encryptor.is_ok());
}

#[test]
fn fresh_randomness_for_every_archive() {
    let first = Encryptor::new(&SENDER, &[]).unwrap();
    let second = Encryptor::new(&SENDER, &[]).unwrap();
    assert_eq!(first.header_bytes().len(), header_size(0));
    assert_ne!(first.header_bytes(), second.header_bytes());
}

#[test]
fn header_layout() {
    let secrets = [[0x44u8; 32], [0x55u8; 32]];
    let recipients = [recipient(secrets[0]), recipient(secrets[1])];
    let encryptor = Encryptor::with_random(FILE_KEY, EPHEMERAL, &SENDER, &recipients).unwrap();
    let header = encryptor.header_bytes().to_vec();
    assert_eq!(header.len(), header_size(2));
    assert_eq!(header.len(), 328);
    assert_eq!(&header[0..4], b"bak0");
    assert_eq!(&header[0..4], &BAKPAK_MAGIC);
    assert_eq!(&header[4..8], &2u32.to_le_bytes());
    let ephemeral_share = recipient(EPHEMERAL);
    assert_eq!(&header[8..40], &ephemeral_share);

    let zero_nonce = [0u8; 12];
    for (i, secret) in secrets.iter().enumerate() {
        let entry = &header[40 + i * 96..40 + (i + 1) * 96];
        // What the recipient computes from the header and its own secret.
        let shared = x25519_dalek::x25519(*secret, ephemeral_share);
        let mac_key = blake3::derive_key("bakpak.rasen.dev 2025-11-01 recipient mac key", &shared);
        let id = blake3::keyed_hash(&mac_key, &recipients[i]);
        assert_eq!(&entry[0..32], id.as_bytes());
        let wrap_key = blake3::derive_key("bakpak.rasen.dev 2025-11-01 wrap key", &shared);
        let mut wrapped: [u8; 32] = entry[32..64].try_into().unwrap();
        let tag: [u8; 32] = entry[64..96].try_into().unwrap();
        ChaChaBlake3::new(&wrap_key)
            .decrypt_in_place_detached(&zero_nonce, &[], &mut wrapped, &tag)
            .unwrap();
        assert_eq!(wrapped, FILE_KEY, "the recipient unwraps the file key");
    }

    let sender_key = blake3::derive_key("bakpak.rasen.dev 2025-11-01 sender encryption key", &FILE_KEY);
    let mut sender_id: [u8; 32] = header[232..264].try_into().unwrap();
    let sender_tag: [u8; 32] = header[264..296].try_into().unwrap();
    ChaChaBlake3::new(&sender_key)
        .decrypt_in_place_detached(&zero_nonce, &[], &mut sender_id, &sender_tag)
        .unwrap();
    assert_eq!(sender_id, SigningKey::from_bytes(&SENDER).verifying_key().to_bytes());

    let mac_key = blake3::derive_key("bakpak.rasen.dev 2025-11-01 header mac key", &FILE_KEY);
    let mac = blake3::keyed_hash(&mac_key, &header[..296]);
    assert_eq!(&header[296..], mac.as_bytes());
}

#[test]
fn header_is_a_function_of_its_inputs() {
    let recipients = [recipient([1u8; 32])];
    let first = Encryptor::with_random(FILE_KEY, EPHEMERAL, &SENDER, &recipients).unwrap();
    let second = Encryptor::with_random(FILE_KEY, EPHEMERAL, &SENDER, &recipients).unwrap();
    assert_eq!(first.header_bytes(), second.header_bytes());
    let other = Encryptor::with_random([0x12; 32], EPHEMERAL, &SENDER, &recipients).unwrap();
    assert_ne!(first.header_bytes(), other.header_bytes());
}

#[test]
fn header_mac_covers_every_bit_before_it() {
    let recipients = [recipient([1u8; 32])];
    let encryptor = Encryptor::with_random(FILE_KEY, EPHEMERAL, &SENDER, &recipients).unwrap();
    let header = encryptor.header_bytes().to_vec();
    let mac_key = blake3::derive_key("bakpak.rasen.dev 2025-11-01 header mac key", &FILE_KEY);
    let body = header.len() - 32;
    let mac: [u8; 32] = header[body..].try_into().unwrap();
    for i in 0..body {
        for bit in 0..8 {
            let mut flipped = header[..body].to_vec();
            flipped[i] ^= 1 << bit;
            assert_ne!(*blake3::keyed_hash(&mac_key, &flipped).as_bytes(), mac);
        }
    }
}

#[test]
fn one_recipient_65535_bytes() {
    let payload: Vec<u8> = (0..65535usize).map(|i| (i % 251) as u8).collect();
    let out = archive(&[recipient([1u8; 32])], &payload, 4096);
    assert_eq!(out.len(), header_size(1) + 65632);
    assert_eq!(out.len(), 232 + 65632);
    let frame = &out[header_size(1)..];
    let plaintext = open_frame(frame, 0, true).expect("the only frame is the last");
    assert!(open_frame(frame, 0, false).is_none());
    assert_eq!(&plaintext[..65535], &payload[..]);
    assert_eq!(plaintext[65535], 1, "one byte of padding that holds its length");
    assert_eq!(open_archive(&out, 1), payload);
}

#[test]
fn no_recipient_empty_payload() {
    let out = archive(&[], &[], 1);
    assert_eq!(out.len(), header_size(0) + 65632);
    assert_eq!(header_size(0), 136);
    let plaintext = open_frame(&out[136..], 0, true).expect("the only frame is the last");
    assert_eq!(plaintext, vec![0u8; 65536], "a segment of padding only");
    assert_eq!(open_archive(&out, 0), Vec::<u8>::new());
}

#[test]
fn two_recipients_200000_bytes() {
    let payload: Vec<u8> = (0..200_000usize).map(|i| (i * 31 % 256) as u8).collect();
    let recipients = [recipient([1u8; 32]), recipient([2u8; 32])];
    let out = archive(&recipients, &payload, 70_000);
    assert_eq!(out.len(), header_size(2) + 4 * 65632);
    let frames: Vec<&[u8]> = out[header_size(2)..].chunks(FRAME_SIZE).collect();
    assert_eq!(frames.len(), 4);
    let mut plain_len = 0;
    for (i, frame) in frames.iter().enumerate() {
        let last = i == 3;
        assert_eq!(open_frame(frame, i as u64, true).is_some(), last);
        assert_eq!(open_frame(frame, i as u64, false).is_some(), !last);
        let plaintext = open_frame(frame, i as u64, last).unwrap();
        plain_len += if last { SEGMENT_SIZE - pad_length(&plaintext) } else { SEGMENT_SIZE };
    }
    assert_eq!(plain_len, 200_000);
    assert_eq!(open_archive(&out, 2), payload);
}

#[test]
fn frames_do_not_depend_on_the_write_sizes() {
    let payload: Vec<u8> = (0..150_000usize).map(|i| (i % 7) as u8).collect();
    let whole = archive(&[], &payload, payload.len());
    for step in [1000usize, 65535, 65536, 65537] {
        assert_eq!(archive(&[], &payload, step), whole);
    }
}

#[test]
fn full_segment_is_followed_by_a_segment_of_padding() {
    let payload = vec![7u8; 65536];
    let out = archive(&[], &payload, 65536);
    assert_eq!(out.len(), header_size(0) + 2 * 65632);
    assert_eq!(open_archive(&out, 0), payload);
}

#[test]
fn nonce_encoding() {
    assert_eq!(StreamState::nonce(0, false), [0u8; 12]);
    assert_eq!(StreamState::nonce(0, true), [0, 0, 0, 0, 0, 0, 0, 0, 0, 0, 0, 0x80]);
    assert_eq!(
        StreamState::nonce(0x0102_0304_0506_0708, false),
        [0, 0, 0, 0, 8, 7, 6, 5, 4, 3, 2, 1]
    );
    assert_eq!(
        StreamState::nonce(0x0102_0304_0506_0708, true),
        [0, 0, 0, 0, 8, 7, 6, 5, 4, 3, 2, 0x81]
    );
    assert_eq!(
        StreamState::nonce(u64::MAX >> 1, false),
        [0, 0, 0, 0, 0xff, 0xff, 0xff, 0xff, 0xff, 0xff, 0xff, 0x7f]
    );
    // Only the low 63 bits of the count enter the nonce.
    assert_eq!(StreamState::nonce(u64::MAX, false), StreamState::nonce(u64::MAX >> 1, false));
}

#[test]
fn signature_domain() {
    assert_eq!(&SIGNATURE_DOMAIN, b"bakpak segment\0");
}

#[test]
fn padding_of_every_kind() {
    for to_pad in [1usize, 2, 3, 254, 255, 256, 257, 258, 4096, 65534, 65535, 65536] {
        let mut segment = bakup::segment::Segment::new();
        segment
            .try_extend_from_slice(&vec![0xeeu8; SEGMENT_SIZE - to_pad])
            .unwrap();
        StreamState::pad_segment(&mut segment);
        assert_eq!(segment.len(), SEGMENT_SIZE);
        assert_eq!(pad_length(&segment), to_pad);
        assert!(segment[..SEGMENT_SIZE - to_pad].iter().all(|byte| *byte == 0xee));
        if to_pad <= 255 {
            assert_eq!(segment[SEGMENT_SIZE - 1], to_pad as u8);
            assert!(segment[SEGMENT_SIZE - to_pad..SEGMENT_SIZE - 1].iter().all(|byte| *byte == 0));
        } else {
            assert_eq!(segment[SEGMENT_SIZE - 1], 0);
            assert_eq!(
                segment[SEGMENT_SIZE - 3..SEGMENT_SIZE - 1],
                (to_pad as u16).to_le_bytes()
            );
            assert!(segment[SEGMENT_SIZE - to_pad..SEGMENT_SIZE - 3].iter().all(|byte| *byte == 0));
        }
    }
}

#[test]
fn state_hands_out_a_frame_when_the_segment_is_full() {
    let mut state = StreamState::new(&SENDER, &payload_key());
    assert_eq!(state.segment_capacity(), 65536);
    let (taken, frame) = state.write(&[1u8; 100]).unwrap();
    assert_eq!(taken, 100);
    assert!(frame.is_none());
    assert_eq!(state.segment_capacity(), 65436);
    let (taken, frame) = state.write(&[]).unwrap();
    assert_eq!(taken, 0);
    assert!(frame.is_none());
    let (taken, frame) = state.write(&vec![2u8; 100_000]).unwrap();
    assert_eq!(taken, 65436);
    let frame = frame.expect("the segment is complete");
    assert_eq!(frame.len(), FRAME_SIZE);
    let plaintext = open_frame(&frame, 0, false).unwrap();
    assert_eq!(&plaintext[..100], &[1u8; 100]);
    assert!(plaintext[100..].iter().all(|byte| *byte == 2));
    assert_eq!(state.segment_capacity(), 65536);
    let last = state.finish().unwrap();
    let plaintext = open_frame(&last, 1, true).unwrap();
    assert_eq!(plaintext, vec![0u8; 65536]);
}

#[test]
fn pending_frame_blocks_input_until_it_is_drained() {
    let mut writer = StreamWriter::new(&SENDER, &payload_key());
    assert!(writer.pending_bytes().is_empty());
    writer.write_pending(0).unwrap();
    assert_eq!(writer.write(&vec![5u8; 70_000]).unwrap(), 65536);
    assert_eq!(writer.pending_bytes().len(), FRAME_SIZE);
    let frame = writer.pending_bytes().to_vec();

    // Input is refused while the frame is pending.
    assert_eq!(writer.write(&[1, 2, 3]).unwrap(), 0);

    // A downstream writer that takes nothing.
    let res = writer.write_pending(0);
    assert!(matches!(&res, Err(Error::Io(err)) if err.kind() == std::io::ErrorKind::WriteZero));
    assert_eq!(writer.pending_bytes(), &frame[..]);

    // A downstream writer that takes the frame in pieces.
    writer.write_pending(1000).unwrap();
    assert_eq!(writer.pending_bytes(), &frame[1000..]);
    assert_eq!(writer.write(&[1, 2, 3]).unwrap(), 0);
    writer.write_pending(64_000).unwrap();
    assert_eq!(writer.pending_bytes(), &frame[65_000..]);
    writer.write_pending(632).unwrap();
    assert!(writer.pending_bytes().is_empty());

    assert_eq!(writer.write(&[1, 2, 3]).unwrap(), 3);
    assert!(writer.pending_bytes().is_empty());
    let (pending, last) = writer.finish().unwrap();
    assert!(pending.is_none());
    let plaintext = open_frame(&last, 1, true).unwrap();
    assert_eq!(&plaintext[..3], &[1, 2, 3]);
    assert_eq!(pad_length(&plaintext), 65533);
    assert_eq!(open_frame(&frame, 0, false).unwrap(), vec![5u8; 65536]);
}

#[test]
fn finish_hands_back_the_frame_that_is_still_pending() {
    let mut writer = StreamWriter::new(&SENDER, &payload_key());
    assert_eq!(writer.write(&vec![5u8; 65536]).unwrap(), 65536);
    writer.write_pending(600).unwrap();
    let rest = writer.pending_bytes().to_vec();
    let (pending, last) = writer.finish().unwrap();
    let (frame, pos) = pending.expect("a frame is pending");
    assert_eq!(pos, 600);
    assert_eq!(&frame[pos..], &rest[..]);
    assert_eq!(open_frame(&frame, 0, false).unwrap(), vec![5u8; 65536]);
    assert_eq!(open_frame(&last, 1, true).unwrap(), vec![0u8; 65536]);
}

/// Opens a frame that was sealed under the all-zero keys.
fn open_zero_key_frame(frame: &[u8], count: u64, last: bool) -> Option<Vec<u8>> {
    let nonce = StreamState::nonce(count, last);
    let mut body = frame[..SEGMENT_SIZE + 64].to_vec();
    let tag: [u8; 32] = frame[SEGMENT_SIZE + 64..].try_into().unwrap();
    ChaChaBlake3::new(&[0u8; 32])
        .decrypt_in_place_detached(&nonce, &[], &mut body, &tag)
        .ok()?;
    body.truncate(SEGMENT_SIZE);
    Some(body)
}

#[test]
fn zeroized_writer_starts_over_empty() {
    let mut writer = StreamWriter::new(&SENDER, &payload_key());
    assert_eq!(writer.write(&vec![5u8; 70_000]).unwrap(), 65536);
    assert!(!writer.pending_bytes().is_empty());
    writer.zeroize();
    assert!(writer.pending_bytes().is_empty());
    assert_eq!(writer.write(&[9u8; 10]).unwrap(), 10);
    let (pending, last) = writer.finish().unwrap();
    assert!(pending.is_none());
    assert!(open_frame(&last, 0, true).is_none(), "the keys are gone");
    let plaintext = open_zero_key_frame(&last, 0, true).expect("sealed under the zero key");
    assert_eq!(&plaintext[..10], &[9u8; 10]);
    assert_eq!(pad_length(&plaintext), 65526);
}

#[test]
fn zeroized_state_holds_no_bytes() {
    let mut state = StreamState::new(&SENDER, &payload_key());
    state.write(&[1u8; 1000]).unwrap();
    state.zeroize();
    assert_eq!(state.segment_capacity(), 65536);
    let last = state.finish().unwrap();
    let plaintext = open_zero_key_frame(&last, 0, true).expect("sealed under the zero key");
    assert_eq!(plaintext, vec![0u8; 65536]);
}

#[test]
fn zeroized_encryptor_keeps_its_header() {
    let mut encryptor = Encryptor::with_random(FILE_KEY, EPHEMERAL, &SENDER, &[]).unwrap();
    let header = encryptor.header_bytes().to_vec();
    encryptor.zeroize();
    assert_eq!(encryptor.header_bytes(), &header[..]);
    let (_, mut writer) = encryptor.wrap_output();
    writer.write(&[9u8; 10]).unwrap();
    let (_, last) = writer.finish().unwrap();
    assert!(open_frame(&last, 0, true).is_none(), "the keys are gone");
    assert!(open_zero_key_frame(&last, 0, true).is_some());
}
