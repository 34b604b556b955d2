use aes::cipher::{BlockEncrypt, KeyInit};
use bakup::chunking::aes_gear::{AesGearConfig, AesGearHash};
use bakup::chunking::aes_gear_table::DEFAULT_TABLE;
use bakup::chunking::chunker_state::{ChunkerConfig, ChunkerState};
use bakup::chunking::stream_chunker::{Fill, Step, StreamChunker};

const MIN_SIZE: usize = 128;
const AVG_SIZE: usize = 256;
const MAX_SIZE: usize = 1024;

/// A fixed sequence of bytes from a 64-bit linear congruential generator.
fn seeded_bytes(seed: u64, len: usize) -> Vec<u8> {
    let mut state = seed;
    let mut bytes = Vec::with_capacity(len);
    for _ in 0..len {
        state = state
            .wrapping_mul(6364136223846793005)
            .wrapping_add(1442695040888963407);
        bytes.push((state >> 56) as u8);
    }
    bytes
}

/// Runs the chunker over `input`, offering it buffers of at most `fill` bytes.
fn chunks_with_fill(config: &ChunkerConfig<'_>, input: &[u8], fill: usize) -> Vec<Vec<u8>> {
    let mut chunker = StreamChunker::new(config);
    let mut chunks = Vec::new();
    let mut pos = 0;
    loop {
        let end = usize::min(input.len(), pos + fill);
        match chunker.next(Fill::Buffer(&input[pos..end])) {
            Step::More { consumed } => pos += consumed,
            Step::Chunk { consumed, chunk } => {
                pos += consumed;
                chunks.push(chunk);
            }
            Step::Failed => panic!("the source did not fail"),
            Step::Done => break,
        }
    }
    assert!(chunker.is_ended());
    assert_eq!(pos, input.len());
    chunks
}

fn default_config() -> ChunkerConfig<'static> {
    ChunkerConfig::new(AesGearConfig::new([0u8; 16]), MIN_SIZE, AVG_SIZE, MAX_SIZE, 3)
}

fn expected_digest(key: [u8; 16], state: u64) -> u64 {
    let cipher = aes::Aes128Enc::new(&key.into());
    let mut block = [0u8; 16];
    block[0..8].copy_from_slice(&state.to_le_bytes());
    let mut block = aes::Block::from(block);
    cipher.encrypt_block(&mut block);
    u64::from_le_bytes(block[0..8].try_into().unwrap())
}

#[test]
fn test_chunk_sizes() {
    for seed in 0..8u64 {
        for len in [0usize, 1, 63, 127, 128, 129, 1023, 1024, 1025, 4096] {
            let bytes = seeded_bytes(seed, len);
            let config = default_config();
            let chunks = chunks_with_fill(&config, &bytes, 8192);
            if chunks.len() >= 1 {
                for chunk in &chunks[..chunks.len() - 1] {
                    assert!((MIN_SIZE..=MAX_SIZE).contains(&chunk.len()));
                }
                assert!((1..=MAX_SIZE).contains(&chunks[chunks.len() - 1].len()));
            }
            assert_eq!(chunks.concat(), bytes, "chunks should reconstruct input bytes");
        }
    }
}

#[test]
fn chunks_of_4096_seeded_bytes_reconstruct_the_input() {
    let bytes = seeded_bytes(0x5eed, 4096);
    let config = default_config();
    let chunks = chunks_with_fill(&config, &bytes, 4096);
    assert!(chunks.len() >= 4);
    assert_eq!(chunks.concat(), bytes);
    for chunk in &chunks[..chunks.len() - 1] {
        assert!(chunk.len() >= 128 && chunk.len() <= 1024);
    }
}

#[test]
fn chunks_do_not_depend_on_the_fill_size() {
    let bytes = seeded_bytes(42, 10_000);
    let config = default_config();
    let whole = chunks_with_fill(&config, &bytes, bytes.len());
    for fill in [1usize, 2, 3, 7, 63, 64, 65, 127, 128, 500, 1024, 4096] {
        assert_eq!(chunks_with_fill(&config, &bytes, fill), whole);
    }
}

#[test]
fn constant_input_is_cut_at_the_same_size_every_time() {
    let bytes = vec![0u8; 5000];
    let config = default_config();
    let chunks = chunks_with_fill(&config, &bytes, 333);
    let first = chunks[0].len();
    assert!(first >= MIN_SIZE && first <= MAX_SIZE);
    for chunk in &chunks[..chunks.len() - 1] {
        assert_eq!(chunk.len(), first);
    }
    assert_eq!(chunks.concat(), bytes);
}

#[test]
fn forced_cut_at_the_maximum_size() {
    // With minimum, average and maximum equal, every full chunk has that size.
    let config = ChunkerConfig::new(AesGearConfig::new([0u8; 16]), 256, 256, 256, 3);
    let bytes = seeded_bytes(7, 1000);
    let chunks = chunks_with_fill(&config, &bytes, 100);
    let sizes: Vec<usize> = chunks.iter().map(|chunk| chunk.len()).collect();
    assert_eq!(sizes, vec![256, 256, 256, 232]);
}

#[test]
fn empty_input_has_no_chunks() {
    let config = default_config();
    let mut chunker = StreamChunker::new(&config);
    assert!(!chunker.is_ended());
    assert!(matches!(chunker.next(Fill::Buffer(&[])), Step::Done));
    assert!(chunker.is_ended());
    assert!(matches!(chunker.next(Fill::Buffer(&[1, 2, 3])), Step::Done));
}

#[test]
fn short_input_is_one_chunk() {
    let config = default_config();
    let mut chunker = StreamChunker::new(&config);
    assert!(matches!(
        chunker.next(Fill::Buffer(&[9u8; 100])),
        Step::More { consumed: 100 }
    ));
    match chunker.next(Fill::Buffer(&[])) {
        Step::Chunk { consumed, chunk } => {
            assert_eq!(consumed, 0);
            assert_eq!(chunk, vec![9u8; 100]);
        }
        _ => panic!("the rest of the input is the last chunk"),
    }
    assert!(matches!(chunker.next(Fill::Buffer(&[])), Step::Done));
}

#[test]
fn failed_source_ends_the_sequence() {
    let config = default_config();
    let mut chunker = StreamChunker::new(&config);
    assert!(matches!(
        chunker.next(Fill::Buffer(&[1u8; 10])),
        Step::More { consumed: 10 }
    ));
    assert!(matches!(chunker.next(Fill::Failed), Step::Failed));
    assert!(chunker.is_ended());
    assert!(matches!(chunker.next(Fill::Buffer(&[1u8; 10])), Step::Done));
    assert!(matches!(chunker.next(Fill::Failed), Step::Done));
}

#[test]
fn update_reports_the_first_boundary() {
    let bytes = seeded_bytes(3, 4096);
    let config = default_config();
    let expected = chunks_with_fill(&config, &bytes, 4096);
    let mut state = ChunkerState::new(&config);
    assert_eq!(state.size(), 0);
    assert_eq!(state.update(&bytes), Some(expected[0].len()));
    assert_eq!(state.size(), 0);
    assert_eq!(state.update(&bytes[..50]), None);
    assert_eq!(state.size(), 50);
    assert_eq!(state.update(&[]), None);
    assert_eq!(state.size(), 50);
}

#[test]
fn sizes_are_validated() {
    let gear = || AesGearConfig::new([0u8; 16]);
    assert!(ChunkerConfig::try_new(gear(), 128, 256, 1024, 3).is_some());
    assert!(ChunkerConfig::try_new(gear(), 64, 256, 256, 7).is_some());
    // average is not a power of two
    assert!(ChunkerConfig::try_new(gear(), 128, 255, 1024, 3).is_none());
    assert!(ChunkerConfig::try_new(gear(), 128, 0, 1024, 0).is_none());
    // the exponent of the average does not exceed the normalization bits
    assert!(ChunkerConfig::try_new(gear(), 128, 256, 1024, 8).is_none());
    // minimum below 64
    assert!(ChunkerConfig::try_new(gear(), 63, 256, 1024, 3).is_none());
    // minimum or average above the maximum
    assert!(ChunkerConfig::try_new(gear(), 2048, 256, 1024, 3).is_none());
    assert!(ChunkerConfig::try_new(gear(), 128, 2048, 1024, 3).is_none());
    let config = ChunkerConfig::try_new(gear(), 128, 256, 1024, 3).unwrap();
    assert_eq!(config.min_size(), 128);
    assert_eq!(config.avg_size(), 256);
    assert_eq!(config.max_size(), 1024);
}

#[test]
fn masks_must_fit_64_bits() {
    if usize::BITS == 64 {
        let gear = || AesGearConfig::new([0u8; 16]);
        let avg = 1usize << 40;
        assert!(ChunkerConfig::try_new(gear(), 64, avg, avg, 22).is_some());
        assert!(ChunkerConfig::try_new(gear(), 64, avg, avg, 23).is_none());
    }
}

#[test]
fn gear_hash_of_a_fresh_register() {
    let config = AesGearConfig::new([0u8; 16]);
    let hash = AesGearHash::new(&config);
    // AES-128 of the zero block under the zero key begins 66 e9 4b d4 ef 8a 2c 3b.
    assert_eq!(hash.hash(), 0x3b2c_8aef_d44b_e966);
}

#[test]
fn gear_hash_follows_the_table() {
    let key = [7u8; 16];
    let config = AesGearConfig::new(key);
    let mut hash = AesGearHash::new(&config);
    let mut state = 0u64;
    for byte in [0u8, 1, 2, 255, 128, 77] {
        hash.update(byte);
        state = (state << 1).wrapping_add(DEFAULT_TABLE[byte as usize]);
        assert_eq!(hash.hash(), expected_digest(key, state));
    }
    assert_eq!(DEFAULT_TABLE[0], 0xe191_21a0_f4fd_71f3);
}

#[test]
fn boundary_depends_on_the_last_64_bytes_only() {
    // Two inputs that agree on the bytes from position 64 on are cut at the
    // same place when the minimum size is 128.
    let config = default_config();
    let first = seeded_bytes(11, 2000);
    let mut second = first.clone();
    for byte in second[..64].iter_mut() {
        *byte ^= 0x5a;
    }
    let a = chunks_with_fill(&config, &first, 2000);
    let b = chunks_with_fill(&config, &second, 2000);
    assert_eq!(a[0].len(), b[0].len());
}
