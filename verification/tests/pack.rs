use std::collections::HashSet;

use bakup::index::index_writer::IndexWriter;
use bakup::pack::pack_writer::{IndexEntry, PackWriter};

fn blob_hash(blob: &[u8]) -> [u8; 32] {
    *blake3::hash(blob).as_bytes()
}

fn seeded_blobs(seed: u64, count: usize) -> Vec<Vec<u8>> {
    let mut state = seed;
    let mut blobs = Vec::new();
    for _ in 0..count {
        state = state.wrapping_mul(6364136223846793005).wrapping_add(1442695040888963407);
        let len = (state >> 56) as usize;
        blobs.push((0..len).map(|i| (state >> (i % 8 * 8)) as u8).collect());
    }
    blobs
}

#[test]
fn test_final_size() {
    for seed in 0..10u64 {
        let blobs = seeded_blobs(seed, seed as usize * 5);
        let mut pack_writer = PackWriter::<32>::new(Vec::new());
        for blob in &blobs {
            pack_writer.write(blob_hash(blob), blob).unwrap();
        }
        let estimated_size = pack_writer.size();
        let pack = pack_writer.finalize().unwrap();
        assert_eq!(estimated_size, pack.writer.len());
    }
}

#[test]
fn test_index() {
    for seed in 0..10u64 {
        let blobs = seeded_blobs(seed, seed as usize * 5);
        let mut pack_writer = PackWriter::<32>::new(Vec::new());
        let mut input_hashes = HashSet::new();
        for blob in &blobs {
            let hash = blob_hash(blob);
            input_hashes.insert(hash);
            pack_writer.write(hash, blob).unwrap();
        }
        let pack = pack_writer.finalize().unwrap();
        let index_hashes: HashSet<[u8; 32]> = pack.index.into_iter().map(|it| it.hash).collect();
        assert_eq!(input_hashes, index_hashes);
    }
}

#[test]
fn test_index_is_sorted() {
    for seed in 0..10u64 {
        let blobs = seeded_blobs(seed, seed as usize * 5);
        let mut pack_writer = PackWriter::<32>::new(Vec::new());
        for blob in &blobs {
            pack_writer.write(blob_hash(blob), blob).unwrap();
        }
        let pack = pack_writer.finalize().unwrap();
        assert!(pack.index.windows(2).all(|pair| pair[0].hash <= pair[1].hash));
    }
}

#[test]
fn pack_of_three_blobs() {
    let blobs: [&[u8]; 3] = [b"a", b"bb", b"ccc"];
    let mut pack_writer = PackWriter::<32>::new(Vec::new());
    let mut written = HashSet::new();
    for blob in blobs {
        written.insert(blob_hash(blob));
        pack_writer.write(blob_hash(blob), blob).unwrap();
    }
    assert_eq!(pack_writer.index_size(), 3 * 36);
    let estimated_size = pack_writer.size();
    assert_eq!(estimated_size, (36 + 1) + (36 + 2) + (36 + 3) + 3 * 36 + 4);
    let pack = pack_writer.finalize().unwrap();
    assert_eq!(estimated_size, pack.writer.len());
    assert!(pack.index.windows(2).all(|pair| pair[0].hash < pair[1].hash));
    let indexed: HashSet<[u8; 32]> = pack.index.iter().map(|it| it.hash).collect();
    assert_eq!(indexed, written);
}

#[test]
fn pack_bytes_are_laid_out_as_the_format_says() {
    let mut pack_writer = PackWriter::<2>::new(Vec::new());
    pack_writer.write([9, 9], b"xyz").unwrap();
    pack_writer.write([1, 2], b"").unwrap();
    pack_writer.write([1, 1], b"q").unwrap();
    let pack = pack_writer.finalize().unwrap();
    let expected: Vec<u8> = vec![
        9, 9, 3, 0, 0, 0, b'x', b'y', b'z', // record at offset 0
        1, 2, 0, 0, 0, 0, // record at offset 9
        1, 1, 1, 0, 0, 0, b'q', // record at offset 15
        1, 1, 15, 0, 0, 0, // index, sorted by hash
        1, 2, 9, 0, 0, 0, //
        9, 9, 0, 0, 0, 0, //
        18, 0, 0, 0, // size of the index
    ];
    assert_eq!(pack.writer, expected);
    assert_eq!(
        pack.index,
        vec![
            IndexEntry { hash: [1, 1], offset: 15 },
            IndexEntry { hash: [1, 2], offset: 9 },
            IndexEntry { hash: [9, 9], offset: 0 },
        ]
    );
}

#[test]
fn hashes_are_ordered_byte_by_byte() {
    let mut pack_writer = PackWriter::<2>::new(Vec::new());
    for hash in [[1u8, 0], [0, 255], [255, 0], [0, 1], [1, 255]] {
        pack_writer.write(hash, b"").unwrap();
    }
    let pack = pack_writer.finalize().unwrap();
    let order: Vec<[u8; 2]> = pack.index.iter().map(|it| it.hash).collect();
    assert_eq!(order, vec![[0, 1], [0, 255], [1, 0], [1, 255], [255, 0]]);
}

#[test]
fn empty_pack_is_its_trailer() {
    let pack_writer = PackWriter::<32>::new(Vec::new());
    assert_eq!(pack_writer.size(), 4);
    assert_eq!(pack_writer.index_size(), 0);
    let pack = pack_writer.finalize().unwrap();
    assert_eq!(pack.writer, vec![0, 0, 0, 0]);
    assert!(pack.index.is_empty());
}

#[test]
fn pack_is_appended_to_what_the_buffer_holds() {
    let mut pack_writer = PackWriter::<1>::new(vec![0xaa, 0xbb]);
    pack_writer.write([7], b"z").unwrap();
    assert_eq!(pack_writer.size(), 6 + 5 + 4);
    let pack = pack_writer.finalize().unwrap();
    assert_eq!(pack.writer, vec![0xaa, 0xbb, 7, 1, 0, 0, 0, b'z', 7, 0, 0, 0, 0, 5, 0, 0, 0]);
    assert_eq!(pack.index, vec![IndexEntry { hash: [7], offset: 0 }]);
}

#[test]
fn item_size_is_header_data_and_index_entry() {
    assert_eq!(PackWriter::<32>::item_size(0), 72);
    assert_eq!(PackWriter::<32>::item_size(1000), 1072);
    assert_eq!(PackWriter::<20>::item_size(5), 24 + 5 + 24);
    // Items add up to the size of the pack.
    let mut pack_writer = PackWriter::<32>::new(Vec::new());
    let mut total = 4;
    for blob in seeded_blobs(1, 20) {
        pack_writer.write(blob_hash(&blob), &blob).unwrap();
        total += PackWriter::<32>::item_size(blob.len());
        assert_eq!(pack_writer.size(), total);
    }
}

#[test]
fn global_index_of_two_packs() {
    let mut writer = IndexWriter::<2>::new();
    assert_eq!(writer.size(), 0);
    writer.extend_from_pack(
        [0xa, 0xa],
        vec![IndexEntry { hash: [5, 5], offset: 7 }, IndexEntry { hash: [1, 9], offset: 0x01020304 }],
    );
    writer.extend_from_pack([0xb, 0xb], vec![IndexEntry { hash: [3, 0], offset: 0 }]);
    writer.extend_from_pack([0xc, 0xc], vec![]);
    assert_eq!(writer.size(), 3 * 8);
    let mut out = vec![0xff];
    writer.write(&mut out).unwrap();
    let expected: Vec<u8> = vec![
        0xff, //
        1, 9, 0xa, 0xa, 4, 3, 2, 1, //
        3, 0, 0xb, 0xb, 0, 0, 0, 0, //
        5, 5, 0xa, 0xa, 7, 0, 0, 0, //
    ];
    assert_eq!(out, expected);
    assert_eq!(out.len() - 1, writer.size());
}

#[test]
fn global_index_keeps_equal_hashes_in_their_order() {
    let mut writer = IndexWriter::<1>::new();
    writer.extend_from_pack([2], vec![IndexEntry { hash: [7], offset: 1 }]);
    writer.extend_from_pack(
        [1],
        vec![IndexEntry { hash: [7], offset: 2 }, IndexEntry { hash: [0], offset: 3 }],
    );
    let mut out = Vec::new();
    writer.write(&mut out).unwrap();
    assert_eq!(out, vec![0, 1, 3, 0, 0, 0, 7, 2, 1, 0, 0, 0, 7, 1, 2, 0, 0, 0]);
}

#[test]
fn global_index_of_many_entries_is_sorted() {
    let mut writer = IndexWriter::<32>::new();
    let mut count = 0;
    for (id, seed) in [3u64, 4, 5].iter().enumerate() {
        let mut pack_writer = PackWriter::<32>::new(Vec::new());
        for blob in seeded_blobs(*seed, 200) {
            pack_writer.write(blob_hash(&blob), &blob).unwrap();
            count += 1;
        }
        let pack = pack_writer.finalize().unwrap();
        writer.extend_from_pack(blob_hash(&pack.writer), pack.index);
        assert_eq!(writer.size(), count * 68, "after pack {id}");
    }
    let mut out = Vec::new();
    writer.write(&mut out).unwrap();
    assert_eq!(out.len(), 600 * 68);
    let hashes: Vec<&[u8]> = out.chunks(68).map(|entry| &entry[..32]).collect();
    assert!(hashes.windows(2).all(|pair| pair[0] <= pair[1]));
}
