use bakup::cas::directory::DirectoryCas;

#[test]
fn file_name_is_lowercase_hex() {
    let mut hash = [0u8; 32];
    for (i, byte) in hash.iter_mut().enumerate() {
        *byte = (i * 8 + 7) as u8;
    }
    let name = DirectoryCas::file_name(&hash);
    assert_eq!(name, "070f171f272f373f474f575f676f777f878f979fa7afb7bfc7cfd7dfe7eff7ff");
    assert_eq!(DirectoryCas::hash_of_name(&name), Some(hash));
}

#[test]
fn names_of_either_case_with_or_without_prefix_are_hashes() {
    let lower = "00112233445566778899aabbccddeeff00112233445566778899aabbccddeeff";
    let expected = DirectoryCas::hash_of_name(lower).unwrap();
    assert_eq!(expected[..4], [0x00, 0x11, 0x22, 0x33]);
    assert_eq!(expected[10..16], [0xaa, 0xbb, 0xcc, 0xdd, 0xee, 0xff]);
    assert_eq!(DirectoryCas::hash_of_name(&lower.to_uppercase()), Some(expected));
    assert_eq!(DirectoryCas::hash_of_name(&format!("0x{lower}")), Some(expected));
    assert_eq!(DirectoryCas::hash_of_name(&format!("0X{lower}")), Some(expected));
    let mixed = "00112233445566778899AaBbCcDdEeFf00112233445566778899aAbBcCdDeEfF";
    assert_eq!(DirectoryCas::hash_of_name(mixed), Some(expected));
}

#[test]
fn other_names_are_not_hashes() {
    let lower = "00112233445566778899aabbccddeeff00112233445566778899aabbccddeeff";
    assert_eq!(DirectoryCas::hash_of_name(""), None);
    assert_eq!(DirectoryCas::hash_of_name("snapshots"), None);
    assert_eq!(DirectoryCas::hash_of_name(&lower[..63]), None);
    assert_eq!(DirectoryCas::hash_of_name(&lower[..62]), None);
    assert_eq!(DirectoryCas::hash_of_name(&format!("{lower}00")), None);
    assert_eq!(DirectoryCas::hash_of_name(&format!("{}g", &lower[..63])), None);
    assert_eq!(DirectoryCas::hash_of_name(&format!("0x{}", &lower[..62])), None);
    assert_eq!(DirectoryCas::hash_of_name(&format!("0x0x{}", &lower[..60])), None);
    assert_eq!(DirectoryCas::hash_of_name(&format!("{}\u{e9}", &lower[..62])), None);
    assert_eq!(DirectoryCas::hash_of_name(&format!("{lower}.tmp")), None);
}

#[test]
fn listing_passes_over_what_is_no_blob() {
    let first = DirectoryCas::file_name(&[1u8; 32]);
    let second = DirectoryCas::file_name(&[2u8; 32]);
    let names = vec![
        "snapshots".to_string(),
        second.clone(),
        ".hidden".to_string(),
        first.clone(),
        first[..60].to_string(),
    ];
    assert_eq!(DirectoryCas::list(&names), vec![[2u8; 32], [1u8; 32]]);
    assert_eq!(DirectoryCas::list(&Vec::new()), Vec::<[u8; 32]>::new());
}

#[test]
fn store_places_a_blob_under_its_hash() {
    let placement = DirectoryCas::store(b"hello");
    assert_eq!(placement.hash, *blake3::hash(b"hello").as_bytes());
    assert_eq!(
        placement.file_name,
        "ea8f163db38682925e4491c5e58d4bb3506ef8c14eb78a86e908c5624a67200f"
    );
    let again = DirectoryCas::store(b"hello");
    assert_eq!(again.hash, placement.hash);
    assert_eq!(again.file_name, placement.file_name);
    assert_ne!(DirectoryCas::store(b"hellp").hash, placement.hash);
    assert_eq!(DirectoryCas::hash_of_name(&placement.file_name), Some(placement.hash));
}

#[test]
fn store_remembers_its_directory() {
    let store = DirectoryCas::new("/backups/remote".to_string());
    assert_eq!(store.base_path(), "/backups/remote");
}
