use bakup::chacha20_blake3::{ChaChaBlake3, ENCRYPTION_KEY_CTX, MAC_KEY_CTX};
use bakup::error::Error;
use chacha20::cipher::{KeyIvInit, StreamCipher};

/// The construction, written out with the primitives themselves.
fn reference_seal(key: &[u8; 32], nonce: &[u8; 12], ad: &[u8], plaintext: &[u8]) -> (Vec<u8>, [u8; 32]) {
    let encryption_key = blake3::derive_key("ChaCha20.Encrypt()", key);
    let mut ciphertext = plaintext.to_vec();
    let mut cipher = chacha20::ChaCha20::new(&encryption_key.into(), nonce.into());
    cipher.apply_keystream(&mut ciphertext);
    let mac_key = blake3::derive_key("BLAKE3-256.KeyedHash()", key);
    let mut mac = blake3::Hasher::new_keyed(&mac_key);
    mac.update(nonce);
    mac.update(ad);
    mac.update(&ciphertext);
    mac.update(&(ad.len() as u64).to_le_bytes());
    mac.update(&(ciphertext.len() as u64).to_le_bytes());
    (ciphertext, *mac.finalize().as_bytes())
}

#[test]
fn context_strings() {
    assert_eq!(ENCRYPTION_KEY_CTX, "ChaCha20.Encrypt()");
    assert_eq!(MAC_KEY_CTX, "BLAKE3-256.KeyedHash()");
}

#[test]
fn zero_key_zero_nonce_zero_plaintext() {
    let key = [0u8; 32];
    let nonce = [0u8; 12];
    let aead = ChaChaBlake3::new(&key);
    let mut buffer = [0u8; 32];
    let tag = aead.encrypt_in_place_detached(&nonce, &[], &mut buffer).unwrap();

    let (ciphertext, expected_tag) = reference_seal(&key, &nonce, &[], &[0u8; 32]);
    assert_eq!(buffer.to_vec(), ciphertext);
    assert_eq!(tag, expected_tag);
    assert_ne!(buffer, [0u8; 32]);

    let mut decrypted = buffer;
    aead.decrypt_in_place_detached(&nonce, &[], &mut decrypted, &tag).unwrap();
    assert_eq!(decrypted, [0u8; 32]);

    let mut flipped = buffer;
    flipped[0] ^= 1;
    let before = flipped;
    let res = aead.decrypt_in_place_detached(&nonce, &[], &mut flipped, &tag);
    assert!(matches!(res, Err(Error::EncryptionError)));
    assert_eq!(flipped, before, "a rejected buffer keeps its ciphertext");
}

#[test]
fn round_trip_of_many_lengths() {
    let key = [0x42u8; 32];
    let aead = ChaChaBlake3::new(&key);
    for len in [0usize, 1, 31, 63, 64, 65, 127, 128, 1000, 65600] {
        let plaintext: Vec<u8> = (0..len).map(|i| (i * 7 + 3) as u8).collect();
        let nonce = [len as u8; 12];
        let ad = vec![0xadu8; len % 17];
        let mut buffer = plaintext.clone();
        let tag = aead.encrypt_in_place_detached(&nonce, &ad, &mut buffer).unwrap();
        let (ciphertext, expected_tag) = reference_seal(&key, &nonce, &ad, &plaintext);
        assert_eq!(buffer, ciphertext);
        assert_eq!(tag, expected_tag);
        aead.decrypt_in_place_detached(&nonce, &ad, &mut buffer, &tag).unwrap();
        assert_eq!(buffer, plaintext);
    }
}

#[test]
fn every_single_bit_flip_is_rejected() {
    let key = [9u8; 32];
    let nonce = [1u8, 2, 3, 4, 5, 6, 7, 8, 9, 10, 11, 12];
    let ad = [0xa0u8, 0xa1, 0xa2];
    let aead = ChaChaBlake3::new(&key);
    let mut ciphertext = *b"attack at dawn";
    let tag = aead.encrypt_in_place_detached(&nonce, &ad, &mut ciphertext).unwrap();

    for bit in 0..8 {
        for i in 0..ciphertext.len() {
            let mut buffer = ciphertext;
            buffer[i] ^= 1 << bit;
            let res = aead.decrypt_in_place_detached(&nonce, &ad, &mut buffer, &tag);
            assert!(matches!(res, Err(Error::EncryptionError)));
        }
        for i in 0..tag.len() {
            let mut wrong = tag;
            wrong[i] ^= 1 << bit;
            let mut buffer = ciphertext;
            let res = aead.decrypt_in_place_detached(&nonce, &ad, &mut buffer, &wrong);
            assert!(matches!(res, Err(Error::EncryptionError)));
            assert_eq!(buffer, ciphertext);
        }
        for i in 0..ad.len() {
            let mut wrong = ad;
            wrong[i] ^= 1 << bit;
            let mut buffer = ciphertext;
            let res = aead.decrypt_in_place_detached(&nonce, &wrong, &mut buffer, &tag);
            assert!(matches!(res, Err(Error::EncryptionError)));
        }
        for i in 0..nonce.len() {
            let mut wrong = nonce;
            wrong[i] ^= 1 << bit;
            let mut buffer = ciphertext;
            let res = aead.decrypt_in_place_detached(&wrong, &ad, &mut buffer, &tag);
            assert!(matches!(res, Err(Error::EncryptionError)));
        }
    }
    let mut buffer = ciphertext;
    aead.decrypt_in_place_detached(&nonce, &ad, &mut buffer, &tag).unwrap();
    assert_eq!(&buffer, b"attack at dawn");
}

#[test]
fn lengths_are_authenticated() {
    // Moving a byte from the associated data to the ciphertext changes the tag.
    let key = [3u8; 32];
    let nonce = [0u8; 12];
    let aead = ChaChaBlake3::new(&key);
    let mut buffer = [0u8; 0];
    let tag = aead.encrypt_in_place_detached(&nonce, &[1, 2], &mut buffer).unwrap();
    let mut moved = [2u8];
    let res = aead.decrypt_in_place_detached(&nonce, &[1], &mut moved, &tag);
    assert!(matches!(res, Err(Error::EncryptionError)));
}

#[test]
fn wrong_key_is_rejected() {
    let nonce = [0u8; 12];
    let mut buffer = *b"secret";
    let tag = ChaChaBlake3::new(&[1u8; 32])
        .encrypt_in_place_detached(&nonce, &[], &mut buffer)
        .unwrap();
    let res = ChaChaBlake3::new(&[2u8; 32]).decrypt_in_place_detached(&nonce, &[], &mut buffer, &tag);
    assert!(matches!(res, Err(Error::EncryptionError)));
}

#[test]
fn zeroized_cipher_has_the_zero_key() {
    let nonce = [0u8; 12];
    let mut aead = ChaChaBlake3::new(&[0x77u8; 32]);
    aead.zeroize();
    let mut buffer = [5u8; 40];
    let tag = aead.encrypt_in_place_detached(&nonce, &[], &mut buffer).unwrap();
    let (ciphertext, expected_tag) = reference_seal(&[0u8; 32], &nonce, &[], &[5u8; 40]);
    assert_eq!(buffer.to_vec(), ciphertext);
    assert_eq!(tag, expected_tag);
}
