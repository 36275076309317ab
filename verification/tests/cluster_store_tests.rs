use doris_cli::cluster_store::{
    decode_key, decrypt_store, encode_key, encrypt_store, key_path_in, new_key, seal_store,
    store_path_in, EncryptedStore,
};

#[test]
fn sealed_store_opens_to_same_bytes() {
    let key = new_key().unwrap();
    let nonce = vec![3u8; 12];
    let plain = b"active: prod\nclusters: {}\n".to_vec();
    let e = encrypt_store(&key, &nonce, &plain).unwrap();
    assert_eq!(e.version, 1);
    assert_ne!(e.ciphertext.as_bytes(), plain.as_slice());
    assert_eq!(decrypt_store(&key, &e).unwrap(), plain);
}

#[test]
fn wrong_key_or_damage_is_refused() {
    let key = vec![7u8; 32];
    let nonce = vec![1u8; 12];
    let e = encrypt_store(&key, &nonce, b"secret").unwrap();
    let other = vec![8u8; 32];
    assert_eq!(decrypt_store(&other, &e).unwrap_err(), "failed to decrypt cluster store");
    let v2 = EncryptedStore { version: 2, nonce: e.nonce.clone(), ciphertext: e.ciphertext.clone() };
    assert_eq!(decrypt_store(&key, &v2).unwrap_err(), "unsupported cluster store version");
    let bad_nonce = EncryptedStore { version: 1, nonce: "!!".into(), ciphertext: e.ciphertext.clone() };
    assert_eq!(decrypt_store(&key, &bad_nonce).unwrap_err(), "failed to decode cluster store nonce");
    let short_nonce = EncryptedStore { version: 1, nonce: "AAAA".into(), ciphertext: e.ciphertext.clone() };
    assert_eq!(decrypt_store(&key, &short_nonce).unwrap_err(), "invalid cluster store nonce");
    let bad_ct = EncryptedStore { version: 1, nonce: e.nonce.clone(), ciphertext: "%%".into() };
    assert_eq!(decrypt_store(&key, &bad_ct).unwrap_err(), "failed to decode cluster store ciphertext");
}

#[test]
fn key_file_round_trip() {
    let key: Vec<u8> = (0u8..32).collect();
    let text = encode_key(&key);
    assert_ne!(text.as_bytes(), key.as_slice());
    assert_eq!(decode_key("/k", &format!("{text}\n")).unwrap(), key);
    assert_eq!(decode_key("/k", "***").unwrap_err(), "failed to decode /k");
    let short = encode_key(&[1u8, 2, 3]);
    assert_eq!(decode_key("/k", &short).unwrap_err(), "invalid cluster store key length");
}

#[test]
fn store_paths() {
    assert_eq!(store_path_in("/home/u"), "/home/u/.doris-cli/clusters.enc");
    assert_eq!(key_path_in("/home/u/"), "/home/u/.doris-cli/key");
}

#[test]
fn fresh_keys_have_key_length_and_differ() {
    let a = new_key().unwrap();
    let b = new_key().unwrap();
    assert_eq!(a.len(), 32);
    assert_ne!(a, b);
}

#[test]
fn freshly_sealed_store_opens_to_same_bytes() {
    let key = new_key().unwrap();
    let plain = b"active: dev
".to_vec();
    let a = seal_store(&key, &plain).unwrap();
    let b = seal_store(&key, &plain).unwrap();
    assert_eq!(a.version, 1);
    assert_ne!(a.nonce, b.nonce);
    assert_eq!(decrypt_store(&key, &a).unwrap(), plain);
    assert_eq!(decrypt_store(&key, &b).unwrap(), plain);
    assert_eq!(seal_store(&[1u8; 5], &plain).unwrap_err(), "failed to encrypt cluster store");
}
