use upstream_core::crypto::Crypto;

#[test]
fn encrypt_then_decrypt_returns_the_input() {
    let c = Crypto::new("flag{dHrkWcgkdohUvl4IywOGpPhlHz}");
    let data: Vec<u8> = b"soul power 490/500".to_vec();
    let sealed = c.encrypt(&data);
    assert_ne!(sealed, data);
    let opened = c.decrypt(&sealed).expect("own ciphertext must decrypt");
    assert_eq!(opened, data);
}

#[test]
fn empty_input_round_trips() {
    let c = Crypto::new("key phrase");
    let sealed = c.encrypt(&[]);
    // CBC with PKCS7 padding always emits at least one block.
    assert!(!sealed.is_empty());
    let opened = c.decrypt(&sealed).expect("own ciphertext must decrypt");
    assert!(opened.is_empty());
}

#[test]
fn encryption_is_deterministic_per_key() {
    let c1 = Crypto::new("key phrase");
    let c2 = Crypto::new("key phrase");
    let data: Vec<u8> = b"same bytes".to_vec();
    assert_eq!(c1.encrypt(&data), c2.encrypt(&data));
}

#[test]
fn malformed_bytes_are_refused() {
    let c = Crypto::new("key phrase");
    // not a whole number of cipher blocks: decryption must fail cleanly.
    assert!(c.decrypt(&[1, 2, 3]).is_err());
}
