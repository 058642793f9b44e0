use inertia_core::crypto::{decrypt_from_sender, encrypt_for_recipient, encrypt_with_nonce};
use inertia_core::hex::{decode, encode};
use inertia_core::identity::{hash_phone, Identity};

#[test]
fn generates_and_signs() {
    let id = Identity::generate("Alice");
    let sig = id.sign(b"hello").unwrap();
    assert!(Identity::verify_signature(&id.signing_pubkey, b"hello", &sig).unwrap());
}

#[test]
fn phone_hash_is_stable() {
    assert_eq!(hash_phone("+1 (555) 123-4567"), hash_phone("15551234567"));
}

#[test]
fn phone_hash_is_hex_sha256_of_digits() {
    assert_eq!(
        hash_phone("abc"),
        "e3b0c44298fc1c149afbf4c8996fb92427ae41e4649b934ca495991b7852b855"
    );
    assert_eq!(hash_phone("1").len(), 64);
}

#[test]
fn hex_encodes_lower_case_pairs() {
    assert_eq!(encode(&[0x00, 0xab, 0x10, 0xff]), "00ab10ff");
    assert_eq!(decode("00AB10ff").unwrap(), vec![0x00, 0xab, 0x10, 0xff]);
}

#[test]
fn hex_decode_errors() {
    assert_eq!(decode("abc").unwrap_err(), "odd length hex");
    assert_eq!(decode("zz").unwrap_err(), "invalid digit found in string");
    assert_eq!(decode("+f").unwrap(), vec![15]);
}

#[test]
fn hex_round_trips_bytes() {
    let bytes: Vec<u8> = (0..=255).collect();
    assert_eq!(decode(&encode(&bytes)).unwrap(), bytes);
}

#[test]
fn wrong_signature_does_not_verify() {
    let id = Identity::generate("Alice");
    let sig = id.sign(b"hello").unwrap();
    assert!(!Identity::verify_signature(&id.signing_pubkey, b"hullo", &sig).unwrap());
    let err = Identity::verify_signature(&id.signing_pubkey, b"hello", &sig[..10]).unwrap_err();
    assert_eq!(err.message(), "crypto error: invalid signature length");
    let err = Identity::verify_signature("abcd", b"hello", &sig).unwrap_err();
    assert_eq!(err.message(), "crypto error: invalid signing pubkey");
}

#[test]
fn persisted_identity_restores_keys() {
    let restored = Identity::from_persisted(
        "pk".into(),
        "ek".into(),
        None,
        "Alice".into(),
        String::new(),
        Some("00".repeat(32)),
        Some("11".repeat(32)),
    )
    .unwrap();
    assert!(restored.is_initialized());
    assert_eq!(restored.signing_key().unwrap(), [0u8; 32]);
    assert_eq!(restored.encryption_secret().unwrap(), [0x11u8; 32]);
    let short = Identity::from_persisted(
        "pk".into(),
        "ek".into(),
        None,
        "Alice".into(),
        String::new(),
        Some("00".into()),
        None,
    );
    assert_eq!(short.err().unwrap().message(), "crypto error: invalid signing key length");
}

#[test]
fn uninitialized_identity_cannot_sign() {
    let id = Identity::from_persisted("pk".into(), "ek".into(), None, String::new(), String::new(), None, None).unwrap();
    assert!(!id.is_initialized());
    assert_eq!(id.sign(b"x").unwrap_err().message(), "identity not initialized");
}

#[test]
fn bind_phone_records_hash() {
    let mut id = Identity::generate("Alice");
    let h = id.bind_phone("555-0100");
    assert_eq!(id.phone_hash.as_deref(), Some(h.as_str()));
    assert_eq!(h, hash_phone("5550100"));
}

#[test]
fn encryption_round_trips_between_identities() {
    let alice = Identity::generate("Alice");
    let bob = Identity::generate("Bob");
    let a_secret = alice.encryption_secret().unwrap();
    let b_secret = bob.encryption_secret().unwrap();
    let ct = encrypt_for_recipient(&a_secret, &bob.encryption_pubkey, b"secret note").unwrap();
    assert_eq!(ct.len(), 12 + 11 + 16);
    let pt = decrypt_from_sender(&b_secret, &alice.encryption_pubkey, &ct).unwrap();
    assert_eq!(pt, b"secret note".to_vec());
}

#[test]
fn tampered_ciphertext_is_rejected() {
    let alice = Identity::generate("Alice");
    let bob = Identity::generate("Bob");
    let a_secret = alice.encryption_secret().unwrap();
    let b_secret = bob.encryption_secret().unwrap();
    let mut ct = encrypt_with_nonce(&a_secret, &bob.encryption_pubkey, b"hi", [7u8; 12]).unwrap();
    assert_eq!(&ct[..12], &[7u8; 12]);
    let last = ct.len() - 1;
    ct[last] ^= 1;
    let err = decrypt_from_sender(&b_secret, &alice.encryption_pubkey, &ct).unwrap_err();
    assert_eq!(err.message(), "crypto error: aead::Error");
    let err = decrypt_from_sender(&b_secret, &alice.encryption_pubkey, &ct[..5]).unwrap_err();
    assert_eq!(err.message(), "crypto error: ciphertext too short");
    let err = encrypt_for_recipient(&a_secret, "abcd", b"hi").unwrap_err();
    assert_eq!(err.message(), "crypto error: invalid encryption pubkey");
}

#[test]
fn phone_hash_is_64_lower_hex_digits() {
    let h = hash_phone("+1 (555) 123-4567");
    assert_eq!(h.len(), 64);
    assert!(h.chars().all(|c| c.is_ascii_digit() || ('a'..='f').contains(&c)));
}

#[test]
fn decoded_hex_encodes_back_in_lower_case() {
    let v = decode("0aFF").unwrap();
    assert_eq!(v, vec![0x0a, 0xff]);
    assert_eq!(encode(&v), "0aff");
    assert!(decode("zz").is_err());
}

#[test]
fn fresh_public_keys_are_32_bytes() {
    let id = Identity::generate("Bob");
    assert_eq!(id.signing_pubkey.len(), 64);
    assert_eq!(id.encryption_pubkey.len(), 64);
}
