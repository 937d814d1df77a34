use gsm::crypto;
use gsm::crypto::CryptoError;
use pbkdf2::pbkdf2_hmac;
use sha2::Sha256;

#[test]
fn encrypt_decrypt_roundtrip() {
    let plaintext = b"hello world";
    let password = b"supersecret";
    // encrypt returns (salt, nonce, ciphertext)
    let (salt, nonce, ciphertext) = crypto::encrypt(plaintext, password).expect("encrypt");
    let decrypted = crypto::decrypt(&ciphertext, password, &salt, &nonce).expect("decrypt");
    assert_eq!(decrypted, plaintext);
}

#[test]
fn decrypt_fails_with_wrong_password() {
    let plaintext = b"secret";
    let password = b"correct";
    let (salt, nonce, ciphertext) = crypto::encrypt(plaintext, password).expect("encrypt");

    let wrong_password = b"incorrect";
    let result = crypto::decrypt(&ciphertext, wrong_password, &salt, &nonce);
    assert!(
        result.is_err(),
        "decryption should fail with wrong password"
    );
}

#[test]
fn derive_key_matches_pbkdf2() {
    let password = b"password";
    let salt = b"saltsalt";
    let derived = crypto::derive_key(password, salt);

    let mut expected = [0u8; 32];
    pbkdf2_hmac::<Sha256>(password, salt, 100_000, &mut expected);
    assert_eq!(derived.to_vec(), expected.to_vec());
}

#[test]
fn derive_key_is_deterministic() {
    let k1 = crypto::derive_key(b"passphrase", b"0123456789abcdef");
    let k2 = crypto::derive_key(b"passphrase", b"0123456789abcdef");
    assert_eq!(k1, k2);
    let k3 = crypto::derive_key(b"passphrase", b"fedcba9876543210");
    assert_ne!(k1, k3, "a different salt must give a different key");
}

#[test]
fn envelope_has_documented_shape() {
    let plaintext = b"some value";
    let (salt, nonce, ciphertext) = crypto::encrypt(plaintext, b"pw").expect("encrypt");
    assert_eq!(salt.len(), 16);
    assert_eq!(nonce.len(), 12);
    assert_eq!(ciphertext.len(), plaintext.len() + 16);
    assert_ne!(&ciphertext[..plaintext.len()], &plaintext[..]);
}

#[test]
fn encrypt_never_repeats_an_envelope() {
    let plaintext = b"same plaintext";
    let password = b"same passphrase";
    let (salt1, nonce1, ct1) = crypto::encrypt(plaintext, password).expect("encrypt");
    let (salt2, nonce2, ct2) = crypto::encrypt(plaintext, password).expect("encrypt");
    assert_ne!(salt1, salt2, "salts must be fresh per call");
    assert_ne!(nonce1, nonce2, "nonces must be fresh per call");
    assert_ne!(ct1, ct2, "ciphertexts must differ when salt and nonce differ");
}

#[test]
fn decrypt_fails_on_tampered_ciphertext() {
    let (salt, nonce, mut ct) = crypto::encrypt(b"payload", b"pw").expect("encrypt");
    // One flip in the body, one at the boundary, one in the tag.
    let positions = [0, b"payload".len() - 1, ct.len() - 1];
    for &i in positions.iter() {
        ct[i] ^= 1;
        assert!(crypto::decrypt(&ct, b"pw", &salt, &nonce).is_err());
        ct[i] ^= 1;
    }
    assert!(crypto::decrypt(&ct, b"pw", &salt, &nonce).is_ok());
}

#[test]
fn decrypt_fails_on_tampered_salt_or_nonce() {
    let (salt, nonce, ct) = crypto::encrypt(b"payload", b"pw").expect("encrypt");
    let mut bad_salt = salt.clone();
    bad_salt[0] ^= 1;
    assert!(crypto::decrypt(&ct, b"pw", &bad_salt, &nonce).is_err());
    let mut bad_nonce = nonce.clone();
    bad_nonce[11] ^= 1;
    assert!(crypto::decrypt(&ct, b"pw", &salt, &bad_nonce).is_err());
}

#[test]
fn decrypt_error_is_decryption_failed() {
    let (salt, nonce, ct) = crypto::encrypt(b"x", b"pw").expect("encrypt");
    let err = crypto::decrypt(&ct, b"other", &salt, &nonce).unwrap_err();
    assert!(matches!(err, CryptoError::DecryptionFailed(_)));
}

#[test]
fn empty_plaintext_roundtrip() {
    let (salt, nonce, ct) = crypto::encrypt(b"", b"pw").expect("encrypt");
    assert_eq!(ct.len(), 16);
    let decrypted = crypto::decrypt(&ct, b"pw", &salt, &nonce).expect("decrypt");
    assert!(decrypted.is_empty());
}
