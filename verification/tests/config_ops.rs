use base64::Engine;
use gsm::config::Config;
use gsm::config::EncryptedValue;
use gsm::config::EncryptedConfig;
use gsm::crypto::CryptoError;
use gsm::crypto_ops::decrypt_config;
use gsm::crypto_ops::encrypt_config;
use gsm::error::GsmError;

fn sample_config() -> Config {
    Config {
        org: "acme".to_string(),
        repositories: vec!["svc1".to_string()],
        env: vec![("API_KEY".to_string(), "abc123".to_string())],
    }
}

#[test]
fn config_roundtrip_restores_structure_exactly() {
    let key = b"master passphrase";
    let encrypted = encrypt_config(sample_config(), key).expect("encrypt_config");
    assert_eq!(encrypted.org, "acme");
    assert_eq!(encrypted.repositories, vec!["svc1".to_string()]);
    assert_eq!(encrypted.env.len(), 1);
    assert_eq!(encrypted.env[0].0, "API_KEY");

    let decrypted = decrypt_config(encrypted, key).expect("decrypt_config");
    assert_eq!(decrypted, sample_config());
}

#[test]
fn config_decrypt_with_wrong_passphrase_fails() {
    let encrypted = encrypt_config(sample_config(), b"right").expect("encrypt_config");
    let err = decrypt_config(encrypted, b"wrong").unwrap_err();
    assert!(matches!(
        err,
        GsmError::Crypto(CryptoError::DecryptionFailed(_))
    ));
}

#[test]
fn config_roundtrip_arbitrary_values() {
    let config = Config {
        org: "org-name".to_string(),
        repositories: vec!["a".to_string(), "b".to_string(), "c".to_string()],
        env: vec![
            ("EMPTY".to_string(), String::new()),
            ("UNICODE".to_string(), "caf\u{e9} \u{1f512} na\u{ef}ve".to_string()),
            ("LONG".to_string(), "x".repeat(10_000)),
            ("PLAIN".to_string(), "value".to_string()),
        ],
    };
    let key = "p@ssw\u{f6}rd".as_bytes();
    let encrypted = encrypt_config(config.clone(), key).expect("encrypt_config");
    let decrypted = decrypt_config(encrypted, key).expect("decrypt_config");
    assert_eq!(decrypted, config);
}

#[test]
fn config_with_empty_env_roundtrips() {
    let config = Config {
        org: "acme".to_string(),
        repositories: Vec::new(),
        env: Vec::new(),
    };
    let key = b"k";
    let encrypted = encrypt_config(config.clone(), key).expect("encrypt_config");
    assert!(encrypted.env.is_empty());
    let decrypted = decrypt_config(encrypted, key).expect("decrypt_config");
    assert_eq!(decrypted, config);
}

#[test]
fn envelope_fields_are_standard_base64() {
    let encrypted = encrypt_config(sample_config(), b"pw").expect("encrypt_config");
    let ev = &encrypted.env[0].1;
    let engine = base64::engine::general_purpose::STANDARD;
    let salt = engine.decode(&ev.salt).expect("salt is base64");
    let nonce = engine.decode(&ev.nonce).expect("nonce is base64");
    let ct = engine.decode(&ev.ciphertext).expect("ciphertext is base64");
    assert_eq!(salt.len(), 16);
    assert_eq!(nonce.len(), 12);
    assert_eq!(ct.len(), "abc123".len() + 16);
}

#[test]
fn two_encryptions_of_one_config_differ() {
    let e1 = encrypt_config(sample_config(), b"pw").expect("encrypt_config");
    let e2 = encrypt_config(sample_config(), b"pw").expect("encrypt_config");
    assert_ne!(e1.env[0].1.salt, e2.env[0].1.salt);
    assert_ne!(e1.env[0].1.nonce, e2.env[0].1.nonce);
    assert_ne!(e1.env[0].1.ciphertext, e2.env[0].1.ciphertext);
}

#[test]
fn decrypt_config_rejects_bad_base64() {
    let mut encrypted = encrypt_config(sample_config(), b"pw").expect("encrypt_config");
    encrypted.env[0].1.salt = "!!not base64!!".to_string();
    let err = decrypt_config(encrypted, b"pw").unwrap_err();
    assert!(matches!(err, GsmError::Base64(_)));
}

#[test]
fn decrypt_config_rejects_wrong_length_nonce() {
    let mut encrypted = encrypt_config(sample_config(), b"pw").expect("encrypt_config");
    let engine = base64::engine::general_purpose::STANDARD;
    encrypted.env[0].1.nonce = engine.encode([0u8; 5]);
    let err = decrypt_config(encrypted, b"pw").unwrap_err();
    assert!(matches!(
        err,
        GsmError::Crypto(CryptoError::DecryptionFailed(_))
    ));
}

#[test]
fn decrypt_config_rejects_tampered_ciphertext() {
    let mut encrypted = encrypt_config(sample_config(), b"pw").expect("encrypt_config");
    let engine = base64::engine::general_purpose::STANDARD;
    let mut ct = engine.decode(&encrypted.env[0].1.ciphertext).expect("base64");
    ct[0] ^= 1;
    encrypted.env[0].1.ciphertext = engine.encode(&ct);
    let err = decrypt_config(encrypted, b"pw").unwrap_err();
    assert!(matches!(
        err,
        GsmError::Crypto(CryptoError::DecryptionFailed(_))
    ));
}

#[test]
fn decrypt_config_rejects_non_utf8_plaintext() {
    // An envelope sealed over bytes that are not UTF-8 decrypts but cannot
    // be read back as text.
    let key = b"pw";
    let (salt, nonce, ct) = gsm::crypto::encrypt(&[0xff, 0xfe, 0x00, 0x80], key).expect("encrypt");
    let engine = base64::engine::general_purpose::STANDARD;
    let encrypted = EncryptedConfig {
        org: "acme".to_string(),
        repositories: Vec::new(),
        env: vec![(
            "BINARY".to_string(),
            EncryptedValue {
                salt: engine.encode(&salt),
                nonce: engine.encode(&nonce),
                ciphertext: engine.encode(&ct),
            },
        )],
    };
    let err = decrypt_config(encrypted, key).unwrap_err();
    assert!(matches!(err, GsmError::Utf8(_)));
}
