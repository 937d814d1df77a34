use base64::Engine;
use gsm::github::encrypt_github_secret;
use gsm::github::GithubError;

#[test]
fn seal_rejects_short_public_key() {
    let engine = base64::engine::general_purpose::STANDARD;
    let short_key = engine.encode([7u8; 10]);
    let err = encrypt_github_secret(&short_key, "secret").unwrap_err();
    assert!(matches!(err, GithubError::InvalidPublicKeyLength));
}

#[test]
fn seal_rejects_long_public_key() {
    let engine = base64::engine::general_purpose::STANDARD;
    let long_key = engine.encode([7u8; 33]);
    let err = encrypt_github_secret(&long_key, "secret").unwrap_err();
    assert!(matches!(err, GithubError::InvalidPublicKeyLength));
}

#[test]
fn seal_rejects_invalid_base64_key() {
    let err = encrypt_github_secret("*** not base64 ***", "secret").unwrap_err();
    assert!(matches!(err, GithubError::Base64Error(_)));
}

#[test]
fn sealed_secret_has_documented_length() {
    let engine = base64::engine::general_purpose::STANDARD;
    let _ = sodiumoxide::init();
    let (pk, _sk) = sodiumoxide::crypto::box_::gen_keypair();
    let key_b64 = engine.encode(pk.as_ref());
    let secret = "super secret value";
    let sealed_b64 = encrypt_github_secret(&key_b64, secret).expect("seal");
    let sealed = engine.decode(&sealed_b64).expect("sealed value is base64");
    assert_eq!(sealed.len(), secret.len() + 48);
}

#[test]
fn sealed_secret_opens_with_recipient_key() {
    let engine = base64::engine::general_purpose::STANDARD;
    let _ = sodiumoxide::init();
    let (pk, sk) = sodiumoxide::crypto::box_::gen_keypair();
    let key_b64 = engine.encode(pk.as_ref());
    let secret = "the payload";
    let sealed_b64 = encrypt_github_secret(&key_b64, secret).expect("seal");
    let sealed = engine.decode(&sealed_b64).expect("base64");
    let opened = sodiumoxide::crypto::sealedbox::open(&sealed, &pk, &sk).expect("open");
    assert_eq!(opened, secret.as_bytes());
}

#[test]
fn two_seals_of_one_secret_differ() {
    let engine = base64::engine::general_purpose::STANDARD;
    let _ = sodiumoxide::init();
    let (pk, _sk) = sodiumoxide::crypto::box_::gen_keypair();
    let key_b64 = engine.encode(pk.as_ref());
    let s1 = encrypt_github_secret(&key_b64, "same").expect("seal");
    let s2 = encrypt_github_secret(&key_b64, "same").expect("seal");
    assert_ne!(s1, s2, "sealing uses a fresh ephemeral key pair per call");
}
