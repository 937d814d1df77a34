//! Envelope cipher: derives a symmetric key from a passphrase and a random
//! salt, then authenticated-encrypts or decrypts a single byte string,
//! producing or consuming a (salt, nonce, ciphertext) triple.

use aes_gcm::aead::{Aead, KeyInit};
use vstd::prelude::*;

verus! {

/// Length in bytes of the random salt attached to every envelope.
pub const SALT_LEN: usize = 16;

/// Length in bytes of the cipher nonce attached to every envelope.
pub const NONCE_LEN: usize = 12;

/// Length in bytes of a derived symmetric key.
pub const KEY_LEN: usize = 32;

/// Length in bytes of the authentication tag the cipher appends.
pub const TAG_LEN: usize = 16;

/// Iteration count of the key-stretching function.
pub const PBKDF2_ITER: u32 = 100_000;

/// Largest plaintext the cipher accepts, in bytes (2^36).
pub const AEAD_P_MAX: u64 = 0x10_0000_0000;

/// Largest ciphertext an encryption can produce, in bytes (2^36 + 16).
/// `decrypt` rejects longer inputs before handing them to the cipher.
pub const AEAD_C_MAX: u64 = 0x10_0000_0010;

#[derive(Debug)]
pub enum CryptoError {
    KeyError(String),
    EncryptionFailed(String),
    DecryptionFailed(String),
}

/// The key that the key-stretching function derives from a passphrase and a
/// salt: a pure function of its inputs, left uninterpreted.
pub uninterp spec fn pbkdf2_key_of(password: Seq<u8>, salt: Seq<u8>) -> Seq<u8>;

/// The ciphertext (authentication tag included) that the cipher produces for
/// a key, a nonce and a plaintext: a pure function of its inputs, left
/// uninterpreted.
pub uninterp spec fn aead_enc(key: Seq<u8>, nonce: Seq<u8>, plaintext: Seq<u8>) -> Seq<u8>;

/// Relies on pbkdf2::pbkdf2_hmac with SHA-256: the derived key is a pure
/// function of the password, the salt and the iteration count, and fills the
/// whole 32-byte output buffer.
#[verifier::external_body]
pub fn derive_key(password: &[u8], salt: &[u8]) -> (key: [u8; 32])
    ensures
        key@ == pbkdf2_key_of(password@, salt@),
        key@.len() == KEY_LEN,
{
    let mut key = [0u8; 32];
    pbkdf2::pbkdf2_hmac::<sha2::Sha256>(password, salt, PBKDF2_ITER, &mut key);
    key
}

/// Relies on rand's thread-local generator: `fill_bytes` fills the whole
/// buffer from a cryptographically secure source. Nothing is promised of the
/// values drawn.
#[verifier::external_body]
fn random_bytes(n: usize) -> (r: Vec<u8>)
    ensures
        r@.len() == n,
{
    let mut buf = vec![0u8; n];
    rand::RngCore::fill_bytes(&mut rand::rng(), &mut buf);
    buf
}

/// Relies on aes_gcm::Aes256Gcm: `new_from_slice` accepts a 32-byte key, and
/// `encrypt` appends the 16-byte tag to the plaintext-length ciphertext and
/// succeeds exactly when the plaintext is at most `AEAD_P_MAX` bytes long.
#[verifier::external_body]
fn aead_encrypt(key: &[u8], nonce: &[u8], plaintext: &[u8]) -> (r: Result<Vec<u8>, String>)
    requires
        key@.len() == KEY_LEN,
        nonce@.len() == NONCE_LEN,
    ensures
        r is Ok <==> plaintext@.len() <= AEAD_P_MAX,
        r matches Ok(c) ==> c@ == aead_enc(key@, nonce@, plaintext@)
            && c@.len() == plaintext@.len() + TAG_LEN,
{
    let cipher = match aes_gcm::Aes256Gcm::new_from_slice(key) {
        Ok(c) => c,
        Err(e) => return Err(format!("{:?}", e)),
    };
    match cipher.encrypt(aes_gcm::Nonce::from_slice(nonce), plaintext) {
        Ok(ct) => Ok(ct),
        Err(e) => Err(e.to_string()),
    }
}

/// Relies on aes_gcm::Aes256Gcm: `decrypt` recomputes the tag over the exact
/// ciphertext bytes, so it returns the unique plaintext whose encryption
/// under (key, nonce) is the ciphertext, and fails when there is none. The
/// cipher's length cap applies to the ciphertext with its tag detached, so
/// an input a little above `AEAD_C_MAX` can still verify; the inversion is
/// therefore claimed only for outputs the cipher could have encrypted.
#[verifier::external_body]
fn aead_decrypt(key: &[u8], nonce: &[u8], ciphertext: &[u8]) -> (r: Result<Vec<u8>, String>)
    requires
        key@.len() == KEY_LEN,
        nonce@.len() == NONCE_LEN,
    ensures
        forall |p: Seq<u8>|
            (ciphertext@ == #[trigger] aead_enc(key@, nonce@, p)
                && ciphertext@.len() == p.len() + TAG_LEN
                && p.len() <= AEAD_P_MAX)
            ==> r is Ok && r->Ok_0@ == p,
        r is Ok ==> ciphertext@.len() == r->Ok_0@.len() + TAG_LEN,
        r is Ok && r->Ok_0@.len() <= AEAD_P_MAX
            ==> ciphertext@ == aead_enc(key@, nonce@, r->Ok_0@),
{
    let cipher = match aes_gcm::Aes256Gcm::new_from_slice(key) {
        Ok(c) => c,
        Err(e) => return Err(format!("{:?}", e)),
    };
    match cipher.decrypt(aes_gcm::Nonce::from_slice(nonce), ciphertext) {
        Ok(pt) => Ok(pt),
        Err(e) => Err(e.to_string()),
    }
}

/// The triple (salt, nonce, ct) is an envelope that `encrypt` can produce for
/// `plaintext` under the passphrase `pass`.
pub open spec fn fresh_envelope(
    pass: Seq<u8>,
    plaintext: Seq<u8>,
    salt: Seq<u8>,
    nonce: Seq<u8>,
    ct: Seq<u8>,
) -> bool {
    &&& salt.len() == SALT_LEN
    &&& nonce.len() == NONCE_LEN
    &&& plaintext.len() <= AEAD_P_MAX
    &&& ct == aead_enc(pbkdf2_key_of(pass, salt), nonce, plaintext)
    &&& ct.len() == plaintext.len() + TAG_LEN
}

/// What `decrypt` pins down: whenever the ciphertext is an envelope for some
/// plaintext `p` under (pass, salt, nonce), the outcome is success and the
/// output is `p` itself.
pub open spec fn decrypt_pins(
    pass: Seq<u8>,
    salt: Seq<u8>,
    nonce: Seq<u8>,
    ct: Seq<u8>,
    ok: bool,
    out: Seq<u8>,
) -> bool {
    forall |p: Seq<u8>| #[trigger] fresh_envelope(pass, p, salt, nonce, ct) ==> ok && out == p
}

/// What a successful `decrypt` guarantees of its output: the ciphertext is
/// exactly the encryption of the output under the derived key and the nonce.
pub open spec fn decrypt_sound(
    pass: Seq<u8>,
    salt: Seq<u8>,
    nonce: Seq<u8>,
    ct: Seq<u8>,
    ok: bool,
    out: Seq<u8>,
) -> bool {
    ok ==> ct == aead_enc(pbkdf2_key_of(pass, salt), nonce, out)
        && ct.len() == out.len() + TAG_LEN
        && out.len() <= AEAD_P_MAX
}

/// Generates a fresh random salt and nonce, derives the key from the
/// passphrase and the salt, and authenticated-encrypts the plaintext.
/// Succeeds exactly when the plaintext is not longer than `AEAD_P_MAX`.
pub fn encrypt(plaintext: &[u8], password: &[u8]) -> (r: Result<(Vec<u8>, Vec<u8>, Vec<u8>), CryptoError>)
    ensures
        r matches Ok(t) ==> fresh_envelope(password@, plaintext@, t.0@, t.1@, t.2@),
        r is Ok <==> plaintext@.len() <= AEAD_P_MAX,
        r matches Err(e) ==> e is EncryptionFailed,
{
    let salt = random_bytes(SALT_LEN);
    let key = derive_key(password, salt.as_slice());
    let nonce = random_bytes(NONCE_LEN);
    match aead_encrypt(key.as_slice(), nonce.as_slice(), plaintext) {
        Ok(ct) => Ok((salt, nonce, ct)),
        Err(msg) => Err(CryptoError::EncryptionFailed(msg)),
    }
}

/// Re-derives the key from the passphrase and the salt, then authenticates
/// and decrypts. The authentication tag is the only defense against
/// tampering or a wrong passphrase: no partial output is ever released.
pub fn decrypt(ciphertext: &[u8], password: &[u8], salt: &[u8], nonce: &[u8]) -> (r: Result<Vec<u8>, CryptoError>)
    requires
        nonce@.len() == NONCE_LEN,
    ensures
        decrypt_pins(password@, salt@, nonce@, ciphertext@, r is Ok, r->Ok_0@),
        decrypt_sound(password@, salt@, nonce@, ciphertext@, r is Ok, r->Ok_0@),
        r matches Err(e) ==> e is DecryptionFailed,
{
    let key = derive_key(password, salt);
    // Above this length no encryption could have produced the input, and the
    // cipher's own cap no longer pins the plaintext: reject it here.
    if ciphertext.len() as u64 > AEAD_C_MAX {
        proof {
            assert forall |p: Seq<u8>|
                !(#[trigger] fresh_envelope(password@, p, salt@, nonce@, ciphertext@)) by {
            }
        }
        return Err(CryptoError::DecryptionFailed(
            "ciphertext exceeds the cipher's length limit".to_owned(),
        ));
    }
    let r0 = aead_decrypt(key.as_slice(), nonce, ciphertext);
    proof {
        if r0 is Err {
            assert forall |p: Seq<u8>|
                !(#[trigger] fresh_envelope(password@, p, salt@, nonce@, ciphertext@)) by {
                if fresh_envelope(password@, p, salt@, nonce@, ciphertext@) {
                    assert(ciphertext@ == aead_enc(key@, nonce@, p));
                }
            }
        }
    }
    match r0 {
        Ok(pt) => Ok(pt),
        Err(msg) => Err(CryptoError::DecryptionFailed(msg)),
    }
}

/// Round trip: whatever `decrypt` returns, under its contract, when handed an
/// envelope that `encrypt` produced for plaintext `p` under the same
/// passphrase, is success with output `p`.
pub proof fn lemma_value_round_trip(
    pass: Seq<u8>,
    p: Seq<u8>,
    salt: Seq<u8>,
    nonce: Seq<u8>,
    ct: Seq<u8>,
    ok: bool,
    out: Seq<u8>,
)
    requires
        fresh_envelope(pass, p, salt, nonce, ct),
        decrypt_pins(pass, salt, nonce, ct, ok, out),
    ensures
        ok,
        out == p,
{
}

/// Decryption succeeds only on authentic ciphertexts: a byte string that is
/// not the encryption of any plaintext under the key derived from the
/// passphrase and the salt is rejected.
pub proof fn lemma_decrypt_rejects_unauthentic(
    pass: Seq<u8>,
    salt: Seq<u8>,
    nonce: Seq<u8>,
    ct: Seq<u8>,
    ok: bool,
    out: Seq<u8>,
)
    requires
        forall |p: Seq<u8>| ct != #[trigger] aead_enc(pbkdf2_key_of(pass, salt), nonce, p),
        decrypt_sound(pass, salt, nonce, ct, ok, out),
    ensures
        !ok,
{
}

/// Key derivation is deterministic: any two keys derived from the same
/// passphrase and salt are equal.
pub proof fn lemma_derive_key_deterministic(pass: Seq<u8>, salt: Seq<u8>, k1: Seq<u8>, k2: Seq<u8>)
    requires
        k1 == pbkdf2_key_of(pass, salt),
        k2 == pbkdf2_key_of(pass, salt),
    ensures
        k1 == k2,
{
}

} // verus!
