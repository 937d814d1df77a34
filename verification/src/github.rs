//! Transport sealer: encrypts a secret against a repository's public key so
//! that only the holder of the matching private key can open it, and the
//! data carried to and from the repository secrets API.

use vstd::prelude::*;
use vstd::string::StringSliceAdditionalSpecFns;
use vstd::utf8::encode_utf8;
use crate::encoding::b64_decode;
use crate::encoding::b64_encode;
use crate::encoding::b64_of;
use crate::sealing::pk_from_slice;
use crate::sealing::sealedbox_seal;
use crate::sealing::sodium_init;
use crate::sealing::PUBLIC_KEY_LEN;
use crate::sealing::SEAL_OVERHEAD;

verus! {

#[derive(Debug)]
pub enum GithubError {
    HttpError(String),
    Base64Error(String),
    SodiumInitError,
    InvalidPublicKeyLength,
}

/// A repository's current public key, as the API hands it out: the key in
/// standard base64 and its identifier.
#[derive(Debug, Clone, PartialEq)]
pub struct RepoPublicKey {
    pub key: String,
    pub key_id: String,
}

/// The payload of one secret upsert: the sealed value in standard base64
/// and the identifier of the key it was sealed against.
#[derive(Debug, Clone, PartialEq)]
pub struct SecretBody {
    pub encrypted_value: String,
    pub key_id: String,
}

/// Seals `secret` against the recipient public key, given in standard
/// base64. The key must decode to exactly `PUBLIC_KEY_LEN` bytes; a key that
/// is not valid base64 is rejected as a decode error, one of the wrong
/// length as an invalid key length, before anything is sealed. Only the
/// sealing library's own one-time initialization may fail besides.
pub fn encrypt_github_secret(public_key_b64: &str, secret: &str) -> (r: Result<String, GithubError>)
    ensures
        r matches Ok(s) ==> (exists |sealed: Seq<u8>|
            s@ == #[trigger] b64_of(sealed)
                && sealed.len() == encode_utf8(secret@).len() + SEAL_OVERHEAD),
        r matches Ok(s) ==> (exists |k: Seq<u8>|
            public_key_b64@ == #[trigger] b64_of(k) && k.len() == PUBLIC_KEY_LEN),
        r matches Err(e) ==> e is SodiumInitError || e is Base64Error
            || e is InvalidPublicKeyLength,
        (forall |k: Seq<u8>| public_key_b64@ != #[trigger] b64_of(k))
            ==> r is Err && (r->Err_0 is Base64Error || r->Err_0 is SodiumInitError),
        forall |k: Seq<u8>| public_key_b64@ == #[trigger] b64_of(k) && k.len() != PUBLIC_KEY_LEN
            ==> r is Err && (r->Err_0 is InvalidPublicKeyLength || r->Err_0 is SodiumInitError),
        forall |k: Seq<u8>| public_key_b64@ == #[trigger] b64_of(k) && k.len() == PUBLIC_KEY_LEN
            ==> r is Ok || (r is Err && r->Err_0 is SodiumInitError),
{
    if sodium_init().is_err() {
        return Err(GithubError::SodiumInitError);
    }
    let decoded = b64_decode(public_key_b64);
    let public_key_bytes = match decoded {
        Ok(b) => b,
        Err(msg) => {
            return Err(GithubError::Base64Error(msg));
        },
    };
    let pk = match pk_from_slice(public_key_bytes.as_slice()) {
        Some(pk) => pk,
        None => {
            return Err(GithubError::InvalidPublicKeyLength);
        },
    };
    let sealed = sealedbox_seal(secret.as_bytes(), &pk);
    let out = b64_encode(sealed.as_slice());
    proof {
        assert(sealed@.len() == encode_utf8(secret@).len() + SEAL_OVERHEAD);
    }
    Ok(out)
}

} // verus!
