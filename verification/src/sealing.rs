//! Trusted surface of the sealing library: the sealed-box construction and
//! its key type.

use sodiumoxide::crypto::box_::PublicKey as SodiumPublicKey;
use sodiumoxide::crypto::sealedbox::seal as sodium_seal;
use sodiumoxide::init as sodium_library_init;
use vstd::prelude::*;

verus! {

/// Number of bytes a sealed box adds to the message: the ephemeral public
/// key followed by the authentication tag.
pub const SEAL_OVERHEAD: usize = 48;

/// Length in bytes of a recipient public key.
pub const PUBLIC_KEY_LEN: usize = 32;

#[verifier::external_type_specification]
#[verifier::external_body]
pub struct ExSodiumPublicKey(SodiumPublicKey);

/// Relies on sodiumoxide::init: one-time initialization of the sealing
/// library, `Ok` exactly when it succeeded. Nothing else is promised.
#[verifier::external_body]
pub(crate) fn sodium_init() -> Result<(), ()> {
    sodium_library_init()
}

/// Relies on sodiumoxide's PublicKey::from_slice: it accepts exactly the
/// slices of the fixed public-key length.
#[verifier::external_body]
pub(crate) fn pk_from_slice(bytes: &[u8]) -> (r: Option<SodiumPublicKey>)
    ensures
        r is Some <==> bytes@.len() == PUBLIC_KEY_LEN,
{
    SodiumPublicKey::from_slice(bytes)
}

/// Relies on sodiumoxide's sealedbox::seal: the ciphertext is exactly
/// `SEAL_OVERHEAD` bytes longer than the message. The construction draws a
/// fresh ephemeral key pair, so nothing is promised of the bytes themselves.
#[verifier::external_body]
pub(crate) fn sealedbox_seal(m: &[u8], pk: &SodiumPublicKey) -> (r: Vec<u8>)
    ensures
        r@.len() == m@.len() + SEAL_OVERHEAD,
{
    sodium_seal(m, pk)
}

} // verus!
