//! The library's top-level error: which subsystem failed first, with its
//! failure. Every operation surfaces the first failure it encounters; no
//! operation swallows or retries one.

use vstd::prelude::*;
use crate::crypto::CryptoError;
use crate::github::GithubError;

verus! {

#[derive(Debug)]
pub enum GsmError {
    /// The envelope cipher failed.
    Crypto(CryptoError),
    /// The transport sealer or the secrets API failed.
    Github(GithubError),
    /// An envelope field was not valid standard base64.
    Base64(String),
    /// Decrypted bytes were not valid UTF-8 text.
    Utf8(String),
}

} // verus!
