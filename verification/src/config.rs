//! The configuration document and its encrypted counterpart, as value
//! objects, together with their mathematical views.

use vstd::prelude::*;

verus! {

/// A plaintext configuration document: an organization, its target
/// repositories in listed order, and a mapping of environment names to
/// plaintext text values. Keys are expected to be unique.
#[derive(Debug, Clone, PartialEq)]
pub struct Config {
    pub org: String,
    pub repositories: Vec<String>,
    pub env: Vec<(String, String)>,
}

/// One encrypted environment value: the envelope's salt, nonce and
/// ciphertext, each field in standard base64.
#[derive(Debug, Clone, PartialEq)]
pub struct EncryptedValue {
    pub salt: String,
    pub nonce: String,
    pub ciphertext: String,
}

/// The encrypted counterpart of `Config`: the same organization and
/// repositories carried through unencrypted, with every environment value
/// replaced by its envelope.
#[derive(Debug, Clone, PartialEq)]
pub struct EncryptedConfig {
    pub org: String,
    pub repositories: Vec<String>,
    pub env: Vec<(String, EncryptedValue)>,
}

/// The view of a `Config`: every string as its character sequence.
pub ghost struct ConfigV {
    pub org: Seq<char>,
    pub repositories: Seq<Seq<char>>,
    pub env: Seq<(Seq<char>, Seq<char>)>,
}

/// The view of an `EncryptedValue`.
pub ghost struct EncryptedValueV {
    pub salt: Seq<char>,
    pub nonce: Seq<char>,
    pub ciphertext: Seq<char>,
}

/// The view of an `EncryptedConfig`.
pub ghost struct EncryptedConfigV {
    pub org: Seq<char>,
    pub repositories: Seq<Seq<char>>,
    pub env: Seq<(Seq<char>, EncryptedValueV)>,
}

impl View for Config {
    type V = ConfigV;

    open spec fn view(&self) -> ConfigV {
        ConfigV {
            org: self.org@,
            repositories: self.repositories@.map_values(|s: String| s@),
            env: self.env@.map_values(|p: (String, String)| (p.0@, p.1@)),
        }
    }
}

impl View for EncryptedValue {
    type V = EncryptedValueV;

    open spec fn view(&self) -> EncryptedValueV {
        EncryptedValueV {
            salt: self.salt@,
            nonce: self.nonce@,
            ciphertext: self.ciphertext@,
        }
    }
}

impl View for EncryptedConfig {
    type V = EncryptedConfigV;

    open spec fn view(&self) -> EncryptedConfigV {
        EncryptedConfigV {
            org: self.org@,
            repositories: self.repositories@.map_values(|s: String| s@),
            env: self.env@.map_values(|p: (String, EncryptedValue)| (p.0@, p.1@)),
        }
    }
}

/// The document invariant on an environment mapping: no key occurs twice.
pub open spec fn env_keys_unique<T>(env: Seq<(Seq<char>, T)>) -> bool {
    forall |i: int, j: int|
        0 <= i < j < env.len() ==> #[trigger] env[i].0 != #[trigger] env[j].0
}

} // verus!
