//! Management of organization secrets kept in a YAML-shaped document.
//!
//! The core is an envelope cipher (passphrase-based key derivation plus
//! authenticated encryption of single values), a config transcoder that
//! applies it to every entry of a name-to-value mapping, a transport sealer
//! that encrypts a secret against a repository's public key, and a push
//! orchestrator that drives key fetches and secret upserts for a run.

pub mod cli_args;
pub mod config;
pub mod crypto;
pub mod crypto_ops;
pub mod encoding;
pub mod error;
pub mod github;
pub mod push;
pub mod sealing;
pub mod utils;
