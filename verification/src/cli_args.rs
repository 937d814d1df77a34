//! The command surface, as plain data: which workflow to run and with what
//! arguments. Reading the actual command line is the caller's part.

use vstd::prelude::*;

verus! {

/// Validate a configuration file.
#[derive(Debug, Clone, PartialEq)]
pub struct ValidateArgs {
    /// Path to the config file.
    pub file: String,
}

/// Encrypt a raw config file.
#[derive(Debug, Clone, PartialEq)]
pub struct EncryptArgs {
    /// Path to the raw config file.
    pub file: String,
    /// Output file path, when not derived from the input path.
    pub output: Option<String>,
}

/// Decrypt an encrypted config file.
#[derive(Debug, Clone, PartialEq)]
pub struct DecryptArgs {
    /// Path to the encrypted config file.
    pub file: String,
    /// Output file path, when not derived from the input path.
    pub output: Option<String>,
}

/// Encrypt all raw config files in a folder.
#[derive(Debug, Clone, PartialEq)]
pub struct EncryptAllArgs {
    /// Parent input folder holding the raw and encrypted subfolders.
    pub input: String,
}

/// Decrypt all encrypted config files in a folder.
#[derive(Debug, Clone, PartialEq)]
pub struct DecryptAllArgs {
    /// Parent input folder holding the encrypted and raw subfolders.
    pub input: String,
}

/// Push secrets to the listed repositories.
#[derive(Debug, Clone, PartialEq)]
pub struct PushArgs {
    /// Path to the raw config file.
    pub file: String,
    /// Base URL of the secrets API.
    pub api_url: String,
}

/// The workflows the command line offers.
#[derive(Debug, Clone, PartialEq)]
pub enum Commands {
    Validate(ValidateArgs),
    Encrypt(EncryptArgs),
    Decrypt(DecryptArgs),
    EncryptAll(EncryptAllArgs),
    DecryptAll(DecryptAllArgs),
    Push(PushArgs),
}

/// A parsed command line.
#[derive(Debug, Clone, PartialEq)]
pub struct Cli {
    pub command: Commands,
}

} // verus!
