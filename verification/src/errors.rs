//! The error types of the library, each with the text it is shown as.

use vstd::prelude::*;
use vstd::string::StringExecFns;

verus! {

/// `prefix` followed by `detail`.
pub fn prefixed(prefix: &str, detail: &str) -> (text: String)
    ensures
        text@ == prefix@ + detail@,
{
    let mut text = String::from_str(prefix);
    text.append(detail);
    text
}

/// What can go wrong between the vault in memory and its encrypted bytes.
#[derive(Debug)]
pub enum CryptographyError {
    MissingKeyError,
    DerivationError(String),
    BinaryEncodingError(String),
    BinaryDecodingError(String),
    EncryptionError(String),
    DecryptionError(String),
}

impl CryptographyError {
    /// The text that `to_string` gives.
    pub open spec fn message(&self) -> Seq<char> {
        match self {
            CryptographyError::MissingKeyError => "Error couldn't find the key."@,
            CryptographyError::DerivationError(detail) => "Error couldn't derive the key: "@
                + detail@,
            CryptographyError::BinaryEncodingError(detail) => 
                "Error couldn't encode struct to binary: "@ + detail@,
            CryptographyError::BinaryDecodingError(detail) => 
                "Error couldn't decode struct to binary: "@ + detail@,
            CryptographyError::EncryptionError(detail) => "Error couldn't encrypt data: "@
                + detail@,
            CryptographyError::DecryptionError(detail) => "Error couldn't decrypt data: "@
                + detail@,
        }
    }

    pub fn to_string(&self) -> (text: String)
        ensures
            text@ == self.message(),
    {
        match self {
            CryptographyError::MissingKeyError => String::from_str("Error couldn't find the key."),
            CryptographyError::DerivationError(detail) => prefixed(
                "Error couldn't derive the key: ",
                detail.as_str(),
            ),
            CryptographyError::BinaryEncodingError(detail) => prefixed(
                "Error couldn't encode struct to binary: ",
                detail.as_str(),
            ),
            CryptographyError::BinaryDecodingError(detail) => prefixed(
                "Error couldn't decode struct to binary: ",
                detail.as_str(),
            ),
            CryptographyError::EncryptionError(detail) => prefixed(
                "Error couldn't encrypt data: ",
                detail.as_str(),
            ),
            CryptographyError::DecryptionError(detail) => prefixed(
                "Error couldn't decrypt data: ",
                detail.as_str(),
            ),
        }
    }
}

/// What can go wrong between the client and the server that keeps the encrypted vault.
#[derive(Debug)]
pub enum VaultError {
    ExchangeFailed(String),
    AlreadyLoggedIn(String),
    NotLoggedIn(String),
    NotFound,
    Internal(String),
}

impl VaultError {
    /// The text that `to_string` gives.
    pub open spec fn message(&self) -> Seq<char> {
        match self {
            VaultError::ExchangeFailed(detail) => "Error during webserver's exchange : "@
                + detail@,
            VaultError::AlreadyLoggedIn(detail) => "Already logged in : "@ + detail@,
            VaultError::NotLoggedIn(detail) => "Not logged in : "@ + detail@,
            VaultError::NotFound => "Vault not found"@,
            VaultError::Internal(detail) => "Internal error : "@ + detail@,
        }
    }

    pub fn to_string(&self) -> (text: String)
        ensures
            text@ == self.message(),
    {
        match self {
            VaultError::ExchangeFailed(detail) => prefixed(
                "Error during webserver's exchange : ",
                detail.as_str(),
            ),
            VaultError::AlreadyLoggedIn(detail) => prefixed(
                "Already logged in : ",
                detail.as_str(),
            ),
            VaultError::NotLoggedIn(detail) => prefixed("Not logged in : ", detail.as_str()),
            VaultError::NotFound => String::from_str("Vault not found"),
            VaultError::Internal(detail) => prefixed("Internal error : ", detail.as_str()),
        }
    }
}

/// What the core reports to its caller: which collaborator failed, and that collaborator's
/// own words.
#[derive(Debug)]
pub enum CoreError {
    InternalError(String),
    VaultManagerError(String),
    CryptographyError(String),
    PasswordGeneratorError(String),
}

impl CoreError {
    /// The text that `to_string` gives.
    pub open spec fn message(&self) -> Seq<char> {
        match self {
            CoreError::InternalError(detail) => "Internal error on core: "@ + detail@,
            CoreError::VaultManagerError(detail) => "Error in the vault manager adapter: "@
                + detail@,
            CoreError::CryptographyError(detail) => "Error in the cryptography adapter: "@
                + detail@,
            CoreError::PasswordGeneratorError(detail) => "Error in the password generator: "@
                + detail@,
        }
    }

    pub fn to_string(&self) -> (text: String)
        ensures
            text@ == self.message(),
    {
        match self {
            CoreError::InternalError(detail) => prefixed(
                "Internal error on core: ",
                detail.as_str(),
            ),
            CoreError::VaultManagerError(detail) => prefixed(
                "Error in the vault manager adapter: ",
                detail.as_str(),
            ),
            CoreError::CryptographyError(detail) => prefixed(
                "Error in the cryptography adapter: ",
                detail.as_str(),
            ),
            CoreError::PasswordGeneratorError(detail) => prefixed(
                "Error in the password generator: ",
                detail.as_str(),
            ),
        }
    }
}

} // verus!
