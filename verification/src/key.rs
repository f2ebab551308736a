//! The key that the account protocol exports, and the encrypted vault it belongs to.

use vstd::prelude::*;

verus! {

/// The number of bytes of the key that the account protocol exports for encrypting the
/// vault.
pub const EXPORT_KEY_LENGTH: usize = 64;

/// Key material for the cipher.
pub struct Key {
    data: Vec<u8>,
}

impl View for Key {
    type V = Seq<u8>;

    closed spec fn view(&self) -> Seq<u8> {
        self.data@
    }
}

impl Key {
    pub fn new(data: Vec<u8>) -> (key: Self)
        ensures
            key@ == data@,
    {
        Self { data }
    }

    pub fn as_bytes(&self) -> (bytes: &[u8])
        ensures
            bytes@ == self@,
    {
        self.data.as_slice()
    }
}

/// An encrypted vault as the server keeps it, with the key material that its cipher is made
/// from. Empty content stands for a vault that has never been saved.
pub struct CryptedVault {
    pub content: Vec<u8>,
    pub encryption_key: Key,
}

impl CryptedVault {
    pub fn new(content: Vec<u8>, encryption_key: Key) -> (vault: Self)
        ensures
            vault.content@ == content@,
            vault.encryption_key@ == encryption_key@,
    {
        Self { content, encryption_key }
    }
}

} // verus!
