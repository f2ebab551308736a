//! The cipher that turns a vault into an encrypted blob and back: XChaCha20-Poly1305 under a
//! 32-byte key, with a fresh random nonce in front of every blob.

use crate::codec::{decode_vault, encodable, encode_vault};
use crate::errors::CryptographyError;
use crate::vault::{distinct_ids, EntryView, UncryptedVault};
use vstd::prelude::*;
use vstd::slice::slice_subrange;
use vstd::slice::slice_to_vec;
use vstd::string::StringExecFns;
use vstd::utf8::encode_utf8;

use chacha20poly1305::aead::Aead;
use chacha20poly1305::AeadCore;
use chacha20poly1305::KeyInit;

verus! {

/// The number of bytes of a nonce.
pub const NONCE_LENGTH: usize = 24;

/// The number of bytes of a key.
pub const KEY_LENGTH: usize = 32;

/// The number of bytes of the authentication tag at the end of a blob.
pub const TAG_LENGTH: usize = 16;

/// The label under which a cipher key is derived from other key material.
pub const KEY_INFO: &'static str = "xchacha20-poly1305-key";

/// What HKDF with SHA-256 and no salt expands to `length` bytes from the input key material
/// `ikm` under the label `info`.
pub uninterp spec fn hkdf_sha256(ikm: Seq<u8>, info: Seq<u8>, length: nat) -> Seq<u8>;

/// What XChaCha20-Poly1305 makes of `plaintext` under `key` and `nonce`, without associated
/// data: the ciphertext followed by its tag.
pub uninterp spec fn xchacha20poly1305_seal(key: Seq<u8>, nonce: Seq<u8>, plaintext: Seq<u8>) -> Seq<
    u8,
>;

/// The plaintext that XChaCha20-Poly1305 recovers from `sealed` under `key` and `nonce`,
/// without associated data, or `None` where it rejects `sealed`.
pub uninterp spec fn xchacha20poly1305_open(key: Seq<u8>, nonce: Seq<u8>, sealed: Seq<u8>) -> Option<
    Seq<u8>,
>;

/// `Hkdf::<Sha256>::new` without a salt, followed by `Hkdf::expand`, of `hkdf`. The
/// expansion succeeds exactly where at most 255 blocks of 32 bytes are asked for, and then
/// gives `length` bytes that depend on `ikm`, `info` and `length` alone. The error comes
/// back as its text.
#[verifier::external_body]
fn hkdf_sha256_expand(ikm: &[u8], info: &[u8], length: usize) -> (okm: Result<Vec<u8>, String>)
    ensures
        okm is Ok <==> length <= 255 * 32,
        okm is Ok ==> okm->Ok_0@ == hkdf_sha256(ikm@, info@, length as nat),
        okm is Ok ==> okm->Ok_0@.len() == length,
{
    let hkdf = hkdf::Hkdf::<sha2::Sha256>::new(None, ikm);
    let mut okm = vec![0u8; length];
    match hkdf.expand(info, &mut okm) {
        Ok(()) => Ok(okm),
        Err(error) => Err(error.to_string()),
    }
}

/// `AeadCore::generate_nonce` of `chacha20poly1305` with the random number generator of the
/// operating system: 24 bytes, of which nothing else is known.
#[verifier::external_body]
fn fresh_nonce() -> (nonce: Vec<u8>)
    ensures
        nonce@.len() == 24,
{
    chacha20poly1305::XChaCha20Poly1305::generate_nonce(&mut chacha20poly1305::aead::OsRng).to_vec()
}

/// `KeyInit::new` and `Aead::encrypt` of `chacha20poly1305::XChaCha20Poly1305`. Encryption
/// fails exactly where the plaintext would take 2^32 - 1 blocks of 64 bytes or more.
/// Otherwise the result is the plaintext's length and 16 bytes long, depends on the three
/// arguments alone, and is what `Aead::decrypt` turns back into the plaintext under the same
/// key and nonce. The error comes back as its text.
#[verifier::external_body]
fn seal(key: &[u8], nonce: &[u8], plaintext: &[u8]) -> (sealed: Result<Vec<u8>, String>)
    requires
        key@.len() == 32,
        nonce@.len() == 24,
    ensures
        sealed is Ok <==> plaintext@.len() / 64 < 0xFFFF_FFFF,
        sealed is Ok ==> sealed->Ok_0@ == xchacha20poly1305_seal(key@, nonce@, plaintext@),
        sealed is Ok ==> sealed->Ok_0@.len() == plaintext@.len() + 16,
        sealed is Ok ==> xchacha20poly1305_open(key@, nonce@, sealed->Ok_0@) == Some(plaintext@),
{
    let cipher = chacha20poly1305::XChaCha20Poly1305::new(chacha20poly1305::Key::from_slice(key));
    match cipher.encrypt(chacha20poly1305::XNonce::from_slice(nonce), plaintext) {
        Ok(sealed) => Ok(sealed),
        Err(error) => Err(error.to_string()),
    }
}

/// `KeyInit::new` and `Aead::decrypt` of `chacha20poly1305::XChaCha20Poly1305`. The outcome
/// depends on the three arguments alone. Fewer than 16 bytes are always rejected, and a
/// plaintext that comes back is 16 bytes shorter than what was opened. The error comes back
/// as its text.
#[verifier::external_body]
fn open(key: &[u8], nonce: &[u8], sealed: &[u8]) -> (plaintext: Result<Vec<u8>, String>)
    requires
        key@.len() == 32,
        nonce@.len() == 24,
    ensures
        match plaintext {
            Ok(plaintext) => xchacha20poly1305_open(key@, nonce@, sealed@) == Some(plaintext@),
            Err(_) => xchacha20poly1305_open(key@, nonce@, sealed@) is None,
        },
        sealed@.len() < 16 ==> plaintext is Err,
        plaintext is Ok ==> plaintext->Ok_0@.len() + 16 == sealed@.len(),
{
    let cipher = chacha20poly1305::XChaCha20Poly1305::new(chacha20poly1305::Key::from_slice(key));
    match cipher.decrypt(chacha20poly1305::XNonce::from_slice(nonce), sealed) {
        Ok(plaintext) => Ok(plaintext),
        Err(error) => Err(error.to_string()),
    }
}

/// The key that a cipher made from `material` works with: `material` itself where it is 32
/// bytes long, and otherwise the 32 bytes that HKDF with SHA-256 derives from it.
pub open spec fn derived_key(material: Seq<u8>) -> Seq<u8> {
    if material.len() == 32 {
        material
    } else {
        hkdf_sha256(material, encode_utf8(KEY_INFO@), 32)
    }
}

/// What decrypting a blob comes to.
pub enum Opened {
    /// The blob holds this vault.
    Vault(Seq<EntryView>),
    /// The blob is too short, or the cipher rejects it: it was not made with this key, or
    /// it was changed since.
    NotAuthentic,
    /// The cipher accepts the blob, but what it holds is no vault.
    NotAVault,
}

/// What decrypting `blob` under `key` comes to. The first 24 bytes of a blob are its nonce;
/// the rest is the encrypted vault with its tag.
pub open spec fn opened(key: Seq<u8>, blob: Seq<u8>) -> Opened {
    if blob.len() < 24 + 16 {
        Opened::NotAuthentic
    } else {
        match xchacha20poly1305_open(key, blob.take(24), blob.skip(24)) {
            Some(plaintext) => match decode_vault(plaintext) {
                Some(entries) => Opened::Vault(entries),
                None => Opened::NotAVault,
            },
            None => Opened::NotAuthentic,
        }
    }
}

/// The blob that holds the vault `entries` encrypted under `key` with `nonce`.
pub open spec fn sealed_vault(key: Seq<u8>, nonce: Seq<u8>, entries: Seq<EntryView>) -> Seq<u8> {
    nonce + xchacha20poly1305_seal(key, nonce, encode_vault(entries))
}

/// Encrypts vaults and decrypts blobs.
pub trait Cryptography {
    /// What the cipher promises of a blob and the vault that it stands for. Unless a cipher
    /// says otherwise, it promises nothing.
    open spec fn reads(&self, blob: Seq<u8>, entries: Seq<EntryView>) -> bool {
        true
    }

    /// What the cipher promises of the error with which it fails to encrypt a vault. Unless
    /// a cipher says otherwise, it promises nothing.
    open spec fn refuses(&self, entries: Seq<EntryView>, error: CryptographyError) -> bool {
        true
    }

    /// What the cipher promises of the error with which it fails to decrypt a blob. Unless
    /// a cipher says otherwise, it promises nothing.
    open spec fn rejects(&self, blob: Seq<u8>, error: CryptographyError) -> bool {
        true
    }

    /// The blob that stands for the vault.
    fn encrypt(&self, uncrypted_vault: &UncryptedVault) -> (blob: Result<
        Vec<u8>,
        CryptographyError,
    >)
        ensures
            blob is Ok ==> self.reads(blob->Ok_0@, uncrypted_vault@),
            blob is Err ==> self.refuses(uncrypted_vault@, blob->Err_0),
    ;

    /// The vault that the blob stands for.
    fn decrypt(&self, vault: &[u8]) -> (uncrypted_vault: Result<UncryptedVault, CryptographyError>)
        ensures
            uncrypted_vault is Ok ==> self.reads(vault@, uncrypted_vault->Ok_0@),
            uncrypted_vault is Err ==> self.rejects(vault@, uncrypted_vault->Err_0),
    ;
}

/// Makes a cipher from key material.
pub trait NoKeyCipher {
    type Crypto: Cryptography;

    /// What is promised of the cipher that is made from `key`. Unless a maker of ciphers
    /// says otherwise, it promises nothing.
    open spec fn derives(key: Seq<u8>, cipher: Self::Crypto) -> bool {
        true
    }

    /// What is promised of the error with which no cipher can be made from `key`. Unless a
    /// maker of ciphers says otherwise, it promises nothing.
    open spec fn fails(key: Seq<u8>, error: CryptographyError) -> bool {
        true
    }

    /// The cipher for `key`.
    fn create_cipher_from_key(key: &[u8]) -> (cipher: Result<Self::Crypto, CryptographyError>)
        ensures
            cipher is Ok ==> Self::derives(key@, cipher->Ok_0),
            cipher is Err ==> Self::fails(key@, cipher->Err_0),
    ;
}

/// The cipher before it has a key.
pub struct NoKeyXChaCha20Poly1305;

/// The cipher with its key, which stays the same for as long as the cipher lives.
pub struct XChaCha20Poly1305 {
    key: Vec<u8>,
}

impl XChaCha20Poly1305 {
    #[verifier::type_invariant]
    spec fn key_has_its_length(self) -> bool {
        self.key@.len() == 32
    }

    /// The 32 bytes of the key.
    pub closed spec fn key(&self) -> Seq<u8> {
        self.key@
    }
}

impl NoKeyCipher for NoKeyXChaCha20Poly1305 {
    type Crypto = XChaCha20Poly1305;

    /// The cipher works with the key that is derived from the key material.
    open spec fn derives(key: Seq<u8>, cipher: XChaCha20Poly1305) -> bool {
        cipher.key() == derived_key(key)
    }

    /// A cipher can be made from any key material: there is no such error.
    open spec fn fails(key: Seq<u8>, error: CryptographyError) -> bool {
        false
    }

    /// A cipher whose key is `key` itself where that is 32 bytes long, and is derived from
    /// `key` otherwise. Key material of any length is accepted.
    fn create_cipher_from_key(key: &[u8]) -> (cipher: Result<XChaCha20Poly1305, CryptographyError>)
        ensures
            cipher is Ok,
            cipher->Ok_0.key() == derived_key(key@),
    {
        if key.len() == KEY_LENGTH {
            return Ok(XChaCha20Poly1305 { key: slice_to_vec(key) });
        }
        match hkdf_sha256_expand(key, KEY_INFO.as_bytes(), KEY_LENGTH) {
            Ok(derived) => Ok(XChaCha20Poly1305 { key: derived }),
            Err(text) => Err(CryptographyError::DerivationError(text)),
        }
    }
}

impl Cryptography for XChaCha20Poly1305 {
    /// A blob stands for the vault that decrypting it under the cipher's key gives.
    open spec fn reads(&self, blob: Seq<u8>, entries: Seq<EntryView>) -> bool {
        opened(self.key(), blob) == Opened::Vault(entries)
    }

    /// Encryption fails with `EncryptionError`, and only where the vault's bytes are more
    /// than the cipher can take.
    open spec fn refuses(&self, entries: Seq<EntryView>, error: CryptographyError) -> bool {
        error is EncryptionError && encode_vault(entries).len() / 64 >= 0xFFFF_FFFF
    }

    /// Decryption fails with `DecryptionError` on a blob that is not authentic, and with
    /// `BinaryDecodingError` on an authentic blob that holds no vault.
    open spec fn rejects(&self, blob: Seq<u8>, error: CryptographyError) -> bool {
        match opened(self.key(), blob) {
            Opened::Vault(_) => false,
            Opened::NotAuthentic => error is DecryptionError,
            Opened::NotAVault => error is BinaryDecodingError,
        }
    }

    /// The vault's bytes, encrypted under a nonce that is drawn afresh and put in front.
    /// What follows the nonce is what the cipher opens, under the same key and that nonce,
    /// to exactly the vault's bytes, so that the whole decrypts to the same vault.
    /// Encryption fails only where the vault's bytes are more than the cipher can take.
    fn encrypt(&self, uncrypted_vault: &UncryptedVault) -> (blob: Result<Vec<u8>, CryptographyError>)
        ensures
            blob is Ok <==> encode_vault(uncrypted_vault@).len() / 64 < 0xFFFF_FFFF,
            match blob {
                Ok(blob) => {
                    &&& blob@.len() == 24 + encode_vault(uncrypted_vault@).len() + 16
                    &&& blob@ == sealed_vault(self.key(), blob@.take(24), uncrypted_vault@)
                    &&& xchacha20poly1305_open(self.key(), blob@.take(24), blob@.skip(24)) == Some(
                        encode_vault(uncrypted_vault@),
                    )
                    &&& opened(self.key(), blob@) == Opened::Vault(uncrypted_vault@)
                },
                Err(error) => error is EncryptionError,
            },
    {
        proof {
            use_type_invariant(self);
        }
        let data = match uncrypted_vault.as_bytes() {
            Ok(data) => data,
            Err(error) => { return Err(error); },
        };
        let nonce = fresh_nonce();
        let sealed = match seal(self.key.as_slice(), nonce.as_slice(), data.as_slice()) {
            Ok(sealed) => sealed,
            Err(text) => { return Err(CryptographyError::EncryptionError(text)); },
        };
        let ghost nonce_bytes = nonce@;
        let ghost sealed_bytes = sealed@;
        let mut crypted_vault = nonce;
        let mut tail = sealed;
        crypted_vault.append(&mut tail);
        proof {
            assert(crypted_vault@ == nonce_bytes + sealed_bytes);
            assert(crypted_vault@.take(24) == nonce_bytes);
            assert(crypted_vault@.skip(24) == sealed_bytes);
            lemma_decrypt_inverts_encrypt(self.key(), crypted_vault@, uncrypted_vault@);
        }
        Ok(crypted_vault)
    }

    /// The vault that `crypted_vault` holds. A blob of fewer than 40 bytes, and one that the
    /// cipher rejects, fail with `DecryptionError`; a blob that the cipher accepts but that
    /// holds no vault fails with `BinaryDecodingError`.
    fn decrypt(&self, crypted_vault: &[u8]) -> (vault: Result<UncryptedVault, CryptographyError>)
        ensures
            match vault {
                Ok(vault) => opened(self.key(), crypted_vault@) == Opened::Vault(vault@),
                Err(error) => match opened(self.key(), crypted_vault@) {
                    Opened::Vault(_) => false,
                    Opened::NotAuthentic => error is DecryptionError,
                    Opened::NotAVault => error is BinaryDecodingError,
                },
            },
    {
        proof {
            use_type_invariant(self);
        }
        if crypted_vault.len() < NONCE_LENGTH + TAG_LENGTH {
            return Err(
                CryptographyError::DecryptionError(
                    String::from_str("the encrypted vault is too short"),
                ),
            );
        }
        let nonce = slice_subrange(crypted_vault, 0, NONCE_LENGTH);
        let data = slice_subrange(crypted_vault, NONCE_LENGTH, crypted_vault.len());
        assert(nonce@ == crypted_vault@.take(24));
        assert(data@ == crypted_vault@.skip(24));
        match open(self.key.as_slice(), nonce, data) {
            Ok(plaintext) => UncryptedVault::decode(plaintext.as_slice()),
            Err(text) => Err(CryptographyError::DecryptionError(text)),
        }
    }
}

/// Decrypting undoes encrypting: a blob whose first 24 bytes are a nonce, and whose other
/// bytes the cipher opens under the key and that nonce to the bytes of a vault, decrypts
/// under the key to that vault. This is what `encrypt` hands out.
pub proof fn lemma_decrypt_inverts_encrypt(key: Seq<u8>, blob: Seq<u8>, entries: Seq<EntryView>)
    requires
        blob.len() >= 40,
        distinct_ids(entries),
        encodable(entries),
        xchacha20poly1305_open(key, blob.take(24), blob.skip(24)) == Some(encode_vault(entries)),
    ensures
        opened(key, blob) == Opened::Vault(entries),
{
    crate::codec::lemma_encode_is_stable(entries);
}

/// A blob that the cipher does not open under the key is not authentic: decrypting it gives
/// neither a vault nor the report that it holds no vault.
pub proof fn lemma_unopened_blob_is_not_authentic(key: Seq<u8>, blob: Seq<u8>)
    requires
        blob.len() >= 40,
        xchacha20poly1305_open(key, blob.take(24), blob.skip(24)) is None,
    ensures
        opened(key, blob) == Opened::NotAuthentic,
{
}

/// Ciphers made from key material that derives to the same key decrypt every blob alike,
/// and what one of them encrypts the other decrypts to the same vault.
pub proof fn lemma_equal_keys_decrypt_alike(
    first: Seq<u8>,
    second: Seq<u8>,
    blob: Seq<u8>,
    nonce: Seq<u8>,
    entries: Seq<EntryView>,
)
    requires
        derived_key(first) == derived_key(second),
    ensures
        opened(derived_key(first), blob) == opened(derived_key(second), blob),
        opened(derived_key(second), sealed_vault(derived_key(first), nonce, entries)) == opened(
            derived_key(first),
            sealed_vault(derived_key(first), nonce, entries),
        ),
{
}

/// The same key material always derives to the same key.
pub proof fn lemma_derivation_is_a_function(first: Seq<u8>, second: Seq<u8>)
    requires
        first == second,
    ensures
        derived_key(first) == derived_key(second),
{
}

/// A blob of fewer than 40 bytes is never accepted.
pub proof fn lemma_short_blob_rejected(key: Seq<u8>, blob: Seq<u8>)
    requires
        blob.len() < 40,
    ensures
        opened(key, blob) == Opened::NotAuthentic,
{
}

} // verus!
