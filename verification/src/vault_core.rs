//! The core: it turns an account into a vault in memory, keeps that vault while the user
//! works on it, and saves it. A core that is logged in is a type of its own, so that
//! nothing that needs a session can be asked of a core without one.

use crate::errors::CoreError;
use crate::errors::CryptographyError;
use crate::errors::VaultError;
use crate::key::CryptedVault;
use crate::password::{PasswordGenerator, PasswordRestriction};
use crate::vault::{added, distinct_ids, next_id, updated, Entry, EntryView, UncryptedVault};
use crate::xchacha20poly1305::{
    derived_key, opened, Cryptography, NoKeyCipher, NoKeyXChaCha20Poly1305, Opened,
    XChaCha20Poly1305,
};
use std::marker::PhantomData;
use vstd::prelude::*;

verus! {

/// Keeps the encrypted vault of an account on a server.
pub trait VaultManager {
    /// What the vault manager promises of a creation for `username` and `password`: of
    /// itself afterwards, and of what came back. Unless a vault manager says otherwise, it
    /// promises nothing.
    open spec fn creates(
        &self,
        username: Seq<char>,
        password: Seq<char>,
        after: &Self,
        outcome: Result<CryptedVault, VaultError>,
    ) -> bool {
        true
    }

    /// What the vault manager promises of a retrieval for `username` and `password`: of
    /// itself afterwards, and of what came back. Unless a vault manager says otherwise, it
    /// promises nothing.
    open spec fn retrieves(
        &self,
        username: Seq<char>,
        password: Seq<char>,
        after: &Self,
        outcome: Result<CryptedVault, VaultError>,
    ) -> bool {
        true
    }

    /// What the vault manager promises of what came of storing `content`. Unless a vault
    /// manager says otherwise, it promises nothing.
    open spec fn saves(&self, content: Seq<u8>, outcome: Result<(), VaultError>) -> bool {
        true
    }

    /// Registers the account, logs in and fetches its vault.
    fn create(&mut self, username: &str, password: &str) -> (crypted_vault: Result<
        CryptedVault,
        VaultError,
    >)
        ensures
            old(self).creates(username@, password@, final(self), crypted_vault),
    ;

    /// Logs in and fetches the vault of the account.
    fn retrieve(&mut self, username: &str, password: &str) -> (crypted_vault: Result<
        CryptedVault,
        VaultError,
    >)
        ensures
            old(self).retrieves(username@, password@, final(self), crypted_vault),
    ;

    /// Stores the encrypted vault.
    fn save(&self, content: Vec<u8>) -> (saved: Result<(), VaultError>)
        ensures
            self.saves(content@, saved),
    ;
}

/// A core without a session.
pub trait Core<VM: VaultManager, PG: PasswordGenerator, NKC: NoKeyCipher>: Sized {
    type LoggedType: LoggedCore<VM, PG, NKC::Crypto>;

    /// Creates the account and logs in. A failure of the vault manager comes back as
    /// `VaultManagerError`, a failure of the cipher as `CryptographyError`.
    fn create_account(self, username: &str, password: &str) -> (logged: Result<
        Self::LoggedType,
        CoreError,
    >)
        ensures
            logged is Err ==> logged->Err_0 is VaultManagerError || logged->Err_0
                is CryptographyError,
    ;

    /// Logs in. A failure of the vault manager comes back as `VaultManagerError`, a failure
    /// of the cipher as `CryptographyError`.
    fn logging_in(self, username: &str, password: &str) -> (logged: Result<
        Self::LoggedType,
        CoreError,
    >)
        ensures
            logged is Err ==> logged->Err_0 is VaultManagerError || logged->Err_0
                is CryptographyError,
    ;
}

/// A core with a session: it holds the vault and the cipher.
pub trait LoggedCore<VM: VaultManager, PG: PasswordGenerator, C: Cryptography> {
    /// The vault in memory.
    spec fn vault(&self) -> Seq<EntryView>;

    /// The entries of the vault, in its order.
    fn get_entries(&self) -> (entries: &[Entry])
        ensures
            entries@.map_values(|e: Entry| e@) == self.vault(),
            distinct_ids(self.vault()),
    ;

    /// Adds an entry to the vault in memory. Nothing is sent to the server.
    fn add_entry(&mut self, title: String, username: String, password: String)
        requires
            next_id(old(self).vault()) <= u64::MAX,
        ensures
            final(self).vault() == added(old(self).vault(), title@, username@, password@),
    ;

    /// Replaces an entry of the vault in memory, or appends it where its identifier is
    /// new. Nothing is sent to the server.
    fn update_entry(&mut self, entry: Entry)
        ensures
            final(self).vault() == updated(old(self).vault(), entry@),
    ;

    /// What the generator answers for `restrictions`: its password, or a
    /// `PasswordGeneratorError` with the text with which it declined them.
    fn generate_password(&self, restrictions: &PasswordRestriction) -> (password: Result<
        Vec<u8>,
        CoreError,
    >)
        ensures
            match password {
                Ok(password) => PG::accepts(*restrictions, password@),
                Err(CoreError::PasswordGeneratorError(text)) => PG::declines(
                    *restrictions,
                    text@,
                ),
                Err(_) => false,
            },
    ;

    /// Encrypts the vault and has the vault manager store it. The vault in memory stays as
    /// it is, whatever happens. A failure of the cipher comes back as `CryptographyError`, a
    /// failure of the vault manager as `VaultManagerError`.
    fn save_vault(&self) -> (saved: Result<(), CoreError>)
        ensures
            saved is Err ==> saved->Err_0 is CryptographyError || saved->Err_0
                is VaultManagerError,
    ;
}

/// The core before login: all it has is the vault manager.
pub struct CoreService<VM: VaultManager, PG: PasswordGenerator, NKC: NoKeyCipher> {
    vault_manager: VM,
    _phantom_pg: PhantomData<PG>,
    _phantom_nkc: PhantomData<NKC>,
}

/// The core after login.
pub struct LoggedCoreService<VM: VaultManager, PG: PasswordGenerator, C: Cryptography> {
    vault_manager: VM,
    _phantom: PhantomData<PG>,
    cryptography: C,
    vault: UncryptedVault,
}

/// The error that the core reports for a failure of the vault manager.
pub fn vault_manager_error(error: VaultError) -> (reported: CoreError)
    ensures
        reported matches CoreError::VaultManagerError(text) && text@ == error.message(),
{
    CoreError::VaultManagerError(error.to_string())
}

/// The error that the core reports for a failure of the cipher.
pub fn cryptography_error(error: CryptographyError) -> (reported: CoreError)
    ensures
        reported matches CoreError::CryptographyError(text) && text@ == error.message(),
{
    CoreError::CryptographyError(error.to_string())
}

impl<VM: VaultManager, PG: PasswordGenerator, NKC: NoKeyCipher> CoreService<VM, PG, NKC> {
    pub fn new(vault_manager: VM) -> (core: CoreService<VM, PG, NKC>)
        ensures
            core.vault_manager() == vault_manager,
    {
        Self { vault_manager, _phantom_pg: PhantomData, _phantom_nkc: PhantomData }
    }

    /// The vault manager of the core.
    pub closed spec fn vault_manager(&self) -> VM {
        self.vault_manager
    }

    /// `error` is an error with which the vault of `content` cannot be opened under `key`:
    /// either no cipher can be made from the key, or the cipher that is made from it fails
    /// to decrypt the content, which is not empty.
    pub open spec fn cannot_open(key: Seq<u8>, content: Seq<u8>, error: CryptographyError) -> bool {
        ||| NKC::fails(key, error)
        ||| content.len() > 0 && exists|cipher: NKC::Crypto|
            NKC::derives(key, cipher) && #[trigger] cipher.rejects(content, error)
    }

    /// `logged` is what opening `crypted_vault` comes to. A core that comes back holds the
    /// vault manager, the cipher that was made from the key, and the vault: the empty vault
    /// for empty content, which stands for a vault that has never been saved, and otherwise
    /// what the cipher reads from the content. An error that comes back is a
    /// `CryptographyError` with the text of the error of the cipher.
    pub open spec fn opens(
        vault_manager: VM,
        crypted_vault: CryptedVault,
        logged: Result<LoggedCoreService<VM, PG, NKC::Crypto>, CoreError>,
    ) -> bool {
        let key = crypted_vault.encryption_key@;
        let content = crypted_vault.content@;
        match logged {
            Ok(logged) => {
                &&& logged.vault_manager() == vault_manager
                &&& NKC::derives(key, logged.cryptography())
                &&& if content.len() == 0 {
                    logged.vault() == Seq::<EntryView>::empty()
                } else {
                    logged.cryptography().reads(content, logged.vault())
                }
            },
            Err(CoreError::CryptographyError(text)) => exists|error: CryptographyError|
                text@ == (#[trigger] error.message()) && Self::cannot_open(key, content, error),
            Err(_) => false,
        }
    }

    /// `logged` is what the core makes of what the vault manager answered: an encrypted
    /// vault is opened, and an error comes back as `VaultManagerError` with its text.
    pub open spec fn entered(
        vault_manager: VM,
        crypted_vault: Result<CryptedVault, VaultError>,
        logged: Result<LoggedCoreService<VM, PG, NKC::Crypto>, CoreError>,
    ) -> bool {
        match crypted_vault {
            Ok(crypted_vault) => Self::opens(vault_manager, crypted_vault, logged),
            Err(error) => logged matches Err(CoreError::VaultManagerError(text)) && text@
                == error.message(),
        }
    }

    /// Makes the cipher from the key that came with the encrypted vault, and opens the
    /// vault with it: the core that comes back holds that cipher and that vault. Empty
    /// content stands for a vault that has never been saved: it opens as the empty vault,
    /// whatever the cipher would make of it. Any failure is a failure of the cipher and
    /// comes back as `CryptographyError`.
    pub fn open(vault_manager: VM, crypted_vault: CryptedVault) -> (logged: Result<
        LoggedCoreService<VM, PG, NKC::Crypto>,
        CoreError,
    >)
        ensures
            Self::opens(vault_manager, crypted_vault, logged),
    {
        let ghost key = crypted_vault.encryption_key@;
        let ghost content = crypted_vault.content@;
        let cryptography = match NKC::create_cipher_from_key(
            crypted_vault.encryption_key.as_bytes(),
        ) {
            Ok(cryptography) => cryptography,
            Err(error) => {
                let ghost failure = error;
                let reported = cryptography_error(error);
                assert(Self::cannot_open(key, content, failure));
                return Err(reported);
            },
        };
        let vault = if crypted_vault.content.len() == 0 {
            UncryptedVault::new()
        } else {
            match cryptography.decrypt(crypted_vault.content.as_slice()) {
                Ok(vault) => vault,
                Err(error) => {
                    let ghost failure = error;
                    let reported = cryptography_error(error);
                    assert(cryptography.rejects(content, failure));
                    assert(Self::cannot_open(key, content, failure));
                    return Err(reported);
                },
            }
        };
        Ok(LoggedCoreService { vault_manager, _phantom: PhantomData, cryptography, vault })
    }

    /// What came of the vault manager's attempt to create or retrieve the vault, turned
    /// into a core that is logged in or into the core's error.
    pub fn enter(vault_manager: VM, crypted_vault: Result<CryptedVault, VaultError>) -> (logged:
        Result<LoggedCoreService<VM, PG, NKC::Crypto>, CoreError>)
        ensures
            Self::entered(vault_manager, crypted_vault, logged),
    {
        match crypted_vault {
            Ok(crypted_vault) => Self::open(vault_manager, crypted_vault),
            Err(error) => Err(vault_manager_error(error)),
        }
    }
}

impl<VM: VaultManager, PG: PasswordGenerator, NKC: NoKeyCipher> Core<VM, PG, NKC> for CoreService<
    VM,
    PG,
    NKC,
> {
    type LoggedType = LoggedCoreService<VM, PG, NKC::Crypto>;

    /// Has the vault manager create the account and its vault for `username` and
    /// `password`, and opens what it answers: the result is what `enter` makes of the vault
    /// manager as the creation left it and of what the creation came to.
    fn create_account(self, username: &str, password: &str) -> (logged: Result<
        Self::LoggedType,
        CoreError,
    >)
        ensures
            exists|manager: VM, created: Result<CryptedVault, VaultError>|
                #[trigger] self.vault_manager().creates(username@, password@, &manager, created)
                    && Self::entered(manager, created, logged),
    {
        let mut vault_manager = self.vault_manager;
        let ghost before = vault_manager;
        let crypted_vault = vault_manager.create(username, password);
        let ghost manager = vault_manager;
        let ghost created = crypted_vault;
        let logged = Self::enter(vault_manager, crypted_vault);
        assert(self.vault_manager() == before);
        assert(self.vault_manager().creates(username@, password@, &manager, created)
            && Self::entered(manager, created, logged));
        logged
    }

    /// Has the vault manager retrieve the vault for `username` and `password`, and opens
    /// what it answers: the result is what `enter` makes of the vault manager as the
    /// retrieval left it and of what the retrieval came to.
    fn logging_in(self, username: &str, password: &str) -> (logged: Result<
        Self::LoggedType,
        CoreError,
    >)
        ensures
            exists|manager: VM, retrieved: Result<CryptedVault, VaultError>|
                #[trigger] self.vault_manager().retrieves(
                    username@,
                    password@,
                    &manager,
                    retrieved,
                ) && Self::entered(manager, retrieved, logged),
    {
        let mut vault_manager = self.vault_manager;
        let ghost before = vault_manager;
        let crypted_vault = vault_manager.retrieve(username, password);
        let ghost manager = vault_manager;
        let ghost retrieved = crypted_vault;
        let logged = Self::enter(vault_manager, crypted_vault);
        assert(self.vault_manager() == before);
        assert(self.vault_manager().retrieves(username@, password@, &manager, retrieved)
            && Self::entered(manager, retrieved, logged));
        logged
    }
}

impl<VM: VaultManager, PG: PasswordGenerator, C: Cryptography> LoggedCoreService<VM, PG, C> {
    /// The vault manager of the core.
    pub closed spec fn vault_manager(&self) -> VM {
        self.vault_manager
    }

    /// The cipher of the core.
    pub closed spec fn cryptography(&self) -> C {
        self.cryptography
    }

    /// The identifier that `add_entry` would give now, or `None` where no identifier is
    /// left, so that `add_entry` must not be called.
    pub fn next_free_id(&self) -> (id: Option<u64>)
        ensures
            match id {
                Some(id) => id == next_id(self.vault()),
                None => next_id(self.vault()) > u64::MAX,
            },
    {
        self.vault.next_free_id()
    }

    /// `content` is what encrypting the vault in memory comes to: a blob that the cipher
    /// reads as the vault, or a `CryptographyError` with the text of the error with which
    /// the cipher refused the vault.
    pub open spec fn encrypted(&self, content: Result<Vec<u8>, CoreError>) -> bool {
        match content {
            Ok(content) => self.cryptography().reads(content@, self.vault()),
            Err(CoreError::CryptographyError(text)) => exists|error: CryptographyError| #[trigger]
                self.cryptography().refuses(self.vault(), error) && text@ == error.message(),
            Err(_) => false,
        }
    }

    /// `saved` is what saving the vault in memory comes to. Success means that the vault
    /// manager stored a blob that the cipher reads as the vault. A `CryptographyError` is
    /// the error with which the cipher refused the vault, and then nothing was handed to
    /// the vault manager. A `VaultManagerError` is the error with which the vault manager
    /// failed to store such a blob.
    pub open spec fn saved(&self, saved: Result<(), CoreError>) -> bool {
        match saved {
            Ok(_) => exists|content: Seq<u8>, stored: Result<(), VaultError>|
                self.cryptography().reads(content, self.vault())
                    && #[trigger] self.vault_manager().saves(content, stored) && stored is Ok,
            Err(CoreError::CryptographyError(text)) => exists|error: CryptographyError| #[trigger]
                self.cryptography().refuses(self.vault(), error) && text@ == error.message(),
            Err(CoreError::VaultManagerError(text)) => exists|
                content: Seq<u8>,
                stored: Result<(), VaultError>,
            |
                self.cryptography().reads(content, self.vault())
                    && #[trigger] self.vault_manager().saves(content, stored) && stored is Err
                    && text@ == stored->Err_0.message(),
            Err(_) => false,
        }
    }

    /// The encrypted vault as `save_vault` hands it to the vault manager: what the cipher
    /// makes of the vault in memory. A failure of the cipher comes back as
    /// `CryptographyError`.
    pub fn encrypt_vault(&self) -> (content: Result<Vec<u8>, CoreError>)
        ensures
            self.encrypted(content),
    {
        match self.cryptography.encrypt(&self.vault) {
            Ok(content) => Ok(content),
            Err(error) => {
                let ghost failure = error;
                let reported = cryptography_error(error);
                assert(self.cryptography().refuses(self.vault(), failure));
                Err(reported)
            },
        }
    }
}

impl<VM: VaultManager, PG: PasswordGenerator, C: Cryptography> LoggedCore<
    VM,
    PG,
    C,
> for LoggedCoreService<VM, PG, C> {
    closed spec fn vault(&self) -> Seq<EntryView> {
        self.vault@
    }

    fn get_entries(&self) -> (entries: &[Entry]) {
        self.vault.get_entries()
    }

    fn add_entry(&mut self, title: String, username: String, password: String)
        ensures
            final(self).vault_manager() == old(self).vault_manager(),
            final(self).cryptography() == old(self).cryptography(),
    {
        self.vault.add_entry(title, username, password);
    }

    fn update_entry(&mut self, entry: Entry)
        ensures
            final(self).vault_manager() == old(self).vault_manager(),
            final(self).cryptography() == old(self).cryptography(),
    {
        self.vault.update_entry(entry);
    }

    fn generate_password(&self, restrictions: &PasswordRestriction) -> (password: Result<
        Vec<u8>,
        CoreError,
    >) {
        match PG::generate_password(restrictions) {
            Ok(password) => Ok(password),
            Err(text) => Err(CoreError::PasswordGeneratorError(text)),
        }
    }

    fn save_vault(&self) -> (saved: Result<(), CoreError>)
        ensures
            self.saved(saved),
    {
        let content = match self.encrypt_vault() {
            Ok(content) => content,
            Err(error) => { return Err(error); },
        };
        let ghost blob = content@;
        let stored = self.vault_manager.save(content);
        assert(self.vault_manager().saves(blob, stored));
        match stored {
            Ok(()) => Ok(()),
            Err(error) => Err(vault_manager_error(error)),
        }
    }
}

/// With the library's cipher, content that is not authentic under the key that came with
/// it opens no core: what comes back is a `CryptographyError` with the text of a
/// `DecryptionError`. Whether content is authentic is for the cipher to say.
pub proof fn lemma_content_that_is_not_authentic_opens_no_core<
    VM: VaultManager,
    PG: PasswordGenerator,
>(
    vault_manager: VM,
    crypted_vault: CryptedVault,
    logged: Result<LoggedCoreService<VM, PG, XChaCha20Poly1305>, CoreError>,
)
    requires
        CoreService::<VM, PG, NoKeyXChaCha20Poly1305>::opens(vault_manager, crypted_vault, logged),
        crypted_vault.content@.len() > 0,
        opened(derived_key(crypted_vault.encryption_key@), crypted_vault.content@)
            == Opened::NotAuthentic,
    ensures
        logged matches Err(CoreError::CryptographyError(text)) && exists|error: CryptographyError|
            error is DecryptionError && text@ == #[trigger] error.message(),
{
    let key = crypted_vault.encryption_key@;
    let content = crypted_vault.content@;
    match logged {
        Ok(core) => {
            assert(core.cryptography().key() == derived_key(key));
        },
        Err(CoreError::CryptographyError(text)) => {
            let error = choose|error: CryptographyError|
                text@ == (#[trigger] error.message()) && CoreService::<
                    VM,
                    PG,
                    NoKeyXChaCha20Poly1305,
                >::cannot_open(key, content, error);
            let cipher = choose|cipher: XChaCha20Poly1305|
                NoKeyXChaCha20Poly1305::derives(key, cipher) && #[trigger] cipher.rejects(
                    content,
                    error,
                );
            assert(error is DecryptionError);
        },
        Err(_) => {},
    }
}

} // verus!
