use ferris_vault::errors::{CoreError, CryptographyError, VaultError};
use ferris_vault::key::{CryptedVault, Key};
use ferris_vault::password::{PasswordGenerator, PasswordRestriction, SecurePasswordGenerator};
use ferris_vault::vault::{Entry, UncryptedVault};
use ferris_vault::vault_core::{
    cryptography_error, vault_manager_error, Core, CoreService, LoggedCore, VaultManager,
};
use ferris_vault::xchacha20poly1305::{Cryptography, NoKeyCipher, NoKeyXChaCha20Poly1305};

const USERNAME: &'static str = "username";
const PASSWORD: &'static str = "password";
const TITLE: &'static str = "title";

#[test]
fn should_create_account() {
    // A-rrange

    let mock_vault_manager = MockVaultManager::new(false);
    let core_service: CoreService<MockVaultManager, MockPasswordGenerator, MockNoKeyCipher> =
        CoreService::new(mock_vault_manager);

    // A-ct

    let result = core_service.create_account(USERNAME, PASSWORD);

    // A-ssert

    assert!(result.is_ok());
    assert_eq!(result.unwrap().get_entries().len(), 0);
}

#[test]
fn should_logging() {
    // A-rrange

    let mock_vault_manager = MockVaultManager::new(false);
    let core_service: CoreService<MockVaultManager, MockPasswordGenerator, MockNoKeyCipher> =
        CoreService::new(mock_vault_manager);

    // A-ct

    let result = core_service.logging_in(USERNAME, PASSWORD);

    // A-ssert

    assert!(result.is_ok());
    assert_eq!(result.unwrap().get_entries().len(), 0);
}

#[test]
fn should_get_entries() {
    // A-rrange

    let mock_vault_manager = MockVaultManager::new(false);
    let core_service: CoreService<MockVaultManager, MockPasswordGenerator, MockNoKeyCipher> =
        CoreService::new(mock_vault_manager);
    let logged_core_service = core_service.create_account(USERNAME, PASSWORD).unwrap();

    // A-ct

    let result = logged_core_service.get_entries();

    // A-ssert
    assert_eq!(result.len(), 0);
}

#[test]
fn should_add_entry() {
    // A-rrange

    let mock_vault_manager = MockVaultManager::new(false);
    let core_service: CoreService<MockVaultManager, MockPasswordGenerator, MockNoKeyCipher> =
        CoreService::new(mock_vault_manager);
    let mut logged_core_service = core_service.create_account(USERNAME, PASSWORD).unwrap();

    // A-ct

    logged_core_service.add_entry(
        TITLE.to_string(),
        USERNAME.to_string(),
        PASSWORD.to_string(),
    );

    let result = logged_core_service.get_entries();

    // A-ssert
    assert_eq!(result.len(), 1);
    assert_eq!(result.get(0).unwrap().title, TITLE);
    assert_eq!(result.get(0).unwrap().username, USERNAME);
    assert_eq!(result.get(0).unwrap().password, PASSWORD);
}

#[test]
fn should_generate_password() {
    // A-rrange

    let mock_vault_manager = MockVaultManager::new(false);
    let core_service: CoreService<MockVaultManager, MockPasswordGenerator, MockNoKeyCipher> =
        CoreService::new(mock_vault_manager);
    let logged_core_service = core_service.create_account(USERNAME, PASSWORD).unwrap();
    let restrictions = PasswordRestriction {
        length: 18,
        lower_case: true,
        upper_case: true,
        numbers: true,
        special_characters: true,
    };

    // A-ct

    let result = logged_core_service.generate_password(&restrictions);

    // A-ssert
    assert!(result.is_ok());
    assert_eq!(result.unwrap(), vec![42]);
}

#[test]
fn vault_core_tests_should_save_vault() {
    // A-rrange

    let mock_vault_manager = MockVaultManager::new(false);
    let core_service: CoreService<MockVaultManager, MockPasswordGenerator, MockNoKeyCipher> =
        CoreService::new(mock_vault_manager);
    let logged_core_service = core_service.create_account(USERNAME, PASSWORD).unwrap();

    // A-ct

    let result = logged_core_service.save_vault();

    // A-ssert
    assert!(result.is_ok());
}

struct MockVaultManager {
    mock_in_error: bool,
    content: Vec<u8>,
    fail_on_save: bool,
}

impl MockVaultManager {
    fn new(mock_in_error: bool) -> Self {
        Self { mock_in_error, content: vec![], fail_on_save: mock_in_error }
    }

    fn with_content(content: Vec<u8>) -> Self {
        Self { mock_in_error: false, content, fail_on_save: false }
    }
}

impl VaultManager for MockVaultManager {
    fn create(&mut self, _: &str, _: &str) -> Result<CryptedVault, VaultError> {
        match self.mock_in_error {
            true => Err(VaultError::Internal("mock error".to_string())),
            false => Ok(CryptedVault {
                content: self.content.clone(),
                encryption_key: Key::new(vec![42; 64]),
            }),
        }
    }

    fn retrieve(&mut self, _: &str, _: &str) -> Result<CryptedVault, VaultError> {
        match self.mock_in_error {
            true => Err(VaultError::Internal("mock error".to_string())),
            false => Ok(CryptedVault {
                content: self.content.clone(),
                encryption_key: Key::new(vec![42; 64]),
            }),
        }
    }

    fn save(&self, _: Vec<u8>) -> Result<(), VaultError> {
        match self.fail_on_save {
            true => Err(VaultError::Internal("mock error".to_string())),
            false => Ok(()),
        }
    }
}

struct MockCryptography {
    mock_in_error: bool,
}

impl MockCryptography {
    fn new(mock_in_error: bool) -> Self {
        Self { mock_in_error }
    }
}

impl Cryptography for MockCryptography {
    fn encrypt(&self, _: &UncryptedVault) -> Result<Vec<u8>, CryptographyError> {
        match self.mock_in_error {
            true => Err(CryptographyError::EncryptionError("mock error".to_string())),
            false => Ok(vec![42]),
        }
    }

    fn decrypt(&self, _: &[u8]) -> Result<UncryptedVault, CryptographyError> {
        match self.mock_in_error {
            true => Err(CryptographyError::DecryptionError("mock error".to_string())),
            false => Ok(UncryptedVault::new()),
        }
    }
}

struct MockNoKeyCipher;

impl NoKeyCipher for MockNoKeyCipher {
    type Crypto = MockCryptography;

    fn create_cipher_from_key(_: &[u8]) -> Result<Self::Crypto, CryptographyError> {
        Ok(MockCryptography::new(false))
    }
}

struct FailingNoKeyCipher;

impl NoKeyCipher for FailingNoKeyCipher {
    type Crypto = MockCryptography;

    fn create_cipher_from_key(_: &[u8]) -> Result<Self::Crypto, CryptographyError> {
        Err(CryptographyError::DerivationError("mock error".to_string()))
    }
}

struct BrokenNoKeyCipher;

impl NoKeyCipher for BrokenNoKeyCipher {
    type Crypto = MockCryptography;

    fn create_cipher_from_key(_: &[u8]) -> Result<Self::Crypto, CryptographyError> {
        Ok(MockCryptography::new(true))
    }
}

struct MockPasswordGenerator;

impl PasswordGenerator for MockPasswordGenerator {
    fn generate_password(_: &PasswordRestriction) -> Result<Vec<u8>, String> {
        Ok(vec![42])
    }
}

#[test]
fn a_failure_of_the_vault_manager_is_reported_as_such() {
    let core_service: CoreService<MockVaultManager, MockPasswordGenerator, MockNoKeyCipher> =
        CoreService::new(MockVaultManager::new(true));
    match core_service.create_account(USERNAME, PASSWORD) {
        Err(CoreError::VaultManagerError(text)) => {
            assert_eq!(text, "Internal error : mock error")
        }
        _ => panic!("should be VaultManagerError"),
    }
    let core_service: CoreService<MockVaultManager, MockPasswordGenerator, MockNoKeyCipher> =
        CoreService::new(MockVaultManager::new(true));
    match core_service.logging_in(USERNAME, PASSWORD) {
        Err(CoreError::VaultManagerError(text)) => {
            assert_eq!(text, "Internal error : mock error")
        }
        _ => panic!("should be VaultManagerError"),
    }
}

#[test]
fn a_failure_to_make_the_cipher_is_reported_as_such() {
    let core_service: CoreService<MockVaultManager, MockPasswordGenerator, FailingNoKeyCipher> =
        CoreService::new(MockVaultManager::new(false));
    match core_service.logging_in(USERNAME, PASSWORD) {
        Err(CoreError::CryptographyError(text)) => {
            assert_eq!(text, "Error couldn't derive the key: mock error")
        }
        _ => panic!("should be CryptographyError"),
    }
}

#[test]
fn a_failure_to_decrypt_is_reported_as_such() {
    let core_service: CoreService<MockVaultManager, MockPasswordGenerator, BrokenNoKeyCipher> =
        CoreService::new(MockVaultManager::with_content(vec![1]));
    match core_service.logging_in(USERNAME, PASSWORD) {
        Err(CoreError::CryptographyError(text)) => {
            assert_eq!(text, "Error couldn't decrypt data: mock error")
        }
        _ => panic!("should be CryptographyError"),
    }
}

#[test]
fn empty_content_opens_as_the_empty_vault_without_the_cipher() {
    let core_service: CoreService<MockVaultManager, MockPasswordGenerator, BrokenNoKeyCipher> =
        CoreService::new(MockVaultManager::with_content(vec![]));
    let logged = core_service.logging_in(USERNAME, PASSWORD).unwrap();
    assert_eq!(logged.get_entries().len(), 0);

    let core_service: CoreService<
        MockVaultManager,
        MockPasswordGenerator,
        NoKeyXChaCha20Poly1305,
    > = CoreService::new(MockVaultManager::with_content(vec![]));
    let logged = core_service.create_account(USERNAME, PASSWORD).unwrap();
    assert_eq!(logged.get_entries().len(), 0);
}

#[test]
fn content_is_decrypted_with_the_key_that_came_with_it() {
    let mut vault = UncryptedVault::new();
    vault.add_entry("title".to_string(), "alice".to_string(), "s3cret".to_string());
    let cipher = NoKeyXChaCha20Poly1305::create_cipher_from_key(&[42; 64]).unwrap();
    let content = cipher.encrypt(&vault).unwrap();

    let core_service: CoreService<
        MockVaultManager,
        MockPasswordGenerator,
        NoKeyXChaCha20Poly1305,
    > = CoreService::new(MockVaultManager::with_content(content.clone()));
    let logged = core_service.logging_in(USERNAME, PASSWORD).unwrap();
    assert_eq!(logged.get_entries().len(), 1);
    assert_eq!(logged.get_entries()[0].title, "title");

    let core_service: CoreService<
        MockVaultManager,
        MockPasswordGenerator,
        NoKeyXChaCha20Poly1305,
    > = CoreService::new(MockVaultManager::with_content(content));
    let logged = core_service.create_account(USERNAME, PASSWORD).unwrap();
    assert_eq!(logged.get_entries().len(), 1);
}

#[test]
fn what_is_saved_is_the_encrypted_vault() {
    let core_service: CoreService<
        MockVaultManager,
        SecurePasswordGenerator,
        NoKeyXChaCha20Poly1305,
    > = CoreService::new(MockVaultManager::new(false));
    let mut logged = core_service.create_account(USERNAME, PASSWORD).unwrap();
    logged.add_entry("title".to_string(), "alice".to_string(), "s3cret".to_string());
    let content = logged.encrypt_vault().unwrap();
    let cipher = NoKeyXChaCha20Poly1305::create_cipher_from_key(&[42; 64]).unwrap();
    let vault = cipher.decrypt(&content).unwrap();
    assert_eq!(vault.get_entries().len(), 1);
    assert_eq!(vault.get_entries()[0].password, "s3cret");
}

#[test]
fn a_failure_to_save_is_reported_and_changes_nothing() {
    let mut manager = MockVaultManager::new(false);
    manager.fail_on_save = true;
    let core_service: CoreService<MockVaultManager, MockPasswordGenerator, MockNoKeyCipher> =
        CoreService::new(manager);
    let mut logged = core_service.create_account(USERNAME, PASSWORD).unwrap();
    logged.add_entry("title".to_string(), "alice".to_string(), "s3cret".to_string());
    match logged.save_vault() {
        Err(CoreError::VaultManagerError(text)) => assert_eq!(text, "Internal error : mock error"),
        _ => panic!("should be VaultManagerError"),
    }
    assert_eq!(logged.get_entries().len(), 1);
}

#[test]
fn a_failure_to_encrypt_is_reported_and_changes_nothing() {
    let core_service: CoreService<MockVaultManager, MockPasswordGenerator, BrokenNoKeyCipher> =
        CoreService::new(MockVaultManager::new(false));
    let mut logged = core_service.create_account(USERNAME, PASSWORD).unwrap();
    logged.add_entry("title".to_string(), "alice".to_string(), "s3cret".to_string());
    match logged.save_vault() {
        Err(CoreError::CryptographyError(text)) => {
            assert_eq!(text, "Error couldn't encrypt data: mock error")
        }
        _ => panic!("should be CryptographyError"),
    }
    assert_eq!(logged.get_entries().len(), 1);
}

#[test]
fn the_core_updates_entries() {
    let core_service: CoreService<MockVaultManager, MockPasswordGenerator, MockNoKeyCipher> =
        CoreService::new(MockVaultManager::new(false));
    let mut logged = core_service.create_account(USERNAME, PASSWORD).unwrap();
    logged.add_entry("a".to_string(), "u".to_string(), "p".to_string());
    logged.add_entry("b".to_string(), "u".to_string(), "p".to_string());
    logged.update_entry(Entry::new(0, "c".to_string(), "u".to_string(), "p".to_string()));
    let ids: Vec<u64> = logged.get_entries().iter().map(|entry| entry.id()).collect();
    assert_eq!(ids, vec![1, 0]);
    assert_eq!(logged.get_entries()[1].title, "c");
}

#[test]
fn the_core_reports_what_the_generator_refuses() {
    let core_service: CoreService<
        MockVaultManager,
        SecurePasswordGenerator,
        MockNoKeyCipher,
    > = CoreService::new(MockVaultManager::new(false));
    let logged = core_service.create_account(USERNAME, PASSWORD).unwrap();
    let mut restrictions = PasswordRestriction {
        length: 0,
        lower_case: true,
        upper_case: true,
        numbers: true,
        special_characters: true,
    };
    match logged.generate_password(&restrictions) {
        Err(CoreError::PasswordGeneratorError(text)) => {
            assert_eq!(text, "A password cannot be of length 0.")
        }
        _ => panic!("should be PasswordGeneratorError"),
    }
    restrictions.length = 3;
    match logged.generate_password(&restrictions) {
        Err(CoreError::PasswordGeneratorError(text)) => {
            assert_eq!(text, "There cannot be more restrictions than the desired length.")
        }
        _ => panic!("should be PasswordGeneratorError"),
    }
    restrictions.length = 18;
    assert_eq!(logged.generate_password(&restrictions).unwrap().len(), 18);
    restrictions.lower_case = false;
    restrictions.upper_case = false;
    restrictions.numbers = false;
    restrictions.special_characters = false;
    match logged.generate_password(&restrictions) {
        Err(CoreError::PasswordGeneratorError(text)) => {
            assert_eq!(text, "You must choose at least one password restriction.")
        }
        _ => panic!("should be PasswordGeneratorError"),
    }
}

#[test]
fn the_errors_of_the_core_have_their_texts() {
    assert_eq!(
        CoreError::InternalError("a".to_string()).to_string(),
        "Internal error on core: a"
    );
    assert_eq!(
        CoreError::VaultManagerError("b".to_string()).to_string(),
        "Error in the vault manager adapter: b"
    );
    assert_eq!(
        CoreError::CryptographyError("c".to_string()).to_string(),
        "Error in the cryptography adapter: c"
    );
    assert_eq!(
        CoreError::PasswordGeneratorError("d".to_string()).to_string(),
        "Error in the password generator: d"
    );
    assert_eq!(
        vault_manager_error(VaultError::NotFound).to_string(),
        "Error in the vault manager adapter: Vault not found"
    );
    assert_eq!(
        cryptography_error(CryptographyError::MissingKeyError).to_string(),
        "Error in the cryptography adapter: Error couldn't find the key."
    );
}

#[test]
fn a_key_holds_its_bytes() {
    let key = Key::new(vec![1, 2, 3]);
    assert_eq!(key.as_bytes(), &[1, 2, 3]);
    let vault = CryptedVault::new(vec![4], key);
    assert_eq!(vault.content, vec![4]);
    assert_eq!(vault.encryption_key.as_bytes(), &[1, 2, 3]);
}
