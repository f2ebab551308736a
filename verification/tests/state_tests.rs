use ferris_vault::config::{AppConfig, ServerInfo};
use ferris_vault::state::{
    complete, get_value_from_lines, handle_key, step_back, step_on, Command, CurrentScreen,
    InputMode, Key, State,
};
use ferris_vault::state::CurrentScreen::{Entry, Home, Password, Vault, VaultName};
use ferris_vault::state::InputMode::{CreatingEntry, Loggin, Neutral, Register};
use ferris_vault::vault::UncryptedVault;
use ferris_vault::vault_entry::entries_to_vault_entries;

#[test]
fn the_address_of_the_server() {
    assert_eq!(ServerInfo::new("localhost".to_string(), 8080).get_server_url(), "localhost:8080");
    assert_eq!(ServerInfo::new("http://a.b".to_string(), 0).get_server_url(), "http://a.b:0");
    assert_eq!(ServerInfo::new("".to_string(), 65535).get_server_url(), ":65535");
}

#[test]
fn the_path_of_the_configuration() {
    let args = vec!["program".to_string(), "config.toml".to_string(), "more".to_string()];
    assert_eq!(AppConfig::config_path(&args), Ok("config.toml".to_string()));
    assert_eq!(
        AppConfig::config_path(&vec!["program".to_string()]),
        Err("First argument should be the config path.".to_string())
    );
    assert_eq!(
        AppConfig::config_path(&Vec::new()),
        Err("First argument should be the config path.".to_string())
    );
}

#[test]
fn entries_for_the_list() {
    let mut vault = UncryptedVault::new();
    vault.add_entry("a".to_string(), "u".to_string(), "p".to_string());
    vault.add_entry("b".to_string(), "v".to_string(), "q".to_string());
    let entries = entries_to_vault_entries(vault.get_entries());
    assert_eq!(entries.len(), 2);
    assert_eq!(entries[0].0.id(), 0);
    assert_eq!(entries[0].0.title, "a");
    assert_eq!(entries[1].0.id(), 1);
    assert_eq!(entries[1].0.username, "v");
    assert_eq!(entries[1].0.password, "q");
    assert!(entries_to_vault_entries(&[]).is_empty());
}

#[test]
fn the_value_of_a_field_is_its_first_line() {
    assert_eq!(get_value_from_lines(&[]), "");
    assert_eq!(get_value_from_lines(&["".to_string()]), "");
    assert_eq!(get_value_from_lines(&["a".to_string()]), "a");
    assert_eq!(get_value_from_lines(&["a".to_string(), "b".to_string()]), "a");
}

#[test]
fn the_selection_goes_round() {
    assert_eq!(step_back(0, 0), None);
    assert_eq!(step_on(0, 0), None);
    assert_eq!(step_back(0, 1), Some(0));
    assert_eq!(step_on(0, 1), Some(0));
    assert_eq!(step_back(0, 3), Some(2));
    assert_eq!(step_back(2, 3), Some(1));
    assert_eq!(step_on(1, 3), Some(2));
    assert_eq!(step_on(2, 3), Some(0));
    assert_eq!(step_on(7, 3), Some(0));
}

#[test]
fn the_state_keeps_the_selection() {
    let mut state = State::new();
    assert_eq!(state.previous_vault(), None);
    assert_eq!(state.next_vault(), None);
    state.set_vault_items(vec!["a".to_string(), "b".to_string()]);
    state.add_vault_item("c");
    assert_eq!(state.get_vault_items(), &["a", "b", "c"]);
    assert_eq!(state.next_vault(), Some(1));
    assert_eq!(state.next_vault(), Some(2));
    assert_eq!(state.next_vault(), Some(0));
    assert_eq!(state.previous_vault(), Some(2));
    assert_eq!(state.index_vault_item, 2);

    assert_eq!(state.next_entry(0), None);
    assert_eq!(state.next_entry(2), Some(1));
    assert_eq!(state.next_entry(2), Some(0));
    assert_eq!(state.previous_entry(2), Some(1));
    assert_eq!(state.index_entry_item, 1);

    assert_eq!(state.switch_entry_textarea(), 1);
    assert_eq!(state.switch_entry_textarea(), 0);
    assert_eq!(state.selected_entry_textarea, 0);
}

fn check(
    screen: CurrentScreen,
    mode: InputMode,
    key: Key,
    expected: (CurrentScreen, InputMode, Command),
) {
    let response = handle_key(screen, mode, key);
    assert_eq!((response.screen, response.mode, response.command), expected);
}

#[test]
fn keys_on_the_home_screen() {
    check(Home, Neutral, Key::Char('q'), (Home, Neutral, Command::Exit));
    check(Home, Neutral, Key::Char('c'), (VaultName, Register, Command::Nothing));
    check(Home, Neutral, Key::Enter, (Password, Loggin, Command::Nothing));
    check(Home, Neutral, Key::Up, (Home, Neutral, Command::PreviousVault));
    check(Home, Neutral, Key::Down, (Home, Neutral, Command::NextVault));
    check(Home, Neutral, Key::Char('x'), (Home, Neutral, Command::Nothing));
    check(Home, Neutral, Key::Esc, (Home, Neutral, Command::Nothing));
    check(Home, Neutral, Key::Tab, (Home, Neutral, Command::Nothing));
}

#[test]
fn keys_on_the_screen_of_the_vault_name() {
    check(VaultName, Register, Key::Esc, (Home, Neutral, Command::Nothing));
    check(VaultName, Register, Key::Enter, (Password, Register, Command::Nothing));
    check(VaultName, Loggin, Key::Enter, (VaultName, Loggin, Command::Nothing));
    check(VaultName, Register, Key::Char('q'), (VaultName, Register, Command::EditVaultName));
    check(VaultName, Register, Key::Up, (VaultName, Register, Command::EditVaultName));
    check(VaultName, Register, Key::Tab, (VaultName, Register, Command::EditVaultName));
}

#[test]
fn keys_on_the_screen_of_the_password() {
    check(Password, Loggin, Key::Esc, (Home, Neutral, Command::Nothing));
    check(Password, Loggin, Key::Enter, (Password, Loggin, Command::Login));
    check(Password, Register, Key::Enter, (Password, Register, Command::Register));
    check(Password, Neutral, Key::Enter, (Password, Neutral, Command::Nothing));
    check(Password, CreatingEntry, Key::Enter, (Password, CreatingEntry, Command::Nothing));
    check(Password, Loggin, Key::Char('q'), (Password, Loggin, Command::EditPassword));
    check(Password, Loggin, Key::Other, (Password, Loggin, Command::EditPassword));
}

#[test]
fn keys_on_the_screen_of_the_vault() {
    check(Vault, Neutral, Key::Char('q'), (Vault, Neutral, Command::Exit));
    check(Vault, Neutral, Key::Char('c'), (Vault, Neutral, Command::CopyPassword));
    check(Vault, Neutral, Key::Enter, (Vault, Neutral, Command::SaveVault));
    check(Vault, Neutral, Key::Char('a'), (Entry, CreatingEntry, Command::Nothing));
    check(Vault, Neutral, Key::Up, (Vault, Neutral, Command::PreviousEntry));
    check(Vault, Neutral, Key::Down, (Vault, Neutral, Command::NextEntry));
    check(Vault, Neutral, Key::Esc, (Vault, Neutral, Command::Nothing));
    check(Vault, Neutral, Key::Char('A'), (Vault, Neutral, Command::Nothing));
}

#[test]
fn keys_on_the_screen_of_an_entry() {
    check(Entry, CreatingEntry, Key::Esc, (Vault, Neutral, Command::Nothing));
    check(Entry, CreatingEntry, Key::Tab, (Entry, CreatingEntry, Command::SwitchEntryField));
    check(Entry, CreatingEntry, Key::Enter, (Entry, CreatingEntry, Command::AddEntry));
    check(Entry, Neutral, Key::Enter, (Entry, Neutral, Command::Nothing));
    check(Entry, CreatingEntry, Key::Char('a'), (Entry, CreatingEntry, Command::EditEntry));
    check(Entry, CreatingEntry, Key::Down, (Entry, CreatingEntry, Command::EditEntry));
}

#[test]
fn the_screen_after_a_command() {
    assert_eq!(complete(Password, Loggin, Command::Login), (Vault, Neutral));
    assert_eq!(complete(Password, Register, Command::Register), (Vault, Neutral));
    assert_eq!(complete(Entry, CreatingEntry, Command::AddEntry), (Vault, Neutral));
    assert_eq!(complete(Vault, Neutral, Command::SaveVault), (Vault, Neutral));
    assert_eq!(complete(Home, Neutral, Command::NextVault), (Home, Neutral));
    assert_eq!(complete(Entry, CreatingEntry, Command::EditEntry), (Entry, CreatingEntry));
    assert_eq!(complete(Home, Neutral, Command::Exit), (Home, Neutral));
}
