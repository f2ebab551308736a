//! What the screens of the program show and how keys move between them. Drawing the
//! screens and reading the keys is left to the caller.

use vstd::prelude::*;

verus! {

/// The screens of the program.
#[derive(Clone, Copy, Debug, PartialEq, Eq, Structural)]
pub enum CurrentScreen {
    /// The list of known vaults.
    Home,
    /// The field for the name of a new vault.
    VaultName,
    /// The field for the master password.
    Password,
    /// The list of the entries of the open vault.
    Vault,
    /// The fields for the title and the user name of a new entry.
    Entry,
}

/// What the text typed on a screen is for.
#[derive(Clone, Copy, Debug, PartialEq, Eq, Structural)]
pub enum InputMode {
    Neutral,
    Register,
    Loggin,
    CreatingEntry,
}

/// A key, as far as the program tells keys apart.
#[derive(Clone, Copy, Debug, PartialEq, Eq, Structural)]
pub enum Key {
    Char(char),
    Enter,
    Esc,
    Tab,
    Up,
    Down,
    Other,
}

/// What a key asks the program to do, apart from changing the screen.
#[derive(Clone, Copy, Debug, PartialEq, Eq, Structural)]
pub enum Command {
    /// Nothing.
    Nothing,
    /// Leave the program.
    Exit,
    /// Move the selection in the list of vaults up.
    PreviousVault,
    /// Move the selection in the list of vaults down.
    NextVault,
    /// Move the selection in the list of entries up.
    PreviousEntry,
    /// Move the selection in the list of entries down.
    NextEntry,
    /// Hand the key to the field for the vault's name.
    EditVaultName,
    /// Hand the key to the field for the password.
    EditPassword,
    /// Hand the key to the field of the entry that is active.
    EditEntry,
    /// Make the other field of the entry the active one.
    SwitchEntryField,
    /// Log in to the selected vault with the password typed.
    Login,
    /// Create the vault with the name and the password typed.
    Register,
    /// Copy the password of the selected entry to the clipboard.
    CopyPassword,
    /// Save the vault.
    SaveVault,
    /// Add an entry with the title and the user name typed.
    AddEntry,
}

/// The screen and the mode after a key, and what the key asks for.
pub struct Response {
    pub screen: CurrentScreen,
    pub mode: InputMode,
    pub command: Command,
}

/// The response that stays on the screen and asks for `command`.
pub open spec fn stay(screen: CurrentScreen, mode: InputMode, command: Command) -> Response {
    Response { screen, mode, command }
}

/// The response that goes to `screen` in `mode` and asks for nothing else.
pub open spec fn go(screen: CurrentScreen, mode: InputMode) -> Response {
    Response { screen, mode, command: Command::Nothing }
}

/// What `key` does on `screen` in `mode`.
///
/// On the two lists, `q` leaves the program and the arrows move the selection. On the home
/// screen `c` leads to the name of a new vault and Enter to the password of the selected
/// one; on the vault's screen `c` copies a password, `a` leads to a new entry and Enter
/// saves. On the three screens with fields, Esc leads back, Enter confirms where the mode
/// has something to confirm, and any other key is typed into the field. On the entry's
/// screen Tab changes the field.
pub open spec fn response(screen: CurrentScreen, mode: InputMode, key: Key) -> Response {
    match screen {
        CurrentScreen::Home => match key {
            Key::Char('q') => stay(screen, mode, Command::Exit),
            Key::Char('c') => go(CurrentScreen::VaultName, InputMode::Register),
            Key::Enter => go(CurrentScreen::Password, InputMode::Loggin),
            Key::Up => stay(screen, mode, Command::PreviousVault),
            Key::Down => stay(screen, mode, Command::NextVault),
            _ => stay(screen, mode, Command::Nothing),
        },
        CurrentScreen::VaultName => match key {
            Key::Esc => go(CurrentScreen::Home, InputMode::Neutral),
            Key::Enter => if mode == InputMode::Register {
                go(CurrentScreen::Password, InputMode::Register)
            } else {
                stay(screen, mode, Command::Nothing)
            },
            _ => stay(screen, mode, Command::EditVaultName),
        },
        CurrentScreen::Password => match key {
            Key::Esc => go(CurrentScreen::Home, InputMode::Neutral),
            Key::Enter => match mode {
                InputMode::Loggin => stay(screen, mode, Command::Login),
                InputMode::Register => stay(screen, mode, Command::Register),
                _ => stay(screen, mode, Command::Nothing),
            },
            _ => stay(screen, mode, Command::EditPassword),
        },
        CurrentScreen::Vault => match key {
            Key::Char('q') => stay(screen, mode, Command::Exit),
            Key::Char('c') => stay(screen, mode, Command::CopyPassword),
            Key::Enter => stay(screen, mode, Command::SaveVault),
            Key::Char('a') => go(CurrentScreen::Entry, InputMode::CreatingEntry),
            Key::Up => stay(screen, mode, Command::PreviousEntry),
            Key::Down => stay(screen, mode, Command::NextEntry),
            _ => stay(screen, mode, Command::Nothing),
        },
        CurrentScreen::Entry => match key {
            Key::Esc => go(CurrentScreen::Vault, InputMode::Neutral),
            Key::Tab => stay(screen, mode, Command::SwitchEntryField),
            Key::Enter => if mode == InputMode::CreatingEntry {
                stay(screen, mode, Command::AddEntry)
            } else {
                stay(screen, mode, Command::Nothing)
            },
            _ => stay(screen, mode, Command::EditEntry),
        },
    }
}

/// What `key` does on `screen` in `mode`.
pub fn handle_key(screen: CurrentScreen, mode: InputMode, key: Key) -> (result: Response)
    ensures
        result == response(screen, mode, key),
{
    let stay = |command: Command| -> (r: Response)
        ensures
            r == stay(screen, mode, command),
        { Response { screen, mode, command } };
    let go = |to: CurrentScreen, in_mode: InputMode| -> (r: Response)
        ensures
            r == go(to, in_mode),
        { Response { screen: to, mode: in_mode, command: Command::Nothing } };
    match screen {
        CurrentScreen::Home => match key {
            Key::Char('q') => stay(Command::Exit),
            Key::Char('c') => go(CurrentScreen::VaultName, InputMode::Register),
            Key::Enter => go(CurrentScreen::Password, InputMode::Loggin),
            Key::Up => stay(Command::PreviousVault),
            Key::Down => stay(Command::NextVault),
            _ => stay(Command::Nothing),
        },
        CurrentScreen::VaultName => match key {
            Key::Esc => go(CurrentScreen::Home, InputMode::Neutral),
            Key::Enter => match mode {
                InputMode::Register => go(CurrentScreen::Password, InputMode::Register),
                _ => stay(Command::Nothing),
            },
            _ => stay(Command::EditVaultName),
        },
        CurrentScreen::Password => match key {
            Key::Esc => go(CurrentScreen::Home, InputMode::Neutral),
            Key::Enter => match mode {
                InputMode::Loggin => stay(Command::Login),
                InputMode::Register => stay(Command::Register),
                _ => stay(Command::Nothing),
            },
            _ => stay(Command::EditPassword),
        },
        CurrentScreen::Vault => match key {
            Key::Char('q') => stay(Command::Exit),
            Key::Char('c') => stay(Command::CopyPassword),
            Key::Enter => stay(Command::SaveVault),
            Key::Char('a') => go(CurrentScreen::Entry, InputMode::CreatingEntry),
            Key::Up => stay(Command::PreviousEntry),
            Key::Down => stay(Command::NextEntry),
            _ => stay(Command::Nothing),
        },
        CurrentScreen::Entry => match key {
            Key::Esc => go(CurrentScreen::Vault, InputMode::Neutral),
            Key::Tab => stay(Command::SwitchEntryField),
            Key::Enter => match mode {
                InputMode::CreatingEntry => stay(Command::AddEntry),
                _ => stay(Command::Nothing),
            },
            _ => stay(Command::EditEntry),
        },
    }
}

/// The screen and the mode after a command has been carried out: a login, a registration,
/// a new entry and a saved vault all lead to the vault's screen; the other commands leave
/// the screen and the mode as they are.
pub open spec fn after_command(screen: CurrentScreen, mode: InputMode, command: Command) -> (
    CurrentScreen,
    InputMode,
) {
    match command {
        Command::Login | Command::Register | Command::AddEntry | Command::SaveVault => (
            CurrentScreen::Vault,
            InputMode::Neutral,
        ),
        _ => (screen, mode),
    }
}

/// The screen and the mode after `command` has been carried out.
pub fn complete(screen: CurrentScreen, mode: InputMode, command: Command) -> (next: (
    CurrentScreen,
    InputMode,
))
    ensures
        next == after_command(screen, mode, command),
{
    match command {
        Command::Login | Command::Register | Command::AddEntry | Command::SaveVault => (
            CurrentScreen::Vault,
            InputMode::Neutral,
        ),
        _ => (screen, mode),
    }
}

/// A key leaves the program only from one of the two lists, and only the key `q` does.
pub proof fn lemma_exit_only_from_lists(screen: CurrentScreen, mode: InputMode, key: Key)
    requires
        response(screen, mode, key).command == Command::Exit,
    ensures
        screen == CurrentScreen::Home || screen == CurrentScreen::Vault,
        key == Key::Char('q'),
{
}

/// The password is asked for before anything is sent: a login and a registration are only
/// ever asked for on the password's screen, by Enter, and what the vault holds is only
/// worked on from the vault's own screens.
pub proof fn lemma_commands_belong_to_screens(screen: CurrentScreen, mode: InputMode, key: Key)
    ensures
        ({
            let command = response(screen, mode, key).command;
            &&& command == Command::Login ==> screen == CurrentScreen::Password && mode
                == InputMode::Loggin && key == Key::Enter
            &&& command == Command::Register ==> screen == CurrentScreen::Password && mode
                == InputMode::Register && key == Key::Enter
            &&& command == Command::CopyPassword || command == Command::SaveVault ==> screen
                == CurrentScreen::Vault
            &&& command == Command::AddEntry ==> screen == CurrentScreen::Entry && mode
                == InputMode::CreatingEntry
        }),
{
}

/// The index before `index` in a list of `len` items, going round from the first to the
/// last. A list without items has no index.
pub open spec fn previous_index(index: usize, len: usize) -> Option<usize> {
    if len == 0 {
        None
    } else if index > 0 {
        Some((index - 1) as usize)
    } else {
        Some((len - 1) as usize)
    }
}

/// The index after `index` in a list of `len` items, going round from the last to the
/// first. A list without items has no index.
pub open spec fn next_index(index: usize, len: usize) -> Option<usize> {
    if len == 0 {
        None
    } else if index < len - 1 {
        Some((index + 1) as usize)
    } else {
        Some(0)
    }
}

/// The first line, or the empty text where there is no line.
pub fn get_value_from_lines(lines: &[String]) -> (value: String)
    ensures
        value@ == if lines@.len() > 0 {
            lines@[0]@
        } else {
            Seq::<char>::empty()
        },
{
    if lines.len() > 0 {
        lines[0].clone()
    } else {
        String::new()
    }
}

/// What the lists on the screen hold and which item of each is selected.
#[derive(Debug)]
pub struct State {
    pub index_vault_item: usize,
    pub vault_items: Vec<String>,
    pub index_entry_item: usize,
    pub selected_entry_textarea: usize,
}

impl State {
    pub fn new() -> (state: Self)
        ensures
            state.vault_items@ == Seq::<String>::empty(),
            state.index_vault_item == 0,
            state.index_entry_item == 0,
            state.selected_entry_textarea == 0,
    {
        Self {
            index_vault_item: 0,
            vault_items: Vec::new(),
            index_entry_item: 0,
            selected_entry_textarea: 0,
        }
    }

    pub fn set_vault_items(&mut self, names: Vec<String>)
        ensures
            final(self).vault_items@ == names@,
            final(self).index_vault_item == old(self).index_vault_item,
            final(self).index_entry_item == old(self).index_entry_item,
            final(self).selected_entry_textarea == old(self).selected_entry_textarea,
    {
        self.vault_items = names;
    }

    pub fn get_vault_items(&self) -> (names: &[String])
        ensures
            names@ == self.vault_items@,
    {
        self.vault_items.as_slice()
    }

    pub fn add_vault_item(&mut self, name: &str)
        ensures
            final(self).vault_items@.len() == old(self).vault_items@.len() + 1,
            final(self).vault_items@.drop_last() == old(self).vault_items@,
            final(self).vault_items@.last()@ == name@,
            final(self).index_vault_item == old(self).index_vault_item,
            final(self).index_entry_item == old(self).index_entry_item,
            final(self).selected_entry_textarea == old(self).selected_entry_textarea,
    {
        self.vault_items.push(name.to_owned());
        assert(self.vault_items@.drop_last() =~= old(self).vault_items@);
    }

    /// Moves the selection in the list of vaults up, going round at the top, and says what
    /// is selected now. Nothing is selected in an empty list.
    pub fn previous_vault(&mut self) -> (selected: Option<usize>)
        ensures
            selected == previous_index(old(self).index_vault_item, old(self).vault_items@.len() as usize),
            final(self).index_vault_item == match selected {
                Some(index) => index,
                None => old(self).index_vault_item,
            },
            final(self).vault_items@ == old(self).vault_items@,
            final(self).index_entry_item == old(self).index_entry_item,
            final(self).selected_entry_textarea == old(self).selected_entry_textarea,
    {
        let selected = step_back(self.index_vault_item, self.vault_items.len());
        match selected {
            Some(index) => {
                self.index_vault_item = index;
            },
            None => {},
        }
        selected
    }

    /// Moves the selection in the list of vaults down, going round at the bottom, and says
    /// what is selected now. Nothing is selected in an empty list.
    pub fn next_vault(&mut self) -> (selected: Option<usize>)
        ensures
            selected == next_index(old(self).index_vault_item, old(self).vault_items@.len() as usize),
            final(self).index_vault_item == match selected {
                Some(index) => index,
                None => old(self).index_vault_item,
            },
            final(self).vault_items@ == old(self).vault_items@,
            final(self).index_entry_item == old(self).index_entry_item,
            final(self).selected_entry_textarea == old(self).selected_entry_textarea,
    {
        let selected = step_on(self.index_vault_item, self.vault_items.len());
        match selected {
            Some(index) => {
                self.index_vault_item = index;
            },
            None => {},
        }
        selected
    }

    /// Moves the selection in the list of `len` entries up, going round at the top, and
    /// says what is selected now. Nothing is selected in an empty list.
    pub fn previous_entry(&mut self, len: usize) -> (selected: Option<usize>)
        ensures
            selected == previous_index(old(self).index_entry_item, len),
            final(self).index_entry_item == match selected {
                Some(index) => index,
                None => old(self).index_entry_item,
            },
            final(self).vault_items@ == old(self).vault_items@,
            final(self).index_vault_item == old(self).index_vault_item,
            final(self).selected_entry_textarea == old(self).selected_entry_textarea,
    {
        let selected = step_back(self.index_entry_item, len);
        match selected {
            Some(index) => {
                self.index_entry_item = index;
            },
            None => {},
        }
        selected
    }

    /// Moves the selection in the list of `len` entries down, going round at the bottom,
    /// and says what is selected now. Nothing is selected in an empty list.
    pub fn next_entry(&mut self, len: usize) -> (selected: Option<usize>)
        ensures
            selected == next_index(old(self).index_entry_item, len),
            final(self).index_entry_item == match selected {
                Some(index) => index,
                None => old(self).index_entry_item,
            },
            final(self).vault_items@ == old(self).vault_items@,
            final(self).index_vault_item == old(self).index_vault_item,
            final(self).selected_entry_textarea == old(self).selected_entry_textarea,
    {
        let selected = step_on(self.index_entry_item, len);
        match selected {
            Some(index) => {
                self.index_entry_item = index;
            },
            None => {},
        }
        selected
    }

    /// Makes the other of the two fields of an entry the active one, and says which it is.
    pub fn switch_entry_textarea(&mut self) -> (selected: usize)
        ensures
            selected == (if old(self).selected_entry_textarea % 2 == 0 { 1usize } else { 0usize }),
            final(self).selected_entry_textarea == selected,
            final(self).vault_items@ == old(self).vault_items@,
            final(self).index_vault_item == old(self).index_vault_item,
            final(self).index_entry_item == old(self).index_entry_item,
    {
        let selected: usize = if self.selected_entry_textarea % 2 == 0 { 1 } else { 0 };
        self.selected_entry_textarea = selected;
        selected
    }
}

/// The index before `index` in a list of `len` items.
pub fn step_back(index: usize, len: usize) -> (selected: Option<usize>)
    ensures
        selected == previous_index(index, len),
{
    if len == 0 {
        None
    } else if index > 0 {
        Some(index - 1)
    } else {
        Some(len - 1)
    }
}

/// The index after `index` in a list of `len` items.
pub fn step_on(index: usize, len: usize) -> (selected: Option<usize>)
    ensures
        selected == next_index(index, len),
{
    if len == 0 {
        None
    } else if index < len - 1 {
        Some(index + 1)
    } else {
        Some(0)
    }
}

} // verus!
