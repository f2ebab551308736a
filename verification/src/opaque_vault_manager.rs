//! Creating, retrieving and saving a vault on the server, step by step.
//!
//! Each operation is a fixed sequence of steps. Some of them the caller has to carry out:
//! the computations of the account protocol, which need the password, and the sending of
//! requests. The manager says which step comes next, takes what came of it, and refuses
//! anything that arrives out of turn.

use crate::errors::VaultError;
use crate::key::{CryptedVault, Key, EXPORT_KEY_LENGTH};
use crate::opaque_api::{
    is_error_status, opaque_request, session_token, signed_vault_request, OpaqueApi,
    OpaqueApiView, Request, RequestView, Response, SessionView, read_response,
    read_vault_response,
};
use crate::constants::{
    GET, OPAQUE_LOGIN_FINISH, OPAQUE_LOGIN_START, OPAQUE_REGISTRATION_FINISH,
    OPAQUE_REGISTRATION_START, POST,
};
use crate::http_utils::is_header_value;
use vstd::prelude::*;
use vstd::string::StringExecFns;

verus! {

pub const CANNOT_SAVE_VAULT_IF_NOT_LOGGED_IN: &'static str =
    "Cannot create a new vault if you are already logged in.";

pub const CANNOT_CREATE_VAULT_IF_LOGGED_IN: &'static str =
    "Cannot save a vault if you are not logged in.";

pub const UNEXPECTED_EVENT: &'static str = "This step was not asked for.";

pub const WRONG_EXPORT_KEY_LENGTH: &'static str = "The export key has the wrong length.";

/// The name of the suite that the account protocol runs with: Ristretto255 for the
/// oblivious pseudorandom function, triple Diffie-Hellman over Ristretto255 with SHA-512
/// for the key exchange, and Argon2id with its default parameters for stretching the
/// password.
pub struct StandardCipherSuite;

/// How far an operation has come.
#[derive(Debug)]
pub enum Phase {
    /// No operation is under way.
    Idle,
    /// The client's first registration message is being computed.
    RegistrationStarting,
    /// The first registration message is with the server.
    RegistrationStartSent { state: Vec<u8> },
    /// The client's second registration message is being computed.
    RegistrationFinishing,
    /// The second registration message is with the server.
    RegistrationFinishSent,
    /// The client's first login message is being computed.
    LoginStarting,
    /// The first login message is with the server.
    LoginStartSent { state: Vec<u8> },
    /// The client's second login message is being computed.
    LoginFinishing,
    /// The second login message is with the server.
    LoginFinishSent { session_key: Vec<u8>, export_key: Vec<u8> },
    /// The request for the encrypted vault is with the server.
    VaultRequested { export_key: Vec<u8> },
    /// The encrypted vault is with the server, to be stored.
    SaveRequested,
}

/// A [`Phase`], as mathematical values.
pub enum PhaseView {
    Idle,
    RegistrationStarting,
    RegistrationStartSent { state: Seq<u8> },
    RegistrationFinishing,
    RegistrationFinishSent,
    LoginStarting,
    LoginStartSent { state: Seq<u8> },
    LoginFinishing,
    LoginFinishSent { session_key: Seq<u8>, export_key: Seq<u8> },
    VaultRequested { export_key: Seq<u8> },
    SaveRequested,
}

impl View for Phase {
    type V = PhaseView;

    open spec fn view(&self) -> PhaseView {
        match self {
            Phase::Idle => PhaseView::Idle,
            Phase::RegistrationStarting => PhaseView::RegistrationStarting,
            Phase::RegistrationStartSent { state } => PhaseView::RegistrationStartSent {
                state: state@,
            },
            Phase::RegistrationFinishing => PhaseView::RegistrationFinishing,
            Phase::RegistrationFinishSent => PhaseView::RegistrationFinishSent,
            Phase::LoginStarting => PhaseView::LoginStarting,
            Phase::LoginStartSent { state } => PhaseView::LoginStartSent { state: state@ },
            Phase::LoginFinishing => PhaseView::LoginFinishing,
            Phase::LoginFinishSent { session_key, export_key } => PhaseView::LoginFinishSent {
                session_key: session_key@,
                export_key: export_key@,
            },
            Phase::VaultRequested { export_key } => PhaseView::VaultRequested {
                export_key: export_key@,
            },
            Phase::SaveRequested => PhaseView::SaveRequested,
        }
    }
}

/// What came of the step that the manager asked for.
#[derive(Debug)]
pub enum Event {
    /// The client's first message of a registration or of a login, with the state that the
    /// second message will be computed from.
    Started { state: Vec<u8>, message: Vec<u8> },
    /// The client's second message of a registration.
    RegistrationFinished { message: Vec<u8>, export_key: Vec<u8> },
    /// The client's second message of a login, with the two keys that the login yields.
    LoginFinished { message: Vec<u8>, session_key: Vec<u8>, export_key: Vec<u8> },
    /// A computation of the account protocol failed.
    ProtocolFailed(String),
    /// The server answered the request.
    Responded(Response),
    /// The request could not be sent, or no answer came.
    TransportFailed(String),
}

/// An [`Event`], as mathematical values.
pub enum EventView {
    Started { state: Seq<u8>, message: Seq<u8> },
    RegistrationFinished { message: Seq<u8>, export_key: Seq<u8> },
    LoginFinished { message: Seq<u8>, session_key: Seq<u8>, export_key: Seq<u8> },
    ProtocolFailed,
    Responded { status: u16, body: Seq<u8> },
    TransportFailed,
}

impl View for Event {
    type V = EventView;

    open spec fn view(&self) -> EventView {
        match self {
            Event::Started { state, message } => EventView::Started {
                state: state@,
                message: message@,
            },
            Event::RegistrationFinished { message, export_key } => EventView::RegistrationFinished {
                message: message@,
                export_key: export_key@,
            },
            Event::LoginFinished { message, session_key, export_key } => EventView::LoginFinished {
                message: message@,
                session_key: session_key@,
                export_key: export_key@,
            },
            Event::ProtocolFailed(_) => EventView::ProtocolFailed,
            Event::Responded(response) => EventView::Responded {
                status: response.status,
                body: response.body@,
            },
            Event::TransportFailed(_) => EventView::TransportFailed,
        }
    }
}

/// What the caller is to do next.
pub enum Action {
    /// Compute the client's first registration message from the password.
    StartRegistration,
    /// Compute the client's second registration message from the password, the state of
    /// the first and the server's response.
    FinishRegistration { state: Vec<u8>, response: Vec<u8> },
    /// Compute the client's first login message from the password.
    StartLogin,
    /// Compute the client's second login message from the password, the state of the first
    /// and the server's response.
    FinishLogin { state: Vec<u8>, response: Vec<u8> },
    /// Send the request and report the response.
    Send(Request),
    /// The operation is complete: here is the encrypted vault with its key.
    Done(CryptedVault),
    /// The operation is complete: the vault is stored.
    Saved,
    /// The operation has failed.
    Fail(VaultError),
}

/// The kinds of failure.
pub enum Failure {
    ExchangeFailed,
    AlreadyLoggedIn,
    NotLoggedIn,
    NotFound,
    Internal,
}

/// The kind of an error.
pub open spec fn failure(error: VaultError) -> Failure {
    match error {
        VaultError::ExchangeFailed(_) => Failure::ExchangeFailed,
        VaultError::AlreadyLoggedIn(_) => Failure::AlreadyLoggedIn,
        VaultError::NotLoggedIn(_) => Failure::NotLoggedIn,
        VaultError::NotFound => Failure::NotFound,
        VaultError::Internal(_) => Failure::Internal,
    }
}

/// An [`Action`], as mathematical values.
pub enum ActionView {
    StartRegistration,
    FinishRegistration { state: Seq<u8>, response: Seq<u8> },
    StartLogin,
    FinishLogin { state: Seq<u8>, response: Seq<u8> },
    Send(RequestView),
    Done { content: Seq<u8>, encryption_key: Seq<u8> },
    Saved,
    Fail(Failure),
}

impl View for Action {
    type V = ActionView;

    open spec fn view(&self) -> ActionView {
        match self {
            Action::StartRegistration => ActionView::StartRegistration,
            Action::FinishRegistration { state, response } => ActionView::FinishRegistration {
                state: state@,
                response: response@,
            },
            Action::StartLogin => ActionView::StartLogin,
            Action::FinishLogin { state, response } => ActionView::FinishLogin {
                state: state@,
                response: response@,
            },
            Action::Send(request) => ActionView::Send(request@),
            Action::Done(vault) => ActionView::Done {
                content: vault.content@,
                encryption_key: vault.encryption_key@,
            },
            Action::Saved => ActionView::Saved,
            Action::Fail(error) => ActionView::Fail(failure(*error)),
        }
    }
}

/// The manager: the client of the server's interface, the account that the operation under
/// way is for, and how far that operation has come.
pub struct OpaqueVaultManager {
    api: OpaqueApi,
    username: String,
    phase: Phase,
}

/// An [`OpaqueVaultManager`], as mathematical values.
pub struct ManagerView {
    pub api: OpaqueApiView,
    pub username: Seq<char>,
    pub phase: PhaseView,
}

impl View for OpaqueVaultManager {
    type V = ManagerView;

    closed spec fn view(&self) -> ManagerView {
        ManagerView { api: self.api@, username: self.username@, phase: self.phase@ }
    }
}

/// `manager` in another phase.
pub open spec fn in_phase(manager: ManagerView, phase: PhaseView) -> ManagerView {
    ManagerView { phase, ..manager }
}

/// What sending a request of the account protocol comes to: where the user name can stand
/// in a header the request goes out and the operation moves on to `next`, and otherwise
/// the operation fails.
pub open spec fn sent(
    manager: ManagerView,
    route: Seq<char>,
    message: Seq<u8>,
    next: PhaseView,
) -> (ManagerView, ActionView) {
    if is_header_value(manager.username) {
        (
            in_phase(manager, next),
            ActionView::Send(opaque_request(manager.api.server_url, route, manager.username, message)),
        )
    } else {
        (in_phase(manager, PhaseView::Idle), ActionView::Fail(Failure::Internal))
    }
}

/// `manager` after the session for `session_key` has been opened.
pub open spec fn with_session(manager: ManagerView, session_key: Seq<u8>) -> ManagerView {
    ManagerView {
        api: OpaqueApiView {
            session: Some(
                SessionView { session_key, session_token: session_token(session_key) },
            ),
            ..manager.api
        },
        ..manager
    }
}

/// The failure of the operation under way.
pub open spec fn failed(manager: ManagerView, failure: Failure) -> (ManagerView, ActionView) {
    (in_phase(manager, PhaseView::Idle), ActionView::Fail(failure))
}

/// The manager and the next step after `event` has arrived at the time `timestamp`, in
/// seconds since 1970.
///
/// A failed computation and a failed transport end the operation with `ExchangeFailed`, and
/// so does a response whose status reports an error. An event that the phase does not wait
/// for ends it with `Internal`. Otherwise the operation moves one step on: a registration
/// is followed by a login, a login by the request for the vault. The session is opened when
/// the server has acknowledged the login. A server that has no vault yet stands for an
/// empty one.
pub open spec fn advanced(manager: ManagerView, event: EventView, timestamp: u64) -> (
    ManagerView,
    ActionView,
) {
    match (manager.phase, event) {
        (PhaseView::Idle, _) => failed(manager, Failure::Internal),
        (_, EventView::ProtocolFailed) => failed(manager, Failure::ExchangeFailed),
        (_, EventView::TransportFailed) => failed(manager, Failure::ExchangeFailed),
        (PhaseView::RegistrationStarting, EventView::Started { state, message }) => sent(
            manager,
            OPAQUE_REGISTRATION_START@,
            message,
            PhaseView::RegistrationStartSent { state },
        ),
        (PhaseView::RegistrationStartSent { state }, EventView::Responded { status, body }) => {
            if is_error_status(status) {
                failed(manager, Failure::ExchangeFailed)
            } else {
                (
                    in_phase(manager, PhaseView::RegistrationFinishing),
                    ActionView::FinishRegistration { state, response: body },
                )
            }
        },
        (
            PhaseView::RegistrationFinishing,
            EventView::RegistrationFinished { message, export_key },
        ) => sent(
            manager,
            OPAQUE_REGISTRATION_FINISH@,
            message,
            PhaseView::RegistrationFinishSent,
        ),
        (PhaseView::RegistrationFinishSent, EventView::Responded { status, body }) => {
            if is_error_status(status) {
                failed(manager, Failure::ExchangeFailed)
            } else {
                (in_phase(manager, PhaseView::LoginStarting), ActionView::StartLogin)
            }
        },
        (PhaseView::LoginStarting, EventView::Started { state, message }) => sent(
            manager,
            OPAQUE_LOGIN_START@,
            message,
            PhaseView::LoginStartSent { state },
        ),
        (PhaseView::LoginStartSent { state }, EventView::Responded { status, body }) => {
            if is_error_status(status) {
                failed(manager, Failure::ExchangeFailed)
            } else {
                (
                    in_phase(manager, PhaseView::LoginFinishing),
                    ActionView::FinishLogin { state, response: body },
                )
            }
        },
        (
            PhaseView::LoginFinishing,
            EventView::LoginFinished { message, session_key, export_key },
        ) => {
            if export_key.len() != EXPORT_KEY_LENGTH {
                failed(manager, Failure::ExchangeFailed)
            } else {
                sent(
                    manager,
                    OPAQUE_LOGIN_FINISH@,
                    message,
                    PhaseView::LoginFinishSent { session_key, export_key },
                )
            }
        },
        (
            PhaseView::LoginFinishSent { session_key, export_key },
            EventView::Responded { status, body },
        ) => {
            if is_error_status(status) {
                failed(manager, Failure::ExchangeFailed)
            } else if session_key.len() < 64 {
                failed(manager, Failure::Internal)
            } else if !is_header_value(manager.api.server_url) {
                failed(with_session(manager, session_key), Failure::Internal)
            } else {
                (
                    in_phase(
                        with_session(manager, session_key),
                        PhaseView::VaultRequested { export_key },
                    ),
                    ActionView::Send(
                        signed_vault_request(
                            manager.api.server_url,
                            SessionView { session_key, session_token: session_token(session_key) },
                            GET@,
                            None,
                            timestamp,
                        ),
                    ),
                )
            }
        },
        (PhaseView::VaultRequested { export_key }, EventView::Responded { status, body }) => {
            if status == 404 {
                (
                    in_phase(manager, PhaseView::Idle),
                    ActionView::Done { content: Seq::empty(), encryption_key: export_key },
                )
            } else if is_error_status(status) {
                failed(manager, Failure::ExchangeFailed)
            } else {
                (
                    in_phase(manager, PhaseView::Idle),
                    ActionView::Done { content: body, encryption_key: export_key },
                )
            }
        },
        (PhaseView::SaveRequested, EventView::Responded { status, body }) => {
            if is_error_status(status) {
                failed(manager, Failure::ExchangeFailed)
            } else {
                (in_phase(manager, PhaseView::Idle), ActionView::Saved)
            }
        },
        _ => failed(manager, Failure::Internal),
    }
}

/// How many steps of a creation lie behind a phase. A retrieval begins at the fifth.
pub open spec fn progress(phase: PhaseView) -> int {
    match phase {
        PhaseView::Idle => 0,
        PhaseView::RegistrationStarting => 1,
        PhaseView::RegistrationStartSent { .. } => 2,
        PhaseView::RegistrationFinishing => 3,
        PhaseView::RegistrationFinishSent => 4,
        PhaseView::LoginStarting => 5,
        PhaseView::LoginStartSent { .. } => 6,
        PhaseView::LoginFinishing => 7,
        PhaseView::LoginFinishSent { .. } => 8,
        PhaseView::VaultRequested { .. } => 9,
        PhaseView::SaveRequested => 10,
    }
}

/// A request to the vault is under way only while a session is open.
pub open spec fn well_formed(manager: ManagerView) -> bool {
    (manager.phase is VaultRequested || manager.phase is SaveRequested)
        ==> manager.api.session is Some
}

/// The steps come in their order, one at a time: an event either ends the operation, and
/// then no operation is under way, or it moves the operation on by exactly one step. A
/// vault is handed out only in answer to the request for it, and a vault is reported as
/// stored only in answer to the request that stores it.
pub proof fn lemma_steps_come_in_order(manager: ManagerView, event: EventView, timestamp: u64)
    ensures
        ({
            let (after, action) = advanced(manager, event, timestamp);
            if action is Fail || action is Done || action is Saved {
                after.phase == PhaseView::Idle
            } else {
                progress(after.phase) == progress(manager.phase) + 1
            }
        }),
        advanced(manager, event, timestamp).1 is Done ==> manager.phase is VaultRequested,
        advanced(manager, event, timestamp).1 is Saved ==> manager.phase is SaveRequested,
        advanced(manager, event, timestamp).1 is StartLogin ==> manager.phase
            is RegistrationFinishSent,
        advanced(manager, event, timestamp).1 is FinishRegistration ==> manager.phase
            is RegistrationStartSent,
        advanced(manager, event, timestamp).1 is FinishLogin ==> manager.phase is LoginStartSent,
        !(advanced(manager, event, timestamp).1 is StartRegistration),
{
}

/// What is sent depends on the phase alone: each message of the account protocol goes to
/// its own route, the second message of a registration or of a login only after the
/// server has answered the first, and the request for the vault only after the server has
/// acknowledged the login.
pub proof fn lemma_requests_follow_phases(manager: ManagerView, event: EventView, timestamp: u64)
    requires
        advanced(manager, event, timestamp).1 is Send,
    ensures
        ({
            let request = advanced(manager, event, timestamp).1->Send_0;
            let server = manager.api.server_url;
            match manager.phase {
                PhaseView::RegistrationStarting => request.uri == server
                    + OPAQUE_REGISTRATION_START@,
                PhaseView::RegistrationFinishing => request.uri == server
                    + OPAQUE_REGISTRATION_FINISH@,
                PhaseView::LoginStarting => request.uri == server + OPAQUE_LOGIN_START@,
                PhaseView::LoginFinishing => request.uri == server + OPAQUE_LOGIN_FINISH@,
                PhaseView::LoginFinishSent { .. } => request.uri == server + crate::constants::VAULT@
                    && request.verb == GET@,
                _ => false,
            }
        }),
{
}

/// No event takes a request to the vault under way out of an open session.
pub proof fn lemma_advance_keeps_well_formed(manager: ManagerView, event: EventView, timestamp: u64)
    requires
        well_formed(manager),
    ensures
        well_formed(advanced(manager, event, timestamp).0),
        manager.api.session is Some ==> advanced(manager, event, timestamp).0.api.session is Some,
{
}

/// The vault comes with the key of the login that fetched it: from the second message of
/// the login on, two answers of the server lead to the vault, the session of the login's
/// session key is open by then, and the key handed out with the vault is the login's
/// export key, 64 bytes long.
pub proof fn lemma_vault_comes_with_login_key(
    manager: ManagerView,
    message: Seq<u8>,
    session_key: Seq<u8>,
    export_key: Seq<u8>,
    acknowledgement: EventView,
    answer: EventView,
    timestamps: (u64, u64, u64),
)
    requires
        manager.phase == PhaseView::LoginFinishing,
    ensures
        ({
            let finished = EventView::LoginFinished { message, session_key, export_key };
            let first = advanced(manager, finished, timestamps.0);
            let second = advanced(first.0, acknowledgement, timestamps.1);
            let third = advanced(second.0, answer, timestamps.2);
            third.1 is Done ==> {
                &&& first.1 is Send
                &&& second.1 is Send
                &&& third.1->encryption_key == export_key
                &&& export_key.len() == EXPORT_KEY_LENGTH
                &&& third.0.api.session == Some(
                    SessionView { session_key, session_token: session_token(session_key) },
                )
            }
        }),
{
}

impl OpaqueVaultManager {
    /// A manager that works through `api`, with no operation under way.
    pub fn new(api: OpaqueApi) -> (manager: Self)
        ensures
            manager@ == (ManagerView {
                api: api@,
                username: Seq::<char>::empty(),
                phase: PhaseView::Idle,
            }),
    {
        Self { api, username: String::new(), phase: Phase::Idle }
    }

    /// Whether a login has finished and its session is open.
    pub fn is_logged_in(&self) -> (logged_in: bool)
        ensures
            logged_in == self@.api.session is Some,
    {
        self.api.is_logged_in()
    }

    /// Whether no operation is under way.
    pub fn is_idle(&self) -> (idle: bool)
        ensures
            idle == (self@.phase == PhaseView::Idle),
    {
        match self.phase {
            Phase::Idle => true,
            _ => false,
        }
    }

    /// Begins the creation of the account `username` and of its vault: a registration, a
    /// login and the request for the vault. Refused with `AlreadyLoggedIn` where a session
    /// is open. An operation that was under way is given up.
    pub fn create(&mut self, username: &str) -> (action: Action)
        ensures
            final(self)@.api == old(self)@.api,
            if old(self)@.api.session is Some {
                &&& final(self)@.phase == PhaseView::Idle
                &&& final(self)@.username == old(self)@.username
                &&& action matches Action::Fail(VaultError::AlreadyLoggedIn(text))
                &&& text@ == CANNOT_CREATE_VAULT_IF_LOGGED_IN@
            } else {
                &&& final(self)@.phase == PhaseView::RegistrationStarting
                &&& final(self)@.username == username@
                &&& action@ == ActionView::StartRegistration
            },
    {
        if self.api.is_logged_in() {
            self.phase = Phase::Idle;
            return Action::Fail(
                VaultError::AlreadyLoggedIn(String::from_str(CANNOT_CREATE_VAULT_IF_LOGGED_IN)),
            );
        }
        self.username = String::from_str(username);
        self.phase = Phase::RegistrationStarting;
        Action::StartRegistration
    }

    /// Begins the retrieval of the vault of the account `username`: a login and the request
    /// for the vault. An operation that was under way is given up.
    pub fn retrieve(&mut self, username: &str) -> (action: Action)
        ensures
            final(self)@ == (ManagerView {
                api: old(self)@.api,
                username: username@,
                phase: PhaseView::LoginStarting,
            }),
            action@ == ActionView::StartLogin,
    {
        self.username = String::from_str(username);
        self.phase = Phase::LoginStarting;
        Action::StartLogin
    }

    /// Begins the storing of the encrypted vault `content` at the time `timestamp`, in seconds since 1970.
    /// Refused with `NotLoggedIn` where no session is open. An operation that was under way
    /// is given up.
    pub fn save(&mut self, content: Vec<u8>, timestamp: u64) -> (action: Action)
        ensures
            final(self)@.api == old(self)@.api,
            final(self)@.username == old(self)@.username,
            if old(self)@.api.session is None {
                &&& final(self)@.phase == PhaseView::Idle
                &&& action matches Action::Fail(VaultError::NotLoggedIn(text))
                &&& text@ == CANNOT_SAVE_VAULT_IF_NOT_LOGGED_IN@
            } else if !is_header_value(old(self)@.api.server_url) {
                &&& final(self)@.phase == PhaseView::Idle
                &&& action@ == ActionView::Fail(Failure::Internal)
            } else {
                &&& final(self)@.phase == PhaseView::SaveRequested
                &&& action@ == ActionView::Send(
                    signed_vault_request(
                        old(self)@.api.server_url,
                        old(self)@.api.session->Some_0,
                        POST@,
                        Some(content@),
                        timestamp,
                    ),
                )
            },
    {
        if !self.api.is_logged_in() {
            self.phase = Phase::Idle;
            return Action::Fail(
                VaultError::NotLoggedIn(String::from_str(CANNOT_SAVE_VAULT_IF_NOT_LOGGED_IN)),
            );
        }
        match self.api.save_vault(content, timestamp) {
            Ok(request) => {
                self.phase = Phase::SaveRequested;
                Action::Send(request)
            },
            Err(error) => {
                self.phase = Phase::Idle;
                Action::Fail(error)
            },
        }
    }

    /// Sends a message of the account protocol and moves on to `next`.
    fn send(&mut self, route: &str, message: &[u8], next: Phase) -> (action: Action)
        ensures
            (final(self)@, action@) == sent(old(self)@, route@, message@, next@),
    {
        match self.api.opaque_request(route, self.username.as_str(), message) {
            Ok(request) => {
                self.phase = next;
                Action::Send(request)
            },
            Err(error) => {
                self.phase = Phase::Idle;
                Action::Fail(error)
            },
        }
    }

    /// Ends the operation under way with `error`.
    fn fail(&mut self, error: VaultError) -> (action: Action)
        ensures
            (final(self)@, action@) == failed(old(self)@, failure(error)),
    {
        self.phase = Phase::Idle;
        Action::Fail(error)
    }

    /// Takes what came of the step that was asked for, at the time `timestamp` in seconds
    /// since 1970, and says which step comes next.
    pub fn advance(&mut self, event: Event, timestamp: u64) -> (action: Action)
        ensures
            (final(self)@, action@) == advanced(old(self)@, event@, timestamp),
    {
        let mut phase = Phase::Idle;
        core::mem::swap(&mut self.phase, &mut phase);
        assert(in_phase(self@, phase@) == old(self)@);
        match (phase, event) {
            (Phase::Idle, _) => self.fail(VaultError::Internal(String::from_str(UNEXPECTED_EVENT))),
            (_, Event::ProtocolFailed(text)) => self.fail(VaultError::ExchangeFailed(text)),
            (_, Event::TransportFailed(text)) => self.fail(VaultError::ExchangeFailed(text)),
            (Phase::RegistrationStarting, Event::Started { state, message }) => self.send(
                OPAQUE_REGISTRATION_START,
                message.as_slice(),
                Phase::RegistrationStartSent { state },
            ),
            (Phase::RegistrationStartSent { state }, Event::Responded(response)) => {
                match read_response(response) {
                    Ok(body) => {
                        self.phase = Phase::RegistrationFinishing;
                        Action::FinishRegistration { state, response: body }
                    },
                    Err(error) => self.fail(error),
                }
            },
            (Phase::RegistrationFinishing, Event::RegistrationFinished { message, export_key }) => {
                self.send(
                    OPAQUE_REGISTRATION_FINISH,
                    message.as_slice(),
                    Phase::RegistrationFinishSent,
                )
            },
            (Phase::RegistrationFinishSent, Event::Responded(response)) => {
                match read_response(response) {
                    Ok(_) => {
                        self.phase = Phase::LoginStarting;
                        Action::StartLogin
                    },
                    Err(error) => self.fail(error),
                }
            },
            (Phase::LoginStarting, Event::Started { state, message }) => self.send(
                OPAQUE_LOGIN_START,
                message.as_slice(),
                Phase::LoginStartSent { state },
            ),
            (Phase::LoginStartSent { state }, Event::Responded(response)) => {
                match read_response(response) {
                    Ok(body) => {
                        self.phase = Phase::LoginFinishing;
                        Action::FinishLogin { state, response: body }
                    },
                    Err(error) => self.fail(error),
                }
            },
            (Phase::LoginFinishing, Event::LoginFinished { message, session_key, export_key }) => {
                if export_key.len() != EXPORT_KEY_LENGTH {
                    self.fail(
                        VaultError::ExchangeFailed(String::from_str(WRONG_EXPORT_KEY_LENGTH)),
                    )
                } else {
                    self.send(
                        OPAQUE_LOGIN_FINISH,
                        message.as_slice(),
                        Phase::LoginFinishSent { session_key, export_key },
                    )
                }
            },
            (Phase::LoginFinishSent { session_key, export_key }, Event::Responded(response)) => {
                match read_response(response) {
                    Ok(_) => {
                        match self.api.create_session(session_key.as_slice()) {
                            Ok(()) => {
                                match self.api.get_vault(timestamp) {
                                    Ok(request) => {
                                        self.phase = Phase::VaultRequested { export_key };
                                        Action::Send(request)
                                    },
                                    Err(error) => self.fail(error),
                                }
                            },
                            Err(error) => self.fail(error),
                        }
                    },
                    Err(error) => self.fail(error),
                }
            },
            (Phase::VaultRequested { export_key }, Event::Responded(response)) => {
                match read_vault_response(response) {
                    Ok(content) => Action::Done(CryptedVault::new(content, Key::new(export_key))),
                    Err(VaultError::NotFound) => Action::Done(
                        CryptedVault::new(Vec::new(), Key::new(export_key)),
                    ),
                    Err(error) => self.fail(error),
                }
            },
            (Phase::SaveRequested, Event::Responded(response)) => {
                match read_response(response) {
                    Ok(_) => Action::Saved,
                    Err(error) => self.fail(error),
                }
            },
            _ => self.fail(VaultError::Internal(String::from_str(UNEXPECTED_EVENT))),
        }
    }
}

} // verus!
