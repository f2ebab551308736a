//! The client's side of the server's interface: the session that a login opens, the
//! requests to send, and what a response means. Sending is left to the caller.

use crate::constants::{
    GET, OPAQUE_LOGIN_FINISH, OPAQUE_LOGIN_START, OPAQUE_REGISTRATION_FINISH,
    OPAQUE_REGISTRATION_START, POST, VAULT,
};
use crate::errors::VaultError;
use crate::http_utils::{
    get_opaque_headers, get_vault_request_headers, header_views, hex, hex_encode, is_header_value,
    to_decimal, vault_request_headers, Header, HeaderView, APPLICATION_OCTET_STREAM, CONTENT_TYPE,
    X_USERNAME,
};
use vstd::prelude::*;
use vstd::slice::slice_to_vec;
use vstd::string::StringExecFns;
use vstd::utf8::encode_utf8;

verus! {

pub const METHOD_NOT_ALLOWED: &'static str = "Method not allowed.";

pub const NO_SESSION_AFTER_LOGIN: &'static str = "No session after loggin.";

pub const AUTHORIZATION: &'static str = "Authorization";

pub const BEARER: &'static str = "Bearer ";

/// The label under which the session token is derived from the session key.
pub const SESSION_TOKEN_INFO: &'static str = "opaque-session-token";

/// The number of bytes of the session token before it is written in hexadecimal digits.
pub const SESSION_TOKEN_LENGTH: usize = 64;

/// What HKDF with SHA-512 expands to `length` bytes under the label `info` from `prk`,
/// taken as a pseudorandom key as it is.
pub uninterp spec fn hkdf_sha512_from_prk(prk: Seq<u8>, info: Seq<u8>, length: nat) -> Seq<u8>;

/// `Hkdf::<Sha512>::from_prk` followed by `Hkdf::expand`, of `hkdf`. A key of fewer than
/// 64 bytes is refused, and so is an expansion to more than 255 blocks of 64 bytes.
/// Otherwise `length` bytes come back that depend on the three arguments alone. The error
/// comes back as its text.
#[verifier::external_body]
fn hkdf_sha512_expand_prk(prk: &[u8], info: &[u8], length: usize) -> (okm: Result<Vec<u8>, String>)
    ensures
        okm is Ok <==> (prk@.len() >= 64 && length <= 255 * 64),
        okm is Ok ==> okm->Ok_0@ == hkdf_sha512_from_prk(prk@, info@, length as nat),
        okm is Ok ==> okm->Ok_0@.len() == length,
{
    let hkdf = match hkdf::Hkdf::<sha2::Sha512>::from_prk(prk) {
        Ok(hkdf) => hkdf,
        Err(error) => { return Err(error.to_string()); },
    };
    let mut okm = vec![0u8; length];
    match hkdf.expand(info, &mut okm) {
        Ok(()) => Ok(okm),
        Err(error) => Err(error.to_string()),
    }
}

/// The bearer token that belongs to a session key: 64 bytes derived from the key, in
/// hexadecimal digits.
pub open spec fn session_token(session_key: Seq<u8>) -> Seq<char> {
    hex(hkdf_sha512_from_prk(session_key, encode_utf8(SESSION_TOKEN_INFO@), 64))
}

/// The header that carries the bearer token of a session key can be sent.
pub proof fn lemma_bearer_header_can_be_sent(session_key: Seq<u8>)
    ensures
        is_header_value(bearer_header(session_token(session_key)).value),
{
    reveal_strlit("Bearer ");
    let token = session_token(session_key);
    crate::http_utils::lemma_hex_is_plain(
        hkdf_sha512_from_prk(session_key, encode_utf8(SESSION_TOKEN_INFO@), 64),
    );
    let value = BEARER@ + token;
    assert forall|i: int| 0 <= i < value.len() implies ' ' <= #[trigger] value[i] <= '~' by {
        if i >= BEARER@.len() {
            assert(value[i] == token[i - BEARER@.len()]);
        }
    }
    crate::http_utils::lemma_plain_is_header_value(value);
}

/// The authority to sign requests that a login has established: the session key, and the
/// token that names the session to the server.
#[derive(Debug)]
pub struct Session {
    session_key: Vec<u8>,
    session_token: String,
}

/// What a [`Session`] holds, as mathematical values.
pub struct SessionView {
    pub session_key: Seq<u8>,
    pub session_token: Seq<char>,
}

impl View for Session {
    type V = SessionView;

    closed spec fn view(&self) -> SessionView {
        SessionView { session_key: self.session_key@, session_token: self.session_token@ }
    }
}

impl Session {
    pub fn new(session_key: Vec<u8>, session_token: String) -> (session: Self)
        ensures
            session@ == (SessionView {
                session_key: session_key@,
                session_token: session_token@,
            }),
    {
        Self { session_key, session_token }
    }

    pub fn session_key(&self) -> (key: &[u8])
        ensures
            key@ == self@.session_key,
    {
        self.session_key.as_slice()
    }

    pub fn session_token(&self) -> (token: &str)
        ensures
            token@ == self@.session_token,
    {
        self.session_token.as_str()
    }

    /// The session that belongs to `session_key`: its token is 64 bytes derived from the
    /// key, written in 128 hexadecimal digits. Fails with `Internal` exactly where the key
    /// has fewer than 64 bytes.
    pub fn derive(session_key: &[u8]) -> (session: Result<Session, VaultError>)
        ensures
            match session {
                Ok(session) => {
                    &&& session_key@.len() >= 64
                    &&& session@ == (SessionView {
                        session_key: session_key@,
                        session_token: session_token(session_key@),
                    })
                    &&& session_token(session_key@).len() == 128
                },
                Err(error) => session_key@.len() < 64 && error is Internal,
            },
    {
        match hkdf_sha512_expand_prk(
            session_key,
            SESSION_TOKEN_INFO.as_bytes(),
            SESSION_TOKEN_LENGTH,
        ) {
            Ok(token) => {
                proof {
                    crate::http_utils::lemma_hex_is_plain(token@);
                }
                Ok(Session::new(slice_to_vec(session_key), hex_encode(token.as_slice())))
            },
            Err(text) => Err(VaultError::Internal(text)),
        }
    }
}

/// A request, ready to be sent.
#[derive(Debug)]
pub struct Request {
    pub verb: String,
    pub uri: String,
    pub body: Option<Vec<u8>>,
    pub headers: Vec<Header>,
}

/// What a [`Request`] holds, as mathematical values.
pub struct RequestView {
    pub verb: Seq<char>,
    pub uri: Seq<char>,
    pub body: Option<Seq<u8>>,
    pub headers: Seq<HeaderView>,
}

impl View for Request {
    type V = RequestView;

    open spec fn view(&self) -> RequestView {
        RequestView {
            verb: self.verb@,
            uri: self.uri@,
            body: match self.body {
                Some(body) => Some(body@),
                None => None,
            },
            headers: header_views(self.headers@),
        }
    }
}

/// What came back for a request: the status code and the body.
#[derive(Debug)]
pub struct Response {
    pub status: u16,
    pub body: Vec<u8>,
}

/// The header that carries a bearer token. It is sensitive.
pub open spec fn bearer_header(token: Seq<char>) -> HeaderView {
    HeaderView { name: AUTHORIZATION@, value: BEARER@ + token, sensitive: true }
}

/// `headers`, followed by the bearer header where there is a token.
pub open spec fn with_bearer(headers: Seq<HeaderView>, bearer_token: Option<Seq<char>>) -> Seq<
    HeaderView,
> {
    match bearer_token {
        Some(token) => headers.push(bearer_header(token)),
        None => headers,
    }
}

/// Whether two texts are the same.
pub fn same_text(left: &str, right: &str) -> (same: bool)
    ensures
        same == (left@ == right@),
{
    let a = left.as_bytes();
    let b = right.as_bytes();
    proof {
        vstd::utf8::encode_utf8_decode_utf8(left@);
        vstd::utf8::encode_utf8_decode_utf8(right@);
    }
    if a.len() != b.len() {
        return false;
    }
    let mut i: usize = 0;
    while i < a.len()
        invariant
            i <= a.len(),
            a@.len() == b@.len(),
            a@ == encode_utf8(left@),
            b@ == encode_utf8(right@),
            forall|j: int| 0 <= j < i ==> a@[j] == b@[j],
        decreases a.len() - i,
    {
        if a[i] != b[i] {
            return false;
        }
        i = i + 1;
    }
    assert(a@ =~= b@);
    true
}

/// Puts a request together. Only `GET` and `POST` are verbs of the interface: any other
/// verb fails with `Internal`. A bearer token goes into a header of its own, after the
/// others.
pub fn web_server_request(
    uri: String,
    verb: &str,
    body: Option<Vec<u8>>,
    headers: Vec<Header>,
    bearer_token: Option<&str>,
) -> (request: Result<Request, VaultError>)
    ensures
        match request {
            Ok(request) => (verb@ == GET@ || verb@ == POST@) && request@ == (RequestView {
                verb: verb@,
                uri: uri@,
                body: match body {
                    Some(body) => Some(body@),
                    None => None,
                },
                headers: with_bearer(
                    header_views(headers@),
                    match bearer_token {
                        Some(token) => Some(token@),
                        None => None,
                    },
                ),
            }),
            Err(error) => verb@ != GET@ && verb@ != POST@ && error is Internal,
        },
{
    if !same_text(verb, GET) && !same_text(verb, POST) {
        return Err(VaultError::Internal(String::from_str(METHOD_NOT_ALLOWED)));
    }
    let mut headers = headers;
    match bearer_token {
        Some(token) => {
            let ghost before = header_views(headers@);
            let mut value = String::from_str(BEARER);
            value.append(token);
            headers.push(Header { name: String::from_str(AUTHORIZATION), value, sensitive: true });
            assert(header_views(headers@) =~= before.push(bearer_header(token@)));
        },
        None => {},
    }
    Ok(Request { verb: String::from_str(verb), uri, body, headers })
}

/// Whether a status code reports an error of the client or of the server.
pub open spec fn is_error_status(status: u16) -> bool {
    400 <= status < 600
}

/// The body of a response, or `ExchangeFailed` where its status reports an error of the
/// client or of the server.
pub fn read_response(response: Response) -> (body: Result<Vec<u8>, VaultError>)
    ensures
        match body {
            Ok(body) => !is_error_status(response.status) && body@ == response.body@,
            Err(error) => is_error_status(response.status) && error is ExchangeFailed,
        },
{
    if 400 <= response.status && response.status < 600 {
        let mut text = String::from_str("HTTP status ");
        text.append(to_decimal(response.status as u64).as_str());
        return Err(VaultError::ExchangeFailed(text));
    }
    Ok(response.body)
}

/// The body of the response to a request for the vault. A status of 404 means that the
/// server has no vault for the account: `NotFound`. Any other error status is
/// `ExchangeFailed`.
pub fn read_vault_response(response: Response) -> (body: Result<Vec<u8>, VaultError>)
    ensures
        match body {
            Ok(body) => !is_error_status(response.status) && body@ == response.body@,
            Err(error) => is_error_status(response.status) && if response.status == 404 {
                error is NotFound
            } else {
                error is ExchangeFailed
            },
        },
{
    if response.status == 404 {
        return Err(VaultError::NotFound);
    }
    read_response(response)
}

/// The client of the server's interface: where the server is, and the session once a login
/// has finished.
#[derive(Debug)]
pub struct OpaqueApi {
    server_url: String,
    session: Option<Session>,
}

/// What an [`OpaqueApi`] holds, as mathematical values.
pub struct OpaqueApiView {
    pub server_url: Seq<char>,
    pub session: Option<SessionView>,
}

impl View for OpaqueApi {
    type V = OpaqueApiView;

    closed spec fn view(&self) -> OpaqueApiView {
        OpaqueApiView {
            server_url: self.server_url@,
            session: match self.session {
                Some(session) => Some(session@),
                None => None,
            },
        }
    }
}

/// The request of the account protocol that carries `message` for `username` to `route`.
pub open spec fn opaque_request(
    server_url: Seq<char>,
    route: Seq<char>,
    username: Seq<char>,
    message: Seq<u8>,
) -> RequestView {
    RequestView {
        verb: POST@,
        uri: server_url + route,
        body: Some(message),
        headers: seq![
            HeaderView { name: CONTENT_TYPE@, value: APPLICATION_OCTET_STREAM@, sensitive: false },
            HeaderView { name: X_USERNAME@, value: username, sensitive: true },
        ],
    }
}

/// The request to the vault that `session` signs at the time `timestamp`.
pub open spec fn signed_vault_request(
    server_url: Seq<char>,
    session: SessionView,
    verb: Seq<char>,
    content: Option<Seq<u8>>,
    timestamp: u64,
) -> RequestView {
    RequestView {
        verb,
        uri: server_url + VAULT@,
        body: content,
        headers: vault_request_headers(session.session_key, verb, server_url, VAULT@, timestamp).push(
            bearer_header(session.session_token),
        ),
    }
}

impl OpaqueApi {
    /// A client for the server at `server_url`, without a session.
    pub fn new(server_url: String) -> (api: Self)
        ensures
            api@ == (OpaqueApiView { server_url: server_url@, session: None }),
    {
        Self { server_url, session: None }
    }

    /// Whether a login has finished, so that requests to the vault can be signed.
    pub fn is_logged_in(&self) -> (logged_in: bool)
        ensures
            logged_in == self@.session is Some,
    {
        match self.session {
            Some(_) => true,
            None => false,
        }
    }

    /// Opens the session that belongs to `session_key`, in the place of any earlier one:
    /// its token has 128 hexadecimal digits. Fails with `Internal`, and changes nothing,
    /// where the key has fewer than 64 bytes.
    pub fn create_session(&mut self, session_key: &[u8]) -> (done: Result<(), VaultError>)
        ensures
            match done {
                Ok(()) => {
                    &&& session_key@.len() >= 64
                    &&& final(self)@ == (OpaqueApiView {
                        session: Some(
                            SessionView {
                                session_key: session_key@,
                                session_token: session_token(session_key@),
                            },
                        ),
                        ..old(self)@
                    })
                    &&& session_token(session_key@).len() == 128
                },
                Err(error) => session_key@.len() < 64 && error is Internal && final(self)@ == old(
                    self,
                )@,
            },
    {
        match Session::derive(session_key) {
            Ok(session) => {
                self.session = Some(session);
                Ok(())
            },
            Err(error) => Err(error),
        }
    }

    /// A request of the account protocol. Fails with `Internal` exactly where `username`
    /// cannot be the value of a header.
    pub fn opaque_request(&self, route: &str, username: &str, message: &[u8]) -> (request: Result<
        Request,
        VaultError,
    >)
        ensures
            match request {
                Ok(request) => is_header_value(username@) && request@ == opaque_request(
                    self@.server_url,
                    route@,
                    username@,
                    message@,
                ),
                Err(error) => !is_header_value(username@) && error is Internal,
            },
    {
        let headers = match get_opaque_headers(username) {
            Ok(headers) => headers,
            Err(error) => { return Err(error); },
        };
        let mut uri = self.server_url.clone();
        uri.append(route);
        web_server_request(uri, POST, Some(slice_to_vec(message)), headers, None)
    }

    /// The request that opens a registration.
    pub fn start_server_registration(&self, username: &str, message: &[u8]) -> (request: Result<
        Request,
        VaultError,
    >)
        ensures
            match request {
                Ok(request) => is_header_value(username@) && request@ == opaque_request(
                    self@.server_url,
                    OPAQUE_REGISTRATION_START@,
                    username@,
                    message@,
                ),
                Err(error) => !is_header_value(username@) && error is Internal,
            },
    {
        self.opaque_request(OPAQUE_REGISTRATION_START, username, message)
    }

    /// The request that completes a registration.
    pub fn finish_server_registration(&self, username: &str, message: &[u8]) -> (request: Result<
        Request,
        VaultError,
    >)
        ensures
            match request {
                Ok(request) => is_header_value(username@) && request@ == opaque_request(
                    self@.server_url,
                    OPAQUE_REGISTRATION_FINISH@,
                    username@,
                    message@,
                ),
                Err(error) => !is_header_value(username@) && error is Internal,
            },
    {
        self.opaque_request(OPAQUE_REGISTRATION_FINISH, username, message)
    }

    /// The request that opens a login.
    pub fn start_server_login(&self, username: &str, message: &[u8]) -> (request: Result<
        Request,
        VaultError,
    >)
        ensures
            match request {
                Ok(request) => is_header_value(username@) && request@ == opaque_request(
                    self@.server_url,
                    OPAQUE_LOGIN_START@,
                    username@,
                    message@,
                ),
                Err(error) => !is_header_value(username@) && error is Internal,
            },
    {
        self.opaque_request(OPAQUE_LOGIN_START, username, message)
    }

    /// The request that completes a login.
    pub fn finish_server_login(&self, username: &str, message: &[u8]) -> (request: Result<
        Request,
        VaultError,
    >)
        ensures
            match request {
                Ok(request) => is_header_value(username@) && request@ == opaque_request(
                    self@.server_url,
                    OPAQUE_LOGIN_FINISH@,
                    username@,
                    message@,
                ),
                Err(error) => !is_header_value(username@) && error is Internal,
            },
    {
        self.opaque_request(OPAQUE_LOGIN_FINISH, username, message)
    }

    /// A signed request to the vault at the time `timestamp`, in seconds since 1970. Fails
    /// with `NotLoggedIn` where there is no session, and otherwise with `Internal` where the
    /// verb is neither `GET` nor `POST` or the server's address cannot be the value of a
    /// header.
    pub fn vault_request(&self, verb: &str, content: Option<Vec<u8>>, timestamp: u64) -> (request:
        Result<Request, VaultError>)
        ensures
            match request {
                Ok(request) => self@.session is Some && request@ == signed_vault_request(
                    self@.server_url,
                    self@.session->Some_0,
                    verb@,
                    match content {
                        Some(content) => Some(content@),
                        None => None,
                    },
                    timestamp,
                ),
                Err(error) => if self@.session is None {
                    error is NotLoggedIn
                } else {
                    error is Internal && (!is_header_value(self@.server_url) || (verb@ != GET@
                        && verb@ != POST@))
                },
            },
            request is Ok <==> self@.session is Some && is_header_value(self@.server_url) && (verb@
                == GET@ || verb@ == POST@),
    {
        let session = match &self.session {
            Some(session) => session,
            None => {
                return Err(VaultError::NotLoggedIn(String::from_str(NO_SESSION_AFTER_LOGIN)));
            },
        };
        let mut uri = self.server_url.clone();
        uri.append(VAULT);
        let headers = match get_vault_request_headers(
            session.session_key(),
            verb,
            self.server_url.as_str(),
            VAULT,
            timestamp,
        ) {
            Ok(headers) => headers,
            Err(error) => { return Err(error); },
        };
        web_server_request(uri, verb, content, headers, Some(session.session_token()))
    }

    /// The signed request that fetches the encrypted vault.
    pub fn get_vault(&self, timestamp: u64) -> (request: Result<Request, VaultError>)
        ensures
            match request {
                Ok(request) => self@.session is Some && request@ == signed_vault_request(
                    self@.server_url,
                    self@.session->Some_0,
                    GET@,
                    None,
                    timestamp,
                ),
                Err(error) => if self@.session is None {
                    error is NotLoggedIn
                } else {
                    error is Internal && !is_header_value(self@.server_url)
                },
            },
            request is Ok <==> self@.session is Some && is_header_value(self@.server_url),
    {
        self.vault_request(GET, None, timestamp)
    }

    /// The signed request that stores the encrypted vault.
    pub fn save_vault(&self, vault: Vec<u8>, timestamp: u64) -> (request: Result<Request, VaultError>)
        ensures
            match request {
                Ok(request) => self@.session is Some && request@ == signed_vault_request(
                    self@.server_url,
                    self@.session->Some_0,
                    POST@,
                    Some(vault@),
                    timestamp,
                ),
                Err(error) => if self@.session is None {
                    error is NotLoggedIn
                } else {
                    error is Internal && !is_header_value(self@.server_url)
                },
            },
            request is Ok <==> self@.session is Some && is_header_value(self@.server_url),
    {
        self.vault_request(POST, Some(vault), timestamp)
    }
}

} // verus!
