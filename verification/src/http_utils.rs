//! The headers and bodies of the requests, and the signature that vouches for a request to
//! the vault.

use crate::errors::VaultError;
use vstd::prelude::*;
use vstd::slice::slice_to_vec;
use vstd::string::StringExecFns;
use vstd::utf8::{encode_utf8, is_ascii_chars, is_ascii_chars_encode_utf8};

use hmac::Mac;

verus! {

pub const APPLICATION_OCTET_STREAM: &'static str = "application/octet-stream";

pub const CONTENT_TYPE: &'static str = "Content-Type";

pub const HOST: &'static str = "Host";

pub const X_TIMESTAMP: &'static str = "X-Timestamp";

pub const X_SIGNATURE: &'static str = "X-Signature";

pub const X_USERNAME: &'static str = "X-Username";

pub const SEPARATOR: &'static str = ";";

/// One header of a request. A sensitive header is one that must not be logged.
#[derive(Debug)]
pub struct Header {
    pub name: String,
    pub value: String,
    pub sensitive: bool,
}

/// What a [`Header`] holds, as mathematical values.
pub struct HeaderView {
    pub name: Seq<char>,
    pub value: Seq<char>,
    pub sensitive: bool,
}

impl View for Header {
    type V = HeaderView;

    open spec fn view(&self) -> HeaderView {
        HeaderView { name: self.name@, value: self.value@, sensitive: self.sensitive }
    }
}

impl Clone for Header {
    fn clone(&self) -> (copy: Header)
        ensures
            copy@ == self@,
    {
        Header { name: self.name.clone(), value: self.value.clone(), sensitive: self.sensitive }
    }
}

/// The headers of a list, as mathematical values.
pub open spec fn header_views(headers: Seq<Header>) -> Seq<HeaderView> {
    headers.map_values(|h: Header| h@)
}

/// A byte that may stand in the value of a header: a tab, or anything from the space on
/// but the delete character.
pub open spec fn is_header_value_byte(byte: u8) -> bool {
    (byte >= 32 && byte != 127) || byte == 9
}

/// A text that may be the value of a header: each byte of its UTF-8 form may stand there.
pub open spec fn is_header_value(text: Seq<char>) -> bool {
    forall|i: int|
        0 <= i < encode_utf8(text).len() ==> is_header_value_byte(#[trigger] encode_utf8(text)[i])
}

/// Whether `text` may be the value of a header.
pub fn check_header_value(text: &str) -> (valid: bool)
    ensures
        valid == is_header_value(text@),
{
    let bytes = text.as_bytes();
    let mut i: usize = 0;
    while i < bytes.len()
        invariant
            i <= bytes.len(),
            bytes@ == encode_utf8(text@),
            forall|j: int| 0 <= j < i ==> is_header_value_byte(#[trigger] bytes@[j]),
        decreases bytes.len() - i,
    {
        let byte = bytes[i];
        if !((byte >= 32 && byte != 127) || byte == 9) {
            return false;
        }
        i = i + 1;
    }
    true
}

/// The decimal digit for `value`, which is below ten.
pub open spec fn decimal_digit(value: nat) -> char {
    if value == 0 {
        '0'
    } else if value == 1 {
        '1'
    } else if value == 2 {
        '2'
    } else if value == 3 {
        '3'
    } else if value == 4 {
        '4'
    } else if value == 5 {
        '5'
    } else if value == 6 {
        '6'
    } else if value == 7 {
        '7'
    } else if value == 8 {
        '8'
    } else {
        '9'
    }
}

/// `value` in decimal digits, without leading zeros.
pub open spec fn decimal(value: nat) -> Seq<char>
    decreases value,
{
    if value < 10 {
        seq![decimal_digit(value)]
    } else {
        decimal(value / 10).push(decimal_digit(value % 10))
    }
}

fn decimal_digit_text(value: u64) -> (text: &'static str)
    requires
        value < 10,
    ensures
        text@ == seq![decimal_digit(value as nat)],
{
    proof {
        reveal_strlit("0");
        reveal_strlit("1");
        reveal_strlit("2");
        reveal_strlit("3");
        reveal_strlit("4");
        reveal_strlit("5");
        reveal_strlit("6");
        reveal_strlit("7");
        reveal_strlit("8");
        reveal_strlit("9");
    }
    let text = if value == 0 {
        "0"
    } else if value == 1 {
        "1"
    } else if value == 2 {
        "2"
    } else if value == 3 {
        "3"
    } else if value == 4 {
        "4"
    } else if value == 5 {
        "5"
    } else if value == 6 {
        "6"
    } else if value == 7 {
        "7"
    } else if value == 8 {
        "8"
    } else {
        "9"
    };
    assert(text@ =~= seq![decimal_digit(value as nat)]);
    text
}

/// `value` written in decimal digits.
pub fn to_decimal(value: u64) -> (text: String)
    ensures
        text@ == decimal(value as nat),
    decreases value,
{
    if value < 10 {
        String::from_str(decimal_digit_text(value))
    } else {
        let mut text = to_decimal(value / 10);
        text.append(decimal_digit_text(value % 10));
        text
    }
}

/// The lower-case hexadecimal digit for `value`, which is below sixteen.
pub open spec fn hex_digit(value: nat) -> char {
    if value < 10 {
        decimal_digit(value)
    } else if value == 10 {
        'a'
    } else if value == 11 {
        'b'
    } else if value == 12 {
        'c'
    } else if value == 13 {
        'd'
    } else if value == 14 {
        'e'
    } else {
        'f'
    }
}

/// `bytes` in lower-case hexadecimal digits: two for each byte, the high half first.
pub open spec fn hex(bytes: Seq<u8>) -> Seq<char> {
    Seq::new(
        2 * bytes.len(),
        |i: int|
            if i % 2 == 0 {
                hex_digit((bytes[i / 2] / 16) as nat)
            } else {
                hex_digit((bytes[i / 2] % 16) as nat)
            },
    )
}

/// `hex::encode`: the bytes in lower-case hexadecimal digits, two for each byte.
#[verifier::external_body]
pub(crate) fn hex_encode(bytes: &[u8]) -> (text: String)
    ensures
        text@ == hex(bytes@),
{
    hex::encode(bytes)
}

/// What HMAC with SHA-512 makes of `message` under `key`.
pub uninterp spec fn hmac_sha512(key: Seq<u8>, message: Seq<u8>) -> Seq<u8>;

/// `Mac::new_from_slice`, `Mac::update` and `Mac::finalize` of `hmac::Hmac<sha2::Sha512>`:
/// the 64 bytes of the tag, which depend on the key and the message alone. HMAC takes a key
/// of any length, so the tag always comes.
#[verifier::external_body]
fn hmac_sha512_tag(key: &[u8], message: &[u8]) -> (tag: Result<Vec<u8>, String>)
    ensures
        tag is Ok,
        tag->Ok_0@ == hmac_sha512(key@, message@),
        tag->Ok_0@.len() == 64,
{
    match hmac::Hmac::<sha2::Sha512>::new_from_slice(key) {
        Ok(mut mac) => {
            mac.update(message);
            Ok(mac.finalize().into_bytes().to_vec())
        },
        Err(error) => Err(error.to_string()),
    }
}

/// The text that is signed for a request: the verb, the address and the time stamp, with
/// a bar between them.
pub open spec fn signing_input(verb: Seq<char>, uri: Seq<char>, timestamp: Seq<char>) -> Seq<char> {
    verb + seq!['|'] + uri + seq!['|'] + timestamp
}

/// The signature of a request: the HMAC of the UTF-8 bytes of its signing input under the
/// session key.
pub open spec fn signature(
    session_key: Seq<u8>,
    verb: Seq<char>,
    uri: Seq<char>,
    timestamp: Seq<char>,
) -> Seq<u8> {
    hmac_sha512(session_key, encode_utf8(signing_input(verb, uri, timestamp)))
}

/// Signs a request. For one session key, verb, address and time stamp the signature is
/// always the same.
pub fn create_signature(verb: &str, uri: &str, timestamp: &str, session_key: &[u8]) -> (tag: Result<
    Vec<u8>,
    VaultError,
>)
    ensures
        tag is Ok,
        tag->Ok_0@ == signature(session_key@, verb@, uri@, timestamp@),
        tag->Ok_0@.len() == 64,
{
    proof {
        reveal_strlit("|");
    }
    let mut raw_signature = String::from_str(verb);
    raw_signature.append("|");
    raw_signature.append(uri);
    raw_signature.append("|");
    raw_signature.append(timestamp);
    assert(raw_signature@ =~= signing_input(verb@, uri@, timestamp@));
    match hmac_sha512_tag(session_key, raw_signature.as_str().as_bytes()) {
        Ok(tag) => Ok(tag),
        Err(text) => Err(VaultError::Internal(text)),
    }
}

/// The signature is a function of the session key, the verb, the address and the time
/// stamp: the same four always give the same signature.
pub proof fn lemma_signature_is_a_function(
    session_key: Seq<u8>,
    verb: Seq<char>,
    uri: Seq<char>,
    timestamp: Seq<char>,
    other_session_key: Seq<u8>,
    other_verb: Seq<char>,
    other_uri: Seq<char>,
    other_timestamp: Seq<char>,
)
    requires
        session_key == other_session_key,
        verb == other_verb,
        uri == other_uri,
        timestamp == other_timestamp,
    ensures
        signature(session_key, verb, uri, timestamp) == signature(
            other_session_key,
            other_verb,
            other_uri,
            other_timestamp,
        ),
{
}

/// Signing inputs of which one differs from the other in a single character of the verb,
/// the address or the time stamp are different texts: the three parts have the same
/// lengths in both, so each part can be read back from the whole.
pub proof fn lemma_signing_input_tells_parts_apart(
    verb: Seq<char>,
    uri: Seq<char>,
    timestamp: Seq<char>,
    other_verb: Seq<char>,
    other_uri: Seq<char>,
    other_timestamp: Seq<char>,
)
    requires
        verb.len() == other_verb.len(),
        uri.len() == other_uri.len(),
        timestamp.len() == other_timestamp.len(),
        verb != other_verb || uri != other_uri || timestamp != other_timestamp,
    ensures
        signing_input(verb, uri, timestamp) != signing_input(
            other_verb,
            other_uri,
            other_timestamp,
        ),
        encode_utf8(signing_input(verb, uri, timestamp)) != encode_utf8(
            signing_input(other_verb, other_uri, other_timestamp),
        ),
{
    let one = signing_input(verb, uri, timestamp);
    let other = signing_input(other_verb, other_uri, other_timestamp);
    if one == other {
        let v = verb.len() as int;
        let u = uri.len() as int;
        assert(one.subrange(0, v) =~= verb);
        assert(other.subrange(0, v) =~= other_verb);
        assert(one.subrange(v + 1, v + 1 + u) =~= uri);
        assert(other.subrange(v + 1, v + 1 + u) =~= other_uri);
        assert(one.subrange(v + u + 2, one.len() as int) =~= timestamp);
        assert(other.subrange(v + u + 2, other.len() as int) =~= other_timestamp);
    }
    if encode_utf8(one) == encode_utf8(other) {
        vstd::utf8::encode_utf8_decode_utf8(one);
        vstd::utf8::encode_utf8_decode_utf8(other);
    }
}

/// The header that every request carries: the content type of raw bytes.
pub fn get_default_headers() -> (headers: Vec<Header>)
    ensures
        header_views(headers@) == seq![
            HeaderView {
                name: CONTENT_TYPE@,
                value: APPLICATION_OCTET_STREAM@,
                sensitive: false,
            },
        ],
{
    let mut headers: Vec<Header> = Vec::new();
    headers.push(
        Header {
            name: String::from_str(CONTENT_TYPE),
            value: String::from_str(APPLICATION_OCTET_STREAM),
            sensitive: false,
        },
    );
    assert(header_views(headers@) =~= seq![
        HeaderView { name: CONTENT_TYPE@, value: APPLICATION_OCTET_STREAM@, sensitive: false },
    ]);
    headers
}

/// The headers of a request of the account protocol: the content type, and the user name
/// as a sensitive header. Fails with `Internal` exactly where `username` cannot be the
/// value of a header.
pub fn get_opaque_headers(username: &str) -> (headers: Result<Vec<Header>, VaultError>)
    ensures
        match headers {
            Ok(headers) => is_header_value(username@) && header_views(headers@) == seq![
                HeaderView {
                    name: CONTENT_TYPE@,
                    value: APPLICATION_OCTET_STREAM@,
                    sensitive: false,
                },
                HeaderView { name: X_USERNAME@, value: username@, sensitive: true },
            ],
            Err(error) => !is_header_value(username@) && error is Internal,
        },
{
    if !check_header_value(username) {
        return Err(VaultError::Internal(String::from_str("failed to parse header value")));
    }
    let mut headers = get_default_headers();
    let ghost before = headers@;
    headers.push(
        Header { name: String::from_str(X_USERNAME), value: String::from_str(username), sensitive: true },
    );
    assert(header_views(headers@) =~= header_views(before).push(
        HeaderView { name: X_USERNAME@, value: username@, sensitive: true },
    ));
    assert(header_views(headers@) =~= seq![
        HeaderView { name: CONTENT_TYPE@, value: APPLICATION_OCTET_STREAM@, sensitive: false },
        HeaderView { name: X_USERNAME@, value: username@, sensitive: true },
    ]);
    Ok(headers)
}

/// The headers that a request to the vault carries apart from its bearer token, for the
/// request of `verb` to `server_url` followed by `path` at the time `timestamp`, in seconds
/// since 1970: the content type, the host, the time stamp in decimal digits, and the
/// signature in hexadecimal digits. The last two are sensitive.
pub open spec fn vault_request_headers(
    session_key: Seq<u8>,
    verb: Seq<char>,
    server_url: Seq<char>,
    path: Seq<char>,
    timestamp: u64,
) -> Seq<HeaderView> {
    seq![
        HeaderView { name: CONTENT_TYPE@, value: APPLICATION_OCTET_STREAM@, sensitive: false },
        HeaderView { name: HOST@, value: server_url, sensitive: false },
        HeaderView { name: X_TIMESTAMP@, value: decimal(timestamp as nat), sensitive: true },
        HeaderView {
            name: X_SIGNATURE@,
            value: hex(signature(session_key, verb, server_url + path, decimal(timestamp as nat))),
            sensitive: true,
        },
    ]
}

/// The headers of a request to the vault but for its bearer token. Fails with `Internal`
/// exactly where `server_url` cannot be the value of a header.
pub fn get_vault_request_headers(
    session_key: &[u8],
    verb: &str,
    server_url: &str,
    path: &str,
    timestamp: u64,
) -> (headers: Result<Vec<Header>, VaultError>)
    ensures
        match headers {
            Ok(headers) => is_header_value(server_url@) && header_views(headers@)
                == vault_request_headers(session_key@, verb@, server_url@, path@, timestamp),
            Err(error) => !is_header_value(server_url@) && error is Internal,
        },
{
    if !check_header_value(server_url) {
        return Err(VaultError::Internal(String::from_str("failed to parse header value")));
    }
    let mut headers = get_default_headers();
    let ghost first = header_views(headers@);
    headers.push(
        Header { name: String::from_str(HOST), value: String::from_str(server_url), sensitive: false },
    );
    let ghost second = header_views(headers@);
    assert(second =~= first.push(HeaderView { name: HOST@, value: server_url@, sensitive: false }));
    let text = to_decimal(timestamp);
    let mut uri = String::from_str(server_url);
    uri.append(path);
    let tag = match create_signature(verb, uri.as_str(), text.as_str(), session_key) {
        Ok(tag) => tag,
        Err(error) => { return Err(error); },
    };
    let signature_text = hex_encode(tag.as_slice());
    headers.push(Header { name: String::from_str(X_TIMESTAMP), value: text, sensitive: true });
    let ghost third = header_views(headers@);
    assert(third =~= second.push(
        HeaderView { name: X_TIMESTAMP@, value: decimal(timestamp as nat), sensitive: true },
    ));
    headers.push(
        Header { name: String::from_str(X_SIGNATURE), value: signature_text, sensitive: true },
    );
    assert(header_views(headers@) =~= third.push(
        HeaderView { name: X_SIGNATURE@, value: signature_text@, sensitive: true },
    ));
    assert(header_views(headers@) =~= vault_request_headers(
        session_key@,
        verb@,
        server_url@,
        path@,
        timestamp,
    ));
    Ok(headers)
}

/// A text of visible ASCII characters and spaces.
pub open spec fn is_plain(text: Seq<char>) -> bool {
    forall|i: int| 0 <= i < text.len() ==> ' ' <= #[trigger] text[i] <= '~'
}

/// A text of visible ASCII characters and spaces may be the value of a header.
pub proof fn lemma_plain_is_header_value(text: Seq<char>)
    requires
        is_plain(text),
    ensures
        is_header_value(text),
{
    assert(is_ascii_chars(text)) by {
        assert forall|i: int| 0 <= i < text.len() implies '\0' <= #[trigger] text[i]
            <= '\u{7f}' by {
            assert(' ' <= text[i] <= '~');
        }
    }
    is_ascii_chars_encode_utf8(text);
    assert forall|i: int| 0 <= i < encode_utf8(text).len() implies is_header_value_byte(
        #[trigger] encode_utf8(text)[i],
    ) by {
        assert(' ' <= text[i] <= '~');
        assert(text[i] as u8 == encode_utf8(text)[i]);
    }
}

/// A number in decimal digits is a text of visible ASCII characters.
pub proof fn lemma_decimal_is_plain(value: nat)
    ensures
        is_plain(decimal(value)),
        decimal(value).len() >= 1,
    decreases value,
{
    if value >= 10 {
        lemma_decimal_is_plain(value / 10);
        let head = decimal(value / 10);
        assert forall|i: int| 0 <= i < decimal(value).len() implies ' ' <= #[trigger] decimal(
            value,
        )[i] <= '~' by {
            if i < head.len() {
                assert(decimal(value)[i] == head[i]);
            }
        }
    }
}

/// Bytes in hexadecimal digits are a text of visible ASCII characters.
pub proof fn lemma_hex_is_plain(bytes: Seq<u8>)
    ensures
        is_plain(hex(bytes)),
        hex(bytes).len() == 2 * bytes.len(),
{
}

/// The headers of a request to the vault can all be sent: where the server's address may
/// be the value of a header, each of the four values may.
pub proof fn lemma_vault_request_headers_can_be_sent(
    session_key: Seq<u8>,
    verb: Seq<char>,
    server_url: Seq<char>,
    path: Seq<char>,
    timestamp: u64,
)
    requires
        is_header_value(server_url),
    ensures
        forall|i: int|
            0 <= i < 4 ==> is_header_value(
                (#[trigger] vault_request_headers(session_key, verb, server_url, path, timestamp)[i]).value,
            ),
{
    reveal_strlit("application/octet-stream");
    let headers = vault_request_headers(session_key, verb, server_url, path, timestamp);
    assert(is_plain(APPLICATION_OCTET_STREAM@));
    lemma_plain_is_header_value(APPLICATION_OCTET_STREAM@);
    lemma_decimal_is_plain(timestamp as nat);
    lemma_plain_is_header_value(headers[2].value);
    lemma_hex_is_plain(signature(session_key, verb, server_url + path, decimal(timestamp as nat)));
    lemma_plain_is_header_value(headers[3].value);
}

/// The user name, a semicolon and the message.
pub fn construct_body(username: &str, message: &[u8]) -> (body: Vec<u8>)
    ensures
        body@ == encode_utf8(username@) + encode_utf8(SEPARATOR@) + message@,
{
    let mut body = slice_to_vec(username.as_bytes());
    let mut separator = slice_to_vec(SEPARATOR.as_bytes());
    let mut rest = slice_to_vec(message);
    body.append(&mut separator);
    body.append(&mut rest);
    body
}

/// `left` and `right` are the same text but for the case of their ASCII letters.
pub open spec fn same_name(left: Seq<char>, right: Seq<char>) -> bool {
    &&& encode_utf8(left).len() == encode_utf8(right).len()
    &&& forall|i: int|
        0 <= i < encode_utf8(left).len() ==> lower_case(#[trigger] encode_utf8(left)[i])
            == lower_case(encode_utf8(right)[i])
}

/// `byte`, or its lower-case form where it is an upper-case ASCII letter.
pub open spec fn lower_case(byte: u8) -> u8 {
    if 65 <= byte <= 90 {
        (byte + 32) as u8
    } else {
        byte
    }
}

fn to_lower_case(byte: u8) -> (lower: u8)
    ensures
        lower == lower_case(byte),
{
    if 65 <= byte && byte <= 90 {
        byte + 32
    } else {
        byte
    }
}

/// Whether two header names are the same. The case of ASCII letters does not count.
pub fn is_same_name(left: &str, right: &str) -> (same: bool)
    ensures
        same == same_name(left@, right@),
{
    let a = left.as_bytes();
    let b = right.as_bytes();
    if a.len() != b.len() {
        return false;
    }
    let mut i: usize = 0;
    while i < a.len()
        invariant
            i <= a.len(),
            a@.len() == b@.len(),
            a@ == encode_utf8(left@),
            b@ == encode_utf8(right@),
            forall|j: int| 0 <= j < i ==> lower_case(#[trigger] a@[j]) == lower_case(b@[j]),
        decreases a.len() - i,
    {
        if to_lower_case(a[i]) != to_lower_case(b[i]) {
            return false;
        }
        i = i + 1;
    }
    true
}

/// The position of the first header of `headers` whose name is `name`, the case of letters
/// aside.
pub open spec fn header_position(headers: Seq<HeaderView>, name: Seq<char>) -> Option<int> {
    if exists|i: int| is_first_of_name(headers, name, i) {
        Some(choose|i: int| is_first_of_name(headers, name, i))
    } else {
        None
    }
}

/// The header at `i` has the name `name`, and no header before it has.
pub open spec fn is_first_of_name(headers: Seq<HeaderView>, name: Seq<char>, i: int) -> bool {
    &&& 0 <= i < headers.len()
    &&& same_name(headers[i].name, name)
    &&& forall|j: int| 0 <= j < i ==> !same_name(#[trigger] headers[j].name, name)
}

/// The first header of `headers` whose name is `name`, the case of letters aside.
pub fn find_header<'a>(headers: &'a Vec<Header>, name: &str) -> (found: Option<&'a Header>)
    ensures
        match found {
            Some(header) => header_position(header_views(headers@), name@) is Some
                && header@ == header_views(headers@)[header_position(
                header_views(headers@),
                name@,
            )->Some_0],
            None => header_position(header_views(headers@), name@) is None,
        },
{
    let ghost views = header_views(headers@);
    let mut i: usize = 0;
    while i < headers.len()
        invariant
            i <= headers.len(),
            views == header_views(headers@),
            forall|j: int| 0 <= j < i ==> !same_name(#[trigger] views[j].name, name@),
        decreases headers.len() - i,
    {
        if is_same_name(headers[i].name.as_str(), name) {
            proof {
                assert(is_first_of_name(views, name@, i as int));
                let k = choose|k: int| is_first_of_name(views, name@, k);
                assert(k == i) by {
                    if k < i {
                        assert(!same_name(views[k].name, name@));
                    } else if i < k {
                        assert(!same_name(views[i as int].name, name@));
                    }
                }
            }
            return Some(&headers[i]);
        }
        i = i + 1;
    }
    None
}

} // verus!
