use ferris_vault::errors::VaultError;
use ferris_vault::http_utils::{
    check_header_value, construct_body, create_signature, find_header, get_default_headers,
    get_opaque_headers, get_vault_request_headers, is_same_name, to_decimal, Header,
};
use hmac::Mac;
use std::time::Duration;

const CONTENT_TYPE: &'static str = "Content-Type";
const X_TIMESTAMP: &'static str = "X-Timestamp";
const X_SIGNATURE: &'static str = "X-Signature";
const X_USERNAME: &'static str = "X-Username";
const HOST: &'static str = "host";

#[test]
fn opaque_headers_should_contain_content_type_and_username() {
    let username = "username";
    let content_type_value = "application/octet-stream";

    let headers = get_opaque_headers(username);

    assert!(headers.is_ok());

    let headers = headers.unwrap();

    assert!(find_header(&headers, CONTENT_TYPE).is_some());
    assert_eq!(find_header(&headers, CONTENT_TYPE).unwrap().value, content_type_value);

    assert!(find_header(&headers, X_USERNAME).is_some());
    assert_eq!(find_header(&headers, X_USERNAME).unwrap().value, username);
    assert!(find_header(&headers, X_USERNAME).unwrap().sensitive);

    assert_eq!(headers.len(), 2);
}

#[test]
fn vault_headers_should_contain_timestamp_signature_as_sensitive() {
    let content_type_value = "application/octet-stream";
    let session_key = "session_key".as_bytes();
    let verb = "GET";
    let server_url = "http://localhost";
    let path = "/test";

    let uri = format!("{}{}", server_url, path);

    let duration = Duration::from_millis(1763127134822);
    let timestamp = duration.as_secs().to_string();

    let raw_signature = format!("{}|{}|{}", verb, uri, timestamp);

    let mut mac = hmac::Hmac::<sha2::Sha512>::new_from_slice(session_key).unwrap();
    mac.update(raw_signature.as_bytes());

    let signature = hex::encode(mac.finalize().into_bytes().to_vec());

    let headers =
        get_vault_request_headers(session_key, verb, server_url, path, duration.as_secs()).unwrap();

    assert!(find_header(&headers, CONTENT_TYPE).is_some());
    assert_eq!(find_header(&headers, CONTENT_TYPE).unwrap().value, content_type_value);

    assert!(find_header(&headers, HOST).is_some());
    assert_eq!(find_header(&headers, HOST).unwrap().value, server_url);

    assert!(find_header(&headers, X_SIGNATURE).is_some());
    assert_eq!(find_header(&headers, X_SIGNATURE).unwrap().value, signature);
    assert!(find_header(&headers, X_SIGNATURE).unwrap().sensitive);

    assert!(find_header(&headers, X_TIMESTAMP).is_some());
    assert_eq!(find_header(&headers, X_TIMESTAMP).unwrap().value, timestamp);
    assert!(find_header(&headers, X_TIMESTAMP).unwrap().sensitive);

    assert_eq!(headers.len(), 4);
}

fn expected_signature(key: &[u8], raw: &str) -> Vec<u8> {
    let mut mac = hmac::Hmac::<sha2::Sha512>::new_from_slice(key).unwrap();
    mac.update(raw.as_bytes());
    mac.finalize().into_bytes().to_vec()
}

#[test]
fn default_headers_hold_the_content_type() {
    let headers = get_default_headers();
    assert_eq!(headers.len(), 1);
    assert_eq!(headers[0].name, "Content-Type");
    assert_eq!(headers[0].value, "application/octet-stream");
    assert!(!headers[0].sensitive);
}

#[test]
fn opaque_headers_come_in_their_order() {
    let headers = get_opaque_headers("alice").unwrap();
    assert_eq!(headers[0].name, "Content-Type");
    assert!(!headers[0].sensitive);
    assert_eq!(headers[1].name, "X-Username");
    assert_eq!(headers[1].value, "alice");
}

#[test]
fn opaque_headers_refuse_a_name_that_no_header_can_hold() {
    for username in ["a\nb", "a\rb", "\u{0}", "a\u{7f}", "\u{1f}"] {
        match get_opaque_headers(username) {
            Err(VaultError::Internal(_)) => {}
            _ => panic!("should be refused: {:?}", username),
        }
    }
}

#[test]
fn opaque_headers_take_what_a_header_can_hold() {
    for username in ["", "a b", "a\tb", "é€🔐", "~!@#"] {
        let headers = get_opaque_headers(username).unwrap();
        assert_eq!(headers[1].value, username);
    }
}

#[test]
fn header_values_byte_by_byte() {
    assert!(check_header_value(""));
    assert!(check_header_value(" "));
    assert!(check_header_value("\t"));
    assert!(check_header_value("~"));
    assert!(check_header_value("\u{80}"));
    assert!(!check_header_value("\u{1f}"));
    assert!(!check_header_value("\u{7f}"));
    assert!(!check_header_value("\n"));
    assert!(!check_header_value("ok\u{8}"));
}

#[test]
fn vault_headers_come_in_their_order() {
    let headers =
        get_vault_request_headers(b"key", "POST", "http://host:1", "/vault", 0).unwrap();
    let names: Vec<&str> = headers.iter().map(|header| header.name.as_str()).collect();
    assert_eq!(names, vec!["Content-Type", "Host", "X-Timestamp", "X-Signature"]);
    let sensitive: Vec<bool> = headers.iter().map(|header| header.sensitive).collect();
    assert_eq!(sensitive, vec![false, false, true, true]);
    assert_eq!(headers[2].value, "0");
    assert_eq!(
        headers[3].value,
        hex::encode(expected_signature(b"key", "POST|http://host:1/vault|0"))
    );
    assert_eq!(headers[3].value.len(), 128);
}

#[test]
fn vault_headers_refuse_an_address_that_no_header_can_hold() {
    match get_vault_request_headers(b"key", "GET", "http://local\nhost", "/vault", 5) {
        Err(VaultError::Internal(_)) => {}
        _ => panic!("should be refused"),
    }
}

#[test]
fn the_signature_is_the_hmac_of_verb_address_and_time() {
    let tag = create_signature("GET", "http://localhost/test", "1763127134", b"session_key")
        .unwrap();
    assert_eq!(tag.len(), 64);
    assert_eq!(
        tag,
        expected_signature(b"session_key", "GET|http://localhost/test|1763127134")
    );
    assert_eq!(
        hex::encode(&tag),
        hex::encode(expected_signature(
            b"session_key",
            "GET|http://localhost/test|1763127134"
        ))
    );
}

#[test]
fn the_signature_is_always_the_same_for_the_same_request() {
    let first = create_signature("GET", "http://localhost/test", "1763127134", b"session_key");
    let second = create_signature("GET", "http://localhost/test", "1763127134", b"session_key");
    assert_eq!(first.unwrap(), second.unwrap());
}

#[test]
fn the_signature_differs_where_one_byte_differs() {
    let base = create_signature("GET", "http://localhost/test", "1763127134", b"session_key")
        .unwrap();
    let others = [
        create_signature("GEU", "http://localhost/test", "1763127134", b"session_key"),
        create_signature("GET", "http://localhost/tesu", "1763127134", b"session_key"),
        create_signature("GET", "http://localhost/test", "1763127135", b"session_key"),
        create_signature("GET", "http://localhost/test", "1763127134", b"session_kez"),
        create_signature("POST", "http://localhost/test", "1763127134", b"session_key"),
    ];
    for other in others {
        assert_ne!(base, other.unwrap());
    }
}

#[test]
fn the_signature_takes_a_key_of_any_length() {
    for length in [0usize, 1, 64, 128, 129, 500] {
        let key = vec![1u8; length];
        let tag = create_signature("GET", "/", "1", &key).unwrap();
        assert_eq!(tag, expected_signature(&key, "GET|/|1"));
    }
}

#[test]
fn numbers_in_decimal_digits() {
    assert_eq!(to_decimal(0), "0");
    assert_eq!(to_decimal(7), "7");
    assert_eq!(to_decimal(9), "9");
    assert_eq!(to_decimal(10), "10");
    assert_eq!(to_decimal(1234567890), "1234567890");
    assert_eq!(to_decimal(1763127134), "1763127134");
    assert_eq!(to_decimal(u64::MAX), "18446744073709551615");
}

#[test]
fn the_signature_in_hexadecimal_digits() {
    let headers = get_vault_request_headers(&[], "GET", "", "", 1).unwrap();
    let value = &headers[3].value;
    assert!(value
        .bytes()
        .all(|byte| byte.is_ascii_digit() || (b'a'..=b'f').contains(&byte)));
    assert_eq!(*value, hex::encode(expected_signature(&[], "GET||1")));
}

#[test]
fn a_body_is_the_name_a_semicolon_and_the_message() {
    assert_eq!(construct_body("alice", &[1, 2, 3]), b"alice;\x01\x02\x03".to_vec());
    assert_eq!(construct_body("", &[]), b";".to_vec());
    assert_eq!(construct_body("é", &[0xFF]), vec![0xC3, 0xA9, b';', 0xFF]);
}

#[test]
fn names_of_headers_are_compared_without_case() {
    assert!(is_same_name("Content-Type", "content-type"));
    assert!(is_same_name("HOST", "host"));
    assert!(is_same_name("", ""));
    assert!(!is_same_name("Host", "Hos"));
    assert!(!is_same_name("Host", "Hosu"));
    assert!(!is_same_name("a[", "a{"));
    assert!(!is_same_name("@", "`"));
}

#[test]
fn the_first_header_of_a_name_is_found() {
    let headers = vec![
        Header { name: "A".to_string(), value: "1".to_string(), sensitive: false },
        Header { name: "b".to_string(), value: "2".to_string(), sensitive: true },
        Header { name: "B".to_string(), value: "3".to_string(), sensitive: false },
    ];
    assert_eq!(find_header(&headers, "a").unwrap().value, "1");
    assert_eq!(find_header(&headers, "B").unwrap().value, "2");
    assert!(find_header(&headers, "c").is_none());
    assert!(find_header(&Vec::new(), "a").is_none());
}

#[test]
fn a_copy_of_a_header_holds_the_same() {
    let header = Header { name: "A".to_string(), value: "1".to_string(), sensitive: true };
    let copy = header.clone();
    assert_eq!(copy.name, "A");
    assert_eq!(copy.value, "1");
    assert!(copy.sensitive);
}
