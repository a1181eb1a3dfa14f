//! Encodings and client plumbing: hex, decimal strings, base64, URL
//! builders, message-type tags, and the error taxonomy.

use privmsg::client::ClientConfig;
use privmsg::encoding::{
    b64std_encode, b64url_decode, b64url_encode, decimal_string, hex_encode, str_eq,
};
use privmsg::errors::AppError;
use privmsg::models::MessageType;

#[test]
fn test_hex_encode_exact() {
    assert_eq!(hex_encode(&[]), "");
    assert_eq!(hex_encode(&[0xbe, 0xef]), "beef");
    assert_eq!(hex_encode(&[0x00, 0x0a, 0xff]), "000aff");
}

#[test]
fn test_decimal_string_exact() {
    assert_eq!(decimal_string(0), "0");
    assert_eq!(decimal_string(7), "7");
    assert_eq!(decimal_string(4600), "4600");
    assert_eq!(decimal_string(u64::MAX), "18446744073709551615");
}

#[test]
fn test_base64_round_trip() {
    assert_eq!(b64url_encode(b"hello"), "aGVsbG8");
    assert_eq!(b64std_encode(b"hello"), "aGVsbG8=");
    assert_eq!(b64url_decode("aGVsbG8").unwrap(), b"hello".to_vec());
    // Unpadded URL-safe decoding rejects padding and non-alphabet input.
    assert!(b64url_decode("aGVsbG8=").is_err());
    assert!(b64url_decode("!!!").is_err());
    // URL-safe alphabet: 0xfb 0xff encodes with '-' and '_', not '+' or '/'.
    let enc = b64url_encode(&[0xfb, 0xff]);
    assert!(!enc.contains('+') && !enc.contains('/'));
    assert_eq!(b64url_decode(&enc).unwrap(), vec![0xfb, 0xff]);
}

#[test]
fn test_str_eq() {
    assert!(str_eq("", ""));
    assert!(str_eq("käse", "käse"));
    assert!(!str_eq("a", "b"));
    assert!(!str_eq("a", "ab"));
}

#[test]
fn test_client_urls() {
    let plain = ClientConfig::new("localhost", 9443, false);
    assert_eq!(plain.http_url(), "http://localhost:9443");
    assert_eq!(plain.ws_url(), "ws://localhost:9443/ws");
    let tls = ClientConfig::new("example.com", 8443, true);
    assert_eq!(tls.http_url(), "https://example.com:8443");
    assert_eq!(tls.ws_url(), "wss://example.com:8443/ws");
}

#[test]
fn test_message_type_tags() {
    let all = [
        (MessageType::Text, "text"),
        (MessageType::Voice, "voice"),
        (MessageType::Video, "video"),
        (MessageType::File, "file"),
        (MessageType::Image, "image"),
        (MessageType::CallSignal, "call_signal"),
        (MessageType::KeyExchange, "key_exchange"),
        (MessageType::ReadReceipt, "read_receipt"),
        (MessageType::TypingIndicator, "typing_indicator"),
        (MessageType::DeviceSync, "device_sync"),
    ];
    for (t, tag) in all {
        assert_eq!(t.to_string(), tag);
        assert_eq!(MessageType::from_string(tag), t);
    }
    // Unknown tags fall back to text.
    assert_eq!(MessageType::from_string("emoji"), MessageType::Text);
}

#[test]
fn test_error_taxonomy() {
    assert_eq!(AppError::Unauthorized.http_status(), 401);
    assert_eq!(AppError::Unauthorized.code(), "UNAUTHORIZED");
    assert_eq!(AppError::InvalidCredentials.http_status(), 401);
    assert_eq!(AppError::Forbidden.http_status(), 403);
    assert_eq!(AppError::NotFound("x".to_string()).http_status(), 404);
    assert_eq!(AppError::UserAlreadyExists.http_status(), 409);
    assert_eq!(AppError::UserAlreadyExists.code(), "USER_EXISTS");
    assert_eq!(AppError::BadRequest("x".to_string()).http_status(), 400);
    assert_eq!(AppError::RateLimited.http_status(), 429);
    assert_eq!(AppError::FileTooLarge.http_status(), 413);
    assert_eq!(AppError::Database("x".to_string()).http_status(), 500);
    assert_eq!(AppError::Io("x".to_string()).http_status(), 500);
    assert_eq!(AppError::Internal("x".to_string()).http_status(), 500);
}
