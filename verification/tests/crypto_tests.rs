//! Server-side crypto: identifier generation, access-key hashing and
//! verification, session tokens, and TURN credentials.

use privmsg::crypto::{
    generate_access_key, generate_file_id, generate_session_token, generate_turn_credentials,
    generate_user_id, hash_access_key, verify_access_key, SessionToken,
};

const NOW: i64 = 1_700_000_000;

#[test]
fn test_user_id_generation() {
    let id = generate_user_id();
    assert_eq!(id.len(), 8);
    assert!(id.chars().all(|c| c.is_alphanumeric()));
}

#[test]
fn integration_tests_test_user_id_generation() {
    let id = generate_user_id();
    assert_eq!(id.len(), 8);
    assert!(id.chars().all(|c| c.is_alphanumeric()));
}

#[test]
fn test_access_key_generation() {
    let key = generate_access_key();
    assert!(!key.is_empty());
    // Base64 URL encoded 32 bytes = 43 chars
    assert!(key.len() >= 40);
}

#[test]
fn test_access_key_verification() {
    let key = generate_access_key();
    let hash = hash_access_key(&key);

    assert!(verify_access_key(&key, &hash));
    assert!(!verify_access_key("wrong-key", &hash));
}

#[test]
fn integration_tests_test_access_key_verification() {
    let key = generate_access_key();
    let hash = hash_access_key(&key);

    assert!(verify_access_key(&key, &hash));
    assert!(!verify_access_key("wrong_key", &hash));
}

#[test]
fn test_session_token_generation() {
    let token = generate_session_token();
    assert!(!token.is_empty());
}

#[test]
fn test_file_id_generation() {
    let id1 = generate_file_id();
    let id2 = generate_file_id();

    assert!(!id1.is_empty());
    assert!(!id2.is_empty());
    assert_ne!(id1, id2);
}

#[test]
fn test_turn_credentials() {
    let (username, credential) = generate_turn_credentials("testuser", "secret", 3600, NOW as u64);

    assert!(username.contains(':'));
    assert!(!credential.is_empty());
}

#[test]
fn test_session_token() {
    let token = SessionToken::new("user123", "device456", 24, NOW);
    assert!(!token.is_expired(NOW));
    assert_eq!(token.user_id, "user123");
    assert_eq!(token.device_id, "device456");
}

#[test]
fn test_hash_is_hex_sha256() {
    // SHA-256("abc") is a fixed vector; the stored form is its lower-case hex.
    let hash = hash_access_key("abc");
    assert_eq!(
        hash,
        "ba7816bf8f01cfea414140de5dae2223b00361a396177a9cb410ff61f20015ad"
    );
    assert!(verify_access_key("abc", &hash));
    assert!(!verify_access_key("abd", &hash));
    // Length mismatch must also fail, not panic.
    assert!(!verify_access_key("abc", "ba7816"));
}

#[test]
fn test_turn_credentials_deterministic() {
    // Fixed config and clock: the username is "{now+ttl}:u" and the
    // credential is reproducible without a further roundtrip.
    let (u1, c1) = generate_turn_credentials("u", "s", 3600, 1000);
    let (u2, c2) = generate_turn_credentials("u", "s", 3600, 1000);
    assert_eq!(u1, "4600:u");
    assert_eq!(u1, u2);
    assert_eq!(c1, c2);
    // HMAC-SHA1("s", "4600:u"), standard base64 (20 bytes -> 28 chars).
    assert_eq!(c1.len(), 28);
}

#[test]
fn test_session_token_expiry_boundary() {
    let token = SessionToken::new("u", "d", 1, NOW);
    assert_eq!(token.expires_at, NOW + 3600);
    assert!(!token.is_expired(NOW + 3600));
    assert!(token.is_expired(NOW + 3601));
}
