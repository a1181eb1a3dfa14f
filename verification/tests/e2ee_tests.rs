//! The client E2EE session manager: identity lifecycle, session agreement,
//! and message/file round trips, including failure paths.

use privmsg::e2ee::CryptoEngine;
use privmsg::errors::ClientError;

const NOW: i64 = 1_700_000_000;

#[test]
fn test_key_generation() {
    let mut engine = CryptoEngine::new();
    engine.generate_identity().unwrap();

    let public_key = engine.get_public_key().unwrap();
    assert!(!public_key.is_empty());
}

#[test]
fn crypto_test_key_generation() {
    let mut engine = CryptoEngine::new();
    engine.generate_identity().unwrap();

    let public_key = engine.get_public_key().unwrap();
    assert!(!public_key.is_empty());
}

#[test]
fn test_key_export_import() {
    let mut engine1 = CryptoEngine::new();
    engine1.generate_identity().unwrap();
    let exported = engine1.export_identity().unwrap();

    let mut engine2 = CryptoEngine::new();
    engine2.import_identity(&exported).unwrap();

    assert_eq!(
        engine1.get_public_key().unwrap(),
        engine2.get_public_key().unwrap()
    );
}

#[test]
fn test_encryption_decryption() {
    let mut alice = CryptoEngine::new();
    alice.generate_identity().unwrap();

    let mut bob = CryptoEngine::new();
    bob.generate_identity().unwrap();

    // Exchange public keys
    let alice_pub = alice.get_public_key().unwrap();
    let bob_pub = bob.get_public_key().unwrap();

    alice.establish_session("bob", &bob_pub, NOW).unwrap();
    bob.establish_session("alice", &alice_pub, NOW).unwrap();

    // Alice encrypts for Bob
    let plaintext = "Hello, Bob!";
    let encrypted = alice.encrypt_for("bob", plaintext).unwrap();

    // Bob decrypts from Alice
    let decrypted = bob.decrypt_from("alice", &encrypted).unwrap();

    assert_eq!(plaintext, decrypted);
}

#[test]
fn crypto_test_encryption_decryption() {
    let mut alice = CryptoEngine::new();
    alice.generate_identity().unwrap();

    let mut bob = CryptoEngine::new();
    bob.generate_identity().unwrap();

    let alice_pub = alice.get_public_key().unwrap();
    let bob_pub = bob.get_public_key().unwrap();

    alice.establish_session("bob", &bob_pub, NOW).unwrap();
    bob.establish_session("alice", &alice_pub, NOW).unwrap();

    let plaintext = "Hello, Bob!";
    let encrypted = alice.encrypt_for("bob", plaintext).unwrap();
    let decrypted = bob.decrypt_from("alice", &encrypted).unwrap();

    assert_eq!(plaintext, decrypted);
}

#[test]
fn test_file_encryption() {
    let mut engine = CryptoEngine::new();
    engine.generate_identity().unwrap();
    let key = engine.generate_file_key().unwrap();
    let data = b"File content here";

    let encrypted = engine.encrypt_file(data, &key).unwrap();
    let decrypted = engine.decrypt_file(&encrypted, &key).unwrap();

    assert_eq!(data.to_vec(), decrypted);
}

#[test]
fn test_tampered_frame_fails() {
    let mut alice = CryptoEngine::new();
    alice.generate_identity().unwrap();
    let mut bob = CryptoEngine::new();
    bob.generate_identity().unwrap();

    let alice_pub = alice.get_public_key().unwrap();
    let bob_pub = bob.get_public_key().unwrap();
    alice.establish_session("bob", &bob_pub, NOW).unwrap();
    bob.establish_session("alice", &alice_pub, NOW).unwrap();

    let encrypted = alice.encrypt_for("bob", "attack at dawn").unwrap();
    // Flip one character of the frame; the tag check must reject it.
    let mut bytes: Vec<char> = encrypted.chars().collect();
    let victim = bytes.len() - 1;
    bytes[victim] = if bytes[victim] == 'A' { 'B' } else { 'A' };
    let tampered: String = bytes.into_iter().collect();
    assert!(bob.decrypt_from("alice", &tampered).is_err());
}

#[test]
fn test_file_wrong_key_fails() {
    let engine = CryptoEngine::new();
    let key = engine.generate_file_key().unwrap();
    let other = engine.generate_file_key().unwrap();
    assert_ne!(key, other);

    let encrypted = engine.encrypt_file(b"payload", &key).unwrap();
    assert_eq!(
        engine.decrypt_file(&encrypted, &other).unwrap_err(),
        ClientError::DecryptFailed
    );
}

#[test]
fn test_error_kinds() {
    let mut engine = CryptoEngine::new();
    assert_eq!(
        engine.export_identity().unwrap_err(),
        ClientError::NoIdentity
    );
    assert_eq!(
        engine.import_identity("!!!not-base64!!!").unwrap_err(),
        ClientError::InvalidBase64
    );
    assert_eq!(
        engine.import_identity("AAAA").unwrap_err(),
        ClientError::BadKeyLength
    );
    assert_eq!(
        engine.encrypt_for("nobody", "hi").unwrap_err(),
        ClientError::NoSession
    );
    assert_eq!(
        engine.decrypt_from("nobody", "AAAA").unwrap_err(),
        ClientError::NoSession
    );
    engine.generate_identity().unwrap();
    let peer_pub = {
        let mut peer = CryptoEngine::new();
        peer.generate_identity().unwrap();
        peer.get_public_key().unwrap()
    };
    engine.establish_session("peer", &peer_pub, NOW).unwrap();
    assert_eq!(
        engine.decrypt_from("peer", "!!!").unwrap_err(),
        ClientError::InvalidBase64
    );
    // A frame shorter than a nonce cannot decrypt.
    assert_eq!(
        engine.decrypt_from("peer", "AAAA").unwrap_err(),
        ClientError::DecryptFailed
    );
    let key = engine.generate_file_key().unwrap();
    assert_eq!(
        engine.decrypt_file(b"short", &key).unwrap_err(),
        ClientError::DecryptFailed
    );
    assert_eq!(
        engine.encrypt_file(b"data", "AAAA").unwrap_err(),
        ClientError::BadKeyLength
    );
}

#[test]
fn test_session_replacement() {
    // Re-establishing a session replaces the prior key: a frame encrypted
    // under the old session no longer opens.
    let mut alice = CryptoEngine::new();
    alice.generate_identity().unwrap();
    let mut bob = CryptoEngine::new();
    bob.generate_identity().unwrap();
    let mut carol = CryptoEngine::new();
    carol.generate_identity().unwrap();

    let bob_pub = bob.get_public_key().unwrap();
    let carol_pub = carol.get_public_key().unwrap();
    let alice_pub = alice.get_public_key().unwrap();

    alice.establish_session("peer", &bob_pub, NOW).unwrap();
    let frame = alice.encrypt_for("peer", "for bob").unwrap();

    alice.establish_session("peer", &carol_pub, NOW).unwrap();
    bob.establish_session("alice", &alice_pub, NOW).unwrap();
    carol.establish_session("alice", &alice_pub, NOW).unwrap();

    // Bob can no longer be the recipient of new frames...
    let frame2 = alice.encrypt_for("peer", "for carol").unwrap();
    assert_eq!(carol.decrypt_from("alice", &frame2).unwrap(), "for carol");
    assert!(carol.decrypt_from("alice", &frame).is_err());
    // ...but the old frame still opens for bob, who holds the old key.
    assert_eq!(bob.decrypt_from("alice", &frame).unwrap(), "for bob");
}

#[test]
fn test_hash_hex() {
    let engine = CryptoEngine::new();
    assert_eq!(
        engine.hash(b"abc"),
        "ba7816bf8f01cfea414140de5dae2223b00361a396177a9cb410ff61f20015ad"
    );
}
