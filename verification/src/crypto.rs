//! Server-side cryptography: random identifiers and keys, access-key
//! hashing with a constant-time verifier, and time-limited TURN credentials.
//!
//! The server holds no long-term peer keys; everything here serves
//! credential issuance and verification.

use vstd::prelude::*;

verus! {

use vstd::utf8::encode_utf8;
use vstd::string::StringSliceAdditionalSpecFns;
use vstd::string::StringExecFns;
use crate::encoding::{
    hex_of,
    dec_of,
    hex_encode,
    decimal_string,
    string_push,
    b64url_of,
    b64url_encode,
    b64std_of,
    b64std_encode,
    lemma_encode_utf8_injective,
    lemma_hex_of_injective,
};

/// What ring's SHA-256 digest returns for a byte sequence.
pub uninterp spec fn sha256_of(data: Seq<u8>) -> Seq<u8>;

/// What ring's HMAC-SHA1 returns for a key and a message.
pub uninterp spec fn hmac_sha1_of(key: Seq<u8>, data: Seq<u8>) -> Seq<u8>;

/// The stored form of an access key or session token: lower-case hex of its
/// SHA-256 digest.
pub open spec fn key_hash_of(key: Seq<char>) -> Seq<char> {
    hex_of(sha256_of(encode_utf8(key)))
}

/// The alphanumeric alphabet used for user ids, indexed 0..62:
/// digits, then upper-case, then lower-case letters.
pub open spec fn alnum_char_spec(d: u8) -> char
    recommends
        d < 62,
{
    if d < 10 {
        ((d + 48) as u8) as char
    } else if d < 36 {
        ((d + 55) as u8) as char
    } else {
        ((d + 61) as u8) as char
    }
}

/// Whether a character belongs to the 62-character alphanumeric alphabet.
pub open spec fn is_alnum_of_alphabet(c: char) -> bool {
    exists|d: u8| d < 62 && c == alnum_char_spec(d)
}

/// The TURN username for an expiry timestamp: "{ts}:{username}".
pub open spec fn turn_username_of(ts: u64, username: Seq<char>) -> Seq<char> {
    dec_of(ts as nat) + seq![':'] + username
}

/// Relies on rand's thread-local CSPRNG (rand::rng, reseeded from the
/// operating system): fills a buffer of the requested length with random
/// bytes; panics only on CSPRNG failure, which is fatal by design.
#[verifier::external_body]
pub fn random_bytes(n: usize) -> (r: Vec<u8>)
    ensures
        r@.len() == n,
{
    let mut buf = vec![0u8; n];
    rand::Rng::fill_bytes(&mut rand::rng(), &mut buf);
    buf
}

/// Relies on ring's digest with the SHA256 algorithm: a 32-byte digest that
/// is a function of the input bytes alone.
#[verifier::external_body]
fn sha256_digest(data: &[u8]) -> (r: Vec<u8>)
    ensures
        r@ == sha256_of(data@),
        r@.len() == 32,
{
    ring::digest::digest(&ring::digest::SHA256, data).as_ref().to_vec()
}

/// Relies on ring's hmac with HMAC_SHA1_FOR_LEGACY_USE_ONLY: a 20-byte tag
/// that is a function of key and message alone.
#[verifier::external_body]
fn hmac_sha1(key: &[u8], data: &[u8]) -> (r: Vec<u8>)
    ensures
        r@ == hmac_sha1_of(key@, data@),
        r@.len() == 20,
{
    let k = ring::hmac::Key::new(ring::hmac::HMAC_SHA1_FOR_LEGACY_USE_ONLY, key);
    ring::hmac::sign(&k, data).as_ref().to_vec()
}

fn alnum_char(d: u8) -> (c: char)
    requires
        d < 62,
    ensures
        c == alnum_char_spec(d),
{
    if d < 10 {
        (d + 48) as char
    } else if d < 36 {
        (d + 55) as char
    } else {
        (d + 61) as char
    }
}

/// Generate a random user id: 8 characters drawn from the 62-character
/// alphanumeric alphabet (one random byte per character, reduced mod 62).
pub fn generate_user_id() -> (r: String)
    ensures
        r@.len() == 8,
        forall|j: int| 0 <= j < 8 ==> is_alnum_of_alphabet(#[trigger] r@[j]),
{
    let bytes = random_bytes(8);
    let mut r = String::new();
    let mut i: usize = 0;
    while i < 8
        invariant
            bytes@.len() == 8,
            i <= 8,
            r@.len() == i,
            forall|j: int| 0 <= j < i ==> is_alnum_of_alphabet(#[trigger] r@[j]),
        decreases 8 - i,
    {
        let d = bytes[i] % 62;
        string_push(&mut r, alnum_char(d));
        i = i + 1;
    }
    r
}

/// Generate a random access key: 32 random bytes, base64url unpadded.
pub fn generate_access_key() -> (r: String)
    ensures
        exists|b: Seq<u8>| b.len() == 32 && r@ == #[trigger] b64url_of(b),
        r@.len() == 43,
{
    let bytes = random_bytes(32);
    b64url_encode(bytes.as_slice())
}

/// Generate a random session token: 32 random bytes, base64url unpadded.
pub fn generate_session_token() -> (r: String)
    ensures
        exists|b: Seq<u8>| b.len() == 32 && r@ == #[trigger] b64url_of(b),
        r@.len() == 43,
{
    let bytes = random_bytes(32);
    b64url_encode(bytes.as_slice())
}

/// Generate a random file id: 16 random bytes, base64url unpadded.
pub fn generate_file_id() -> (r: String)
    ensures
        exists|b: Seq<u8>| b.len() == 16 && r@ == #[trigger] b64url_of(b),
        r@.len() == 22,
{
    let bytes = random_bytes(16);
    b64url_encode(bytes.as_slice())
}

/// Generate a random device id: 16 random bytes, base64url unpadded.
pub fn generate_device_id() -> (r: String)
    ensures
        exists|b: Seq<u8>| b.len() == 16 && r@ == #[trigger] b64url_of(b),
        r@.len() == 22,
{
    let bytes = random_bytes(16);
    b64url_encode(bytes.as_slice())
}

/// Hash an access key (or token) for storage: hex of SHA-256, 64 characters.
pub fn hash_access_key(key: &str) -> (r: String)
    ensures
        r@ == key_hash_of(key@),
        r@.len() == 64,
{
    let digest = sha256_digest(key.as_bytes());
    proof {
        crate::encoding::lemma_hex_len(digest@);
    }
    hex_encode(digest.as_slice())
}

/// Verify an access key against a stored hash without short-circuiting on
/// the first mismatch: lengths are compared, then all bytes are XOR-folded.
pub fn verify_access_key(key: &str, hash: &str) -> (r: bool)
    ensures
        r == (key_hash_of(key@) == hash@),
{
    let computed = hash_access_key(key);
    let cb = computed.as_str().as_bytes();
    let hb = hash.as_bytes();
    if cb.len() != hb.len() {
        proof {
            if key_hash_of(key@) == hash@ {
                assert(cb@ == hb@);
            }
        }
        return false;
    }
    let n = cb.len();
    let mut acc: u8 = 0;
    let mut i: usize = 0;
    while i < n
        invariant
            n == cb@.len(),
            n == hb@.len(),
            i <= n,
            (acc == 0) <==> (forall|j: int| 0 <= j < i ==> cb@[j] == hb@[j]),
        decreases n - i,
    {
        let a = cb[i];
        let b = hb[i];
        let x = a ^ b;
        proof {
            assert((a ^ b == 0) <==> (a == b)) by (bit_vector);
            assert(((acc | x) == 0) <==> (acc == 0 && x == 0)) by (bit_vector);
        }
        acc = acc | x;
        i = i + 1;
    }
    let eq = acc == 0;
    proof {
        if eq {
            assert(cb@ =~= hb@);
            lemma_encode_utf8_injective(computed@, hash@);
        } else {
            if key_hash_of(key@) == hash@ {
                assert(cb@ == hb@);
            }
        }
    }
    eq
}

/// Generate time-limited TURN credentials: the username is
/// "{now + ttl}:{username}" and the credential is the standard base64 of
/// HMAC-SHA1(secret, username).
pub fn generate_turn_credentials(username: &str, secret: &str, ttl_seconds: u64, now: u64) -> (r: (
    String,
    String,
))
    requires
        now + ttl_seconds <= u64::MAX,
    ensures
        r.0@ == turn_username_of((now + ttl_seconds) as u64, username@),
        r.1@ == b64std_of(hmac_sha1_of(encode_utf8(secret@), encode_utf8(r.0@))),
        r.1@.len() == 28,
{
    let ts = now + ttl_seconds;
    let mut turn_username = decimal_string(ts);
    string_push(&mut turn_username, ':');
    turn_username.append(username);
    proof {
        assert(turn_username@ =~= turn_username_of(ts, username@));
    }
    let tag = hmac_sha1(secret.as_bytes(), turn_username.as_str().as_bytes());
    let credential = b64std_encode(tag.as_slice());
    (turn_username, credential)
}


/// Verification is exact: together with verify_access_key's contract, a key
/// always verifies against its own stored hash, and another key verifies
/// against that hash exactly when the two keys' SHA-256 digests coincide.
pub proof fn lemma_access_key_verification(key: Seq<char>, other: Seq<char>)
    ensures
        (key_hash_of(other) == key_hash_of(key)) <==> (sha256_of(encode_utf8(other)) == sha256_of(
            encode_utf8(key),
        )),
{
    if key_hash_of(other) == key_hash_of(key) {
        lemma_hex_of_injective(sha256_of(encode_utf8(other)), sha256_of(encode_utf8(key)));
    }
}

/// A freshly minted session token bound to a user and a device.
#[derive(Debug)]
pub struct SessionToken {
    pub token: String,
    pub user_id: String,
    pub device_id: String,
    pub expires_at: i64,
}

impl SessionToken {
    /// Mint a token that expires `ttl_hours` after `now` (epoch seconds).
    pub fn new(user_id: &str, device_id: &str, ttl_hours: i64, now: i64) -> (r: Self)
        requires
            0 <= ttl_hours,
            0 <= now,
            now + ttl_hours * 3600 <= i64::MAX,
        ensures
            r.user_id@ == user_id@,
            r.device_id@ == device_id@,
            r.expires_at == now + ttl_hours * 3600,
            r.token@.len() == 43,
    {
        let token = generate_session_token();
        SessionToken {
            token,
            user_id: user_id.to_owned(),
            device_id: device_id.to_owned(),
            expires_at: now + ttl_hours * 3600,
        }
    }

    /// Whether the token is expired at `now` (epoch seconds).
    pub fn is_expired(&self, now: i64) -> (r: bool)
        ensures
            r == (now > self.expires_at),
    {
        now > self.expires_at
    }
}

} // verus!
