//! The client-side end-to-end encryption session manager: a static X25519
//! identity keypair, one derived symmetric key per peer, and AES-256-GCM
//! framing of message bodies and file blobs.
//!
//! A ciphertext frame is `nonce[12] || AES-256-GCM(plaintext)[len + 16]`;
//! message frames are additionally base64url-encoded (unpadded). The session
//! key for a peer is SHA-256 of the X25519 shared secret.

use vstd::prelude::*;

verus! {

use vstd::utf8::{encode_utf8, decode_utf8, valid_utf8};
use vstd::string::StringSliceAdditionalSpecFns;
use crate::encoding::{
    hex_of,
    hex_encode,
    b64url_of,
    b64url_encode,
    b64url_decode,
    string_from_utf8,
    str_eq,
};
use crate::crypto::random_bytes;
use crate::errors::ClientError;

/// The longest plaintext AES-256-GCM accepts, in bytes.
pub const AES_GCM_MAX_PLAINTEXT: u64 = 68719476704;

/// What x25519_dalek's diffie_hellman returns for a scalar and a point.
pub uninterp spec fn x25519(scalar: Seq<u8>, point: Seq<u8>) -> Seq<u8>;

/// What x25519_dalek returns as the public key of a secret scalar.
pub uninterp spec fn x25519_base(scalar: Seq<u8>) -> Seq<u8>;

/// What sha2's SHA-256 returns for a byte sequence.
pub uninterp spec fn sha256_digest_of(data: Seq<u8>) -> Seq<u8>;

/// What aes_gcm's Aes256Gcm encryption returns: ciphertext then a 16-byte
/// tag, a function of key, nonce and plaintext alone.
pub uninterp spec fn aes_gcm_seal(key: Seq<u8>, nonce: Seq<u8>, plaintext: Seq<u8>) -> Seq<u8>;

/// What aes_gcm's Aes256Gcm decryption returns: the plaintext when the tag
/// verifies, nothing otherwise; a function of key, nonce and ciphertext.
pub uninterp spec fn aes_gcm_open(key: Seq<u8>, nonce: Seq<u8>, ciphertext: Seq<u8>) -> Option<
    Seq<u8>,
>;

/// Relies on x25519_dalek's PublicKey::from(&StaticSecret): the public key
/// is a function of the secret scalar alone, 32 bytes.
#[verifier::external_body]
fn x25519_public(secret: &[u8]) -> (r: Vec<u8>)
    requires
        secret@.len() == 32,
    ensures
        r@ == x25519_base(secret@),
        r@.len() == 32,
{
    let mut s = [0u8; 32];
    s.copy_from_slice(secret);
    let sk = x25519_dalek::StaticSecret::from(s);
    x25519_dalek::PublicKey::from(&sk).as_bytes().to_vec()
}

/// Relies on x25519_dalek's StaticSecret::diffie_hellman: the shared secret
/// is a function of the scalar and the point alone, 32 bytes, and both
/// parties of an exchange compute the same value — for a point that is the
/// public key of some scalar t, the result equals t's agreement with this
/// side's public key.
#[verifier::external_body]
fn x25519_shared(secret: &[u8], peer_public: &[u8]) -> (r: Vec<u8>)
    requires
        secret@.len() == 32,
        peer_public@.len() == 32,
    ensures
        r@ == x25519(secret@, peer_public@),
        r@.len() == 32,
        forall|t: Seq<u8>|
            t.len() == 32 && peer_public@ == x25519_base(t) ==> r@ == x25519(
                t,
                x25519_base(secret@),
            ),
{
    let mut s = [0u8; 32];
    s.copy_from_slice(secret);
    let mut p = [0u8; 32];
    p.copy_from_slice(peer_public);
    let sk = x25519_dalek::StaticSecret::from(s);
    let pk = x25519_dalek::PublicKey::from(p);
    sk.diffie_hellman(&pk).as_bytes().to_vec()
}

/// Relies on sha2's Sha256: a 32-byte digest that is a function of the
/// input bytes alone.
#[verifier::external_body]
fn sha2_digest(data: &[u8]) -> (r: Vec<u8>)
    ensures
        r@ == sha256_digest_of(data@),
        r@.len() == 32,
{
    let digest = <sha2::Sha256 as sha2::Digest>::digest(data);
    digest.to_vec()
}

/// Relies on aes_gcm's Aes256Gcm (Aead::encrypt): succeeds exactly up to
/// the AES-GCM plaintext limit; the output is ciphertext plus a 16-byte
/// postfix tag, and decrypting it with the same key and nonce returns the
/// plaintext.
#[verifier::external_body]
fn aes256_gcm_encrypt(key: &[u8], nonce: &[u8], plaintext: &[u8]) -> (r: Result<Vec<u8>, ()>)
    requires
        key@.len() == 32,
        nonce@.len() == 12,
    ensures
        r is Ok <==> plaintext@.len() <= AES_GCM_MAX_PLAINTEXT,
        r is Ok ==> r.unwrap()@ == aes_gcm_seal(key@, nonce@, plaintext@),
        r is Ok ==> r.unwrap()@.len() == plaintext@.len() + 16,
        r is Ok ==> aes_gcm_open(key@, nonce@, r.unwrap()@) == Some(plaintext@),
{
    let cipher = match <aes_gcm::Aes256Gcm as aes_gcm::KeyInit>::new_from_slice(key) {
        Ok(c) => c,
        Err(_) => return Err(()),
    };
    let nonce_arr = match aes_gcm::Nonce::try_from(nonce) {
        Ok(n) => n,
        Err(_) => return Err(()),
    };
    match aes_gcm::aead::Aead::encrypt(&cipher, &nonce_arr, plaintext) {
        Ok(ct) => Ok(ct),
        Err(_) => Err(()),
    }
}

/// Relies on aes_gcm's Aes256Gcm (Aead::decrypt): succeeds exactly when the
/// tag verifies, i.e. on genuine encryptions under this key and nonce, and
/// then returns the plaintext the ciphertext was made from.
#[verifier::external_body]
fn aes256_gcm_decrypt(key: &[u8], nonce: &[u8], ciphertext: &[u8]) -> (r: Result<Vec<u8>, ()>)
    requires
        key@.len() == 32,
        nonce@.len() == 12,
    ensures
        r is Ok <==> aes_gcm_open(key@, nonce@, ciphertext@) is Some,
        r is Ok ==> r.unwrap()@ == aes_gcm_open(key@, nonce@, ciphertext@).unwrap(),
        r is Ok ==> ciphertext@ == aes_gcm_seal(key@, nonce@, r.unwrap()@),
        r is Ok ==> ciphertext@.len() == r.unwrap()@.len() + 16,
{
    let cipher = match <aes_gcm::Aes256Gcm as aes_gcm::KeyInit>::new_from_slice(key) {
        Ok(c) => c,
        Err(_) => return Err(()),
    };
    let nonce_arr = match aes_gcm::Nonce::try_from(nonce) {
        Ok(n) => n,
        Err(_) => return Err(()),
    };
    match aes_gcm::aead::Aead::decrypt(&cipher, &nonce_arr, ciphertext) {
        Ok(pt) => Ok(pt),
        Err(_) => Err(()),
    }
}

/// A message frame for a session key: base64url of nonce then sealed text.
pub open spec fn message_frame(key: Seq<u8>, nonce: Seq<u8>, plaintext: Seq<char>) -> Seq<char> {
    b64url_of(nonce + aes_gcm_seal(key, nonce, encode_utf8(plaintext)))
}

/// A file frame for a key: nonce then sealed bytes.
pub open spec fn file_frame(key: Seq<u8>, nonce: Seq<u8>, data: Seq<u8>) -> Seq<u8> {
    nonce + aes_gcm_seal(key, nonce, data)
}

/// One established session: the peer and the derived symmetric key.
#[derive(Debug)]
pub struct SessionKeys {
    pub peer_id: String,
    pub shared_secret: Vec<u8>,
    pub created_at: i64,
}

/// The predicate keeping sessions whose peer differs from the given one.
pub open spec fn keep_peer_pred(peer_id: Seq<char>) -> spec_fn(SessionKeys) -> bool {
    |s: SessionKeys| s.peer_id@ != peer_id
}

/// Sessions with the given peer removed.
pub open spec fn sessions_without_peer(s: Seq<SessionKeys>, peer_id: Seq<char>) -> Seq<
    SessionKeys,
> {
    s.filter(keep_peer_pred(peer_id))
}

/// Removing the only index holding a peer equals filtering that peer out.
proof fn lemma_remove_peer_is_filter(s: Seq<SessionKeys>, i: int, d: Seq<char>)
    requires
        forall|a: int, b: int| 0 <= a < b < s.len() ==> s[a].peer_id@ != s[b].peer_id@,
        0 <= i < s.len(),
        s[i].peer_id@ == d,
    ensures
        s.remove(i) == sessions_without_peer(s, d),
    decreases s.len(),
{
    reveal(Seq::filter);
    let p = keep_peer_pred(d);
    if i == s.len() - 1 {
        let dl = s.drop_last();
        assert(forall|j: int| 0 <= j < dl.len() ==> p(#[trigger] dl[j]));
        crate::storage::lemma_filter_all(dl, p);
        assert(s.remove(i) =~= dl);
    } else {
        let dl = s.drop_last();
        lemma_remove_peer_is_filter(dl, i, d);
        assert(s.remove(i) =~= dl.remove(i).push(s.last()));
        assert(s.filter(p) == dl.filter(p).push(s.last()));
    }
}

/// The client's E2EE state: the identity keypair and one session per peer.
pub struct CryptoEngine {
    pub identity_secret: Option<Vec<u8>>,
    pub identity_public: Option<Vec<u8>>,
    pub sessions: Vec<SessionKeys>,
}

impl CryptoEngine {
    /// Well-formedness: the keypair is coupled (public is the secret's
    /// X25519 public key, both 32 bytes), peers are unique, and every
    /// session key is 32 bytes.
    pub open spec fn wf(self) -> bool {
        &&& self.identity_secret is Some <==> self.identity_public is Some
        &&& self.identity_secret is Some ==> self.identity_secret.unwrap()@.len() == 32
            && self.identity_public.unwrap()@ == x25519_base(self.identity_secret.unwrap()@)
            && self.identity_public.unwrap()@.len() == 32
        &&& forall|i: int, j: int|
            0 <= i < j < self.sessions@.len() ==> self.sessions@[i].peer_id@
                != self.sessions@[j].peer_id@
        &&& forall|i: int|
            0 <= i < self.sessions@.len() ==> self.sessions@[i].shared_secret@.len() == 32
    }

    pub open spec fn spec_has_identity(self) -> bool {
        self.identity_secret is Some
    }

    pub open spec fn spec_has_session(self, peer_id: Seq<char>) -> bool {
        exists|i: int| 0 <= i < self.sessions@.len() && self.sessions@[i].peer_id@ == peer_id
    }

    pub open spec fn spec_session_idx(self, peer_id: Seq<char>) -> int {
        choose|i: int| 0 <= i < self.sessions@.len() && self.sessions@[i].peer_id@ == peer_id
    }

    /// The symmetric key of the unique session with this peer.
    pub open spec fn spec_session_key(self, peer_id: Seq<char>) -> Seq<u8> {
        self.sessions@[self.spec_session_idx(peer_id)].shared_secret@
    }

    /// An index that holds a peer id is the chosen one.
    pub proof fn lemma_session_idx(self, i: int)
        requires
            self.wf(),
            0 <= i < self.sessions@.len(),
        ensures
            self.spec_has_session(self.sessions@[i].peer_id@),
            self.spec_session_idx(self.sessions@[i].peer_id@) == i,
    {
        let id = self.sessions@[i].peer_id@;
        assert(self.spec_has_session(id));
        let j = self.spec_session_idx(id);
        if j != i {
            if j < i {
                assert(self.sessions@[j].peer_id@ != self.sessions@[i].peer_id@);
            } else {
                assert(self.sessions@[i].peer_id@ != self.sessions@[j].peer_id@);
            }
        }
    }

    fn find_session(&self, peer_id: &str) -> (r: Option<usize>)
        ensures
            match r {
                Some(i) => 0 <= i < self.sessions@.len() && self.sessions@[i as int].peer_id@
                    == peer_id@,
                None => !self.spec_has_session(peer_id@),
            },
    {
        let n = self.sessions.len();
        let mut i: usize = 0;
        while i < n
            invariant
                n == self.sessions@.len(),
                i <= n,
                forall|j: int| 0 <= j < i ==> self.sessions@[j].peer_id@ != peer_id@,
            decreases n - i,
        {
            if str_eq(self.sessions[i].peer_id.as_str(), peer_id) {
                return Some(i);
            }
            i = i + 1;
        }
        None
    }

    /// A fresh engine with no identity and no sessions.
    pub fn new() -> (r: CryptoEngine)
        ensures
            r.wf(),
            !r.spec_has_identity(),
            r.sessions@.len() == 0,
    {
        CryptoEngine { identity_secret: None, identity_public: None, sessions: Vec::new() }
    }

    /// Generate a fresh identity keypair from 32 random bytes.
    pub fn generate_identity(&mut self) -> (r: Result<bool, ClientError>)
        requires
            old(self).wf(),
        ensures
            final(self).wf(),
            r is Ok,
            final(self).spec_has_identity(),
            final(self).sessions == old(self).sessions,
    {
        let secret = random_bytes(32);
        let public = x25519_public(secret.as_slice());
        self.identity_secret = Some(secret);
        self.identity_public = Some(public);
        Ok(true)
    }

    /// Import an identity from a base64url secret key; it must decode to
    /// exactly 32 bytes.
    pub fn import_identity(&mut self, private_key_b64: &str) -> (r: Result<bool, ClientError>)
        requires
            old(self).wf(),
        ensures
            final(self).wf(),
            final(self).sessions == old(self).sessions,
            (!exists|b: Seq<u8>| private_key_b64@ == b64url_of(b)) ==> r == Err::<
                bool,
                ClientError,
            >(ClientError::InvalidBase64) && *final(self) == *old(self),
            forall|b: Seq<u8>|
                private_key_b64@ == b64url_of(b) ==> (if b.len() == 32 {
                    r is Ok && final(self).spec_has_identity()
                        && final(self).identity_secret.unwrap()@ == b && final(self).identity_public.unwrap()@ == x25519_base(b)
                } else {
                    r == Err::<bool, ClientError>(ClientError::BadKeyLength) && *final(self)
                        == *old(self)
                }),
    {
        let bytes = match b64url_decode(private_key_b64) {
            Ok(b) => b,
            Err(_) => {
                return Err(ClientError::InvalidBase64);
            },
        };
        if bytes.len() != 32 {
            return Err(ClientError::BadKeyLength);
        }
        let public = x25519_public(bytes.as_slice());
        self.identity_secret = Some(bytes);
        self.identity_public = Some(public);
        Ok(true)
    }

    /// Export the identity secret key, base64url.
    pub fn export_identity(&self) -> (r: Result<String, ClientError>)
        ensures
            r is Ok <==> self.spec_has_identity(),
            r is Ok ==> r.unwrap()@ == b64url_of(self.identity_secret.unwrap()@),
            r is Err ==> (r->Err_0) == ClientError::NoIdentity,
    {
        match &self.identity_secret {
            Some(secret) => Ok(b64url_encode(secret.as_slice())),
            None => Err(ClientError::NoIdentity),
        }
    }

    /// The identity public key, base64url.
    pub fn get_public_key(&self) -> (r: Result<String, ClientError>)
        requires
            self.wf(),
        ensures
            r is Ok <==> self.spec_has_identity(),
            r is Ok ==> r.unwrap()@ == b64url_of(x25519_base(self.identity_secret.unwrap()@))
                && r.unwrap()@.len() == 43,
            r is Err ==> (r->Err_0) == ClientError::NoIdentity,
    {
        match &self.identity_public {
            Some(public) => Ok(b64url_encode(public.as_slice())),
            None => Err(ClientError::NoIdentity),
        }
    }

    /// Whether a session with this peer is established.
    pub fn has_session(&self, peer_id: &str) -> (r: bool)
        ensures
            r == self.spec_has_session(peer_id@),
    {
        self.find_session(peer_id).is_some()
    }

    /// Establish (or replace) the session with a peer from the peer's
    /// base64url public key: the session key is SHA-256 of the X25519
    /// shared secret. The agreement is symmetric: when the peer's key is
    /// the public key of some scalar t, the derived key equals what t's
    /// side derives from this identity's public key.
    pub fn establish_session(&mut self, peer_id: &str, peer_public_key_b64: &str, now: i64) -> (r:
        Result<bool, ClientError>)
        requires
            old(self).wf(),
        ensures
            final(self).wf(),
            final(self).identity_secret == old(self).identity_secret,
            final(self).identity_public == old(self).identity_public,
            (!exists|b: Seq<u8>| peer_public_key_b64@ == b64url_of(b)) ==> r == Err::<
                bool,
                ClientError,
            >(ClientError::InvalidBase64) && *final(self) == *old(self),
            forall|b: Seq<u8>|
                peer_public_key_b64@ == b64url_of(b) ==> (if b.len() != 32 {
                    r == Err::<bool, ClientError>(ClientError::BadKeyLength) && *final(self)
                        == *old(self)
                } else if !old(self).spec_has_identity() {
                    r == Err::<bool, ClientError>(ClientError::NoIdentity) && *final(self) == *old(self)
                } else {
                    let secret = old(self).identity_secret.unwrap()@;
                    let key = sha256_digest_of(x25519(secret, b));
                    &&& r is Ok
                    &&& final(self).sessions@ == sessions_without_peer(
                        old(self).sessions@,
                        peer_id@,
                    ).push(final(self).sessions@.last())
                    &&& final(self).sessions@.last().peer_id@ == peer_id@
                    &&& final(self).sessions@.last().shared_secret@ == key
                    &&& final(self).sessions@.last().created_at == now
                    &&& final(self).spec_has_session(peer_id@)
                    &&& final(self).spec_session_key(peer_id@) == key
                    &&& forall|t: Seq<u8>|
                        t.len() == 32 && b == x25519_base(t) ==> key == sha256_digest_of(
                            x25519(t, x25519_base(secret)),
                        )
                }),
    {
        let peer_bytes = match b64url_decode(peer_public_key_b64) {
            Ok(b) => b,
            Err(_) => {
                return Err(ClientError::InvalidBase64);
            },
        };
        if peer_bytes.len() != 32 {
            return Err(ClientError::BadKeyLength);
        }
        let secret = match &self.identity_secret {
            Some(s) => s,
            None => {
                return Err(ClientError::NoIdentity);
            },
        };
        let shared = x25519_shared(secret.as_slice(), peer_bytes.as_slice());
        let derived = sha2_digest(shared.as_slice());
        match self.find_session(peer_id) {
            Some(i) => {
                let _displaced = self.sessions.remove(i);
                proof {
                    lemma_remove_peer_is_filter(old(self).sessions@, i as int, peer_id@);
                }
            },
            None => {
                proof {
                    let p = keep_peer_pred(peer_id@);
                    assert(forall|j: int|
                        0 <= j < self.sessions@.len() ==> p(#[trigger] self.sessions@[j]));
                    crate::storage::lemma_filter_all(self.sessions@, p);
                }
            },
        }
        let entry = SessionKeys {
            peer_id: peer_id.to_owned(),
            shared_secret: derived,
            created_at: now,
        };
        self.sessions.push(entry);
        proof {
            assert forall|a: int, b: int|
                0 <= a < b < self.sessions@.len() implies self.sessions@[a].peer_id@
                != self.sessions@[b].peer_id@ by {
                if b == self.sessions@.len() - 1 {
                    crate::storage::lemma_filter_elem_from(
                        old(self).sessions@,
                        keep_peer_pred(peer_id@),
                        a,
                    );
                }
            }
            assert forall|a: int|
                0 <= a < self.sessions@.len() implies self.sessions@[a].shared_secret@.len()
                == 32 by {
                if a < self.sessions@.len() - 1 {
                    crate::storage::lemma_filter_elem_from(
                        old(self).sessions@,
                        keep_peer_pred(peer_id@),
                        a,
                    );
                }
            }
            self.lemma_session_idx(self.sessions@.len() - 1);
        }
        Ok(true)
    }

    /// Encrypt a message for a peer: a fresh 12-byte random nonce, then
    /// AES-256-GCM under the session key, framed and base64url-encoded.
    pub fn encrypt_for(&self, peer_id: &str, plaintext: &str) -> (r: Result<String, ClientError>)
        requires
            self.wf(),
        ensures
            !self.spec_has_session(peer_id@) <==> r == Err::<String, ClientError>(
                ClientError::NoSession,
            ),
            r is Err ==> (r->Err_0) == ClientError::NoSession || (r->Err_0)
                == ClientError::EncryptFailed,
            (self.spec_has_session(peer_id@) && encode_utf8(plaintext@).len()
                <= AES_GCM_MAX_PLAINTEXT) ==> r is Ok,
            r is Ok ==> r.unwrap()@.len() == ((encode_utf8(plaintext@).len() + 28) * 4 + 2) / 3,
            r is Ok ==> exists|nonce: Seq<u8>|
                {
                    &&& nonce.len() == 12
                    &&& r.unwrap()@ == #[trigger] message_frame(
                        self.spec_session_key(peer_id@),
                        nonce,
                        plaintext@,
                    )
                    &&& aes_gcm_open(
                        self.spec_session_key(peer_id@),
                        nonce,
                        aes_gcm_seal(
                            self.spec_session_key(peer_id@),
                            nonce,
                            encode_utf8(plaintext@),
                        ),
                    ) == Some(encode_utf8(plaintext@))
                },
    {
        let i = match self.find_session(peer_id) {
            Some(i) => i,
            None => {
                return Err(ClientError::NoSession);
            },
        };
        proof {
            self.lemma_session_idx(i as int);
        }
        let nonce = random_bytes(12);
        let sealed = match aes256_gcm_encrypt(
            self.sessions[i].shared_secret.as_slice(),
            nonce.as_slice(),
            plaintext.as_bytes(),
        ) {
            Ok(ct) => ct,
            Err(_) => {
                return Err(ClientError::EncryptFailed);
            },
        };
        let ghost gnonce = nonce@;
        let mut framed = nonce;
        let mut sealed_tail = sealed;
        framed.append(&mut sealed_tail);
        proof {
            assert(framed@ == gnonce + aes_gcm_seal(
                self.spec_session_key(peer_id@),
                gnonce,
                encode_utf8(plaintext@),
            ));
            assert(b64url_of(framed@) == message_frame(
                self.spec_session_key(peer_id@),
                gnonce,
                plaintext@,
            ));
        }
        Ok(b64url_encode(framed.as_slice()))
    }

    /// Decrypt a message frame from a peer: base64url-decode, split off the
    /// 12-byte nonce, open under the session key, and decode the UTF-8.
    pub fn decrypt_from(&self, peer_id: &str, ciphertext_b64: &str) -> (r: Result<
        String,
        ClientError,
    >)
        requires
            self.wf(),
        ensures
            !self.spec_has_session(peer_id@) <==> r == Err::<String, ClientError>(
                ClientError::NoSession,
            ),
            self.spec_has_session(peer_id@) ==> {
                let key = self.spec_session_key(peer_id@);
                &&& ((!exists|f: Seq<u8>| ciphertext_b64@ == b64url_of(f)) ==> r == Err::<
                    String,
                    ClientError,
                >(ClientError::InvalidBase64))
                &&& forall|f: Seq<u8>|
                    ciphertext_b64@ == b64url_of(f) ==> (if f.len() < 12 {
                        r == Err::<String, ClientError>(ClientError::DecryptFailed)
                    } else {
                        match aes_gcm_open(
                            key,
                            f.subrange(0, 12),
                            f.subrange(12, f.len() as int),
                        ) {
                            Some(p) => (if valid_utf8(p) {
                                r is Ok && r.unwrap()@ == decode_utf8(p)
                            } else {
                                r == Err::<String, ClientError>(ClientError::InvalidUtf8)
                            }),
                            None => r == Err::<String, ClientError>(ClientError::DecryptFailed),
                        }
                    })
            },
    {
        let i = match self.find_session(peer_id) {
            Some(i) => i,
            None => {
                return Err(ClientError::NoSession);
            },
        };
        proof {
            self.lemma_session_idx(i as int);
        }
        let combined = match b64url_decode(ciphertext_b64) {
            Ok(c) => c,
            Err(_) => {
                return Err(ClientError::InvalidBase64);
            },
        };
        if combined.len() < 12 {
            return Err(ClientError::DecryptFailed);
        }
        let (nonce, ciphertext) = split_frame(&combined);
        let plaintext = match aes256_gcm_decrypt(
            self.sessions[i].shared_secret.as_slice(),
            nonce.as_slice(),
            ciphertext.as_slice(),
        ) {
            Ok(p) => p,
            Err(_) => {
                return Err(ClientError::DecryptFailed);
            },
        };
        match string_from_utf8(plaintext) {
            Ok(s) => Ok(s),
            Err(_) => Err(ClientError::InvalidUtf8),
        }
    }

    /// Generate a random file key: 32 random bytes, base64url.
    pub fn generate_file_key(&self) -> (r: Result<String, ClientError>)
        ensures
            r is Ok,
            exists|b: Seq<u8>| b.len() == 32 && r.unwrap()@ == #[trigger] b64url_of(b),
            r.unwrap()@.len() == 43,
    {
        let key = random_bytes(32);
        Ok(b64url_encode(key.as_slice()))
    }

    /// Encrypt file bytes under a base64url key: a fresh 12-byte random
    /// nonce, then AES-256-GCM; the frame is nonce then sealed bytes.
    pub fn encrypt_file(&self, data: &[u8], key_b64: &str) -> (r: Result<Vec<u8>, ClientError>)
        ensures
            (!exists|k: Seq<u8>| key_b64@ == b64url_of(k)) ==> r == Err::<Vec<u8>, ClientError>(
                ClientError::InvalidBase64,
            ),
            forall|k: Seq<u8>|
                key_b64@ == b64url_of(k) ==> (if k.len() != 32 {
                    r == Err::<Vec<u8>, ClientError>(ClientError::BadKeyLength)
                } else {
                    &&& (data@.len() <= AES_GCM_MAX_PLAINTEXT ==> r is Ok)
                    &&& (r is Ok ==> exists|nonce: Seq<u8>|
                        {
                            &&& nonce.len() == 12
                            &&& r.unwrap()@ == #[trigger] file_frame(k, nonce, data@)
                            &&& r.unwrap()@.len() == data@.len() + 28
                            &&& aes_gcm_open(k, nonce, aes_gcm_seal(k, nonce, data@)) == Some(
                                data@,
                            )
                        })
                    &&& (r is Err ==> (r->Err_0) == ClientError::EncryptFailed)
                }),
    {
        let key = match b64url_decode(key_b64) {
            Ok(k) => k,
            Err(_) => {
                return Err(ClientError::InvalidBase64);
            },
        };
        if key.len() != 32 {
            return Err(ClientError::BadKeyLength);
        }
        let nonce = random_bytes(12);
        let sealed = match aes256_gcm_encrypt(key.as_slice(), nonce.as_slice(), data) {
            Ok(ct) => ct,
            Err(_) => {
                return Err(ClientError::EncryptFailed);
            },
        };
        let ghost gnonce = nonce@;
        let mut framed = nonce;
        let mut sealed_tail = sealed;
        framed.append(&mut sealed_tail);
        proof {
            assert(framed@ == file_frame(key@, gnonce, data@));
        }
        Ok(framed)
    }

    /// Decrypt a file frame under a base64url key: split off the 12-byte
    /// nonce and open the rest.
    pub fn decrypt_file(&self, encrypted: &[u8], key_b64: &str) -> (r: Result<Vec<u8>, ClientError>)
        ensures
            encrypted@.len() < 12 ==> r == Err::<Vec<u8>, ClientError>(ClientError::DecryptFailed),
            encrypted@.len() >= 12 ==> {
                &&& ((!exists|k: Seq<u8>| key_b64@ == b64url_of(k)) ==> r == Err::<
                    Vec<u8>,
                    ClientError,
                >(ClientError::InvalidBase64))
                &&& forall|k: Seq<u8>|
                    key_b64@ == b64url_of(k) ==> (if k.len() != 32 {
                        r == Err::<Vec<u8>, ClientError>(ClientError::BadKeyLength)
                    } else {
                        match aes_gcm_open(
                            k,
                            encrypted@.subrange(0, 12),
                            encrypted@.subrange(12, encrypted@.len() as int),
                        ) {
                            Some(p) => r is Ok && r.unwrap()@ == p,
                            None => r == Err::<Vec<u8>, ClientError>(ClientError::DecryptFailed),
                        }
                    })
            },
    {
        if encrypted.len() < 12 {
            return Err(ClientError::DecryptFailed);
        }
        let key = match b64url_decode(key_b64) {
            Ok(k) => k,
            Err(_) => {
                return Err(ClientError::InvalidBase64);
            },
        };
        if key.len() != 32 {
            return Err(ClientError::BadKeyLength);
        }
        let combined = slice_to_vec(encrypted);
        let (nonce, ciphertext) = split_frame(&combined);
        match aes256_gcm_decrypt(key.as_slice(), nonce.as_slice(), ciphertext.as_slice()) {
            Ok(p) => Ok(p),
            Err(_) => Err(ClientError::DecryptFailed),
        }
    }

    /// The hex SHA-256 digest of some bytes, 64 characters.
    pub fn hash(&self, data: &[u8]) -> (r: String)
        ensures
            r@ == hex_of(sha256_digest_of(data@)),
            r@.len() == 64,
    {
        let digest = sha2_digest(data);
        proof {
            crate::encoding::lemma_hex_len(digest@);
        }
        hex_encode(digest.as_slice())
    }
}

/// Copy a slice into a vector.
fn slice_to_vec(s: &[u8]) -> (r: Vec<u8>)
    ensures
        r@ == s@,
{
    let mut r: Vec<u8> = Vec::new();
    let n = s.len();
    let mut i: usize = 0;
    while i < n
        invariant
            n == s@.len(),
            i <= n,
            r@ =~= s@.take(i as int),
        decreases n - i,
    {
        r.push(s[i]);
        proof {
            assert(s@.take(i + 1) =~= s@.take(i as int).push(s@[i as int]));
        }
        i = i + 1;
    }
    proof {
        assert(s@.take(n as int) =~= s@);
    }
    r
}

/// Split a frame into its 12-byte nonce and the rest.
fn split_frame(v: &Vec<u8>) -> (r: (Vec<u8>, Vec<u8>))
    requires
        v@.len() >= 12,
    ensures
        r.0@ == v@.subrange(0, 12),
        r.1@ == v@.subrange(12, v@.len() as int),
{
    let mut nonce: Vec<u8> = Vec::new();
    let mut rest: Vec<u8> = Vec::new();
    let n = v.len();
    let mut i: usize = 0;
    while i < 12
        invariant
            v@.len() >= 12,
            i <= 12,
            nonce@ =~= v@.subrange(0, i as int),
        decreases 12 - i,
    {
        nonce.push(v[i]);
        proof {
            assert(v@.subrange(0, i + 1) =~= v@.subrange(0, i as int).push(v@[i as int]));
        }
        i = i + 1;
    }
    let mut j: usize = 12;
    while j < n
        invariant
            n == v@.len(),
            n >= 12,
            12 <= j <= n,
            rest@ =~= v@.subrange(12, j as int),
        decreases n - j,
    {
        rest.push(v[j]);
        proof {
            assert(v@.subrange(12, j + 1) =~= v@.subrange(12, j as int).push(v@[j as int]));
        }
        j = j + 1;
    }
    (nonce, rest)
}

/// Message round trip: a message frame built from a key, a nonce and a
/// plaintext decodes, splits, opens and UTF-8-decodes back to the same
/// plaintext — so decrypting an encrypted message with the same session key
/// returns the message.
pub proof fn lemma_message_round_trip(key: Seq<u8>, nonce: Seq<u8>, m: Seq<char>)
    requires
        nonce.len() == 12,
        aes_gcm_open(key, nonce, aes_gcm_seal(key, nonce, encode_utf8(m))) == Some(encode_utf8(m)),
    ensures
        ({
            let f = nonce + aes_gcm_seal(key, nonce, encode_utf8(m));
            &&& f.len() >= 12
            &&& f.subrange(0, 12) == nonce
            &&& f.subrange(12, f.len() as int) == aes_gcm_seal(key, nonce, encode_utf8(m))
            &&& aes_gcm_open(key, f.subrange(0, 12), f.subrange(12, f.len() as int)) == Some(
                encode_utf8(m),
            )
            &&& valid_utf8(encode_utf8(m))
            &&& decode_utf8(encode_utf8(m)) == m
        }),
{
    broadcast use vstd::utf8::encode_utf8_valid_utf8;
    broadcast use vstd::utf8::encode_utf8_decode_utf8;

    let f = nonce + aes_gcm_seal(key, nonce, encode_utf8(m));
    assert(f.subrange(0, 12) =~= nonce);
    assert(f.subrange(12, f.len() as int) =~= aes_gcm_seal(key, nonce, encode_utf8(m)));
}

/// File round trip: a file frame built from a key, a nonce and data splits
/// and opens back to the same bytes — so decrypting an encrypted file with
/// the same key returns the data.
pub proof fn lemma_file_round_trip(key: Seq<u8>, nonce: Seq<u8>, data: Seq<u8>)
    requires
        nonce.len() == 12,
        aes_gcm_open(key, nonce, aes_gcm_seal(key, nonce, data)) == Some(data),
    ensures
        ({
            let f = file_frame(key, nonce, data);
            &&& f.len() >= 12
            &&& f.subrange(0, 12) == nonce
            &&& f.subrange(12, f.len() as int) == aes_gcm_seal(key, nonce, data)
            &&& aes_gcm_open(key, f.subrange(0, 12), f.subrange(12, f.len() as int)) == Some(data)
        }),
{
    let f = file_frame(key, nonce, data);
    assert(f.subrange(0, 12) =~= nonce);
    assert(f.subrange(12, f.len() as int) =~= aes_gcm_seal(key, nonce, data));
}

/// Session agreement: when two identities each derive a session key from
/// the other's public key, the keys are equal — the X25519 agreement is
/// symmetric, so both sides share one AES key.
pub proof fn lemma_session_agreement(
    a_secret: Seq<u8>,
    b_secret: Seq<u8>,
    key_a: Seq<u8>,
    key_b: Seq<u8>,
)
    requires
        b_secret.len() == 32,
        key_a == sha256_digest_of(x25519(a_secret, x25519_base(b_secret))),
        forall|t: Seq<u8>|
            t.len() == 32 && x25519_base(b_secret) == x25519_base(t) ==> x25519(
                a_secret,
                x25519_base(b_secret),
            ) == x25519(t, x25519_base(a_secret)),
        key_b == sha256_digest_of(x25519(b_secret, x25519_base(a_secret))),
    ensures
        key_a == key_b,
{
    assert(x25519(a_secret, x25519_base(b_secret)) == x25519(b_secret, x25519_base(a_secret)));
}

} // verus!
