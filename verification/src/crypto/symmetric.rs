//! Authenticated encryption with AES-256-GCM and ChaCha20-Poly1305.

use vstd::prelude::*;

verus! {

/// The nonce length of both ciphers.
pub const NONCE_SIZE: usize = 12;

/// The key length of both ciphers.
pub const KEY_SIZE: usize = 32;

/// The length of the authentication tag that both ciphers append.
pub const TAG_SIZE: usize = 16;

/// The longest plaintext AES-256-GCM seals: 2^36 bytes.
pub const AES_GCM_MAX_PLAINTEXT: u64 = 0x10_0000_0000;

/// The longest plaintext ChaCha20-Poly1305 seals: under 2^32 - 1 blocks of 64 bytes.
pub const CHACHA_MAX_PLAINTEXT: u64 = 0x3F_FFFF_FFC0 - 1;

/// The AES-256-GCM ciphertext (tag appended) of `plaintext` under `key` and `nonce`.
pub uninterp spec fn aes256gcm_seal_of(key: Seq<u8>, nonce: Seq<u8>, plaintext: Seq<u8>) -> Seq<u8>;

/// What AES-256-GCM decryption of `ciphertext` under `key` and `nonce` gives:
/// the plaintext, or `None` when authentication fails.
pub uninterp spec fn aes256gcm_open_of(key: Seq<u8>, nonce: Seq<u8>, ciphertext: Seq<u8>) -> Option<Seq<u8>>;

/// The ChaCha20-Poly1305 ciphertext (tag appended) of `plaintext` under `key` and `nonce`.
pub uninterp spec fn chacha20poly1305_seal_of(key: Seq<u8>, nonce: Seq<u8>, plaintext: Seq<u8>) -> Seq<u8>;

/// What ChaCha20-Poly1305 decryption of `ciphertext` under `key` and `nonce`
/// gives: the plaintext, or `None` when authentication fails.
pub uninterp spec fn chacha20poly1305_open_of(key: Seq<u8>, nonce: Seq<u8>, ciphertext: Seq<u8>) -> Option<Seq<u8>>;

/// Calls `ring::rand::SecureRandom::fill` on a buffer of `len` bytes; `None`
/// when the system generator fails. Nothing is claimed of the bytes.
#[verifier::external_body]
fn system_random_bytes(len: usize) -> (out: Option<Vec<u8>>)
    ensures
        out matches Some(bytes) ==> bytes@.len() == len,
{
    let mut buf = vec![0u8; len];
    match ring::rand::SecureRandom::fill(&ring::rand::SystemRandom::new(), &mut buf) {
        Ok(()) => Some(buf),
        Err(_) => None,
    }
}

/// Calls `aes_gcm::aead::Aead::encrypt` for AES-256-GCM; trusted to return
/// the ciphertext with its 16-byte tag, which depends on the inputs alone
/// and which decryption with the same key and nonce turns back into
/// `plaintext`. The crate refuses plaintexts over 2^36 bytes, which
/// `requires` rules out.
#[verifier::external_body]
fn aes256gcm_seal(key: &[u8; 32], nonce: &[u8], plaintext: &[u8]) -> (ciphertext: Vec<u8>)
    requires
        nonce@.len() == NONCE_SIZE,
        plaintext@.len() <= AES_GCM_MAX_PLAINTEXT,
    ensures
        ciphertext@ == aes256gcm_seal_of(key@, nonce@, plaintext@),
        ciphertext@.len() == plaintext@.len() + TAG_SIZE,
        aes256gcm_open_of(key@, nonce@, ciphertext@) == Some(plaintext@),
{
    let cipher = <aes_gcm::Aes256Gcm as aes_gcm::aead::KeyInit>::new(key.into());
    let nonce = aes_gcm::Nonce::from_slice(nonce);
    aes_gcm::aead::Aead::encrypt(&cipher, nonce, plaintext).expect("plaintext within limit")
}

/// Calls `aes_gcm::aead::Aead::decrypt` for AES-256-GCM; trusted to return
/// the result named by `aes256gcm_open_of`.
#[verifier::external_body]
fn aes256gcm_open(key: &[u8; 32], nonce: &[u8], ciphertext: &[u8]) -> (plaintext: Option<Vec<u8>>)
    requires
        nonce@.len() == NONCE_SIZE,
    ensures
        match plaintext {
            Some(p) => aes256gcm_open_of(key@, nonce@, ciphertext@) == Some(p@),
            None => aes256gcm_open_of(key@, nonce@, ciphertext@) is None,
        },
{
    let cipher = <aes_gcm::Aes256Gcm as aes_gcm::aead::KeyInit>::new(key.into());
    let nonce = aes_gcm::Nonce::from_slice(nonce);
    aes_gcm::aead::Aead::decrypt(&cipher, nonce, ciphertext).ok()
}

/// Calls `chacha20poly1305::aead::Aead::encrypt`; trusted to return the
/// ciphertext with its 16-byte tag, which depends on the inputs alone and
/// which decryption with the same key and nonce turns back into
/// `plaintext`. The crate refuses plaintexts of 2^32 - 1 blocks or more,
/// which `requires` rules out.
#[verifier::external_body]
fn chacha20poly1305_seal(key: &[u8; 32], nonce: &[u8], plaintext: &[u8]) -> (ciphertext: Vec<u8>)
    requires
        nonce@.len() == NONCE_SIZE,
        plaintext@.len() <= CHACHA_MAX_PLAINTEXT,
    ensures
        ciphertext@ == chacha20poly1305_seal_of(key@, nonce@, plaintext@),
        ciphertext@.len() == plaintext@.len() + TAG_SIZE,
        chacha20poly1305_open_of(key@, nonce@, ciphertext@) == Some(plaintext@),
{
    let cipher = <chacha20poly1305::ChaCha20Poly1305 as chacha20poly1305::KeyInit>::new(key.into());
    let nonce = chacha20poly1305::Nonce::from_slice(nonce);
    chacha20poly1305::aead::Aead::encrypt(&cipher, nonce, plaintext).expect("plaintext within limit")
}

/// Calls `chacha20poly1305::aead::Aead::decrypt`; trusted to return the
/// result named by `chacha20poly1305_open_of`.
#[verifier::external_body]
fn chacha20poly1305_open(key: &[u8; 32], nonce: &[u8], ciphertext: &[u8]) -> (plaintext: Option<Vec<u8>>)
    requires
        nonce@.len() == NONCE_SIZE,
    ensures
        match plaintext {
            Some(p) => chacha20poly1305_open_of(key@, nonce@, ciphertext@) == Some(p@),
            None => chacha20poly1305_open_of(key@, nonce@, ciphertext@) is None,
        },
{
    let cipher = <chacha20poly1305::ChaCha20Poly1305 as chacha20poly1305::KeyInit>::new(key.into());
    let nonce = chacha20poly1305::Nonce::from_slice(nonce);
    chacha20poly1305::aead::Aead::decrypt(&cipher, nonce, ciphertext).ok()
}

/// A sealed message: the nonce, the ciphertext with its tag appended, and an
/// unused separate tag field.
#[derive(Debug, Clone)]
pub struct EncryptedData {
    pub nonce: Vec<u8>,
    pub ciphertext: Vec<u8>,
    pub tag: Vec<u8>,
}

/// The error `decrypt` reports for a nonce that is not 12 bytes.
pub open spec fn invalid_nonce_message() -> Seq<char> {
    "Invalid nonce length"@
}

/// The error `decrypt` reports when authentication fails.
pub open spec fn decryption_failed_message() -> Seq<char> {
    "Decryption failed"@
}

/// What AES-256-GCM decryption of `encrypted` under `key` returns.
pub open spec fn spec_aes_decrypt(key: Seq<u8>, encrypted: EncryptedData) -> Result<Seq<u8>, Seq<char>> {
    if encrypted.nonce@.len() != NONCE_SIZE {
        Err(invalid_nonce_message())
    } else {
        match aes256gcm_open_of(key, encrypted.nonce@, encrypted.ciphertext@) {
            Some(p) => Ok(p),
            None => Err(decryption_failed_message()),
        }
    }
}

/// AES-256-GCM under a fixed key.
pub struct Aes256GcmCipher {
    key: [u8; 32],
}

impl View for Aes256GcmCipher {
    type V = Seq<u8>;

    /// The key.
    closed spec fn view(&self) -> Seq<u8> {
        self.key@
    }
}

impl Aes256GcmCipher {
    /// The cipher under `key`.
    pub fn new(key: &[u8; 32]) -> (c: Aes256GcmCipher)
        ensures
            c@ == key@,
    {
        Aes256GcmCipher { key: *key }
    }

    /// A fresh random key; `None` when the system generator fails.
    pub fn generate_key() -> (key: Option<[u8; 32]>) {
        match system_random_bytes(KEY_SIZE) {
            None => None,
            Some(bytes) => {
                let mut key = [0u8; 32];
                let mut i: usize = 0;
                while i < 32
                    invariant
                        i <= 32,
                        bytes@.len() == 32,
                    decreases 32 - i,
                {
                    key.set(i, bytes[i]);
                    i = i + 1;
                }
                Some(key)
            },
        }
    }

    /// Seals `plaintext` under a fresh random nonce; `None` when the system
    /// generator fails. Decrypting the result gives `plaintext` back.
    pub fn encrypt(&self, plaintext: &[u8]) -> (r: Option<EncryptedData>)
        requires
            plaintext@.len() <= AES_GCM_MAX_PLAINTEXT,
        ensures
            r matches Some(e) ==> {
                &&& e.nonce@.len() == NONCE_SIZE
                &&& e.ciphertext@ == aes256gcm_seal_of(self@, e.nonce@, plaintext@)
                &&& e.ciphertext@.len() == plaintext@.len() + TAG_SIZE
                &&& e.tag@.len() == 0
                &&& spec_aes_decrypt(self@, e) == Ok::<Seq<u8>, Seq<char>>(plaintext@)
            },
    {
        match system_random_bytes(NONCE_SIZE) {
            None => None,
            Some(nonce) => Some(self.encrypt_with_nonce(nonce, plaintext)),
        }
    }

    /// Seals `plaintext` under `nonce`, the step of `encrypt` after its nonce
    /// has been drawn: the nonce, the ciphertext with its tag, and an empty
    /// separate tag.
    pub fn encrypt_with_nonce(&self, nonce: Vec<u8>, plaintext: &[u8]) -> (e: EncryptedData)
        requires
            nonce@.len() == NONCE_SIZE,
            plaintext@.len() <= AES_GCM_MAX_PLAINTEXT,
        ensures
            e.nonce@ == nonce@,
            e.ciphertext@ == aes256gcm_seal_of(self@, nonce@, plaintext@),
            e.ciphertext@.len() == plaintext@.len() + TAG_SIZE,
            e.tag@.len() == 0,
            spec_aes_decrypt(self@, e) == Ok::<Seq<u8>, Seq<char>>(plaintext@),
    {
        let ciphertext = aes256gcm_seal(&self.key, nonce.as_slice(), plaintext);
        EncryptedData { nonce, ciphertext, tag: Vec::new() }
    }

    /// Opens `encrypted`: its plaintext, or the reason it was refused.
    pub fn decrypt(&self, encrypted: &EncryptedData) -> (r: Result<Vec<u8>, &'static str>)
        ensures
            match r {
                Ok(p) => spec_aes_decrypt(self@, *encrypted) == Ok::<Seq<u8>, Seq<char>>(p@),
                Err(e) => spec_aes_decrypt(self@, *encrypted) == Err::<Seq<u8>, Seq<char>>(e@),
            },
    {
        if encrypted.nonce.len() != NONCE_SIZE {
            return Err("Invalid nonce length");
        }
        match aes256gcm_open(&self.key, encrypted.nonce.as_slice(), encrypted.ciphertext.as_slice()) {
            Some(p) => Ok(p),
            None => Err("Decryption failed"),
        }
    }
}

/// ChaCha20-Poly1305 under a fixed key.
pub struct ChaCha20Poly1305 {
    key: [u8; 32],
}

impl View for ChaCha20Poly1305 {
    type V = Seq<u8>;

    /// The key.
    closed spec fn view(&self) -> Seq<u8> {
        self.key@
    }
}

impl ChaCha20Poly1305 {
    /// The cipher under `key`.
    pub fn new(key: &[u8; 32]) -> (c: ChaCha20Poly1305)
        ensures
            c@ == key@,
    {
        ChaCha20Poly1305 { key: *key }
    }

    /// Seals `plaintext` under `nonce`; decrypting with the same nonce gives
    /// `plaintext` back.
    pub fn encrypt(&self, nonce: &[u8], plaintext: &[u8]) -> (ciphertext: Vec<u8>)
        requires
            nonce@.len() == NONCE_SIZE,
            plaintext@.len() <= CHACHA_MAX_PLAINTEXT,
        ensures
            ciphertext@ == chacha20poly1305_seal_of(self@, nonce@, plaintext@),
            ciphertext@.len() == plaintext@.len() + TAG_SIZE,
            chacha20poly1305_open_of(self@, nonce@, ciphertext@) == Some(plaintext@),
    {
        chacha20poly1305_seal(&self.key, nonce, plaintext)
    }

    /// Opens `ciphertext` under `nonce`, or reports that authentication failed.
    pub fn decrypt(&self, nonce: &[u8], ciphertext: &[u8]) -> (r: Result<Vec<u8>, &'static str>)
        requires
            nonce@.len() == NONCE_SIZE,
        ensures
            match r {
                Ok(p) => chacha20poly1305_open_of(self@, nonce@, ciphertext@) == Some(p@),
                Err(e) => chacha20poly1305_open_of(self@, nonce@, ciphertext@) is None
                    && e@ == decryption_failed_message(),
            },
    {
        match chacha20poly1305_open(&self.key, nonce, ciphertext) {
            Some(p) => Ok(p),
            None => Err("Decryption failed"),
        }
    }
}

} // verus!
