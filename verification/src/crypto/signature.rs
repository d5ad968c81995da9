//! Ed25519 signatures.

use vstd::prelude::*;
use crate::common::wire::extend_bytes;

verus! {

/// What `ring`'s Ed25519 key-pair parser makes of the PKCS#8 document
/// `pkcs8`: the public key of the pair, or `None` when it refuses the
/// document.
pub uninterp spec fn ed25519_pkcs8_public(pkcs8: Seq<u8>) -> Option<Seq<u8>>;

/// The Ed25519 signature of `message` under the key pair in `pkcs8`.
pub uninterp spec fn ed25519_sign_of(pkcs8: Seq<u8>, message: Seq<u8>) -> Seq<u8>;

/// Whether `signature` is a valid Ed25519 signature of `message` under the
/// public key `public`.
pub uninterp spec fn ed25519_verify_of(public: Seq<u8>, message: Seq<u8>, signature: Seq<u8>) -> bool;

/// Calls `ring::signature::Ed25519KeyPair::generate_pkcs8` with the system
/// generator. `None` when the generator fails. The crate documents the
/// document as the format its parser accepts, which the contract claims; the
/// key itself is random.
#[verifier::external_body]
fn ed25519_generate_pkcs8() -> (doc: Option<Vec<u8>>)
    ensures
        doc matches Some(d) ==> ed25519_pkcs8_public(d@) is Some,
{
    let rng = ring::rand::SystemRandom::new();
    match ring::signature::Ed25519KeyPair::generate_pkcs8(&rng) {
        Ok(doc) => Some(doc.as_ref().to_vec()),
        Err(_) => None,
    }
}

/// Calls `ring::signature::Ed25519KeyPair::from_pkcs8` and reads the public
/// key; trusted to give the 32-byte public key named by
/// `ed25519_pkcs8_public`, or `None` exactly when it refuses the document.
#[verifier::external_body]
fn ed25519_parse_pkcs8(pkcs8: &[u8]) -> (public: Option<Vec<u8>>)
    ensures
        match public {
            Some(p) => ed25519_pkcs8_public(pkcs8@) == Some(p@) && p@.len() == 32,
            None => ed25519_pkcs8_public(pkcs8@) is None,
        },
{
    match ring::signature::Ed25519KeyPair::from_pkcs8(pkcs8) {
        Ok(pair) => Some(ring::signature::KeyPair::public_key(&pair).as_ref().to_vec()),
        Err(_) => None,
    }
}

/// Calls `ring::signature::Ed25519KeyPair::from_pkcs8` and `sign`; trusted to
/// return the deterministic Ed25519 signature, which the pair's public key
/// accepts.
#[verifier::external_body]
fn ed25519_sign(pkcs8: &[u8], message: &[u8]) -> (signature: Vec<u8>)
    requires
        ed25519_pkcs8_public(pkcs8@) is Some,
    ensures
        signature@ == ed25519_sign_of(pkcs8@, message@),
        ed25519_verify_of(ed25519_pkcs8_public(pkcs8@)->0, message@, signature@),
{
    let pair = ring::signature::Ed25519KeyPair::from_pkcs8(pkcs8).expect("accepted document");
    pair.sign(message).as_ref().to_vec()
}

/// Calls `ring::signature::UnparsedPublicKey::verify` for Ed25519; trusted
/// to return the verdict named by `ed25519_verify_of`.
#[verifier::external_body]
fn ed25519_verify(public: &[u8], message: &[u8], signature: &[u8]) -> (ok: bool)
    ensures
        ok == ed25519_verify_of(public@, message@, signature@),
{
    ring::signature::UnparsedPublicKey::new(&ring::signature::ED25519, public)
        .verify(message, signature)
        .is_ok()
}

/// Why a key pair could not be made.
#[derive(Debug, Clone, Copy, PartialEq, Eq, Structural)]
pub enum SignatureError {
    InvalidKeyLength,
    InvalidPkcs8,
    InvalidKeyPair,
    GenerationFailed,
}

impl SignatureError {
    /// The message of this error.
    pub fn to_string(&self) -> (s: String)
        ensures
            s@ == match *self {
                SignatureError::InvalidKeyLength => "Invalid private key length"@,
                SignatureError::InvalidPkcs8 => "Failed to create key pair from PKCS8"@,
                SignatureError::InvalidKeyPair => "Failed to recreate key pair"@,
                SignatureError::GenerationFailed => "Failed to generate key pair"@,
            },
    {
        match self {
            SignatureError::InvalidKeyLength => String::from_str("Invalid private key length"),
            SignatureError::InvalidPkcs8 => String::from_str("Failed to create key pair from PKCS8"),
            SignatureError::InvalidKeyPair => String::from_str("Failed to recreate key pair"),
            SignatureError::GenerationFailed => String::from_str("Failed to generate key pair"),
        }
    }
}

/// An Ed25519 key pair: its PKCS#8 document and the public key in it.
#[derive(Debug)]
pub struct Ed25519KeyPair {
    public_key: Vec<u8>,
    private_key: Vec<u8>,
}

impl Clone for Ed25519KeyPair {
    /// A copy of the key pair.
    fn clone(&self) -> (c: Self)
        ensures
            c.spec_public_key() == self.spec_public_key(),
            c.spec_private_key() == self.spec_private_key(),
    {
        proof {
            use_type_invariant(self);
        }
        let mut public_key: Vec<u8> = Vec::new();
        extend_bytes(&mut public_key, self.public_key.as_slice());
        let mut private_key: Vec<u8> = Vec::new();
        extend_bytes(&mut private_key, self.private_key.as_slice());
        assert(public_key@ =~= self.public_key@);
        assert(private_key@ =~= self.private_key@);
        Ed25519KeyPair { public_key, private_key }
    }
}

/// An Ed25519 signature.
#[derive(Debug, Clone)]
pub struct Signature(pub Vec<u8>);

/// The key pair kind used by FastLink.
pub type KeyPair = Ed25519KeyPair;

impl Ed25519KeyPair {
    /// The public key is the one in the PKCS#8 document.
    #[verifier::type_invariant]
    spec fn well_formed(self) -> bool {
        &&& ed25519_pkcs8_public(self.private_key@) == Some(self.public_key@)
        &&& self.public_key@.len() == 32
    }

    /// The public key.
    pub closed spec fn spec_public_key(&self) -> Seq<u8> {
        self.public_key@
    }

    /// The PKCS#8 document.
    pub closed spec fn spec_private_key(&self) -> Seq<u8> {
        self.private_key@
    }

    /// A fresh random key pair; `GenerationFailed` when the system generator
    /// fails.
    pub fn generate() -> (r: Result<Ed25519KeyPair, SignatureError>)
        ensures
            match r {
                Ok(pair) => ed25519_pkcs8_public(pair.spec_private_key()) == Some(
                    pair.spec_public_key(),
                ) && pair.spec_public_key().len() == 32,
                Err(e) => e == SignatureError::GenerationFailed,
            },
    {
        match ed25519_generate_pkcs8() {
            None => Err(SignatureError::GenerationFailed),
            Some(doc) => match ed25519_parse_pkcs8(doc.as_slice()) {
                Some(public_key) => Ok(Ed25519KeyPair { public_key, private_key: doc }),
                None => Err(SignatureError::GenerationFailed),
            },
        }
    }

    /// The key pair in the PKCS#8 document `private_key`.
    pub fn from_private_key(private_key: &[u8]) -> (r: Result<Ed25519KeyPair, SignatureError>)
        ensures
            private_key@.len() < 32 ==> r == Err::<Ed25519KeyPair, SignatureError>(
                SignatureError::InvalidKeyLength,
            ),
            private_key@.len() >= 32 && ed25519_pkcs8_public(private_key@) is None ==> r == Err::<
                Ed25519KeyPair,
                SignatureError,
            >(SignatureError::InvalidPkcs8),
            private_key@.len() >= 32 && ed25519_pkcs8_public(private_key@) is Some ==> r is Ok,
            r matches Ok(pair) ==> private_key@.len() >= 32 && pair.spec_private_key()
                == private_key@ && ed25519_pkcs8_public(private_key@) == Some(
                pair.spec_public_key(),
            ) && pair.spec_public_key().len() == 32,
    {
        if private_key.len() < 32 {
            return Err(SignatureError::InvalidKeyLength);
        }
        match ed25519_parse_pkcs8(private_key) {
            None => Err(SignatureError::InvalidPkcs8),
            Some(public_key) => {
                let mut doc: Vec<u8> = Vec::new();
                extend_bytes(&mut doc, private_key);
                Ok(Ed25519KeyPair { public_key, private_key: doc })
            },
        }
    }

    /// The 32-byte public key.
    pub fn public_key(&self) -> (k: &[u8])
        ensures
            k@ == self.spec_public_key(),
            k@.len() == 32,
    {
        proof {
            use_type_invariant(self);
        }
        self.public_key.as_slice()
    }

    /// The PKCS#8 document.
    pub fn private_key(&self) -> (k: &[u8])
        ensures
            k@ == self.spec_private_key(),
    {
        self.private_key.as_slice()
    }

    /// The signature of `message`; the pair's public key accepts it.
    pub fn sign(&self, message: &[u8]) -> (s: Signature)
        ensures
            s.0@ == ed25519_sign_of(self.spec_private_key(), message@),
            ed25519_verify_of(self.spec_public_key(), message@, s.0@),
    {
        proof {
            use_type_invariant(self);
        }
        Signature(ed25519_sign(self.private_key.as_slice(), message))
    }
}

/// Whether `signature` is a valid Ed25519 signature of `message` under `public_key`.
pub fn verify(public_key: &[u8], message: &[u8], signature: &[u8]) -> (ok: bool)
    ensures
        ok == ed25519_verify_of(public_key@, message@, signature@),
{
    ed25519_verify(public_key, message, signature)
}

} // verus!
