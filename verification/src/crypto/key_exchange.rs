//! X25519 key agreement.

use vstd::prelude::*;

verus! {

/// The first 32 bytes that `rand_chacha`'s ChaCha20 generator seeded with
/// `seed` puts out.
pub uninterp spec fn chacha20_output_of(seed: Seq<u8>) -> Seq<u8>;

/// The X25519 public key of the secret `secret`.
pub uninterp spec fn x25519_public_of(secret: Seq<u8>) -> Seq<u8>;

/// The X25519 shared secret of `secret` and the peer's public key `peer`.
pub uninterp spec fn x25519_shared_of(secret: Seq<u8>, peer: Seq<u8>) -> Seq<u8>;

/// Calls `x25519_dalek::StaticSecret::random_from_rng` with the operating
/// system's generator; nothing is claimed of the bytes, which are random.
#[verifier::external_body]
fn x25519_random_secret() -> (secret: [u8; 32]) {
    x25519_dalek::StaticSecret::random_from_rng(rand::rngs::OsRng).to_bytes()
}

/// Seeds `rand_chacha::ChaChaRng` with `seed` and fills 32 bytes from it;
/// trusted to return output that depends on `seed` alone (the generator is
/// deterministic).
#[verifier::external_body]
fn chacha20_output(seed: &[u8; 32]) -> (out: [u8; 32])
    ensures
        out@ == chacha20_output_of(seed@),
{
    let mut rng = <rand_chacha::ChaChaRng as rand::SeedableRng>::from_seed(*seed);
    let mut out = [0u8; 32];
    rand::RngCore::fill_bytes(&mut rng, &mut out);
    out
}

/// Calls `x25519_dalek::PublicKey::from` on the secret; trusted to return the
/// public key, which depends on `secret` alone.
#[verifier::external_body]
fn x25519_public(secret: &[u8; 32]) -> (public: [u8; 32])
    ensures
        public@ == x25519_public_of(secret@),
{
    let secret = x25519_dalek::StaticSecret::from(*secret);
    x25519_dalek::PublicKey::from(&secret).to_bytes()
}

/// Calls `x25519_dalek::StaticSecret::diffie_hellman`; trusted to return the
/// 32-byte shared secret, which depends on the two keys alone, and to agree
/// with the peer's own computation: when `peer` is the public key of some
/// secret `other`, the result is what `other` computes with the public key of
/// `secret` (the property the crate documents for two parties).
#[verifier::external_body]
fn x25519_diffie_hellman(secret: &[u8; 32], peer: &[u8; 32]) -> (shared: Vec<u8>)
    ensures
        shared@ == x25519_shared_of(secret@, peer@),
        shared@.len() == 32,
        forall|other: Seq<u8>|
            other.len() == 32 && peer@ == #[trigger] x25519_public_of(other) ==> shared@
                == x25519_shared_of(other, x25519_public_of(secret@)),
{
    let secret = x25519_dalek::StaticSecret::from(*secret);
    let peer = x25519_dalek::PublicKey::from(*peer);
    secret.diffie_hellman(&peer).as_bytes().to_vec()
}

/// An X25519 public key.
#[derive(Debug, Clone)]
pub struct KeyExchangePublicKey(pub [u8; 32]);

/// An X25519 private key.
#[derive(Clone)]
pub struct KeyExchangePrivateKey {
    secret: [u8; 32],
}

impl View for KeyExchangePrivateKey {
    type V = Seq<u8>;

    /// The 32 secret bytes.
    closed spec fn view(&self) -> Seq<u8> {
        self.secret@
    }
}

/// A shared secret.
#[derive(Debug, Clone)]
pub struct SharedSecret(pub Vec<u8>);

impl SharedSecret {
    /// The bytes of the shared secret.
    pub fn as_bytes(&self) -> (b: &[u8])
        ensures
            b@ == self.0@,
    {
        self.0.as_slice()
    }
}

impl KeyExchangePrivateKey {
    /// A fresh random private key.
    pub fn generate() -> (k: KeyExchangePrivateKey)
        ensures
            k@.len() == 32,
    {
        KeyExchangePrivateKey { secret: x25519_random_secret() }
    }

    /// The private key drawn from a ChaCha20 generator seeded with `bytes`:
    /// the generator's first 32 output bytes, which is what
    /// `x25519_dalek::StaticSecret::random_from_rng` takes from it (clamping
    /// comes later, when the key is used).
    pub fn from_bytes(bytes: &[u8; 32]) -> (k: KeyExchangePrivateKey)
        ensures
            k@ == chacha20_output_of(bytes@),
            k@.len() == 32,
    {
        KeyExchangePrivateKey { secret: chacha20_output(bytes) }
    }

    /// The public key of this private key.
    pub fn public_key(&self) -> (p: KeyExchangePublicKey)
        ensures
            p.0@ == x25519_public_of(self@),
    {
        KeyExchangePublicKey(x25519_public(&self.secret))
    }

    /// The secret shared with the owner of `peer_public`; both sides of an
    /// exchange compute the same bytes.
    pub fn diffie_hellman(&self, peer_public: &KeyExchangePublicKey) -> (s: SharedSecret)
        ensures
            s.0@ == x25519_shared_of(self@, peer_public.0@),
            s.0@.len() == 32,
            forall|other: Seq<u8>|
                other.len() == 32 && peer_public.0@ == #[trigger] x25519_public_of(other)
                    ==> s.0@ == x25519_shared_of(other, x25519_public_of(self@)),
    {
        SharedSecret(x25519_diffie_hellman(&self.secret, &peer_public.0))
    }
}

/// A fresh key pair: a random private key and its public key.
pub fn generate_keypair() -> (pair: (KeyExchangePrivateKey, KeyExchangePublicKey))
    ensures
        pair.0@.len() == 32,
        pair.1.0@ == x25519_public_of(pair.0@),
{
    let private = KeyExchangePrivateKey::generate();
    let public = private.public_key();
    (private, public)
}

/// The secret shared by the private key seeded with `private_key` and the
/// peer's public key `peer_public_key`. Both sides agree: when the peer's
/// key is the public key of the private key seeded with `b`, the result is
/// what `derive_shared_secret(b, ..)` gives with this side's public key.
pub fn derive_shared_secret(private_key: &[u8; 32], peer_public_key: &[u8; 32]) -> (s: SharedSecret)
    ensures
        s.0@ == x25519_shared_of(chacha20_output_of(private_key@), peer_public_key@),
        s.0@.len() == 32,
        chacha20_output_of(private_key@).len() == 32,
        forall|b: Seq<u8>|
            chacha20_output_of(b).len() == 32 && peer_public_key@ == #[trigger] x25519_public_of(
                chacha20_output_of(b),
            ) ==> s.0@ == x25519_shared_of(
                chacha20_output_of(b),
                x25519_public_of(chacha20_output_of(private_key@)),
            ),
{
    let private = KeyExchangePrivateKey::from_bytes(private_key);
    let peer = KeyExchangePublicKey(*peer_public_key);
    private.diffie_hellman(&peer)
}

} // verus!
