//! Key derivation with HKDF-SHA256 and BLAKE3.

use vstd::prelude::*;
use crate::crypto::hash::{blake3_derive_digest, blake3_derive_of};
use crate::common::wire::extend_bytes;

verus! {

/// The longest output HKDF-SHA256 can expand to: 255 blocks of 32 bytes.
pub const HKDF_SHA256_MAX_LEN: usize = 8160;

/// The `len` bytes of HKDF-SHA256 output keying material for `ikm`, `salt` and `info`.
pub uninterp spec fn hkdf_sha256_of(ikm: Seq<u8>, salt: Seq<u8>, info: Seq<u8>, len: nat) -> Seq<u8>;

/// Calls `hkdf::Hkdf::<Sha256>::new` and `expand`; trusted to fill `len`
/// bytes that depend on the inputs alone. `expand` refuses more than 8160
/// bytes, which `requires` rules out.
#[verifier::external_body]
fn hkdf_sha256_expand(ikm: &[u8], salt: &[u8], info: &[u8], len: usize) -> (okm: Vec<u8>)
    requires
        len <= HKDF_SHA256_MAX_LEN,
    ensures
        okm@ == hkdf_sha256_of(ikm@, salt@, info@, len as nat),
        okm@.len() == len,
{
    let hk = hkdf::Hkdf::<sha2::Sha256>::new(Some(salt), ikm);
    let mut okm = vec![0u8; len];
    hk.expand(info, &mut okm).expect("length within the HKDF-SHA256 limit");
    okm
}

/// Derived key material.
#[derive(Debug, Clone)]
pub struct DerivedKey(pub Vec<u8>);

/// `len` bytes of HKDF-SHA256 output for `ikm`, `salt` and `info`.
pub fn hkdf_sha256(ikm: &[u8], salt: &[u8], info: &[u8], len: usize) -> (k: DerivedKey)
    requires
        len <= HKDF_SHA256_MAX_LEN,
    ensures
        k.0@ == hkdf_sha256_of(ikm@, salt@, info@, len as nat),
        k.0@.len() == len,
{
    DerivedKey(hkdf_sha256_expand(ikm, salt, info, len))
}

/// The BLAKE3 key derived from `ikm` in the context `context`.
pub fn blake3_derive(ikm: &[u8], context: &str) -> (k: DerivedKey)
    ensures
        k.0@ == blake3_derive_of(context@, ikm@),
        k.0@.len() == 32,
{
    DerivedKey(blake3_derive_digest(context, ikm))
}

/// The BLAKE3 key derived from `salt` followed by `ikm`, in the context `context`.
pub fn blake3_derive_with_salt(ikm: &[u8], context: &str, salt: &[u8]) -> (k: DerivedKey)
    ensures
        k.0@ == blake3_derive_of(context@, salt@ + ikm@),
        k.0@.len() == 32,
{
    let mut combined: Vec<u8> = Vec::new();
    extend_bytes(&mut combined, salt);
    extend_bytes(&mut combined, ikm);
    assert(combined@ =~= salt@ + ikm@);
    blake3_derive(combined.as_slice(), context)
}

} // verus!
