//! BLAKE3 and SHA-256 digests.

use vstd::prelude::*;
use crate::common::wire::bytes_equal;

verus! {

/// The 32-byte BLAKE3 digest of `data`.
pub uninterp spec fn blake3_of(data: Seq<u8>) -> Seq<u8>;

/// The 32-byte BLAKE3 keyed digest of `data` under the 32-byte `key`.
pub uninterp spec fn blake3_keyed_of(key: Seq<u8>, data: Seq<u8>) -> Seq<u8>;

/// The 32-byte BLAKE3 key derived from `material` in the context string `context`.
pub uninterp spec fn blake3_derive_of(context: Seq<char>, material: Seq<u8>) -> Seq<u8>;

/// The 32-byte SHA-256 digest of `data`.
pub uninterp spec fn sha256_of(data: Seq<u8>) -> Seq<u8>;

/// Calls `blake3::hash`; trusted to return the 32 bytes of the digest, which
/// depend on `data` alone.
#[verifier::external_body]
pub(crate) fn blake3_digest(data: &[u8]) -> (out: Vec<u8>)
    ensures
        out@ == blake3_of(data@),
        out@.len() == 32,
{
    blake3::hash(data).as_bytes().to_vec()
}

/// Calls `blake3::keyed_hash`; trusted to return the 32 bytes of the keyed
/// digest, which depend on `key` and `data` alone.
#[verifier::external_body]
fn blake3_keyed_digest(key: &[u8; 32], data: &[u8]) -> (out: Vec<u8>)
    ensures
        out@ == blake3_keyed_of(key@, data@),
        out@.len() == 32,
{
    blake3::keyed_hash(key, data).as_bytes().to_vec()
}

/// Calls `blake3::derive_key`; trusted to return the 32 derived bytes, which
/// depend on `context` and `material` alone.
#[verifier::external_body]
pub(crate) fn blake3_derive_digest(context: &str, material: &[u8]) -> (out: Vec<u8>)
    ensures
        out@ == blake3_derive_of(context@, material@),
        out@.len() == 32,
{
    blake3::derive_key(context, material).to_vec()
}

/// Calls `sha2::Sha256::digest`; trusted to return the 32 bytes of the
/// digest, which depend on `data` alone.
#[verifier::external_body]
fn sha256_digest(data: &[u8]) -> (out: Vec<u8>)
    ensures
        out@ == sha256_of(data@),
        out@.len() == 32,
{
    <sha2::Sha256 as sha2::Digest>::digest(data).to_vec()
}

/// A digest.
#[derive(Debug, Clone)]
pub struct Hash(pub Vec<u8>);

/// The BLAKE3 digest of `data`.
pub fn blake3_hash(data: &[u8]) -> (h: Hash)
    ensures
        h.0@ == blake3_of(data@),
        h.0@.len() == 32,
{
    Hash(blake3_digest(data))
}

/// `hash` is the BLAKE3 digest of `data`.
pub open spec fn spec_blake3_verify(data: Seq<u8>, hash: Seq<u8>) -> bool {
    blake3_of(data) == hash
}

/// Whether `hash` is the BLAKE3 digest of `data`.
pub fn blake3_verify(data: &[u8], hash: &[u8]) -> (b: bool)
    ensures
        b == spec_blake3_verify(data@, hash@),
{
    let computed = blake3_hash(data);
    bytes_equal(computed.0.as_slice(), hash)
}

/// The 32-byte key block made from `key`: its first 32 bytes, zero-padded.
pub open spec fn spec_key_block(key: Seq<u8>) -> Seq<u8> {
    Seq::new(32, |i: int| if i < key.len() { key[i] } else { 0u8 })
}

/// The BLAKE3 keyed digest of `data` under `key`, cut or zero-padded to 32 bytes.
pub fn blake3_keyed_hash(data: &[u8], key: &[u8]) -> (h: Hash)
    ensures
        h.0@ == blake3_keyed_of(spec_key_block(key@), data@),
        h.0@.len() == 32,
{
    let mut key_array = [0u8; 32];
    let mut i: usize = 0;
    while i < 32
        invariant
            i <= 32,
            key_array@.len() == 32,
            forall|j: int| 0 <= j < i ==> key_array@[j] == spec_key_block(key@)[j],
            forall|j: int| i <= j < 32 ==> key_array@[j] == 0u8,
        decreases 32 - i,
    {
        if i < key.len() {
            key_array.set(i, key[i]);
        }
        i = i + 1;
    }
    assert(key_array@ =~= spec_key_block(key@));
    Hash(blake3_keyed_digest(&key_array, data))
}

/// The BLAKE3 key derived from `data` in the context `context`.
pub fn blake3_derive_key(data: &[u8], context: &str) -> (h: Hash)
    ensures
        h.0@ == blake3_derive_of(context@, data@),
        h.0@.len() == 32,
{
    Hash(blake3_derive_digest(context, data))
}

/// The SHA-256 digest of `data`.
pub fn sha256_hash(data: &[u8]) -> (out: Vec<u8>)
    ensures
        out@ == sha256_of(data@),
        out@.len() == 32,
{
    sha256_digest(data)
}

/// `hash` is the SHA-256 digest of `data`.
pub open spec fn spec_sha256_verify(data: Seq<u8>, hash: Seq<u8>) -> bool {
    sha256_of(data) == hash
}

/// Whether `hash` is the SHA-256 digest of `data`.
pub fn sha256_verify(data: &[u8], hash: &[u8]) -> (b: bool)
    ensures
        b == spec_sha256_verify(data@, hash@),
{
    let computed = sha256_hash(data);
    bytes_equal(computed.as_slice(), hash)
}

/// Verification accepts the digest that hashing the same data gives:
/// `blake3_verify(data, &blake3_hash(data).0)` holds for every `data`.
pub proof fn lemma_blake3_verify_own_digest(data: Seq<u8>)
    ensures
        spec_blake3_verify(data, blake3_of(data)),
{
}

/// Verification accepts the digest that hashing the same data gives:
/// `sha256_verify(data, &sha256_hash(data))` holds for every `data`.
pub proof fn lemma_sha256_verify_own_digest(data: Seq<u8>)
    ensures
        spec_sha256_verify(data, sha256_of(data)),
{
}

} // verus!
