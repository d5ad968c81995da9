//! Randomness drawn from the thread-local generator of `rand`.

use vstd::prelude::*;

verus! {

/// Calls `rand::RngCore::fill_bytes` on `rand::thread_rng()` to fill a buffer of
/// `n` bytes. The bytes are random; the contract states only the length.
#[verifier::external_body]
pub(crate) fn random_bytes(n: usize) -> (v: Vec<u8>)
    ensures
        v@.len() == n,
{
    let mut v = vec![0u8; n];
    rand::RngCore::fill_bytes(&mut rand::thread_rng(), &mut v);
    v
}

/// Calls `rand::Rng::gen_range` on `rand::thread_rng()` with the inclusive range
/// `lo..=hi`; `gen_range` panics on an empty range, which `requires` rules out.
/// The value is random; the contract states only that it lies in the range.
#[verifier::external_body]
pub(crate) fn random_in_range(lo: u64, hi: u64) -> (r: u64)
    requires
        lo <= hi,
    ensures
        lo <= r <= hi,
{
    rand::Rng::gen_range(&mut rand::thread_rng(), lo..=hi)
}

/// A random `u32` built from four random bytes.
pub fn random_u32() -> u32 {
    let b = random_bytes(4);
    (b[0] as u32) * 0x1000000 + (b[1] as u32) * 0x10000 + (b[2] as u32) * 0x100 + (b[3] as u32)
}

/// A random `u64` built from eight random bytes.
pub fn random_u64() -> u64 {
    let hi = random_u32();
    let lo = random_u32();
    (hi as u64) * 0x1_0000_0000 + (lo as u64)
}

} // verus!
