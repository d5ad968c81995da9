//! CRC-32 (IEEE) checksums.

use vstd::prelude::*;

verus! {

/// One bit step of the reflected CRC-32 register with polynomial 0xEDB88320.
pub open spec fn crc_bit(c: u32) -> u32 {
    if c & 1 == 1 { (c >> 1) ^ 0xEDB8_8320u32 } else { c >> 1 }
}

/// The register after feeding one byte: XOR it in, then eight bit steps.
pub open spec fn crc_byte(c: u32, b: u8) -> u32 {
    crc_bit(crc_bit(crc_bit(crc_bit(crc_bit(crc_bit(crc_bit(crc_bit(c ^ (b as u32)))))))))
}

/// The register after feeding `data` in order, starting from `c`.
pub open spec fn crc_update(c: u32, data: Seq<u8>) -> u32
    decreases data.len(),
{
    if data.len() == 0 {
        c
    } else {
        crc_byte(crc_update(c, data.drop_last()), data.last())
    }
}

/// The CRC-32 (IEEE 802.3) checksum of `data`: the reflected register
/// starting at all ones, complemented at the end.
pub open spec fn crc32_of(data: Seq<u8>) -> u32 {
    crc_update(0xFFFF_FFFFu32, data) ^ 0xFFFF_FFFFu32
}

/// Calls `crc32fast::hash`, which feeds `data` to a fresh `crc32fast::Hasher` and
/// returns its `finalize()`: the CRC-32 (IEEE) checksum, as `crc32_of` defines it.
#[verifier::external_body]
pub(crate) fn crc32(data: &[u8]) -> (r: u32)
    ensures
        r == crc32_of(data@),
{
    crc32fast::hash(data)
}

} // verus!
