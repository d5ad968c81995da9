//! Fixed-width integers on the wire and byte-buffer helpers.

use vstd::prelude::*;
use vstd::utf8::{valid_utf8, decode_utf8};

verus! {

/// Big-endian bytes of a `u16`.
pub open spec fn be16(v: u16) -> Seq<u8> {
    seq![(v / 0x100) as u8, (v % 0x100) as u8]
}

/// Big-endian bytes of a `u32`.
pub open spec fn be32(v: u32) -> Seq<u8> {
    seq![
        (v / 0x1000000) as u8,
        ((v / 0x10000) % 0x100) as u8,
        ((v / 0x100) % 0x100) as u8,
        (v % 0x100) as u8,
    ]
}

/// Little-endian bytes of a `u16`.
pub open spec fn le16(v: u16) -> Seq<u8> {
    seq![(v % 0x100) as u8, (v / 0x100) as u8]
}

/// Little-endian bytes of a `u32`.
pub open spec fn le32(v: u32) -> Seq<u8> {
    seq![
        (v % 0x100) as u8,
        ((v / 0x100) % 0x100) as u8,
        ((v / 0x10000) % 0x100) as u8,
        (v / 0x1000000) as u8,
    ]
}

/// Little-endian bytes of a `u64`.
pub open spec fn le64(v: u64) -> Seq<u8> {
    le32((v % 0x1_0000_0000) as u32) + le32((v / 0x1_0000_0000) as u32)
}

/// Big-endian bytes of a `u64`.
pub open spec fn be64(v: u64) -> Seq<u8> {
    be32((v / 0x1_0000_0000) as u32) + be32((v % 0x1_0000_0000) as u32)
}

/// Big-endian bytes of a `u128`.
pub open spec fn be128(v: u128) -> Seq<u8> {
    be64((v / 0x1_0000_0000_0000_0000) as u64) + be64((v % 0x1_0000_0000_0000_0000) as u64)
}

/// The `u64` that eight big-endian bytes stand for.
pub open spec fn u64_be(b: Seq<u8>) -> u64 {
    (u32_be(b[0], b[1], b[2], b[3]) * 0x1_0000_0000 + u32_be(b[4], b[5], b[6], b[7])) as u64
}

/// The `u128` that sixteen big-endian bytes stand for.
pub open spec fn u128_be(b: Seq<u8>) -> u128 {
    (u64_be(b.subrange(0, 8)) * 0x1_0000_0000_0000_0000 + u64_be(b.subrange(8, 16))) as u128
}

/// The `u16` that two big-endian bytes stand for.
pub open spec fn u16_be(hi: u8, lo: u8) -> u16 {
    (hi * 0x100 + lo) as u16
}

/// The `u32` that four big-endian bytes stand for.
pub open spec fn u32_be(b0: u8, b1: u8, b2: u8, b3: u8) -> u32 {
    (b0 * 0x1000000 + b1 * 0x10000 + b2 * 0x100 + b3) as u32
}

/// Reading back two big-endian bytes gives the value that was written.
pub proof fn lemma_be16_roundtrip(v: u16)
    ensures
        be16(v).len() == 2,
        u16_be(be16(v)[0], be16(v)[1]) == v,
{
}

/// Reading back four big-endian bytes gives the value that was written.
pub proof fn lemma_be32_roundtrip(v: u32)
    ensures
        be32(v).len() == 4,
        u32_be(be32(v)[0], be32(v)[1], be32(v)[2], be32(v)[3]) == v,
{
}

/// Reading back eight big-endian bytes gives the value that was written.
pub proof fn lemma_be64_roundtrip(v: u64)
    ensures
        be64(v).len() == 8,
        u64_be(be64(v)) == v,
{
    lemma_be32_roundtrip((v / 0x1_0000_0000) as u32);
    lemma_be32_roundtrip((v % 0x1_0000_0000) as u32);
}

/// Reading back sixteen big-endian bytes gives the value that was written.
pub proof fn lemma_be128_roundtrip(v: u128)
    ensures
        be128(v).len() == 16,
        u128_be(be128(v)) == v,
{
    let hi = (v / 0x1_0000_0000_0000_0000) as u64;
    let lo = (v % 0x1_0000_0000_0000_0000) as u64;
    lemma_be64_roundtrip(hi);
    lemma_be64_roundtrip(lo);
    assert(be128(v).subrange(0, 8) =~= be64(hi));
    assert(be128(v).subrange(8, 16) =~= be64(lo));
}

/// Appends `data` to `out`.
pub fn extend_bytes(out: &mut Vec<u8>, data: &[u8])
    ensures
        final(out)@ == old(out)@ + data@,
{
    let ghost start = out@;
    let mut i: usize = 0;
    while i < data.len()
        invariant
            i <= data@.len(),
            out@ == start + data@.subrange(0, i as int),
        decreases data@.len() - i,
    {
        out.push(data[i]);
        i = i + 1;
        assert(data@.subrange(0, i as int) == data@.subrange(0, (i - 1) as int).push(data@[i - 1]));
    }
    assert(data@.subrange(0, data@.len() as int) == data@);
}

/// Appends the big-endian bytes of `v`.
pub fn push_u16_be(out: &mut Vec<u8>, v: u16)
    ensures
        final(out)@ == old(out)@ + be16(v),
{
    out.push((v / 0x100) as u8);
    out.push((v % 0x100) as u8);
    assert(final(out)@ =~= old(out)@ + be16(v));
}

/// Appends the big-endian bytes of `v`.
pub fn push_u32_be(out: &mut Vec<u8>, v: u32)
    ensures
        final(out)@ == old(out)@ + be32(v),
{
    out.push((v / 0x1000000) as u8);
    out.push(((v / 0x10000) % 0x100) as u8);
    out.push(((v / 0x100) % 0x100) as u8);
    out.push((v % 0x100) as u8);
    assert(final(out)@ =~= old(out)@ + be32(v));
}

/// Appends the big-endian bytes of `v`.
pub fn push_u64_be(out: &mut Vec<u8>, v: u64)
    ensures
        final(out)@ == old(out)@ + be64(v),
{
    push_u32_be(out, (v / 0x1_0000_0000) as u32);
    push_u32_be(out, (v % 0x1_0000_0000) as u32);
    assert(final(out)@ =~= old(out)@ + be64(v));
}

/// Appends the big-endian bytes of `v`.
pub fn push_u128_be(out: &mut Vec<u8>, v: u128)
    ensures
        final(out)@ == old(out)@ + be128(v),
{
    push_u64_be(out, (v / 0x1_0000_0000_0000_0000) as u64);
    push_u64_be(out, (v % 0x1_0000_0000_0000_0000) as u64);
    assert(final(out)@ =~= old(out)@ + be128(v));
}

/// Appends the little-endian bytes of `v`.
pub fn push_u32_le(out: &mut Vec<u8>, v: u32)
    ensures
        final(out)@ == old(out)@ + le32(v),
{
    out.push((v % 0x100) as u8);
    out.push(((v / 0x100) % 0x100) as u8);
    out.push(((v / 0x10000) % 0x100) as u8);
    out.push((v / 0x1000000) as u8);
    assert(final(out)@ =~= old(out)@ + le32(v));
}

/// Appends the little-endian bytes of `v`.
pub fn push_u64_le(out: &mut Vec<u8>, v: u64)
    ensures
        final(out)@ == old(out)@ + le64(v),
{
    push_u32_le(out, (v % 0x1_0000_0000) as u32);
    push_u32_le(out, (v / 0x1_0000_0000) as u32);
    assert(final(out)@ =~= old(out)@ + le64(v));
}

/// Reads a big-endian `u16` at `i`.
pub fn read_u16_be(data: &[u8], i: usize) -> (v: u16)
    requires
        i + 2 <= data@.len(),
    ensures
        v == u16_be(data@[i as int], data@[i + 1]),
{
    (data[i] as u16) * 0x100 + (data[i + 1] as u16)
}

/// Reads a big-endian `u32` at `i`.
pub fn read_u32_be(data: &[u8], i: usize) -> (v: u32)
    requires
        i + 4 <= data@.len(),
    ensures
        v == u32_be(data@[i as int], data@[i + 1], data@[i + 2], data@[i + 3]),
{
    (data[i] as u32) * 0x1000000 + (data[i + 1] as u32) * 0x10000 + (data[i + 2] as u32) * 0x100
        + (data[i + 3] as u32)
}

/// Reads a big-endian `u64` at `i`.
pub fn read_u64_be(data: &[u8], i: usize) -> (v: u64)
    requires
        i + 8 <= data@.len(),
    ensures
        v == u64_be(data@.subrange(i as int, i + 8)),
{
    let n = data.len();
    let hi = read_u32_be(data, i);
    let lo = read_u32_be(data, i + 4);
    assert(data@.subrange(i as int, i + 8)[4] == data@[i + 4]);
    (hi as u64) * 0x1_0000_0000 + (lo as u64)
}

/// Reads a big-endian `u128` at `i`.
pub fn read_u128_be(data: &[u8], i: usize) -> (v: u128)
    requires
        i + 16 <= data@.len(),
    ensures
        v == u128_be(data@.subrange(i as int, i + 16)),
{
    let n = data.len();
    let hi = read_u64_be(data, i);
    let lo = read_u64_be(data, i + 8);
    assert(data@.subrange(i as int, i + 16).subrange(0, 8) =~= data@.subrange(i as int, i + 8));
    assert(data@.subrange(i as int, i + 16).subrange(8, 16) =~= data@.subrange(i + 8, i + 16));
    (hi as u128) * 0x1_0000_0000_0000_0000 + (lo as u128)
}

/// Whether two byte strings are equal.
pub fn bytes_equal(a: &[u8], b: &[u8]) -> (eq: bool)
    ensures
        eq == (a@ == b@),
{
    if a.len() != b.len() {
        return false;
    }
    let mut i: usize = 0;
    while i < a.len()
        invariant
            a@.len() == b@.len(),
            i <= a@.len(),
            forall|j: int| 0 <= j < i ==> a@[j] == b@[j],
        decreases a@.len() - i,
    {
        if a[i] != b[i] {
            return false;
        }
        i = i + 1;
    }
    assert(a@ =~= b@);
    true
}

/// A copy of `data[start..end]`.
pub fn copy_range(data: &[u8], start: usize, end: usize) -> (out: Vec<u8>)
    requires
        start <= end <= data@.len(),
    ensures
        out@ == data@.subrange(start as int, end as int),
{
    let mut out: Vec<u8> = Vec::new();
    let mut i = start;
    while i < end
        invariant
            start <= i <= end <= data@.len(),
            out@ == data@.subrange(start as int, i as int),
        decreases end - i,
    {
        out.push(data[i]);
        i = i + 1;
        assert(data@.subrange(start as int, i as int) == data@.subrange(start as int, (i - 1) as int).push(data@[i - 1]));
    }
    out
}

/// Calls `String::from_utf8` on a copy of `bytes`. Its documentation: the result is
/// `Ok` exactly when the bytes are valid UTF-8, and then holds the characters they
/// encode.
#[verifier::external_body]
pub(crate) fn utf8_string(bytes: &[u8]) -> (r: Option<String>)
    ensures
        r is Some <==> valid_utf8(bytes@),
        r matches Some(s) ==> s@ == decode_utf8(bytes@),
{
    String::from_utf8(bytes.to_vec()).ok()
}

} // verus!
