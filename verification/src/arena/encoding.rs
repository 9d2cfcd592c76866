//! Fixed-width integer encodings used by the arena header.
use vstd::prelude::*;
use byteorder::{ByteOrder, LittleEndian};

verus! {

/// The four bytes of `v`, least significant first.
pub open spec fn le32_bytes(v: u32) -> Seq<u8> {
    seq![v as u8, (v >> 8u32) as u8, (v >> 16u32) as u8, (v >> 24u32) as u8]
}

/// The `u32` whose little-endian bytes are the first four of `s`.
pub open spec fn le32_value(s: Seq<u8>) -> u32 {
    (s[0] as u32) | ((s[1] as u32) << 8u32) | ((s[2] as u32) << 16u32) | ((s[3] as u32) << 24u32)
}

/// The eight bytes of `v`, least significant first.
pub open spec fn le64_bytes(v: u64) -> Seq<u8> {
    seq![
        v as u8, (v >> 8u64) as u8, (v >> 16u64) as u8, (v >> 24u64) as u8,
        (v >> 32u64) as u8, (v >> 40u64) as u8, (v >> 48u64) as u8, (v >> 56u64) as u8,
    ]
}

/// The `u64` whose little-endian bytes are the first eight of `s`.
pub open spec fn le64_value(s: Seq<u8>) -> u64 {
    (s[0] as u64) | ((s[1] as u64) << 8u64) | ((s[2] as u64) << 16u64) | ((s[3] as u64) << 24u64)
        | ((s[4] as u64) << 32u64) | ((s[5] as u64) << 40u64) | ((s[6] as u64) << 48u64)
        | ((s[7] as u64) << 56u64)
}

/// The sixteen bytes of `v`, most significant first (the byte order of a UUID).
pub open spec fn be128_bytes(v: u128) -> Seq<u8> {
    seq![
        (v >> 120u128) as u8, (v >> 112u128) as u8, (v >> 104u128) as u8, (v >> 96u128) as u8,
        (v >> 88u128) as u8, (v >> 80u128) as u8, (v >> 72u128) as u8, (v >> 64u128) as u8,
        (v >> 56u128) as u8, (v >> 48u128) as u8, (v >> 40u128) as u8, (v >> 32u128) as u8,
        (v >> 24u128) as u8, (v >> 16u128) as u8, (v >> 8u128) as u8, v as u8,
    ]
}

/// The `u128` whose big-endian bytes are the first sixteen of `s`.
pub open spec fn be128_value(s: Seq<u8>) -> u128 {
    ((s[0] as u128) << 120u128) | ((s[1] as u128) << 112u128) | ((s[2] as u128) << 104u128)
        | ((s[3] as u128) << 96u128) | ((s[4] as u128) << 88u128) | ((s[5] as u128) << 80u128)
        | ((s[6] as u128) << 72u128) | ((s[7] as u128) << 64u128) | ((s[8] as u128) << 56u128)
        | ((s[9] as u128) << 48u128) | ((s[10] as u128) << 40u128) | ((s[11] as u128) << 32u128)
        | ((s[12] as u128) << 24u128) | ((s[13] as u128) << 16u128) | ((s[14] as u128) << 8u128)
        | (s[15] as u128)
}

/// Decoding the little-endian bytes of a `u32` gives it back.
pub proof fn lemma_le32_roundtrip(v: u32)
    ensures
        le32_bytes(v).len() == 4,
        le32_value(le32_bytes(v)) == v,
{
    let s = le32_bytes(v);
    let (b0, b1, b2, b3) = (s[0], s[1], s[2], s[3]);
    assert(((b0 as u32) | ((b1 as u32) << 8u32) | ((b2 as u32) << 16u32) | ((b3 as u32) << 24u32))
        == v) by (bit_vector)
        requires
            b0 == v as u8,
            b1 == (v >> 8u32) as u8,
            b2 == (v >> 16u32) as u8,
            b3 == (v >> 24u32) as u8,
    ;
}

/// Decoding the little-endian bytes of a `u64` gives it back.
pub proof fn lemma_le64_roundtrip(v: u64)
    ensures
        le64_bytes(v).len() == 8,
        le64_value(le64_bytes(v)) == v,
{
    let s = le64_bytes(v);
    let (b0, b1, b2, b3, b4, b5, b6, b7) = (s[0], s[1], s[2], s[3], s[4], s[5], s[6], s[7]);
    assert(((b0 as u64) | ((b1 as u64) << 8u64) | ((b2 as u64) << 16u64) | ((b3 as u64) << 24u64)
        | ((b4 as u64) << 32u64) | ((b5 as u64) << 40u64) | ((b6 as u64) << 48u64)
        | ((b7 as u64) << 56u64)) == v) by (bit_vector)
        requires
            b0 == v as u8,
            b1 == (v >> 8u64) as u8,
            b2 == (v >> 16u64) as u8,
            b3 == (v >> 24u64) as u8,
            b4 == (v >> 32u64) as u8,
            b5 == (v >> 40u64) as u8,
            b6 == (v >> 48u64) as u8,
            b7 == (v >> 56u64) as u8,
    ;
}

/// Decoding the big-endian bytes of a `u128` gives it back.
pub proof fn lemma_be128_roundtrip(v: u128)
    ensures
        be128_bytes(v).len() == 16,
        be128_value(be128_bytes(v)) == v,
{
    let s = be128_bytes(v);
    let (b0, b1, b2, b3, b4, b5, b6, b7) = (s[0], s[1], s[2], s[3], s[4], s[5], s[6], s[7]);
    let (b8, b9, b10, b11, b12, b13, b14, b15) = (
        s[8],
        s[9],
        s[10],
        s[11],
        s[12],
        s[13],
        s[14],
        s[15],
    );
    assert((((b0 as u128) << 120u128) | ((b1 as u128) << 112u128) | ((b2 as u128) << 104u128)
        | ((b3 as u128) << 96u128) | ((b4 as u128) << 88u128) | ((b5 as u128) << 80u128)
        | ((b6 as u128) << 72u128) | ((b7 as u128) << 64u128) | ((b8 as u128) << 56u128)
        | ((b9 as u128) << 48u128) | ((b10 as u128) << 40u128) | ((b11 as u128) << 32u128)
        | ((b12 as u128) << 24u128) | ((b13 as u128) << 16u128) | ((b14 as u128) << 8u128)
        | (b15 as u128)) == v) by (bit_vector)
        requires
            b0 == (v >> 120u128) as u8,
            b1 == (v >> 112u128) as u8,
            b2 == (v >> 104u128) as u8,
            b3 == (v >> 96u128) as u8,
            b4 == (v >> 88u128) as u8,
            b5 == (v >> 80u128) as u8,
            b6 == (v >> 72u128) as u8,
            b7 == (v >> 64u128) as u8,
            b8 == (v >> 56u128) as u8,
            b9 == (v >> 48u128) as u8,
            b10 == (v >> 40u128) as u8,
            b11 == (v >> 32u128) as u8,
            b12 == (v >> 24u128) as u8,
            b13 == (v >> 16u128) as u8,
            b14 == (v >> 8u128) as u8,
            b15 == v as u8,
    ;
}

/// Reads a little-endian `u32` at `at` with `byteorder::LittleEndian::read_u32`,
/// which assembles the four bytes least significant first.
#[verifier::external_body]
pub(crate) fn read_le_u32(bytes: &[u8], at: usize) -> (r: u32)
    requires
        at + 4 <= bytes@.len(),
    ensures
        r == le32_value(bytes@.subrange(at as int, at + 4)),
{
    LittleEndian::read_u32(&bytes[at..at + 4])
}

/// Reads a little-endian `u64` at `at` with `byteorder::LittleEndian::read_u64`,
/// which assembles the eight bytes least significant first.
#[verifier::external_body]
pub(crate) fn read_le_u64(bytes: &[u8], at: usize) -> (r: u64)
    requires
        at + 8 <= bytes@.len(),
    ensures
        r == le64_value(bytes@.subrange(at as int, at + 8)),
{
    LittleEndian::read_u64(&bytes[at..at + 8])
}

/// Appends the little-endian bytes of `v`, produced by `byteorder::LittleEndian::write_u32`.
#[verifier::external_body]
pub(crate) fn push_le_u32(buf: &mut Vec<u8>, v: u32)
    ensures
        final(buf)@ == old(buf)@ + le32_bytes(v),
{
    let mut bytes = [0u8; 4];
    LittleEndian::write_u32(&mut bytes, v);
    buf.extend_from_slice(&bytes);
}

/// Appends the little-endian bytes of `v`, produced by `byteorder::LittleEndian::write_u64`.
#[verifier::external_body]
pub(crate) fn push_le_u64(buf: &mut Vec<u8>, v: u64)
    ensures
        final(buf)@ == old(buf)@ + le64_bytes(v),
{
    let mut bytes = [0u8; 8];
    LittleEndian::write_u64(&mut bytes, v);
    buf.extend_from_slice(&bytes);
}

/// Reads the sixteen bytes at `at` as a UUID with `uuid::Uuid::from_bytes` and returns
/// `Uuid::as_u128`, which packs the bytes most significant first.
#[verifier::external_body]
pub(crate) fn read_uuid(bytes: &[u8], at: usize) -> (r: u128)
    requires
        at + 16 <= bytes@.len(),
    ensures
        r == be128_value(bytes@.subrange(at as int, at + 16)),
{
    let mut raw = [0u8; 16];
    raw.copy_from_slice(&bytes[at..at + 16]);
    uuid::Uuid::from_bytes(raw).as_u128()
}

/// Appends `uuid::Uuid::from_u128(v).as_bytes()`, the bytes of `v` most significant first.
#[verifier::external_body]
pub(crate) fn push_uuid(buf: &mut Vec<u8>, v: u128)
    ensures
        final(buf)@ == old(buf)@ + be128_bytes(v),
{
    buf.extend_from_slice(uuid::Uuid::from_u128(v).as_bytes());
}

} // verus!
