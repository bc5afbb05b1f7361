//! Little-endian integers in byte sequences.

use byteorder::ByteOrder;
use byteorder::LittleEndian;
use vstd::prelude::*;

verus! {

/// The 16-bit value whose low byte is `lo` and whose high byte is `hi`.
pub open spec fn word(lo: u8, hi: u8) -> u16 {
    (lo as int + 256 * (hi as int)) as u16
}

/// The low byte of `w`.
pub open spec fn lo_byte(w: u16) -> u8 {
    (w % 256) as u8
}

/// The high byte of `w`.
pub open spec fn hi_byte(w: u16) -> u8 {
    (w / 256) as u8
}

/// The value of the first two bytes of `b`, read as a little-endian `u16`.
pub open spec fn le_u16(b: Seq<u8>) -> u16
    recommends
        b.len() >= 2,
{
    word(b[0], b[1])
}

/// The value of the first four bytes of `b`, read as a little-endian `u32`.
pub open spec fn le_u32(b: Seq<u8>) -> u32
    recommends
        b.len() >= 4,
{
    (b[0] as int + 256 * (b[1] as int) + 65536 * (b[2] as int) + 16777216 * (b[3] as int)) as u32
}

/// The four bytes that hold `v` in little-endian order.
pub open spec fn u32_le_bytes(v: u32) -> Seq<u8> {
    seq![
        (v % 256) as u8,
        (v / 256 % 256) as u8,
        (v / 65536 % 256) as u8,
        (v / 16777216) as u8,
    ]
}

/// Reading back what [`u32_le_bytes`] wrote gives the value written, whatever
/// follows the four bytes.
pub proof fn lemma_le_u32_roundtrip(v: u32, rest: Seq<u8>)
    ensures
        u32_le_bytes(v).len() == 4,
        le_u32(u32_le_bytes(v) + rest) == v,
{
    let b = u32_le_bytes(v) + rest;
    assert(b[0] == (v % 256) as u8);
    assert(b[1] == (v / 256 % 256) as u8);
    assert(b[2] == (v / 65536 % 256) as u8);
    assert(b[3] == (v / 16777216) as u8);
}

/// Builds a 16-bit value from its two bytes.
pub fn make_word(lo: u8, hi: u8) -> (w: u16)
    ensures
        w == word(lo, hi),
        lo_byte(w) == lo,
        hi_byte(w) == hi,
{
    lo as u16 + 256 * (hi as u16)
}

/// The low byte of `w`.
pub fn low(w: u16) -> (b: u8)
    ensures
        b == lo_byte(w),
{
    (w % 256) as u8
}

/// The high byte of `w`.
pub fn high(w: u16) -> (b: u8)
    ensures
        b == hi_byte(w),
{
    (w / 256) as u8
}

/// `byteorder::LittleEndian::read_u16`: the first two bytes of `buf` taken as
/// a little-endian number. The outside function panics on a shorter buffer,
/// which the precondition rules out.
#[verifier::external_body]
pub(crate) fn read_le_u16(buf: &[u8]) -> (v: u16)
    requires
        buf@.len() >= 2,
    ensures
        v == le_u16(buf@),
{
    LittleEndian::read_u16(buf)
}

/// `byteorder::LittleEndian::read_u32`: the first four bytes of `buf` taken
/// as a little-endian number. The outside function panics on a shorter
/// buffer, which the precondition rules out.
#[verifier::external_body]
pub(crate) fn read_le_u32(buf: &[u8]) -> (v: u32)
    requires
        buf@.len() >= 4,
    ensures
        v == le_u32(buf@),
{
    LittleEndian::read_u32(buf)
}

/// The four bytes that hold `v`, lowest first.
pub fn u32_to_le(v: u32) -> (b: [u8; 4])
    ensures
        b@ == u32_le_bytes(v),
{
    let b = [(v % 256) as u8, (v / 256 % 256) as u8, (v / 65536 % 256) as u8, (v / 16777216) as u8];
    assert(b@ =~= u32_le_bytes(v));
    b
}

/// The little-endian number in the four bytes of `data` from `at` on.
pub fn le_u32_at(data: &[u8], at: usize) -> (v: u32)
    requires
        at + 4 <= data.len(),
    ensures
        v == le_u32(data@.subrange(at as int, at + 4)),
{
    data[at] as u32 + 256 * (data[at + 1] as u32) + 65536 * (data[at + 2] as u32) + 16777216 * (
    data[at + 3] as u32)
}

} // verus!
