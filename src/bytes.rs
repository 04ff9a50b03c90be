//! Little-endian integers in byte strings.
use vstd::prelude::*;

use byteorder::ByteOrder;

verus! {

/// The unsigned 16-bit little-endian integer at the start of `b`.
pub open spec fn le_u16(b: Seq<u8>) -> int {
    b[0] + 256 * b[1]
}

/// The signed (two's complement) 16-bit little-endian integer at the start of `b`.
pub open spec fn le_i16(b: Seq<u8>) -> int {
    if le_u16(b) >= 32768 {
        le_u16(b) - 65536
    } else {
        le_u16(b)
    }
}

/// The unsigned 32-bit little-endian integer at the start of `b`.
pub open spec fn le_u32(b: Seq<u8>) -> int {
    b[0] + 256 * b[1] + 65536 * b[2] + 16777216 * b[3]
}

/// Relies on byteorder's `LittleEndian::read_u16`: the first two bytes, least
/// significant first; it panics on fewer than two bytes.
#[verifier::external_body]
pub fn read_u16_le(buf: &[u8]) -> (r: u16)
    requires
        buf@.len() >= 2,
    ensures
        r == le_u16(buf@),
{
    byteorder::LittleEndian::read_u16(buf)
}

/// Relies on byteorder's `LittleEndian::read_i16`: the first two bytes, least
/// significant first, as two's complement; it panics on fewer than two bytes.
#[verifier::external_body]
pub fn read_i16_le(buf: &[u8]) -> (r: i16)
    requires
        buf@.len() >= 2,
    ensures
        r == le_i16(buf@),
{
    byteorder::LittleEndian::read_i16(buf)
}

/// Relies on byteorder's `LittleEndian::read_u32`: the first four bytes, least
/// significant first; it panics on fewer than four bytes.
#[verifier::external_body]
pub fn read_u32_le(buf: &[u8]) -> (r: u32)
    requires
        buf@.len() >= 4,
    ensures
        r == le_u32(buf@),
{
    byteorder::LittleEndian::read_u32(buf)
}

} // verus!
