//! Little-endian encoding of integers, through the `byteorder` crate.
//!
//! The meaning of each encoding is vstd's `spec_uN_to_le_bytes` /
//! `spec_uN_from_le_bytes`.

use vstd::prelude::*;
use vstd::bytes::{
    spec_u16_from_le_bytes, spec_u16_to_le_bytes, spec_u32_from_le_bytes, spec_u32_to_le_bytes,
    spec_u64_from_le_bytes, spec_u64_to_le_bytes,
};
use byteorder::{ByteOrder, LittleEndian};

verus! {

/// `byteorder::LittleEndian::write_u16`: the two little-endian bytes of `n`.
#[verifier::external_body]
pub(crate) fn le_u16(n: u16) -> (r: Vec<u8>)
    ensures
        r@ == spec_u16_to_le_bytes(n),
{
    let mut b = [0u8; 2];
    LittleEndian::write_u16(&mut b, n);
    b.to_vec()
}

/// `byteorder::LittleEndian::write_u32`: the four little-endian bytes of `n`.
#[verifier::external_body]
pub(crate) fn le_u32(n: u32) -> (r: Vec<u8>)
    ensures
        r@ == spec_u32_to_le_bytes(n),
{
    let mut b = [0u8; 4];
    LittleEndian::write_u32(&mut b, n);
    b.to_vec()
}

/// `byteorder::LittleEndian::write_i32`: the four little-endian bytes of the
/// two's complement of `n` (the crate writes `n as u32`).
#[verifier::external_body]
pub(crate) fn le_i32(n: i32) -> (r: Vec<u8>)
    ensures
        r@ == spec_u32_to_le_bytes(n as u32),
{
    let mut b = [0u8; 4];
    LittleEndian::write_i32(&mut b, n);
    b.to_vec()
}

/// `byteorder::LittleEndian::write_u64`: the eight little-endian bytes of `n`.
#[verifier::external_body]
pub(crate) fn le_u64(n: u64) -> (r: Vec<u8>)
    ensures
        r@ == spec_u64_to_le_bytes(n),
{
    let mut b = [0u8; 8];
    LittleEndian::write_u64(&mut b, n);
    b.to_vec()
}

/// `byteorder::LittleEndian::read_u16`: the number that the first two bytes
/// encode (the crate panics on a shorter buffer).
#[verifier::external_body]
pub(crate) fn read_le_u16(buf: &[u8]) -> (r: u16)
    requires
        buf@.len() >= 2,
    ensures
        r == spec_u16_from_le_bytes(buf@.subrange(0, 2)),
{
    LittleEndian::read_u16(buf)
}

/// `byteorder::LittleEndian::read_u32`: the number that the first four bytes
/// encode (the crate panics on a shorter buffer).
#[verifier::external_body]
pub(crate) fn read_le_u32(buf: &[u8]) -> (r: u32)
    requires
        buf@.len() >= 4,
    ensures
        r == spec_u32_from_le_bytes(buf@.subrange(0, 4)),
{
    LittleEndian::read_u32(buf)
}

/// `byteorder::LittleEndian::read_u64`: the number that the first eight bytes
/// encode (the crate panics on a shorter buffer).
#[verifier::external_body]
pub(crate) fn read_le_u64(buf: &[u8]) -> (r: u64)
    requires
        buf@.len() >= 8,
    ensures
        r == spec_u64_from_le_bytes(buf@.subrange(0, 8)),
{
    LittleEndian::read_u64(buf)
}

} // verus!
