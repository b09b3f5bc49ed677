//! Shared primitives of the wire layout.  All fixed-width integers are
//! little-endian; variable-length strings carry a 4-byte length prefix and are
//! UTF-8; fixed-size byte arrays are copied verbatim.

use vstd::bytes::{
    lemma_auto_spec_u32_to_from_le_bytes, lemma_auto_spec_u64_to_from_le_bytes,
    spec_u32_from_le_bytes, spec_u32_to_le_bytes, spec_u64_from_le_bytes,
    spec_u64_to_le_bytes, u32_from_le_bytes, u32_to_le_bytes, u64_from_le_bytes,
    u64_to_le_bytes,
};
use vstd::prelude::*;
use vstd::slice::slice_subrange;

verus! {

/// Upper bound in bytes on each length-prefixed string field, so that every
/// offset in a record fits comfortably in a 32-bit `usize`.
pub const MAX_STRING_FIELD_BYTES: usize = 0x00ff_ffff;

/// Little-endian image of a signed 64-bit value, as its two's-complement bits.
pub open spec fn i64_le_bytes(x: i64) -> Seq<u8> {
    spec_u64_to_le_bytes(x as u64)
}

/// Little-endian image of an unsigned 32-bit value.
pub open spec fn u32_le_bytes(x: u32) -> Seq<u8> {
    spec_u32_to_le_bytes(x)
}

/// The signed 64-bit value read from 8 little-endian bytes.
pub open spec fn i64_from_le(s: Seq<u8>) -> i64 {
    spec_u64_from_le_bytes(s) as i64
}

/// A signed value survives the round trip through its unsigned bit image.
pub proof fn lemma_i64_le_round_trip(x: i64)
    ensures
        i64_le_bytes(x).len() == 8,
        i64_from_le(i64_le_bytes(x)) == x,
{
    lemma_auto_spec_u64_to_from_le_bytes();
    assert(spec_u64_to_le_bytes(x as u64).len() == 8);
    assert(x as u64 as i64 == x) by (bit_vector);
}

/// An unsigned 32-bit value survives the round trip through its bytes.
pub proof fn lemma_u32_le_round_trip(x: u32)
    ensures
        u32_le_bytes(x).len() == 4,
        spec_u32_from_le_bytes(u32_le_bytes(x)) == x,
{
    lemma_auto_spec_u32_to_from_le_bytes();
    assert(spec_u32_to_le_bytes(x).len() == 4);
}

/// Appends the little-endian bytes of `x`.
pub fn push_u32_le(out: &mut Vec<u8>, x: u32)
    ensures
        final(out)@ == old(out)@ + u32_le_bytes(x),
{
    let mut piece = u32_to_le_bytes(x);
    out.append(&mut piece);
}

/// Appends the little-endian two's-complement bytes of `x`.
pub fn push_i64_le(out: &mut Vec<u8>, x: i64)
    ensures
        final(out)@ == old(out)@ + i64_le_bytes(x),
{
    let mut piece = u64_to_le_bytes(x as u64);
    out.append(&mut piece);
}

/// Reads the unsigned 32-bit value at `off`.
pub fn read_u32_le(b: &[u8], off: usize) -> (r: u32)
    requires
        off + 4 <= b@.len(),
    ensures
        r == spec_u32_from_le_bytes(b@.subrange(off as int, off + 4)),
{
    // Pins the slice's length as a `usize`, so `off + 4` cannot overflow.
    let _n = b.len();
    let piece = slice_subrange(b, off, off + 4);
    u32_from_le_bytes(piece)
}

/// Reads the signed 64-bit value at `off`.
pub fn read_i64_le(b: &[u8], off: usize) -> (r: i64)
    requires
        off + 8 <= b@.len(),
    ensures
        r == i64_from_le(b@.subrange(off as int, off + 8)),
{
    // Pins the slice's length as a `usize`, so `off + 8` cannot overflow.
    let _n = b.len();
    let piece = slice_subrange(b, off, off + 8);
    let u = u64_from_le_bytes(piece);
    #[verifier::truncate]
    let r = u as i64;
    r
}

} // verus!
