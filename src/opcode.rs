//! Bit-field helpers for two-byte instructions.
use vstd::prelude::*;

verus! {

/// Joins the two bytes of an instruction into its 16-bit encoding.
pub fn build_opcode(upper: u8, lower: u8) -> (r: u16)
    ensures
        r == upper as int * 256 + lower as int,
{
    let r = (upper as u16) << 8u16 | (lower as u16);
    assert(((upper as u16) << 8u16 | (lower as u16)) == (upper as u16) * 256u16 + (lower as u16))
        by (bit_vector);
    r
}

/// The 12-bit address field `nnn`: the low nibble of the first byte and all of the second.
pub fn extract_address(upper: u8, lower: u8) -> (r: usize)
    ensures
        r == (upper % 16) as int * 256 + lower as int,
        r < 4096,
{
    let lo = extract_lower(upper);
    build_opcode(lo, lower) as usize
}

/// The low nibble of a byte.
pub fn extract_lower(byte: u8) -> (r: u8)
    ensures
        r == byte % 16,
{
    let r = byte & 0x0f;
    assert(byte & 0x0fu8 == byte % 16) by (bit_vector);
    r
}

/// The high nibble of a byte, left in place.
pub fn extract_upper(byte: u8) -> (r: u8)
    ensures
        r == byte - byte % 16,
        r / 16 == byte / 16,
{
    let r = byte & 0xf0;
    assert(byte & 0xf0u8 == byte - byte % 16) by (bit_vector);
    r
}

/// The address of the instruction that follows the one at `pc`.
pub fn next(pc: usize) -> (r: usize)
    requires
        pc + 2 <= usize::MAX,
    ensures
        r == pc + 2,
{
    pc + 2
}

} // verus!
