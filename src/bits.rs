//! Bit-level access to register values, through the `bit_field` crate.
use bit_field::BitField;
use vstd::prelude::*;

verus! {

/// The `len` lowest bits of a 64-bit word.
pub open spec fn low_mask_u64(len: u64) -> u64 {
    if len >= 64 {
        0xFFFF_FFFF_FFFF_FFFFu64
    } else {
        ((1u64 << len) - 1) as u64
    }
}

/// The `len` lowest bits of a 32-bit word.
pub open spec fn low_mask_u32(len: u32) -> u32 {
    if len >= 32 {
        0xFFFF_FFFFu32
    } else {
        ((1u32 << len) - 1) as u32
    }
}

/// Whether bit `bit` of `x` is set.
pub open spec fn bit_of(x: u32, bit: u32) -> bool {
    x & (1u32 << bit) != 0
}

/// `x` with bit `bit` set to `value`.
pub open spec fn with_bit(x: u32, bit: u32, value: bool) -> u32 {
    if value {
        x | (1u32 << bit)
    } else {
        x & !(1u32 << bit)
    }
}

/// `x` with its bits `lo .. hi` replaced by `value`.
pub open spec fn with_field(x: u32, lo: u32, hi: u32, value: u32) -> u32 {
    (x & !(low_mask_u32((hi - lo) as u32) << lo)) | (value << lo)
}

/// `x` with its bits `lo .. hi` replaced by `value` (64-bit words).
pub open spec fn with_field_u64(x: u64, lo: u64, hi: u64, value: u64) -> u64 {
    (x & !(low_mask_u64((hi - lo) as u64) << lo)) | (value << lo)
}

/// The bits `lo .. hi` of `x`, moved down to bit 0.
pub open spec fn field_of_u64(x: u64, lo: u64, hi: u64) -> u64 {
    (x >> lo) & low_mask_u64((hi - lo) as u64)
}

/// Relies on `BitField::get_bit` for `u32`: whether one bit is set; it panics for a bit past 31.
#[verifier::external_body]
pub fn u32_get_bit(x: u32, bit: usize) -> (r: bool)
    requires
        bit < 32,
    ensures
        r == bit_of(x, bit as u32),
{
    x.get_bit(bit)
}

/// Relies on `BitField::set_bit` for `u32`: sets or clears one bit; it panics for a bit past 31.
#[verifier::external_body]
pub fn u32_set_bit(x: u32, bit: usize, value: bool) -> (r: u32)
    requires
        bit < 32,
    ensures
        r == with_bit(x, bit as u32, value),
{
    let mut x = x;
    x.set_bit(bit, value);
    x
}

/// Relies on `BitField::set_bits` for `u32`: replaces the bits of a non-empty range with a value
/// that fits in it; it panics on a range past bit 32 or a value that does not fit.
#[verifier::external_body]
pub fn u32_set_bits(x: u32, lo: usize, hi: usize, value: u32) -> (r: u32)
    requires
        lo < hi <= 32,
        value <= low_mask_u32((hi - lo) as u32),
    ensures
        r == with_field(x, lo as u32, hi as u32, value),
{
    let mut x = x;
    x.set_bits(lo..hi, value);
    x
}

/// Relies on `BitField::get_bits` for `u64`: the bits of a non-empty range, moved down to bit 0;
/// it panics on a range past bit 63.
#[verifier::external_body]
pub fn u64_get_bits(x: u64, lo: usize, hi: usize) -> (r: u64)
    requires
        lo < hi <= 64,
    ensures
        r == field_of_u64(x, lo as u64, hi as u64),
{
    x.get_bits(lo..hi)
}

/// Relies on `BitField::set_bits` for `u64`: replaces the bits of a non-empty range with a value
/// that fits in it; it panics on a range past bit 63 or a value that does not fit.
#[verifier::external_body]
pub fn u64_set_bits(x: u64, lo: usize, hi: usize, value: u64) -> (r: u64)
    requires
        lo < hi <= 64,
        value <= low_mask_u64((hi - lo) as u64),
    ensures
        r == with_field_u64(x, lo as u64, hi as u64, value),
{
    let mut x = x;
    x.set_bits(lo..hi, value);
    x
}

} // verus!
