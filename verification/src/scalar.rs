//! Real scalars carried as raw IEEE-754 bit patterns.
//!
//! Verified code in this crate never touches a floating-point number
//! directly: every real-valued quantity travels as the `u64` bit pattern of
//! an IEEE-754 double. The arithmetic is delegated to the hardware through
//! the trusted wrappers below.
//!
//! For a non-NaN result, an IEEE-754 operation in one rounding mode is a
//! pure function of the operand bit patterns. When an operation returns a
//! NaN, only the fact *that* it is a NaN is determined by the operands; the
//! NaN's bit pattern is not. Each operation's named result (`add_bits` and
//! so on) therefore stands for the operation with any NaN result
//! canonicalized to the quiet-NaN pattern — a genuine function of the
//! operand bits — and each exported operation canonicalizes accordingly, so
//! that `add_f(a, b) == add_bits(a, b)` holds on every input.

use bytes::{Buf, BufMut};
use vstd::prelude::*;

verus! {

/// Bit pattern of the IEEE-754 double zero.
pub const ZERO_BITS: u64 = 0;

/// Bit pattern of the IEEE-754 double one.
pub const ONE_BITS: u64 = 0x3FF0_0000_0000_0000;

/// Bit pattern of the IEEE-754 double negative one.
pub const NEG_ONE_BITS: u64 = 0xBFF0_0000_0000_0000;

/// Bit pattern of the IEEE-754 double one half.
pub const HALF_BITS: u64 = 0x3FE0_0000_0000_0000;

/// Bit pattern of the IEEE-754 double two.
pub const TWO_BITS: u64 = 0x4000_0000_0000_0000;

/// Bit pattern of the canonical quiet NaN.
pub const QNAN_BITS: u64 = 0x7FF8_0000_0000_0000;

/// Whether `x` encodes a NaN: exponent bits all ones and a nonzero
/// mantissa.
pub open spec fn is_nan_bits(x: u64) -> bool {
    (x >> 52) & 0x7FF == 0x7FF && x & 0x000F_FFFF_FFFF_FFFF != 0
}

/// `x` with a NaN encoding replaced by the canonical quiet NaN.
pub open spec fn spec_canon_nan(x: u64) -> u64 {
    if is_nan_bits(x) {
        QNAN_BITS
    } else {
        x
    }
}

/// Whether `x` encodes a NaN.
pub(crate) fn bits_is_nan(x: u64) -> (b: bool)
    ensures
        b == is_nan_bits(x),
{
    (x >> 52) & 0x7FF == 0x7FF && x & 0x000F_FFFF_FFFF_FFFF != 0
}

/// `x` with a NaN encoding replaced by the canonical quiet NaN.
fn canon_nan(x: u64) -> (r: u64)
    ensures
        r == spec_canon_nan(x),
{
    if (x >> 52) & 0x7FF == 0x7FF && x & 0x000F_FFFF_FFFF_FFFF != 0 {
        QNAN_BITS
    } else {
        x
    }
}

/// The bit pattern of the IEEE-754 sum of the doubles `a` and `b` encode,
/// with a NaN sum canonicalized to the quiet NaN.
pub uninterp spec fn add_bits(a: u64, b: u64) -> u64;

/// The bit pattern of the IEEE-754 difference of the doubles `a` and `b`
/// encode, with a NaN difference canonicalized to the quiet NaN.
pub uninterp spec fn sub_bits(a: u64, b: u64) -> u64;

/// The bit pattern of the IEEE-754 product of the doubles `a` and `b`
/// encode, with a NaN product canonicalized to the quiet NaN.
pub uninterp spec fn mul_bits(a: u64, b: u64) -> u64;

/// The bit pattern of the IEEE-754 quotient of the doubles `a` and `b`
/// encode, with a NaN quotient canonicalized to the quiet NaN.
pub uninterp spec fn div_bits(a: u64, b: u64) -> u64;

/// Whether the double `a` encodes compares strictly less than the double
/// `b` encodes.
pub uninterp spec fn lt_bits(a: u64, b: u64) -> bool;

/// Relies on `bytes::Buf::get_f64` and `bytes::BufMut::put_f64` to decode
/// and re-encode big-endian IEEE-754 doubles; the sum itself is the
/// built-in floating-point addition. Whether the sum is a NaN is a pure
/// function of the operand bits; which NaN pattern comes back is not, so
/// this raw wrapper promises only NaN-ness and non-NaN exactness against
/// the canonicalized name.
#[verifier::external_body]
fn add_f_raw(a: u64, b: u64) -> (r: u64)
    ensures
        !is_nan_bits(add_bits(a, b)) ==> r == add_bits(a, b),
        is_nan_bits(add_bits(a, b)) ==> is_nan_bits(r),
        is_nan_bits(r) ==> add_bits(a, b) == QNAN_BITS,
{
    let ab = a.to_be_bytes();
    let bb = b.to_be_bytes();
    let x = (&ab[..]).get_f64();
    let y = (&bb[..]).get_f64();
    let mut out = [0u8; 8];
    let mut dst = &mut out[..];
    dst.put_f64(x + y);
    u64::from_be_bytes(out)
}

/// The IEEE-754 sum, with a NaN result canonicalized to the quiet NaN: a
/// pure function of the operand bit patterns.
pub(crate) fn add_f(a: u64, b: u64) -> (r: u64)
    ensures
        r == add_bits(a, b),
{
    canon_nan(add_f_raw(a, b))
}

/// Relies on `bytes::Buf::get_f64` and `bytes::BufMut::put_f64` to decode
/// and re-encode big-endian IEEE-754 doubles; the difference itself is the
/// built-in floating-point subtraction, promised only up to NaN patterns as
/// for the sum.
#[verifier::external_body]
fn sub_f_raw(a: u64, b: u64) -> (r: u64)
    ensures
        !is_nan_bits(sub_bits(a, b)) ==> r == sub_bits(a, b),
        is_nan_bits(sub_bits(a, b)) ==> is_nan_bits(r),
        is_nan_bits(r) ==> sub_bits(a, b) == QNAN_BITS,
{
    let ab = a.to_be_bytes();
    let bb = b.to_be_bytes();
    let x = (&ab[..]).get_f64();
    let y = (&bb[..]).get_f64();
    let mut out = [0u8; 8];
    let mut dst = &mut out[..];
    dst.put_f64(x - y);
    u64::from_be_bytes(out)
}

/// The IEEE-754 difference, with a NaN result canonicalized to the quiet
/// NaN: a pure function of the operand bit patterns.
pub(crate) fn sub_f(a: u64, b: u64) -> (r: u64)
    ensures
        r == sub_bits(a, b),
{
    canon_nan(sub_f_raw(a, b))
}

/// Relies on `bytes::Buf::get_f64` and `bytes::BufMut::put_f64` to decode
/// and re-encode big-endian IEEE-754 doubles; the product itself is the
/// built-in floating-point multiplication, promised only up to NaN patterns
/// as for the sum.
#[verifier::external_body]
fn mul_f_raw(a: u64, b: u64) -> (r: u64)
    ensures
        !is_nan_bits(mul_bits(a, b)) ==> r == mul_bits(a, b),
        is_nan_bits(mul_bits(a, b)) ==> is_nan_bits(r),
        is_nan_bits(r) ==> mul_bits(a, b) == QNAN_BITS,
{
    let ab = a.to_be_bytes();
    let bb = b.to_be_bytes();
    let x = (&ab[..]).get_f64();
    let y = (&bb[..]).get_f64();
    let mut out = [0u8; 8];
    let mut dst = &mut out[..];
    dst.put_f64(x * y);
    u64::from_be_bytes(out)
}

/// The IEEE-754 product, with a NaN result canonicalized to the quiet NaN:
/// a pure function of the operand bit patterns.
pub(crate) fn mul_f(a: u64, b: u64) -> (r: u64)
    ensures
        r == mul_bits(a, b),
{
    canon_nan(mul_f_raw(a, b))
}

/// Relies on `bytes::Buf::get_f64` and `bytes::BufMut::put_f64` to decode
/// and re-encode big-endian IEEE-754 doubles; the quotient itself is the
/// built-in floating-point division, promised only up to NaN patterns as
/// for the sum.
#[verifier::external_body]
fn div_f_raw(a: u64, b: u64) -> (r: u64)
    ensures
        !is_nan_bits(div_bits(a, b)) ==> r == div_bits(a, b),
        is_nan_bits(div_bits(a, b)) ==> is_nan_bits(r),
        is_nan_bits(r) ==> div_bits(a, b) == QNAN_BITS,
{
    let ab = a.to_be_bytes();
    let bb = b.to_be_bytes();
    let x = (&ab[..]).get_f64();
    let y = (&bb[..]).get_f64();
    let mut out = [0u8; 8];
    let mut dst = &mut out[..];
    dst.put_f64(x / y);
    u64::from_be_bytes(out)
}

/// The IEEE-754 quotient, with a NaN result canonicalized to the quiet NaN:
/// a pure function of the operand bit patterns.
pub(crate) fn div_f(a: u64, b: u64) -> (r: u64)
    ensures
        r == div_bits(a, b),
{
    canon_nan(div_f_raw(a, b))
}

/// Relies on `bytes::Buf::get_f64` to decode big-endian IEEE-754 doubles;
/// the comparison itself is the built-in floating-point strict-less-than, a
/// pure function of the two operand bit patterns (a NaN operand compares
/// false, and no bit pattern is produced).
#[verifier::external_body]
pub(crate) fn lt_f(a: u64, b: u64) -> (r: bool)
    ensures
        r == lt_bits(a, b),
{
    let ab = a.to_be_bytes();
    let bb = b.to_be_bytes();
    let x = (&ab[..]).get_f64();
    let y = (&bb[..]).get_f64();
    x < y
}

} // verus!
