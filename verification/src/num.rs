//! The numeric domain of the language: IEEE-754 double-precision values,
//! carried as their 64-bit encodings.
//!
//! Verification does not reason about floating-point arithmetic itself.
//! Every value is a `u64` bit pattern; each arithmetic primitive is either
//! a pure bit manipulation (negation, absolute value, the sign and NaN
//! tests, which IEEE-754 defines directly on the encoding) or a call into
//! an outside soft-float library behind a trusted wrapper whose result is
//! named by an uninterpreted function of the operand bits.

use rustc_apfloat::Float;
use vstd::prelude::*;

verus! {

/// Sign bit of a double-precision encoding.
pub const SIGN_BIT: u64 = 0x8000_0000_0000_0000;
/// Exponent field of a double-precision encoding.
pub const EXP_MASK: u64 = 0x7FF0_0000_0000_0000;
/// Fraction field of a double-precision encoding.
pub const FRAC_MASK: u64 = 0x000F_FFFF_FFFF_FFFF;

/// Encoding of `+0.0`.
pub const ZERO_BITS: u64 = 0;
/// Encoding of `1.0`, the identity of the running product.
pub const ONE_BITS: u64 = 0x3FF0_0000_0000_0000;
/// Encoding of the double nearest to pi.
pub const PI_BITS: u64 = 0x4009_21FB_5444_2D18;
/// Encoding of the double nearest to tau (two pi).
pub const TAU_BITS: u64 = 0x4019_21FB_5444_2D18;
/// Encoding of the double nearest to Euler's number.
pub const E_BITS: u64 = 0x4005_BF0A_8B14_5769;

/// IEEE-754 addition, round to nearest, ties to even.
pub uninterp spec fn add_bits(a: u64, b: u64) -> u64;

/// IEEE-754 subtraction, round to nearest, ties to even.
pub uninterp spec fn sub_bits(a: u64, b: u64) -> u64;

/// IEEE-754 multiplication, round to nearest, ties to even.
pub uninterp spec fn mul_bits(a: u64, b: u64) -> u64;

/// IEEE-754 division, round to nearest, ties to even.
pub uninterp spec fn div_bits(a: u64, b: u64) -> u64;

/// C `fmod`: the remainder of truncating division, exact by construction.
pub uninterp spec fn fmod_bits(a: u64, b: u64) -> u64;

/// Real-valued exponentiation `a^b` as `pow` computes it.
pub uninterp spec fn pow_bits(a: u64, b: u64) -> u64;

/// The sine of the encoded value.
pub uninterp spec fn sin_bits(x: u64) -> u64;

/// The cosine of the encoded value.
pub uninterp spec fn cos_bits(x: u64) -> u64;

/// The largest integral value not above the encoded value.
pub uninterp spec fn floor_bits(x: u64) -> u64;

/// The smallest integral value not below the encoded value.
pub uninterp spec fn ceil_bits(x: u64) -> u64;

/// IEEE-754 minNum: the smaller operand, or the other one if one is NaN.
pub uninterp spec fn min_bits(a: u64, b: u64) -> u64;

/// IEEE-754 maxNum: the larger operand, or the other one if one is NaN.
pub uninterp spec fn max_bits(a: u64, b: u64) -> u64;

/// The double nearest to the decimal numeral `s` (digits, at most one dot).
pub uninterp spec fn lit_bits(s: Seq<u8>) -> u64;

/// The double nearest to the integer `i`.
pub uninterp spec fn int_bits(i: int) -> u64;

/// The encoded value rounded to the nearest integer, ties away from zero,
/// then clamped to the signed 64-bit range; NaN becomes zero.
pub uninterp spec fn round_int_bits(x: u64) -> int;

/// Negation flips the sign bit of the encoding, NaN included.
pub open spec fn neg_bits(x: u64) -> u64 {
    x ^ SIGN_BIT
}

/// Absolute value clears the sign bit of the encoding, NaN included.
pub open spec fn abs_bits(x: u64) -> u64 {
    x & (EXP_MASK | FRAC_MASK)
}

/// An encoding is NaN when its exponent field is all ones and its
/// fraction field is not zero.
pub open spec fn is_nan_bits(x: u64) -> bool {
    x & EXP_MASK == EXP_MASK && x & FRAC_MASK != 0
}

/// The encoded value compares strictly below zero: the sign bit is set
/// and the value is neither NaN nor negative zero.
pub open spec fn lt_zero_bits(x: u64) -> bool {
    x & SIGN_BIT == SIGN_BIT && !is_nan_bits(x) && x != SIGN_BIT
}

/// Euclidean remainder, derived from `fmod` exactly as the standard
/// library derives it: shift a negative remainder up by `|b|`.
pub open spec fn rem_euclid_bits(a: u64, b: u64) -> u64 {
    let r = fmod_bits(a, b);
    if lt_zero_bits(r) {
        add_bits(r, abs_bits(b))
    } else {
        r
    }
}

/// A decimal digit byte.
pub open spec fn is_digit(b: u8) -> bool {
    48 <= b <= 57
}

/// The shape of a numeric literal: digits with at most one interior dot,
/// beginning and ending with a digit.
pub open spec fn is_number_literal(s: Seq<u8>) -> bool {
    &&& s.len() > 0
    &&& is_digit(s.first())
    &&& is_digit(s.last())
    &&& (forall|i: int| 0 <= i < s.len() ==> (is_digit(#[trigger] s[i]) || s[i] == 46))
    &&& dots_from(s, 0) <= 1
}

/// How many dot bytes stand at `i` or later.
pub open spec fn dots_from(s: Seq<u8>, i: int) -> nat
    decreases s.len() - i,
{
    if 0 <= i < s.len() {
        (if s[i] == 46 {
            1 as nat
        } else {
            0 as nat
        }) + dots_from(s, i + 1)
    } else {
        0
    }
}

/// The executable test for the shape of a numeric literal.
pub fn number_literal_exec(s: &Vec<u8>) -> (r: bool)
    ensures
        r == is_number_literal(s@),
{
    let n = s.len();
    if n == 0 {
        return false;
    }
    if !(48 <= s[0] && s[0] <= 57) {
        return false;
    }
    if !(48 <= s[n - 1] && s[n - 1] <= 57) {
        return false;
    }
    let mut dots: usize = 0;
    let mut k: usize = 0;
    while k < n
        invariant
            k <= n == s@.len(),
            dots <= k,
            dots_from(s@, 0) == dots + dots_from(s@, k as int),
            forall|j: int| 0 <= j < k ==> (is_digit(#[trigger] s@[j]) || s@[j] == 46),
        decreases n - k,
    {
        let b = s[k];
        if b == 46 {
            dots = dots + 1;
        } else if !(48 <= b && b <= 57) {
            return false;
        }
        k = k + 1;
    }
    dots <= 1
}

/// Relies on rustc_apfloat's `Double` addition: IEEE-754 double addition,
/// round to nearest, ties to even.
#[verifier::external_body]
pub(crate) fn add_exec(a: u64, b: u64) -> (r: u64)
    ensures
        r == add_bits(a, b),
{
    let x = rustc_apfloat::ieee::Double::from_bits(a as u128);
    let y = rustc_apfloat::ieee::Double::from_bits(b as u128);
    (x + y).value.to_bits() as u64
}

/// Relies on rustc_apfloat's `Double` subtraction: IEEE-754 double
/// subtraction, round to nearest, ties to even.
#[verifier::external_body]
pub(crate) fn sub_exec(a: u64, b: u64) -> (r: u64)
    ensures
        r == sub_bits(a, b),
{
    let x = rustc_apfloat::ieee::Double::from_bits(a as u128);
    let y = rustc_apfloat::ieee::Double::from_bits(b as u128);
    (x - y).value.to_bits() as u64
}

/// Relies on rustc_apfloat's `Double` multiplication: IEEE-754 double
/// multiplication, round to nearest, ties to even.
#[verifier::external_body]
pub(crate) fn mul_exec(a: u64, b: u64) -> (r: u64)
    ensures
        r == mul_bits(a, b),
{
    let x = rustc_apfloat::ieee::Double::from_bits(a as u128);
    let y = rustc_apfloat::ieee::Double::from_bits(b as u128);
    (x * y).value.to_bits() as u64
}

/// Relies on rustc_apfloat's `Double` division: IEEE-754 double division,
/// round to nearest, ties to even.
#[verifier::external_body]
pub(crate) fn div_exec(a: u64, b: u64) -> (r: u64)
    ensures
        r == div_bits(a, b),
{
    let x = rustc_apfloat::ieee::Double::from_bits(a as u128);
    let y = rustc_apfloat::ieee::Double::from_bits(b as u128);
    (x / y).value.to_bits() as u64
}

/// Relies on libm's `fmod`: the C remainder of truncating division.
#[verifier::external_body]
pub(crate) fn fmod_exec(a: u64, b: u64) -> (r: u64)
    ensures
        r == fmod_bits(a, b),
{
    bytemuck::cast(libm::fmod(bytemuck::cast(a), bytemuck::cast(b)))
}

/// Relies on libm's `pow`: real-valued exponentiation.
#[verifier::external_body]
pub(crate) fn pow_exec(a: u64, b: u64) -> (r: u64)
    ensures
        r == pow_bits(a, b),
{
    bytemuck::cast(libm::pow(bytemuck::cast(a), bytemuck::cast(b)))
}

/// Relies on libm's `sin`: the result depends on the operand bits alone.
#[verifier::external_body]
pub(crate) fn sin_exec(x: u64) -> (r: u64)
    ensures
        r == sin_bits(x),
{
    bytemuck::cast(libm::sin(bytemuck::cast(x)))
}

/// Relies on libm's `cos`: the result depends on the operand bits alone.
#[verifier::external_body]
pub(crate) fn cos_exec(x: u64) -> (r: u64)
    ensures
        r == cos_bits(x),
{
    bytemuck::cast(libm::cos(bytemuck::cast(x)))
}

/// Relies on libm's `floor`: rounding toward negative infinity.
#[verifier::external_body]
pub(crate) fn floor_exec(x: u64) -> (r: u64)
    ensures
        r == floor_bits(x),
{
    bytemuck::cast(libm::floor(bytemuck::cast(x)))
}

/// Relies on libm's `ceil`: rounding toward positive infinity.
#[verifier::external_body]
pub(crate) fn ceil_exec(x: u64) -> (r: u64)
    ensures
        r == ceil_bits(x),
{
    bytemuck::cast(libm::ceil(bytemuck::cast(x)))
}

/// Relies on libm's `fmin`: IEEE-754 minNum.
#[verifier::external_body]
pub(crate) fn min_exec(a: u64, b: u64) -> (r: u64)
    ensures
        r == min_bits(a, b),
{
    bytemuck::cast(libm::fmin(bytemuck::cast(a), bytemuck::cast(b)))
}

/// Relies on libm's `fmax`: IEEE-754 maxNum.
#[verifier::external_body]
pub(crate) fn max_exec(a: u64, b: u64) -> (r: u64)
    ensures
        r == max_bits(a, b),
{
    bytemuck::cast(libm::fmax(bytemuck::cast(a), bytemuck::cast(b)))
}

/// Relies on rustc_apfloat's decimal conversion: the double nearest to the
/// numeral, round to nearest, ties to even, as `from_str` computes it.
/// The shape required below is always accepted, so neither call fails.
#[verifier::external_body]
pub(crate) fn lit_exec(s: &Vec<u8>) -> (r: u64)
    requires
        is_number_literal(s@),
    ensures
        r == lit_bits(s@),
{
    let text = core::str::from_utf8(s).unwrap();
    let value: rustc_apfloat::ieee::Double = text.parse().unwrap();
    value.to_bits() as u64
}

/// Relies on rustc_apfloat's integer conversion: the double nearest to `i`.
#[verifier::external_body]
pub(crate) fn int_exec(i: i64) -> (r: u64)
    ensures
        r == int_bits(i as int),
{
    rustc_apfloat::ieee::Double::from_i128(i as i128).value.to_bits() as u64
}

/// Relies on rustc_apfloat's integer conversion, entering by its
/// unsigned form: the double nearest to the count `n`.
#[verifier::external_body]
pub(crate) fn usize_bits_exec(n: usize) -> (r: u64)
    ensures
        r == int_bits(n as int),
{
    rustc_apfloat::ieee::Double::from_u128(n as u128).value.to_bits() as u64
}

/// Relies on rustc_apfloat's conversion to integer: round to nearest, ties
/// away from zero, clamped to the 64-bit signed range, zero for NaN.
#[verifier::external_body]
pub(crate) fn round_int_exec(x: u64) -> (r: i64)
    ensures
        r as int == round_int_bits(x),
{
    let d = rustc_apfloat::ieee::Double::from_bits(x as u128);
    let mut exact = false;
    d.to_i128_r(64, rustc_apfloat::Round::NearestTiesToAway, &mut exact).value as i64
}

/// Negation as a bit manipulation: flip the sign bit.
pub fn neg_exec(x: u64) -> (r: u64)
    ensures
        r == neg_bits(x),
{
    x ^ SIGN_BIT
}

/// Absolute value as a bit manipulation: clear the sign bit.
pub fn abs_exec(x: u64) -> (r: u64)
    ensures
        r == abs_bits(x),
{
    x & (EXP_MASK | FRAC_MASK)
}

/// The executable strictly-below-zero test on the encoding.
pub fn lt_zero_exec(x: u64) -> (r: bool)
    ensures
        r == lt_zero_bits(x),
{
    x & SIGN_BIT == SIGN_BIT && !(x & EXP_MASK == EXP_MASK && x & FRAC_MASK != 0) && x != SIGN_BIT
}

/// Euclidean remainder, the standard library's derivation from `fmod`.
pub fn rem_euclid_exec(a: u64, b: u64) -> (r: u64)
    ensures
        r == rem_euclid_bits(a, b),
{
    let r = fmod_exec(a, b);
    if lt_zero_exec(r) {
        add_exec(r, abs_exec(b))
    } else {
        r
    }
}

} // verus!
