//! 32-bit IEEE-754 arithmetic over bit patterns.
//!
//! Every numeric value the pipeline computes with — normalized pixels,
//! tensor elements, raw model output, embedding coordinates — is a
//! 32-bit IEEE-754 single-precision number carried as its bit pattern
//! in a `u32`.  The arithmetic itself is done by `rustc_apfloat`, a
//! software implementation of the standard: given the same operand
//! bits it returns the same result bits in every process and on every
//! machine, so each operation is named below by an uninterpreted
//! function of the operand bits, and contracts all the way up to the
//! embedding vectors are stated in terms of those names.
//!
//! The square root, which `rustc_apfloat` does not offer, is verified
//! code: a binary search over bit patterns (positive finite IEEE
//! values order the same way as their bit patterns) against the named
//! multiplication.

use vstd::prelude::*;

use rustc_apfloat::Float;

verus! {

/// Bit pattern of positive infinity.  Every pattern below it has sign
/// zero and a finite value; patterns at or above it are infinities,
/// NaNs or negative.
pub const INFINITY_BITS: u32 = 0x7F80_0000;

/// The sum of the two values, rounded to nearest, ties to even.
pub uninterp spec fn add_bits(a: u32, b: u32) -> u32;

/// The difference of the two values, rounded to nearest, ties to even.
pub uninterp spec fn sub_bits(a: u32, b: u32) -> u32;

/// The product of the two values, rounded to nearest, ties to even.
pub uninterp spec fn mul_bits(a: u32, b: u32) -> u32;

/// The quotient of the two values, rounded to nearest, ties to even.
pub uninterp spec fn div_bits(a: u32, b: u32) -> u32;

/// The value of the unsigned integer, rounded to nearest, ties to
/// even.
pub uninterp spec fn float_of_u32(v: u32) -> u32;

/// Relies on `rustc_apfloat::ieee::Single::add_r`: a deterministic
/// software addition.  A sum of two positive zeros is positive zero
/// under round-to-nearest.
#[verifier::external_body]
pub(crate) fn fadd(a: u32, b: u32) -> (r: u32)
    ensures
        r == add_bits(a, b),
        a == 0 && b == 0 ==> r == 0,
{
    let x = rustc_apfloat::ieee::Single::from_bits(a as u128);
    let y = rustc_apfloat::ieee::Single::from_bits(b as u128);
    x.add_r(y, rustc_apfloat::Round::NearestTiesToEven).value.to_bits() as u32
}

/// Relies on `rustc_apfloat::ieee::Single::sub_r`: a deterministic
/// software subtraction.
#[verifier::external_body]
pub(crate) fn fsub(a: u32, b: u32) -> (r: u32)
    ensures
        r == sub_bits(a, b),
{
    let x = rustc_apfloat::ieee::Single::from_bits(a as u128);
    let y = rustc_apfloat::ieee::Single::from_bits(b as u128);
    x.sub_r(y, rustc_apfloat::Round::NearestTiesToEven).value.to_bits() as u32
}

/// Relies on `rustc_apfloat::ieee::Single::mul_r`: a deterministic
/// software multiplication.  A product of positive zeros is positive
/// zero; a product of positive infinities is positive infinity.
#[verifier::external_body]
pub(crate) fn fmul(a: u32, b: u32) -> (r: u32)
    ensures
        r == mul_bits(a, b),
        a == 0 && b == 0 ==> r == 0,
        a == INFINITY_BITS && b == INFINITY_BITS ==> r == INFINITY_BITS,
{
    let x = rustc_apfloat::ieee::Single::from_bits(a as u128);
    let y = rustc_apfloat::ieee::Single::from_bits(b as u128);
    x.mul_r(y, rustc_apfloat::Round::NearestTiesToEven).value.to_bits() as u32
}

/// Relies on `rustc_apfloat::ieee::Single::div_r`: a deterministic
/// software division.
#[verifier::external_body]
pub(crate) fn fdiv(a: u32, b: u32) -> (r: u32)
    ensures
        r == div_bits(a, b),
{
    let x = rustc_apfloat::ieee::Single::from_bits(a as u128);
    let y = rustc_apfloat::ieee::Single::from_bits(b as u128);
    x.div_r(y, rustc_apfloat::Round::NearestTiesToEven).value.to_bits() as u32
}

/// Relies on `rustc_apfloat::ieee::Single::from_u128_r`: a
/// deterministic conversion of an unsigned integer to the nearest
/// representable value.
#[verifier::external_body]
pub(crate) fn ffrom_u32(v: u32) -> (r: u32)
    ensures
        r == float_of_u32(v),
{
    rustc_apfloat::ieee::Single::from_u128_r(
        v as u128,
        rustc_apfloat::Round::NearestTiesToEven,
    ).value.to_bits() as u32
}

/// The largest bit pattern whose square does not exceed `x`.
///
/// For patterns below [`INFINITY_BITS`] — the nonnegative finite
/// values — the IEEE-754 ordering of the values is the ordering of the
/// patterns as integers, so the result is the square root of `x`
/// rounded down to the float grid: its square is at most `x` and the
/// square of the next representable value is above `x`.
pub fn sqrt_below(x: u32) -> (r: u32)
    requires
        x < INFINITY_BITS,
    ensures
        r < INFINITY_BITS,
        mul_bits(r, r) <= x,
        mul_bits((r + 1) as u32, (r + 1) as u32) > x,
{
    // The squares of the two search bounds pin the named
    // multiplication at zero and at infinity, so both bounds bracket
    // `x` from the start.
    let _zero_square: u32 = fmul(0, 0);
    let _infinity_square: u32 = fmul(INFINITY_BITS, INFINITY_BITS);
    let mut lo: u32 = 0;
    let mut hi: u32 = INFINITY_BITS;
    while lo + 1 < hi
        invariant
            lo < hi <= INFINITY_BITS,
            mul_bits(lo, lo) <= x,
            mul_bits(hi, hi) > x,
            x < INFINITY_BITS,
        decreases hi - lo,
    {
        let mid: u32 = lo + (hi - lo) / 2;
        let sq: u32 = fmul(mid, mid);
        if sq <= x {
            lo = mid;
        } else {
            hi = mid;
        }
    }
    lo
}

} // verus!
