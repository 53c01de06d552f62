//! Shaft angles in radians, with 32 integer and 32 fraction bits.
use fixed::traits::ToFixed;
use fixed::types::I32F32;
use vstd::prelude::*;

use crate::float32::Float32;

verus! {

/// An angle; `bits` counts multiples of `2^-32` radians.
#[derive(Clone, Copy, Debug, PartialEq, Eq, Structural)]
pub struct Angle {
    pub bits: i64,
}

/// One turn, from the single-precision constant.
pub const TURN_BITS: i64 = 26_986_076_160;

/// `bits` is the count of some angle.
pub open spec fn representable(bits: int) -> bool {
    i64::MIN <= bits <= i64::MAX
}

/// The sum of two fixed-point numbers, by `+` of `fixed::types::I32F32`: it
/// adds the counts. A sum that does not fit is left out.
#[verifier::external_body]
fn fixed_sum(a: i64, b: i64) -> (r: i64)
    requires
        representable(a + b),
    ensures
        r == a + b,
{
    (I32F32::from_bits(a) + I32F32::from_bits(b)).to_bits()
}

/// The difference of two fixed-point numbers, by `-` of
/// `fixed::types::I32F32`: it subtracts the counts. A difference that does
/// not fit is left out.
#[verifier::external_body]
fn fixed_difference(a: i64, b: i64) -> (r: i64)
    requires
        representable(a - b),
    ensures
        r == a - b,
{
    (I32F32::from_bits(a) - I32F32::from_bits(b)).to_bits()
}

/// The product of two fixed-point numbers, by `*` of `fixed::types::I32F32`:
/// the product of the counts without its low 32 bits, rounded down. A product
/// that does not fit is left out.
#[verifier::external_body]
fn fixed_product(a: i64, b: i64) -> (r: i64)
    requires
        representable((a * b) / 0x1_0000_0000),
    ensures
        r == (a * b) / 0x1_0000_0000,
{
    (I32F32::from_bits(a) * I32F32::from_bits(b)).to_bits()
}

/// An integer as a fixed-point number, by `ToFixed::to_fixed` for `i32`. Every
/// `i32` fits.
#[verifier::external_body]
fn fixed_integer(n: i32) -> (r: i64)
    ensures
        r == n * 0x1_0000_0000,
{
    n.to_fixed::<I32F32>().to_bits()
}

impl Angle {
    /// The zero angle.
    pub fn zero() -> (r: Angle)
        ensures
            r.bits == 0,
    {
        Angle { bits: 0 }
    }

    /// `self + other`.
    pub fn plus(self, other: Angle) -> (r: Angle)
        requires
            representable(self.bits + other.bits),
        ensures
            r.bits == self.bits + other.bits,
    {
        Angle { bits: fixed_sum(self.bits, other.bits) }
    }

    /// `self - other`.
    pub fn minus(self, other: Angle) -> (r: Angle)
        requires
            representable(self.bits - other.bits),
        ensures
            r.bits == self.bits - other.bits,
    {
        Angle { bits: fixed_difference(self.bits, other.bits) }
    }

    /// The angle of `n` whole turns.
    pub fn of_turns(n: i32) -> (r: Angle)
        requires
            representable(n * TURN_BITS),
        ensures
            r.bits == n * TURN_BITS,
    {
        assert((n * 0x1_0000_0000) * TURN_BITS == (n * TURN_BITS) * 0x1_0000_0000)
            by (nonlinear_arith);
        Angle { bits: fixed_product(fixed_integer(n), TURN_BITS) }
    }

    /// The angle nearest to a number of radians.
    pub fn from_radians(radians: Float32) -> (r: Angle)
        requires
            radians.fits_fixed(),
        ensures
            r.bits == radians.spec_to_fixed(),
    {
        Angle { bits: radians.to_fixed() }
    }

    /// The angle as a number of radians, rounded to single precision.
    pub fn to_radians(self) -> (r: Float32)
        ensures
            r == Float32::spec_from_fixed(self.bits),
    {
        Float32::from_fixed(self.bits)
    }
}

} // verus!
