//! Settings of a PWM slice.
use fixed::traits::ToFixed;
use fixed::types::extra::U4;
use fixed::FixedU16;
use vstd::prelude::*;

verus! {

/// Settings of a PWM slice with its two channels. `divider` counts sixteenths.
#[derive(Clone, Copy, Debug, PartialEq, Eq, Structural)]
pub struct PwmConfig {
    pub invert_a: bool,
    pub invert_b: bool,
    pub phase_correct: bool,
    pub enable: bool,
    pub divider: u16,
    pub compare_a: u16,
    pub compare_b: u16,
    pub top: u16,
}

impl PwmConfig {
    /// A running slice at the full clock rate with both channels low.
    pub open spec fn spec_default() -> PwmConfig {
        PwmConfig {
            invert_a: false,
            invert_b: false,
            phase_correct: false,
            enable: true,
            divider: 16,
            compare_a: 0,
            compare_b: 0,
            top: 0xffff,
        }
    }
}

impl Default for PwmConfig {
    fn default() -> (c: PwmConfig)
        ensures
            c == PwmConfig::spec_default(),
            c.enable && !c.phase_correct && !c.invert_a && !c.invert_b,
            c.divider == 16 && c.top == 0xffff && c.compare_a == 0 && c.compare_b == 0,
    {
        PwmConfig {
            invert_a: false,
            invert_b: false,
            phase_correct: false,
            enable: true,
            divider: divider_bits(1),
            compare_a: 0,
            compare_b: 0,
            top: 0xffff,
        }
    }
}

/// A whole clock divider with four fraction bits, by `ToFixed::to_fixed` of
/// the fixed crate for `u8`: sixteen times the number. Every `u8` fits.
#[verifier::external_body]
pub(crate) fn divider_bits(n: u8) -> (bits: u16)
    ensures
        bits == n * 16,
{
    n.to_fixed::<FixedU16<U4>>().to_bits()
}

} // verus!
