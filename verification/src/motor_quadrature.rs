//! Tracking of the motor shaft from three Hall sensors.
use vstd::prelude::*;

use crate::angle::{representable, Angle, TURN_BITS};
use crate::constants::{
    FRAC_PI_2, HA_AMP, HA_AVG, HB_AMP, HB_AVG, HC_AMP, HC_AVG, PI, SQRT_3, TAU,
};
use crate::float32::Float32;

verus! {

/// Tells that tracking was lost.
#[derive(Clone, Copy, Debug, PartialEq, Eq, Structural)]
pub struct QuadratureError {}

/// What the tracking task can be told to do.
#[derive(Clone, Copy, Debug, PartialEq, Eq, Structural)]
pub enum QuadratureCommand {
    Zero,
    ResetAt(Angle),
}

/// A sensor reading relative to the middle of its range, in half ranges.
pub open spec fn spec_normalized(raw: u16, avg: u16, amp: u16) -> Float32 {
    Float32::spec_from_u64(raw as u64).spec_minus(
        Float32::spec_from_u64(avg as u64),
    ).spec_divided_by(Float32::spec_from_u64(amp as u64))
}

/// `x` is the number nearest to the exact quotient of two integers.
pub open spec fn nearest_quotient(x: Float32, num: int, den: int) -> bool {
    &&& x.is_negative() == (num < 0)
    &&& crate::rounding::is_nearest(
        x.magnitude(),
        crate::float32::magnitude_of(num) * vstd::arithmetic::power2::pow2(149),
        den,
    )
}

fn normalized(raw: u16, avg: u16, amp: u16) -> (r: Float32)
    ensures
        r == spec_normalized(raw, avg, amp),
{
    Float32::from_u64(raw as u64).minus(Float32::from_u64(avg as u64)).divided_by(
        Float32::from_u64(amp as u64),
    )
}

/// The three raw readings, normalized by the calibration of each sensor.
pub fn normalize_hall(ha_raw: u16, hb_raw: u16, hc_raw: u16) -> (r: (Float32, Float32, Float32))
    ensures
        r.0 == spec_normalized(ha_raw, HA_AVG, HA_AMP),
        r.1 == spec_normalized(hb_raw, HB_AVG, HB_AMP),
        r.2 == spec_normalized(hc_raw, HC_AVG, HC_AMP),
        nearest_quotient(r.0, ha_raw - HA_AVG, HA_AMP as int),
        nearest_quotient(r.1, hb_raw - HB_AVG, HB_AMP as int),
        nearest_quotient(r.2, hc_raw - HC_AVG, HC_AMP as int),
{
    proof {
        lemma_normalized(ha_raw, HA_AVG, HA_AMP);
        lemma_normalized(hb_raw, HB_AVG, HB_AMP);
        lemma_normalized(hc_raw, HC_AVG, HC_AMP);
    }
    (
        normalized(ha_raw, HA_AVG, HA_AMP),
        normalized(hb_raw, HB_AVG, HB_AMP),
        normalized(hc_raw, HC_AVG, HC_AMP),
    )
}

/// Clarke transformation of three phases: the vector `(alpha, beta)`, whose
/// direction is the electrical angle.
pub fn clarke_trans(a: Float32, b: Float32, c: Float32) -> (r: (Float32, Float32))
    ensures
        r.0 == a,
        r.1 == b.spec_minus(c).spec_divided_by(Float32 { bits: SQRT_3 }),
{
    (a, b.minus(c).divided_by(Float32 { bits: SQRT_3 }))
}

/// `lhs` modulo a positive `rhs`.
pub open spec fn spec_rem_euclid(lhs: Float32, rhs: Float32) -> Float32 {
    let r = lhs.spec_remainder(rhs);
    if r.spec_less_than(Float32 { bits: 0 }) {
        r.spec_plus(rhs)
    } else {
        r
    }
}

/// The difference of two angles, wrapped into half a turn either way.
pub open spec fn spec_wrapped_angle_sub(lhs: Float32, rhs: Float32) -> Float32 {
    let pi = Float32 { bits: PI };
    spec_rem_euclid(lhs.spec_minus(rhs).spec_plus(pi), Float32 { bits: TAU }).spec_minus(pi)
}

/// The difference of two angles, wrapped into half a turn either way.
pub fn wrapped_angle_sub(lhs: Float32, rhs: Float32) -> (r: Float32)
    ensures
        r == spec_wrapped_angle_sub(lhs, rhs),
{
    let pi = Float32 { bits: PI };
    let tau = Float32 { bits: TAU };
    let r = lhs.minus(rhs).plus(pi).remainder(tau);
    let wrapped = if r.less_than(Float32 { bits: 0 }) {
        r.plus(tau)
    } else {
        r
    };
    wrapped.minus(pi)
}

/// The shaft turned by more than a quarter turn between two readings, so the
/// direction cannot be told.
pub open spec fn lost_between(new: Float32, prev: Float32) -> bool {
    (Float32 { bits: FRAC_PI_2 }).spec_less_than(
        spec_wrapped_angle_sub(new, prev).spec_absolute(),
    )
}

/// Whole turns gained on the way from `prev` to `new`: one is lost in going
/// from just above -pi to just below pi, one is gained in going back.
pub open spec fn turns_gained(new: Float32, prev: Float32) -> int {
    let delta = new.spec_minus(prev);
    if (Float32 { bits: PI }).spec_less_than(delta) {
        -1
    } else if delta.spec_less_than((Float32 { bits: PI }).spec_negated()) {
        1
    } else {
        0
    }
}

/// Follows the shaft over any number of turns. After the first reading, which
/// is taken to be at the initial angle, the angle is
/// `wrapped_angle + cum_rotations * 2 * pi + offset`.
pub struct HallAngleTracker {
    cum_rotations: i32,
    offset: Angle,
    prev_wrapped_angle: Option<Float32>,
    init_angle: Angle,
}

impl HallAngleTracker {
    /// No turn is counted before the first reading.
    #[verifier::type_invariant]
    spec fn counts_from_the_first_reading(self) -> bool {
        self.prev_wrapped_angle is None ==> self.cum_rotations == 0
    }

    /// Whole turns counted so far.
    pub closed spec fn rotations(self) -> int {
        self.cum_rotations as int
    }

    /// Added to every reported angle, in multiples of `2^-32` radians.
    pub closed spec fn shift(self) -> int {
        self.offset.bits as int
    }

    /// The last accepted reading.
    pub closed spec fn last(self) -> Option<Float32> {
        self.prev_wrapped_angle
    }

    /// The angle that the first reading is taken to be at.
    pub closed spec fn start(self) -> Angle {
        self.init_angle
    }

    /// The counted turns and the last reading, without the offset.
    pub open spec fn unshifted(self) -> int {
        self.last()->0.spec_to_fixed() + self.rotations() * TURN_BITS
    }

    /// Every intermediate result of taking in the reading `theta` fits its
    /// type.
    pub open spec fn can_follow(self, theta: Float32) -> bool {
        let new = theta.spec_negated();
        match self.last() {
            None => new.fits_fixed() && representable(self.start().bits - new.spec_to_fixed()),
            Some(prev) => lost_between(new, prev) || {
                let turns = self.rotations() + turns_gained(new, prev);
                &&& new.fits_fixed()
                &&& i32::MIN <= turns <= i32::MAX
                &&& representable(turns * TURN_BITS)
                &&& representable(new.spec_to_fixed() + turns * TURN_BITS)
                &&& representable(new.spec_to_fixed() + turns * TURN_BITS + self.shift())
            },
        }
    }

    /// A tracker whose first reading will be at `init_angle`.
    pub fn new(init_angle: Angle) -> (r: Self)
        ensures
            r.rotations() == 0,
            r.shift() == 0,
            r.last() is None,
            r.start() == init_angle,
    {
        HallAngleTracker {
            cum_rotations: 0,
            offset: Angle::zero(),
            prev_wrapped_angle: None,
            init_angle,
        }
    }

    /// Whether `update` can take in the reading without overflow.
    pub fn can_update(&self, theta_clarke: Float32) -> (b: bool)
        ensures
            b == self.can_follow(theta_clarke),
    {
        let new = theta_clarke.negated();
        match self.prev_wrapped_angle {
            None => {
                if !new.has_fixed() {
                    return false;
                }
                let shift: i128 = self.init_angle.bits as i128 - new.to_fixed() as i128;
                fits_i64(shift)
            },
            Some(prev) => {
                if is_lost(new, prev) {
                    return true;
                }
                if !new.has_fixed() {
                    return false;
                }
                let turns: i64 = self.cum_rotations as i64 + step(new, prev) as i64;
                if turns < i32::MIN as i64 || turns > i32::MAX as i64 {
                    return false;
                }
                let whole: i128 = turns as i128 * TURN_BITS as i128;
                let angle: i128 = new.to_fixed() as i128 + whole;
                fits_i64(whole) && fits_i64(angle) && fits_i64(angle + self.offset.bits as i128)
            },
        }
    }

    /// Takes in the direction of the Clarke vector, `atan2(beta, alpha)`, and
    /// returns the shaft angle. It fails, and changes nothing, when the shaft
    /// turned too far since the last reading.
    pub fn update(&mut self, theta_clarke: Float32) -> (r: Result<Angle, &'static str>)
        requires
            old(self).can_follow(theta_clarke),
        ensures
            follows_on(*old(self), *final(self), theta_clarke.spec_negated()),
            old(self).last() is None ==> r == Ok::<Angle, &'static str>(old(self).start()),
            old(self).last() matches Some(prev) ==> {
                &&& r is Err <==> lost_between(theta_clarke.spec_negated(), prev)
                &&& (r matches Err(message) ==> message@
                    == "Failed to track hall sensor commutation"@)
            },
            r matches Ok(angle) ==> angle.bits == final(self).unshifted() + final(self).shift(),
            r is Ok ==> (final(self).last() matches Some(new) && new.value()
                == -theta_clarke.value()),
    {
        proof {
            use_type_invariant(&*self);
        }
        // negate to make counter-clockwise rotation positive
        let new = theta_clarke.negated();
        let prev = match self.prev_wrapped_angle {
            Some(prev) => prev,
            None => {
                self.prev_wrapped_angle = Some(new);
                self.offset = self.init_angle.minus(Angle::from_radians(new));
                return Ok(self.init_angle);
            },
        };
        if is_lost(new, prev) {
            return Err("Failed to track hall sensor commutation");
        }
        self.cum_rotations = self.cum_rotations + step(new, prev);
        self.prev_wrapped_angle = Some(new);
        Ok(
            Angle::from_radians(new).plus(Angle::of_turns(self.cum_rotations)).plus(self.offset),
        )
    }

    /// Every intermediate result of moving the current angle to `angle` fits.
    pub open spec fn can_move_to(self, angle: Angle) -> bool {
        self.last() matches Some(prev) ==> {
            &&& prev.fits_fixed()
            &&& representable(self.rotations() * TURN_BITS)
            &&& representable(self.unshifted())
            &&& representable(angle.bits - self.unshifted())
        }
    }

    /// Whether `reset` can move the current angle there without overflow.
    pub fn can_reset(&self, init_angle: Angle) -> (b: bool)
        ensures
            b == self.can_move_to(init_angle),
    {
        match self.prev_wrapped_angle {
            None => true,
            Some(prev) => {
                if !prev.has_fixed() {
                    return false;
                }
                let (n, turn): (i128, i128) = (self.cum_rotations as i128, TURN_BITS as i128);
                assert(-0x1000_0000_0000_0000_0000 < n * turn < 0x1000_0000_0000_0000_0000)
                    by (nonlinear_arith)
                    requires
                        -0x8000_0000 <= n < 0x8000_0000,
                        turn == 26_986_076_160,
                ;
                let whole: i128 = n * turn;
                let angle: i128 = whole + prev.to_fixed() as i128;
                fits_i64(whole) && fits_i64(angle) && fits_i64(init_angle.bits as i128 - angle)
            },
        }
    }

    /// Declares the last reading to be at `init_angle`. Without a reading it
    /// does nothing.
    pub fn reset(&mut self, init_angle: Angle)
        requires
            old(self).can_move_to(init_angle),
        ensures
            final(self).rotations() == old(self).rotations(),
            final(self).last() == old(self).last(),
            final(self).start() == old(self).start(),
            old(self).last() is None ==> final(self).shift() == old(self).shift(),
            old(self).last() is Some ==> final(self).shift() == init_angle.bits
                - old(self).unshifted(),
    {
        match self.prev_wrapped_angle {
            None => {},
            Some(prev) => {
                let cum_angle = Angle::of_turns(self.cum_rotations).plus(
                    Angle::from_radians(prev),
                );
                self.offset = init_angle.minus(cum_angle);
            },
        }
    }

    /// Declares the last reading to be at zero.
    pub fn zero(&mut self)
        requires
            old(self).can_move_to(Angle { bits: 0 }),
        ensures
            final(self).rotations() == old(self).rotations(),
            final(self).last() == old(self).last(),
            final(self).start() == old(self).start(),
            old(self).last() is None ==> final(self).shift() == old(self).shift(),
            old(self).last() is Some ==> final(self).shift() == -old(self).unshifted(),
    {
        self.reset(Angle::zero());
    }
}

/// The tracker `after` is `before` with the wrapped angle `new` taken in. The
/// first one is at the start, and one that is too far from the last one leaves
/// everything as it was.
pub open spec fn follows_on(
    before: HallAngleTracker,
    after: HallAngleTracker,
    new: Float32,
) -> bool {
    match before.last() {
        None => {
            &&& after.start() == before.start()
            &&& after.last() == Some(new)
            &&& after.rotations() == 0
            &&& after.shift() == before.start().bits - new.spec_to_fixed()
        },
        Some(prev) => if lost_between(new, prev) {
            after == before
        } else {
            &&& after.start() == before.start()
            &&& after.last() == Some(new)
            &&& after.rotations() == before.rotations() + turns_gained(new, prev)
            &&& after.shift() == before.shift()
        },
    }
}

/// The wrapped angles of a run that are accepted: the first one, and each that
/// is not too far from the last one accepted before it.
pub open spec fn accepted(readings: Seq<Float32>) -> Seq<Float32>
    decreases readings.len(),
{
    if readings.len() == 0 {
        Seq::empty()
    } else {
        let before = accepted(readings.drop_last());
        if before.len() == 0 || !lost_between(readings.last(), before.last()) {
            before.push(readings.last())
        } else {
            before
        }
    }
}

/// Whole turns gained along a run of accepted angles.
pub open spec fn turns_over(angles: Seq<Float32>) -> int
    decreases angles.len(),
{
    if angles.len() < 2 {
        0
    } else {
        turns_over(angles.drop_last()) + turns_gained(
            angles.last(),
            angles.drop_last().last(),
        )
    }
}

/// The tracker is where a run of wrapped angles from its start leads it.
pub open spec fn has_followed(tracker: HallAngleTracker, readings: Seq<Float32>) -> bool {
    let angles = accepted(readings);
    if angles.len() == 0 {
        tracker.last() is None && tracker.rotations() == 0
    } else {
        &&& tracker.last() == Some(angles.last())
        &&& tracker.rotations() == turns_over(angles)
        &&& tracker.shift() == tracker.start().bits - angles[0].spec_to_fixed()
    }
}

fn fits_i64(n: i128) -> (b: bool)
    ensures
        b == representable(n as int),
{
    n >= i64::MIN as i128 && n <= i64::MAX as i128
}

fn is_lost(new: Float32, prev: Float32) -> (b: bool)
    ensures
        b == lost_between(new, prev),
{
    (Float32 { bits: FRAC_PI_2 }).less_than(wrapped_angle_sub(new, prev).absolute())
}

fn step(new: Float32, prev: Float32) -> (n: i32)
    ensures
        n == turns_gained(new, prev),
        -1 <= n <= 1,
{
    let delta = new.minus(prev);
    if (Float32 { bits: PI }).less_than(delta) {
        -1
    } else if delta.less_than((Float32 { bits: PI }).negated()) {
        1
    } else {
        0
    }
}

/// The opposite number has the opposite value.
proof fn lemma_negated(x: Float32)
    ensures
        x.spec_negated().value() == -x.value(),
        x.spec_negated().magnitude() == x.magnitude(),
        x.spec_negated().is_negative() == !x.is_negative(),
        x.spec_negated().spec_negated() == x,
{
}

/// Values of the constants: two pi is twice pi, and half pi is positive.
proof fn lemma_pi()
    ensures
        (Float32 { bits: TAU }).value() == 2 * (Float32 { bits: PI }).value(),
        (Float32 { bits: PI }).value() > 0,
        (Float32 { bits: FRAC_PI_2 }).value() > 0,
        (Float32 { bits: 0 }).value() == 0,
{
    crate::rounding::lemma_value_sign(PI as int);
    crate::rounding::lemma_value_sign(FRAC_PI_2 as int);
    crate::rounding::lemma_value_sign(0);
    let e = crate::rounding::spacing_exponent(PI as int);
    assert(crate::rounding::spacing_exponent(TAU as int) == e + 1);
    vstd::arithmetic::power2::lemma_pow2_unfold(e + 1);
    let (s, p) = (
        crate::rounding::significand(PI as int),
        vstd::arithmetic::power2::pow2(e) as int,
    );
    assert(s * (2 * p) == 2 * (s * p)) by (nonlinear_arith);
}

/// Adding two finite numbers whose sum is within the size of a finite number
/// `m` gives a number within that size.
proof fn lemma_sum_within(a: Float32, b: Float32, m: int)
    requires
        a.is_finite(),
        b.is_finite(),
        0 <= m < crate::rounding::INFINITE,
        -crate::rounding::magnitude_value(m) <= a.value() + b.value()
            <= crate::rounding::magnitude_value(m),
    ensures
        a.spec_plus(b).magnitude() <= m,
        a.value() + b.value() > 0 ==> !a.spec_plus(b).is_negative(),
        a.value() + b.value() < 0 ==> a.spec_plus(b).is_negative(),
        a.value() + b.value() == 0 ==> a.spec_plus(b).is_zero(),
{
    let sum = a.value() + b.value();
    if sum > 0 {
        crate::rounding::lemma_rounded_at_most(sum, 1, m);
    } else if sum < 0 {
        crate::rounding::lemma_rounded_at_most(-sum, 1, m);
    }
}

/// The size of a number grows with its magnitude.
proof fn lemma_size_order(x: Float32, m: int)
    requires
        0 <= m,
    ensures
        x.magnitude() <= m ==> x.size() <= crate::rounding::magnitude_value(m),
        x.size() >= 0,
        x.size() == 0 <==> x.is_zero(),
{
    crate::rounding::lemma_value_sign(x.magnitude());
    if x.magnitude() < m {
        crate::rounding::lemma_value_increases(x.magnitude(), m);
    }
}

/// A wrapped difference lies between -pi and pi.
pub proof fn law_wrapped_difference_is_within_pi(lhs: Float32, rhs: Float32)
    requires
        lhs.spec_minus(rhs).spec_plus(Float32 { bits: PI }).is_finite(),
    ensures
        spec_wrapped_angle_sub(lhs, rhs).magnitude() <= PI,
        -(Float32 { bits: PI }).value() <= spec_wrapped_angle_sub(lhs, rhs).value()
            <= (Float32 { bits: PI }).value(),
{
    let pi = Float32 { bits: PI };
    let tau = Float32 { bits: TAU };
    let x = lhs.spec_minus(rhs).spec_plus(pi);
    let r = x.spec_remainder(tau);
    lemma_pi();
    lemma_size_order(x, 0);
    let left = x.size() % tau.size();
    vstd::arithmetic::div_mod::lemma_mod_pos_bound(x.size(), tau.size());
    crate::rounding::lemma_rounded_at_most(left, 1, TAU as int);
    lemma_size_order(r, TAU as int);
    let wrapped = spec_rem_euclid(x, tau);
    if r.spec_less_than(Float32 { bits: 0 }) {
        lemma_sum_within(r, tau, TAU as int);
        lemma_size_order(wrapped, TAU as int);
    }
    assert(0 <= wrapped.value() <= tau.value());
    lemma_negated(pi);
    lemma_sum_within(wrapped, pi.spec_negated(), PI as int);
    lemma_size_order(spec_wrapped_angle_sub(lhs, rhs), PI as int);
}

/// A reading that repeats is never lost and gains no turn.
pub proof fn law_repeated_reading_is_accepted(x: Float32)
    requires
        x.is_finite(),
    ensures
        !lost_between(x, x),
        turns_gained(x, x) == 0,
{
    let pi = Float32 { bits: PI };
    let tau = Float32 { bits: TAU };
    let zero = Float32 { bits: 0 };
    lemma_negated(x);
    lemma_negated(pi);
    lemma_pi();
    assert(x.spec_minus(x) == zero);
    crate::rounding::lemma_exact_is_nearest(PI as int, pi.value(), 1);
    assert(zero.spec_plus(pi) == pi);
    vstd::arithmetic::div_mod::lemma_small_mod(pi.size() as nat, tau.size() as nat);
    assert(pi.spec_remainder(tau) == pi);
    assert(pi.spec_minus(pi) == zero);
    assert(zero.spec_absolute() == zero);
}

/// After a reset, a reading equal to the last one is reported at the angle of
/// the reset.
pub proof fn law_reset_moves_the_current_angle(
    before: HallAngleTracker,
    after: HallAngleTracker,
    angle: Angle,
    reading: Float32,
)
    requires
        before.last() == Some(reading),
        reading.is_finite(),
        after.last() == before.last(),
        after.rotations() == before.rotations(),
        after.shift() == angle.bits - before.unshifted(),
    ensures
        !lost_between(reading, reading),
        after.last()->0.spec_to_fixed() + (after.rotations() + turns_gained(reading, reading))
            * TURN_BITS + after.shift() == angle.bits,
{
    law_repeated_reading_is_accepted(reading);
}

/// An accepted reading moves the reported angle by the change of the wrapped
/// angle plus the whole turns gained.
pub proof fn law_reported_angle_moves_with_the_readings(
    before: HallAngleTracker,
    after: HallAngleTracker,
)
    requires
        before.last() is Some,
        after.last() is Some,
        after.shift() == before.shift(),
        after.rotations() == before.rotations() + turns_gained(
            after.last()->0,
            before.last()->0,
        ),
    ensures
        (after.unshifted() + after.shift()) - (before.unshifted() + before.shift())
            == after.last()->0.spec_to_fixed() - before.last()->0.spec_to_fixed() + turns_gained(
            after.last()->0,
            before.last()->0,
        ) * TURN_BITS,
{
    let n = turns_gained(after.last()->0, before.last()->0);
    assert((before.rotations() + n) * TURN_BITS == before.rotations() * TURN_BITS + n * TURN_BITS)
        by (nonlinear_arith);
}

/// Taking in one more angle follows a run that is longer by it.
pub proof fn law_tracker_follows_every_run(
    before: HallAngleTracker,
    after: HallAngleTracker,
    readings: Seq<Float32>,
    new: Float32,
)
    requires
        has_followed(before, readings),
        follows_on(before, after, new),
    ensures
        has_followed(after, readings.push(new)),
        after.start() == before.start(),
{
    let angles = accepted(readings);
    assert(readings.push(new).drop_last() =~= readings);
    assert(angles.push(new).drop_last() =~= angles);
}

/// A tracker before its first reading has followed the empty run.
pub proof fn law_new_tracker_has_followed_nothing(tracker: HallAngleTracker)
    requires
        tracker.last() is None,
        tracker.rotations() == 0,
    ensures
        has_followed(tracker, Seq::empty()),
{
}

/// The angle after a run of readings is the start, moved by the difference
/// between the last and the first accepted one and by the whole turns between
/// them.
pub proof fn law_angle_after_a_run(tracker: HallAngleTracker, readings: Seq<Float32>)
    requires
        has_followed(tracker, readings),
        readings.len() > 0,
    ensures
        ({
            let angles = accepted(readings);
            &&& angles.len() > 0
            &&& tracker.unshifted() + tracker.shift() == tracker.start().bits
                + angles.last().spec_to_fixed() - angles[0].spec_to_fixed() + turns_over(angles)
                * TURN_BITS
        }),
{
}

/// A sum of two finite numbers is off by at most half the spacing of a bound.
proof fn lemma_sum_error(a: Float32, b: Float32, top: int, unit: int)
    requires
        a.is_finite(),
        b.is_finite(),
        0 <= top < crate::rounding::INFINITE,
        -crate::rounding::magnitude_value(top) <= a.value() + b.value()
            <= crate::rounding::magnitude_value(top),
        vstd::arithmetic::power2::pow2(crate::rounding::spacing_exponent(top)) == unit,
    ensures
        a.spec_plus(b).magnitude() <= top,
        -unit <= 2 * (a.spec_plus(b).value() - (a.value() + b.value())) <= unit,
{
    let sum = a.value() + b.value();
    lemma_sum_within(a, b, top);
    crate::rounding::lemma_value_sign(0);
    vstd::arithmetic::power2::lemma_pow2_pos(crate::rounding::spacing_exponent(top));
    if sum > 0 {
        crate::rounding::lemma_rounded_at_most(sum, 1, top);
        crate::rounding::law_rounding_error_is_half_a_spacing(sum, top);
    } else if sum < 0 {
        crate::rounding::lemma_rounded_at_most(-sum, 1, top);
        crate::rounding::law_rounding_error_is_half_a_spacing(-sum, top);
    }
}

/// Encoding of the largest number below sixteen.
spec fn below_sixteen() -> int {
    0x417f_ffff
}

/// Numbers from the circle: pi and its relatives in units of 2^126, and the
/// spacings around them.
proof fn lemma_circle(b: int)
    requires
        b == vstd::arithmetic::power2::pow2(126),
    ensures
        b > 0,
        (Float32 { bits: PI }).value() == 26_353_590 * b,
        (Float32 { bits: TAU }).value() == 52_707_180 * b,
        (Float32 { bits: FRAC_PI_2 }).value() == 13_176_795 * b,
        crate::rounding::magnitude_value(below_sixteen()) == 134_217_720 * b,
        vstd::arithmetic::power2::pow2(127) == 2 * b,
        vstd::arithmetic::power2::pow2(128) == 4 * b,
        vstd::arithmetic::power2::pow2(129) == 8 * b,
        crate::rounding::spacing_exponent(PI as int) == 127,
        crate::rounding::spacing_exponent(TAU as int) == 128,
        crate::rounding::spacing_exponent(below_sixteen()) == 129,
{
    vstd::arithmetic::power2::lemma_pow2_pos(126);
    vstd::arithmetic::power2::lemma_pow2_unfold(127);
    vstd::arithmetic::power2::lemma_pow2_unfold(128);
    vstd::arithmetic::power2::lemma_pow2_unfold(129);
    let (p, q, r) = (
        vstd::arithmetic::power2::pow2(127) as int,
        vstd::arithmetic::power2::pow2(128) as int,
        vstd::arithmetic::power2::pow2(129) as int,
    );
    assert(crate::rounding::magnitude_value(PI as int) == 13_176_795 * p);
    assert(crate::rounding::magnitude_value(TAU as int) == 13_176_795 * q);
    assert(crate::rounding::magnitude_value(below_sixteen()) == 16_777_215 * r);
}

/// The wrapped difference of two angles within half a turn is their
/// difference, up to whole turns and a small error.
proof fn lemma_wrapped(new: Float32, prev: Float32, b: int) -> (k: int)
    requires
        new.magnitude() <= PI,
        prev.magnitude() <= PI,
        b == vstd::arithmetic::power2::pow2(126),
    ensures
        -1 <= k <= 1,
        -11 * b <= spec_wrapped_angle_sub(new, prev).value() - (new.value() - prev.value() - k
            * (52_707_180 * b)) <= 11 * b,
        spec_wrapped_angle_sub(new, prev).magnitude() <= PI,
        -26_353_590 * b <= spec_wrapped_angle_sub(new, prev).value() <= 26_353_590 * b,
        -2 * b <= new.spec_minus(prev).value() - (new.value() - prev.value()) <= 2 * b,
        new.spec_minus(prev).magnitude() <= TAU,
{
    let (pi, tau) = (Float32 { bits: PI }, Float32 { bits: TAU });
    lemma_circle(b);
    lemma_pi();
    lemma_negated(prev);
    lemma_negated(pi);
    lemma_size_order(new, PI as int);
    lemma_size_order(prev, PI as int);
    let d = new.spec_minus(prev);
    lemma_sum_error(new, prev.spec_negated(), TAU as int, 4 * b);
    lemma_size_order(d, TAU as int);
    let x = d.spec_plus(pi);
    lemma_sum_error(d, pi, below_sixteen(), 8 * b);
    lemma_size_order(x, below_sixteen());
    let r = x.spec_remainder(tau);
    let left = x.size() % tau.size();
    let wrapped = spec_rem_euclid(x, tau);
    law_wrapped_difference_is_within_pi(new, prev);
    if x.size() < tau.size() {
        vstd::arithmetic::div_mod::lemma_small_mod(x.size() as nat, tau.size() as nat);
        crate::rounding::lemma_exact_is_nearest(x.magnitude(), x.size(), 1);
        assert(r == x);
        if x.value() < 0 {
            assert(r.spec_less_than(Float32 { bits: 0 }));
            lemma_sum_error(r, tau, TAU as int, 4 * b);
            lemma_size_order(wrapped, TAU as int);
            lemma_sum_error(wrapped, pi.spec_negated(), PI as int, 2 * b);
            -1
        } else {
            assert(wrapped == r);
            lemma_sum_error(wrapped, pi.spec_negated(), PI as int, 2 * b);
            0
        }
    } else {
        assert(x.value() >= 0);
        assert(left == x.size() - tau.size()) by {
            vstd::arithmetic::div_mod::lemma_fundamental_div_mod_converse(
                x.size(),
                tau.size(),
                1,
                x.size() - tau.size(),
            );
        }
        crate::rounding::law_rounding_error_is_half_a_spacing(left, TAU as int);
        crate::rounding::lemma_rounded_at_most(left, 1, TAU as int);
        lemma_size_order(r, TAU as int);
        assert(!r.is_negative());
        assert(wrapped == r);
        lemma_sum_error(wrapped, pi.spec_negated(), PI as int, 2 * b);
        1
    }
}

/// The wrapped difference of two angles is how far the shaft moved between
/// them, up to whole turns, and to 2^-19 radians for rounding.
pub proof fn law_wrapped_difference_is_the_movement(new: Float32, prev: Float32)
    requires
        new.magnitude() <= PI,
        prev.magnitude() <= PI,
    ensures
        exists|k: int|
            -1 <= k <= 1 && -vstd::arithmetic::power2::pow2(130) <= spec_wrapped_angle_sub(
                new,
                prev,
            ).value() - #[trigger] moved(new, prev, k) <= vstd::arithmetic::power2::pow2(130),
{
    let b = vstd::arithmetic::power2::pow2(126) as int;
    let k = lemma_wrapped(new, prev, b);
    lemma_circle(b);
    vstd::arithmetic::power2::lemma_pow2_unfold(130);
    assert(k * (Float32 { bits: TAU }).value() == k * (52_707_180 * b));
    assert(-11 * b <= spec_wrapped_angle_sub(new, prev).value() - moved(new, prev, k) <= 11 * b);
}

/// An angle is off by at most half a unit.
proof fn lemma_to_fixed(x: Float32, c: int)
    requires
        c == vstd::arithmetic::power2::pow2(117),
    ensures
        -c <= 2 * (x.spec_to_fixed() * c - x.value()) <= c,
{
    vstd::arithmetic::power2::lemma_pow2_pos(117);
    let n = x.size();
    lemma_size_order(x, 0);
    vstd::arithmetic::div_mod::lemma_fundamental_div_mod(n, c);
    vstd::arithmetic::div_mod::lemma_mod_pos_bound(n, c);
    let (a, r) = (n / c, n % c);
    assert(c * a == a * c) by (nonlinear_arith);
    assert((a + 1) * c == a * c + c) by (nonlinear_arith);
    let h = crate::float32::half_even(n, c);
    assert((-h) * c == -(h * c)) by (nonlinear_arith);
}

/// Multiples of a turn.
proof fn lemma_multiple(k: int, t: int)
    ensures
        k == 0 ==> k * t == 0,
        k == 1 ==> k * t == t,
        k == -1 ==> k * t == -t,
{
    assert(k == 0 ==> k * t == 0) by (nonlinear_arith);
    assert(k == 1 ==> k * t == t) by (nonlinear_arith);
    assert(k == -1 ==> k * t == -t) by (nonlinear_arith);
}

/// The whole turns that are counted between two readings undo those that the
/// difference was wrapped by, when the shaft moved less than half a turn.
proof fn lemma_turns_match(new: Float32, prev: Float32, b: int, k: int)
    requires
        new.magnitude() <= PI,
        prev.magnitude() <= PI,
        b == vstd::arithmetic::power2::pow2(126),
        -1 <= k <= 1,
        -13_176_806 * b <= new.value() - prev.value() - k * (52_707_180 * b) <= 13_176_806 * b,
    ensures
        turns_gained(new, prev) == -k,
{
    let pi = Float32 { bits: PI };
    lemma_wrapped(new, prev, b);
    lemma_circle(b);
    lemma_pi();
    lemma_negated(pi);
    lemma_multiple(k, 52_707_180 * b);
}

/// Units of angle in a quarter turn.
pub open spec fn quarter_turn() -> int {
    TURN_BITS / 4
}

/// How far off the movement between two readings can be through rounding:
/// 2^-19 radians.
pub open spec fn slack() -> int {
    0x2000
}

/// An accepted reading moves the reported angle by at most a quarter turn, up
/// to rounding.
pub proof fn law_accepted_reading_moves_at_most_a_quarter_turn(new: Float32, prev: Float32)
    requires
        new.magnitude() <= PI,
        prev.magnitude() <= PI,
        !lost_between(new, prev),
    ensures
        -(quarter_turn() + slack()) <= new.spec_to_fixed() - prev.spec_to_fixed() + turns_gained(
            new,
            prev,
        ) * TURN_BITS <= quarter_turn() + slack(),
{
    let b = vstd::arithmetic::power2::pow2(126) as int;
    let c = vstd::arithmetic::power2::pow2(117) as int;
    let k = lemma_wrapped(new, prev, b);
    let w = spec_wrapped_angle_sub(new, prev);
    lemma_circle(b);
    lemma_size_order(w, FRAC_PI_2 as int);
    assert(-13_176_795 * b <= w.value() <= 13_176_795 * b);
    lemma_turns_match(new, prev, b, k);
    lemma_to_fixed(new, c);
    lemma_to_fixed(prev, c);
    vstd::arithmetic::power2::lemma2_to64();
    vstd::arithmetic::power2::lemma_pow2_pos(117);
    vstd::arithmetic::power2::lemma_pow2_adds(117, 9);
    assert(b == c * 512);
    let (f, g) = (new.spec_to_fixed(), prev.spec_to_fixed());
    let n = turns_gained(new, prev);
    let change = f - g + n * TURN_BITS;
    assert(change * c == f * c - g * c + n * (TURN_BITS * c)) by (nonlinear_arith)
        requires
            change == f - g + n * TURN_BITS,
    ;
    assert(k * (52_707_180 * b) == -(n * (TURN_BITS * c))) by (nonlinear_arith)
        requires
            k == -n,
            b == c * 512,
            TURN_BITS == 26_986_076_160,
    ;
    assert(-6_746_527_232 * c <= change * c <= 6_746_527_232 * c);
    assert(-6_746_527_232 <= change <= 6_746_527_232) by (nonlinear_arith)
        requires
            -6_746_527_232 * c <= change * c <= 6_746_527_232 * c,
            c > 0,
    ;
}

/// How far the shaft moved between two readings, in units of 2^-149 radians,
/// when it passed `k` times from one end of the half turns to the other.
pub open spec fn moved(new: Float32, prev: Float32, k: int) -> int {
    new.value() - prev.value() - k * (Float32 { bits: TAU }).value()
}

/// A shaft that moved by less than a quarter turn, by 2^-19 radians to allow
/// for rounding, is never lost, and its turns are counted right.
pub proof fn law_movement_below_a_quarter_turn_is_accepted(new: Float32, prev: Float32, k: int)
    requires
        new.magnitude() <= PI,
        prev.magnitude() <= PI,
        -1 <= k <= 1,
        moved(new, prev, k) + vstd::arithmetic::power2::pow2(130) <= (Float32 {
            bits: FRAC_PI_2,
        }).value(),
        -moved(new, prev, k) + vstd::arithmetic::power2::pow2(130) <= (Float32 {
            bits: FRAC_PI_2,
        }).value(),
    ensures
        !lost_between(new, prev),
        turns_gained(new, prev) == -k,
{
    let b = vstd::arithmetic::power2::pow2(126) as int;
    let kk = lemma_wrapped(new, prev, b);
    let w = spec_wrapped_angle_sub(new, prev);
    lemma_circle(b);
    vstd::arithmetic::power2::lemma_pow2_unfold(130);
    lemma_pi();
    lemma_multiple(k, 52_707_180 * b);
    lemma_multiple(kk, 52_707_180 * b);
    lemma_turns_match(new, prev, b, k);
    assert(kk == k);
    lemma_size_order(w, FRAC_PI_2 as int);
    assert(-13_176_795 * b <= w.value() <= 13_176_795 * b);
}

/// A normalized reading is the number nearest to the exact quotient.
proof fn lemma_normalized(raw: u16, avg: u16, amp: u16)
    requires
        amp > 0,
    ensures
        nearest_quotient(spec_normalized(raw, avg, amp), raw - avg, amp as int),
{
    let p = vstd::arithmetic::power2::pow2(149) as int;
    let (a, b, c) = (
        Float32::spec_from_u64(raw as u64),
        Float32::spec_from_u64(avg as u64),
        Float32::spec_from_u64(amp as u64),
    );
    vstd::arithmetic::power2::lemma_pow2_pos(149);
    crate::float32::lemma_short_integer(raw as u64);
    crate::float32::lemma_short_integer(avg as u64);
    crate::float32::lemma_short_integer(amp as u64);
    lemma_negated(b);
    let d = a.spec_minus(b);
    let n = crate::float32::magnitude_of(raw - avg);
    assert(raw * p - avg * p == (raw - avg) * p) by (nonlinear_arith);
    let w = raw - avg;
    assert((-w) * p == -(w * p)) by (nonlinear_arith);
    assert(w > 0 ==> w * p > 0) by (nonlinear_arith)
        requires
            p > 0,
    ;
    assert(w < 0 ==> w * p < 0) by (nonlinear_arith)
        requires
            p > 0,
    ;
    assert(w == 0 ==> w * p == 0) by (nonlinear_arith);
    let m = crate::rounding::lemma_short_integer_is_exact(n, 149);
    crate::rounding::lemma_exact_is_nearest(m, n * p, 1);
    crate::rounding::lemma_value_sign(m);
    crate::rounding::lemma_value_sign(0);
    assert(d.size() == n * p && d.is_negative() == (raw < avg) && d.is_finite());
    let x = d.spec_divided_by(c);
    assert((n * p) * p >= 0) by (nonlinear_arith)
        requires
            n >= 0,
            p > 0,
    ;
    assert(amp * p > 0) by (nonlinear_arith)
        requires
            amp > 0,
            p > 0,
    ;
    crate::rounding::lemma_rounded_is_nearest((n * p) * p, amp * p);
    crate::rounding::lemma_nearest_scales(x.magnitude(), n * p, amp as int, p);
}

/// How far a number is from a quotient, times the divisor, in units of 2^-149.
pub open spec fn off_by(x: Float32, num: int, den: int) -> int {
    crate::float32::magnitude_of(
        x.value() * den - num * vstd::arithmetic::power2::pow2(149),
    )
}

/// A normalized reading lies above zero exactly when the reading is above the
/// middle of its sensor's range, and below zero when it is below. It is
/// `(raw - avg) / amp` to one part in 2^24.
pub proof fn law_normalized_readings_are_accurate(
    ha: u16,
    hb: u16,
    hc: u16,
    r: (Float32, Float32, Float32),
)
    requires
        call_ensures(normalize_hall, (ha, hb, hc), r),
    ensures
        r.0.value() > 0 <==> ha > 2088,
        r.0.value() < 0 <==> ha < 2088,
        r.1.value() > 0 <==> hb > 2077,
        r.1.value() < 0 <==> hb < 2077,
        r.2.value() > 0 <==> hc > 2057,
        r.2.value() < 0 <==> hc < 2057,
        0x100_0000 * off_by(r.0, ha - 2088, 1499) <= crate::float32::magnitude_of(ha - 2088)
            * vstd::arithmetic::power2::pow2(149),
        0x100_0000 * off_by(r.1, hb - 2077, 1540) <= crate::float32::magnitude_of(hb - 2077)
            * vstd::arithmetic::power2::pow2(149),
        0x100_0000 * off_by(r.2, hc - 2057, 1514) <= crate::float32::magnitude_of(hc - 2057)
            * vstd::arithmetic::power2::pow2(149),
{
    lemma_quotient_is_accurate(r.0, ha - 2088, 1499);
    lemma_quotient_is_accurate(r.1, hb - 2077, 1540);
    lemma_quotient_is_accurate(r.2, hc - 2057, 1514);
}

/// Of two readings of a sensor, the higher one has the higher normalized value.
pub proof fn law_normalized_readings_keep_their_order(
    low: (u16, u16, u16),
    high: (u16, u16, u16),
    r: (Float32, Float32, Float32),
    s: (Float32, Float32, Float32),
)
    requires
        call_ensures(normalize_hall, (low.0, low.1, low.2), r),
        call_ensures(normalize_hall, (high.0, high.1, high.2), s),
    ensures
        low.0 < high.0 ==> r.0.value() < s.0.value(),
        low.1 < high.1 ==> r.1.value() < s.1.value(),
        low.2 < high.2 ==> r.2.value() < s.2.value(),
{
    if low.0 < high.0 {
        lemma_quotients_keep_their_order(r.0, s.0, low.0 - 2088, high.0 - 2088, 1499);
    }
    if low.1 < high.1 {
        lemma_quotients_keep_their_order(r.1, s.1, low.1 - 2077, high.1 - 2077, 1540);
    }
    if low.2 < high.2 {
        lemma_quotients_keep_their_order(r.2, s.2, low.2 - 2057, high.2 - 2057, 1514);
    }
}

/// Two readings equally far from the middle, on either side of it, have
/// opposite normalized values.
pub proof fn law_normalized_readings_are_symmetric(
    above: (u16, u16, u16),
    below: (u16, u16, u16),
    r: (Float32, Float32, Float32),
    s: (Float32, Float32, Float32),
)
    requires
        call_ensures(normalize_hall, (above.0, above.1, above.2), r),
        call_ensures(normalize_hall, (below.0, below.1, below.2), s),
    ensures
        above.0 + below.0 == 2 * 2088 ==> r.0.value() == -s.0.value(),
        above.1 + below.1 == 2 * 2077 ==> r.1.value() == -s.1.value(),
        above.2 + below.2 == 2 * 2057 ==> r.2.value() == -s.2.value(),
{
    if above.0 + below.0 == 2 * 2088 {
        lemma_opposite_quotients(r.0, s.0, above.0 - 2088, 1499);
    }
    if above.1 + below.1 == 2 * 2077 {
        lemma_opposite_quotients(r.1, s.1, above.1 - 2077, 1540);
    }
    if above.2 + below.2 == 2 * 2057 {
        lemma_opposite_quotients(r.2, s.2, above.2 - 2057, 1514);
    }
}

/// Accuracy of a quotient of two short integers.
proof fn lemma_quotient_is_accurate(x: Float32, num: int, den: int)
    requires
        nearest_quotient(x, num, den),
        -0x1_0000 < num < 0x1_0000,
        0 < den < 0x1_0000,
    ensures
        x.value() > 0 <==> num > 0,
        x.value() < 0 <==> num < 0,
        0x100_0000 * off_by(x, num, den) <= crate::float32::magnitude_of(num)
            * vstd::arithmetic::power2::pow2(149),
{
    let p = vstd::arithmetic::power2::pow2(149) as int;
    let n = crate::float32::magnitude_of(num);
    let v = x.size();
    crate::rounding::lemma_value_sign(x.magnitude());
    crate::rounding::lemma_value_sign(0);
    vstd::arithmetic::power2::lemma_pow2_pos(149);
    crate::rounding::lemma_rounded_is(x.magnitude(), n * p, den);
    assert((-v) * den == -(v * den)) by (nonlinear_arith);
    assert((-n) * p == -(n * p)) by (nonlinear_arith);
    if num == 0 {
        assert(n * p == 0) by (nonlinear_arith)
            requires
                n == 0,
        ;
        crate::rounding::lemma_rounded_at_most(n * p, den, 0);
        assert(v * den == 0) by (nonlinear_arith)
            requires
                v == 0,
        ;
    } else {
        lemma_large_unit();
        assert(n * p >= 0x80_0000 * den) by (nonlinear_arith)
            requires
                n >= 1,
                p >= 0x80_0000 * 0x1_0000,
                0 < den < 0x1_0000,
        ;
        let top = crate::rounding::magnitude_value(crate::rounding::INFINITE as int);
        assert(n * p <= top * den) by (nonlinear_arith)
            requires
                0 <= n < 0x1_0000,
                top >= 0x1_0000 * p,
                den >= 1,
                p > 0,
        ;
        crate::rounding::law_rounding_error_is_relative(n * p, den);
        assert(n * p > 0) by (nonlinear_arith)
            requires
                n >= 1,
                p > 0,
        ;
        if v == 0 {
            assert(v * den == 0) by (nonlinear_arith)
                requires
                    v == 0,
            ;
            assert(false);
        }
    }
}

/// Powers of two around the unit of numbers.
proof fn lemma_large_unit()
    ensures
        vstd::arithmetic::power2::pow2(149) >= 0x80_0000 * 0x1_0000,
        crate::rounding::magnitude_value(crate::rounding::INFINITE as int) >= 0x1_0000
            * vstd::arithmetic::power2::pow2(149),
{
    vstd::arithmetic::power2::lemma2_to64();
    vstd::arithmetic::power2::lemma_pow2_adds(23, 16);
    vstd::arithmetic::power2::lemma_pow2_strictly_increases(39, 149);
    vstd::arithmetic::power2::lemma_pow2_adds(16, 149);
    vstd::arithmetic::power2::lemma_pow2_adds(23, 254);
    vstd::arithmetic::power2::lemma_pow2_strictly_increases(165, 277);
    let e = crate::rounding::spacing_exponent(crate::rounding::INFINITE as int);
    assert(e == 254);
    let (s, q) = (
        crate::rounding::significand(crate::rounding::INFINITE as int),
        vstd::arithmetic::power2::pow2(254) as int,
    );
    assert(s * q == 0x80_0000 * q) by (nonlinear_arith)
        requires
            s == 0x80_0000,
    ;
}

/// Quotients of short integers by the same divisor keep the order.
proof fn lemma_quotients_keep_their_order(x: Float32, y: Float32, a: int, b: int, den: int)
    requires
        nearest_quotient(x, a, den),
        nearest_quotient(y, b, den),
        -0x1_0000 < a < b < 0x1_0000,
        0 < den < 0x1_0000,
    ensures
        x.value() < y.value(),
{
    let p = vstd::arithmetic::power2::pow2(149) as int;
    lemma_quotient_is_accurate(x, a, den);
    lemma_quotient_is_accurate(y, b, den);
    vstd::arithmetic::power2::lemma_pow2_pos(149);
    let (m, n) = (crate::float32::magnitude_of(a), crate::float32::magnitude_of(b));
    let (v, w) = (x.value(), y.value());
    assert(m * p <= 0x1_0000 * p) by (nonlinear_arith)
        requires
            m < 0x1_0000,
            p > 0,
    ;
    assert(n * p <= 0x1_0000 * p) by (nonlinear_arith)
        requires
            n < 0x1_0000,
            p > 0,
    ;
    assert(b * p - a * p >= p) by (nonlinear_arith)
        requires
            b >= a + 1,
            p > 0,
    ;
    assert(v * den < w * den);
    assert(v < w) by (nonlinear_arith)
        requires
            v * den < w * den,
            den > 0,
    ;
}

/// Opposite integers have opposite quotients.
proof fn lemma_opposite_quotients(x: Float32, y: Float32, num: int, den: int)
    requires
        nearest_quotient(x, num, den),
        nearest_quotient(y, -num, den),
        -0x1_0000 < num < 0x1_0000,
        0 < den < 0x1_0000,
    ensures
        x.value() == -y.value(),
{
    let p = vstd::arithmetic::power2::pow2(149) as int;
    let n = crate::float32::magnitude_of(num) * p;
    crate::rounding::lemma_nearest_is_unique(x.magnitude(), y.magnitude(), n, den);
    lemma_quotient_is_accurate(x, num, den);
    lemma_quotient_is_accurate(y, -num, den);
}

/// The vector's first component is the first phase, and its second one is the
/// difference of the other two divided by the square root of three; both steps
/// give the nearest number. The divisor is the number nearest to that root.
pub proof fn law_clarke_vector(a: Float32, b: Float32, c: Float32, r: (Float32, Float32))
    requires
        b.magnitude() < 0x7f00_0000,
        c.magnitude() < 0x7f00_0000,
        call_ensures(clarke_trans, (a, b, c), r),
    ensures
        r.0 == a,
        exists|d: Float32|
            {
                &&& #[trigger] d.is_finite()
                &&& crate::rounding::is_nearest(
                    d.magnitude(),
                    crate::float32::magnitude_of(b.value() - c.value()),
                    1,
                )
                &&& b.value() > c.value() ==> !d.is_negative()
                &&& b.value() < c.value() ==> d.is_negative()
                &&& r.1.is_negative() == d.is_negative()
                &&& crate::rounding::is_nearest(
                    r.1.magnitude(),
                    d.size() * vstd::arithmetic::power2::pow2(149),
                    (Float32 { bits: 0x3fdd_b3d7 }).size(),
                )
            },
        (Float32 { bits: 0x3fdd_b3d7 }).size() == 14_529_495 * vstd::arithmetic::power2::pow2(126),
        29_058_989 * 29_058_989 < 3 * (0x100_0000 * 0x100_0000) < 29_058_991 * 29_058_991,
{
    let d = b.spec_minus(c);
    let root = Float32 { bits: SQRT_3 };
    lemma_negated(c);
    vstd::arithmetic::power2::lemma_pow2_pos(149);
    lemma_difference_of_halves(b, c);
    lemma_sum_within(b, c.spec_negated(), 0x7f7f_ffff);
    crate::rounding::lemma_value_sign(0);
    crate::rounding::lemma_exact_is_nearest(0, 0, 1);
    crate::rounding::lemma_rounded_is_nearest(
        crate::float32::magnitude_of(b.value() - c.value()),
        1,
    );
    lemma_size_order(d, 0);
    crate::rounding::lemma_value_sign(SQRT_3 as int);
    let (sd, p) = (d.size(), vstd::arithmetic::power2::pow2(149) as int);
    assert(sd * p >= 0) by (nonlinear_arith)
        requires
            sd >= 0,
            p > 0,
    ;
    crate::rounding::lemma_rounded_is_nearest(sd * p, root.size());
    assert(d.is_finite());
}

/// The difference of two numbers, each below half of infinity, is finite.
proof fn lemma_difference_of_halves(b: Float32, c: Float32)
    requires
        b.magnitude() < 0x7f00_0000,
        c.magnitude() < 0x7f00_0000,
    ensures
        -crate::rounding::magnitude_value(0x7f7f_ffff) <= b.value() - c.value(),
        b.value() - c.value() <= crate::rounding::magnitude_value(0x7f7f_ffff),
{
    let below: int = 0x7eff_ffff;
    lemma_size_order(b, below);
    lemma_size_order(c, below);
    vstd::arithmetic::power2::lemma_pow2_unfold(253);
    let (x, y) = (b.size(), c.size());
    let half = crate::rounding::magnitude_value(below);
    let whole = crate::rounding::magnitude_value(0x7f7f_ffff);
    let e = vstd::arithmetic::power2::pow2(252) as int;
    assert(crate::rounding::spacing_exponent(below) == 252);
    assert(crate::rounding::spacing_exponent(0x7f7f_ffff) == 253);
    assert(whole == 2 * half) by (nonlinear_arith)
        requires
            half == 16_777_215 * e,
            whole == 16_777_215 * (2 * e),
    ;
}

/// Readings from a circle can be followed, as long as the angles are within
/// 2^30 radians and the turns within a million of zero.
pub proof fn law_ordinary_readings_can_be_followed(
    tracker: HallAngleTracker,
    theta: Float32,
    angle: Angle,
    followed: bool,
    moved: bool,
)
    requires
        theta.magnitude() <= PI,
        tracker.last() matches Some(prev) ==> prev.magnitude() <= PI,
        -1_000_000 <= tracker.rotations() <= 1_000_000,
        -0x4000_0000_0000_0000 <= tracker.shift() <= 0x4000_0000_0000_0000,
        -0x4000_0000_0000_0000 <= tracker.start().bits <= 0x4000_0000_0000_0000,
        -0x4000_0000_0000_0000 <= angle.bits <= 0x4000_0000_0000_0000,
        call_ensures(HallAngleTracker::can_update, (&tracker, theta), followed),
        call_ensures(HallAngleTracker::can_reset, (&tracker, angle), moved),
    ensures
        followed,
        moved,
{
    let new = theta.spec_negated();
    lemma_negated(theta);
    lemma_circle_fits(new);
    let n = tracker.rotations();
    assert(-26_986_103_146_076_160 <= n * TURN_BITS <= 26_986_103_146_076_160) by (nonlinear_arith)
        requires
            -1_000_000 <= n <= 1_000_000,
            TURN_BITS == 26_986_076_160,
    ;
    if let Some(prev) = tracker.last() {
        lemma_circle_fits(prev);
        let turns = n + turns_gained(new, prev);
        assert(-26_986_103_146_076_160 <= turns * TURN_BITS <= 26_986_103_146_076_160)
            by (nonlinear_arith)
            requires
                -1_000_001 <= turns <= 1_000_001,
                TURN_BITS == 26_986_076_160,
        ;
    }
}

/// A reading from a circle is an angle.
proof fn lemma_circle_fits(x: Float32)
    requires
        x.magnitude() <= PI,
    ensures
        x.fits_fixed(),
        -0x4_0000_0000 < x.spec_to_fixed() < 0x4_0000_0000,
{
    let (b, c) = (
        vstd::arithmetic::power2::pow2(126) as int,
        vstd::arithmetic::power2::pow2(117) as int,
    );
    lemma_circle(b);
    lemma_size_order(x, PI as int);
    lemma_to_fixed(x, c);
    vstd::arithmetic::power2::lemma2_to64();
    vstd::arithmetic::power2::lemma_pow2_pos(117);
    vstd::arithmetic::power2::lemma_pow2_adds(117, 9);
    let f = x.spec_to_fixed();
    assert(-0x4_0000_0000 < f < 0x4_0000_0000) by (nonlinear_arith)
        requires
            -13_493_038_081 * c <= f * c <= 13_493_038_081 * c,
            c > 0,
    ;
}

/// Tracking is lost between two readings exactly when their wrapped difference
/// is more than the number for half pi. Between two readings that differ by more
/// than the number for pi a whole turn is counted, against the difference.
pub proof fn law_lost_and_counted_turns(
    new: Float32,
    prev: Float32,
    wrapped: Float32,
    difference: Float32,
)
    requires
        call_ensures(wrapped_angle_sub, (new, prev), wrapped),
        call_ensures(Float32::minus, (new, prev), difference),
        !wrapped.is_nan(),
        !difference.is_nan(),
    ensures
        lost_between(new, prev) <==> wrapped.size() > (Float32 { bits: 0x3fc9_0fdb }).size(),
        turns_gained(new, prev) == -1 <==> difference.value() > (Float32 {
            bits: 0x4049_0fdb,
        }).size(),
        turns_gained(new, prev) == 1 <==> difference.value() < -(Float32 {
            bits: 0x4049_0fdb,
        }).size(),
        -1 <= turns_gained(new, prev) <= 1,
{
    let pi = Float32 { bits: PI };
    lemma_negated(pi);
    lemma_pi();
    lemma_size_order(wrapped, 0);
}

/// A reading from a circle that is accepted moves the reported angle by at most
/// a quarter turn, up to rounding, and against the direction of the Clarke
/// vector: by the change of the opposite reading and by whole turns.
pub proof fn law_update_follows_the_shaft(
    tracker: &mut HallAngleTracker,
    theta: Float32,
    prev: Float32,
    r: Result<Angle, &'static str>,
)
    requires
        old(tracker).last() == Some(prev),
        prev.magnitude() <= PI,
        theta.magnitude() <= PI,
        call_ensures(HallAngleTracker::update, (tracker, theta), r),
    ensures
        r is Err ==> *final(tracker) == *old(tracker),
        r matches Ok(angle) ==> {
            let before = old(tracker).unshifted() + old(tracker).shift();
            let turned = angle.bits - before;
            &&& -(quarter_turn() + slack()) <= turned <= quarter_turn() + slack()
            &&& (turned - (theta.spec_negated().spec_to_fixed() - prev.spec_to_fixed()))
                % (TURN_BITS as int) == 0
        },
{
    let new = theta.spec_negated();
    lemma_negated(theta);
    if r is Ok {
        law_accepted_reading_moves_at_most_a_quarter_turn(new, prev);
        law_reported_angle_moves_with_the_readings(*old(tracker), *final(tracker));
        let n = turns_gained(new, prev);
        vstd::arithmetic::div_mod::lemma_mod_multiples_basic(n, TURN_BITS as int);
    }
}

/// After a reset the last reading, when it comes again, is reported at the angle
/// of the reset.
pub proof fn law_reset_is_reported(
    tracker: &mut HallAngleTracker,
    next: &mut HallAngleTracker,
    angle: Angle,
    theta: Float32,
    r: Result<Angle, &'static str>,
)
    requires
        theta.is_finite(),
        old(tracker).last() == Some(theta.spec_negated()),
        call_ensures(HallAngleTracker::reset, (tracker, angle), ()),
        *old(next) == *final(tracker),
        call_ensures(HallAngleTracker::update, (next, theta), r),
    ensures
        r == Ok::<Angle, &'static str>(angle),
{
    lemma_negated(theta);
    law_repeated_reading_is_accepted(theta.spec_negated());
}

/// The first reading of a new tracker is reported at its initial angle.
pub proof fn law_first_reading_is_at_the_start(
    tracker: &mut HallAngleTracker,
    angle: Angle,
    theta: Float32,
    r: Result<Angle, &'static str>,
)
    requires
        call_ensures(HallAngleTracker::new, (angle,), *old(tracker)),
        call_ensures(HallAngleTracker::update, (tracker, theta), r),
    ensures
        r == Ok::<Angle, &'static str>(angle),
{
}

} // verus!
