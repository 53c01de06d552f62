//! Animations of the status LED.
use vstd::arithmetic::power2::{
    lemma2_to64, lemma_pow2_adds, lemma_pow2_pos, lemma_pow2_unfold, pow2,
};
use vstd::prelude::*;

use crate::float32::{Float32, ONE};
use crate::time::Duration;
use crate::util::{const_checked_add, const_checked_mul, const_checked_sub, div, rem};

verus! {

/// Encodings of some numbers.
pub const TWO: u32 = 0x4000_0000;

pub const HALF: u32 = 0x3f00_0000;

pub const FULL_CIRCLE_DEGREES: u32 = 0x43b4_0000;

/// How long an LED stays off, in seconds, before the off animation ends.
pub const OFF_SECS: u64 = 100_000;

/// An sRGB color. 0 is dark and 1 is full brightness.
#[derive(Clone, Copy, Debug, PartialEq, Eq, Structural)]
pub struct Color {
    pub r: Float32,
    pub g: Float32,
    pub b: Float32,
}

/// The color without light.
pub open spec fn spec_black() -> Color {
    Color { r: Float32 { bits: 0 }, g: Float32 { bits: 0 }, b: Float32 { bits: 0 } }
}

impl Color {
    /// The color without light.
    pub fn black() -> (c: Color)
        ensures
            c == spec_black(),
    {
        Color { r: Float32 { bits: 0 }, g: Float32 { bits: 0 }, b: Float32 { bits: 0 } }
    }

    pub open spec fn spec_scaled(self, factor: Float32) -> Color {
        Color {
            r: self.r.spec_times(factor),
            g: self.g.spec_times(factor),
            b: self.b.spec_times(factor),
        }
    }

    /// Every component times `factor`.
    pub fn scaled(self, factor: Float32) -> (c: Color)
        ensures
            c == self.spec_scaled(factor),
    {
        Color { r: self.r.times(factor), g: self.g.times(factor), b: self.b.times(factor) }
    }
}

/// What an animation shows at one moment.
#[derive(Clone, Copy, Debug, PartialEq, Eq, Structural)]
pub enum Shade {
    /// A color.
    Rgb(Color),
    /// The fully saturated color of a hue in degrees at half lightness, shown
    /// at half brightness.
    Hue(Float32),
}

/// A steady color.
#[derive(Clone, Copy, Debug, PartialEq, Eq, Structural)]
pub struct Solid {
    color: Color,
    duration: Duration,
}

/// A number of flashes between two pauses.
#[derive(Clone, Copy, Debug, PartialEq, Eq, Structural)]
pub struct Pulse {
    color: Color,
    initial_delay: Duration,
    final_delay: Duration,
    period: Duration,
    on_width: Duration,
    duration: Duration,
}

/// A color that grows to full brightness and fades again.
#[derive(Clone, Copy, Debug, PartialEq, Eq, Structural)]
pub struct FadeInFadeOut {
    color: Color,
    duration: Duration,
}

/// One trip around the color circle.
#[derive(Clone, Copy, Debug, PartialEq, Eq, Structural)]
pub struct Rainbow {
    duration: Duration,
}

/// Something for the LED to show over time.
#[derive(Clone, Copy, Debug, PartialEq, Eq, Structural)]
pub enum Animation {
    Off,
    Solid(Solid),
    Pulse(Pulse),
    FadeInFadeOut(FadeInFadeOut),
    Rainbow(Rainbow),
}

impl Solid {
    #[verifier::type_invariant]
    spec fn lasts(self) -> bool {
        self.duration.ticks >= 1
    }

    pub closed spec fn shown(self) -> Color {
        self.color
    }

    pub closed spec fn length(self) -> Duration {
        self.duration
    }

    pub fn new(color: Color, duration: Duration) -> (r: Self)
        requires
            duration.ticks >= 1,
        ensures
            r == Solid::spec_new(color, duration),
            r.shown() == color,
            r.length() == duration,
    {
        Solid { color, duration }
    }

    pub closed spec fn spec_new(color: Color, duration: Duration) -> Self {
        Solid { color, duration }
    }
}

/// Ticks of `n` flashes of `width` that begin `period` apart, with the pauses
/// around them.
pub open spec fn pulse_ticks(
    initial_delay: int,
    width: int,
    period: int,
    final_delay: int,
    n: int,
) -> int {
    initial_delay + n * width + (n - 1) * (period - width) + final_delay
}

impl Pulse {
    #[verifier::type_invariant]
    spec fn pauses_fit(self) -> bool {
        &&& self.period.ticks >= 1
        &&& self.on_width.ticks <= self.period.ticks
        &&& self.initial_delay.ticks + self.final_delay.ticks <= self.duration.ticks
    }

    pub closed spec fn shown(self) -> Color {
        self.color
    }

    /// Pause before the first flash.
    pub closed spec fn lead(self) -> Duration {
        self.initial_delay
    }

    /// Pause after the last flash.
    pub closed spec fn tail(self) -> Duration {
        self.final_delay
    }

    /// Time from the begin of a flash to that of the next one.
    pub closed spec fn cycle(self) -> Duration {
        self.period
    }

    /// Length of a flash.
    pub closed spec fn width(self) -> Duration {
        self.on_width
    }

    pub closed spec fn length(self) -> Duration {
        self.duration
    }

    /// `num_pulses` flashes of `pulse_width`, each `period` after the other,
    /// with a pause before and after them.
    pub fn new(
        color: Color,
        initial_delay: Duration,
        pulse_width: Duration,
        period: Duration,
        final_delay: Duration,
        num_pulses: u64,
    ) -> (r: Self)
        requires
            period.ticks >= 1,
            pulse_width.ticks <= period.ticks,
            num_pulses >= 1,
            pulse_ticks(
                initial_delay.ticks as int,
                pulse_width.ticks as int,
                period.ticks as int,
                final_delay.ticks as int,
                num_pulses as int,
            ) <= u64::MAX,
        ensures
            r == Pulse::spec_new(
                color,
                initial_delay,
                pulse_width,
                period,
                final_delay,
                num_pulses,
            ),
            r.shown() == color,
            r.lead() == initial_delay,
            r.tail() == final_delay,
            r.cycle() == period,
            r.width() == pulse_width,
            r.length().ticks == pulse_ticks(
                initial_delay.ticks as int,
                pulse_width.ticks as int,
                period.ticks as int,
                final_delay.ticks as int,
                num_pulses as int,
            ),
    {
        proof {
            let (n, w, off) = (
                num_pulses as int,
                pulse_width.ticks as int,
                period.ticks - pulse_width.ticks,
            );
            assert(n * w >= 0) by (nonlinear_arith)
                requires
                    n >= 1,
                    w >= 0,
            ;
            assert((n - 1) * off >= 0) by (nonlinear_arith)
                requires
                    n >= 1,
                    off >= 0,
            ;
            assert(w * n == n * w) by (nonlinear_arith);
            assert(off * (n - 1) == (n - 1) * off) by (nonlinear_arith);
        }
        let off_width = const_checked_sub(period, pulse_width).unwrap();
        let on_total_duration = const_checked_mul(pulse_width, num_pulses).unwrap();
        let off_total_duration = const_checked_mul(off_width, num_pulses - 1).unwrap();
        let delays_total = const_checked_add(initial_delay, final_delay).unwrap();
        let on_off_duration = const_checked_add(on_total_duration, off_total_duration).unwrap();
        let duration = const_checked_add(on_off_duration, delays_total).unwrap();
        Pulse { color, initial_delay, final_delay, period, on_width: pulse_width, duration }
    }

    pub closed spec fn spec_new(
        color: Color,
        initial_delay: Duration,
        pulse_width: Duration,
        period: Duration,
        final_delay: Duration,
        num_pulses: u64,
    ) -> Self {
        Pulse {
            color,
            initial_delay,
            final_delay,
            period,
            on_width: pulse_width,
            duration: Duration {
                ticks: pulse_ticks(
                    initial_delay.ticks as int,
                    pulse_width.ticks as int,
                    period.ticks as int,
                    final_delay.ticks as int,
                    num_pulses as int,
                ) as u64,
            },
        }
    }

    /// What `spec_new` puts together.
    pub proof fn lemma_parts(
        color: Color,
        initial_delay: Duration,
        pulse_width: Duration,
        period: Duration,
        final_delay: Duration,
        num_pulses: u64,
    )
        ensures
            ({
                let r = Pulse::spec_new(
                    color,
                    initial_delay,
                    pulse_width,
                    period,
                    final_delay,
                    num_pulses,
                );
                &&& r.shown() == color
                &&& r.lead() == initial_delay
                &&& r.tail() == final_delay
                &&& r.cycle() == period
                &&& r.width() == pulse_width
                &&& r.length().ticks == pulse_ticks(
                    initial_delay.ticks as int,
                    pulse_width.ticks as int,
                    period.ticks as int,
                    final_delay.ticks as int,
                    num_pulses as int,
                ) as u64
            }),
    {
    }
}

impl FadeInFadeOut {
    #[verifier::type_invariant]
    spec fn lasts(self) -> bool {
        self.duration.ticks >= 1
    }

    pub closed spec fn shown(self) -> Color {
        self.color
    }

    pub closed spec fn length(self) -> Duration {
        self.duration
    }

    pub fn new(color: Color, duration: Duration) -> (r: Self)
        requires
            duration.ticks >= 1,
        ensures
            r == FadeInFadeOut::spec_new(color, duration),
            r.shown() == color,
            r.length() == duration,
    {
        FadeInFadeOut { color, duration }
    }

    pub closed spec fn spec_new(color: Color, duration: Duration) -> Self {
        FadeInFadeOut { color, duration }
    }

    /// What `spec_new` puts together.
    pub proof fn lemma_parts(color: Color, duration: Duration)
        ensures
            FadeInFadeOut::spec_new(color, duration).shown() == color,
            FadeInFadeOut::spec_new(color, duration).length() == duration,
    {
    }
}

impl Rainbow {
    #[verifier::type_invariant]
    spec fn lasts(self) -> bool {
        self.duration.ticks >= 1
    }

    pub closed spec fn length(self) -> Duration {
        self.duration
    }

    pub fn new(duration: Duration) -> (r: Self)
        requires
            duration.ticks >= 1,
        ensures
            r == Rainbow::spec_new(duration),
            r.length() == duration,
    {
        Rainbow { duration }
    }

    pub closed spec fn spec_new(duration: Duration) -> Self {
        Rainbow { duration }
    }

    /// What `spec_new` puts together.
    pub proof fn lemma_parts(duration: Duration)
        ensures
            Rainbow::spec_new(duration).length() == duration,
    {
    }
}

/// Whether the pulse is lit `u` ticks after its begin.
pub open spec fn pulse_is_lit(pulse: Pulse, u: int) -> bool {
    &&& pulse.lead().ticks <= u < pulse.length().ticks - pulse.tail().ticks
    &&& (u - pulse.lead().ticks) % (pulse.cycle().ticks as int) < pulse.width().ticks
}

/// Brightness of a fade at the fraction `x` of its length: it rises to 1 in
/// the first half and falls in the second.
pub open spec fn spec_brightness(x: Float32) -> Float32 {
    if x.spec_less_than(Float32 { bits: HALF }) {
        (Float32 { bits: TWO }).spec_times(x)
    } else {
        (Float32 { bits: TWO }).spec_times((Float32 { bits: ONE }).spec_minus(x))
    }
}

impl Animation {
    pub open spec fn length(self) -> Duration {
        match self {
            Animation::Off => Duration { ticks: (OFF_SECS * crate::time::TICK_HZ) as u64 },
            Animation::Solid(solid) => solid.length(),
            Animation::Pulse(pulse) => pulse.length(),
            Animation::FadeInFadeOut(fade) => fade.length(),
            Animation::Rainbow(rainbow) => rainbow.length(),
        }
    }

    /// What is shown `t` after the begin; the animation starts over whenever
    /// its length has passed.
    pub open spec fn spec_eval(self, t: int) -> Shade {
        let u = t % (self.length().ticks as int);
        let x = crate::util::spec_div(Duration { ticks: u as u64 }, self.length());
        match self {
            Animation::Off => Shade::Rgb(spec_black()),
            Animation::Solid(solid) => Shade::Rgb(solid.shown()),
            Animation::Pulse(pulse) => Shade::Rgb(
                if pulse_is_lit(pulse, u) {
                    pulse.shown()
                } else {
                    spec_black()
                },
            ),
            Animation::FadeInFadeOut(fade) => Shade::Rgb(
                fade.shown().spec_scaled(spec_brightness(x)),
            ),
            Animation::Rainbow(rainbow) => Shade::Hue(
                (Float32 { bits: FULL_CIRCLE_DEGREES }).spec_times(x),
            ),
        }
    }

    pub fn duration(&self) -> (d: Duration)
        ensures
            d == self.length(),
            !(self is Pulse) ==> d.ticks >= 1,
    {
        match self {
            Animation::Off => Duration::from_secs(OFF_SECS),
            Animation::Solid(solid) => {
                proof {
                    use_type_invariant(solid);
                }
                solid.duration
            },
            Animation::Pulse(pulse) => pulse.duration,
            Animation::FadeInFadeOut(fade) => {
                proof {
                    use_type_invariant(fade);
                }
                fade.duration
            },
            Animation::Rainbow(rainbow) => {
                proof {
                    use_type_invariant(rainbow);
                }
                rainbow.duration
            },
        }
    }

    /// What is shown `t` after the begin. A pulse of length zero has nothing
    /// to show.
    pub fn eval(&self, t: Duration) -> (shade: Shade)
        requires
            self.length().ticks >= 1,
        ensures
            shade == self.spec_eval(t.ticks as int),
    {
        let t = rem(t, self.duration());
        match self {
            Animation::Off => Shade::Rgb(Color::black()),
            Animation::Solid(solid) => Shade::Rgb(solid.color),
            Animation::Pulse(pulse) => {
                proof {
                    use_type_invariant(pulse);
                }
                if t.ticks < pulse.initial_delay.ticks || t.ticks >= pulse.duration.minus(
                    pulse.final_delay,
                ).ticks {
                    Shade::Rgb(Color::black())
                } else {
                    let t_prime = t.minus(pulse.initial_delay);
                    let t_rel = rem(t_prime, pulse.period);
                    if t_rel.ticks < pulse.on_width.ticks {
                        Shade::Rgb(pulse.color)
                    } else {
                        Shade::Rgb(Color::black())
                    }
                }
            },
            Animation::FadeInFadeOut(fade) => {
                let t_norm = div(t, fade.duration);
                let two = Float32 { bits: TWO };
                let brightness = if t_norm.less_than(Float32 { bits: HALF }) {
                    two.times(t_norm)
                } else {
                    two.times((Float32 { bits: ONE }).minus(t_norm))
                };
                Shade::Rgb(fade.color.scaled(brightness))
            },
            Animation::Rainbow(rainbow) => {
                let t_norm = div(t, rainbow.duration);
                Shade::Hue((Float32 { bits: FULL_CIRCLE_DEGREES }).times(t_norm))
            },
        }
    }
}

/// An animation repeats after its length.
pub proof fn law_animation_is_periodic(animation: Animation, t: int)
    requires
        animation.length().ticks >= 1,
    ensures
        animation.spec_eval(t + animation.length().ticks) == animation.spec_eval(t),
{
    vstd::arithmetic::div_mod::lemma_mod_add_multiples_vanish(t, animation.length().ticks as int);
}

/// A pulse of `n` flashes is lit in `n` windows and nowhere else: the flash
/// with number `k` begins `k` periods after the first pause and lasts for the
/// width.
pub proof fn law_pulse_flashes_n_times(pulse: Pulse, n: int, u: int)
    requires
        n >= 1,
        pulse.cycle().ticks >= 1,
        pulse.width().ticks <= pulse.cycle().ticks,
        0 <= u,
        pulse.length().ticks == pulse_ticks(
            pulse.lead().ticks as int,
            pulse.width().ticks as int,
            pulse.cycle().ticks as int,
            pulse.tail().ticks as int,
            n,
        ),
    ensures
        pulse_is_lit(pulse, u) <==> exists|k: int|
            0 <= k < n && #[trigger] flash_begin(pulse, k) <= u < flash_begin(pulse, k)
                + pulse.width().ticks,
{
    let (w, p, lead) = (
        pulse.width().ticks as int,
        pulse.cycle().ticks as int,
        pulse.lead().ticks as int,
    );
    let v = u - lead;
    assert(n * w + (n - 1) * (p - w) == (n - 1) * p + w) by (nonlinear_arith);
    if pulse_is_lit(pulse, u) {
        let k = v / p;
        vstd::arithmetic::div_mod::lemma_fundamental_div_mod(v, p);
        vstd::arithmetic::div_mod::lemma_mod_pos_bound(v, p);
        vstd::arithmetic::div_mod::lemma_div_pos_is_pos(v, p);
        assert(p * k == k * p) by (nonlinear_arith);
        if k >= n {
            assert(k * p >= n * p) by (nonlinear_arith)
                requires
                    k >= n,
                    p >= 1,
            ;
            assert(n * p == (n - 1) * p + p) by (nonlinear_arith);
        }
        assert(flash_begin(pulse, k) <= u < flash_begin(pulse, k) + w);
    }
    if exists|k: int|
        0 <= k < n && #[trigger] flash_begin(pulse, k) <= u < flash_begin(pulse, k)
            + pulse.width().ticks {
        let k = choose|k: int|
            0 <= k < n && #[trigger] flash_begin(pulse, k) <= u < flash_begin(pulse, k)
                + pulse.width().ticks;
        assert(0 <= k * p <= (n - 1) * p) by (nonlinear_arith)
            requires
                0 <= k <= n - 1,
                p >= 1,
        ;
        vstd::arithmetic::div_mod::lemma_fundamental_div_mod_converse(v, p, k, v - k * p);
    }
}

/// Begin of the flash with number `k`.
pub open spec fn flash_begin(pulse: Pulse, k: int) -> int {
    pulse.lead().ticks + k * pulse.cycle().ticks
}

/// The brightness of a fade is never negative and never above one.
pub proof fn law_fade_brightness_is_a_fraction(t: Duration, length: Duration)
    requires
        t.ticks < length.ticks,
    ensures
        !spec_brightness(crate::util::spec_div(t, length)).is_negative(),
        spec_brightness(crate::util::spec_div(t, length)).magnitude() <= ONE,
{
    let (p, one, half) = (
        pow2(149) as int,
        Float32 { bits: ONE },
        Float32 { bits: HALF },
    );
    let (a, b, x) = (
        Float32::spec_from_u64(t.ticks),
        Float32::spec_from_u64(length.ticks),
        crate::util::spec_div(t, length),
    );
    lemma_pow2_pos(149);
    lemma_integer_is_finite(t.ticks);
    lemma_integer_is_finite(length.ticks);
    crate::float32::lemma_one();
    lemma2_to64();
    lemma_pow2_adds(23, 125);
    lemma_pow2_adds(23, 127);
    lemma_pow2_unfold(149);
    lemma_pow2_unfold(150);
    assert(half.size() == pow2(148));
    assert((Float32 { bits: TWO }).size() == 2 * p);
    // The fraction is at most one.
    assert(0 <= t.ticks * p <= length.ticks * p) by (nonlinear_arith)
        requires
            0 <= t.ticks <= length.ticks,
            p > 0,
    ;
    crate::rounding::law_rounding_is_monotone(t.ticks * p, length.ticks * p, 1);
    crate::rounding::lemma_value_sign(a.magnitude());
    crate::rounding::lemma_value_sign(b.magnitude());
    if a.magnitude() < b.magnitude() {
        crate::rounding::lemma_value_increases(a.magnitude(), b.magnitude());
    }
    let (sa, sb) = (a.size(), b.size());
    assert(0 <= sa * p <= p * sb) by (nonlinear_arith)
        requires
            0 <= sa <= sb,
            p > 0,
    ;
    crate::rounding::lemma_rounded_at_most(sa * p, sb, ONE as int);
    assert(!x.is_negative() && x.magnitude() <= ONE);
    crate::rounding::lemma_value_sign(x.magnitude());
    if x.magnitude() < ONE {
        crate::rounding::lemma_value_increases(x.magnitude(), ONE as int);
    }
    // Twice a number below a half, or what is missing to one from above.
    let y = if x.spec_less_than(half) {
        x
    } else {
        one.spec_minus(x)
    };
    assert(!y.is_negative() && y.magnitude() <= HALF) by {
        if x.spec_less_than(half) {
            if x.magnitude() > HALF {
                crate::rounding::lemma_value_increases(HALF as int, x.magnitude());
            }
        } else if one.size() != x.size() {
            crate::rounding::lemma_rounded_at_most(one.size() - x.size(), 1, HALF as int);
        }
    }
    crate::rounding::lemma_value_sign(y.magnitude());
    if y.magnitude() < HALF {
        crate::rounding::lemma_value_increases(y.magnitude(), HALF as int);
    }
    let sy = y.size();
    assert(0 <= (2 * p) * sy <= p * p) by (nonlinear_arith)
        requires
            0 <= 2 * sy <= p,
    ;
    crate::rounding::lemma_rounded_at_most((2 * p) * sy, p, ONE as int);
}

/// An integer becomes a finite number, and zero only when it is zero.
pub(crate) proof fn lemma_integer_is_finite(n: u64)
    ensures
        Float32::spec_from_u64(n).is_finite(),
        !Float32::spec_from_u64(n).is_negative(),
        Float32::spec_from_u64(n).magnitude() == crate::rounding::rounded(n * pow2(149), 1),
        n > 0 ==> Float32::spec_from_u64(n).magnitude() > 0,
{
    let p = pow2(149) as int;
    lemma_pow2_pos(149);
    lemma2_to64();
    // 2^64 in single precision.
    let top: int = 0x5f80_0000;
    lemma_pow2_adds(23, 190);
    lemma_pow2_adds(64, 149);
    assert(crate::rounding::magnitude_value(top) == pow2(213));
    assert(0 <= n * p <= 0x1_0000_0000_0000_0000 * p) by (nonlinear_arith)
        requires
            0 <= n <= 0x1_0000_0000_0000_0000,
            p > 0,
    ;
    crate::rounding::lemma_rounded_at_most(n * p, 1, top);
    if n > 0 {
        let (s, q) = (crate::rounding::significand(1), pow2(0) as int);
        assert(s * q == 1) by (nonlinear_arith)
            requires
                s == 1,
                q == 1,
        ;
        assert(n * p >= 1) by (nonlinear_arith)
            requires
                n >= 1,
                p >= 1,
        ;
        crate::rounding::lemma_rounded_at_least(n * p, 1, 1);
    }
}

/// What the steady animations show at any time: nothing, or the color.
pub proof fn law_steady_animations_do_not_change(animation: Animation, t: Duration, shade: Shade)
    requires
        animation.length().ticks >= 1,
        call_ensures(Animation::eval, (&animation, t), shade),
    ensures
        animation is Off ==> (shade matches Shade::Rgb(c) && c.r.bits == 0 && c.g.bits == 0
            && c.b.bits == 0),
        animation matches Animation::Solid(solid) ==> shade == Shade::Rgb(solid.shown()),
{
}

/// An animation shows the same whenever its length has passed.
pub proof fn law_animation_starts_over(
    animation: Animation,
    t: Duration,
    later: Duration,
    rounds: int,
    shade: Shade,
    later_shade: Shade,
)
    requires
        animation.length().ticks >= 1,
        later.ticks == t.ticks + rounds * animation.length().ticks,
        call_ensures(Animation::eval, (&animation, t), shade),
        call_ensures(Animation::eval, (&animation, later), later_shade),
    ensures
        later_shade == shade,
{
    let n = animation.length().ticks as int;
    assert(rounds * n == n * rounds) by (nonlinear_arith);
    vstd::arithmetic::div_mod::lemma_mod_multiples_vanish(rounds, t.ticks as int, n);
}

/// The pulse shows its color in the windows of its flashes, `k` periods after
/// the first pause, and is dark at every other time.
pub proof fn law_pulse_is_lit_in_its_windows(
    animation: Animation,
    n: int,
    t: Duration,
    shade: Shade,
)
    requires
        animation is Pulse,
        animation.length().ticks >= 1,
        flashes(animation->Pulse_0, n),
        t.ticks < animation.length().ticks,
        call_ensures(Animation::eval, (&animation, t), shade),
    ensures
        ({
            let pulse = animation->Pulse_0;
            let lit = exists|k: int|
                0 <= k < n && #[trigger] flash_begin(pulse, k) <= t.ticks < flash_begin(pulse, k)
                    + pulse.width().ticks;
            &&& lit ==> shade == Shade::Rgb(pulse.shown())
            &&& !lit ==> (shade matches Shade::Rgb(c) && c.r.bits == 0 && c.g.bits == 0 && c.b.bits
                == 0)
        }),
{
    let pulse = animation->Pulse_0;
    vstd::arithmetic::div_mod::lemma_small_mod(t.ticks as nat, animation.length().ticks as nat);
    law_pulse_flashes_n_times(pulse, n, t.ticks as int);
}

/// The pulse is one of `n` flashes.
pub open spec fn flashes(pulse: Pulse, n: int) -> bool {
    &&& n >= 1
    &&& pulse.cycle().ticks >= 1
    &&& pulse.width().ticks <= pulse.cycle().ticks
    &&& pulse.length().ticks == pulse_ticks(
        pulse.lead().ticks as int,
        pulse.width().ticks as int,
        pulse.cycle().ticks as int,
        pulse.tail().ticks as int,
        n,
    )
}

/// A fade rises in proportion to the time until its middle and then falls in
/// proportion to what is left: the brightness is within 2^-20 of
/// `2 * min(t, length - t) / length`, and each component is that part of the
/// color's.
pub proof fn law_fade_rises_and_falls(animation: Animation, t: Duration, shade: Shade)
    requires
        animation is FadeInFadeOut,
        animation.length().ticks >= 1,
        t.ticks < animation.length().ticks,
        animation->FadeInFadeOut_0.shown().r.is_finite(),
        animation->FadeInFadeOut_0.shown().g.is_finite(),
        animation->FadeInFadeOut_0.shown().b.is_finite(),
        call_ensures(Animation::eval, (&animation, t), shade),
    ensures
        exists|x: Float32|
            {
                let color = animation->FadeInFadeOut_0.shown();
                &&& #[trigger] is_brightness_at(x, t, animation.length())
                &&& shade matches Shade::Rgb(c) && is_part(c.r, color.r, x) && is_part(
                    c.g,
                    color.g,
                    x,
                ) && is_part(c.b, color.b, x)
            },
{
    let (color, length) = (animation->FadeInFadeOut_0.shown(), animation.length());
    vstd::arithmetic::div_mod::lemma_small_mod(t.ticks as nat, length.ticks as nat);
    let x = spec_brightness(crate::util::spec_div(t, length));
    assert(is_brightness_at(x, t, length)) by {
        lemma_brightness(t, length);
    }
    lemma_part(color.r, x);
    lemma_part(color.g, x);
    lemma_part(color.b, x);
}

/// `x` is within 2^-20 of the height of a triangle over the length, with its
/// top of one in the middle.
pub open spec fn is_brightness_at(x: Float32, t: Duration, length: Duration) -> bool {
    let height = if 2 * t.ticks <= length.ticks {
        2 * t.ticks
    } else {
        2 * (length.ticks - t.ticks)
    };
    &&& x.is_finite()
    &&& !x.is_negative()
    &&& x.size() * length.ticks <= height * pow2(149) + length.ticks * pow2(129)
    &&& height * pow2(149) <= x.size() * length.ticks + length.ticks * pow2(129)
}

/// `c` is the number nearest to the product of `full` and `x`.
pub open spec fn is_part(c: Float32, full: Float32, x: Float32) -> bool {
    &&& c.is_negative() == (full.is_negative() != x.is_negative())
    &&& crate::rounding::is_nearest(c.magnitude(), full.size() * x.size(), pow2(149) as int)
}

proof fn lemma_part(full: Float32, x: Float32)
    requires
        full.is_finite(),
        x.is_finite(),
    ensures
        is_part(full.spec_times(x), full, x),
{
    lemma_pow2_pos(149);
    crate::rounding::lemma_value_sign(full.magnitude());
    crate::rounding::lemma_value_sign(x.magnitude());
    let (a, b) = (full.size(), x.size());
    assert(a * b >= 0) by (nonlinear_arith)
        requires
            a >= 0,
            b >= 0,
    ;
    crate::rounding::lemma_rounded_is_nearest(a * b, pow2(149) as int);
}

/// A rainbow goes around the circle of hues once, in proportion to the time:
/// the hue is within 2^-12 degrees of `360 * t / length`.
pub proof fn law_rainbow_goes_around_once(animation: Animation, t: Duration, shade: Shade)
    requires
        animation is Rainbow,
        animation.length().ticks >= 1,
        t.ticks < animation.length().ticks,
        call_ensures(Animation::eval, (&animation, t), shade),
    ensures
        shade is Hue,
        ({
            let (hue, n) = (shade->Hue_0, animation.length().ticks as int);
            &&& !hue.is_negative()
            &&& hue.size() * n <= 360 * (t.ticks * pow2(149)) + n * pow2(137)
            &&& 360 * (t.ticks * pow2(149)) <= hue.size() * n + n * pow2(137)
        }),
{
    let length = animation.length();
    vstd::arithmetic::div_mod::lemma_small_mod(t.ticks as nat, length.ticks as nat);
    lemma_hue(t, length);
}

/// The fraction of a length that has passed, to within 2^-22.
proof fn lemma_fraction(t: Duration, length: Duration)
    requires
        t.ticks < length.ticks,
    ensures
        ({
            let x = crate::util::spec_div(t, length);
            let (p, n) = (pow2(149) as int, length.ticks as int);
            &&& !x.is_negative()
            &&& x.magnitude() <= ONE
            &&& 0x40_0000 * (x.size() * n - t.ticks * p) <= n * p
            &&& 0x40_0000 * (t.ticks * p - x.size() * n) <= n * p
        }),
{
    let (p, n, k) = (pow2(149) as int, length.ticks as int, t.ticks as int);
    let (a, b, x) = (
        Float32::spec_from_u64(t.ticks),
        Float32::spec_from_u64(length.ticks),
        crate::util::spec_div(t, length),
    );
    lemma_pow2_pos(149);
    lemma_integer_is_finite(t.ticks);
    lemma_integer_is_finite(length.ticks);
    lemma_integer_is_accurate(t.ticks);
    lemma_integer_is_accurate(length.ticks);
    crate::float32::lemma_one();
    let (sa, sb) = (a.size(), b.size());
    crate::rounding::lemma_value_sign(a.magnitude());
    crate::rounding::lemma_value_sign(b.magnitude());
    assert(0 <= k * p <= n * p) by (nonlinear_arith)
        requires
            0 <= k <= n,
            p > 0,
    ;
    crate::rounding::law_rounding_is_monotone(k * p, n * p, 1);
    if a.magnitude() < b.magnitude() {
        crate::rounding::lemma_value_increases(a.magnitude(), b.magnitude());
    }
    assert(0 <= sa * p <= p * sb) by (nonlinear_arith)
        requires
            0 <= sa <= sb,
            p > 0,
    ;
    crate::rounding::lemma_rounded_at_most(sa * p, sb, ONE as int);
    crate::rounding::lemma_rounded_is_nearest(sa * p, sb);
    crate::rounding::law_rounding_error_of_a_quotient(sa * p, sb, ONE as int);
    assert(crate::rounding::spacing_exponent(ONE as int) == 126);
    let (g, s) = (pow2(126) as int, x.size());
    crate::rounding::lemma_value_sign(x.magnitude());
    if x.magnitude() < ONE {
        crate::rounding::lemma_value_increases(x.magnitude(), ONE as int);
    }
    lemma2_to64();
    lemma_pow2_adds(126, 23);
    assert(2 * (s * sb - sa * p) <= g * sb && 2 * (sa * p - s * sb) <= g * sb);
    lemma_fraction_error(s, sa, sb, k, n, p, g);
}

/// Errors of the two integers and of their quotient together.
proof fn lemma_fraction_error(s: int, sa: int, sb: int, k: int, n: int, p: int, g: int)
    requires
        0 <= k <= n,
        n >= 1,
        p > 0,
        p == 0x80_0000 * g,
        0 <= s <= p,
        2 * (s * sb - sa * p) <= g * sb,
        2 * (sa * p - s * sb) <= g * sb,
        0x100_0000 * (sa - k * p) <= k * p,
        0x100_0000 * (k * p - sa) <= k * p,
        0x100_0000 * (sb - n * p) <= n * p,
        0x100_0000 * (n * p - sb) <= n * p,
    ensures
        0x40_0000 * (s * n - k * p) <= n * p,
        0x40_0000 * (k * p - s * n) <= n * p,
{
    // Everything times `p`.
    let (u, v) = (sa - k * p, sb - n * p);
    let whole = (n * p) * p;
    assert(whole > 0) by (nonlinear_arith)
        requires
            whole == (n * p) * p,
            n >= 1,
            p > 0,
    ;
    assert(s * (n * p) == s * sb - s * v) by (nonlinear_arith)
        requires
            v == sb - n * p,
    ;
    assert((k * p) * p == sa * p - u * p) by (nonlinear_arith)
        requires
            u == sa - k * p,
    ;
    assert(0x80_0000 * (g * sb) == whole + v * p) by (nonlinear_arith)
        requires
            v == sb - n * p,
            p == 0x80_0000 * g,
            whole == (n * p) * p,
    ;
    assert(0x100_0000 * (v * p) <= whole && -0x100_0000 * (v * p) <= whole) by (nonlinear_arith)
        requires
            0x100_0000 * v <= n * p,
            -0x100_0000 * v <= n * p,
            whole == (n * p) * p,
            p > 0,
    ;
    assert(0x100_0000 * (s * v) <= whole && -0x100_0000 * (s * v) <= whole) by {
        let np = n * p;
        assert(0x100_0000 * (s * v) <= s * np && -0x100_0000 * (s * v) <= s * np)
            by (nonlinear_arith)
            requires
                0x100_0000 * v <= np,
                -0x100_0000 * v <= np,
                s >= 0,
        ;
        assert(s * np <= np * p) by (nonlinear_arith)
            requires
                0 <= s <= p,
                np >= 0,
        ;
    }
    assert(0x100_0000 * (u * p) <= whole && -0x100_0000 * (u * p) <= whole) by {
        let kp = k * p;
        assert(kp <= n * p) by (nonlinear_arith)
            requires
                kp == k * p,
                k <= n,
                p > 0,
        ;
        let np = n * p;
        assert(0x100_0000 * (u * p) <= np * p && -0x100_0000 * (u * p) <= np * p)
            by (nonlinear_arith)
            requires
                0x100_0000 * u <= np,
                -0x100_0000 * u <= np,
                p > 0,
        ;
    }
    let off = s * n - k * p;
    assert(off * p == s * (n * p) - (k * p) * p) by (nonlinear_arith)
        requires
            off == s * n - k * p,
    ;
    assert(0x40_0000 * (off * p) <= whole && -0x40_0000 * (off * p) <= whole);
    assert(0x40_0000 * off <= n * p && -0x40_0000 * off <= n * p) by (nonlinear_arith)
        requires
            0x40_0000 * (off * p) <= whole,
            -0x40_0000 * (off * p) <= whole,
            whole == (n * p) * p,
            p > 0,
    ;
}

/// An integer becomes a number with an error of at most one part in 2^24.
pub(crate) proof fn lemma_integer_is_accurate(n: u64)
    ensures
        ({
            let (s, np) = (Float32::spec_from_u64(n).size(), n * pow2(149));
            0x100_0000 * (s - np) <= np && 0x100_0000 * (np - s) <= np
        }),
{
    let p = pow2(149) as int;
    lemma_integer_is_finite(n);
    lemma_pow2_pos(149);
    lemma2_to64();
    crate::rounding::lemma_value_sign(0);
    if n == 0 {
        crate::rounding::lemma_rounded_at_most(0, 1, 0);
        crate::rounding::lemma_rounded_is_nearest(0, 1);
        assert(n * p == 0) by (nonlinear_arith)
            requires
                n == 0,
        ;
    } else {
        vstd::arithmetic::power2::lemma_pow2_strictly_increases(23, 149);
        lemma_pow2_adds(64, 149);
        lemma_pow2_adds(23, 254);
        vstd::arithmetic::power2::lemma_pow2_strictly_increases(213, 277);
        assert(crate::rounding::magnitude_value(crate::rounding::INFINITE as int) == pow2(277));
        assert(p <= n * p <= 0x1_0000_0000_0000_0000 * p) by (nonlinear_arith)
            requires
                1 <= n <= 0x1_0000_0000_0000_0000,
                p > 0,
        ;
        crate::rounding::law_rounding_error_is_relative(n * p, 1);
    }
}

/// The brightness of a fade is that of a triangle.
proof fn lemma_brightness(t: Duration, length: Duration)
    requires
        t.ticks < length.ticks,
    ensures
        is_brightness_at(spec_brightness(crate::util::spec_div(t, length)), t, length),
{
    let (p, n, k) = (pow2(149) as int, length.ticks as int, t.ticks as int);
    let (x, one, half, two) = (
        crate::util::spec_div(t, length),
        Float32 { bits: ONE },
        Float32 { bits: HALF },
        Float32 { bits: TWO },
    );
    lemma_fraction(t, length);
    law_fade_brightness_is_a_fraction(t, length);
    crate::float32::lemma_one();
    lemma_pow2_pos(149);
    lemma_pow2_pos(125);
    lemma2_to64();
    lemma_pow2_adds(23, 125);
    lemma_pow2_adds(23, 126);
    lemma_pow2_adds(23, 127);
    lemma_pow2_unfold(149);
    lemma_pow2_unfold(150);
    lemma_pow2_unfold(126);
    lemma_pow2_adds(125, 4);
    let h = pow2(125) as int;
    assert(p == 0x100_0000 * h && pow2(129) == 16 * h);
    assert(half.size() == pow2(148));
    assert(two.size() == 2 * p);
    crate::rounding::lemma_value_sign(x.magnitude());
    if x.magnitude() < ONE {
        crate::rounding::lemma_value_increases(x.magnitude(), ONE as int);
    }
    let sx = x.size();
    let y = if x.spec_less_than(half) {
        x
    } else {
        one.spec_minus(x)
    };
    let ideal = if x.spec_less_than(half) {
        sx
    } else {
        p - sx
    };
    assert(0 <= 2 * ideal <= p);
    assert(!y.is_negative() && y.is_finite() && y.size() - ideal <= h && ideal - y.size() <= h
        && 2 * y.size() <= p) by {
        if !x.spec_less_than(half) {
            if ideal == 0 {
                crate::rounding::lemma_value_sign(0);
            } else {
                crate::rounding::lemma_rounded_is_nearest(ideal, 1);
                crate::rounding::lemma_rounded_at_most(ideal, 1, HALF as int);
                crate::rounding::law_rounding_error_is_half_a_spacing(ideal, ONE as int);
                if y.magnitude() < HALF {
                    crate::rounding::lemma_value_increases(y.magnitude(), HALF as int);
                }
            }
        }
    }
    let (sy, b) = (y.size(), two.spec_times(y));
    crate::rounding::lemma_value_sign(y.magnitude());
    let num = (2 * p) * sy;
    assert(num == (2 * sy) * p) by (nonlinear_arith)
        requires
            num == (2 * p) * sy,
    ;
    assert(0 <= num <= p * p) by (nonlinear_arith)
        requires
            num == (2 * sy) * p,
            0 <= 2 * sy <= p,
    ;
    crate::rounding::law_rounding_error_of_a_quotient(num, p, ONE as int);
    crate::rounding::lemma_rounded_is_nearest(num, p);
    crate::rounding::lemma_rounded_at_most(num, p, ONE as int);
    let sb = b.size();
    let off = sb - 2 * sy;
    assert(off * p == sb * p - num) by (nonlinear_arith)
        requires
            off == sb - 2 * sy,
            num == (2 * sy) * p,
    ;
    assert(off <= h && -off <= h) by (nonlinear_arith)
        requires
            2 * (off * p) <= (2 * h) * p,
            -2 * (off * p) <= (2 * h) * p,
            p > 0,
    ;
    // Now the triangle over the length.
    let (sbn, sxn, idn, hn) = (sb * n, sx * n, ideal * n, h * n);
    let diff = sb - 2 * ideal;
    assert(sbn - 2 * idn == diff * n) by (nonlinear_arith)
        requires
            sbn == sb * n,
            idn == ideal * n,
            diff == sb - 2 * ideal,
    ;
    assert(diff * n <= 3 * hn && -(diff * n) <= 3 * hn) by (nonlinear_arith)
        requires
            diff <= 3 * h,
            -diff <= 3 * h,
            hn == h * n,
            n >= 1,
    ;
    assert((p - sx) * n == p * n - sxn) by (nonlinear_arith)
        requires
            sxn == sx * n,
    ;
    assert(n * p == 0x100_0000 * hn) by (nonlinear_arith)
        requires
            p == 0x100_0000 * h,
            hn == h * n,
    ;
    assert(p * n == n * p) by (nonlinear_arith);
    let height = if 2 * k <= n {
        2 * k
    } else {
        2 * (n - k)
    };
    assert(height * p == (if 2 * (k * p) <= n * p {
        2 * (k * p)
    } else {
        2 * (n * p - k * p)
    })) by (nonlinear_arith)
        requires
            height == (if 2 * k <= n {
                2 * k
            } else {
                2 * (n - k)
            }),
            p > 0,
    ;
    assert(2 * sx <= p ==> 2 * sxn <= p * n) by (nonlinear_arith)
        requires
            sxn == sx * n,
            n >= 1,
    ;
    assert(2 * sx >= p ==> 2 * sxn >= p * n) by (nonlinear_arith)
        requires
            sxn == sx * n,
            n >= 1,
    ;
    assert(n * pow2(129) == 16 * hn) by (nonlinear_arith)
        requires
            pow2(129) == 16 * h,
            hn == h * n,
    ;
}

/// The hue of a rainbow is its fraction of the circle.
proof fn lemma_hue(t: Duration, length: Duration)
    requires
        t.ticks < length.ticks,
    ensures
        ({
            let hue = (Float32 { bits: FULL_CIRCLE_DEGREES }).spec_times(
                crate::util::spec_div(t, length),
            );
            let n = length.ticks as int;
            &&& !hue.is_negative()
            &&& hue.size() * n <= 360 * (t.ticks * pow2(149)) + n * pow2(137)
            &&& 360 * (t.ticks * pow2(149)) <= hue.size() * n + n * pow2(137)
        }),
{
    let (p, n, k) = (pow2(149) as int, length.ticks as int, t.ticks as int);
    let (x, circle) = (
        crate::util::spec_div(t, length),
        Float32 { bits: FULL_CIRCLE_DEGREES },
    );
    lemma_fraction(t, length);
    crate::float32::lemma_one();
    lemma_pow2_pos(149);
    lemma_pow2_pos(127);
    lemma2_to64();
    lemma_pow2_adds(127, 22);
    lemma_pow2_adds(127, 10);
    lemma_pow2_adds(127, 7);
    let h = pow2(127) as int;
    lemma_pow2_adds(134, 15);
    let c = pow2(134) as int;
    assert(p == 32_768 * c);
    assert(crate::rounding::magnitude_value(FULL_CIRCLE_DEGREES as int) == 11_796_480 * c);
    assert(circle.size() == 360 * p);
    crate::rounding::lemma_value_sign(x.magnitude());
    if x.magnitude() < ONE {
        crate::rounding::lemma_value_increases(x.magnitude(), ONE as int);
    }
    let sx = x.size();
    let num = (360 * p) * sx;
    assert(num == (360 * sx) * p) by (nonlinear_arith)
        requires
            num == (360 * p) * sx,
    ;
    assert(0 <= num <= (360 * p) * p) by (nonlinear_arith)
        requires
            num == (360 * p) * sx,
            0 <= sx <= p,
    ;
    crate::rounding::law_rounding_error_of_a_quotient(num, p, FULL_CIRCLE_DEGREES as int);
    crate::rounding::lemma_rounded_is_nearest(num, p);
    let s = circle.spec_times(x).size();
    let off = s - 360 * sx;
    assert(off * p == s * p - num) by (nonlinear_arith)
        requires
            off == s - 360 * sx,
            num == (360 * sx) * p,
    ;
    assert(off <= 64 * h && -off <= 64 * h) by (nonlinear_arith)
        requires
            2 * (off * p) <= (128 * h) * p,
            -2 * (off * p) <= (128 * h) * p,
            p > 0,
    ;
    let (sn, sxn, hn) = (s * n, sx * n, h * n);
    assert(sn - 360 * sxn == off * n) by (nonlinear_arith)
        requires
            sn == s * n,
            sxn == sx * n,
            off == s - 360 * sx,
    ;
    assert(off * n <= 64 * hn && -(off * n) <= 64 * hn) by (nonlinear_arith)
        requires
            off <= 64 * h,
            -off <= 64 * h,
            hn == h * n,
            n >= 1,
    ;
    assert(n * p == 0x40_0000 * hn) by (nonlinear_arith)
        requires
            p == 0x40_0000 * h,
            hn == h * n,
    ;
    assert(n * pow2(137) == 1024 * hn) by (nonlinear_arith)
        requires
            pow2(137) == 1024 * h,
            hn == h * n,
    ;
}

/// The length of an animation is that of its part; a dark one lasts for a
/// hundred thousand seconds.
pub proof fn law_length_of_an_animation(animation: Animation, d: Duration)
    requires
        call_ensures(Animation::duration, (&animation,), d),
    ensures
        match animation {
            Animation::Off => d.ticks == 100_000_000_000,
            Animation::Solid(solid) => d == solid.length(),
            Animation::Pulse(pulse) => d == pulse.length(),
            Animation::FadeInFadeOut(fade) => d == fade.length(),
            Animation::Rainbow(rainbow) => d == rainbow.length(),
        },
{
}

} // verus!
