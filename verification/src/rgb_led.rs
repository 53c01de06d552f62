//! The RGB status LED: color to PWM settings, and playback of animations.
use vstd::prelude::*;

use crate::anim::{Animation, Color, Shade};
use crate::float32::{Float32, ONE};
use crate::pwm::{divider_bits, PwmConfig};
use crate::time::{Duration, Instant};

verus! {

/// Rate at which an animation is played, in Hz: fast enough not to flicker and
/// slow enough not to take much processor time.
pub const LED_TICK_HZ: u64 = 100;

/// Largest duty value. As the `top` of a slice with divider 2 it gives a
/// period of 125k cycles, 1 kHz at a clock of 125 MHz.
pub const DUTY_MAX: u16 = 62499;

/// Encoding of `DUTY_MAX` as a number.
pub const DUTY_MAX_NUMBER: u32 = 0x4774_2300;

/// Encodings of the brightness factors of the three colors and of all.
pub const R_SCALE: u32 = 0x3f80_0000;

pub const G_SCALE: u32 = 0x3f26_6666;

pub const B_SCALE: u32 = 0x3f33_3333;

pub const ALL_SCALE: u32 = 0x3dcc_cccd;

/// A request to the LED.
#[derive(Clone, Copy, Debug, PartialEq, Eq, Structural)]
pub enum Command {
    /// Play an animation once.
    Transient(Animation),
    /// Play an animation over and over while no transient one plays.
    Looping(Animation),
}

/// A component held between 0 and 1; not a number becomes 1.
pub open spec fn spec_unit_range(c: Float32) -> Float32 {
    c.spec_minimum(Float32 { bits: ONE }).spec_maximum(Float32 { bits: 0 })
}

fn unit_range(c: Float32) -> (r: Float32)
    ensures
        r == spec_unit_range(c),
{
    c.minimum(Float32 { bits: ONE }).maximum(Float32 { bits: 0 })
}

/// The duty grows with the square of the component.
pub open spec fn spec_square_law(c: Float32) -> Float32 {
    (Float32 { bits: DUTY_MAX_NUMBER }).spec_times(spec_unit_range(c)).spec_times(
        spec_unit_range(c),
    )
}

fn square_law(c: Float32) -> (r: Float32)
    ensures
        r == spec_square_law(c),
{
    let u = unit_range(c);
    (Float32 { bits: DUTY_MAX_NUMBER }).times(u).times(u)
}

/// Duty of a component at full brightness.
pub open spec fn spec_full_duty(c: Float32) -> u16 {
    spec_square_law(c).spec_to_u16()
}

/// Duty of a component, dimmed by its color's factor and the common one.
pub open spec fn spec_scaled_duty(c: Float32, scale: u32) -> u16 {
    spec_square_law(c).spec_times(Float32 { bits: scale }).spec_times(
        Float32 { bits: ALL_SCALE },
    ).spec_to_u16()
}

fn scaled_duty(c: Float32, scale: u32) -> (duty: u16)
    ensures
        duty == spec_scaled_duty(c, scale),
{
    square_law(c).times(Float32 { bits: scale }).times(Float32 { bits: ALL_SCALE }).to_u16()
}

/// Settings for the slice that drives green on channel A, and for the one that
/// drives red on channel A and blue on channel B.
pub fn set_rgb(rgb: Color) -> (configs: (PwmConfig, PwmConfig))
    ensures
        configs.0 == (PwmConfig {
            divider: 32,
            compare_a: spec_scaled_duty(rgb.g, G_SCALE),
            top: DUTY_MAX,
            ..PwmConfig::spec_default()
        }),
        configs.1 == (PwmConfig {
            divider: 32,
            compare_a: spec_scaled_duty(rgb.r, R_SCALE),
            compare_b: spec_scaled_duty(rgb.b, B_SCALE),
            top: DUTY_MAX,
            ..PwmConfig::spec_default()
        }),
{
    let divider: u16 = divider_bits(2);
    let r_duty: u16 = scaled_duty(rgb.r, R_SCALE);
    let g_duty: u16 = scaled_duty(rgb.g, G_SCALE);
    let b_duty: u16 = scaled_duty(rgb.b, B_SCALE);

    let mut led_green_a_config = PwmConfig::default();
    led_green_a_config.invert_a = false;
    led_green_a_config.phase_correct = false;
    led_green_a_config.enable = true;
    led_green_a_config.divider = divider;
    led_green_a_config.compare_a = g_duty;
    led_green_a_config.top = DUTY_MAX;

    let mut led_red_a_blue_b_config = PwmConfig::default();
    led_red_a_blue_b_config.invert_a = false;
    led_red_a_blue_b_config.invert_b = false;
    led_red_a_blue_b_config.phase_correct = false;
    led_red_a_blue_b_config.enable = true;
    led_red_a_blue_b_config.divider = divider;
    led_red_a_blue_b_config.compare_a = r_duty;
    led_red_a_blue_b_config.compare_b = b_duty;
    led_red_a_blue_b_config.top = DUTY_MAX;

    (led_green_a_config, led_red_a_blue_b_config)
}

/// Settings for an LED that lights on low outputs, at full brightness: for the
/// slice that drives red on channel A, and for the one that drives green on
/// channel A and blue on channel B.
pub fn set_rgb_inverted(rgb: Color) -> (configs: (PwmConfig, PwmConfig))
    ensures
        configs.0 == (PwmConfig {
            invert_a: true,
            divider: 32,
            compare_a: spec_full_duty(rgb.r),
            top: DUTY_MAX,
            ..PwmConfig::spec_default()
        }),
        configs.1 == (PwmConfig {
            invert_a: true,
            invert_b: true,
            divider: 32,
            compare_a: spec_full_duty(rgb.g),
            compare_b: spec_full_duty(rgb.b),
            top: DUTY_MAX,
            ..PwmConfig::spec_default()
        }),
{
    let divider: u16 = divider_bits(2);
    let r_duty: u16 = square_law(rgb.r).to_u16();
    let g_duty: u16 = square_law(rgb.g).to_u16();
    let b_duty: u16 = square_law(rgb.b).to_u16();

    let mut led_red_a_config = PwmConfig::default();
    led_red_a_config.invert_a = true;
    led_red_a_config.phase_correct = false;
    led_red_a_config.enable = true;
    led_red_a_config.divider = divider;
    led_red_a_config.compare_a = r_duty;
    led_red_a_config.top = DUTY_MAX;

    let mut led_green_a_blue_b_config = PwmConfig::default();
    led_green_a_blue_b_config.invert_a = true;
    led_green_a_blue_b_config.invert_b = true;
    led_green_a_blue_b_config.phase_correct = false;
    led_green_a_blue_b_config.enable = true;
    led_green_a_blue_b_config.divider = divider;
    led_green_a_blue_b_config.compare_a = g_duty;
    led_green_a_blue_b_config.compare_b = b_duty;
    led_green_a_blue_b_config.top = DUTY_MAX;

    (led_red_a_config, led_green_a_blue_b_config)
}

/// One period of the LED tick.
pub fn led_tick_period() -> (d: Duration)
    ensures
        d.ticks == 10_000,
{
    Duration::from_hz(LED_TICK_HZ)
}

/// What to do at one tick of the LED.
#[derive(Clone, Copy, Debug, PartialEq, Eq, Structural)]
pub enum Frame {
    /// Show this and wait for the next tick.
    Show(Shade),
    /// The animation is over.
    Finished,
}

/// What the LED plays. A transient animation keeps its start, so that a new
/// looping animation does not set it back.
#[derive(Clone, Copy, Debug)]
pub struct LedDriver {
    looping_anim: Animation,
    transient_anim: Option<(Animation, Instant)>,
    started: Instant,
}

impl LedDriver {
    /// What is played while no transient animation is.
    pub closed spec fn looping(self) -> Animation {
        self.looping_anim
    }

    /// The transient animation that is playing, with its start.
    pub closed spec fn transient(self) -> Option<(Animation, Instant)> {
        self.transient_anim
    }

    /// The animation that is playing.
    pub open spec fn playing(self) -> Animation {
        match self.transient() {
            Some(value) => value.0,
            None => self.looping(),
        }
    }

    /// Start of the current playback.
    pub closed spec fn start(self) -> Instant {
        match self.transient_anim {
            Some(value) => value.1,
            None => self.started,
        }
    }

    /// The clock can be read at `now`: the start is past and the end of the
    /// animation is on the clock.
    pub open spec fn can_play(self, now: Instant) -> bool {
        &&& self.start().ticks <= now.ticks
        &&& self.start().ticks + self.playing().length().ticks <= u64::MAX
        &&& self.playing().length().ticks >= 1
    }

    pub open spec fn spec_frame(self, now: Instant) -> Frame {
        if self.transient() is Some && now.ticks >= self.start().ticks
            + self.playing().length().ticks {
            Frame::Finished
        } else {
            Frame::Show(self.playing().spec_eval(now.ticks - self.start().ticks))
        }
    }

    /// A dark LED.
    pub fn new(now: Instant) -> (r: LedDriver)
        ensures
            r.looping() == Animation::Off,
            r.transient() is None,
            r.start() == now,
    {
        LedDriver { looping_anim: Animation::Off, transient_anim: None, started: now }
    }

    /// Takes a command that arrived at `now`. Playback starts over, except
    /// that of a transient animation when the command is for the looping one.
    pub fn receive(&mut self, command: Command, now: Instant)
        ensures
            final(self).looping() == (match command {
                Command::Looping(anim) => anim,
                Command::Transient(_) => old(self).looping(),
            }),
            final(self).transient() == (match command {
                Command::Transient(anim) => Some((anim, now)),
                Command::Looping(_) => old(self).transient(),
            }),
            final(self).start() == (if command is Looping && old(self).transient() is Some {
                old(self).start()
            } else {
                now
            }),
    {
        match command {
            Command::Transient(new_transient_anim) => {
                self.transient_anim = Some((new_transient_anim, now));
            },
            Command::Looping(new_looping_anim) => {
                self.looping_anim = new_looping_anim;
            },
        }
        self.started = now;
    }

    /// Drops the transient animation, which has ended; the looping one starts.
    pub fn finish_transient(&mut self, now: Instant)
        ensures
            final(self).transient() is None,
            final(self).looping() == old(self).looping(),
            final(self).start() == now,
    {
        self.transient_anim = None;
        self.started = now;
    }

    /// Start of the current playback.
    pub fn started_at(&self) -> (start: Instant)
        ensures
            start == self.start(),
    {
        match self.transient_anim {
            Some(value) => value.1,
            None => self.started,
        }
    }

    /// Whether `frame` can be asked at `now`.
    pub fn can_frame(&self, now: Instant) -> (b: bool)
        ensures
            b == self.can_play(now),
    {
        let (anim, start) = match self.transient_anim {
            Some(value) => value,
            None => (self.looping_anim, self.started),
        };
        let length: u64 = anim.duration().ticks;
        start.ticks <= now.ticks && length >= 1 && start.ticks <= u64::MAX - length
    }

    /// What to do at the tick at `now`.
    pub fn frame(&self, now: Instant) -> (f: Frame)
        requires
            self.can_play(now),
        ensures
            f == self.spec_frame(now),
    {
        let (curr_anim, t_anim_start, is_loop) = match self.transient_anim {
            Some(value) => (value.0, value.1, false),
            None => (self.looping_anim, self.started, true),
        };
        let deadline = t_anim_start.plus(curr_anim.duration());
        if !is_loop && now.ticks >= deadline.ticks {
            return Frame::Finished;
        }
        let t_rel = now.since(t_anim_start);
        Frame::Show(curr_anim.eval(t_rel))
    }
}

/// A new looping animation does not disturb a transient one: what is shown
/// stays the same, and so does when it ends.
pub proof fn law_looping_command_does_not_disturb_a_transient(
    before: LedDriver,
    after: LedDriver,
    now: Instant,
)
    requires
        before.transient() is Some,
        after.transient() == before.transient(),
        after.start() == before.start(),
    ensures
        after.spec_frame(now) == before.spec_frame(now),
{
}

/// A transient animation is played to its end once and no longer.
pub proof fn law_transient_ends_after_its_length(driver: LedDriver, now: Instant)
    requires
        driver.transient() is Some,
        driver.start().ticks <= now.ticks,
    ensures
        driver.spec_frame(now) is Finished <==> now.ticks - driver.start().ticks
            >= driver.playing().length().ticks,
{
}

/// No color drives the LED beyond the largest duty.
pub proof fn law_duty_is_within_the_period(c: Float32, scale: u32)
    requires
        scale <= ONE,
    ensures
        spec_full_duty(c) <= DUTY_MAX,
        spec_scaled_duty(c, scale) <= spec_full_duty(c),
{
    let (top, u) = (Float32 { bits: DUTY_MAX_NUMBER }, spec_unit_range(c));
    crate::rounding::lemma_value_sign(0);
    crate::rounding::lemma_value_sign(ONE as int);
    crate::rounding::lemma_value_sign(c.magnitude());
    if c.magnitude() > ONE {
        crate::rounding::lemma_value_increases(ONE as int, c.magnitude());
    }
    assert(u.magnitude() <= ONE);
    crate::float32::law_fraction_does_not_enlarge(top, u);
    crate::float32::law_fraction_does_not_enlarge(top.spec_times(u), u);
    let s = spec_square_law(c);
    crate::float32::law_whole_part_is_monotone(s, top);
    crate::float32::law_fraction_does_not_enlarge(s, Float32 { bits: scale });
    let t = s.spec_times(Float32 { bits: scale });
    crate::float32::law_fraction_does_not_enlarge(t, Float32 { bits: ALL_SCALE });
    let v = t.spec_times(Float32 { bits: ALL_SCALE });
    crate::float32::law_whole_part_is_monotone(v, s);
    lemma_top();
}

/// The number for the largest duty is that duty.
proof fn lemma_top()
    ensures
        (Float32 { bits: DUTY_MAX_NUMBER }).spec_to_u16() == DUTY_MAX,
{
    vstd::arithmetic::power2::lemma2_to64();
    vstd::arithmetic::power2::lemma_pow2_pos(149);
    vstd::arithmetic::power2::lemma_pow2_adds(141, 8);
    let p = vstd::arithmetic::power2::pow2(141) as int;
    assert(15_999_744 * p == 62_499 * (p * 256)) by (nonlinear_arith);
    vstd::arithmetic::div_mod::lemma_div_multiples_vanish(62_499, p * 256);
    assert((p * 256) * 62_499 == 62_499 * (p * 256)) by (nonlinear_arith);
}

/// While a transient animation that started at `s` plays and has not ended, the
/// frame at `now` is what that animation gives at `now - s`.
pub proof fn law_transient_is_shown_from_its_start(
    driver: LedDriver,
    anim: Animation,
    s: Instant,
    now: Instant,
    shade: Shade,
    frame: Frame,
)
    requires
        driver.transient() == Some((anim, s)),
        driver.can_play(now),
        s.ticks <= now.ticks < s.ticks + anim.length().ticks,
        call_ensures(
            Animation::eval,
            (&anim, Duration { ticks: (now.ticks - s.ticks) as u64 }),
            shade,
        ),
        call_ensures(LedDriver::frame, (&driver, now), frame),
    ensures
        frame == Frame::Show(shade),
{
}

/// A transient pulse that started at `s` shows its color exactly in the windows
/// of its flashes, counted from `s`; until it ends it is dark at every other
/// time, and then it is over.
pub proof fn law_transient_pulse_flashes_from_its_start(
    driver: LedDriver,
    pulse: crate::anim::Pulse,
    n: int,
    s: Instant,
    now: Instant,
    frame: Frame,
)
    requires
        driver.transient() == Some((Animation::Pulse(pulse), s)),
        driver.can_play(now),
        crate::anim::flashes(pulse, n),
        s.ticks <= now.ticks,
        call_ensures(LedDriver::frame, (&driver, now), frame),
    ensures
        ({
            let lit = exists|k: int|
                0 <= k < n && s.ticks + #[trigger] crate::anim::flash_begin(pulse, k) <= now.ticks
                    < s.ticks + crate::anim::flash_begin(pulse, k) + pulse.width().ticks;
            let over = now.ticks >= s.ticks + pulse.length().ticks;
            &&& over <==> frame is Finished
            &&& !over && lit ==> frame == Frame::Show(Shade::Rgb(pulse.shown()))
            &&& !over && !lit ==> (frame matches Frame::Show(Shade::Rgb(c)) && c.r.bits == 0
                && c.g.bits == 0 && c.b.bits == 0)
        }),
{
    let t = now.ticks - s.ticks;
    if t < pulse.length().ticks {
        vstd::arithmetic::div_mod::lemma_small_mod(t as nat, pulse.length().ticks as nat);
        crate::anim::law_pulse_flashes_n_times(pulse, n, t);
        let lit = exists|k: int|
            0 <= k < n && s.ticks + #[trigger] crate::anim::flash_begin(pulse, k) <= now.ticks
                < s.ticks + crate::anim::flash_begin(pulse, k) + pulse.width().ticks;
        if crate::anim::pulse_is_lit(pulse, t) {
            let k = choose|k: int|
                0 <= k < n && #[trigger] crate::anim::flash_begin(pulse, k) <= t
                    < crate::anim::flash_begin(pulse, k) + pulse.width().ticks;
            assert(s.ticks + crate::anim::flash_begin(pulse, k) <= now.ticks);
            assert(lit);
        }
        if lit {
            let k = choose|k: int|
                0 <= k < n && s.ticks + #[trigger] crate::anim::flash_begin(pulse, k)
                    <= now.ticks < s.ticks + crate::anim::flash_begin(pulse, k)
                    + pulse.width().ticks;
            assert(crate::anim::flash_begin(pulse, k) <= t);
        }
    }
}

/// While no transient animation plays, the looping one is shown, at any time,
/// as it is after the time since its start.
pub proof fn law_looping_is_shown_from_its_start(
    driver: LedDriver,
    now: Instant,
    start: Instant,
    shade: Shade,
    frame: Frame,
)
    requires
        driver.transient() is None,
        driver.can_play(now),
        call_ensures(LedDriver::started_at, (&driver,), start),
        call_ensures(
            Animation::eval,
            (&driver.looping(), Duration { ticks: (now.ticks - start.ticks) as u64 }),
            shade,
        ),
        call_ensures(LedDriver::frame, (&driver, now), frame),
    ensures
        frame == Frame::Show(shade),
{
}

/// The driver has an end of a transient animation just when its length has
/// passed since its own start.
pub proof fn law_transient_is_over_after_its_length(
    driver: LedDriver,
    anim: Animation,
    s: Instant,
    now: Instant,
    frame: Frame,
    start: Instant,
)
    requires
        driver.transient() == Some((anim, s)),
        driver.can_play(now),
        call_ensures(LedDriver::frame, (&driver, now), frame),
        call_ensures(LedDriver::started_at, (&driver,), start),
    ensures
        start == s,
        frame is Finished <==> now.ticks >= s.ticks + anim.length().ticks,
{
}

/// Part of full brightness that a component asks for, in units of 2^-149: it is
/// held between nothing and all, and what is not a number asks for all.
pub open spec fn asked_part(c: Float32) -> int {
    let one = vstd::arithmetic::power2::pow2(149) as int;
    if c.is_nan() || c.value() > one {
        one
    } else if c.value() < 0 {
        0
    } else {
        c.value()
    }
}

/// The duty is `num / den` times the square of a part, without the fraction.
/// Rounding can add a 64th or take it away.
pub open spec fn is_duty_for_part(duty: u16, part: int, num: int, den: int) -> bool {
    let square = vstd::arithmetic::power2::pow2(149) * vstd::arithmetic::power2::pow2(149);
    &&& 64 * (num * (part * part) - den * (duty * square)) <= 65 * (den * square)
    &&& 64 * (den * (duty * square) - num * (part * part)) <= den * square
}

/// The duties of the LED follow the squares of the components: a tenth of full
/// brightness for red, and 0.65 and 0.7 of that for green and blue. Red and
/// blue are the channels of one slice and green is on the other.
pub proof fn law_duties_follow_the_squares(rgb: Color, configs: (PwmConfig, PwmConfig))
    requires
        call_ensures(set_rgb, (rgb,), configs),
    ensures
        is_duty_for_part(configs.1.compare_a, asked_part(rgb.r), 62_499, 10),
        is_duty_for_part(configs.0.compare_a, asked_part(rgb.g), 4_062_435, 1_000),
        is_duty_for_part(configs.1.compare_b, asked_part(rgb.b), 437_493, 100),
        configs.0.compare_b == 0,
        configs.0.top == 62_499 && configs.1.top == 62_499,
        configs.0.divider == 32 && configs.1.divider == 32,
        configs.0.enable && configs.1.enable,
        !configs.0.phase_correct && !configs.1.phase_correct,
        !configs.0.invert_a && !configs.1.invert_a && !configs.1.invert_b,
{
    lemma_scaled_duty(rgb.r, R_SCALE, 0x100_0000);
    lemma_scaled_duty(rgb.g, G_SCALE, 10_905_190);
    lemma_scaled_duty(rgb.b, B_SCALE, 11_744_051);
}

/// An LED that lights on low outputs is driven at full brightness with inverted
/// channels; green and blue are the channels of one slice and red is on the
/// other.
pub proof fn law_inverted_duties_follow_the_squares(rgb: Color, configs: (PwmConfig, PwmConfig))
    requires
        call_ensures(set_rgb_inverted, (rgb,), configs),
    ensures
        is_duty_for_part(configs.0.compare_a, asked_part(rgb.r), 62_499, 1),
        is_duty_for_part(configs.1.compare_a, asked_part(rgb.g), 62_499, 1),
        is_duty_for_part(configs.1.compare_b, asked_part(rgb.b), 62_499, 1),
        configs.0.compare_b == 0,
        configs.0.top == 62_499 && configs.1.top == 62_499,
        configs.0.divider == 32 && configs.1.divider == 32,
        configs.0.enable && configs.1.enable,
        !configs.0.phase_correct && !configs.1.phase_correct,
        configs.0.invert_a && configs.1.invert_a && configs.1.invert_b,
{
    lemma_full_duty(rgb.r);
    lemma_full_duty(rgb.g);
    lemma_full_duty(rgb.b);
}

/// A product of a number up to the largest duty with a fraction is off by at
/// most 2^-9.
proof fn lemma_part_of_duty(x: Float32, f: Float32)
    requires
        x.magnitude() <= DUTY_MAX_NUMBER,
        f.magnitude() <= ONE,
    ensures
        ({
            let (p, h) = (
                vstd::arithmetic::power2::pow2(149) as int,
                vstd::arithmetic::power2::pow2(140) as int,
            );
            let r = x.spec_times(f);
            &&& r.is_negative() == (x.is_negative() != f.is_negative())
            &&& r.magnitude() <= DUTY_MAX_NUMBER
            &&& r.size() >= 0
            &&& r.size() * p - x.size() * f.size() <= h * p
            &&& x.size() * f.size() - r.size() * p <= h * p
        }),
{
    let (p, h) = (
        vstd::arithmetic::power2::pow2(149) as int,
        vstd::arithmetic::power2::pow2(140) as int,
    );
    vstd::arithmetic::power2::lemma_pow2_pos(149);
    vstd::arithmetic::power2::lemma_pow2_unfold(141);
    crate::float32::lemma_one();
    crate::float32::law_fraction_does_not_enlarge(x, f);
    let r = x.spec_times(f);
    crate::rounding::lemma_value_sign(x.magnitude());
    crate::rounding::lemma_value_sign(f.magnitude());
    crate::rounding::lemma_value_sign(r.magnitude());
    if f.magnitude() < ONE {
        crate::rounding::lemma_value_increases(f.magnitude(), ONE as int);
    }
    if x.magnitude() < DUTY_MAX_NUMBER {
        crate::rounding::lemma_value_increases(x.magnitude(), DUTY_MAX_NUMBER as int);
    }
    let (a, b, top) = (
        x.size(),
        f.size(),
        crate::rounding::magnitude_value(DUTY_MAX_NUMBER as int),
    );
    assert(0 <= a * b <= top * p) by (nonlinear_arith)
        requires
            0 <= a <= top,
            0 <= b <= p,
    ;
    crate::rounding::law_rounding_error_of_a_quotient(a * b, p, DUTY_MAX_NUMBER as int);
    crate::rounding::lemma_rounded_is_nearest(a * b, p);
    assert(crate::rounding::spacing_exponent(DUTY_MAX_NUMBER as int) == 141);
    assert((2 * h) * p == 2 * (h * p)) by (nonlinear_arith);
}

/// The part that a component asks for is what it is held to.
proof fn lemma_asked_part(c: Float32)
    ensures
        spec_unit_range(c).magnitude() <= ONE,
        spec_unit_range(c).size() == asked_part(c),
        0 <= asked_part(c) <= vstd::arithmetic::power2::pow2(149),
{
    crate::float32::lemma_one();
    crate::rounding::lemma_value_sign(0);
    crate::rounding::lemma_value_sign(ONE as int);
    crate::rounding::lemma_value_sign(c.magnitude());
    if c.magnitude() > ONE {
        crate::rounding::lemma_value_increases(ONE as int, c.magnitude());
    } else if c.magnitude() < ONE {
        crate::rounding::lemma_value_increases(c.magnitude(), ONE as int);
    }
}

/// The square law, before the fraction is cut off.
proof fn lemma_square(c: Float32)
    ensures
        ({
            let (p, h) = (
                vstd::arithmetic::power2::pow2(149) as int,
                vstd::arithmetic::power2::pow2(140) as int,
            );
            let (r, u) = (spec_square_law(c), asked_part(c));
            &&& !r.is_negative()
            &&& r.magnitude() <= DUTY_MAX_NUMBER
            &&& 62_499 * (u * u) - 2 * (h * p) <= r.size() * p <= 62_499 * (u * u) + 2 * (h * p)
        }),
{
    let (p, h) = (
        vstd::arithmetic::power2::pow2(149) as int,
        vstd::arithmetic::power2::pow2(140) as int,
    );
    let (top, f) = (Float32 { bits: DUTY_MAX_NUMBER }, spec_unit_range(c));
    vstd::arithmetic::power2::lemma2_to64();
    vstd::arithmetic::power2::lemma_pow2_pos(149);
    vstd::arithmetic::power2::lemma_pow2_pos(140);
    vstd::arithmetic::power2::lemma_pow2_adds(141, 8);
    let g = vstd::arithmetic::power2::pow2(141) as int;
    assert(crate::rounding::magnitude_value(DUTY_MAX_NUMBER as int) == 15_999_744 * g);
    assert(top.size() == 62_499 * p);
    lemma_asked_part(c);
    lemma_part_of_duty(top, f);
    lemma_part_of_duty(top.spec_times(f), f);
    let (u, v1, v2) = (asked_part(c), top.spec_times(f).size(), spec_square_law(c).size());
    let off = v1 - 62_499 * u;
    assert(v1 * p - (62_499 * p) * u == off * p) by (nonlinear_arith)
        requires
            off == v1 - 62_499 * u,
    ;
    assert(-h <= off <= h) by (nonlinear_arith)
        requires
            -(h * p) <= off * p <= h * p,
            p > 0,
    ;
    assert(v1 * u == 62_499 * (u * u) + off * u) by (nonlinear_arith)
        requires
            off == v1 - 62_499 * u,
    ;
    assert(-(h * p) <= off * u <= h * p) by (nonlinear_arith)
        requires
            -h <= off <= h,
            0 <= u <= p,
            h > 0,
    ;
}

/// The whole part of a number of duty.
proof fn lemma_cut_off(x: Float32, duty: u16)
    requires
        !x.is_negative(),
        x.magnitude() <= DUTY_MAX_NUMBER,
        duty == x.spec_to_u16(),
    ensures
        duty * vstd::arithmetic::power2::pow2(149) <= x.size() < (duty + 1)
            * vstd::arithmetic::power2::pow2(149),
{
    let p = vstd::arithmetic::power2::pow2(149) as int;
    vstd::arithmetic::power2::lemma_pow2_pos(149);
    crate::rounding::lemma_value_sign(x.magnitude());
    crate::float32::law_whole_part_is_monotone(x, Float32 { bits: DUTY_MAX_NUMBER });
    lemma_top();
    let w = x.size() / p;
    vstd::arithmetic::div_mod::lemma_fundamental_div_mod(x.size(), p);
    vstd::arithmetic::div_mod::lemma_mod_pos_bound(x.size(), p);
    vstd::arithmetic::div_mod::lemma_div_pos_is_pos(x.size(), p);
    assert(p * w == w * p) by (nonlinear_arith);
    assert((w + 1) * p == w * p + p) by (nonlinear_arith);
}

/// Bounds of a cut off number, times the unit.
proof fn lemma_cut_off_squares(duty: int, v: int, p: int)
    requires
        duty * p <= v < (duty + 1) * p,
        p > 0,
    ensures
        duty * (p * p) <= v * p < duty * (p * p) + p * p,
{
    assert((duty * p) * p <= v * p < ((duty + 1) * p) * p) by (nonlinear_arith)
        requires
            duty * p <= v < (duty + 1) * p,
            p > 0,
    ;
    assert((duty * p) * p == duty * (p * p)) by (nonlinear_arith);
    assert(((duty + 1) * p) * p == duty * (p * p) + p * p) by (nonlinear_arith);
}

proof fn lemma_full_duty(c: Float32)
    ensures
        is_duty_for_part(spec_full_duty(c), asked_part(c), 62_499, 1),
{
    let (p, h) = (
        vstd::arithmetic::power2::pow2(149) as int,
        vstd::arithmetic::power2::pow2(140) as int,
    );
    vstd::arithmetic::power2::lemma2_to64();
    vstd::arithmetic::power2::lemma_pow2_pos(149);
    vstd::arithmetic::power2::lemma_pow2_adds(140, 9);
    lemma_square(c);
    let (x, duty) = (spec_square_law(c), spec_full_duty(c));
    lemma_cut_off(x, duty);
    lemma_cut_off_squares(duty as int, x.size(), p);
    assert(512 * (h * p) == p * p) by (nonlinear_arith)
        requires
            p == h * 512,
    ;
    assert(p * p > 0) by (nonlinear_arith)
        requires
            p > 0,
    ;
}

/// Duty of a component that is dimmed by `kn / 2^24` and a tenth.
proof fn lemma_scaled_duty(c: Float32, scale: u32, kn: int)
    requires
        scale == R_SCALE && kn == 0x100_0000 || scale == G_SCALE && kn == 10_905_190 || scale
            == B_SCALE && kn == 11_744_051,
    ensures
        scale == R_SCALE ==> is_duty_for_part(
            spec_scaled_duty(c, scale),
            asked_part(c),
            62_499,
            10,
        ),
        scale == G_SCALE ==> is_duty_for_part(
            spec_scaled_duty(c, scale),
            asked_part(c),
            4_062_435,
            1_000,
        ),
        scale == B_SCALE ==> is_duty_for_part(
            spec_scaled_duty(c, scale),
            asked_part(c),
            437_493,
            100,
        ),
{
    let (p, h) = (
        vstd::arithmetic::power2::pow2(149) as int,
        vstd::arithmetic::power2::pow2(140) as int,
    );
    vstd::arithmetic::power2::lemma2_to64();
    vstd::arithmetic::power2::lemma_pow2_pos(149);
    vstd::arithmetic::power2::lemma_pow2_pos(140);
    vstd::arithmetic::power2::lemma_pow2_adds(140, 9);
    vstd::arithmetic::power2::lemma_pow2_adds(125, 24);
    vstd::arithmetic::power2::lemma_pow2_adds(122, 27);
    vstd::arithmetic::power2::lemma_pow2_unfold(126);
    let (k, all) = (Float32 { bits: scale }, Float32 { bits: ALL_SCALE });
    let (e, f) = (
        vstd::arithmetic::power2::pow2(125) as int,
        vstd::arithmetic::power2::pow2(122) as int,
    );
    crate::float32::lemma_one();
    assert(k.size() == kn * e) by {
        if scale == G_SCALE {
            assert(crate::rounding::magnitude_value(G_SCALE as int) == 10_905_190 * e);
        } else if scale == B_SCALE {
            assert(crate::rounding::magnitude_value(B_SCALE as int) == 11_744_051 * e);
        }
    }
    assert(all.size() == 13_421_773 * f) by {
        assert(crate::rounding::magnitude_value(ALL_SCALE as int) == 13_421_773 * f);
    }
    lemma_square(c);
    lemma_asked_part(c);
    let x2 = spec_square_law(c);
    lemma_part_of_duty(x2, k);
    let x3 = x2.spec_times(k);
    lemma_part_of_duty(x3, all);
    let x4 = x3.spec_times(all);
    let duty = spec_scaled_duty(c, scale);
    lemma_cut_off(x4, duty);
    let (v2, v3, v4) = (x2.size(), x3.size(), x4.size());
    lemma_cut_off_squares(duty as int, v4, p);
    let (w2, w3, w4) = (v2 * p, v3 * p, v4 * p);
    let (q, hp, u) = (p * p, h * p, asked_part(c));
    assert(512 * hp == q) by (nonlinear_arith)
        requires
            p == h * 512,
            hp == h * p,
            q == p * p,
    ;
    assert(hp > 0) by (nonlinear_arith)
        requires
            hp == h * p,
            h > 0,
            p > 0,
    ;
    assert(0 <= u * u <= q) by (nonlinear_arith)
        requires
            0 <= u <= p,
            q == p * p,
    ;
    assert(0x100_0000 * (v2 * (kn * e)) == kn * w2) by (nonlinear_arith)
        requires
            w2 == v2 * p,
            p == e * 0x100_0000,
    ;
    assert(0x800_0000 * (v3 * (13_421_773 * f)) == 13_421_773 * w3) by (nonlinear_arith)
        requires
            w3 == v3 * p,
            p == f * 0x800_0000,
    ;
    let t = duty * q;
    if scale == R_SCALE {
        lemma_red_errors(t, w2, w3, w4, u * u, q, hp);
    } else if scale == G_SCALE {
        lemma_green_errors(t, w2, w3, w4, u * u, q, hp);
    } else {
        lemma_blue_errors(t, w2, w3, w4, u * u, q, hp);
    }
}

/// Rounding errors of a red duty add up to less than one more step.
proof fn lemma_red_errors(t: int, w2: int, w3: int, w4: int, s: int, q: int, h: int)
    requires
        0 <= s <= q,
        512 * h == q,
        h > 0,
        62_499 * s - 2 * h <= w2 <= 62_499 * s + 2 * h,
        0x100_0000 * w2 - 0x100_0000 * h <= 0x100_0000 * w3 <= 0x100_0000 * w2 + 0x100_0000 * h,
        13_421_773 * w3 - 0x800_0000 * h <= 0x800_0000 * w4 <= 13_421_773 * w3 + 0x800_0000 * h,
        t <= w4 < t + q,
    ensures
        64 * (62_499 * s - 10 * t) <= 65 * (10 * q),
        64 * (10 * t - 62_499 * s) <= 10 * q,
{
}

/// Rounding errors of a green duty add up to less than one more step.
proof fn lemma_green_errors(t: int, w2: int, w3: int, w4: int, s: int, q: int, h: int)
    requires
        0 <= s <= q,
        512 * h == q,
        h > 0,
        62_499 * s - 2 * h <= w2 <= 62_499 * s + 2 * h,
        10_905_190 * w2 - 0x100_0000 * h <= 0x100_0000 * w3 <= 10_905_190 * w2 + 0x100_0000 * h,
        13_421_773 * w3 - 0x800_0000 * h <= 0x800_0000 * w4 <= 13_421_773 * w3 + 0x800_0000 * h,
        t <= w4 < t + q,
    ensures
        64 * (4_062_435 * s - 1_000 * t) <= 65 * (1_000 * q),
        64 * (1_000 * t - 4_062_435 * s) <= 1_000 * q,
{
}

/// Rounding errors of a blue duty add up to less than one more step.
proof fn lemma_blue_errors(t: int, w2: int, w3: int, w4: int, s: int, q: int, h: int)
    requires
        0 <= s <= q,
        512 * h == q,
        h > 0,
        62_499 * s - 2 * h <= w2 <= 62_499 * s + 2 * h,
        11_744_051 * w2 - 0x100_0000 * h <= 0x100_0000 * w3 <= 11_744_051 * w2 + 0x100_0000 * h,
        13_421_773 * w3 - 0x800_0000 * h <= 0x800_0000 * w4 <= 13_421_773 * w3 + 0x800_0000 * h,
        t <= w4 < t + q,
    ensures
        64 * (437_493 * s - 100 * t) <= 65 * (100 * q),
        64 * (100 * t - 437_493 * s) <= 100 * q,
{
}

/// When a frame can be asked for: the start is past, the end is on the clock,
/// and the animation lasts.
pub proof fn law_frames_that_can_be_asked_for(
    driver: LedDriver,
    now: Instant,
    start: Instant,
    length: Duration,
    can: bool,
)
    requires
        call_ensures(LedDriver::started_at, (&driver,), start),
        call_ensures(Animation::duration, (&driver.playing(),), length),
        call_ensures(LedDriver::can_frame, (&driver, now), can),
    ensures
        can <==> start.ticks <= now.ticks && start.ticks + length.ticks <= u64::MAX && length.ticks
            >= 1,
        driver.transient() matches Some(value) ==> driver.playing() == value.0 && start == value.1,
        driver.transient() is None ==> driver.playing() == driver.looping(),
{
}

/// A transient animation that arrives at `s` is shown from then on as it is
/// after the time since `s`, whatever was playing, and the looping one stays
/// the same.
pub proof fn law_received_transient_is_shown(
    driver: &mut LedDriver,
    anim: Animation,
    s: Instant,
    now: Instant,
    shade: Shade,
    frame: Frame,
)
    requires
        call_ensures(LedDriver::receive, (driver, Command::Transient(anim), s), ()),
        s.ticks <= now.ticks < s.ticks + anim.length().ticks <= u64::MAX,
        call_ensures(
            Animation::eval,
            (&anim, Duration { ticks: (now.ticks - s.ticks) as u64 }),
            shade,
        ),
        call_ensures(LedDriver::frame, (&*final(driver), now), frame),
    ensures
        final(driver).can_play(now),
        frame == Frame::Show(shade),
        final(driver).looping() == old(driver).looping(),
{
}

/// A looping animation that arrives at `s` is shown from then on unless a
/// transient one plays, which it leaves alone.
pub proof fn law_received_looping_is_shown(
    driver: &mut LedDriver,
    anim: Animation,
    s: Instant,
    now: Instant,
    shade: Shade,
    frame: Frame,
)
    requires
        call_ensures(LedDriver::receive, (driver, Command::Looping(anim), s), ()),
        s.ticks <= now.ticks,
        s.ticks + anim.length().ticks <= u64::MAX,
        anim.length().ticks >= 1,
        call_ensures(
            Animation::eval,
            (&anim, Duration { ticks: (now.ticks - s.ticks) as u64 }),
            shade,
        ),
        call_ensures(LedDriver::frame, (&*final(driver), now), frame),
    ensures
        final(driver).looping() == anim,
        final(driver).transient() == old(driver).transient(),
        old(driver).transient() is None ==> frame == Frame::Show(shade),
{
}

/// After a transient animation has ended at `s`, the looping one is shown from
/// its begin.
pub proof fn law_looping_resumes_after_a_transient(
    driver: &mut LedDriver,
    s: Instant,
    now: Instant,
    shade: Shade,
    frame: Frame,
)
    requires
        call_ensures(LedDriver::finish_transient, (driver, s), ()),
        s.ticks <= now.ticks,
        s.ticks + old(driver).looping().length().ticks <= u64::MAX,
        old(driver).looping().length().ticks >= 1,
        call_ensures(
            Animation::eval,
            (&old(driver).looping(), Duration { ticks: (now.ticks - s.ticks) as u64 }),
            shade,
        ),
        call_ensures(LedDriver::frame, (&*final(driver), now), frame),
    ensures
        frame == Frame::Show(shade),
        final(driver).looping() == old(driver).looping(),
{
}

} // verus!
