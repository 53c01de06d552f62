//! Calibration values and fixed settings.
use vstd::prelude::*;

use crate::anim::{Animation, Color, FadeInFadeOut, Pulse, Rainbow};
use crate::float32::{Float32, ONE};
use crate::time::Duration;

verus! {

/// Largest and smallest readings of the three Hall sensors.
pub const HA_MAX: u16 = 3587;

pub const HB_MAX: u16 = 3618;

pub const HC_MAX: u16 = 3571;

pub const HA_MIN: u16 = 589;

pub const HB_MIN: u16 = 537;

pub const HC_MIN: u16 = 543;

/// Middle of the range of each sensor.
pub const HA_AVG: u16 = (HA_MIN + HA_MAX) / 2;

pub const HB_AVG: u16 = (HB_MIN + HB_MAX) / 2;

pub const HC_AVG: u16 = (HC_MIN + HC_MAX) / 2;

/// Half the range of each sensor.
pub const HA_AMP: u16 = (HA_MAX - HA_MIN) / 2;

pub const HB_AMP: u16 = (HB_MAX - HB_MIN) / 2;

pub const HC_AMP: u16 = (HC_MAX - HC_MIN) / 2;

/// Encodings of the single-precision square root of three, and of pi, twice
/// pi and half pi.
pub const SQRT_3: u32 = 0x3fdd_b3d7;

pub const PI: u32 = 0x4049_0fdb;

pub const TAU: u32 = 0x40c9_0fdb;

pub const FRAC_PI_2: u32 = 0x3fc9_0fdb;

/// Longest silence of the client, in milliseconds, before a connection is
/// given up.
pub const HEARTBEAT_MAX_ALLOWED_MS: u64 = 500;

pub const HEARTBEAT_BYTE: u8 = 0x42;

/// Encoding of 128 / 255, half of full brightness in eight bits.
pub const MIDDLE: u32 = 0x3f00_8081;

/// The color of three encoded components.
pub open spec fn spec_rgb(r: u32, g: u32, b: u32) -> Color {
    Color { r: Float32 { bits: r }, g: Float32 { bits: g }, b: Float32 { bits: b } }
}

/// The color of three encoded components.
pub fn rgb(r: u32, g: u32, b: u32) -> (c: Color)
    ensures
        c == spec_rgb(r, g, b),
{
    Color { r: Float32 { bits: r }, g: Float32 { bits: g }, b: Float32 { bits: b } }
}

/// A number of milliseconds.
pub open spec fn spec_millis(n: int) -> Duration {
    Duration { ticks: (n * 1000) as u64 }
}

/// A pulse with its times in milliseconds.
pub open spec fn spec_pulse_of_millis(
    color: Color,
    initial_delay: int,
    pulse_width: int,
    period: int,
    final_delay: int,
    num_pulses: u64,
) -> Animation {
    Animation::Pulse(
        Pulse::spec_new(
            color,
            spec_millis(initial_delay),
            spec_millis(pulse_width),
            spec_millis(period),
            spec_millis(final_delay),
            num_pulses,
        ),
    )
}

fn pulse_of_millis(
    color: Color,
    initial_delay: u64,
    pulse_width: u64,
    period: u64,
    final_delay: u64,
    num_pulses: u64,
) -> (a: Animation)
    requires
        initial_delay <= 1000,
        1 <= period <= 1000,
        pulse_width <= period,
        final_delay <= 1000,
        1 <= num_pulses <= 1000,
    ensures
        a == spec_pulse_of_millis(
            color,
            initial_delay as int,
            pulse_width as int,
            period as int,
            final_delay as int,
            num_pulses,
        ),
{
    proof {
        let (n, w, p) = (num_pulses as int, pulse_width * 1000, period * 1000);
        assert(n * w <= 1_000_000_000) by (nonlinear_arith)
            requires
                1 <= n <= 1000,
                0 <= w <= 1_000_000,
        ;
        assert((n - 1) * (p - w) <= 1_000_000_000) by (nonlinear_arith)
            requires
                1 <= n <= 1000,
                0 <= p - w <= 1_000_000,
        ;
    }
    Animation::Pulse(
        Pulse::new(
            color,
            Duration::from_millis(initial_delay),
            Duration::from_millis(pulse_width),
            Duration::from_millis(period),
            Duration::from_millis(final_delay),
            num_pulses,
        ),
    )
}

pub open spec fn spec_disconnected_disabled_anim() -> Animation {
    Animation::Rainbow(Rainbow::spec_new(spec_millis(2000)))
}

/// Shown while there is neither a client nor a manual mode.
pub fn disconnected_disabled_anim() -> (a: Animation)
    ensures
        a == spec_disconnected_disabled_anim(),
{
    Animation::Rainbow(Rainbow::new(Duration::from_secs(2)))
}

pub open spec fn spec_connected_disabled_anim() -> Animation {
    Animation::FadeInFadeOut(FadeInFadeOut::spec_new(spec_rgb(0, 0, ONE), spec_millis(3000)))
}

/// Shown while a client is connected and the motor is disabled.
pub fn connected_disabled_anim() -> (a: Animation)
    ensures
        a == spec_connected_disabled_anim(),
{
    Animation::FadeInFadeOut(FadeInFadeOut::new(rgb(0, 0, ONE), Duration::from_secs(3)))
}

pub open spec fn spec_network_enabled_anim() -> Animation {
    spec_pulse_of_millis(spec_rgb(ONE, 0, 0), 50, 50, 100, 200, 2)
}

/// Shown while a client drives the motor.
pub fn network_enabled_anim() -> (a: Animation)
    ensures
        a == spec_network_enabled_anim(),
{
    pulse_of_millis(rgb(ONE, 0, 0), 50, 50, 100, 200, 2)
}

pub open spec fn spec_manual_enabled_anim() -> Animation {
    spec_pulse_of_millis(spec_rgb(ONE, 0, ONE), 50, 50, 100, 200, 2)
}

/// Shown while the motor is driven by hand.
pub fn manual_enabled_anim() -> (a: Animation)
    ensures
        a == spec_manual_enabled_anim(),
{
    pulse_of_millis(rgb(ONE, 0, ONE), 50, 50, 100, 200, 2)
}

pub open spec fn spec_manual_mode_1_anim() -> Animation {
    spec_pulse_of_millis(spec_rgb(0, MIDDLE, 0), 300, 100, 200, 700, 1)
}

/// One flash: speed control by hand.
pub fn manual_mode_1_anim() -> (a: Animation)
    ensures
        a == spec_manual_mode_1_anim(),
{
    pulse_of_millis(rgb(0, MIDDLE, 0), 300, 100, 200, 700, 1)
}

pub open spec fn spec_manual_mode_2_anim() -> Animation {
    spec_pulse_of_millis(spec_rgb(0, MIDDLE, 0), 300, 100, 200, 500, 2)
}

/// Two flashes: position control by hand.
pub fn manual_mode_2_anim() -> (a: Animation)
    ensures
        a == spec_manual_mode_2_anim(),
{
    pulse_of_millis(rgb(0, MIDDLE, 0), 300, 100, 200, 500, 2)
}

pub open spec fn spec_manual_mode_3_anim() -> Animation {
    spec_pulse_of_millis(spec_rgb(0, MIDDLE, 0), 300, 100, 200, 300, 3)
}

/// Three flashes: the third manual mode.
pub fn manual_mode_3_anim() -> (a: Animation)
    ensures
        a == spec_manual_mode_3_anim(),
{
    pulse_of_millis(rgb(0, MIDDLE, 0), 300, 100, 200, 300, 3)
}

pub open spec fn spec_alarm_anim(color: Color) -> Animation {
    spec_pulse_of_millis(color, 0, 200, 400, 500, 2)
}

/// Two flashes: something is wrong with the shaft angle.
pub fn alarm_anim(color: Color) -> (a: Animation)
    ensures
        a == spec_alarm_anim(color),
{
    pulse_of_millis(color, 0, 200, 400, 500, 2)
}

pub open spec fn spec_quadrature_error_anim() -> Animation {
    spec_alarm_anim(spec_rgb(MIDDLE, 0, MIDDLE))
}

/// The alarm in purple: the shaft angle was lost.
pub fn quadrature_error_anim() -> (a: Animation)
    ensures
        a == spec_quadrature_error_anim(),
{
    alarm_anim(rgb(MIDDLE, 0, MIDDLE))
}

/// The animations of the manual modes are equally long; those of driving are
/// short.
pub proof fn law_lengths_of_the_animations()
    ensures
        spec_disconnected_disabled_anim().length() == spec_millis(2000),
        spec_connected_disabled_anim().length() == spec_millis(3000),
        spec_network_enabled_anim().length() == spec_millis(400),
        spec_manual_enabled_anim().length() == spec_millis(400),
        spec_manual_mode_1_anim().length() == spec_millis(1100),
        spec_manual_mode_2_anim().length() == spec_millis(1100),
        spec_manual_mode_3_anim().length() == spec_millis(1100),
        spec_quadrature_error_anim().length() == spec_millis(1100),
{
    Rainbow::lemma_parts(spec_millis(2000));
    FadeInFadeOut::lemma_parts(spec_rgb(0, 0, ONE), spec_millis(3000));
    lemma_pulse(spec_rgb(ONE, 0, 0), 50, 50, 100, 200, 2);
    lemma_pulse(spec_rgb(ONE, 0, ONE), 50, 50, 100, 200, 2);
    lemma_pulse(spec_rgb(0, MIDDLE, 0), 300, 100, 200, 700, 1);
    lemma_pulse(spec_rgb(0, MIDDLE, 0), 300, 100, 200, 500, 2);
    lemma_pulse(spec_rgb(0, MIDDLE, 0), 300, 100, 200, 300, 3);
    lemma_pulse(spec_rgb(MIDDLE, 0, MIDDLE), 0, 200, 400, 500, 2);
}

proof fn lemma_pulse(color: Color, lead: int, width: int, period: int, tail: int, n: u64)
    ensures
        spec_pulse_of_millis(color, lead, width, period, tail, n).length().ticks
            == crate::anim::pulse_ticks(
            spec_millis(lead).ticks as int,
            spec_millis(width).ticks as int,
            spec_millis(period).ticks as int,
            spec_millis(tail).ticks as int,
            n as int,
        ) as u64,
{
    Pulse::lemma_parts(
        color,
        spec_millis(lead),
        spec_millis(width),
        spec_millis(period),
        spec_millis(tail),
        n,
    );
}

/// The pulse has `n` flashes of `width` milliseconds, `period` apart, between
/// two pauses, in a color.
pub open spec fn is_pulse(
    animation: Animation,
    color: Color,
    lead: int,
    width: int,
    period: int,
    tail: int,
    n: int,
) -> bool {
    &&& animation is Pulse
    &&& animation->Pulse_0.shown() == color
    &&& animation->Pulse_0.lead().ticks == lead * 1000
    &&& animation->Pulse_0.width().ticks == width * 1000
    &&& animation->Pulse_0.cycle().ticks == period * 1000
    &&& animation->Pulse_0.tail().ticks == tail * 1000
    &&& crate::anim::flashes(animation->Pulse_0, n)
}

/// Each manual mode flashes its number in green.
pub proof fn law_manual_modes_flash_their_number(
    first: Animation,
    second: Animation,
    third: Animation,
    green: Color,
)
    requires
        call_ensures(manual_mode_1_anim, (), first),
        call_ensures(manual_mode_2_anim, (), second),
        call_ensures(manual_mode_3_anim, (), third),
        call_ensures(rgb, (0, 0x3f00_8081, 0), green),
    ensures
        is_pulse(first, green, 300, 100, 200, 700, 1),
        is_pulse(second, green, 300, 100, 200, 500, 2),
        is_pulse(third, green, 300, 100, 200, 300, 3),
{
    lemma_pulse_parts(green, 300, 100, 200, 700, 1);
    lemma_pulse_parts(green, 300, 100, 200, 500, 2);
    lemma_pulse_parts(green, 300, 100, 200, 300, 3);
}

/// Driving flashes twice: in red for a client and in magenta by hand. An alarm
/// is two long flashes in its color, and a lost shaft angle alarms in purple.
pub proof fn law_driving_and_alarms_flash_twice(
    network: Animation,
    manual: Animation,
    color: Color,
    alarm: Animation,
    lost: Animation,
)
    requires
        call_ensures(network_enabled_anim, (), network),
        call_ensures(manual_enabled_anim, (), manual),
        call_ensures(alarm_anim, (color,), alarm),
        call_ensures(quadrature_error_anim, (), lost),
    ensures
        is_pulse(network, spec_rgb(ONE, 0, 0), 50, 50, 100, 200, 2),
        is_pulse(manual, spec_rgb(ONE, 0, ONE), 50, 50, 100, 200, 2),
        is_pulse(alarm, color, 0, 200, 400, 500, 2),
        is_pulse(lost, spec_rgb(0x3f00_8081, 0, 0x3f00_8081), 0, 200, 400, 500, 2),
{
    lemma_pulse_parts(spec_rgb(ONE, 0, 0), 50, 50, 100, 200, 2);
    lemma_pulse_parts(spec_rgb(ONE, 0, ONE), 50, 50, 100, 200, 2);
    lemma_pulse_parts(color, 0, 200, 400, 500, 2);
    lemma_pulse_parts(spec_rgb(0x3f00_8081, 0, 0x3f00_8081), 0, 200, 400, 500, 2);
}

/// A disabled motor shows: without a client a rainbow of two seconds, and with
/// one a fade in blue of three seconds.
pub proof fn law_disabled_motor_is_shown(alone: Animation, connected: Animation)
    requires
        call_ensures(disconnected_disabled_anim, (), alone),
        call_ensures(connected_disabled_anim, (), connected),
    ensures
        alone is Rainbow && alone.length().ticks == 2_000_000,
        connected is FadeInFadeOut && connected.length().ticks == 3_000_000,
        connected->FadeInFadeOut_0.shown().r.bits == 0,
        connected->FadeInFadeOut_0.shown().g.bits == 0,
        connected->FadeInFadeOut_0.shown().b.bits == 0x3f80_0000,
{
    Rainbow::lemma_parts(spec_millis(2000));
    FadeInFadeOut::lemma_parts(spec_rgb(0, 0, ONE), spec_millis(3000));
}

/// What a pulse with its times in milliseconds is made of.
pub(crate) proof fn lemma_pulse_parts(
    color: Color,
    lead: int,
    width: int,
    period: int,
    tail: int,
    n: u64,
)
    requires
        0 <= lead <= 1000,
        0 <= width <= period,
        1 <= period <= 1000,
        0 <= tail <= 1000,
        1 <= n <= 3,
    ensures
        is_pulse(
            spec_pulse_of_millis(color, lead, width, period, tail, n),
            color,
            lead,
            width,
            period,
            tail,
            n as int,
        ),
{
    Pulse::lemma_parts(
        color,
        spec_millis(lead),
        spec_millis(width),
        spec_millis(period),
        spec_millis(tail),
        n,
    );
    let (m, w, p) = (n as int, width * 1000, period * 1000);
    assert(0 <= m * w <= 3_000_000) by (nonlinear_arith)
        requires
            1 <= m <= 3,
            0 <= w <= 1_000_000,
    ;
    assert(0 <= (m - 1) * (p - w) <= 3_000_000) by (nonlinear_arith)
        requires
            1 <= m <= 3,
            0 <= p - w <= 1_000_000,
    ;
}

/// The calibration of the sensors: middle and half of their ranges.
pub proof fn law_calibration_is_of_the_ranges()
    ensures
        2 * HA_AVG == 589 + 3587,
        2 * HA_AMP == 3587 - 589,
        2 * HB_AVG <= 537 + 3618 <= 2 * HB_AVG + 1,
        2 * HB_AMP <= 3618 - 537 <= 2 * HB_AMP + 1,
        2 * HC_AVG == 543 + 3571,
        2 * HC_AMP == 3571 - 543,
{
}

} // verus!
