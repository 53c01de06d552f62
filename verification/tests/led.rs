use color::palette::css;
use servo_reg::anim::{Animation, Color, FadeInFadeOut, Pulse, Rainbow, Shade, Solid};
use servo_reg::constants;
use servo_reg::float32::Float32;
use servo_reg::pwm::PwmConfig;
use servo_reg::rgb_led::{
    led_tick_period, set_rgb, set_rgb_inverted, Command, Frame, LedDriver, DUTY_MAX,
};
use servo_reg::time::{Duration, Instant};
use servo_reg::util::{const_checked_add, const_checked_mul, const_checked_sub, div, div_int, rem};

fn number(x: f32) -> Float32 {
    Float32 { bits: x.to_bits() }
}

fn native(x: Float32) -> f32 {
    f32::from_bits(x.bits)
}

fn color(r: f32, g: f32, b: f32) -> Color {
    Color { r: number(r), g: number(g), b: number(b) }
}

fn css_color(c: color::AlphaColor<color::Srgb>) -> Color {
    let [r, g, b] = c.discard_alpha().components;
    color(r, g, b)
}

fn ms(n: u64) -> Duration {
    Duration::from_millis(n)
}

fn pulse(c: Color, a: u64, b: u64, p: u64, z: u64, n: u64) -> Animation {
    Animation::Pulse(Pulse::new(c, ms(a), ms(b), ms(p), ms(z), n))
}

#[test]
fn durations_agree_with_the_clock() {
    assert_eq!(Duration::from_millis(7).ticks, embassy_time::Duration::from_millis(7).as_ticks());
    assert_eq!(Duration::from_secs(7).ticks, embassy_time::Duration::from_secs(7).as_ticks());
    for hz in [1, 3, 40, 100, 200, 500, 3000, 999_999, 1_000_000, 5_000_000] {
        assert_eq!(Duration::from_hz(hz).ticks, embassy_time::Duration::from_hz(hz).as_ticks());
    }
    assert_eq!(Duration::from_hz(3000).ticks, 333);
    assert_eq!(ms(3).checked_mul(4), Some(ms(12)));
    assert_eq!(Duration { ticks: u64::MAX }.checked_mul(2), None);
    assert_eq!(ms(3).as_micros(), 3000);
    assert_eq!(ms(3).minus(ms(1)), ms(2));
    assert_eq!(Instant { ticks: 5 }.plus(ms(1)), Instant { ticks: 1005 });
    assert_eq!(Instant { ticks: 1005 }.since(Instant { ticks: 5 }), ms(1));
}

#[test]
fn duration_arithmetic() {
    let d = |ticks: u64| Duration { ticks };
    assert_eq!(rem(d(17), d(5)), d(2));
    assert_eq!(div_int(d(17), d(5)), 3);
    assert_eq!(native(div(d(1), d(3))), 1.0 / 3.0);
    assert_eq!(native(div(d(16_777_217), d(2))), 16_777_216.0 / 2.0);
    assert!(native(div(d(0), d(0))).is_nan());
    assert_eq!(const_checked_sub(d(5), d(5)), Some(d(0)));
    assert_eq!(const_checked_sub(d(5), d(6)), None);
    assert_eq!(const_checked_add(d(u64::MAX), d(0)), Some(d(u64::MAX)));
    assert_eq!(const_checked_add(d(u64::MAX), d(1)), None);
    assert_eq!(const_checked_mul(d(1 << 32), 1 << 31), Some(d(1 << 63)));
    assert_eq!(const_checked_mul(d(1 << 32), 1 << 32), None);
}

#[test]
fn colors_are_the_css_ones() {
    let expect = |anim: Animation, c: color::AlphaColor<color::Srgb>, t: u64| {
        assert_eq!(anim.eval(ms(t)), Shade::Rgb(css_color(c)));
    };
    expect(constants::network_enabled_anim(), css::RED, 50);
    expect(constants::manual_enabled_anim(), css::MAGENTA, 50);
    expect(constants::manual_mode_1_anim(), css::GREEN, 300);
    expect(constants::quadrature_error_anim(), css::PURPLE, 0);
    expect(constants::connected_disabled_anim(), css::BLUE, 1500);
    assert_eq!(Color::black(), css_color(css::BLACK));
}

#[test]
fn fixed_animations() {
    let green = css_color(css::GREEN);
    assert_eq!(
        constants::disconnected_disabled_anim(),
        Animation::Rainbow(Rainbow::new(Duration::from_secs(2)))
    );
    assert_eq!(
        constants::connected_disabled_anim(),
        Animation::FadeInFadeOut(FadeInFadeOut::new(
            css_color(css::BLUE),
            Duration::from_secs(3)
        ))
    );
    assert_eq!(
        constants::network_enabled_anim(),
        pulse(css_color(css::RED), 50, 50, 100, 200, 2)
    );
    assert_eq!(
        constants::manual_enabled_anim(),
        pulse(css_color(css::MAGENTA), 50, 50, 100, 200, 2)
    );
    assert_eq!(constants::manual_mode_1_anim(), pulse(green, 300, 100, 200, 700, 1));
    assert_eq!(constants::manual_mode_2_anim(), pulse(green, 300, 100, 200, 500, 2));
    assert_eq!(constants::manual_mode_3_anim(), pulse(green, 300, 100, 200, 300, 3));
    assert_eq!(
        constants::quadrature_error_anim(),
        pulse(css_color(css::PURPLE), 0, 200, 400, 500, 2)
    );
    for anim in [
        constants::manual_mode_1_anim(),
        constants::manual_mode_2_anim(),
        constants::manual_mode_3_anim(),
    ] {
        assert_eq!(anim.duration(), ms(1100));
    }
}

#[test]
fn animations_have_lengths() {
    let white = color(1.0, 1.0, 1.0);
    assert_eq!(Animation::Off.duration(), Duration::from_secs(100_000));
    assert_eq!(Animation::Solid(Solid::new(white, ms(5))).duration(), ms(5));
    assert_eq!(pulse(white, 10, 20, 50, 30, 3).duration(), ms(10 + 50 + 50 + 20 + 30));
    assert_eq!(Animation::Rainbow(Rainbow::new(ms(9))).duration(), ms(9));
}

#[test]
fn steady_animations() {
    let c = color(0.5, 0.25, 1.0);
    let solid = Animation::Solid(Solid::new(c, ms(5)));
    for t in [0, 4, 5, 1234] {
        assert_eq!(solid.eval(ms(t)), Shade::Rgb(c));
        assert_eq!(Animation::Off.eval(ms(t)), Shade::Rgb(Color::black()));
    }
}

#[test]
fn a_pulse_flashes_in_its_windows() {
    let c = color(1.0, 0.0, 0.5);
    let anim = pulse(c, 10, 20, 50, 30, 3);
    for t in 0..320u64 {
        let u = t % 160;
        let lit = (10..30).contains(&u) || (60..80).contains(&u) || (110..130).contains(&u);
        let expected = if lit { c } else { Color::black() };
        assert_eq!(anim.eval(ms(t)), Shade::Rgb(expected), "{}", t);
    }
}

#[test]
fn a_fade_rises_and_falls() {
    let c = color(1.0, 0.5, 0.3);
    let anim = Animation::FadeInFadeOut(FadeInFadeOut::new(c, Duration { ticks: 1000 }));
    for t in 0..2000u64 {
        let x = (t % 1000) as f32 / 1000.0;
        let b = if x < 0.5 { 2. * x } else { 2. * (1. - x) };
        assert_eq!(
            anim.eval(Duration { ticks: t }),
            Shade::Rgb(color(1.0 * b, 0.5 * b, 0.3 * b))
        );
        assert!((0.0..=1.0).contains(&b));
    }
    assert_eq!(anim.eval(Duration { ticks: 500 }), Shade::Rgb(c));
}

#[test]
fn a_rainbow_goes_around() {
    let anim = Animation::Rainbow(Rainbow::new(Duration { ticks: 7 }));
    for t in 0..20u64 {
        let hue = 360. * ((t % 7) as f32 / 7.0);
        assert_eq!(anim.eval(Duration { ticks: t }), Shade::Hue(number(hue)));
    }
}

#[test]
fn duties_follow_the_square_law() {
    let scale = |c: f32, s: f32| -> u16 {
        let c = f32::max(f32::min(c, 1.0), 0.0);
        (62499.0 * c * c * s * 0.1) as u16
    };
    let full = |c: f32| -> u16 {
        let c = f32::max(f32::min(c, 1.0), 0.0);
        (62499.0 * c * c) as u16
    };
    let base = PwmConfig::default();
    let mut cs: Vec<f32> = vec![f32::NAN, -1.0, 2.0, 0.0, -0.0, f32::INFINITY];
    for i in 0..300 {
        cs.push(i as f32 / 299.0);
    }
    for (i, &r) in cs.iter().enumerate() {
        let g = cs[(i * 7) % cs.len()];
        let b = cs[(i * 13) % cs.len()];
        let (green, red_blue) = set_rgb(color(r, g, b));
        assert_eq!(
            green,
            PwmConfig { divider: 32, compare_a: scale(g, 0.65), top: 62499, ..base }
        );
        assert_eq!(
            red_blue,
            PwmConfig {
                divider: 32,
                compare_a: scale(r, 1.0),
                compare_b: scale(b, 0.7),
                top: 62499,
                ..base
            }
        );
        let (red, green_blue) = set_rgb_inverted(color(r, g, b));
        assert_eq!(
            red,
            PwmConfig { invert_a: true, divider: 32, compare_a: full(r), top: 62499, ..base }
        );
        assert_eq!(
            green_blue,
            PwmConfig {
                invert_a: true,
                invert_b: true,
                divider: 32,
                compare_a: full(g),
                compare_b: full(b),
                top: 62499,
                ..base
            }
        );
        assert!(red.compare_a <= DUTY_MAX && green.compare_a <= DUTY_MAX);
    }
    assert_eq!(set_rgb(color(1.0, 1.0, 1.0)).0.compare_a, 4062);
    let (red, green_blue) = set_rgb_inverted(color(1.0, 0.5, 0.0));
    assert_eq!((red.compare_a, red.divider, red.top), (62499, 32, 62499));
    assert_eq!((green_blue.compare_a, green_blue.compare_b), (15624, 0));
    assert_eq!((green_blue.divider, green_blue.top), (32, 62499));
}

#[test]
fn slices_start_at_full_rate() {
    let base = PwmConfig::default();
    assert_eq!(base.divider, 16);
    assert_eq!(base.top, 0xffff);
    assert!(base.enable && !base.invert_a && !base.invert_b && !base.phase_correct);
    assert_eq!((base.compare_a, base.compare_b), (0, 0));
}

#[test]
fn looping_animation_plays_on_and_on() {
    let t = |ms: u64| Instant { ticks: ms * 1000 };
    let mut led = LedDriver::new(t(0));
    assert_eq!(led.frame(t(5)), Frame::Show(Shade::Rgb(Color::black())));
    let c = color(1.0, 0.0, 0.0);
    let looping = pulse(c, 0, 10, 20, 10, 1);
    led.receive(Command::Looping(looping), t(100));
    assert_eq!(led.frame(t(100)), Frame::Show(Shade::Rgb(c)));
    assert_eq!(led.frame(t(110)), Frame::Show(Shade::Rgb(Color::black())));
    assert_eq!(led.frame(t(125)), Frame::Show(Shade::Rgb(c)));
    assert!(!led.can_frame(t(99)));
    assert_eq!(led_tick_period(), ms(10));
}

#[test]
fn transient_animation_is_not_set_back() {
    let t = |ms: u64| Instant { ticks: ms * 1000 };
    let red = color(1.0, 0.0, 0.0);
    let blue = color(0.0, 0.0, 1.0);
    let once = Animation::Solid(Solid::new(red, ms(50)));
    let looping = Animation::Solid(Solid::new(blue, ms(1)));
    let mut led = LedDriver::new(t(0));
    led.receive(Command::Transient(once), t(10));
    assert_eq!(led.frame(t(20)), Frame::Show(Shade::Rgb(red)));
    led.receive(Command::Looping(looping), t(40));
    assert_eq!(led.frame(t(59)), Frame::Show(Shade::Rgb(red)));
    assert_eq!(led.frame(t(60)), Frame::Finished);
    led.finish_transient(t(60));
    assert_eq!(led.frame(t(60)), Frame::Show(Shade::Rgb(blue)));
    led.receive(Command::Transient(once), t(70));
    led.receive(Command::Transient(once), t(100));
    assert_eq!(led.frame(t(149)), Frame::Show(Shade::Rgb(red)));
    assert_eq!(led.frame(t(150)), Frame::Finished);
}
