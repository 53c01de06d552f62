use servo_reg::angle::{Angle, TURN_BITS};
use servo_reg::constants;
use servo_reg::constants::{
    FRAC_PI_2, HA_AMP, HA_AVG, HB_AMP, HB_AVG, HC_AMP, HC_AVG, PI, SQRT_3, TAU,
};
use servo_reg::float32::Float32;
use servo_reg::motor_quadrature::{
    clarke_trans, normalize_hall, wrapped_angle_sub, HallAngleTracker, QuadratureCommand,
    QuadratureError,
};
use servo_reg::quadrature_task::{
    finish_reported_sample, handle_event, has_spare_time, late_alarm, sample_deadline, spare_time, Lateness,
    QuadratureEvent, QuadratureLoop,
};
use servo_reg::rgb_led::Command;
use servo_reg::time::Instant;

use core::f32::consts;
use fixed::traits::ToFixed;
use fixed::types::I32F32;

fn number(x: f32) -> Float32 {
    Float32 { bits: x.to_bits() }
}

fn native(x: Float32) -> f32 {
    f32::from_bits(x.bits)
}

/// The tracker on native numbers and on the fixed-point type itself.
struct Reference {
    cum_rotations: i32,
    offset: I32F32,
    prev: Option<f32>,
    init_angle: I32F32,
}

impl Reference {
    fn update(&mut self, theta: f32) -> Result<I32F32, &'static str> {
        let new = -theta;
        let Some(prev) = self.prev else {
            self.prev = Some(new);
            self.offset = self.init_angle - new.to_fixed::<I32F32>();
            return Ok(self.init_angle);
        };
        let r = (new - prev + consts::PI) % (2. * consts::PI);
        let r = if r < 0.0 { r + 2. * consts::PI } else { r };
        if (r - consts::PI).abs() > consts::FRAC_PI_2 {
            return Err("Failed to track hall sensor commutation");
        }
        let delta = new - prev;
        if delta > consts::PI {
            self.cum_rotations -= 1;
        } else if delta < -consts::PI {
            self.cum_rotations += 1;
        }
        self.prev = Some(new);
        Ok(new.to_fixed::<I32F32>()
            + self.cum_rotations.to_fixed::<I32F32>() * consts::TAU.to_fixed::<I32F32>()
            + self.offset)
    }
}

#[test]
fn constants_are_the_native_ones() {
    assert_eq!(PI, consts::PI.to_bits());
    assert_eq!(TAU, consts::TAU.to_bits());
    assert_eq!(FRAC_PI_2, consts::FRAC_PI_2.to_bits());
    assert_eq!(SQRT_3, 1.7320508075688772f32.to_bits());
    assert_eq!(TURN_BITS, consts::TAU.to_fixed::<I32F32>().to_bits());
    assert_eq!((HA_AVG, HB_AVG, HC_AVG), (2088, 2077, 2057));
    assert_eq!((HA_AMP, HB_AMP, HC_AMP), (1499, 1540, 1514));
}

#[test]
fn readings_are_normalized() {
    let (a, b, c) = normalize_hall(3587, 537, 2057);
    assert_eq!(native(a), 1.0);
    assert_eq!(native(b), -1.0);
    assert_eq!(native(c), 0.0);
    let (a, _, _) = normalize_hall(0, 0, 0);
    assert_eq!(native(a), (0f32 - 2088f32) / 1499f32);
}

#[test]
fn clarke_vector_is_exact() {
    let (alpha, beta) = clarke_trans(number(0.25), number(1.0), number(-0.5));
    assert_eq!(native(alpha), 0.25);
    assert_eq!(native(beta), 1.5 / 1.7320508f32);
}

#[test]
fn wrapped_difference_is_within_half_a_turn() {
    assert_eq!(native(wrapped_angle_sub(number(3.0), number(-3.0))), {
        let r = (6.0f32 + core::f32::consts::PI) % (2.0 * core::f32::consts::PI);
        r - core::f32::consts::PI
    });
    for i in -32..33 {
        for j in -32..33 {
            let d = native(wrapped_angle_sub(number(i as f32 * 0.1), number(j as f32 * 0.1)));
            assert!(d.abs() <= core::f32::consts::PI);
        }
    }
}

#[test]
fn tracker_agrees_with_the_native_numbers() {
    let init = I32F32::from_num(12.5);
    let mut tracker = HallAngleTracker::new(Angle { bits: init.to_bits() });
    let mut reference =
        Reference { cum_rotations: 0, offset: I32F32::ZERO, prev: None, init_angle: init };
    let mut x: u32 = 7;
    let mut theta = 0.3f32;
    let mut refused = 0;
    for _ in 0..4000 {
        x ^= x << 13;
        x ^= x >> 17;
        x ^= x << 5;
        theta += ((x >> 8) as f32 / 16_777_216.0 - 0.4) * 3.4;
        while theta > core::f32::consts::PI {
            theta -= core::f32::consts::TAU;
        }
        while theta < -core::f32::consts::PI {
            theta += core::f32::consts::TAU;
        }
        assert!(tracker.can_update(number(theta)));
        let ours = tracker.update(number(theta));
        let theirs = reference.update(theta);
        assert_eq!(ours.map(|a| a.bits), theirs.map(|a| a.to_bits()));
        if ours.is_err() {
            refused += 1;
        }
    }
    assert!(refused > 0 && refused < 4000);
}

#[test]
fn a_turn_is_counted_both_ways() {
    let mut tracker = HallAngleTracker::new(Angle::zero());
    // the angle is the opposite of the direction
    let up: [f32; 5] = [0.0, -1.5, -3.0, 1.8, 0.3];
    for theta in up {
        tracker.update(number(theta)).unwrap();
    }
    let around = tracker.update(number(0.0)).unwrap();
    assert_eq!(around.bits, TURN_BITS);
    for theta in up.iter().rev() {
        tracker.update(number(*theta)).unwrap();
    }
    assert_eq!(tracker.update(number(0.0)).unwrap(), Angle::zero());
}

#[test]
fn lost_tracking_is_refused_and_forgotten() {
    let mut tracker = HallAngleTracker::new(Angle { bits: 5 });
    assert_eq!(tracker.update(number(0.0)), Ok(Angle { bits: 5 }));
    assert_eq!(tracker.update(number(2.0)), Err("Failed to track hall sensor commutation"));
    assert_eq!(tracker.update(number(0.0)), Ok(Angle { bits: 5 }));
}

#[test]
fn readings_that_do_not_fit_are_told() {
    let mut tracker = HallAngleTracker::new(Angle::zero());
    assert!(!tracker.can_update(number(f32::NAN)));
    assert!(!tracker.can_update(number(f32::INFINITY)));
    assert!(!tracker.can_update(number(3.0e9)));
    assert!(tracker.can_update(number(1.0)));
    tracker.update(number(1.0)).unwrap();
    assert!(!tracker.can_update(number(f32::NAN)));
}

#[test]
fn reset_moves_the_current_angle() {
    let mut tracker = HallAngleTracker::new(Angle { bits: 77 });
    tracker.reset(Angle { bits: 1000 });
    assert_eq!(tracker.update(number(0.5)), Ok(Angle { bits: 77 }));
    assert!(tracker.can_reset(Angle { bits: 1000 }));
    tracker.reset(Angle { bits: 1000 });
    assert_eq!(tracker.update(number(0.5)), Ok(Angle { bits: 1000 }));
    tracker.zero();
    assert_eq!(tracker.update(number(0.5)), Ok(Angle::zero()));
    assert_eq!(
        tracker.update(number(0.25)).unwrap().bits,
        ((0.25f64) * 4294967296.0) as i64
    );
}

#[test]
fn angles_agree_with_the_fixed_point_type() {
    for (a, b) in [(1.5f32, -2.25f32), (1000.125, 0.1), (-3.75, 7.0e6), (1.0e-9, 1.0)] {
        let (x, y) = (a.to_fixed::<I32F32>(), b.to_fixed::<I32F32>());
        let (p, q) = (Angle::from_radians(number(a)), Angle::from_radians(number(b)));
        assert_eq!(p.bits, x.to_bits());
        assert_eq!(p.plus(q).bits, (x + y).to_bits());
        assert_eq!(p.minus(q).bits, (x - y).to_bits());
        assert_eq!(native(p.to_radians()), x.to_num::<f32>());
    }
    for n in [0, 1, -1, 1000, -123_456] {
        assert_eq!(
            Angle::of_turns(n).bits,
            (n.to_fixed::<I32F32>() * core::f32::consts::TAU.to_fixed::<I32F32>()).to_bits()
        );
    }
}

#[test]
fn spare_time_is_negative_when_late() {
    let t = |ticks: u64| Instant { ticks };
    assert_eq!(spare_time(t(100), t(333)), 233);
    assert_eq!(spare_time(t(333), t(333)), 0);
    assert_eq!(spare_time(t(400), t(333)), -67);
    // the count wraps around after 2^32 microseconds
    assert_eq!(spare_time(t(0), t(0x8000_0001)), i32::MIN + 1);
    assert_eq!(spare_time(t(0x1_0000_0005), t(0)), -5);
}

#[test]
fn late_samples_warn_once_a_second() {
    let t = |ticks: u64| Instant { ticks };
    let mut timing = QuadratureLoop::new(t(1000));
    // deadlines are 333 ticks apart
    assert!(timing.can_finish_sample(t(1100), t(1100)));
    assert_eq!(timing.finish_sample(t(1100), t(1100)), Lateness::Quiet);
    assert_eq!(timing.finish_sample(t(1700), t(1701)), Lateness::Late(-34));
    assert_eq!(timing.finish_sample(t(3000), t(3000)), Lateness::Quiet);
    assert_eq!(timing.finish_sample(t(1_001_701), t(1_001_701)), Lateness::Quiet);
    assert_eq!(
        timing.finish_sample(t(1_001_702), t(1_001_702)),
        Lateness::Late(-(1_001_702 - 1000 - 5 * 333))
    );
    assert!(!timing.can_finish_sample(t(1_001_702), t(5)));
}

#[test]
fn late_sample_raises_an_alarm() {
    let purple = constants::rgb(constants::MIDDLE, 0, constants::MIDDLE);
    let red = constants::rgb(0x3f80_0000, 0, 0);
    assert!(late_alarm(0, red).is_none());
    assert!(late_alarm(12, red).is_none());
    assert_eq!(
        late_alarm(-1, purple),
        Some(Command::Transient(constants::quadrature_error_anim()))
    );
    assert_eq!(late_alarm(-1, red), Some(Command::Transient(constants::alarm_anim(red))));
    let t = |ticks: u64| Instant { ticks };
    assert_eq!(sample_deadline(t(1000), 0), Some(t(1333)));
    assert_eq!(sample_deadline(t(1000), 2), Some(t(1999)));
    assert_eq!(sample_deadline(t(0), u32::MAX), None);
    assert_eq!(sample_deadline(t(u64::MAX - 332), 0), None);
    assert!(has_spare_time(t(5), t(9)) && has_spare_time(t(9), t(5)));
    assert!(!has_spare_time(t(0x8000_0000), t(0)));
    let alarm = Some(Command::Transient(constants::alarm_anim(red)));
    assert_eq!(finish_reported_sample(t(1000), 0, t(1300), red), Some((33, None)));
    assert_eq!(finish_reported_sample(t(1000), 1, t(1700), red), Some((-34, alarm)));
    assert_eq!(finish_reported_sample(t(1000), u32::MAX, t(1700), red), None);
    assert_eq!(finish_reported_sample(t(0), 0, t(0x8000_0000 + 333), red), None);
}

#[test]
fn commands_and_failures_start_tracking_afresh() {
    let mut tracker = HallAngleTracker::new(Angle { bits: 9 });
    tracker.update(number(1.0)).unwrap();
    let reset = QuadratureEvent::Command(QuadratureCommand::ResetAt(Angle { bits: 44 }));
    assert_eq!(handle_event(&mut tracker, reset), None);
    assert_eq!(tracker.update(number(-3.0)), Ok(Angle { bits: 44 }));
    assert_eq!(handle_event(&mut tracker, QuadratureEvent::Finished), None);
    assert!(tracker.update(number(0.0)).is_err());
    let zero = QuadratureEvent::Command(QuadratureCommand::Zero);
    assert_eq!(handle_event(&mut tracker, zero), None);
    assert_eq!(tracker.update(number(0.0)), Ok(Angle::zero()));
    assert_eq!(
        handle_event(&mut tracker, QuadratureEvent::Failed),
        Some(QuadratureError {})
    );
    assert_eq!(tracker.update(number(2.5)), Ok(Angle::zero()));
}

#[test]
fn accepted_readings_move_at_most_a_quarter_turn() {
    let quarter = TURN_BITS / 4 + 8192;
    for i in -31..32 {
        for j in -31..32 {
            let (p, q) = (i as f32 * 0.101, j as f32 * 0.101);
            let mut tracker = HallAngleTracker::new(Angle::zero());
            tracker.update(number(p)).unwrap();
            let exact = (p as f64 - q as f64).rem_euclid(core::f64::consts::TAU);
            let moved = if exact > core::f64::consts::PI {
                exact - core::f64::consts::TAU
            } else {
                exact
            };
            match tracker.update(number(q)) {
                Ok(angle) => {
                    assert!(angle.bits.abs() <= quarter);
                    assert!((angle.bits as f64 / 4294967296.0 - moved).abs() < 2.0e-6);
                }
                Err(_) => assert!(moved.abs() > core::f64::consts::FRAC_PI_2 - 2.0e-6),
            }
        }
    }
}
