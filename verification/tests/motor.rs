use servo_reg::angle::Angle;
use servo_reg::float32::Float32;
use servo_reg::motor_control::{
    control_period, next_command, position_drive, pwm_config, set_motor_speed, test_motor_ctrl,
    BenchOutputs, Drive, Gates, Level, MotorCommand, MotorEvent, MotorState, Readings, PWM_TOP,
};
use servo_reg::pwm::PwmConfig;

use fixed::types::I32F32;

fn number(x: f32) -> Float32 {
    Float32 { bits: x.to_bits() }
}

fn speeds() -> Vec<f32> {
    let mut v: Vec<f32> = vec![f32::NAN, f32::INFINITY, f32::NEG_INFINITY, 0.0, -0.0, 1.0e-40];
    for i in -260..260 {
        v.push(i as f32 / 200.0);
    }
    v
}

fn angle(x: f64) -> Angle {
    Angle { bits: I32F32::from_num(x).to_bits() }
}

fn readings(current: Angle, setpoint: Angle, speed: f32) -> Readings {
    Readings {
        current_position: current,
        position_setpoint: setpoint,
        speed_setpoint: number(speed),
    }
}

fn native_drive(speed: f32) -> Drive {
    let speed = speed.clamp(-1.0, 1.0);
    Drive {
        dir: if speed < 0.0 { Level::High } else { Level::Low },
        duty: (12499f32 * speed.abs()) as u16,
    }
}

#[test]
fn speeds_become_duties() {
    for s in speeds() {
        let drive = set_motor_speed(number(s));
        assert_eq!(drive, native_drive(s));
        assert!(drive.duty <= PWM_TOP);
    }
    assert_eq!(set_motor_speed(number(0.1)), Drive { dir: Level::Low, duty: 1249 });
    assert_eq!(set_motor_speed(number(-5.0)), Drive { dir: Level::High, duty: 12499 });
}

#[test]
fn position_control_is_proportional() {
    for i in -1200..1200 {
        let (current, target) = (angle(i as f64 * 0.7), angle(3.25));
        let err: f32 = (I32F32::from_bits(current.bits) - I32F32::from_bits(target.bits)).to_num();
        let speed = (0.002f32 * err).clamp(-1.0, 1.0);
        assert_eq!(position_drive(current, target), native_drive(-speed));
    }
    // a hundred radians beyond the target
    assert_eq!(
        position_drive(angle(100.0), angle(0.0)),
        Drive { dir: Level::High, duty: 2499 }
    );
    assert_eq!(
        position_drive(angle(0.0), angle(100.0)),
        Drive { dir: Level::Low, duty: 2499 }
    );
    assert_eq!(position_drive(angle(7.0), angle(7.0)), Drive { dir: Level::Low, duty: 0 });
}

#[test]
fn duty_grows_with_the_error() {
    let target = angle(-2.0);
    let mut last: u16 = 0;
    for i in 0..700 {
        let duty = position_drive(angle(i as f64 - 2.0), target).duty;
        assert!(duty >= last);
        assert_eq!(duty, position_drive(angle(-(i as f64) - 2.0), target).duty);
        last = duty;
    }
    assert_eq!(last, PWM_TOP);
}

#[test]
fn commands_set_the_pins() {
    let r = readings(angle(1.0), angle(51.0), -0.5);
    let free = Gates { stop: Level::High, brake: Level::High };
    let still = Drive { dir: Level::High, duty: 0 };
    let c = MotorCommand::Disabled;
    assert_eq!(c.gates(), Gates { stop: Level::Low, brake: Level::High });
    assert_eq!(c.step(r), still);
    assert!(!c.is_loop());
    let c = MotorCommand::Brake;
    assert_eq!(c.gates(), Gates { stop: Level::High, brake: Level::Low });
    assert_eq!(c.step(r), still);
    assert!(!c.is_loop());
    let c = MotorCommand::Speed(number(0.25));
    assert_eq!(c.gates(), free);
    assert_eq!(c.step(r), Drive { dir: Level::Low, duty: 3124 });
    assert!(!c.is_loop());
    let c = MotorCommand::SpeedRaw;
    assert_eq!(c.gates(), free);
    assert_eq!(c.step(r), Drive { dir: Level::High, duty: 6249 });
    assert!(c.is_loop());
    let c = MotorCommand::Position(angle(-49.0));
    assert_eq!(c.gates(), free);
    assert_eq!(c.step(r), Drive { dir: Level::High, duty: 1249 });
    assert!(c.is_loop());
    let c = MotorCommand::PositionRaw;
    assert_eq!(c.gates(), free);
    assert_eq!(c.step(r), Drive { dir: Level::Low, duty: 1249 });
    assert!(c.is_loop());
}

#[test]
fn steps_that_overflow_are_told() {
    let low = Angle { bits: i64::MIN };
    let one = Angle { bits: 1 };
    assert!(!MotorCommand::Position(one).is_steppable(readings(low, one, 0.0)));
    assert!(!MotorCommand::PositionRaw.is_steppable(readings(low, one, 0.0)));
    assert!(MotorCommand::PositionRaw.is_steppable(readings(one, one, 0.0)));
    assert!(MotorCommand::SpeedRaw.is_steppable(readings(low, one, 0.0)));
}

#[test]
fn only_a_message_changes_the_command() {
    let c = MotorCommand::SpeedRaw;
    assert_eq!(next_command(c, MotorEvent::Message(MotorCommand::Brake)), MotorCommand::Brake);
    assert_eq!(next_command(c, MotorEvent::Lagged(3)), c);
    assert_eq!(next_command(c, MotorEvent::Ended), c);
    assert_eq!(next_command(c, MotorEvent::Failed), c);
}

#[test]
fn slice_of_the_motor() {
    assert_eq!(pwm_config(), PwmConfig { top: 12499, ..PwmConfig::default() });
    assert_eq!(control_period().ticks, 5000);
}

#[test]
fn states_without_setpoints() {
    let zero = Angle::zero();
    let free = Gates { stop: Level::High, brake: Level::High };
    assert_eq!(MotorState::Disabled.gates(), Gates { stop: Level::Low, brake: Level::High });
    assert_eq!(MotorState::Brake.gates(), Gates { stop: Level::High, brake: Level::Low });
    assert_eq!(MotorState::Speed(number(0.0)).gates(), free);
    assert_eq!(MotorState::Position(zero).gates(), free);
    let still = Drive { dir: Level::High, duty: 0 };
    assert_eq!(MotorState::Disabled.step(zero), still);
    assert_eq!(MotorState::Brake.step(zero), still);
    for s in speeds() {
        assert_eq!(MotorState::Speed(number(s)).step(zero), native_drive(s));
    }
    assert_eq!(
        MotorState::Speed(number(1.0)).step(zero),
        Drive { dir: Level::Low, duty: 12499 }
    );
    // beyond the target the motor turns back, clockwise
    assert_eq!(
        MotorState::Position(zero).step(angle(1.0)),
        Drive { dir: Level::High, duty: 3749 }
    );
    assert_eq!(
        MotorState::Position(zero).step(angle(-4.0)),
        Drive { dir: Level::Low, duty: 12499 }
    );
    assert_eq!(MotorState::Position(zero).step(zero), Drive { dir: Level::Low, duty: 0 });
    assert!(MotorState::Position(zero).is_steppable(angle(1.0)));
    assert!(!MotorState::Position(Angle { bits: 1 }).is_steppable(Angle { bits: i64::MIN }));
    assert!(MotorState::Brake.is_steppable(Angle { bits: i64::MIN }));
}

#[test]
fn bench_buttons() {
    let out = |dir, duty, stop| BenchOutputs { dir, duty, stop };
    assert_eq!(test_motor_ctrl(true, false), out(Some(Level::Low), 1249, Level::High));
    assert_eq!(test_motor_ctrl(true, true), out(Some(Level::Low), 1249, Level::Low));
    assert_eq!(test_motor_ctrl(false, false), out(None, 0, Level::High));
    assert_eq!(test_motor_ctrl(false, true), out(None, 0, Level::Low));
}
