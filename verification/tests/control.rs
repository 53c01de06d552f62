use servo_reg::angle::Angle;
use servo_reg::buttons::{
    ButtonPressed, ButtonWait, Debouncer, PressClassifier, PressEvent, Typematic,
};
use servo_reg::constants;
use servo_reg::float32::Float32;
use servo_reg::manual_control::{
    Driver, ManualControl, ManualMode, NetworkDrive, NetworkDriveState, Output, StateManager,
    Surroundings, JOG_STEP_BITS,
};
use servo_reg::messages::{CmdFromPC, NetworkStatus, ResponseToPC};
use servo_reg::motor_control::MotorCommand;
use servo_reg::motor_quadrature::QuadratureCommand;
use servo_reg::rgb_led::Command;

use fixed::traits::ToFixed;
use fixed::types::I32F32;

fn number(x: f32) -> Float32 {
    Float32 { bits: x.to_bits() }
}

fn around(left_button: bool, right_button: bool, bits: i64) -> Surroundings {
    Surroundings { left_button, right_button, current_position: Angle { bits } }
}

fn disabled_by_client() -> Vec<Output> {
    vec![
        Output::Motor(MotorCommand::Disabled),
        Output::Response(ResponseToPC::Disabled),
        Output::Led(Command::Looping(constants::connected_disabled_anim())),
    ]
}

fn disabled_by_hand() -> Vec<Output> {
    vec![
        Output::Motor(MotorCommand::Disabled),
        Output::Led(Command::Looping(constants::disconnected_disabled_anim())),
    ]
}

#[test]
fn a_press_is_debounced() {
    let (mut d, first) = Debouncer::new(false);
    assert!(!first);
    assert!(Debouncer::new(true).1);
    for _ in 0..3 {
        assert_eq!(d.wait(), ButtonWait::Low);
        assert_eq!(d.advance(), Some(true));
        assert_eq!(d.wait(), ButtonWait::Millis(50));
        assert_eq!(d.advance(), None);
        assert_eq!(d.wait(), ButtonWait::High);
        assert_eq!(d.advance(), Some(false));
        assert_eq!(d.wait(), ButtonWait::Millis(50));
        assert_eq!(d.advance(), None);
    }
}

#[test]
fn short_and_long_presses() {
    let mut p = PressClassifier::new();
    assert_eq!(p.take(PressEvent::State(true)), None);
    assert_eq!(p.take(PressEvent::Elapsed), None);
    assert_eq!(p.take(PressEvent::State(false)), None);
    assert_eq!(p.take(PressEvent::State(false)), None);
    assert_eq!(p.take(PressEvent::State(true)), None);
    assert_eq!(p.take(PressEvent::State(false)), Some(ButtonPressed::Short));
    let mut p = PressClassifier::new();
    assert_eq!(p.take(PressEvent::State(false)), None);
    assert_eq!(p.take(PressEvent::State(true)), None);
    assert_eq!(p.take(PressEvent::State(true)), None);
    assert_eq!(p.take(PressEvent::Elapsed), Some(ButtonPressed::Long));
}

#[test]
fn a_held_button_repeats() {
    let mut t = Typematic::new();
    assert_eq!(t.signal(), None);
    t.button(true);
    assert_eq!(t.signal(), Some((0, 1000)));
    assert_eq!(t.signal(), Some((1, 100)));
    t.button(true);
    assert_eq!(t.signal(), Some((2, 100)));
    t.button(false);
    assert_eq!(t.signal(), None);
    t.button(true);
    assert_eq!(t.signal(), Some((0, 1000)));
}

#[test]
fn client_drives_the_motor() {
    let mut drive = NetworkDrive::new();
    assert_eq!(drive.serve(), disabled_by_client());
    assert_eq!(drive.serve(), vec![]);
    drive.receive(CmdFromPC::Disable);
    assert_eq!(drive.serve(), vec![]);
    drive.receive(CmdFromPC::EnableSpeedControl);
    assert_eq!(
        drive.serve(),
        vec![
            Output::Motor(MotorCommand::SpeedRaw),
            Output::Response(ResponseToPC::EnabledSpeedControl),
            Output::Led(Command::Looping(constants::network_enabled_anim())),
        ]
    );
    drive.receive(CmdFromPC::Heartbeat);
    assert_eq!(drive.serve(), vec![]);
    drive.receive(CmdFromPC::EnablePositionControl);
    assert_eq!(
        drive.serve(),
        vec![
            Output::Motor(MotorCommand::PositionRaw),
            Output::Response(ResponseToPC::EnabledPositionControl),
            Output::Led(Command::Looping(constants::network_enabled_anim())),
        ]
    );
    drive.receive(CmdFromPC::EnableSpeedControl);
    drive.receive(CmdFromPC::Disable);
    assert_eq!(drive.serve(), disabled_by_client());
    assert_eq!(drive.state, NetworkDriveState::Disabled);
}

#[test]
fn the_last_request_counts() {
    let mut drive = NetworkDrive::new();
    drive.serve();
    drive.receive(CmdFromPC::EnableSpeedControl);
    drive.receive(CmdFromPC::Disable);
    assert_eq!(drive.serve(), vec![]);
    let mut drive = NetworkDrive::new();
    drive.receive(CmdFromPC::EnableSpeedControl);
    assert_eq!(drive.serve()[0], Output::Motor(MotorCommand::SpeedRaw));
}

#[test]
fn client_resets_the_position() {
    let mut drive = NetworkDrive::new();
    drive.serve();
    assert!(NetworkDrive::can_receive(CmdFromPC::ResetPosition(number(-2.5))));
    assert!(!NetworkDrive::can_receive(CmdFromPC::ResetPosition(number(f32::NAN))));
    assert!(!NetworkDrive::can_receive(CmdFromPC::ResetPosition(number(1.0e10))));
    assert!(NetworkDrive::can_receive(CmdFromPC::Disable));
    drive.receive(CmdFromPC::ResetPosition(number(1.0)));
    drive.receive(CmdFromPC::ResetPosition(number(-2.5)));
    drive.receive(CmdFromPC::ResetPosition(number(f32::NAN)));
    drive.receive(CmdFromPC::ResetPosition(number(f32::INFINITY)));
    let bits = (-2.5f32).to_fixed::<I32F32>().to_bits();
    assert_eq!(
        drive.serve(),
        vec![Output::Quadrature(QuadratureCommand::ResetAt(Angle { bits }))]
    );
    assert_eq!(drive.serve(), vec![]);
}

#[test]
fn lost_angle_disables_the_client() {
    let mut drive = NetworkDrive::new();
    drive.receive(CmdFromPC::EnablePositionControl);
    drive.serve();
    assert_eq!(
        drive.quadrature_error(),
        vec![Output::Led(Command::Transient(constants::quadrature_error_anim()))]
    );
    assert_eq!(drive.serve(), disabled_by_client());
}

#[test]
fn manual_modes_follow_each_other() {
    let (mut control, out) = ManualControl::new(around(false, false, 0));
    assert_eq!(out, disabled_by_hand());
    assert_eq!(control.press(ButtonPressed::Short, around(false, false, 0)), disabled_by_hand());
    assert_eq!(
        control.press(ButtonPressed::Long, around(true, false, 0)),
        vec![
            Output::Motor(MotorCommand::Disabled),
            Output::Led(Command::Looping(constants::manual_mode_1_anim())),
            Output::Motor(MotorCommand::Speed(number(-0.1))),
        ]
    );
    assert_eq!(
        control.press(ButtonPressed::Long, around(true, false, 1234)),
        vec![
            Output::Motor(MotorCommand::Disabled),
            Output::Led(Command::Looping(constants::manual_mode_2_anim())),
            Output::Motor(MotorCommand::Position(Angle { bits: 1234 })),
        ]
    );
    assert_eq!(
        control.press(ButtonPressed::Long, around(true, false, 1234)),
        vec![Output::Led(Command::Looping(constants::manual_mode_3_anim()))]
    );
    control.press(ButtonPressed::Long, around(false, false, 0));
    assert_eq!(control.mode, ManualMode::Speed);
    assert_eq!(control.press(ButtonPressed::Short, around(false, false, 0)), disabled_by_hand());
}

#[test]
fn buttons_jog_the_motor() {
    let speed = ManualControl { mode: ManualMode::Speed };
    // clockwise is negative
    assert_eq!(speed.buttons_changed(true, false), Some(MotorCommand::Speed(number(-0.1))));
    assert_eq!(speed.buttons_changed(false, true), Some(MotorCommand::Speed(number(0.1))));
    assert_eq!(speed.buttons_changed(false, false), Some(MotorCommand::Disabled));
    assert_eq!(speed.buttons_changed(true, true), Some(MotorCommand::Brake));
    let third = ManualControl { mode: ManualMode::Third };
    assert_eq!(third.buttons_changed(true, false), None);
}

#[test]
fn buttons_step_the_position() {
    assert_eq!(JOG_STEP_BITS, 6.28319.to_fixed::<I32F32>().to_bits());
    let mut control = ManualControl { mode: ManualMode::Position(Angle { bits: 10 }) };
    assert!(control.can_step(true));
    assert_eq!(
        control.step(true),
        Some(MotorCommand::Position(Angle { bits: 10 + JOG_STEP_BITS }))
    );
    assert_eq!(control.step(false), Some(MotorCommand::Position(Angle { bits: 10 })));
    let edge = ManualControl { mode: ManualMode::Position(Angle { bits: i64::MAX }) };
    assert!(!edge.can_step(true) && edge.can_step(false));
    let edge = ManualControl { mode: ManualMode::Position(Angle { bits: i64::MIN }) };
    assert!(edge.can_step(true) && !edge.can_step(false));
    let mut speed = ManualControl { mode: ManualMode::Speed };
    assert!(speed.can_step(true));
    assert_eq!(speed.step(true), None);
}

#[test]
fn the_client_takes_over_from_the_buttons() {
    let (mut manager, out) = StateManager::new(NetworkStatus::Disconnected, around(false, false, 0));
    assert_eq!(out, disabled_by_hand());
    assert_eq!(manager.status_changed(NetworkStatus::Disconnected, around(false, false, 0)), vec![]);
    assert_eq!(
        manager.status_changed(NetworkStatus::Connected, around(false, false, 0)),
        vec![Output::Motor(MotorCommand::Disabled)]
    );
    assert_eq!(manager.driver, Driver::Network(NetworkDrive::new()));
    let mut expected = vec![Output::Motor(MotorCommand::Disabled)];
    expected.extend(disabled_by_hand());
    assert_eq!(
        manager.status_changed(NetworkStatus::Disconnected, around(false, false, 0)),
        expected
    );
    let (manager, out) = StateManager::new(NetworkStatus::Connected, around(false, false, 0));
    assert_eq!(out, vec![]);
    assert_eq!(manager.driver, Driver::Network(NetworkDrive::new()));
}
