//! Motor commands and what they put on the pins of the motor controller.
use vstd::arithmetic::power2::{
    lemma2_to64, lemma_pow2_adds, lemma_pow2_pos, lemma_pow2_strictly_increases,
    lemma_pow2_unfold, pow2,
};
use vstd::prelude::*;

use crate::angle::Angle;
use crate::float32::{Float32, ONE};
use crate::pwm::PwmConfig;
use crate::time::Duration;

verus! {

/// What the motor is to do. Speeds go from -1, full speed clockwise, over 0,
/// stopped, to 1, full speed counterclockwise.
#[derive(Clone, Copy, Debug, PartialEq, Eq, Structural)]
pub enum MotorCommand {
    /// Let the motor run out.
    Disabled,
    /// Turn to an angle and hold it.
    Position(Angle),
    /// Follow the shared position setpoint.
    PositionRaw,
    /// Turn at a speed.
    Speed(Float32),
    /// Follow the shared speed setpoint.
    SpeedRaw,
    /// Hold the motor by its brake.
    Brake,
}

/// Level of an output pin.
#[derive(Clone, Copy, Debug, PartialEq, Eq, Structural)]
pub enum Level {
    Low,
    High,
}

/// Levels of the stop and brake pins; both act when low.
#[derive(Clone, Copy, Debug, PartialEq, Eq, Structural)]
pub struct Gates {
    pub stop: Level,
    pub brake: Level,
}

/// Level of the direction pin, low for counterclockwise, and duty of the PWM.
#[derive(Clone, Copy, Debug, PartialEq, Eq, Structural)]
pub struct Drive {
    pub dir: Level,
    pub duty: u16,
}

/// Counter value at which the PWM starts over.
pub const PWM_TOP: u16 = 12499;

/// Encoding of `PWM_TOP` as a number.
pub const PWM_TOP_NUMBER: u32 = 0x4643_4c00;

/// Encoding of minus one.
pub const MINUS_ONE: u32 = 0xbf80_0000;

/// Encoding of 0.002, the speed commanded for each radian of error.
pub const KP: u32 = 0x3b03_126f;

/// Encoding of 0.3, the speed for each radian of error of `MotorState`.
pub const STATE_KP: u32 = 0x3e99_999a;

/// Rate of the control loops in Hz.
pub const CONTROL_HZ: u64 = 200;

/// Settings of the PWM slice of the motor controller, with the motor stopped.
pub fn pwm_config() -> (c: PwmConfig)
    ensures
        c == (PwmConfig { top: PWM_TOP, ..PwmConfig::spec_default() }),
{
    let mut esc_pwm_config = PwmConfig::default();
    esc_pwm_config.compare_b = 0;
    esc_pwm_config.top = PWM_TOP;
    esc_pwm_config.phase_correct = false;
    esc_pwm_config.enable = true;
    esc_pwm_config
}

/// One period of the control loops.
pub fn control_period() -> (d: Duration)
    ensures
        d.ticks == 5_000,
{
    Duration::from_hz(CONTROL_HZ)
}

/// A speed held between -1 and 1.
pub open spec fn spec_limited(speed: Float32) -> Float32 {
    speed.spec_clamp(Float32 { bits: MINUS_ONE }, Float32 { bits: ONE })
}

fn limited(speed: Float32) -> (r: Float32)
    ensures
        r == spec_limited(speed),
{
    proof {
        crate::rounding::lemma_value_sign(ONE as int);
    }
    speed.clamp(Float32 { bits: MINUS_ONE }, Float32 { bits: ONE })
}

fn direction(speed: Float32) -> (dir: Level)
    ensures
        dir == spec_direction(speed),
{
    if speed.less_than(Float32 { bits: 0 }) {
        Level::High
    } else {
        Level::Low
    }
}

pub open spec fn spec_direction(speed: Float32) -> Level {
    if speed.spec_less_than(Float32 { bits: 0 }) {
        Level::High
    } else {
        Level::Low
    }
}

pub open spec fn spec_set_motor_speed(commanded_speed: Float32) -> Drive {
    let speed = spec_limited(commanded_speed);
    Drive {
        dir: spec_direction(speed),
        duty: (Float32 { bits: PWM_TOP_NUMBER }).spec_times(speed.spec_absolute()).spec_to_u16(),
    }
}

/// Direction and duty for a speed, which is held between -1 and 1.
pub fn set_motor_speed(commanded_speed: Float32) -> (drive: Drive)
    ensures
        drive == spec_set_motor_speed(commanded_speed),
        drive.duty <= PWM_TOP,
{
    proof {
        law_duty_is_within_the_period(commanded_speed);
    }
    let speed = limited(commanded_speed);
    Drive {
        dir: direction(speed),
        duty: (Float32 { bits: PWM_TOP_NUMBER }).times(speed.absolute()).to_u16(),
    }
}

/// The speed commanded at an error in radians: `kp` for each radian, held
/// between -1 and 1, and against the error.
pub open spec fn spec_correction(err: Float32, kp: u32) -> Float32 {
    spec_limited((Float32 { bits: kp }).spec_times(err)).spec_negated()
}

/// Direction and duty that bring the motor from `current` to `target`, at `kp`
/// for each radian.
pub open spec fn spec_gain_drive(current: Angle, target: Angle, kp: u32) -> Drive {
    spec_set_motor_speed(
        spec_correction(Float32::spec_from_fixed((current.bits - target.bits) as i64), kp),
    )
}

fn gain_drive(current: Angle, target: Angle, kp: u32) -> (drive: Drive)
    requires
        crate::angle::representable(current.bits - target.bits),
    ensures
        drive == spec_gain_drive(current, target, kp),
        drive.duty <= PWM_TOP,
{
    let err = current.minus(target).to_radians();
    let commanded_speed = limited((Float32 { bits: kp }).times(err));
    set_motor_speed(commanded_speed.negated())
}

pub open spec fn spec_position_drive(current: Angle, target: Angle) -> Drive {
    spec_gain_drive(current, target, KP)
}

/// Direction and duty that bring the motor from `current` to `target`.
pub fn position_drive(current: Angle, target: Angle) -> (drive: Drive)
    requires
        crate::angle::representable(current.bits - target.bits),
    ensures
        drive == spec_position_drive(current, target),
        drive.duty <= PWM_TOP,
{
    gain_drive(current, target, KP)
}

/// The drive turns clockwise exactly when the motor is beyond the target, and
/// does not turn it away from the target.
pub open spec fn turns_toward(drive: Drive, current: Angle, target: Angle) -> bool {
    &&& drive.dir is High <==> current.bits > target.bits
    &&& current.bits == target.bits ==> drive.duty == 0
}

/// What the control loop has to go by.
#[derive(Clone, Copy, Debug, PartialEq, Eq, Structural)]
pub struct Readings {
    pub current_position: Angle,
    pub position_setpoint: Angle,
    pub speed_setpoint: Float32,
}

impl MotorCommand {
    /// The error of the position is an angle.
    pub open spec fn can_step(self, readings: Readings) -> bool {
        match self {
            MotorCommand::Position(target) => crate::angle::representable(
                readings.current_position.bits - target.bits,
            ),
            MotorCommand::PositionRaw => crate::angle::representable(
                readings.current_position.bits - readings.position_setpoint.bits,
            ),
            _ => true,
        }
    }

    pub open spec fn spec_gates(self) -> Gates {
        match self {
            MotorCommand::Disabled => Gates { stop: Level::Low, brake: Level::High },
            MotorCommand::Brake => Gates { stop: Level::High, brake: Level::Low },
            _ => Gates { stop: Level::High, brake: Level::High },
        }
    }

    pub open spec fn spec_step(self, readings: Readings) -> Drive {
        match self {
            MotorCommand::Disabled | MotorCommand::Brake => Drive { dir: Level::High, duty: 0 },
            MotorCommand::Speed(speed) => spec_set_motor_speed(spec_limited(speed)),
            MotorCommand::SpeedRaw => spec_set_motor_speed(spec_limited(readings.speed_setpoint)),
            MotorCommand::Position(target) => spec_position_drive(
                readings.current_position,
                target,
            ),
            MotorCommand::PositionRaw => spec_position_drive(
                readings.current_position,
                readings.position_setpoint,
            ),
        }
    }

    /// Levels of the stop and brake pins from the begin of the command on.
    pub fn gates(&self) -> (g: Gates)
        ensures
            g == self.spec_gates(),
    {
        match self {
            MotorCommand::Disabled => Gates { stop: Level::Low, brake: Level::High },
            MotorCommand::Brake => Gates { stop: Level::High, brake: Level::Low },
            _ => Gates { stop: Level::High, brake: Level::High },
        }
    }

    /// Whether the command is carried out by a control loop, and not by one
    /// step alone.
    pub fn is_loop(&self) -> (b: bool)
        ensures
            b == (self is SpeedRaw || self is Position || self is PositionRaw),
    {
        match self {
            MotorCommand::SpeedRaw => true,
            MotorCommand::Position(_) => true,
            MotorCommand::PositionRaw => true,
            _ => false,
        }
    }

    /// Whether `step` can be taken on these readings.
    pub fn is_steppable(&self, readings: Readings) -> (b: bool)
        ensures
            b == self.can_step(readings),
    {
        let target = match self {
            MotorCommand::Position(target) => *target,
            MotorCommand::PositionRaw => readings.position_setpoint,
            _ => return true,
        };
        readings.current_position.bits.checked_sub(target.bits).is_some()
    }

    /// Direction and duty at one step of the command.
    pub fn step(&self, readings: Readings) -> (drive: Drive)
        requires
            self.can_step(readings),
        ensures
            drive == self.spec_step(readings),
            drive.duty <= PWM_TOP,
            *self matches MotorCommand::Position(target) ==> turns_toward(
                drive,
                readings.current_position,
                target,
            ),
            *self is PositionRaw ==> turns_toward(
                drive,
                readings.current_position,
                readings.position_setpoint,
            ),
            *self is Disabled || *self is Brake ==> drive.duty == 0 && drive.dir is High,
    {
        proof {
            let current = readings.current_position;
            match *self {
                MotorCommand::Position(target) => lemma_turns_toward_the_target(
                    current,
                    target,
                    KP,
                ),
                MotorCommand::PositionRaw => lemma_turns_toward_the_target(
                    current,
                    readings.position_setpoint,
                    KP,
                ),
                _ => {},
            }
        }
        match self {
            MotorCommand::Disabled => Drive { dir: Level::High, duty: 0 },
            MotorCommand::Brake => Drive { dir: Level::High, duty: 0 },
            MotorCommand::Speed(speed) => set_motor_speed(limited(*speed)),
            MotorCommand::SpeedRaw => set_motor_speed(limited(readings.speed_setpoint)),
            MotorCommand::Position(target) => position_drive(readings.current_position, *target),
            MotorCommand::PositionRaw => position_drive(
                readings.current_position,
                readings.position_setpoint,
            ),
        }
    }
}

/// What the motor is to do on a board without setpoints; see `MotorCommand`.
#[derive(Clone, Copy, Debug, PartialEq, Eq, Structural)]
pub enum MotorState {
    Disabled,
    Position(Angle),
    Speed(Float32),
    Brake,
}

impl MotorState {
    /// The error of the position is an angle.
    pub open spec fn can_step(self, current: Angle) -> bool {
        self matches MotorState::Position(target) ==> crate::angle::representable(
            current.bits - target.bits,
        )
    }

    pub open spec fn spec_gates(self) -> Gates {
        match self {
            MotorState::Disabled => Gates { stop: Level::Low, brake: Level::High },
            MotorState::Brake => Gates { stop: Level::High, brake: Level::Low },
            _ => Gates { stop: Level::High, brake: Level::High },
        }
    }

    pub open spec fn spec_drive(self, current: Angle) -> Drive {
        match self {
            MotorState::Disabled | MotorState::Brake => Drive { dir: Level::High, duty: 0 },
            MotorState::Speed(speed) => spec_set_motor_speed(spec_limited(speed)),
            MotorState::Position(target) => spec_gain_drive(current, target, STATE_KP),
        }
    }

    /// Levels of the stop and brake pins from the begin of the state on.
    pub fn gates(&self) -> (g: Gates)
        ensures
            g == self.spec_gates(),
    {
        match self {
            MotorState::Disabled => Gates { stop: Level::Low, brake: Level::High },
            MotorState::Brake => Gates { stop: Level::High, brake: Level::Low },
            _ => Gates { stop: Level::High, brake: Level::High },
        }
    }

    /// Whether `step` can be taken at this position.
    pub fn is_steppable(&self, current: Angle) -> (b: bool)
        ensures
            b == self.can_step(current),
    {
        match self {
            MotorState::Position(target) => current.bits.checked_sub(target.bits).is_some(),
            _ => true,
        }
    }

    /// Direction and duty at one step.
    pub fn step(&self, current: Angle) -> (drive: Drive)
        requires
            self.can_step(current),
        ensures
            drive == self.spec_drive(current),
            drive.duty <= PWM_TOP,
            *self matches MotorState::Position(target) ==> turns_toward(drive, current, target),
            *self is Disabled || *self is Brake ==> drive.duty == 0 && drive.dir is High,
    {
        proof {
            if let MotorState::Position(target) = *self {
                lemma_turns_toward_the_target(current, target, STATE_KP);
            }
        }
        match self {
            MotorState::Disabled => Drive { dir: Level::High, duty: 0 },
            MotorState::Brake => Drive { dir: Level::High, duty: 0 },
            MotorState::Speed(speed) => set_motor_speed(limited(*speed)),
            MotorState::Position(target) => gain_drive(current, *target, STATE_KP),
        }
    }
}

/// Rate at which the two test buttons are looked at, in Hz.
pub const BENCH_HZ: u64 = 40;

/// Outputs for the two test buttons of a bare board.
#[derive(Clone, Copy, Debug, PartialEq, Eq, Structural)]
pub struct BenchOutputs {
    /// Level of the direction pin, where it is to be set.
    pub dir: Option<Level>,
    pub duty: u16,
    pub stop: Level,
}

/// While the first button is pressed the motor turns at a tenth of full speed,
/// and while the second one is, it is stopped.
pub fn test_motor_ctrl(button_a_is_low: bool, button_b_is_low: bool) -> (r: BenchOutputs)
    ensures
        r.dir == (if button_a_is_low {
            Some(Level::Low)
        } else {
            None
        }),
        r.duty == (if button_a_is_low {
            PWM_TOP * 10 / 100
        } else {
            0
        }),
        r.stop == (if button_b_is_low {
            Level::Low
        } else {
            Level::High
        }),
{
    let stop = if button_b_is_low {
        Level::Low
    } else {
        Level::High
    };
    if button_a_is_low {
        BenchOutputs { dir: Some(Level::Low), duty: (PWM_TOP as u32 * 10 / 100) as u16, stop }
    } else {
        BenchOutputs { dir: None, duty: 0, stop }
    }
}

/// What ends the carrying out of a command.
#[derive(Clone, Copy, Debug, PartialEq, Eq, Structural)]
pub enum MotorEvent {
    /// A new command came.
    Message(MotorCommand),
    /// That many commands were missed.
    Lagged(u64),
    /// The control loop came to an end.
    Ended,
    /// An output could not be set.
    Failed,
}

pub open spec fn spec_next_command(command: MotorCommand, event: MotorEvent) -> MotorCommand {
    match event {
        MotorEvent::Message(new_state) => new_state,
        _ => command,
    }
}

/// The command to carry out next: a new one, or else the same from its begin.
pub fn next_command(command: MotorCommand, event: MotorEvent) -> (next: MotorCommand)
    ensures
        next == spec_next_command(command, event),
{
    match event {
        MotorEvent::Message(new_state) => new_state,
        MotorEvent::Lagged(_) => command,
        MotorEvent::Ended => command,
        MotorEvent::Failed => command,
    }
}

/// No speed asks for a duty beyond the top of the PWM.
pub proof fn law_duty_is_within_the_period(commanded_speed: Float32)
    ensures
        spec_set_motor_speed(commanded_speed).duty <= PWM_TOP,
{
    let top = Float32 { bits: PWM_TOP_NUMBER };
    let speed = spec_limited(commanded_speed);
    if !speed.is_nan() {
        lemma_limited(commanded_speed);
        crate::float32::law_fraction_does_not_enlarge(top, speed.spec_absolute());
        crate::float32::law_whole_part_is_monotone(top.spec_times(speed.spec_absolute()), top);
        lemma_top();
    }
}

/// The position controller turns toward its target: clockwise exactly when the
/// motor is beyond it. At the target it does not drive.
pub proof fn law_position_control_turns_toward_the_target(current: Angle, target: Angle)
    requires
        crate::angle::representable(current.bits - target.bits),
    ensures
        spec_position_drive(current, target).dir is High <==> current.bits > target.bits,
        current.bits == target.bits ==> spec_position_drive(current, target).duty == 0,
{
    lemma_turns_toward_the_target(current, target, KP);
}

/// The position state releases stop and brake and turns toward its target, too.
pub proof fn law_position_state_turns_toward_the_target(current: Angle, target: Angle)
    requires
        crate::angle::representable(current.bits - target.bits),
    ensures
        ({
            let state = MotorState::Position(target);
            &&& state.spec_gates() == (Gates { stop: Level::High, brake: Level::High })
            &&& state.spec_drive(current).dir is High <==> current.bits > target.bits
            &&& current.bits == target.bits ==> state.spec_drive(current).duty == 0
        }),
{
    lemma_turns_toward_the_target(current, target, STATE_KP);
}

proof fn lemma_turns_toward_the_target(current: Angle, target: Angle, kp: u32)
    requires
        crate::angle::representable(current.bits - target.bits),
        KP <= kp <= ONE,
    ensures
        spec_gain_drive(current, target, kp).dir is High <==> current.bits > target.bits,
        current.bits == target.bits ==> spec_gain_drive(current, target, kp).duty == 0,
{
    let d = current.bits - target.bits;
    let err = Float32::spec_from_fixed(d as i64);
    let raw = (Float32 { bits: kp }).spec_times(err);
    let speed = spec_correction(err, kp);
    lemma_error(d);
    lemma_product_of_error(d, kp);
    lemma_limited(raw);
    lemma_limited(speed);
    crate::rounding::lemma_value_sign(0);
    crate::rounding::lemma_value_sign(spec_limited(speed).magnitude());
    if d == 0 {
        let top = Float32 { bits: PWM_TOP_NUMBER };
        let still = spec_limited(speed).spec_absolute();
        crate::rounding::lemma_value_sign(top.magnitude());
        assert(still.size() == 0);
        assert(top.size() * still.size() == 0) by (nonlinear_arith)
            requires
                still.size() == 0,
        ;
        lemma_pow2_pos(149);
        crate::rounding::lemma_rounded_at_most(0, pow2(149) as int, 0);
        assert(0int / pow2(149) as int == 0) by {
            vstd::arithmetic::div_mod::lemma_div_basics(pow2(149) as int);
        }
    }
}

/// The further the motor is from its target, the larger the duty, with either
/// gain.
pub proof fn law_duty_grows_with_the_error(near: Angle, far: Angle, target: Angle, gain: u32)
    requires
        crate::angle::representable(near.bits - target.bits),
        crate::angle::representable(far.bits - target.bits),
        distance(near, target) <= distance(far, target),
        gain == KP || gain == STATE_KP,
    ensures
        spec_gain_drive(near, target, gain).duty <= spec_gain_drive(far, target, gain).duty,
{
    let (a, b) = (near.bits - target.bits, far.bits - target.bits);
    let (ea, eb) = (
        Float32::spec_from_fixed(a as i64).spec_absolute(),
        Float32::spec_from_fixed(b as i64).spec_absolute(),
    );
    let (kp, top) = (Float32 { bits: gain }, Float32 { bits: PWM_TOP_NUMBER });
    lemma_error(a);
    lemma_error(b);
    let p = pow2(117) as int;
    lemma_pow2_pos(117);
    let (da, db) = (distance(near, target), distance(far, target));
    assert(0 <= da * p <= db * p) by (nonlinear_arith)
        requires
            0 <= da <= db,
            p > 0,
    ;
    crate::rounding::law_rounding_is_monotone(da * p, db * p, 1);
    crate::float32::law_multiplying_is_monotone(kp, ea, eb);
    lemma_product_of_error(a, gain);
    lemma_product_of_error(b, gain);
    let (ra, rb) = (
        kp.spec_times(Float32::spec_from_fixed(a as i64)),
        kp.spec_times(Float32::spec_from_fixed(b as i64)),
    );
    lemma_limited(ra);
    lemma_limited(rb);
    let (ca, cb) = (spec_limited(ra).spec_negated(), spec_limited(rb).spec_negated());
    lemma_limited(ca);
    lemma_limited(cb);
    let (sa, sb) = (spec_limited(ca).spec_absolute(), spec_limited(cb).spec_absolute());
    crate::float32::law_multiplying_is_monotone(top, sa, sb);
    crate::float32::law_whole_part_is_monotone(top.spec_times(sa), top.spec_times(sb));
}

/// How far apart two angles are.
pub open spec fn distance(a: Angle, b: Angle) -> int {
    if a.bits < b.bits {
        b.bits - a.bits
    } else {
        a.bits - b.bits
    }
}

/// An error that is not zero is no smaller than the unit of angles, and every
/// error is finite.
proof fn lemma_error(d: int)
    requires
        crate::angle::representable(d),
    ensures
        Float32::spec_from_fixed(d as i64).is_negative() == (d < 0),
        Float32::spec_from_fixed(d as i64).magnitude() == crate::rounding::rounded(
            (if d < 0 {
                -d
            } else {
                d
            }) * pow2(117),
            1,
        ),
        Float32::spec_from_fixed(d as i64).magnitude() <= 0x4f00_0000,
        d != 0 ==> Float32::spec_from_fixed(d as i64).magnitude() >= 0x2f80_0000,
        d == 0 ==> Float32::spec_from_fixed(d as i64).magnitude() == 0,
{
    let n = if d < 0 {
        -d
    } else {
        d
    };
    let p = pow2(117) as int;
    lemma_pow2_pos(117);
    lemma2_to64();
    lemma_pow2_unfold(64);
    lemma_pow2_adds(63, 117);
    lemma_pow2_adds(23, 157);
    lemma_pow2_adds(23, 94);
    assert(crate::rounding::magnitude_value(0x4f00_0000) == pow2(180));
    assert(crate::rounding::magnitude_value(0x2f80_0000) == p);
    assert(0 <= n * p <= 0x8000_0000_0000_0000 * p) by (nonlinear_arith)
        requires
            0 <= n <= 0x8000_0000_0000_0000,
            p > 0,
    ;
    crate::rounding::lemma_rounded_at_most(n * p, 1, 0x4f00_0000);
    if d == 0 {
        crate::rounding::lemma_value_sign(0);
        assert(n * p == 0) by (nonlinear_arith)
            requires
                n == 0,
        ;
        crate::rounding::lemma_rounded_at_most(n * p, 1, 0);
    } else {
        assert(p <= n * p) by (nonlinear_arith)
            requires
                n >= 1,
                p > 0,
        ;
        crate::rounding::lemma_rounded_at_least(n * p, 1, 0x2f80_0000);
    }
}

/// The speed for an error has the error's sign and is zero only with it.
proof fn lemma_product_of_error(d: int, gain: u32)
    requires
        crate::angle::representable(d),
        KP <= gain <= ONE,
    ensures
        ({
            let err = Float32::spec_from_fixed(d as i64);
            let raw = (Float32 { bits: gain }).spec_times(err);
            &&& !raw.is_nan()
            &&& raw.is_negative() == (d < 0)
            &&& raw.is_zero() == (d == 0)
            &&& raw.magnitude() == (Float32 { bits: gain }).spec_times(
                err.spec_absolute(),
            ).magnitude()
        }),
{
    let err = Float32::spec_from_fixed(d as i64);
    let kp = Float32 { bits: gain };
    let den = pow2(149) as int;
    lemma_error(d);
    lemma_pow2_pos(149);
    crate::rounding::lemma_value_sign(kp.magnitude());
    crate::rounding::lemma_value_sign(err.magnitude());
    let (a, b) = (kp.size(), err.size());
    assert(a * b >= 0) by (nonlinear_arith)
        requires
            a >= 0,
            b >= 0,
    ;
    crate::rounding::lemma_rounded_is_nearest(a * b, den);
    if d == 0 {
        assert(a * b == 0) by (nonlinear_arith)
            requires
                b == 0,
        ;
        crate::rounding::lemma_value_sign(0);
        crate::rounding::lemma_rounded_at_most(a * b, den, 0);
    } else {
        lemma2_to64();
        lemma_pow2_adds(23, 94);
        assert(crate::rounding::magnitude_value(0x2f80_0000) == pow2(117));
        if err.magnitude() > 0x2f80_0000 {
            crate::rounding::lemma_value_increases(0x2f80_0000, err.magnitude());
        }
        lemma_pow2_adds(117, 32);
        let p = pow2(117) as int;
        assert(a >= 0x1_0000_0000) by {
            lemma_pow2_strictly_increases(32, 117);
            if gain > KP {
                crate::rounding::lemma_value_increases(KP as int, gain as int);
            }
            let s = crate::rounding::significand(KP as int);
            assert(s * p >= p) by (nonlinear_arith)
                requires
                    s >= 1,
                    p > 0,
            ;
        }
        lemma_pow2_pos(117);
        assert(a * b >= 0x1_0000_0000 * p) by (nonlinear_arith)
            requires
                a >= 0x1_0000_0000,
                b >= p,
                p > 0,
        ;
        let (s, q) = (crate::rounding::significand(1), pow2(0) as int);
        assert((s * q) * den == den) by (nonlinear_arith)
            requires
                s == 1,
                q == 1,
        ;
        crate::rounding::lemma_rounded_at_least(a * b, den, 1);
    }
}

/// A limited speed is a number from -1 to 1 with the sign of the speed.
proof fn lemma_limited(speed: Float32)
    ensures
        !speed.is_nan() ==> spec_limited(speed).magnitude() == (if speed.magnitude() <= ONE {
            speed.magnitude()
        } else {
            ONE as int
        }),
        spec_limited(speed).is_negative() == speed.is_negative(),
{
    let m = speed.magnitude();
    crate::rounding::lemma_value_sign(ONE as int);
    crate::rounding::lemma_value_sign(m);
    if m > ONE {
        crate::rounding::lemma_value_increases(ONE as int, m);
    } else if m < ONE {
        crate::rounding::lemma_value_increases(m, ONE as int);
    }
}

/// The number for the top of the PWM is that top.
proof fn lemma_top()
    ensures
        (Float32 { bits: PWM_TOP_NUMBER }).spec_to_u16() == PWM_TOP,
{
    lemma2_to64();
    lemma_pow2_pos(149);
    lemma_pow2_adds(139, 10);
    let p = pow2(139) as int;
    assert(12_798_976 * p == 12_499 * (p * 1024)) by (nonlinear_arith);
    assert((p * 1024) * 12_499 == 12_499 * (p * 1024)) by (nonlinear_arith);
    vstd::arithmetic::div_mod::lemma_div_multiples_vanish(12_499, p * 1024);
}

/// Every step of a position command turns the motor toward its target, be that
/// the commanded angle or the shared setpoint: clockwise exactly when the
/// motor is beyond the target, and at the target it does not drive.
pub proof fn law_position_steps_turn_toward_the_target(
    command: MotorCommand,
    readings: Readings,
    drive: Drive,
)
    requires
        command.can_step(readings),
        call_ensures(MotorCommand::step, (&command, readings), drive),
    ensures
        command matches MotorCommand::Position(target) ==> (drive.dir is High
            <==> readings.current_position.bits > target.bits),
        command matches MotorCommand::Position(target)
            && readings.current_position.bits == target.bits ==> drive.duty == 0,
        command is PositionRaw ==> (drive.dir is High <==> readings.current_position.bits
            > readings.position_setpoint.bits),
        command is PositionRaw && readings.current_position.bits == readings.position_setpoint.bits
            ==> drive.duty == 0,
{
}

/// The shared setpoints are followed just as a command with the same value is
/// carried out.
pub proof fn law_setpoints_are_followed_like_commands(
    readings: Readings,
    by_angle: Drive,
    by_position_setpoint: Drive,
    by_speed: Drive,
    by_speed_setpoint: Drive,
)
    requires
        crate::angle::representable(
            readings.current_position.bits - readings.position_setpoint.bits,
        ),
        call_ensures(
            MotorCommand::step,
            (&MotorCommand::Position(readings.position_setpoint), readings),
            by_angle,
        ),
        call_ensures(
            MotorCommand::step,
            (&MotorCommand::PositionRaw, readings),
            by_position_setpoint,
        ),
        call_ensures(
            MotorCommand::step,
            (&MotorCommand::Speed(readings.speed_setpoint), readings),
            by_speed,
        ),
        call_ensures(MotorCommand::step, (&MotorCommand::SpeedRaw, readings), by_speed_setpoint),
    ensures
        by_position_setpoint == by_angle,
        by_speed_setpoint == by_speed,
{
}

/// Duty for a speed: the motor turns clockwise exactly for a speed below zero,
/// and the duty is the speed's part of the top, up to a rounding error and the
/// fraction that is cut off. What is not a number does not drive.
pub proof fn law_duty_is_in_proportion_to_the_speed(speed: Float32, drive: Drive)
    requires
        call_ensures(set_motor_speed, (speed,), drive),
    ensures
        drive.dir is High <==> !speed.is_nan() && speed.value() < 0,
        speed.is_nan() ==> drive.duty == 0,
        !speed.is_nan() ==> is_share_of_top(drive.duty, speed.size()),
{
    lemma_limited(speed);
    if !speed.is_nan() {
        lemma_duty(speed);
    }
    crate::rounding::lemma_value_sign(speed.magnitude());
    crate::rounding::lemma_value_sign(spec_limited(speed).magnitude());
}

/// The duty is the share `size` of the top, in units of 2^-149; a share above
/// one counts as one. The duty can be too large by a rounding error of the
/// product, and too small by that and one.
pub open spec fn is_share_of_top(duty: u16, size: int) -> bool {
    let share = if size <= pow2(149) {
        size
    } else {
        pow2(149) as int
    };
    &&& duty * pow2(149) <= 12_499 * share + pow2(138)
    &&& 12_499 * share < (duty + 1) * pow2(149) + pow2(138)
}

/// A step of a speed command drives the motor in proportion to the speed.
pub proof fn law_speed_steps_drive_at_the_speed(
    speed: Float32,
    readings: Readings,
    drive: Drive,
    raw: Drive,
    current: Angle,
    state: Drive,
)
    requires
        call_ensures(MotorCommand::step, (&MotorCommand::Speed(speed), readings), drive),
        call_ensures(MotorCommand::step, (&MotorCommand::SpeedRaw, readings), raw),
        call_ensures(MotorState::step, (&MotorState::Speed(speed), current), state),
    ensures
        drive.dir is High <==> !speed.is_nan() && speed.value() < 0,
        speed.is_nan() ==> drive.duty == 0,
        !speed.is_nan() ==> is_share_of_top(drive.duty, speed.size()),
        raw.dir is High <==> !readings.speed_setpoint.is_nan() && readings.speed_setpoint.value()
            < 0,
        readings.speed_setpoint.is_nan() ==> raw.duty == 0,
        !readings.speed_setpoint.is_nan() ==> is_share_of_top(
            raw.duty,
            readings.speed_setpoint.size(),
        ),
        state == drive,
{
    lemma_drive_of_speed(speed);
    lemma_drive_of_speed(readings.speed_setpoint);
}

/// Limiting twice is limiting once, and the drive is as for the speed itself.
proof fn lemma_drive_of_speed(speed: Float32)
    ensures
        ({
            let drive = spec_set_motor_speed(spec_limited(speed));
            &&& drive.dir is High <==> !speed.is_nan() && speed.value() < 0
            &&& speed.is_nan() ==> drive.duty == 0
            &&& !speed.is_nan() ==> is_share_of_top(drive.duty, speed.size())
        }),
{
    lemma_limited(speed);
    lemma_limited(spec_limited(speed));
    if !speed.is_nan() {
        lemma_duty(speed);
    }
    crate::rounding::lemma_value_sign(speed.magnitude());
    crate::rounding::lemma_value_sign(spec_limited(speed).magnitude());
    assert(spec_limited(spec_limited(speed)) == spec_limited(speed));
}

/// Duty for a speed, as a share of the top.
proof fn lemma_duty(speed: Float32)
    requires
        !speed.is_nan(),
    ensures
        is_share_of_top(spec_set_motor_speed(speed).duty, speed.size()),
{
    let (q, h) = (pow2(149) as int, pow2(138) as int);
    let (top, s) = (Float32 { bits: PWM_TOP_NUMBER }, spec_limited(speed).spec_absolute());
    lemma_pow2_pos(149);
    lemma_pow2_pos(138);
    lemma_limited(speed);
    lemma2_to64();
    lemma_pow2_adds(139, 10);
    lemma_pow2_unfold(139);
    crate::float32::lemma_one();
    crate::rounding::lemma_value_sign(s.magnitude());
    crate::rounding::lemma_value_sign(speed.magnitude());
    if speed.magnitude() > ONE {
        crate::rounding::lemma_value_increases(ONE as int, speed.magnitude());
    } else if speed.magnitude() < ONE {
        crate::rounding::lemma_value_increases(speed.magnitude(), ONE as int);
    }
    let size = s.size();
    let p = pow2(139) as int;
    assert(12_798_976 * p == 12_499 * q);
    assert(top.size() == 12_499 * q);
    let num = top.size() * size;
    assert(num == (12_499 * size) * q) by (nonlinear_arith)
        requires
            num == (12_499 * q) * size,
    ;
    assert(0 <= num <= top.size() * q) by (nonlinear_arith)
        requires
            num == (12_499 * size) * q,
            top.size() == 12_499 * q,
            0 <= size <= q,
    ;
    crate::rounding::law_rounding_error_of_a_quotient(num, q, PWM_TOP_NUMBER as int);
    crate::rounding::lemma_rounded_is_nearest(num, q);
    let r = top.spec_times(s);
    let v = r.size();
    assert(v * q - (12_499 * size) * q == (v - 12_499 * size) * q) by (nonlinear_arith);
    assert((12_499 * size - v) * q == (12_499 * size) * q - v * q) by (nonlinear_arith);
    let off = v - 12_499 * size;
    assert(off <= h) by (nonlinear_arith)
        requires
            2 * (off * q) <= (2 * h) * q,
            q > 0,
    ;
    let fo = 12_499 * size - v;
    assert(fo <= h) by (nonlinear_arith)
        requires
            2 * (fo * q) <= (2 * h) * q,
            q > 0,
    ;
    law_duty_is_within_the_period(speed);
    crate::rounding::lemma_value_sign(r.magnitude());
    let w = v / q;
    vstd::arithmetic::div_mod::lemma_fundamental_div_mod(v, q);
    vstd::arithmetic::div_mod::lemma_mod_pos_bound(v, q);
    vstd::arithmetic::div_mod::lemma_div_pos_is_pos(v, q);
    assert(q * w == w * q) by (nonlinear_arith);
    assert((w + 1) * q == w * q + q) by (nonlinear_arith);
    if w > 0xffff {
        assert(w * q >= 0x1_0000 * q) by (nonlinear_arith)
            requires
                w >= 0x1_0000,
                q > 0,
        ;
    }
}

/// The position controller commands 0.002 of full speed for each radian of
/// error, and at most full speed: but for the fraction that is cut off and for
/// rounding, the duty is `12499 * 0.002 * error`. Angles are counted in units of
/// 2^-32 radians.
pub proof fn law_position_steps_drive_in_proportion_to_the_error(
    command: MotorCommand,
    readings: Readings,
    drive: Drive,
)
    requires
        command.can_step(readings),
        call_ensures(MotorCommand::step, (&command, readings), drive),
    ensures
        command matches MotorCommand::Position(target) ==> is_duty_for_error(
            drive.duty,
            distance(readings.current_position, target),
            24_998,
            1_000,
        ),
        command is PositionRaw ==> is_duty_for_error(
            drive.duty,
            distance(readings.current_position, readings.position_setpoint),
            24_998,
            1_000,
        ),
{
    match command {
        MotorCommand::Position(target) => lemma_position_duty(
            readings.current_position,
            target,
        ),
        MotorCommand::PositionRaw => lemma_position_duty(
            readings.current_position,
            readings.position_setpoint,
        ),
        _ => {},
    }
}

/// The position state commands 0.3 of full speed for each radian of error.
pub proof fn law_position_state_drives_in_proportion_to_the_error(
    current: Angle,
    target: Angle,
    drive: Drive,
)
    requires
        crate::angle::representable(current.bits - target.bits),
        call_ensures(MotorState::step, (&MotorState::Position(target), current), drive),
    ensures
        drive.dir is High <==> current.bits > target.bits,
        is_duty_for_error(drive.duty, distance(current, target), 37_497, 10),
{
    lemma_state_duty(current, target);
}

/// The duty is `num / den` for each radian of error, or the top where that is
/// less, without the fraction. Rounding can add a 64th or take it away.
pub open spec fn is_duty_for_error(duty: u16, error: int, num: int, den: int) -> bool {
    let unit = den * 0x1_0000_0000;
    let ideal = if num * error <= 12_499 * unit {
        num * error
    } else {
        12_499 * unit
    };
    &&& 64 * (ideal - duty * unit) <= 65 * unit
    &&& 64 * (duty * unit - ideal) <= unit
}

proof fn lemma_position_duty(current: Angle, target: Angle)
    requires
        crate::angle::representable(current.bits - target.bits),
    ensures
        is_duty_for_error(
            spec_position_drive(current, target).duty,
            distance(current, target),
            24_998,
            1_000,
        ),
{
    lemma_turns_toward_the_target(current, target, KP);
    let d = distance(current, target);
    if d != 0 {
        lemma2_to64();
        lemma_pow2_pos(85);
        lemma_pow2_adds(85, 64);
        lemma_pow2_adds(74, 64);
        lemma_pow2_adds(74, 11);
        let u = pow2(85) as int;
        let (r, duty) = lemma_gain_duty(current, target, KP, 8_589_935, 117);
        let h = pow2(138) as int;
        assert(pow2(149) == 0x1_0000_0000_0000_0000 * u && 2048 * h == 0x1_0000_0000_0000_0000
            * u);
        let (a, b) = (duty * u, d * u);
        assert((8_589_935 * d) * u == 8_589_935 * b) by (nonlinear_arith)
            requires
                b == d * u,
        ;
        assert(duty * (0x1_0000_0000_0000_0000 * u) == 0x1_0000_0000_0000_0000 * a)
            by (nonlinear_arith)
            requires
                a == duty * u,
        ;
        assert((duty + 1) * (0x1_0000_0000_0000_0000 * u) == 0x1_0000_0000_0000_0000 * (a + u))
            by (nonlinear_arith)
            requires
                a == duty * u,
        ;
        let unit: int = 4_294_967_296_000;
        let ideal = if 24_998 * d <= 12_499 * unit {
            24_998 * d
        } else {
            12_499 * unit
        };
        assert(24_998 * d <= 12_499 * unit <==> 24_998 * b <= 12_499 * unit * u)
            by (nonlinear_arith)
            requires
                b == d * u,
                u > 0,
        ;
        assert(ideal * u == (if 24_998 * d <= 12_499 * unit {
            24_998 * b
        } else {
            12_499 * unit * u
        })) by (nonlinear_arith)
            requires
                b == d * u,
                ideal == (if 24_998 * d <= 12_499 * unit {
                    24_998 * d
                } else {
                    12_499 * unit
                }),
        ;
        lemma_near_weak_share(a, b, u, r, h);
        let (iu, uu) = (ideal * u, unit * u);
        assert(64 * (iu - unit * a) <= 65 * uu && 64 * (unit * a - iu) <= uu);
        assert(64 * (ideal - duty * unit) <= 65 * unit && 64 * (duty * unit - ideal) <= unit)
            by (nonlinear_arith)
            requires
                64 * (iu - unit * a) <= 65 * uu,
                64 * (unit * a - iu) <= uu,
                iu == ideal * u,
                uu == unit * u,
                a == duty * u,
                u > 0,
        ;
    }
}

proof fn lemma_state_duty(current: Angle, target: Angle)
    requires
        crate::angle::representable(current.bits - target.bits),
    ensures
        is_duty_for_error(
            spec_gain_drive(current, target, STATE_KP).duty,
            distance(current, target),
            37_497,
            10,
        ),
{
    lemma_turns_toward_the_target(current, target, STATE_KP);
    let d = distance(current, target);
    if d != 0 {
        vstd::arithmetic::power2::lemma2_to64_rest();
        lemma2_to64();
        lemma_pow2_pos(92);
        lemma_pow2_adds(92, 57);
        lemma_pow2_adds(81, 57);
        lemma_pow2_adds(81, 11);
        let u = pow2(92) as int;
        let (r, duty) = lemma_gain_duty(current, target, STATE_KP, 10_066_330, 124);
        let h = pow2(138) as int;
        assert(pow2(149) == 0x200_0000_0000_0000 * u && 2048 * h == 0x200_0000_0000_0000 * u);
        let (a, b) = (duty * u, d * u);
        assert((10_066_330 * d) * u == 10_066_330 * b) by (nonlinear_arith)
            requires
                b == d * u,
        ;
        assert(duty * (0x200_0000_0000_0000 * u) == 0x200_0000_0000_0000 * a)
            by (nonlinear_arith)
            requires
                a == duty * u,
        ;
        assert((duty + 1) * (0x200_0000_0000_0000 * u) == 0x200_0000_0000_0000 * (a + u))
            by (nonlinear_arith)
            requires
                a == duty * u,
        ;
        let unit: int = 42_949_672_960;
        let ideal = if 37_497 * d <= 12_499 * unit {
            37_497 * d
        } else {
            12_499 * unit
        };
        assert(37_497 * d <= 12_499 * unit <==> 37_497 * b <= 12_499 * unit * u)
            by (nonlinear_arith)
            requires
                b == d * u,
                u > 0,
        ;
        assert(ideal * u == (if 37_497 * d <= 12_499 * unit {
            37_497 * b
        } else {
            12_499 * unit * u
        })) by (nonlinear_arith)
            requires
                b == d * u,
                ideal == (if 37_497 * d <= 12_499 * unit {
                    37_497 * d
                } else {
                    12_499 * unit
                }),
        ;
        lemma_near_strong_share(a, b, u, r, h);
        let (iu, uu) = (ideal * u, unit * u);
        assert(64 * (iu - unit * a) <= 65 * uu && 64 * (unit * a - iu) <= uu);
        assert(64 * (ideal - duty * unit) <= 65 * unit && 64 * (duty * unit - ideal) <= unit)
            by (nonlinear_arith)
            requires
                64 * (iu - unit * a) <= 65 * uu,
                64 * (unit * a - iu) <= uu,
                iu == ideal * u,
                uu == unit * u,
                a == duty * u,
                u > 0,
        ;
    }
}

/// Rounding errors add up to less than a 64th of a step of the duty.
proof fn lemma_near_weak_share(a: int, b: int, u: int, r: int, h: int)
    requires
        u > 0,
        b >= 0,
        2048 * h == 0x1_0000_0000_0000_0000 * u,
        0x40_0000 * (r - 8_589_935 * b) <= 8_589_935 * b,
        0x40_0000 * (8_589_935 * b - r) <= 8_589_935 * b,
        ({
            let share = if r <= 0x1_0000_0000_0000_0000 * u {
                r
            } else {
                0x1_0000_0000_0000_0000 * u
            };
            &&& 0x1_0000_0000_0000_0000 * a <= 12_499 * share + h
            &&& 12_499 * share < 0x1_0000_0000_0000_0000 * (a + u) + h
        }),
    ensures
        ({
            let ideal = if 24_998 * b <= 53_682_796_232_704_000 * u {
                24_998 * b
            } else {
                53_682_796_232_704_000 * u
            };
            &&& 64 * (ideal - 4_294_967_296_000 * a) <= 65 * (4_294_967_296_000 * u)
            &&& 64 * (4_294_967_296_000 * a - ideal) <= 4_294_967_296_000 * u
        }),
{
}

/// Rounding errors add up to less than a 64th of a step of the duty.
proof fn lemma_near_strong_share(a: int, b: int, u: int, r: int, h: int)
    requires
        u > 0,
        b >= 0,
        2048 * h == 0x200_0000_0000_0000 * u,
        0x40_0000 * (r - 10_066_330 * b) <= 10_066_330 * b,
        0x40_0000 * (10_066_330 * b - r) <= 10_066_330 * b,
        ({
            let share = if r <= 0x200_0000_0000_0000 * u {
                r
            } else {
                0x200_0000_0000_0000 * u
            };
            &&& 0x200_0000_0000_0000 * a <= 12_499 * share + h
            &&& 12_499 * share < 0x200_0000_0000_0000 * (a + u) + h
        }),
    ensures
        ({
            let ideal = if 37_497 * b <= 536_827_962_327_040 * u {
                37_497 * b
            } else {
                536_827_962_327_040 * u
            };
            &&& 64 * (ideal - 42_949_672_960 * a) <= 65 * (42_949_672_960 * u)
            &&& 64 * (42_949_672_960 * a - ideal) <= 42_949_672_960 * u
        }),
{
}

/// Speed for an error before it is limited, and the duty for it.
proof fn lemma_gain_duty(current: Angle, target: Angle, gain: u32, sig: int, g: nat) -> (r: (
    int,
    int,
))
    requires
        crate::angle::representable(current.bits - target.bits),
        current.bits != target.bits,
        KP <= gain <= ONE,
        g >= 32,
        (Float32 { bits: gain }).size() == sig * pow2(g),
    ensures
        ({
            let x = (sig * distance(current, target)) * pow2((g - 32) as nat);
            0x40_0000 * (r.0 - x) <= x && 0x40_0000 * (x - r.0) <= x
        }),
        r.1 == spec_gain_drive(current, target, gain).duty,
        is_share_of_top(spec_gain_drive(current, target, gain).duty, r.0),
{
    let d = current.bits - target.bits;
    let n = distance(current, target);
    let err = Float32::spec_from_fixed(d as i64);
    let kp = Float32 { bits: gain };
    let raw = kp.spec_times(err);
    let c = spec_limited(raw).spec_negated();
    lemma_error(d);
    lemma_product_of_error(d, gain);
    lemma_limited(raw);
    lemma_limited(c);
    lemma_duty(c);
    crate::float32::lemma_one();
    crate::rounding::lemma_value_sign(raw.magnitude());
    if raw.magnitude() > ONE {
        crate::rounding::lemma_value_increases(ONE as int, raw.magnitude());
    } else if raw.magnitude() < ONE {
        crate::rounding::lemma_value_increases(raw.magnitude(), ONE as int);
    }
    crate::rounding::lemma_value_sign(err.magnitude());
    let (k, e) = (kp.size(), err.size());
    lemma_pow2_pos(149);
    crate::rounding::lemma_value_sign(kp.magnitude());
    assert(k * e >= 0) by (nonlinear_arith)
        requires
            k >= 0,
            e >= 0,
    ;
    crate::rounding::lemma_rounded_is_nearest(k * e, pow2(149) as int);
    lemma_raw_size(n, gain, sig, g, err.size(), raw.size());
    (raw.size(), spec_gain_drive(current, target, gain).duty as int)
}

/// The product of a gain and an error is off by less than one part in 2^22.
proof fn lemma_raw_size(n: int, gain: u32, sig: int, g: nat, e: int, r: int)
    requires
        0 < n <= 0x8000_0000_0000_0000,
        KP <= gain <= ONE,
        g >= 32,
        (Float32 { bits: gain }).size() == sig * pow2(g),
        e == crate::rounding::magnitude_value(crate::rounding::rounded(n * pow2(117), 1)),
        r == crate::rounding::magnitude_value(
            crate::rounding::rounded((sig * pow2(g)) * e, pow2(149) as int),
        ),
    ensures
        ({
            let x = (sig * n) * pow2((g - 32) as nat);
            0x40_0000 * (r - x) <= x && 0x40_0000 * (x - r) <= x
        }),
{
    let (p, q) = (pow2(117) as int, pow2(149) as int);
    let k = (Float32 { bits: gain }).size();
    let top = crate::rounding::magnitude_value(crate::rounding::INFINITE as int);
    lemma_pow2_pos(117);
    lemma_pow2_pos(149);
    lemma2_to64();
    lemma_pow2_adds(117, 32);
    lemma_pow2_unfold(64);
    lemma_pow2_adds(63, 117);
    lemma_pow2_adds(23, 254);
    lemma_pow2_adds(23, 94);
    lemma_pow2_strictly_increases(23, 117);
    lemma_pow2_strictly_increases(181, 277);
    lemma_pow2_unfold(181);
    assert(top == pow2(277));
    assert(p <= n * p <= 0x8000_0000_0000_0000 * p) by (nonlinear_arith)
        requires
            1 <= n <= 0x8000_0000_0000_0000,
            p > 0,
    ;
    crate::rounding::law_rounding_error_is_relative(n * p, 1);
    // The gain is at least that of the weakest controller and at most one.
    crate::float32::lemma_one();
    if gain < ONE {
        crate::rounding::lemma_value_increases(gain as int, ONE as int);
    }
    if KP < gain {
        crate::rounding::lemma_value_increases(KP as int, gain as int);
    }
    assert(k >= 0x80_0000 * p) by {
        assert(crate::rounding::magnitude_value(KP as int) == 8_589_935 * p);
    }
    let y = k * (n * p);
    let z = k * e;
    assert(2 * e >= p);
    assert(z >= 0x80_0000 * q) by {
        lemma_pow2_adds(117, 117);
        assert(z >= 0x40_0000 * (p * p)) by (nonlinear_arith)
            requires
                z == k * e,
                k >= 0x80_0000 * p,
                2 * e >= p,
                p > 0,
        ;
        vstd::arithmetic::power2::lemma2_to64_rest();
        lemma_pow2_strictly_increases(33, 117);
        assert(p * p >= 0x2_0000_0000 * p) by (nonlinear_arith)
            requires
                p >= 0x2_0000_0000,
        ;
    }
    assert(z <= top * q) by {
        assert(e <= pow2(181));
        assert(z <= top * q) by (nonlinear_arith)
            requires
                z == k * e,
                0 <= k <= q,
                0 <= e <= top,
        ;
    }
    crate::rounding::law_rounding_error_is_relative(z, q);
    assert(0x100_0000 * (z - y) <= y && 0x100_0000 * (y - z) <= y) by (nonlinear_arith)
        requires
            z == k * e,
            y == k * (n * p),
            0x100_0000 * (e - n * p) <= n * p,
            0x100_0000 * (n * p - e) <= n * p,
            k > 0,
    ;
    let h = pow2((g - 32) as nat) as int;
    lemma_pow2_adds((g - 32) as nat, 32);
    let x = (sig * n) * h;
    assert(y == x * q) by (nonlinear_arith)
        requires
            y == (sig * (h * 0x1_0000_0000)) * (n * p),
            x == (sig * n) * h,
            q == p * 0x1_0000_0000,
    ;
    let rq = r * q;
    assert(0x40_0000 * (rq - y) <= y && 0x40_0000 * (y - rq) <= y);
    assert(0x40_0000 * (r - x) <= x && 0x40_0000 * (x - r) <= x) by (nonlinear_arith)
        requires
            rq == r * q,
            y == x * q,
            0x40_0000 * (rq - y) <= y,
            0x40_0000 * (y - rq) <= y,
            q > 0,
    ;
}

/// The stop pin acts exactly for a disabled motor and the brake pin exactly for
/// a braked one.
pub proof fn law_pins_stop_and_brake(
    command: MotorCommand,
    gates: Gates,
    state: MotorState,
    state_gates: Gates,
)
    requires
        call_ensures(MotorCommand::gates, (&command,), gates),
        call_ensures(MotorState::gates, (&state,), state_gates),
    ensures
        gates.stop is Low <==> command is Disabled,
        gates.brake is Low <==> command is Brake,
        state_gates.stop is Low <==> state is Disabled,
        state_gates.brake is Low <==> state is Brake,
{
}

/// A new command takes the place of the one that is carried out, and nothing
/// else does.
pub proof fn law_only_a_message_changes_the_command(
    command: MotorCommand,
    event: MotorEvent,
    next: MotorCommand,
)
    requires
        call_ensures(next_command, (command, event), next),
    ensures
        event matches MotorEvent::Message(new_state) ==> next == new_state,
        !(event is Message) ==> next == command,
{
}

/// A step can be taken whenever the error of the position is an angle.
pub proof fn law_steps_that_can_be_taken(
    command: MotorCommand,
    readings: Readings,
    steppable: bool,
    state: MotorState,
    state_steppable: bool,
)
    requires
        call_ensures(MotorCommand::is_steppable, (&command, readings), steppable),
        call_ensures(
            MotorState::is_steppable,
            (&state, readings.current_position),
            state_steppable,
        ),
    ensures
        match command {
            MotorCommand::Position(target) => steppable <==> -0x8000_0000_0000_0000
                <= readings.current_position.bits - target.bits <= 0x7fff_ffff_ffff_ffff,
            MotorCommand::PositionRaw => steppable <==> -0x8000_0000_0000_0000
                <= readings.current_position.bits - readings.position_setpoint.bits
                <= 0x7fff_ffff_ffff_ffff,
            _ => steppable,
        },
        match state {
            MotorState::Position(target) => state_steppable <==> -0x8000_0000_0000_0000
                <= readings.current_position.bits - target.bits <= 0x7fff_ffff_ffff_ffff,
            _ => state_steppable,
        },
{
}

/// On a bare board the first button turns the motor counterclockwise at a tenth
/// of the top, and the second one stops it.
pub proof fn law_bench_buttons(a: bool, b: bool, r: BenchOutputs)
    requires
        call_ensures(test_motor_ctrl, (a, b), r),
    ensures
        a ==> r.dir == Some(Level::Low) && 10 * r.duty <= 12_499 < 10 * (r.duty + 1),
        !a ==> r.dir is None && r.duty == 0,
        r.stop is Low <==> b,
{
}

} // verus!
