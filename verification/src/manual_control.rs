//! Who drives the motor: a connected client, or the buttons on the board.
use vstd::prelude::*;

use crate::angle::Angle;
use crate::buttons::ButtonPressed;
use crate::constants;
use crate::float32::Float32;
use crate::messages::{CmdFromPC, NetworkStatus, ResponseToPC};
use crate::motor_control::MotorCommand;
use crate::motor_quadrature::QuadratureCommand;
use crate::rgb_led::Command;

verus! {

/// Encodings of the speeds of the first manual mode, 0.1 and -0.1.
pub const JOG_SPEED: u32 = 0x3dcc_cccd;

pub const JOG_SPEED_REVERSE: u32 = 0xbdcc_cccd;

/// Step of the second manual mode, 6.28319 radians.
pub const JOG_STEP_BITS: i64 = 26_986_095_565;

/// Something to pass on to another part of the program.
#[derive(Clone, Copy, Debug, PartialEq, Eq, Structural)]
pub enum Output {
    Motor(MotorCommand),
    Led(Command),
    Response(ResponseToPC),
    Quadrature(QuadratureCommand),
}

/// How a connected client drives the motor.
#[derive(Clone, Copy, Debug, PartialEq, Eq, Structural)]
pub enum NetworkDriveState {
    Disabled,
    SpeedControl,
    PositionControl,
}

/// Driving by a connected client. A command leaves a request, in the place of
/// an earlier one that was not served yet; `serve` takes it up.
#[derive(Clone, Copy, Debug, PartialEq, Eq, Structural)]
pub struct NetworkDrive {
    pub state: NetworkDriveState,
    /// The others know of the state.
    pub announced: bool,
    /// State asked for and not taken up.
    pub state_request: Option<NetworkDriveState>,
    /// Position asked for and not taken up.
    pub reset_request: Option<Angle>,
}

/// What is passed on when a state begins.
pub open spec fn spec_announcement(state: NetworkDriveState) -> Seq<Output> {
    match state {
        NetworkDriveState::Disabled => seq![
            Output::Motor(MotorCommand::Disabled),
            Output::Response(ResponseToPC::Disabled),
            Output::Led(Command::Looping(crate::constants::spec_connected_disabled_anim())),
        ],
        NetworkDriveState::SpeedControl => seq![
            Output::Motor(MotorCommand::SpeedRaw),
            Output::Response(ResponseToPC::EnabledSpeedControl),
            Output::Led(Command::Looping(crate::constants::spec_network_enabled_anim())),
        ],
        NetworkDriveState::PositionControl => seq![
            Output::Motor(MotorCommand::PositionRaw),
            Output::Response(ResponseToPC::EnabledPositionControl),
            Output::Led(Command::Looping(crate::constants::spec_network_enabled_anim())),
        ],
    }
}

fn announcement(state: NetworkDriveState) -> (out: Vec<Output>)
    ensures
        out@ == spec_announcement(state),
{
    let (motor, response, anim) = match state {
        NetworkDriveState::Disabled => (
            MotorCommand::Disabled,
            ResponseToPC::Disabled,
            constants::connected_disabled_anim(),
        ),
        NetworkDriveState::SpeedControl => (
            MotorCommand::SpeedRaw,
            ResponseToPC::EnabledSpeedControl,
            constants::network_enabled_anim(),
        ),
        NetworkDriveState::PositionControl => (
            MotorCommand::PositionRaw,
            ResponseToPC::EnabledPositionControl,
            constants::network_enabled_anim(),
        ),
    };
    let mut out: Vec<Output> = Vec::new();
    out.push(Output::Motor(motor));
    out.push(Output::Response(response));
    out.push(Output::Led(Command::Looping(anim)));
    assert(out@ =~= spec_announcement(state));
    out
}

/// The state that a command asks for.
pub open spec fn spec_requested_state(cmd: CmdFromPC) -> Option<NetworkDriveState> {
    match cmd {
        CmdFromPC::Disable => Some(NetworkDriveState::Disabled),
        CmdFromPC::EnablePositionControl => Some(NetworkDriveState::PositionControl),
        CmdFromPC::EnableSpeedControl => Some(NetworkDriveState::SpeedControl),
        CmdFromPC::Heartbeat => None,
        CmdFromPC::ResetPosition(_) => None,
    }
}

impl NetworkDrive {
    /// The drive right after the client connected, or after an error.
    pub open spec fn spec_restarted(self) -> NetworkDrive {
        NetworkDrive { state: NetworkDriveState::Disabled, announced: false, ..self }
    }

    pub open spec fn spec_receive(self, cmd: CmdFromPC) -> NetworkDrive {
        NetworkDrive {
            state_request: match spec_requested_state(cmd) {
                Some(state) => Some(state),
                None => self.state_request,
            },
            reset_request: match cmd {
                CmdFromPC::ResetPosition(new_pos) => if new_pos.fits_fixed() {
                    Some(Angle { bits: new_pos.spec_to_fixed() as i64 })
                } else {
                    self.reset_request
                },
                _ => self.reset_request,
            },
            ..self
        }
    }

    /// The state once the request is taken up.
    pub open spec fn settled_state(self) -> NetworkDriveState {
        match self.state_request {
            Some(state) => state,
            None => self.state,
        }
    }

    pub open spec fn spec_served(self) -> NetworkDrive {
        NetworkDrive {
            state: self.settled_state(),
            announced: true,
            state_request: None,
            reset_request: None,
        }
    }

    /// What serving passes on: the state, when it is new to the others, and
    /// then the position.
    pub open spec fn spec_serve(self) -> Seq<Output> {
        (if self.announced && self.settled_state() == self.state {
            Seq::empty()
        } else {
            spec_announcement(self.settled_state())
        }) + match self.reset_request {
            Some(angle) => seq![Output::Quadrature(QuadratureCommand::ResetAt(angle))],
            None => Seq::empty(),
        }
    }

    /// A client has connected: the motor starts out disabled.
    pub fn new() -> (r: NetworkDrive)
        ensures
            r == (NetworkDrive {
                state: NetworkDriveState::Disabled,
                announced: false,
                state_request: None,
                reset_request: None,
            }),
    {
        NetworkDrive {
            state: NetworkDriveState::Disabled,
            announced: false,
            state_request: None,
            reset_request: None,
        }
    }

    /// Whether `receive` takes a command up: a position must be an angle.
    pub fn can_receive(cmd: CmdFromPC) -> (b: bool)
        ensures
            b == (cmd matches CmdFromPC::ResetPosition(new_pos) ==> new_pos.fits_fixed()),
    {
        match cmd {
            CmdFromPC::ResetPosition(new_pos) => new_pos.has_fixed(),
            _ => true,
        }
    }

    /// Takes a command of the client. A position that is no angle is passed
    /// over.
    pub fn receive(&mut self, cmd: CmdFromPC)
        ensures
            *final(self) == old(self).spec_receive(cmd),
    {
        match cmd {
            CmdFromPC::Disable => {
                self.state_request = Some(NetworkDriveState::Disabled);
            },
            CmdFromPC::Heartbeat => {},
            CmdFromPC::EnablePositionControl => {
                self.state_request = Some(NetworkDriveState::PositionControl);
            },
            CmdFromPC::EnableSpeedControl => {
                self.state_request = Some(NetworkDriveState::SpeedControl);
            },
            CmdFromPC::ResetPosition(new_pos) => {
                if new_pos.has_fixed() {
                    self.reset_request = Some(Angle::from_radians(new_pos));
                }
            },
        }
    }

    /// Takes up the requests.
    pub fn serve(&mut self) -> (out: Vec<Output>)
        ensures
            *final(self) == old(self).spec_served(),
            out@ == old(self).spec_serve(),
    {
        if let Some(new_state) = self.state_request {
            self.state_request = None;
            if new_state != self.state {
                self.state = new_state;
                self.announced = false;
            }
        }
        let mut out: Vec<Output> = Vec::new();
        if !self.announced {
            out = announcement(self.state);
            self.announced = true;
        }
        if let Some(reset_pos) = self.reset_request {
            self.reset_request = None;
            out.push(Output::Quadrature(QuadratureCommand::ResetAt(reset_pos)));
        }
        assert(out@ =~= old(self).spec_serve());
        out
    }

    /// The shaft angle was lost: back to the disabled state.
    pub fn quadrature_error(&mut self) -> (out: Vec<Output>)
        ensures
            *final(self) == old(self).spec_restarted(),
            out@ == seq![
                Output::Led(
                    Command::Transient(crate::constants::spec_quadrature_error_anim()),
                ),
            ],
    {
        self.state = NetworkDriveState::Disabled;
        self.announced = false;
        let mut out: Vec<Output> = Vec::new();
        out.push(Output::Led(Command::Transient(constants::quadrature_error_anim())));
        assert(out@ =~= seq![
            Output::Led(Command::Transient(crate::constants::spec_quadrature_error_anim())),
        ]);
        out
    }
}

/// The drive after a run of commands.
pub open spec fn received(drive: NetworkDrive, cmds: Seq<CmdFromPC>) -> NetworkDrive
    decreases cmds.len(),
{
    if cmds.len() == 0 {
        drive
    } else {
        received(drive, cmds.drop_last()).spec_receive(cmds.last())
    }
}

/// A client that asks to disable the motor gets it disabled, whatever it asked
/// for before: the drive settles in the disabled state, and when it was in
/// another one the motor is told so first.
pub proof fn law_disable_disables(drive: NetworkDrive, cmds: Seq<CmdFromPC>)
    requires
        cmds.len() > 0,
        cmds.last() == CmdFromPC::Disable,
    ensures
        received(drive, cmds).spec_served().state == NetworkDriveState::Disabled,
        drive.state != NetworkDriveState::Disabled ==> received(drive, cmds).spec_serve()[0]
            == Output::Motor(MotorCommand::Disabled),
{
    lemma_receiving_keeps_the_state(drive, cmds);
    let after = received(drive, cmds);
    if drive.state != NetworkDriveState::Disabled {
        assert(after.spec_serve()[0] == spec_announcement(NetworkDriveState::Disabled)[0]);
    }
}

/// Commands alone change neither the state nor who knows of it.
proof fn lemma_receiving_keeps_the_state(drive: NetworkDrive, cmds: Seq<CmdFromPC>)
    ensures
        received(drive, cmds).state == drive.state,
        received(drive, cmds).announced == drive.announced,
    decreases cmds.len(),
{
    if cmds.len() > 0 {
        lemma_receiving_keeps_the_state(drive, cmds.drop_last());
    }
}

/// After an error of the shaft angle the motor is told to stop, unless the
/// client has asked for another state since.
pub proof fn law_quadrature_error_disables(drive: NetworkDrive)
    requires
        drive.state_request is None,
    ensures
        drive.spec_restarted().spec_served().state == NetworkDriveState::Disabled,
        drive.spec_restarted().spec_serve()[0] == Output::Motor(MotorCommand::Disabled),
{
    assert(drive.spec_restarted().spec_serve()[0] == spec_announcement(
        NetworkDriveState::Disabled,
    )[0]);
}

/// A heartbeat asks for nothing.
pub proof fn law_heartbeat_changes_nothing(drive: NetworkDrive)
    ensures
        drive.spec_receive(CmdFromPC::Heartbeat) == drive,
{
}

/// A drive that was served has nothing more to pass on.
pub proof fn law_serving_twice_is_serving_once(drive: NetworkDrive)
    ensures
        drive.spec_served().spec_serve() == Seq::<Output>::empty(),
        drive.spec_served().spec_served() == drive.spec_served(),
{
    assert(drive.spec_served().spec_serve() =~= Seq::<Output>::empty());
}

/// A position that is no angle asks for nothing.
pub proof fn law_unfit_position_changes_nothing(drive: NetworkDrive, new_pos: Float32)
    requires
        !new_pos.fits_fixed(),
    ensures
        drive.spec_receive(CmdFromPC::ResetPosition(new_pos)) == drive,
{
}

/// The left button alone turns the motor clockwise, the right one alone
/// counterclockwise, and both at the same speed.
pub proof fn law_buttons_turn_opposite_ways()
    ensures
        spec_jog(true, false) matches MotorCommand::Speed(left) && spec_jog(false, true) matches
            MotorCommand::Speed(right) && left.is_negative() && !right.is_negative()
            && left == right.spec_negated() && !right.is_zero(),
{
}

/// What the buttons do.
#[derive(Clone, Copy, Debug, PartialEq, Eq, Structural)]
pub enum ManualMode {
    /// The motor is disabled.
    Disabled,
    /// The motor turns while a button is held.
    Speed,
    /// The motor holds a position, which the buttons move by turns.
    Position(Angle),
    /// Nothing yet.
    Third,
}

/// What is known when a mode begins.
#[derive(Clone, Copy, Debug, PartialEq, Eq, Structural)]
pub struct Surroundings {
    pub left_button: bool,
    pub right_button: bool,
    pub current_position: Angle,
}

/// Driving by the buttons of the board.
#[derive(Clone, Copy, Debug, PartialEq, Eq, Structural)]
pub struct ManualControl {
    pub mode: ManualMode,
}

/// The motor command for the two buttons of the speed mode: the left one turns
/// the motor clockwise and the right one counterclockwise.
pub open spec fn spec_jog(left_button: bool, right_button: bool) -> MotorCommand {
    match (left_button, right_button) {
        (true, false) => MotorCommand::Speed(Float32 { bits: JOG_SPEED_REVERSE }),
        (false, true) => MotorCommand::Speed(Float32 { bits: JOG_SPEED }),
        (false, false) => MotorCommand::Disabled,
        (true, true) => MotorCommand::Brake,
    }
}

fn jog(left_button: bool, right_button: bool) -> (c: MotorCommand)
    ensures
        c == spec_jog(left_button, right_button),
{
    match (left_button, right_button) {
        (true, false) => MotorCommand::Speed(Float32 { bits: JOG_SPEED_REVERSE }),
        (false, true) => MotorCommand::Speed(Float32 { bits: JOG_SPEED }),
        (false, false) => MotorCommand::Disabled,
        (true, true) => MotorCommand::Brake,
    }
}

/// The mode after a press of the mode button. A short press disables, and a
/// long one goes on to the next mode.
pub open spec fn spec_next_mode(
    mode: ManualMode,
    press: ButtonPressed,
    current_position: Angle,
) -> ManualMode {
    match press {
        ButtonPressed::Short => ManualMode::Disabled,
        ButtonPressed::Long => match mode {
            ManualMode::Disabled => ManualMode::Speed,
            ManualMode::Speed => ManualMode::Position(current_position),
            ManualMode::Position(_) => ManualMode::Third,
            ManualMode::Third => ManualMode::Speed,
        },
    }
}

/// What is passed on when a mode begins. The motor is disabled first, but for
/// the third mode.
pub open spec fn spec_entry(mode: ManualMode, surroundings: Surroundings) -> Seq<Output> {
    match mode {
        ManualMode::Disabled => seq![
            Output::Motor(MotorCommand::Disabled),
            Output::Led(Command::Looping(crate::constants::spec_disconnected_disabled_anim())),
        ],
        ManualMode::Speed => seq![
            Output::Motor(MotorCommand::Disabled),
            Output::Led(Command::Looping(crate::constants::spec_manual_mode_1_anim())),
            Output::Motor(spec_jog(surroundings.left_button, surroundings.right_button)),
        ],
        ManualMode::Position(angle) => seq![
            Output::Motor(MotorCommand::Disabled),
            Output::Led(Command::Looping(crate::constants::spec_manual_mode_2_anim())),
            Output::Motor(MotorCommand::Position(angle)),
        ],
        ManualMode::Third => seq![
            Output::Led(Command::Looping(crate::constants::spec_manual_mode_3_anim())),
        ],
    }
}

fn entry(mode: ManualMode, surroundings: Surroundings) -> (out: Vec<Output>)
    ensures
        out@ == spec_entry(mode, surroundings),
{
    let mut out: Vec<Output> = Vec::new();
    match mode {
        ManualMode::Disabled => {
            out.push(Output::Motor(MotorCommand::Disabled));
            out.push(Output::Led(Command::Looping(constants::disconnected_disabled_anim())));
        },
        ManualMode::Speed => {
            out.push(Output::Motor(MotorCommand::Disabled));
            out.push(Output::Led(Command::Looping(constants::manual_mode_1_anim())));
            out.push(
                Output::Motor(jog(surroundings.left_button, surroundings.right_button)),
            );
        },
        ManualMode::Position(angle) => {
            out.push(Output::Motor(MotorCommand::Disabled));
            out.push(Output::Led(Command::Looping(constants::manual_mode_2_anim())));
            out.push(Output::Motor(MotorCommand::Position(angle)));
        },
        ManualMode::Third => {
            out.push(Output::Led(Command::Looping(constants::manual_mode_3_anim())));
        },
    }
    assert(out@ =~= spec_entry(mode, surroundings));
    out
}

/// Position that the buttons ask for after one step.
pub open spec fn stepped(angle: Angle, left: bool) -> int {
    if left {
        angle.bits + JOG_STEP_BITS
    } else {
        angle.bits - JOG_STEP_BITS
    }
}

impl ManualControl {
    /// The board is without a client: the motor is disabled.
    pub fn new(surroundings: Surroundings) -> (r: (ManualControl, Vec<Output>))
        ensures
            r.0.mode == ManualMode::Disabled,
            r.1@ == spec_entry(ManualMode::Disabled, surroundings),
    {
        (
            ManualControl { mode: ManualMode::Disabled },
            entry(ManualMode::Disabled, surroundings),
        )
    }

    /// The mode button was pressed.
    pub fn press(&mut self, press: ButtonPressed, surroundings: Surroundings) -> (out: Vec<Output>)
        ensures
            final(self).mode == spec_next_mode(
                old(self).mode,
                press,
                surroundings.current_position,
            ),
            out@ == spec_entry(final(self).mode, surroundings),
    {
        let mode = match press {
            ButtonPressed::Short => ManualMode::Disabled,
            ButtonPressed::Long => match self.mode {
                ManualMode::Disabled => ManualMode::Speed,
                ManualMode::Speed => ManualMode::Position(surroundings.current_position),
                ManualMode::Position(_) => ManualMode::Third,
                ManualMode::Third => ManualMode::Speed,
            },
        };
        self.mode = mode;
        entry(mode, surroundings)
    }

    /// The left or the right button changed; the speed mode follows.
    pub fn buttons_changed(&self, left_button: bool, right_button: bool) -> (r: Option<
        MotorCommand,
    >)
        ensures
            r == (if self.mode == ManualMode::Speed {
                Some(spec_jog(left_button, right_button))
            } else {
                None
            }),
    {
        match self.mode {
            ManualMode::Speed => Some(jog(left_button, right_button)),
            _ => None,
        }
    }

    /// Whether the position after a step is an angle.
    pub fn can_step(&self, left: bool) -> (b: bool)
        ensures
            b == (self.mode matches ManualMode::Position(angle) ==> crate::angle::representable(
                stepped(angle, left),
            )),
    {
        match self.mode {
            ManualMode::Position(angle) => {
                if left {
                    angle.bits <= i64::MAX - JOG_STEP_BITS
                } else {
                    angle.bits >= i64::MIN + JOG_STEP_BITS
                }
            },
            _ => true,
        }
    }

    /// The left or the right button gave a signal; the position mode moves its
    /// target by a step.
    pub fn step(&mut self, left: bool) -> (r: Option<MotorCommand>)
        requires
            old(self).mode matches ManualMode::Position(angle) ==> crate::angle::representable(
                stepped(angle, left),
            ),
        ensures
            match old(self).mode {
                ManualMode::Position(angle) => {
                    let target = Angle { bits: stepped(angle, left) as i64 };
                    final(self).mode == ManualMode::Position(target) && r == Some(
                        MotorCommand::Position(target),
                    )
                },
                _ => final(self).mode == old(self).mode && r is None,
            },
    {
        match self.mode {
            ManualMode::Position(angle) => {
                let increment = Angle { bits: JOG_STEP_BITS };
                let target = if left {
                    angle.plus(increment)
                } else {
                    angle.minus(increment)
                };
                self.mode = ManualMode::Position(target);
                Some(MotorCommand::Position(target))
            },
            _ => None,
        }
    }
}

/// A short press disables the motor from every mode, and before anything else.
pub proof fn law_short_press_disables(mode: ManualMode, surroundings: Surroundings)
    ensures
        spec_next_mode(mode, ButtonPressed::Short, surroundings.current_position)
            == ManualMode::Disabled,
        spec_entry(
            spec_next_mode(mode, ButtonPressed::Short, surroundings.current_position),
            surroundings,
        )[0] == Output::Motor(MotorCommand::Disabled),
{
}

/// Long presses go through the three modes in a circle.
pub proof fn law_long_presses_cycle_the_modes(mode: ManualMode, a: Angle, b: Angle, c: Angle)
    requires
        mode is Speed || mode is Third,
    ensures
        spec_next_mode(
            spec_next_mode(spec_next_mode(mode, ButtonPressed::Long, a), ButtonPressed::Long, b),
            ButtonPressed::Long,
            c,
        ) == mode,
{
}

/// A step to one side and a step to the other lead back to the same target.
pub proof fn law_steps_undo_each_other(angle: Angle, left: bool)
    requires
        crate::angle::representable(stepped(angle, left)),
    ensures
        stepped(Angle { bits: stepped(angle, left) as i64 }, !left) == angle.bits,
{
}

/// Who drives the motor.
#[derive(Clone, Copy, Debug, PartialEq, Eq, Structural)]
pub enum Driver {
    Network(NetworkDrive),
    Manual(ManualControl),
}

/// Hands the motor over between the client and the buttons.
#[derive(Clone, Copy, Debug, PartialEq, Eq, Structural)]
pub struct StateManager {
    pub driver: Driver,
}

/// The status of the network under which a driver is in charge.
pub open spec fn spec_driver_status(driver: Driver) -> NetworkStatus {
    match driver {
        Driver::Network(_) => NetworkStatus::Connected,
        Driver::Manual(_) => NetworkStatus::Disconnected,
    }
}

/// A driver takes over: the client with the motor disabled and nothing said
/// yet, or the buttons.
pub open spec fn spec_takes_over(
    status: NetworkStatus,
    surroundings: Surroundings,
    driver: Driver,
    out: Seq<Output>,
) -> bool {
    match status {
        NetworkStatus::Connected => driver == Driver::Network(
            NetworkDrive {
                state: NetworkDriveState::Disabled,
                announced: false,
                state_request: None,
                reset_request: None,
            },
        ) && out == Seq::<Output>::empty(),
        NetworkStatus::Disconnected => driver == Driver::Manual(
            ManualControl { mode: ManualMode::Disabled },
        ) && out == spec_entry(ManualMode::Disabled, surroundings),
    }
}

impl StateManager {
    /// Starts with the present status of the network.
    pub fn new(status: NetworkStatus, surroundings: Surroundings) -> (r: (
        StateManager,
        Vec<Output>,
    ))
        ensures
            spec_takes_over(status, surroundings, r.0.driver, r.1@),
    {
        match status {
            NetworkStatus::Connected => {
                let out: Vec<Output> = Vec::new();
                assert(out@ =~= Seq::<Output>::empty());
                (StateManager { driver: Driver::Network(NetworkDrive::new()) }, out)
            },
            NetworkStatus::Disconnected => {
                let (control, out) = ManualControl::new(surroundings);
                (StateManager { driver: Driver::Manual(control) }, out)
            },
        }
    }

    /// The status of the network was reported. When it is another one, the
    /// motor is disabled at once and the other driver takes over.
    pub fn status_changed(
        &mut self,
        status: NetworkStatus,
        surroundings: Surroundings,
    ) -> (out: Vec<Output>)
        ensures
            final(self).driver is Network <==> status is Connected,
            (old(self).driver is Network <==> status is Connected) <==> *final(self) == *old(self)
                && out.len() == 0,
            spec_driver_status(old(self).driver) == status ==> *final(self) == *old(self)
                && out@ == Seq::<Output>::empty(),
            spec_driver_status(old(self).driver) != status ==> {
                &&& out.len() > 0
                &&& out[0] == Output::Motor(MotorCommand::Disabled)
                &&& spec_takes_over(
                    status,
                    surroundings,
                    final(self).driver,
                    out@.subrange(1, out.len() as int),
                )
            },
    {
        let same = match (&self.driver, status) {
            (Driver::Network(_), NetworkStatus::Connected) => true,
            (Driver::Manual(_), NetworkStatus::Disconnected) => true,
            _ => false,
        };
        let mut out: Vec<Output> = Vec::new();
        if same {
            assert(out@ =~= Seq::<Output>::empty());
            return out;
        }
        out.push(Output::Motor(MotorCommand::Disabled));
        let (next, mut rest) = StateManager::new(status, surroundings);
        *self = next;
        let ghost first = out@;
        let ghost others = rest@;
        out.append(&mut rest);
        assert(out@ =~= first + others);
        assert(out@.subrange(1, out.len() as int) =~= others);
        out
    }
}

/// Whoever takes over, the first thing that the motor is told is to stop.
pub proof fn law_taking_over_stops_the_motor(
    status: NetworkStatus,
    surroundings: Surroundings,
    driver: Driver,
    out: Seq<Output>,
)
    requires
        spec_takes_over(status, surroundings, driver, out),
    ensures
        match driver {
            Driver::Network(drive) => drive.spec_serve()[0] == Output::Motor(
                MotorCommand::Disabled,
            ),
            Driver::Manual(_) => out[0] == Output::Motor(MotorCommand::Disabled),
        },
{
    if let Driver::Network(drive) = driver {
        assert(drive.spec_serve()[0] == spec_announcement(NetworkDriveState::Disabled)[0]);
    }
}

/// While the speed mode is on, the left button alone turns the motor clockwise
/// at a tenth of full speed and the right one alone counterclockwise; both
/// together brake it, and without them it runs out. No other mode follows the
/// buttons this way.
pub proof fn law_speed_mode_follows_the_buttons(
    control: ManualControl,
    left_button: bool,
    right_button: bool,
    r: Option<MotorCommand>,
)
    requires
        call_ensures(ManualControl::buttons_changed, (&control, left_button, right_button), r),
    ensures
        r is Some <==> control.mode is Speed,
        r is Some && !left_button && !right_button ==> r == Some(MotorCommand::Disabled),
        r is Some && left_button && right_button ==> r == Some(MotorCommand::Brake),
        r is Some && left_button != right_button ==> (r matches Some(MotorCommand::Speed(speed))
            && speed.is_negative() == left_button && crate::rounding::is_nearest(
            speed.magnitude(),
            vstd::arithmetic::power2::pow2(149) as int,
            10,
        )),
{
    lemma_a_tenth();
}

/// The encoding of a tenth is the number nearest to it.
proof fn lemma_a_tenth()
    ensures
        crate::rounding::is_nearest(
            JOG_SPEED as int,
            vstd::arithmetic::power2::pow2(149) as int,
            10,
        ),
{
    let p = vstd::arithmetic::power2::pow2(149) as int;
    let q = vstd::arithmetic::power2::pow2(122) as int;
    vstd::arithmetic::power2::lemma_pow2_pos(122);
    vstd::arithmetic::power2::lemma2_to64();
    vstd::arithmetic::power2::lemma_pow2_adds(122, 27);
    let m = JOG_SPEED as int;
    crate::rounding::lemma_successor(m);
    crate::rounding::lemma_successor(m - 1);
    assert(crate::rounding::magnitude_value(m) == 13_421_773 * q);
    assert(crate::rounding::spacing_exponent(m - 1) == 122);
    assert(p == 134_217_728 * q);
    assert((13_421_773 * q) * 10 == 134_217_730 * q) by (nonlinear_arith);
    crate::rounding::lemma_rounded_at_most(p, 10, m);
    crate::rounding::lemma_rounded_is_nearest(p, 10);
    let r = crate::rounding::rounded(p, 10);
    if r < m {
        if r < m - 1 {
            crate::rounding::lemma_value_increases(r, m - 1);
        }
        let v = crate::rounding::magnitude_value(r);
        assert(v * 10 <= 134_217_720 * q) by (nonlinear_arith)
            requires
                v <= 13_421_772 * q,
        ;
        assert(crate::rounding::distance(r, p, 10) <= crate::rounding::distance(m, p, 10));
    }
}

/// A long press goes to the speed mode from the disabled and the third one, and
/// the motor then follows the buttons as they are. From there it goes to the
/// position mode, which holds the motor where it is, and from that to the third
/// one, which tells the motor nothing. In each mode the LED shows its flashes.
pub proof fn law_long_press_begins_the_next_mode(mode: ManualMode, surroundings: Surroundings)
    ensures
        ({
            let next = spec_next_mode(mode, ButtonPressed::Long, surroundings.current_position);
            let out = spec_entry(next, surroundings);
            &&& mode is Disabled || mode is Third ==> next is Speed && out.len() == 3 && out[0]
                == Output::Motor(MotorCommand::Disabled) && out[1] == Output::Led(
                Command::Looping(crate::constants::spec_manual_mode_1_anim()),
            ) && out[2] == Output::Motor(
                spec_jog(surroundings.left_button, surroundings.right_button),
            )
            &&& mode is Speed ==> next == ManualMode::Position(surroundings.current_position)
                && out.len() == 3 && out[0] == Output::Motor(MotorCommand::Disabled) && out[1]
                == Output::Led(Command::Looping(crate::constants::spec_manual_mode_2_anim()))
                && out[2] == Output::Motor(MotorCommand::Position(surroundings.current_position))
            &&& mode is Position ==> next is Third && out.len() == 1 && out[0] == Output::Led(
                Command::Looping(crate::constants::spec_manual_mode_3_anim()),
            )
        }),
{
}

/// A step of the position mode is 6.28319 radians to the nearest unit: up for
/// the left button and down for the right one.
pub proof fn law_step_is_about_a_turn(angle: Angle, left: bool)
    ensures
        ({
            let by = if left {
                stepped(angle, left) - angle.bits
            } else {
                angle.bits - stepped(angle, left)
            };
            -50_000 <= 100_000 * by - 628_319 * 0x1_0000_0000 <= 50_000
        }),
{
}

/// A client that asks for a way to drive gets it: the drive settles in that
/// state, and when it was in another one, or its state was not announced yet,
/// the motor follows the setpoints that belong to the state, the client is told
/// and the LED shows it. A client that asks for the state it is in, is told
/// nothing new.
pub proof fn law_requested_state_is_taken_up(drive: NetworkDrive, cmd: CmdFromPC)
    requires
        cmd is Disable || cmd is EnableSpeedControl || cmd is EnablePositionControl,
    ensures
        ({
            let after = drive.spec_receive(cmd);
            let (out, served) = (after.spec_serve(), after.spec_served());
            let (motor, response) = match cmd {
                CmdFromPC::EnableSpeedControl => (
                    MotorCommand::SpeedRaw,
                    ResponseToPC::EnabledSpeedControl,
                ),
                CmdFromPC::EnablePositionControl => (
                    MotorCommand::PositionRaw,
                    ResponseToPC::EnabledPositionControl,
                ),
                _ => (MotorCommand::Disabled, ResponseToPC::Disabled),
            };
            let anim = if cmd is Disable {
                crate::constants::spec_connected_disabled_anim()
            } else {
                crate::constants::spec_network_enabled_anim()
            };
            let told = seq![
                Output::Motor(motor),
                Output::Response(response),
                Output::Led(Command::Looping(anim)),
            ];
            &&& served.announced && served.state_request is None && served.reset_request is None
            &&& cmd is EnableSpeedControl <==> served.state is SpeedControl
            &&& cmd is EnablePositionControl <==> served.state is PositionControl
            &&& cmd is Disable <==> served.state is Disabled
            &&& drive.announced && drive.state == served.state ==> !out.contains(
                Output::Motor(motor),
            ) && !out.contains(Output::Response(response))
            &&& !drive.announced || drive.state != served.state ==> told.is_prefix_of(out)
            &&& drive.reset_request is None ==> out == (if drive.announced && drive.state
                == served.state {
                Seq::empty()
            } else {
                told
            })
            &&& after.reset_request == drive.reset_request && after.state == drive.state
                && after.announced == drive.announced
        }),
{
    let after = drive.spec_receive(cmd);
    let out = after.spec_serve();
    let state = after.settled_state();
    if drive.reset_request is None {
        assert(out =~= (if drive.announced && drive.state == state {
            Seq::empty()
        } else {
            spec_announcement(state)
        }));
    }
    if !drive.announced || drive.state != state {
        let told = spec_announcement(state);
        assert(out.subrange(0, 3) =~= told);
    }
}

/// A client that asks to reset the position gets it reset to the angle nearest
/// to what it asked for, after everything else that is passed on, and whatever
/// it asks for besides. Without such a command no position is reset.
pub proof fn law_reset_is_passed_on_last(drive: NetworkDrive, new_pos: Float32, angle: Angle)
    requires
        crate::float32::in_angle_range(new_pos),
    ensures
        ({
            let after = drive.spec_receive(CmdFromPC::ResetPosition(new_pos));
            let out = after.spec_serve();
            &&& out.len() > 0
            &&& out.last() matches Output::Quadrature(QuadratureCommand::ResetAt(position))
                && crate::float32::is_nearest_fixed(new_pos, position.bits as int)
            &&& out.drop_last() == (NetworkDrive { reset_request: None, ..drive }).spec_serve()
            &&& after.state_request == drive.state_request && after.state == drive.state
                && after.announced == drive.announced
        }),
        drive.reset_request is None ==> !drive.spec_serve().contains(
            Output::Quadrature(QuadratureCommand::ResetAt(angle)),
        ),
{
    crate::float32::lemma_fits_fixed(new_pos);
    crate::float32::lemma_fixed_is_nearest(new_pos);
    let out = drive.spec_receive(CmdFromPC::ResetPosition(new_pos)).spec_serve();
    assert(out.drop_last() =~= (NetworkDrive { reset_request: None, ..drive }).spec_serve());
}

/// Which commands a drive can take up: every one but a position that is no
/// angle.
pub proof fn law_commands_that_are_taken_up(cmd: CmdFromPC, takes: bool)
    requires
        call_ensures(NetworkDrive::can_receive, (cmd,), takes),
    ensures
        !(cmd is ResetPosition) ==> takes,
        cmd matches CmdFromPC::ResetPosition(new_pos) ==> (takes
            <==> crate::float32::in_angle_range(new_pos)),
{
    if let CmdFromPC::ResetPosition(new_pos) = cmd {
        crate::float32::lemma_fits_fixed(new_pos);
    }
}

/// A lost shaft angle leaves the motor disabled and the others untold of it,
/// and keeps what the client asked for.
pub proof fn law_lost_angle_keeps_the_requests(drive: NetworkDrive)
    ensures
        drive.spec_restarted().state is Disabled,
        !drive.spec_restarted().announced,
        drive.spec_restarted().state_request == drive.state_request,
        drive.spec_restarted().reset_request == drive.reset_request,
{
}

/// The client drives exactly while one is connected, and both drivers start
/// with the motor disabled.
pub proof fn law_status_decides_who_drives(
    status: NetworkStatus,
    surroundings: Surroundings,
    r: (StateManager, Vec<Output>),
)
    requires
        call_ensures(StateManager::new, (status, surroundings), r),
    ensures
        r.0.driver is Network <==> status is Connected,
        r.0.driver matches Driver::Network(drive) ==> drive.state is Disabled && !drive.announced
            && drive.state_request is None && drive.reset_request is None && r.1@.len() == 0,
        r.0.driver matches Driver::Manual(control) ==> control.mode is Disabled && r.1@.len() == 2
            && r.1@[0] == Output::Motor(MotorCommand::Disabled) && r.1@[1] == Output::Led(
            Command::Looping(crate::constants::spec_disconnected_disabled_anim()),
        ),
{
}

/// A client that asks to disable a motor that is not disabled gets it disabled
/// first of all, and one that asks to reset the position gets it reset to the
/// nearest angle last of all.
pub proof fn law_client_is_served(
    drive: &mut NetworkDrive,
    serving: &mut NetworkDrive,
    cmd: CmdFromPC,
    out: Vec<Output>,
)
    requires
        call_ensures(NetworkDrive::receive, (drive, cmd), ()),
        *old(serving) == *final(drive),
        call_ensures(NetworkDrive::serve, (serving,), out),
    ensures
        cmd is Disable ==> final(serving).state is Disabled,
        cmd is Disable && !(old(drive).state is Disabled) ==> out@.len() > 0 && out@[0]
            == Output::Motor(MotorCommand::Disabled),
        cmd is EnableSpeedControl ==> final(serving).state is SpeedControl,
        cmd is EnableSpeedControl && !(old(drive).state is SpeedControl) ==> out@.len() > 0
            && out@[0] == Output::Motor(MotorCommand::SpeedRaw),
        cmd is EnablePositionControl ==> final(serving).state is PositionControl,
        cmd is EnablePositionControl && !(old(drive).state is PositionControl) ==> out@.len() > 0
            && out@[0] == Output::Motor(MotorCommand::PositionRaw),
        cmd matches CmdFromPC::ResetPosition(new_pos) ==> (crate::float32::in_angle_range(new_pos)
            ==> out@.len() > 0 && (out@.last() matches Output::Quadrature(
            QuadratureCommand::ResetAt(position),
        ) && crate::float32::is_nearest_fixed(new_pos, position.bits as int))),
        final(serving).announced,
        final(serving).state_request is None && final(serving).reset_request is None,
{
    if let CmdFromPC::ResetPosition(new_pos) = cmd {
        crate::float32::lemma_fits_fixed(new_pos);
        if new_pos.fits_fixed() {
            crate::float32::lemma_fixed_is_nearest(new_pos);
        }
    }
    let state = final(drive).settled_state();
    assert(spec_announcement(state).len() == 3);
}

/// A short press of the mode button disables the motor at once, and a long one
/// in the speed mode holds it where it is.
pub proof fn law_mode_button(
    control: &mut ManualControl,
    press: ButtonPressed,
    surroundings: Surroundings,
    out: Vec<Output>,
)
    requires
        call_ensures(ManualControl::press, (control, press, surroundings), out),
    ensures
        press is Short ==> final(control).mode is Disabled && out@[0] == Output::Motor(
            MotorCommand::Disabled,
        ),
        press is Long && old(control).mode is Speed ==> final(control).mode
            == ManualMode::Position(surroundings.current_position) && out@.last()
            == Output::Motor(MotorCommand::Position(surroundings.current_position)),
        press is Long && !(old(control).mode is Speed) ==> (final(control).mode is Speed <==> !(
        old(control).mode is Position)),
{
}

/// Each signal of a button moves the target of the position mode by 6.28319
/// radians, up for the left one and down for the right one, and the motor is
/// sent there; in the other modes it does nothing.
pub proof fn law_signal_moves_the_target(
    control: &mut ManualControl,
    left: bool,
    r: Option<MotorCommand>,
)
    requires
        old(control).mode matches ManualMode::Position(angle) ==> -0x7fff_0000_0000_0000
            <= angle.bits <= 0x7fff_0000_0000_0000,
        call_ensures(ManualControl::step, (control, left), r),
    ensures
        match old(control).mode {
            ManualMode::Position(angle) => r matches Some(MotorCommand::Position(target))
                && final(control).mode == ManualMode::Position(target) && ({
                let by = if left {
                    target.bits - angle.bits
                } else {
                    angle.bits - target.bits
                };
                -50_000 <= 100_000 * by - 628_319 * 0x1_0000_0000 <= 50_000
            }),
            _ => r is None && final(control).mode == old(control).mode,
        },
{
}

} // verus!
