//! Messages between the board and its client.
use vstd::prelude::*;

use crate::float32::Float32;

verus! {

/// A command of the client.
#[derive(Clone, Copy, Debug, PartialEq, Eq, Structural)]
pub enum CmdFromPC {
    Disable,
    Heartbeat,
    EnablePositionControl,
    EnableSpeedControl,
    /// Take the present position of the motor for this many radians.
    ResetPosition(Float32),
}

/// What the client is told about the motor.
#[derive(Clone, Copy, Debug, PartialEq, Eq, Structural)]
pub enum ResponseToPC {
    Disabled,
    EnabledPositionControl,
    EnabledSpeedControl,
}

/// Telemetry for the client.
#[derive(Clone, Copy, Debug, PartialEq, Eq, Structural)]
pub enum TelemToPC {
    /// Position of the motor in radians.
    MotorPosition(Float32),
}

/// Setpoints of the client.
#[derive(Clone, Copy, Debug, PartialEq, Eq, Structural)]
pub enum TelemFromPC {
    MotorPositionSetpoint(Float32),
    MotorSpeedSetpoint(Float32),
}

/// Whether a client is connected.
#[derive(Clone, Copy, Debug, PartialEq, Eq, Structural)]
pub enum NetworkStatus {
    Disconnected,
    Connected,
}

} // verus!
