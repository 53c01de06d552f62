//! What can go wrong with the network.
use vstd::prelude::*;

verus! {

/// Why a connection could not be made or was given up.
#[derive(Clone, Copy, Debug, PartialEq, Eq, Structural)]
pub enum NetworkError {
    SetStaticIp,
    SetGateway,
    SetSubnet,
    SetMacAddress,
    BindUdp,
    CloseCmd,
    StatusBus,
    StatusConversion,
    Listen,
    ClearStale,
    UnmaskInterrupts,
    EnableCmdInterrupts,
    ClearCmdInterrupts,
    UnmaskCmdInterrupts,
    SetSocketInterrupts,
    ClearSocketInterrupts,
    UnmaskTelemInterrupts,
    InterruptStatus,
    ClearConflict,
    IpConflict,
    ClearUnreach,
    Unreachable,
    CmdInterrupt,
    ClearEarlyTimeout,
    CmdTimedOut,
    NoConnection,
    ClearConnection,
    NoHeartbeat,
    PushTelemetry,
    ReadInterrupt,
    WriteInterrupt,
    ClearCmdDisconnect,
    ClearCmdTimeout,
    ClearCmdRecv,
    ReadCmd,
    CmdPacketSize,
    DecodeCmd,
    TelemInterrupt,
    ClearTelemTimeout,
    TelemTimedOut,
    ClearTelemRecv,
    ReceiveTelem,
    TelemPacketSize,
    DecodeTelem,
    SerializeTelem,
    SendTelem,
    TelemSizeMismatch,
}

impl NetworkError {
    pub open spec fn spec_message(self) -> Seq<char> {
        match self {
            NetworkError::SetStaticIp => "Failed to set W5500 Static IP"@,
            NetworkError::SetGateway => "Failed to set W5500 Gateway"@,
            NetworkError::SetSubnet => "Failed to set W5500 Subnet"@,
            NetworkError::SetMacAddress => "Failed to set W5500 MAC Address"@,
            NetworkError::BindUdp => "Failed to bind UDP port"@,
            NetworkError::CloseCmd => "Failed to initialize W5500 in closed state"@,
            NetworkError::StatusBus => "Failed to get socket status: bus error"@,
            NetworkError::StatusConversion => "Failed to get socket status: conversion error"@,
            NetworkError::Listen => "Failed to put W5500 in TCP listening mode"@,
            NetworkError::ClearStale => "Failed to clear stale W5500 interrupts"@,
            NetworkError::UnmaskInterrupts => "Failed to unmask W5500 interrupts"@,
            NetworkError::EnableCmdInterrupts => "Failed to enable CMD socket interrupts"@,
            NetworkError::ClearCmdInterrupts => "Failed to clear CMD socket interrupts"@,
            NetworkError::UnmaskCmdInterrupts => "Failed to unmask CMD socket interrupts"@,
            NetworkError::SetSocketInterrupts => "Failed to set socket interrupts"@,
            NetworkError::ClearSocketInterrupts => "Failed to clear CMD socket interruptps"@,
            NetworkError::UnmaskTelemInterrupts => "Failed to unmask TELEM socket interrupts"@,
            NetworkError::InterruptStatus => "Failed to get W5500 interrupt status"@,
            NetworkError::ClearConflict => "Failed to clear IP conflict interrupt"@,
            NetworkError::IpConflict => "IP conflict detected"@,
            NetworkError::ClearUnreach => "Failed to clear host unreachable interrupt"@,
            NetworkError::Unreachable => "Destination host unreachable"@,
            NetworkError::CmdInterrupt => "Failed to get CMD socket interrupt register"@,
            NetworkError::ClearEarlyTimeout => "Failed to clear CMD timeout interrupt"@,
            NetworkError::CmdTimedOut => "CMD socket timed out"@,
            NetworkError::NoConnection =>
                "Only CON interrupt for CMD socket should be enabled for W5500, check code"@,
            NetworkError::ClearConnection => "Failed to clear CMD connection interrupt"@,
            NetworkError::NoHeartbeat => "Didn't get a hearbeat from client in time"@,
            NetworkError::PushTelemetry => "Failed to push telemetry data"@,
            NetworkError::ReadInterrupt => "Failed to get W5500 interrupt register"@,
            NetworkError::WriteInterrupt => "Failed to set W5500 interrupt register"@,
            NetworkError::ClearCmdDisconnect => "Failed to clear CMD socket disconnect interrupt"@,
            NetworkError::ClearCmdTimeout => "Failed to clear CMD socket timeout interrupt"@,
            NetworkError::ClearCmdRecv => "Failed to clear CMD socket recv interrupt"@,
            NetworkError::ReadCmd => "Failed to read TCP message on CMD socket"@,
            NetworkError::CmdPacketSize => "Received packet of incorrect size on CMD socket"@,
            NetworkError::DecodeCmd => "Failed to deserialize CMD packet from PC"@,
            NetworkError::TelemInterrupt => "Failed to get TELEM socket interrupt"@,
            NetworkError::ClearTelemTimeout => "Failed to clear TELEM socket timeout interrupt"@,
            NetworkError::TelemTimedOut => "TELEM socket timed out"@,
            NetworkError::ClearTelemRecv => "Failed to clear TELEM socket recv interrupt"@,
            NetworkError::ReceiveTelem => "Failed to receive UDP data on TELEM socket"@,
            NetworkError::TelemPacketSize => "Received packet of incorrect size on TELEM socket"@,
            NetworkError::DecodeTelem => "Failed to deserialize data received on TELEM socket"@,
            NetworkError::SerializeTelem => "Failed to serialize TelemToPC into a byte buffer"@,
            NetworkError::SendTelem => "Failed to send UDP telemetry packet"@,
            NetworkError::TelemSizeMismatch => "Telemetry packet size mismatch"@,
        }
    }

    /// The error in words.
    pub fn message(self) -> (m: &'static str)
        ensures
            m@ == self.spec_message(),
    {
        match self {
            NetworkError::SetStaticIp => "Failed to set W5500 Static IP",
            NetworkError::SetGateway => "Failed to set W5500 Gateway",
            NetworkError::SetSubnet => "Failed to set W5500 Subnet",
            NetworkError::SetMacAddress => "Failed to set W5500 MAC Address",
            NetworkError::BindUdp => "Failed to bind UDP port",
            NetworkError::CloseCmd => "Failed to initialize W5500 in closed state",
            NetworkError::StatusBus => "Failed to get socket status: bus error",
            NetworkError::StatusConversion => "Failed to get socket status: conversion error",
            NetworkError::Listen => "Failed to put W5500 in TCP listening mode",
            NetworkError::ClearStale => "Failed to clear stale W5500 interrupts",
            NetworkError::UnmaskInterrupts => "Failed to unmask W5500 interrupts",
            NetworkError::EnableCmdInterrupts => "Failed to enable CMD socket interrupts",
            NetworkError::ClearCmdInterrupts => "Failed to clear CMD socket interrupts",
            NetworkError::UnmaskCmdInterrupts => "Failed to unmask CMD socket interrupts",
            NetworkError::SetSocketInterrupts => "Failed to set socket interrupts",
            NetworkError::ClearSocketInterrupts => "Failed to clear CMD socket interruptps",
            NetworkError::UnmaskTelemInterrupts => "Failed to unmask TELEM socket interrupts",
            NetworkError::InterruptStatus => "Failed to get W5500 interrupt status",
            NetworkError::ClearConflict => "Failed to clear IP conflict interrupt",
            NetworkError::IpConflict => "IP conflict detected",
            NetworkError::ClearUnreach => "Failed to clear host unreachable interrupt",
            NetworkError::Unreachable => "Destination host unreachable",
            NetworkError::CmdInterrupt => "Failed to get CMD socket interrupt register",
            NetworkError::ClearEarlyTimeout => "Failed to clear CMD timeout interrupt",
            NetworkError::CmdTimedOut => "CMD socket timed out",
            NetworkError::NoConnection =>
                "Only CON interrupt for CMD socket should be enabled for W5500, check code",
            NetworkError::ClearConnection => "Failed to clear CMD connection interrupt",
            NetworkError::NoHeartbeat => "Didn't get a hearbeat from client in time",
            NetworkError::PushTelemetry => "Failed to push telemetry data",
            NetworkError::ReadInterrupt => "Failed to get W5500 interrupt register",
            NetworkError::WriteInterrupt => "Failed to set W5500 interrupt register",
            NetworkError::ClearCmdDisconnect => "Failed to clear CMD socket disconnect interrupt",
            NetworkError::ClearCmdTimeout => "Failed to clear CMD socket timeout interrupt",
            NetworkError::ClearCmdRecv => "Failed to clear CMD socket recv interrupt",
            NetworkError::ReadCmd => "Failed to read TCP message on CMD socket",
            NetworkError::CmdPacketSize => "Received packet of incorrect size on CMD socket",
            NetworkError::DecodeCmd => "Failed to deserialize CMD packet from PC",
            NetworkError::TelemInterrupt => "Failed to get TELEM socket interrupt",
            NetworkError::ClearTelemTimeout => "Failed to clear TELEM socket timeout interrupt",
            NetworkError::TelemTimedOut => "TELEM socket timed out",
            NetworkError::ClearTelemRecv => "Failed to clear TELEM socket recv interrupt",
            NetworkError::ReceiveTelem => "Failed to receive UDP data on TELEM socket",
            NetworkError::TelemPacketSize => "Received packet of incorrect size on TELEM socket",
            NetworkError::DecodeTelem => "Failed to deserialize data received on TELEM socket",
            NetworkError::SerializeTelem => "Failed to serialize TelemToPC into a byte buffer",
            NetworkError::SendTelem => "Failed to send UDP telemetry packet",
            NetworkError::TelemSizeMismatch => "Telemetry packet size mismatch",
        }
    }
}

/// A number for a message: its length, its eleventh letter and its twelfth from
/// the end.
spec fn fingerprint(message: Seq<char>) -> int {
    message.len() * 65_536 + (message[10] as int) * 256 + message[message.len() - 12] as int
}

/// Fingerprint of the message of an error.
spec fn error_fingerprint(error: NetworkError) -> int {
    match error {
        NetworkError::SetStaticIp => 1930032,
        NetworkError::SetGateway => 1798965,
        NetworkError::SetSubnet => 1733463,
        NetworkError::SetMacAddress => 2061088,
        NetworkError::BindUdp => 1532521,
        NetworkError::CloseCmd => 2779491,
        NetworkError::StatusBus => 2516851,
        NetworkError::StatusConversion => 2975589,
        NetworkError::Listen => 2715763,
        NetworkError::ClearStale => 2515760,
        NetworkError::UnmaskInterrupts => 2192688,
        NetworkError::EnableCmdInterrupts => 2516340,
        NetworkError::ClearCmdInterrupts => 2450292,
        NetworkError::UnmaskCmdInterrupts => 2520436,
        NetworkError::SetSocketInterrupts => 2061172,
        NetworkError::ClearSocketInterrupts => 2515744,
        NetworkError::UnmaskTelemInterrupts => 2651508,
        NetworkError::InterruptStatus => 2385778,
        NetworkError::ClearConflict => 2450275,
        NetworkError::IpConflict => 1340521,
        NetworkError::ClearUnreach => 2777964,
        NetworkError::Unreachable => 1863200,
        NetworkError::CmdInterrupt => 2844533,
        NetworkError::ClearEarlyTimeout => 2450293,
        NetworkError::CmdTimedOut => 1319013,
        NetworkError::NoConnection => 4812332,
        NetworkError::ClearConnection => 2646895,
        NetworkError::NoHeartbeat => 2695273,
        NetworkError::PushTelemetry => 1929324,
        NetworkError::ReadInterrupt => 2516853,
        NetworkError::WriteInterrupt => 2519925,
        NetworkError::ClearCmdDisconnect => 3105635,
        NetworkError::ClearCmdTimeout => 2909045,
        NetworkError::ClearCmdRecv => 2712419,
        NetworkError::ReadCmd => 2650734,
        NetworkError::CmdPacketSize => 3105134,
        NetworkError::DecodeCmd => 2647139,
        NetworkError::TelemInterrupt => 2385765,
        NetworkError::ClearTelemTimeout => 3040117,
        NetworkError::TelemTimedOut => 1467749,
        NetworkError::ClearTelemRecv => 2843491,
        NetworkError::ReceiveTelem => 2781780,
        NetworkError::TelemPacketSize => 3236180,
        NetworkError::DecodeTelem => 3368020,
        NetworkError::SerializeTelem => 3175200,
        NetworkError::SendTelem => 2323309,
        NetworkError::TelemSizeMismatch => 1994857,
    }
}

proof fn lemma_fingerprint(error: NetworkError)
    ensures
        fingerprint(error.spec_message()) == error_fingerprint(error),
{
    match error {
        NetworkError::SetStaticIp => reveal_strlit("Failed to set W5500 Static IP"),
        NetworkError::SetGateway => reveal_strlit("Failed to set W5500 Gateway"),
        NetworkError::SetSubnet => reveal_strlit("Failed to set W5500 Subnet"),
        NetworkError::SetMacAddress => reveal_strlit("Failed to set W5500 MAC Address"),
        NetworkError::BindUdp => reveal_strlit("Failed to bind UDP port"),
        NetworkError::CloseCmd => reveal_strlit("Failed to initialize W5500 in closed state"),
        NetworkError::StatusBus => reveal_strlit("Failed to get socket status: bus error"),
        NetworkError::StatusConversion => reveal_strlit(
            "Failed to get socket status: conversion error",
        ),
        NetworkError::Listen => reveal_strlit("Failed to put W5500 in TCP listening mode"),
        NetworkError::ClearStale => reveal_strlit("Failed to clear stale W5500 interrupts"),
        NetworkError::UnmaskInterrupts => reveal_strlit("Failed to unmask W5500 interrupts"),
        NetworkError::EnableCmdInterrupts => reveal_strlit(
            "Failed to enable CMD socket interrupts",
        ),
        NetworkError::ClearCmdInterrupts => reveal_strlit("Failed to clear CMD socket interrupts"),
        NetworkError::UnmaskCmdInterrupts => reveal_strlit(
            "Failed to unmask CMD socket interrupts",
        ),
        NetworkError::SetSocketInterrupts => reveal_strlit("Failed to set socket interrupts"),
        NetworkError::ClearSocketInterrupts => reveal_strlit(
            "Failed to clear CMD socket interruptps",
        ),
        NetworkError::UnmaskTelemInterrupts => reveal_strlit(
            "Failed to unmask TELEM socket interrupts",
        ),
        NetworkError::InterruptStatus => reveal_strlit("Failed to get W5500 interrupt status"),
        NetworkError::ClearConflict => reveal_strlit("Failed to clear IP conflict interrupt"),
        NetworkError::IpConflict => reveal_strlit("IP conflict detected"),
        NetworkError::ClearUnreach => reveal_strlit("Failed to clear host unreachable interrupt"),
        NetworkError::Unreachable => reveal_strlit("Destination host unreachable"),
        NetworkError::CmdInterrupt => reveal_strlit("Failed to get CMD socket interrupt register"),
        NetworkError::ClearEarlyTimeout => reveal_strlit("Failed to clear CMD timeout interrupt"),
        NetworkError::CmdTimedOut => reveal_strlit("CMD socket timed out"),
        NetworkError::NoConnection => reveal_strlit(
            "Only CON interrupt for CMD socket should be enabled for W5500, check code",
        ),
        NetworkError::ClearConnection => reveal_strlit("Failed to clear CMD connection interrupt"),
        NetworkError::NoHeartbeat => reveal_strlit("Didn't get a hearbeat from client in time"),
        NetworkError::PushTelemetry => reveal_strlit("Failed to push telemetry data"),
        NetworkError::ReadInterrupt => reveal_strlit("Failed to get W5500 interrupt register"),
        NetworkError::WriteInterrupt => reveal_strlit("Failed to set W5500 interrupt register"),
        NetworkError::ClearCmdDisconnect => reveal_strlit(
            "Failed to clear CMD socket disconnect interrupt",
        ),
        NetworkError::ClearCmdTimeout => reveal_strlit(
            "Failed to clear CMD socket timeout interrupt",
        ),
        NetworkError::ClearCmdRecv => reveal_strlit("Failed to clear CMD socket recv interrupt"),
        NetworkError::ReadCmd => reveal_strlit("Failed to read TCP message on CMD socket"),
        NetworkError::CmdPacketSize => reveal_strlit(
            "Received packet of incorrect size on CMD socket",
        ),
        NetworkError::DecodeCmd => reveal_strlit("Failed to deserialize CMD packet from PC"),
        NetworkError::TelemInterrupt => reveal_strlit("Failed to get TELEM socket interrupt"),
        NetworkError::ClearTelemTimeout => reveal_strlit(
            "Failed to clear TELEM socket timeout interrupt",
        ),
        NetworkError::TelemTimedOut => reveal_strlit("TELEM socket timed out"),
        NetworkError::ClearTelemRecv => reveal_strlit(
            "Failed to clear TELEM socket recv interrupt",
        ),
        NetworkError::ReceiveTelem => reveal_strlit("Failed to receive UDP data on TELEM socket"),
        NetworkError::TelemPacketSize => reveal_strlit(
            "Received packet of incorrect size on TELEM socket",
        ),
        NetworkError::DecodeTelem => reveal_strlit(
            "Failed to deserialize data received on TELEM socket",
        ),
        NetworkError::SerializeTelem => reveal_strlit(
            "Failed to serialize TelemToPC into a byte buffer",
        ),
        NetworkError::SendTelem => reveal_strlit("Failed to send UDP telemetry packet"),
        NetworkError::TelemSizeMismatch => reveal_strlit("Telemetry packet size mismatch"),
    }
}

/// The message tells which error it is: no two errors share one.
pub proof fn law_messages_tell_errors_apart(
    a: NetworkError,
    b: NetworkError,
    message: &'static str,
    other: &'static str,
)
    requires
        call_ensures(NetworkError::message, (a,), message),
        call_ensures(NetworkError::message, (b,), other),
        message@ == other@,
    ensures
        a == b,
{
    lemma_fingerprint(a);
    lemma_fingerprint(b);
}

} // verus!
