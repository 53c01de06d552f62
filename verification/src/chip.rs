//! What is asked of the W5500 network chip, and how it is set up.
use vstd::prelude::*;

use crate::interrupts::{
    CMD_SOCKET_BIT, IR_CONFLICT, IR_UNREACH, SN_ALL_MASKED, SN_CON, SN_DISCON, SN_RECV, SN_TIMEOUT,
    TELEM_SOCKET_BIT,
};
use crate::network_error::NetworkError;

verus! {

/// Ports of the two sockets.
pub const CMD_PORT: u16 = 15397;

pub const TELEM_PORT: u16 = 15509;

/// The sockets of the chip that are in use: TCP for commands, which are rare,
/// and UDP for telemetry and setpoints, which are frequent.
#[derive(Clone, Copy, Debug, PartialEq, Eq, Structural)]
pub enum Socket {
    Cmd,
    Telem,
}

/// An IPv4 address.
#[derive(Clone, Copy, Debug, PartialEq, Eq, Structural)]
pub struct Ipv4 {
    pub a: u8,
    pub b: u8,
    pub c: u8,
    pub d: u8,
}

/// A MAC address.
#[derive(Clone, Copy, Debug, PartialEq, Eq, Structural)]
pub struct Mac {
    pub a: u8,
    pub b: u8,
    pub c: u8,
    pub d: u8,
    pub e: u8,
    pub f: u8,
}

/// One operation of the chip.
#[derive(Clone, Copy, Debug, PartialEq, Eq, Structural)]
pub enum Op {
    SetSourceIp(Ipv4),
    SetGateway(Ipv4),
    SetSubnet(Ipv4),
    SetMac(Mac),
    UdpBind(Socket, u16),
    /// Write the interrupt register.
    SetIr(u8),
    /// Write the mask of the interrupt register.
    SetImr(u8),
    /// Write the mask of the sockets.
    SetSimr(u8),
    /// Write the interrupt register of a socket.
    SetSocketIr(Socket, u8),
    /// Write the interrupt mask of a socket.
    SetSocketImr(Socket, u8),
    /// Close a socket at once.
    Close(Socket),
    /// Read whether a socket is closed.
    ReadStatus(Socket),
    /// Listen for a TCP client.
    Listen(Socket, u16),
    /// Read the interrupt register.
    ReadIr,
    /// Read the interrupt register of a socket.
    ReadSocketIr(Socket),
    /// Read bytes of a TCP socket.
    TcpRead(Socket),
    /// Receive a UDP packet.
    UdpReceive(Socket),
}

/// Address of the board.
pub open spec fn spec_ip_addr() -> Ipv4 {
    Ipv4 { a: 192, b: 168, c: 1, d: 20 }
}

/// Address of the client, to which telemetry goes.
pub open spec fn spec_pc_addr() -> Ipv4 {
    Ipv4 { a: 192, b: 168, c: 1, d: 10 }
}

/// Address of the client, to which telemetry goes.
pub fn pc_addr() -> (r: Ipv4)
    ensures
        r == spec_pc_addr(),
{
    Ipv4 { a: 192, b: 168, c: 1, d: 10 }
}

pub open spec fn spec_gateway() -> Ipv4 {
    Ipv4 { a: 192, b: 168, c: 1, d: 1 }
}

pub open spec fn spec_subnet() -> Ipv4 {
    Ipv4 { a: 255, b: 255, c: 255, d: 0 }
}

pub open spec fn spec_mac_addr() -> Mac {
    Mac { a: 0x02, b: 0x00, c: 0x11, d: 0x22, e: 0x33, f: 0x44 }
}

/// Addresses of the board and the UDP port, each with the error for it.
pub open spec fn spec_configure_w5500() -> Seq<(Op, NetworkError)> {
    seq![
        (Op::SetSourceIp(spec_ip_addr()), NetworkError::SetStaticIp),
        (Op::SetGateway(spec_gateway()), NetworkError::SetGateway),
        (Op::SetSubnet(spec_subnet()), NetworkError::SetSubnet),
        (Op::SetMac(spec_mac_addr()), NetworkError::SetMacAddress),
        (Op::UdpBind(Socket::Telem, TELEM_PORT), NetworkError::BindUdp),
    ]
}

/// Step `i` of the first setup of the chip.
pub fn configure_w5500(i: usize) -> (step: Option<(Op, NetworkError)>)
    ensures
        step == spec_step(spec_configure_w5500(), i as int),
{
    match i {
        0 => Some(
            (Op::SetSourceIp(Ipv4 { a: 192, b: 168, c: 1, d: 20 }), NetworkError::SetStaticIp),
        ),
        1 => Some((Op::SetGateway(Ipv4 { a: 192, b: 168, c: 1, d: 1 }), NetworkError::SetGateway)),
        2 => Some((Op::SetSubnet(Ipv4 { a: 255, b: 255, c: 255, d: 0 }), NetworkError::SetSubnet)),
        3 => Some(
            (
                Op::SetMac(Mac { a: 0x02, b: 0x00, c: 0x11, d: 0x22, e: 0x33, f: 0x44 }),
                NetworkError::SetMacAddress,
            ),
        ),
        4 => Some((Op::UdpBind(Socket::Telem, TELEM_PORT), NetworkError::BindUdp)),
        _ => None,
    }
}

/// Step `i` of a list of steps.
pub open spec fn spec_step(steps: Seq<(Op, NetworkError)>, i: int) -> Option<(Op, NetworkError)> {
    if 0 <= i < steps.len() {
        Some(steps[i])
    } else {
        None
    }
}

/// Interrupts of the chip itself that are let through: an address conflict and
/// an unreachable host.
pub const CHIP_MASK: u8 = 0xc0;

/// Interrupts of the command socket that are let through while waiting for a
/// client: a connection and a timeout.
pub const CMD_WAITING_MASK: u8 = 0xe9;

/// Interrupts that are let through while a client is connected: for commands
/// a disconnection, data and a timeout, and for telemetry data and a timeout.
pub const CMD_ACTIVE_MASK: u8 = 0xee;

pub const TELEM_ACTIVE_MASK: u8 = 0xec;

/// Both sockets.
pub const BOTH_SOCKETS: u8 = 0x03;

/// Lets through only what matters while waiting for a client.
pub open spec fn spec_configure_interrupts_pre_con() -> Seq<(Op, NetworkError)> {
    seq![
        (Op::SetIr(CHIP_MASK), NetworkError::ClearStale),
        (Op::SetImr(CHIP_MASK), NetworkError::UnmaskInterrupts),
        (Op::SetSimr(CMD_SOCKET_BIT), NetworkError::EnableCmdInterrupts),
        (Op::SetSocketIr(Socket::Cmd, CMD_WAITING_MASK), NetworkError::ClearCmdInterrupts),
        (Op::SetSocketImr(Socket::Cmd, CMD_WAITING_MASK), NetworkError::UnmaskCmdInterrupts),
    ]
}

/// Step `i` of the setup of the interrupts for waiting.
pub fn configure_interrupts_pre_con(i: usize) -> (step: Option<(Op, NetworkError)>)
    ensures
        step == spec_step(spec_configure_interrupts_pre_con(), i as int),
{
    match i {
        0 => Some((Op::SetIr(CHIP_MASK), NetworkError::ClearStale)),
        1 => Some((Op::SetImr(CHIP_MASK), NetworkError::UnmaskInterrupts)),
        2 => Some((Op::SetSimr(CMD_SOCKET_BIT), NetworkError::EnableCmdInterrupts)),
        3 => Some(
            (Op::SetSocketIr(Socket::Cmd, CMD_WAITING_MASK), NetworkError::ClearCmdInterrupts),
        ),
        4 => Some(
            (Op::SetSocketImr(Socket::Cmd, CMD_WAITING_MASK), NetworkError::UnmaskCmdInterrupts),
        ),
        _ => None,
    }
}

/// Lets through what matters while a client is connected.
pub open spec fn spec_configure_interrupts_active_con() -> Seq<(Op, NetworkError)> {
    seq![
        (Op::SetIr(CHIP_MASK), NetworkError::ClearStale),
        (Op::SetImr(CHIP_MASK), NetworkError::UnmaskInterrupts),
        (Op::SetSimr(BOTH_SOCKETS), NetworkError::SetSocketInterrupts),
        (Op::SetSocketIr(Socket::Cmd, CMD_ACTIVE_MASK), NetworkError::ClearSocketInterrupts),
        (Op::SetSocketImr(Socket::Cmd, CMD_ACTIVE_MASK), NetworkError::UnmaskCmdInterrupts),
        (Op::SetSocketIr(Socket::Telem, TELEM_ACTIVE_MASK), NetworkError::ClearSocketInterrupts),
        (
            Op::SetSocketImr(Socket::Telem, TELEM_ACTIVE_MASK),
            NetworkError::UnmaskTelemInterrupts,
        ),
    ]
}

/// Step `i` of the setup of the interrupts for an active connection.
pub fn configure_interrupts_active_con(i: usize) -> (step: Option<(Op, NetworkError)>)
    ensures
        step == spec_step(spec_configure_interrupts_active_con(), i as int),
{
    match i {
        0 => Some((Op::SetIr(CHIP_MASK), NetworkError::ClearStale)),
        1 => Some((Op::SetImr(CHIP_MASK), NetworkError::UnmaskInterrupts)),
        2 => Some((Op::SetSimr(BOTH_SOCKETS), NetworkError::SetSocketInterrupts)),
        3 => Some(
            (Op::SetSocketIr(Socket::Cmd, CMD_ACTIVE_MASK), NetworkError::ClearSocketInterrupts),
        ),
        4 => Some(
            (Op::SetSocketImr(Socket::Cmd, CMD_ACTIVE_MASK), NetworkError::UnmaskCmdInterrupts),
        ),
        5 => Some(
            (
                Op::SetSocketIr(Socket::Telem, TELEM_ACTIVE_MASK),
                NetworkError::ClearSocketInterrupts,
            ),
        ),
        6 => Some(
            (
                Op::SetSocketImr(Socket::Telem, TELEM_ACTIVE_MASK),
                NetworkError::UnmaskTelemInterrupts,
            ),
        ),
        _ => None,
    }
}

/// The masks let through the interrupts that they are meant for.
pub proof fn law_masks_let_the_named_interrupts_through()
    ensures
        CHIP_MASK == IR_CONFLICT | IR_UNREACH,
        CMD_WAITING_MASK == SN_ALL_MASKED | SN_CON | SN_TIMEOUT,
        CMD_ACTIVE_MASK == SN_ALL_MASKED | SN_DISCON | SN_RECV | SN_TIMEOUT,
        TELEM_ACTIVE_MASK == SN_ALL_MASKED | SN_RECV | SN_TIMEOUT,
        BOTH_SOCKETS == CMD_SOCKET_BIT | TELEM_SOCKET_BIT,
{
    assert(0xc0u8 == 0x80u8 | 0x40u8) by (bit_vector);
    assert(0xe9u8 == 0xe0u8 | 0x01u8 | 0x08u8) by (bit_vector);
    assert(0xeeu8 == 0xe0u8 | 0x02u8 | 0x04u8 | 0x08u8) by (bit_vector);
    assert(0xecu8 == 0xe0u8 | 0x04u8 | 0x08u8) by (bit_vector);
    assert(0x03u8 == 0x01u8 | 0x02u8) by (bit_vector);
}

/// The client that telemetry goes to is 192.168.1.10, in the network of the
/// board.
pub proof fn law_client_is_in_the_network_of_the_board(client: Ipv4)
    requires
        call_ensures(pc_addr, (), client),
    ensures
        client == (Ipv4 { a: 192, b: 168, c: 1, d: 10 }),
        spec_configure_w5500()[0].0 matches Op::SetSourceIp(board) && board.a == client.a
            && board.b == client.b && board.c == client.c && board.d != client.d,
{
}

/// Each step of the setups of interrupts has its own error, and the setup for
/// waiting has five steps and the one for a connection seven.
pub proof fn law_steps_have_their_errors(
    i: usize,
    waiting: Option<(Op, NetworkError)>,
    active: Option<(Op, NetworkError)>,
)
    requires
        call_ensures(configure_interrupts_pre_con, (i,), waiting),
        call_ensures(configure_interrupts_active_con, (i,), active),
    ensures
        waiting is Some <==> i < 5,
        active is Some <==> i < 7,
        waiting matches Some(step) ==> step.1 == (match step.0 {
            Op::SetIr(_) => NetworkError::ClearStale,
            Op::SetImr(_) => NetworkError::UnmaskInterrupts,
            Op::SetSimr(_) => NetworkError::EnableCmdInterrupts,
            Op::SetSocketIr(_, _) => NetworkError::ClearCmdInterrupts,
            _ => NetworkError::UnmaskCmdInterrupts,
        }),
        active matches Some(step) ==> step.1 == (match step.0 {
            Op::SetIr(_) => NetworkError::ClearStale,
            Op::SetImr(_) => NetworkError::UnmaskInterrupts,
            Op::SetSimr(_) => NetworkError::SetSocketInterrupts,
            Op::SetSocketIr(_, _) => NetworkError::ClearSocketInterrupts,
            Op::SetSocketImr(Socket::Cmd, _) => NetworkError::UnmaskCmdInterrupts,
            _ => NetworkError::UnmaskTelemInterrupts,
        }),
{
}

} // verus!
