//! Serving the interrupts of a connection.
use vstd::prelude::*;

use crate::angle::Angle;
use crate::chip::{Op, Socket};
use crate::float32::Float32;
use crate::interrupts::{
    conflict, discon_raised, recv_raised, timeout_raised, unreach, IR_CONFLICT, SN_DISCON, SN_RECV,
    SN_TIMEOUT,
};
use crate::messages::{CmdFromPC, TelemFromPC};
use crate::network_error::NetworkError;

verus! {

/// How a connection ended.
#[derive(Clone, Copy, Debug, PartialEq, Eq, Structural)]
pub enum Ending {
    /// The client disconnected.
    Graceful,
    Failed(NetworkError),
}

/// Where the serving of interrupts is.
#[derive(Clone, Copy, Debug, PartialEq, Eq, Structural)]
pub enum ActivePhase {
    Idle,
    CheckChip,
    ClearConflict,
    /// Writes no bit to the interrupt register, so the interrupt stays raised
    /// until the chip is set up for the next connection.
    ClearUnreach,
    CheckCmd,
    ClearDisconnect,
    ClearCmdTimeout,
    ClearCmdRecv,
    ReadCmd,
    DecodeCmd,
    PassOnCmd(CmdFromPC),
    CheckTelem,
    ClearTelemTimeout,
    ClearTelemRecv,
    ReceiveTelem,
    DecodeTelem,
    PassOnTelem(TelemFromPC),
    Ended(Ending),
}

/// What is asked for.
#[derive(Clone, Copy, Debug, PartialEq, Eq, Structural)]
pub enum ActiveRequest {
    /// Wait for an interrupt.
    Wait,
    /// Operate the chip.
    Chip(Op),
    /// Decode the bytes that were read as a command.
    DecodeCmd,
    /// Report a sign of life of the client, and pass its command on.
    PassOnCmd(CmdFromPC),
    /// Decode the bytes that were received as a setpoint.
    DecodeTelem,
    SetPosition(Angle),
    SetSpeed(Float32),
    /// Nothing more.
    End(Ending),
}

/// What came of a request.
#[derive(Clone, Copy, Debug, PartialEq, Eq, Structural)]
pub enum ActiveReply {
    Done,
    Failed,
    /// Value of a register.
    Register(u8),
    /// Number of bytes that were read.
    Bytes(u16),
    Cmd(CmdFromPC),
    Telem(TelemFromPC),
}

/// Sizes that a packet with a command and one with a setpoint must have. The
/// message stands at the front of its packet; it may be shorter, and what
/// follows it is padding.
#[derive(Clone, Copy, Debug, PartialEq, Eq, Structural)]
pub struct PacketSizes {
    pub cmd: usize,
    pub telem: usize,
}

/// The setpoint can be taken over: a position must be an angle.
pub open spec fn telem_fits(telem: TelemFromPC) -> bool {
    telem matches TelemFromPC::MotorPositionSetpoint(value) ==> value.fits_fixed()
}

/// What is asked for in a phase.
pub open spec fn spec_active_request(phase: ActivePhase) -> ActiveRequest {
    match phase {
        ActivePhase::Idle => ActiveRequest::Wait,
        ActivePhase::CheckChip => ActiveRequest::Chip(Op::ReadIr),
        ActivePhase::ClearConflict => ActiveRequest::Chip(Op::SetIr(IR_CONFLICT)),
        ActivePhase::ClearUnreach => ActiveRequest::Chip(Op::SetIr(0)),
        ActivePhase::CheckCmd => ActiveRequest::Chip(Op::ReadSocketIr(Socket::Cmd)),
        ActivePhase::ClearDisconnect => ActiveRequest::Chip(
            Op::SetSocketIr(Socket::Cmd, SN_DISCON),
        ),
        ActivePhase::ClearCmdTimeout => ActiveRequest::Chip(
            Op::SetSocketIr(Socket::Cmd, SN_TIMEOUT),
        ),
        ActivePhase::ClearCmdRecv => ActiveRequest::Chip(Op::SetSocketIr(Socket::Cmd, SN_RECV)),
        ActivePhase::ReadCmd => ActiveRequest::Chip(Op::TcpRead(Socket::Cmd)),
        ActivePhase::DecodeCmd => ActiveRequest::DecodeCmd,
        ActivePhase::PassOnCmd(cmd) => ActiveRequest::PassOnCmd(cmd),
        ActivePhase::CheckTelem => ActiveRequest::Chip(Op::ReadSocketIr(Socket::Telem)),
        ActivePhase::ClearTelemTimeout => ActiveRequest::Chip(
            Op::SetSocketIr(Socket::Telem, SN_TIMEOUT),
        ),
        ActivePhase::ClearTelemRecv => ActiveRequest::Chip(
            Op::SetSocketIr(Socket::Telem, SN_RECV),
        ),
        ActivePhase::ReceiveTelem => ActiveRequest::Chip(Op::UdpReceive(Socket::Telem)),
        ActivePhase::DecodeTelem => ActiveRequest::DecodeTelem,
        ActivePhase::PassOnTelem(TelemFromPC::MotorPositionSetpoint(value)) =>
            ActiveRequest::SetPosition(Angle { bits: value.spec_to_fixed() as i64 }),
        ActivePhase::PassOnTelem(TelemFromPC::MotorSpeedSetpoint(value)) =>
            ActiveRequest::SetSpeed(value),
        ActivePhase::Ended(ending) => ActiveRequest::End(ending),
    }
}

/// The reply is one that the request can have.
pub open spec fn answers(request: ActiveRequest, reply: ActiveReply) -> bool {
    match request {
        ActiveRequest::Wait => reply is Done,
        ActiveRequest::Chip(op) => reply is Failed || match op {
            Op::ReadIr => reply is Register,
            Op::ReadSocketIr(_) => reply is Register,
            Op::TcpRead(_) => reply is Bytes,
            Op::UdpReceive(_) => reply is Bytes,
            _ => reply is Done,
        },
        ActiveRequest::DecodeCmd => reply is Failed || reply is Cmd,
        ActiveRequest::PassOnCmd(_) => reply is Done,
        ActiveRequest::DecodeTelem => reply is Failed || reply is Telem,
        ActiveRequest::SetPosition(_) => reply is Done,
        ActiveRequest::SetSpeed(_) => reply is Done,
        ActiveRequest::End(_) => false,
    }
}

/// The error of a request that failed.
pub open spec fn spec_active_error(phase: ActivePhase) -> NetworkError {
    match phase {
        ActivePhase::CheckChip => NetworkError::ReadInterrupt,
        ActivePhase::ClearConflict => NetworkError::WriteInterrupt,
        ActivePhase::ClearUnreach => NetworkError::WriteInterrupt,
        ActivePhase::CheckCmd => NetworkError::CmdInterrupt,
        ActivePhase::ClearDisconnect => NetworkError::ClearCmdDisconnect,
        ActivePhase::ClearCmdTimeout => NetworkError::ClearCmdTimeout,
        ActivePhase::ClearCmdRecv => NetworkError::ClearCmdRecv,
        ActivePhase::ReadCmd => NetworkError::ReadCmd,
        ActivePhase::DecodeCmd => NetworkError::DecodeCmd,
        ActivePhase::CheckTelem => NetworkError::TelemInterrupt,
        ActivePhase::ClearTelemTimeout => NetworkError::ClearTelemTimeout,
        ActivePhase::ClearTelemRecv => NetworkError::ClearTelemRecv,
        ActivePhase::ReceiveTelem => NetworkError::ReceiveTelem,
        _ => NetworkError::DecodeTelem,
    }
}

/// The end of a connection by an error.
pub open spec fn gives_up(error: NetworkError) -> ActivePhase {
    ActivePhase::Ended(Ending::Failed(error))
}

/// What a chip interrupt register calls for.
pub open spec fn spec_after_chip(ir: u8) -> ActivePhase {
    if crate::interrupts::raised(ir, crate::interrupts::IR_CONFLICT) {
        ActivePhase::ClearConflict
    } else if crate::interrupts::raised(ir, crate::interrupts::IR_UNREACH) {
        ActivePhase::ClearUnreach
    } else {
        ActivePhase::CheckCmd
    }
}

/// What the interrupt register of the command socket calls for.
pub open spec fn spec_after_cmd(sn_ir: u8) -> ActivePhase {
    if crate::interrupts::raised(sn_ir, SN_DISCON) {
        ActivePhase::ClearDisconnect
    } else if crate::interrupts::raised(sn_ir, SN_TIMEOUT) {
        ActivePhase::ClearCmdTimeout
    } else if crate::interrupts::raised(sn_ir, SN_RECV) {
        ActivePhase::ClearCmdRecv
    } else {
        ActivePhase::CheckTelem
    }
}

/// What the interrupt register of the telemetry socket calls for.
pub open spec fn spec_after_telem(sn_ir: u8) -> ActivePhase {
    if crate::interrupts::raised(sn_ir, SN_TIMEOUT) {
        ActivePhase::ClearTelemTimeout
    } else if crate::interrupts::raised(sn_ir, SN_RECV) {
        ActivePhase::ClearTelemRecv
    } else {
        ActivePhase::Idle
    }
}

/// The phase after a reply.
pub open spec fn spec_active_next(
    phase: ActivePhase,
    reply: ActiveReply,
    sizes: PacketSizes,
) -> ActivePhase {
    match (phase, reply) {
        (ActivePhase::Ended(_), _) => phase,
        (_, ActiveReply::Failed) => gives_up(spec_active_error(phase)),
        (ActivePhase::Idle, _) => ActivePhase::CheckChip,
        (ActivePhase::CheckChip, ActiveReply::Register(ir)) => spec_after_chip(ir),
        (ActivePhase::ClearConflict, _) => gives_up(NetworkError::IpConflict),
        (ActivePhase::ClearUnreach, _) => gives_up(NetworkError::Unreachable),
        (ActivePhase::CheckCmd, ActiveReply::Register(sn_ir)) => spec_after_cmd(sn_ir),
        (ActivePhase::ClearDisconnect, _) => ActivePhase::Ended(Ending::Graceful),
        (ActivePhase::ClearCmdTimeout, _) => gives_up(NetworkError::CmdTimedOut),
        (ActivePhase::ClearCmdRecv, _) => ActivePhase::ReadCmd,
        (ActivePhase::ReadCmd, ActiveReply::Bytes(n)) => if n == sizes.cmd {
            ActivePhase::DecodeCmd
        } else {
            gives_up(NetworkError::CmdPacketSize)
        },
        (ActivePhase::DecodeCmd, ActiveReply::Cmd(cmd)) => ActivePhase::PassOnCmd(cmd),
        (ActivePhase::PassOnCmd(_), _) => ActivePhase::CheckTelem,
        (ActivePhase::CheckTelem, ActiveReply::Register(sn_ir)) => spec_after_telem(sn_ir),
        (ActivePhase::ClearTelemTimeout, _) => gives_up(NetworkError::TelemTimedOut),
        (ActivePhase::ClearTelemRecv, _) => ActivePhase::ReceiveTelem,
        (ActivePhase::ReceiveTelem, ActiveReply::Bytes(n)) => if n == sizes.telem {
            ActivePhase::DecodeTelem
        } else {
            gives_up(NetworkError::TelemPacketSize)
        },
        (ActivePhase::DecodeTelem, ActiveReply::Telem(telem)) => if telem_fits(telem) {
            ActivePhase::PassOnTelem(telem)
        } else {
            gives_up(NetworkError::DecodeTelem)
        },
        (ActivePhase::PassOnTelem(_), _) => ActivePhase::Idle,
        _ => phase,
    }
}

/// Serving the interrupts of one connection.
#[derive(Clone, Copy, Debug)]
pub struct ActiveConnection {
    phase: ActivePhase,
    sizes: PacketSizes,
}

impl ActiveConnection {
    /// A setpoint that is passed on can be taken over.
    #[verifier::type_invariant]
    spec fn setpoint_fits(self) -> bool {
        self.phase matches ActivePhase::PassOnTelem(telem) ==> telem_fits(telem)
    }

    pub closed spec fn at(self) -> ActivePhase {
        self.phase
    }

    pub closed spec fn packet_sizes(self) -> PacketSizes {
        self.sizes
    }

    pub fn new(sizes: PacketSizes) -> (r: ActiveConnection)
        ensures
            r.at() == ActivePhase::Idle,
            r.packet_sizes() == sizes,
    {
        ActiveConnection { phase: ActivePhase::Idle, sizes }
    }

    /// What is asked for.
    pub fn request(&self) -> (r: ActiveRequest)
        ensures
            r == spec_active_request(self.at()),
    {
        proof {
            use_type_invariant(self);
        }
        match self.phase {
            ActivePhase::Idle => ActiveRequest::Wait,
            ActivePhase::CheckChip => ActiveRequest::Chip(Op::ReadIr),
            ActivePhase::ClearConflict => ActiveRequest::Chip(Op::SetIr(IR_CONFLICT)),
            ActivePhase::ClearUnreach => ActiveRequest::Chip(Op::SetIr(0)),
            ActivePhase::CheckCmd => ActiveRequest::Chip(Op::ReadSocketIr(Socket::Cmd)),
            ActivePhase::ClearDisconnect => ActiveRequest::Chip(
                Op::SetSocketIr(Socket::Cmd, SN_DISCON),
            ),
            ActivePhase::ClearCmdTimeout => ActiveRequest::Chip(
                Op::SetSocketIr(Socket::Cmd, SN_TIMEOUT),
            ),
            ActivePhase::ClearCmdRecv => ActiveRequest::Chip(
                Op::SetSocketIr(Socket::Cmd, SN_RECV),
            ),
            ActivePhase::ReadCmd => ActiveRequest::Chip(Op::TcpRead(Socket::Cmd)),
            ActivePhase::DecodeCmd => ActiveRequest::DecodeCmd,
            ActivePhase::PassOnCmd(cmd) => ActiveRequest::PassOnCmd(cmd),
            ActivePhase::CheckTelem => ActiveRequest::Chip(Op::ReadSocketIr(Socket::Telem)),
            ActivePhase::ClearTelemTimeout => ActiveRequest::Chip(
                Op::SetSocketIr(Socket::Telem, SN_TIMEOUT),
            ),
            ActivePhase::ClearTelemRecv => ActiveRequest::Chip(
                Op::SetSocketIr(Socket::Telem, SN_RECV),
            ),
            ActivePhase::ReceiveTelem => ActiveRequest::Chip(Op::UdpReceive(Socket::Telem)),
            ActivePhase::DecodeTelem => ActiveRequest::DecodeTelem,
            ActivePhase::PassOnTelem(telem) => match telem {
                TelemFromPC::MotorPositionSetpoint(value) => ActiveRequest::SetPosition(
                    Angle::from_radians(value),
                ),
                TelemFromPC::MotorSpeedSetpoint(value) => ActiveRequest::SetSpeed(value),
            },
            ActivePhase::Ended(ending) => ActiveRequest::End(ending),
        }
    }

    /// Whether a setpoint can be taken over.
    pub fn can_take(telem: TelemFromPC) -> (b: bool)
        ensures
            b == telem_fits(telem),
    {
        match telem {
            TelemFromPC::MotorPositionSetpoint(value) => value.has_fixed(),
            TelemFromPC::MotorSpeedSetpoint(_) => true,
        }
    }

    /// Whether `advance` can take a reply: it is one that the request can have.
    pub fn can_advance(&self, reply: ActiveReply) -> (b: bool)
        ensures
            b == answers(spec_active_request(self.at()), reply),
    {
        match (self.request(), reply) {
            (ActiveRequest::Wait, ActiveReply::Done) => true,
            (ActiveRequest::Chip(_), ActiveReply::Failed) => true,
            (ActiveRequest::Chip(Op::ReadIr), _) => is_register(reply),
            (ActiveRequest::Chip(Op::ReadSocketIr(_)), _) => is_register(reply),
            (ActiveRequest::Chip(Op::TcpRead(_)), _) => is_bytes(reply),
            (ActiveRequest::Chip(Op::UdpReceive(_)), _) => is_bytes(reply),
            (ActiveRequest::Chip(_), ActiveReply::Done) => true,
            (ActiveRequest::DecodeCmd, ActiveReply::Failed) => true,
            (ActiveRequest::DecodeCmd, ActiveReply::Cmd(_)) => true,
            (ActiveRequest::PassOnCmd(_), ActiveReply::Done) => true,
            (ActiveRequest::DecodeTelem, ActiveReply::Failed) => true,
            (ActiveRequest::DecodeTelem, ActiveReply::Telem(_)) => true,
            (ActiveRequest::SetPosition(_), ActiveReply::Done) => true,
            (ActiveRequest::SetSpeed(_), ActiveReply::Done) => true,
            _ => false,
        }
    }

    fn error(&self) -> (e: NetworkError)
        ensures
            e == spec_active_error(self.at()),
    {
        match self.phase {
            ActivePhase::CheckChip => NetworkError::ReadInterrupt,
            ActivePhase::ClearConflict => NetworkError::WriteInterrupt,
            ActivePhase::ClearUnreach => NetworkError::WriteInterrupt,
            ActivePhase::CheckCmd => NetworkError::CmdInterrupt,
            ActivePhase::ClearDisconnect => NetworkError::ClearCmdDisconnect,
            ActivePhase::ClearCmdTimeout => NetworkError::ClearCmdTimeout,
            ActivePhase::ClearCmdRecv => NetworkError::ClearCmdRecv,
            ActivePhase::ReadCmd => NetworkError::ReadCmd,
            ActivePhase::DecodeCmd => NetworkError::DecodeCmd,
            ActivePhase::CheckTelem => NetworkError::TelemInterrupt,
            ActivePhase::ClearTelemTimeout => NetworkError::ClearTelemTimeout,
            ActivePhase::ClearTelemRecv => NetworkError::ClearTelemRecv,
            ActivePhase::ReceiveTelem => NetworkError::ReceiveTelem,
            _ => NetworkError::DecodeTelem,
        }
    }

    /// Takes the reply to the request.
    pub fn advance(&mut self, reply: ActiveReply)
        requires
            answers(spec_active_request(old(self).at()), reply),
        ensures
            final(self).at() == spec_active_next(old(self).at(), reply, old(self).packet_sizes()),
            final(self).packet_sizes() == old(self).packet_sizes(),
    {
        let next = match (self.phase, reply) {
            (_, ActiveReply::Failed) => ActivePhase::Ended(Ending::Failed(self.error())),
            (ActivePhase::Idle, _) => ActivePhase::CheckChip,
            (ActivePhase::CheckChip, ActiveReply::Register(ir)) => {
                if conflict(ir) {
                    ActivePhase::ClearConflict
                } else if unreach(ir) {
                    ActivePhase::ClearUnreach
                } else {
                    ActivePhase::CheckCmd
                }
            },
            (ActivePhase::ClearConflict, _) => ActivePhase::Ended(
                Ending::Failed(NetworkError::IpConflict),
            ),
            (ActivePhase::ClearUnreach, _) => ActivePhase::Ended(
                Ending::Failed(NetworkError::Unreachable),
            ),
            (ActivePhase::CheckCmd, ActiveReply::Register(sn_ir)) => {
                if discon_raised(sn_ir) {
                    ActivePhase::ClearDisconnect
                } else if timeout_raised(sn_ir) {
                    ActivePhase::ClearCmdTimeout
                } else if recv_raised(sn_ir) {
                    ActivePhase::ClearCmdRecv
                } else {
                    ActivePhase::CheckTelem
                }
            },
            (ActivePhase::ClearDisconnect, _) => ActivePhase::Ended(Ending::Graceful),
            (ActivePhase::ClearCmdTimeout, _) => ActivePhase::Ended(
                Ending::Failed(NetworkError::CmdTimedOut),
            ),
            (ActivePhase::ClearCmdRecv, _) => ActivePhase::ReadCmd,
            (ActivePhase::ReadCmd, ActiveReply::Bytes(n)) => {
                if n as usize != self.sizes.cmd {
                    ActivePhase::Ended(Ending::Failed(NetworkError::CmdPacketSize))
                } else {
                    ActivePhase::DecodeCmd
                }
            },
            (ActivePhase::DecodeCmd, ActiveReply::Cmd(cmd)) => ActivePhase::PassOnCmd(cmd),
            (ActivePhase::PassOnCmd(_), _) => ActivePhase::CheckTelem,
            (ActivePhase::CheckTelem, ActiveReply::Register(sn_ir)) => {
                if timeout_raised(sn_ir) {
                    ActivePhase::ClearTelemTimeout
                } else if recv_raised(sn_ir) {
                    ActivePhase::ClearTelemRecv
                } else {
                    ActivePhase::Idle
                }
            },
            (ActivePhase::ClearTelemTimeout, _) => ActivePhase::Ended(
                Ending::Failed(NetworkError::TelemTimedOut),
            ),
            (ActivePhase::ClearTelemRecv, _) => ActivePhase::ReceiveTelem,
            (ActivePhase::ReceiveTelem, ActiveReply::Bytes(n)) => {
                if n as usize != self.sizes.telem {
                    ActivePhase::Ended(Ending::Failed(NetworkError::TelemPacketSize))
                } else {
                    ActivePhase::DecodeTelem
                }
            },
            (ActivePhase::DecodeTelem, ActiveReply::Telem(telem)) => {
                if ActiveConnection::can_take(telem) {
                    ActivePhase::PassOnTelem(telem)
                } else {
                    ActivePhase::Ended(Ending::Failed(NetworkError::DecodeTelem))
                }
            },
            (ActivePhase::PassOnTelem(_), _) => ActivePhase::Idle,
            (phase, _) => phase,
        };
        *self = ActiveConnection { phase: next, sizes: self.sizes };
    }
}

fn is_register(reply: ActiveReply) -> (b: bool)
    ensures
        b == (reply is Register),
{
    match reply {
        ActiveReply::Register(_) => true,
        _ => false,
    }
}

fn is_bytes(reply: ActiveReply) -> (b: bool)
    ensures
        b == (reply is Bytes),
{
    match reply {
        ActiveReply::Bytes(_) => true,
        _ => false,
    }
}

/// The phase after a run of replies.
pub open spec fn active_run(
    phase: ActivePhase,
    replies: Seq<ActiveReply>,
    sizes: PacketSizes,
) -> ActivePhase
    decreases replies.len(),
{
    if replies.len() == 0 {
        phase
    } else {
        active_run(
            spec_active_next(phase, replies[0], sizes),
            replies.subrange(1, replies.len() as int),
            sizes,
        )
    }
}

/// Whatever fails, the connection is given up.
pub proof fn law_failure_gives_the_connection_up(phase: ActivePhase, sizes: PacketSizes)
    requires
        answers(spec_active_request(phase), ActiveReply::Failed),
    ensures
        spec_active_next(phase, ActiveReply::Failed, sizes) matches ActivePhase::Ended(
            Ending::Failed(_),
        ),
{
}

/// Every reply moves serving on to another phase.
pub proof fn law_every_reply_moves_serving_on(
    phase: ActivePhase,
    reply: ActiveReply,
    sizes: PacketSizes,
)
    requires
        answers(spec_active_request(phase), reply),
    ensures
        spec_active_next(phase, reply, sizes) != phase,
{
}

/// A connection ends gracefully only when the client has disconnected.
pub proof fn law_graceful_end_needs_a_disconnection(
    phase: ActivePhase,
    reply: ActiveReply,
    sizes: PacketSizes,
)
    requires
        !(phase is Ended),
        answers(spec_active_request(phase), reply),
        spec_active_next(phase, reply, sizes) == ActivePhase::Ended(Ending::Graceful),
    ensures
        phase is ClearDisconnect,
        forall|sn_ir: u8|
            spec_after_cmd(sn_ir) == phase <==> #[trigger] crate::interrupts::raised(
                sn_ir,
                SN_DISCON,
            ),
{
}

/// Every interrupt that is let through is served. One of the chip ends the
/// connection; one of a socket leads to a phase that clears a raised bit of
/// that socket.
pub proof fn law_unmasked_interrupts_are_served(register: u8, sizes: PacketSizes)
    ensures
        register & crate::chip::CHIP_MASK != 0 ==> (active_run(
            ActivePhase::CheckChip,
            seq![ActiveReply::Register(register), ActiveReply::Done],
            sizes,
        ) matches ActivePhase::Ended(Ending::Failed(_))),
        register & crate::chip::CMD_ACTIVE_MASK & 0x1f != 0 ==> (spec_active_request(
            spec_after_cmd(register),
        ) matches ActiveRequest::Chip(Op::SetSocketIr(Socket::Cmd, bit))
            && crate::interrupts::raised(register, bit)),
        register & crate::chip::TELEM_ACTIVE_MASK & 0x1f != 0 ==> (spec_active_request(
            spec_after_telem(register),
        ) matches ActiveRequest::Chip(Op::SetSocketIr(Socket::Telem, bit))
            && crate::interrupts::raised(register, bit)),
{
    assert(register & 0xc0 != 0 ==> register & 0x80 != 0 || register & 0x40 != 0)
        by (bit_vector);
    assert(register & 0xee & 0x1f != 0 ==> register & 0x02 != 0 || register & 0x04 != 0 || register
        & 0x08 != 0) by (bit_vector);
    assert(register & 0xec & 0x1f != 0 ==> register & 0x04 != 0 || register & 0x08 != 0)
        by (bit_vector);
    let replies = seq![ActiveReply::Register(register), ActiveReply::Done];
    assert(replies.subrange(1, 2) =~= seq![ActiveReply::Done]);
    assert(seq![ActiveReply::Done].subrange(1, 1) =~= Seq::<ActiveReply>::empty());
    reveal_with_fuel(active_run, 3);
}

/// A packet of another size ends the connection and is not even decoded.
pub proof fn law_packet_of_another_size_gives_the_connection_up(sizes: PacketSizes, n: u16)
    ensures
        n != sizes.cmd ==> spec_active_next(
            ActivePhase::ReadCmd,
            ActiveReply::Bytes(n),
            sizes,
        ) == gives_up(NetworkError::CmdPacketSize),
        n != sizes.telem ==> spec_active_next(
            ActivePhase::ReceiveTelem,
            ActiveReply::Bytes(n),
            sizes,
        ) == gives_up(NetworkError::TelemPacketSize),
{
}

/// A command that arrives in a packet of the right size is passed on, and
/// serving goes on with the telemetry socket.
pub proof fn law_command_is_passed_on(sn_ir: u8, cmd: CmdFromPC, sizes: PacketSizes, n: u16)
    requires
        crate::interrupts::raised(sn_ir, SN_RECV),
        !crate::interrupts::raised(sn_ir, SN_DISCON),
        !crate::interrupts::raised(sn_ir, SN_TIMEOUT),
        n == sizes.cmd,
    ensures
        active_run(
            ActivePhase::CheckCmd,
            seq![
                ActiveReply::Register(sn_ir),
                ActiveReply::Done,
                ActiveReply::Bytes(n),
                ActiveReply::Cmd(cmd),
            ],
            sizes,
        ) == ActivePhase::PassOnCmd(cmd),
        spec_active_next(ActivePhase::PassOnCmd(cmd), ActiveReply::Done, sizes)
            == ActivePhase::CheckTelem,
{
    let (a, b, c, d) = (
        ActiveReply::Register(sn_ir),
        ActiveReply::Done,
        ActiveReply::Bytes(n),
        ActiveReply::Cmd(cmd),
    );
    assert(seq![a, b, c, d].subrange(1, 4) =~= seq![b, c, d]);
    assert(seq![b, c, d].subrange(1, 3) =~= seq![c, d]);
    assert(seq![c, d].subrange(1, 2) =~= seq![d]);
    assert(seq![d].subrange(1, 1) =~= Seq::<ActiveReply>::empty());
    reveal_with_fuel(active_run, 5);
}

/// Every setpoint that can be decoded is answered: a position that is no angle
/// ends the connection.
pub proof fn law_unfit_setpoint_gives_the_connection_up(telem: TelemFromPC, sizes: PacketSizes)
    requires
        !telem_fits(telem),
    ensures
        answers(spec_active_request(ActivePhase::DecodeTelem), ActiveReply::Telem(telem)),
        spec_active_next(ActivePhase::DecodeTelem, ActiveReply::Telem(telem), sizes) == gives_up(
            NetworkError::DecodeTelem,
        ),
{
}

/// A setpoint that arrives in a packet of the right size is taken over, and
/// serving waits for the next interrupt.
pub proof fn law_setpoint_is_taken_over(sn_ir: u8, telem: TelemFromPC, sizes: PacketSizes, n: u16)
    requires
        crate::interrupts::raised(sn_ir, SN_RECV),
        !crate::interrupts::raised(sn_ir, SN_TIMEOUT),
        n == sizes.telem,
        telem_fits(telem),
    ensures
        active_run(
            ActivePhase::CheckTelem,
            seq![
                ActiveReply::Register(sn_ir),
                ActiveReply::Done,
                ActiveReply::Bytes(n),
                ActiveReply::Telem(telem),
            ],
            sizes,
        ) == ActivePhase::PassOnTelem(telem),
        spec_active_next(ActivePhase::PassOnTelem(telem), ActiveReply::Done, sizes)
            == ActivePhase::Idle,
{
    let (a, b, c, d) = (
        ActiveReply::Register(sn_ir),
        ActiveReply::Done,
        ActiveReply::Bytes(n),
        ActiveReply::Telem(telem),
    );
    assert(seq![a, b, c, d].subrange(1, 4) =~= seq![b, c, d]);
    assert(seq![b, c, d].subrange(1, 3) =~= seq![c, d]);
    assert(seq![c, d].subrange(1, 2) =~= seq![d]);
    assert(seq![d].subrange(1, 1) =~= Seq::<ActiveReply>::empty());
    reveal_with_fuel(active_run, 5);
}

/// After a command was decoded, the next request is to pass on that command and
/// no other; then the telemetry socket is looked at.
pub proof fn law_decoded_command_is_the_one_passed_on(
    before: ActiveConnection,
    after: ActiveConnection,
    last: ActiveConnection,
    cmd: CmdFromPC,
    requests: (ActiveRequest, ActiveRequest, ActiveRequest),
)
    requires
        call_ensures(ActiveConnection::request, (&before,), requests.0),
        requests.0 is DecodeCmd,
        after.at() == spec_active_next(
            before.at(),
            ActiveReply::Cmd(cmd),
            before.packet_sizes(),
        ),
        call_ensures(ActiveConnection::request, (&after,), requests.1),
        last.at() == spec_active_next(after.at(), ActiveReply::Done, before.packet_sizes()),
        call_ensures(ActiveConnection::request, (&last,), requests.2),
    ensures
        requests.1 == ActiveRequest::PassOnCmd(cmd),
        requests.2 == ActiveRequest::Chip(Op::ReadSocketIr(Socket::Telem)),
{
}

/// After a setpoint was decoded, the next request is to take over that setpoint:
/// a speed as it is, and a position as the angle nearest to it. A position that
/// is no angle ends the connection. Once the setpoint is taken over, the next
/// interrupt is waited for.
pub proof fn law_decoded_setpoint_is_the_one_taken_over(
    before: ActiveConnection,
    after: ActiveConnection,
    last: ActiveConnection,
    telem: TelemFromPC,
    requests: (ActiveRequest, ActiveRequest, ActiveRequest),
)
    requires
        call_ensures(ActiveConnection::request, (&before,), requests.0),
        requests.0 is DecodeTelem,
        after.at() == spec_active_next(
            before.at(),
            ActiveReply::Telem(telem),
            before.packet_sizes(),
        ),
        call_ensures(ActiveConnection::request, (&after,), requests.1),
        last.at() == spec_active_next(after.at(), ActiveReply::Done, before.packet_sizes()),
        call_ensures(ActiveConnection::request, (&last,), requests.2),
    ensures
        match telem {
            TelemFromPC::MotorSpeedSetpoint(value) => requests.1 == ActiveRequest::SetSpeed(value)
                && requests.2 is Wait,
            TelemFromPC::MotorPositionSetpoint(value) => if crate::float32::in_angle_range(value) {
                &&& requests.1 is SetPosition
                &&& crate::float32::is_nearest_fixed(
                    value,
                    requests.1->SetPosition_0.bits as int,
                )
                &&& requests.2 is Wait
            } else {
                requests.1 == ActiveRequest::End(Ending::Failed(NetworkError::DecodeTelem))
            },
        },
{
    if let TelemFromPC::MotorPositionSetpoint(value) = telem {
        crate::float32::lemma_fits_fixed(value);
        if value.fits_fixed() {
            crate::float32::lemma_fixed_is_nearest(value);
        }
    }
}

/// Serving begins with waiting for an interrupt, and then with a look at the
/// chip itself. An address conflict (bit 7) goes before an unreachable host
/// (bit 6), and either ends the connection. Without them the command socket is
/// looked at.
pub proof fn law_chip_register_is_served(
    phase: ActivePhase,
    ir: u8,
    sizes: PacketSizes,
)
    ensures
        spec_active_request(ActivePhase::Idle) is Wait,
        spec_active_request(phase) is Wait ==> spec_active_request(
            spec_active_next(phase, ActiveReply::Done, sizes),
        ) == ActiveRequest::Chip(Op::ReadIr),
        spec_active_request(phase) == ActiveRequest::Chip(Op::ReadIr) ==> ({
            let next = spec_active_next(phase, ActiveReply::Register(ir), sizes);
            let last = spec_active_next(next, ActiveReply::Done, sizes);
            &&& ir & 0x80 != 0 ==> spec_active_request(next) == ActiveRequest::Chip(
                Op::SetIr(0x80),
            ) && spec_active_request(last) == ActiveRequest::End(
                Ending::Failed(NetworkError::IpConflict),
            )
            &&& ir & 0x80 == 0 && ir & 0x40 != 0 ==> spec_active_request(next)
                == ActiveRequest::Chip(Op::SetIr(0)) && spec_active_request(last)
                == ActiveRequest::End(Ending::Failed(NetworkError::Unreachable))
            &&& ir & 0x80 == 0 && ir & 0x40 == 0 ==> spec_active_request(next)
                == ActiveRequest::Chip(Op::ReadSocketIr(Socket::Cmd))
        }),
{
}

/// On the command socket a disconnection (bit 1) goes before a timeout (bit 3),
/// and that before data (bit 2). Each is cleared by its own bit. The first ends
/// the connection gracefully and the second with an error; data is read and,
/// in a packet of the right size, decoded. Without them the telemetry socket is
/// looked at.
pub proof fn law_command_register_is_served(
    phase: ActivePhase,
    sn_ir: u8,
    n: u16,
    sizes: PacketSizes,
)
    requires
        spec_active_request(phase) == ActiveRequest::Chip(Op::ReadSocketIr(Socket::Cmd)),
    ensures
        ({
            let next = spec_active_next(phase, ActiveReply::Register(sn_ir), sizes);
            let last = spec_active_next(next, ActiveReply::Done, sizes);
            let read = spec_active_next(last, ActiveReply::Bytes(n), sizes);
            &&& sn_ir & 0x02 != 0 ==> spec_active_request(next) == ActiveRequest::Chip(
                Op::SetSocketIr(Socket::Cmd, 0x02),
            ) && spec_active_request(last) == ActiveRequest::End(Ending::Graceful)
            &&& sn_ir & 0x02 == 0 && sn_ir & 0x08 != 0 ==> spec_active_request(next)
                == ActiveRequest::Chip(Op::SetSocketIr(Socket::Cmd, 0x08)) && spec_active_request(
                last,
            ) == ActiveRequest::End(Ending::Failed(NetworkError::CmdTimedOut))
            &&& sn_ir & 0x02 == 0 && sn_ir & 0x08 == 0 && sn_ir & 0x04 != 0
                ==> spec_active_request(next) == ActiveRequest::Chip(
                Op::SetSocketIr(Socket::Cmd, 0x04),
            ) && spec_active_request(last) == ActiveRequest::Chip(Op::TcpRead(Socket::Cmd))
                && spec_active_request(read) == (if n == sizes.cmd {
                ActiveRequest::DecodeCmd
            } else {
                ActiveRequest::End(Ending::Failed(NetworkError::CmdPacketSize))
            })
            &&& sn_ir & 0x02 == 0 && sn_ir & 0x08 == 0 && sn_ir & 0x04 == 0
                ==> spec_active_request(next) == ActiveRequest::Chip(
                Op::ReadSocketIr(Socket::Telem),
            )
        }),
{
}

/// On the telemetry socket a timeout (bit 3) goes before data (bit 2). Without
/// them the next interrupt is waited for.
pub proof fn law_telemetry_register_is_served(
    phase: ActivePhase,
    sn_ir: u8,
    n: u16,
    sizes: PacketSizes,
)
    requires
        spec_active_request(phase) == ActiveRequest::Chip(Op::ReadSocketIr(Socket::Telem)),
    ensures
        ({
            let next = spec_active_next(phase, ActiveReply::Register(sn_ir), sizes);
            let last = spec_active_next(next, ActiveReply::Done, sizes);
            let read = spec_active_next(last, ActiveReply::Bytes(n), sizes);
            &&& sn_ir & 0x08 != 0 ==> spec_active_request(next) == ActiveRequest::Chip(
                Op::SetSocketIr(Socket::Telem, 0x08),
            ) && spec_active_request(last) == ActiveRequest::End(
                Ending::Failed(NetworkError::TelemTimedOut),
            )
            &&& sn_ir & 0x08 == 0 && sn_ir & 0x04 != 0 ==> spec_active_request(next)
                == ActiveRequest::Chip(Op::SetSocketIr(Socket::Telem, 0x04))
                && spec_active_request(last) == ActiveRequest::Chip(Op::UdpReceive(Socket::Telem))
                && spec_active_request(read) == (if n == sizes.telem {
                ActiveRequest::DecodeTelem
            } else {
                ActiveRequest::End(Ending::Failed(NetworkError::TelemPacketSize))
            })
            &&& sn_ir & 0x08 == 0 && sn_ir & 0x04 == 0 ==> spec_active_request(next) is Wait
        }),
{
}

/// A request that fails ends the connection with the error of that request.
pub proof fn law_failed_request_ends_with_its_error(phase: ActivePhase, sizes: PacketSizes)
    requires
        answers(spec_active_request(phase), ActiveReply::Failed),
    ensures
        ({
            let request = spec_active_request(phase);
            let end = spec_active_request(spec_active_next(phase, ActiveReply::Failed, sizes));
            &&& end matches ActiveRequest::End(Ending::Failed(_))
            &&& request == ActiveRequest::Chip(Op::ReadIr) ==> end == ActiveRequest::End(
                Ending::Failed(NetworkError::ReadInterrupt),
            )
            &&& request matches ActiveRequest::Chip(Op::SetIr(_)) ==> end == ActiveRequest::End(
                Ending::Failed(NetworkError::WriteInterrupt),
            )
            &&& request == ActiveRequest::Chip(Op::ReadSocketIr(Socket::Cmd)) ==> end
                == ActiveRequest::End(Ending::Failed(NetworkError::CmdInterrupt))
            &&& request == ActiveRequest::Chip(Op::SetSocketIr(Socket::Cmd, 0x02)) ==> end
                == ActiveRequest::End(Ending::Failed(NetworkError::ClearCmdDisconnect))
            &&& request == ActiveRequest::Chip(Op::SetSocketIr(Socket::Cmd, 0x08)) ==> end
                == ActiveRequest::End(Ending::Failed(NetworkError::ClearCmdTimeout))
            &&& request == ActiveRequest::Chip(Op::SetSocketIr(Socket::Cmd, 0x04)) ==> end
                == ActiveRequest::End(Ending::Failed(NetworkError::ClearCmdRecv))
            &&& request == ActiveRequest::Chip(Op::TcpRead(Socket::Cmd)) ==> end
                == ActiveRequest::End(Ending::Failed(NetworkError::ReadCmd))
            &&& request is DecodeCmd ==> end == ActiveRequest::End(
                Ending::Failed(NetworkError::DecodeCmd),
            )
            &&& request == ActiveRequest::Chip(Op::ReadSocketIr(Socket::Telem)) ==> end
                == ActiveRequest::End(Ending::Failed(NetworkError::TelemInterrupt))
            &&& request == ActiveRequest::Chip(Op::SetSocketIr(Socket::Telem, 0x08)) ==> end
                == ActiveRequest::End(Ending::Failed(NetworkError::ClearTelemTimeout))
            &&& request == ActiveRequest::Chip(Op::SetSocketIr(Socket::Telem, 0x04)) ==> end
                == ActiveRequest::End(Ending::Failed(NetworkError::ClearTelemRecv))
            &&& request == ActiveRequest::Chip(Op::UdpReceive(Socket::Telem)) ==> end
                == ActiveRequest::End(Ending::Failed(NetworkError::ReceiveTelem))
            &&& request is DecodeTelem ==> end == ActiveRequest::End(
                Ending::Failed(NetworkError::DecodeTelem),
            )
        }),
{
}

/// Which replies a request can have.
pub proof fn law_replies_to_the_connection(
    connection: ActiveConnection,
    request: ActiveRequest,
    reply: ActiveReply,
    takes: bool,
)
    requires
        call_ensures(ActiveConnection::request, (&connection,), request),
        call_ensures(ActiveConnection::can_advance, (&connection, reply), takes),
    ensures
        request is End ==> !takes,
        request is Wait || request is PassOnCmd || request is SetPosition || request is SetSpeed
            ==> (takes <==> reply is Done),
        request is DecodeCmd ==> (takes <==> reply is Cmd || reply is Failed),
        request is DecodeTelem ==> (takes <==> reply is Telem || reply is Failed),
        request matches ActiveRequest::Chip(op) ==> (takes <==> reply is Failed || (if op is ReadIr
            || op is ReadSocketIr {
            reply is Register
        } else if op is TcpRead || op is UdpReceive {
            reply is Bytes
        } else {
            reply is Done
        })),
{
}

/// A connection that has asked to decode a command and is handed `cmd`, asks
/// next to pass on `cmd`.
pub proof fn law_connection_passes_on_what_was_decoded(
    connection: &mut ActiveConnection,
    cmd: CmdFromPC,
    before: ActiveRequest,
    after: ActiveRequest,
)
    requires
        call_ensures(ActiveConnection::request, (&*old(connection),), before),
        before is DecodeCmd,
        call_ensures(ActiveConnection::advance, (connection, ActiveReply::Cmd(cmd)), ()),
        call_ensures(ActiveConnection::request, (&*final(connection),), after),
    ensures
        after == ActiveRequest::PassOnCmd(cmd),
        final(connection).packet_sizes() == old(connection).packet_sizes(),
{
}

/// A connection that has asked to decode a setpoint and is handed one of a
/// speed, asks next to set that speed.
pub proof fn law_connection_sets_the_speed_that_was_decoded(
    connection: &mut ActiveConnection,
    speed: Float32,
    before: ActiveRequest,
    after: ActiveRequest,
)
    requires
        call_ensures(ActiveConnection::request, (&*old(connection),), before),
        before is DecodeTelem,
        call_ensures(
            ActiveConnection::advance,
            (connection, ActiveReply::Telem(TelemFromPC::MotorSpeedSetpoint(speed))),
            (),
        ),
        call_ensures(ActiveConnection::request, (&*final(connection),), after),
    ensures
        after == ActiveRequest::SetSpeed(speed),
        final(connection).packet_sizes() == old(connection).packet_sizes(),
{
}

/// A connection that is told of a failure ends with an error.
pub proof fn law_connection_ends_on_a_failure(
    connection: &mut ActiveConnection,
    before: ActiveRequest,
    after: ActiveRequest,
)
    requires
        call_ensures(ActiveConnection::request, (&*old(connection),), before),
        !(before is End),
        call_ensures(ActiveConnection::advance, (connection, ActiveReply::Failed), ()),
        call_ensures(ActiveConnection::request, (&*final(connection),), after),
    ensures
        after matches ActiveRequest::End(Ending::Failed(_)),
{
}

} // verus!
