//! The network task: bringing up the chip, waiting for a client, and what
//! happens when the connection ends.
use vstd::prelude::*;

use crate::active_connection::Ending;
use crate::angle::Angle;
use crate::chip::{
    configure_interrupts_active_con, configure_interrupts_pre_con, configure_w5500, Op, Socket,
    CMD_PORT,
};
use crate::constants::HEARTBEAT_MAX_ALLOWED_MS;
use crate::float32::Float32;
use crate::interrupts::{
    con_raised, conflict, timeout_raised, unreach, IR_CONFLICT, IR_UNREACH, SN_CON, SN_TIMEOUT,
};
use crate::messages::{NetworkStatus, TelemToPC};
use crate::network_error::NetworkError;
use crate::time::{Duration, Instant};

verus! {

/// Pause in milliseconds before the chip is set up again or a new connection
/// is waited for.
pub const RETRY_MS: u64 = 1000;

/// Pause in milliseconds between two looks at a socket that is closing.
pub const CLOSING_MS: u64 = 1;

/// Rate of the telemetry in Hz.
pub const TELEMETRY_HZ: u64 = 500;

/// Size of a telemetry packet on the wire: a tag and a number.
pub const TELEM_TO_PC_SIZE: usize = 5;

/// Where the network task is.
#[derive(Clone, Copy, Debug, PartialEq, Eq, Structural)]
pub enum NetworkPhase {
    /// Step of the first setup of the chip.
    Setup(usize),
    SetupFailed(NetworkError),
    Close,
    CheckClosed,
    Closing,
    AnnounceClosed,
    Listen,
    /// Step of the setup of the interrupts for waiting.
    PreCon(usize),
    WaitForClient,
    CheckConflict,
    ClearConflict,
    CheckUnreach,
    ClearUnreach,
    CheckCmd,
    ClearTimeout,
    ClearCon,
    AnnounceConnected,
    /// Step of the setup of the interrupts for the connection.
    ActiveCon(usize),
    /// The connection is served.
    Serve,
    AnnounceGoodbye,
    Aborted(NetworkError),
    Rest,
}

/// What is asked for.
#[derive(Clone, Copy, Debug, PartialEq, Eq, Structural)]
pub enum NetworkRequest {
    /// Operate the chip.
    Chip(Op),
    /// Let that many milliseconds pass.
    Sleep(u64),
    /// Report the status of the network.
    Announce(NetworkStatus),
    /// Wait for an interrupt.
    WaitForInterrupt,
    /// Check the client's pulse, serve its interrupts and push telemetry, until
    /// one of the three ends.
    Serve,
}

/// Which part of serving a connection ended, and how.
#[derive(Clone, Copy, Debug, PartialEq, Eq, Structural)]
pub enum ServeEnd {
    /// The client gave no sign of life for too long.
    PulseLost,
    /// The serving of interrupts ended.
    Interrupts(Ending),
    /// Telemetry stopped, with an error if there is one.
    Telemetry(Option<NetworkError>),
}

/// What came of a request.
#[derive(Clone, Copy, Debug, PartialEq, Eq, Structural)]
pub enum NetworkReply {
    Done,
    Failed,
    /// Value of a register.
    Register(u8),
    /// Whether the socket is closed.
    Closed(bool),
    /// The status of the socket has an unknown value.
    UnknownStatus,
    Served(ServeEnd),
}

/// What is asked for in a phase.
pub open spec fn spec_network_request(phase: NetworkPhase) -> NetworkRequest {
    match phase {
        NetworkPhase::Setup(i) => NetworkRequest::Chip(
            crate::chip::spec_configure_w5500()[i as int].0,
        ),
        NetworkPhase::SetupFailed(_) => NetworkRequest::Sleep(RETRY_MS),
        NetworkPhase::Close => NetworkRequest::Chip(Op::Close(Socket::Cmd)),
        NetworkPhase::CheckClosed => NetworkRequest::Chip(Op::ReadStatus(Socket::Cmd)),
        NetworkPhase::Closing => NetworkRequest::Sleep(CLOSING_MS),
        NetworkPhase::AnnounceClosed => NetworkRequest::Announce(NetworkStatus::Disconnected),
        NetworkPhase::Listen => NetworkRequest::Chip(Op::Listen(Socket::Cmd, CMD_PORT)),
        NetworkPhase::PreCon(i) => NetworkRequest::Chip(
            crate::chip::spec_configure_interrupts_pre_con()[i as int].0,
        ),
        NetworkPhase::WaitForClient => NetworkRequest::WaitForInterrupt,
        NetworkPhase::CheckConflict => NetworkRequest::Chip(Op::ReadIr),
        NetworkPhase::ClearConflict => NetworkRequest::Chip(Op::SetIr(IR_CONFLICT)),
        NetworkPhase::CheckUnreach => NetworkRequest::Chip(Op::ReadIr),
        NetworkPhase::ClearUnreach => NetworkRequest::Chip(Op::SetIr(IR_UNREACH)),
        NetworkPhase::CheckCmd => NetworkRequest::Chip(Op::ReadSocketIr(Socket::Cmd)),
        NetworkPhase::ClearTimeout => NetworkRequest::Chip(
            Op::SetSocketIr(Socket::Cmd, SN_TIMEOUT),
        ),
        NetworkPhase::ClearCon => NetworkRequest::Chip(Op::SetSocketIr(Socket::Cmd, SN_CON)),
        NetworkPhase::AnnounceConnected => NetworkRequest::Announce(NetworkStatus::Connected),
        NetworkPhase::ActiveCon(i) => NetworkRequest::Chip(
            crate::chip::spec_configure_interrupts_active_con()[i as int].0,
        ),
        NetworkPhase::Serve => NetworkRequest::Serve,
        NetworkPhase::AnnounceGoodbye => NetworkRequest::Announce(NetworkStatus::Disconnected),
        NetworkPhase::Aborted(_) => NetworkRequest::Announce(NetworkStatus::Disconnected),
        NetworkPhase::Rest => NetworkRequest::Sleep(RETRY_MS),
    }
}

/// The reply is one that the request of the phase can have.
pub open spec fn settles(phase: NetworkPhase, reply: NetworkReply) -> bool {
    match spec_network_request(phase) {
        NetworkRequest::Chip(op) => match op {
            Op::ReadIr => reply is Register || reply is Failed,
            Op::ReadSocketIr(_) => reply is Register || reply is Failed,
            Op::ReadStatus(_) => reply is Closed || reply is UnknownStatus || reply is Failed,
            _ => reply is Done || reply is Failed,
        },
        NetworkRequest::Sleep(_) => reply is Done,
        NetworkRequest::Announce(_) => reply is Done,
        NetworkRequest::WaitForInterrupt => reply is Done,
        NetworkRequest::Serve => reply is Served,
    }
}

/// How a served connection is left.
pub open spec fn spec_after_serving(end: ServeEnd) -> NetworkPhase {
    match end {
        ServeEnd::PulseLost => NetworkPhase::Aborted(NetworkError::NoHeartbeat),
        ServeEnd::Interrupts(Ending::Graceful) => NetworkPhase::AnnounceGoodbye,
        ServeEnd::Interrupts(Ending::Failed(error)) => NetworkPhase::Aborted(error),
        ServeEnd::Telemetry(None) => NetworkPhase::Aborted(NetworkError::PushTelemetry),
        ServeEnd::Telemetry(Some(error)) => NetworkPhase::Aborted(error),
    }
}

/// The next step of a setup, or what follows it.
pub open spec fn spec_setup_next(
    i: usize,
    length: nat,
    step: spec_fn(usize) -> NetworkPhase,
    after: NetworkPhase,
) -> NetworkPhase {
    if i + 1 < length {
        step((i + 1) as usize)
    } else {
        after
    }
}

/// The phase after a request that failed. Errors of the setup of interrupts
/// are passed over.
pub open spec fn spec_after_failure(phase: NetworkPhase) -> NetworkPhase {
    match phase {
        NetworkPhase::Setup(i) => NetworkPhase::SetupFailed(
            crate::chip::spec_configure_w5500()[i as int].1,
        ),
        NetworkPhase::PreCon(_) => NetworkPhase::WaitForClient,
        NetworkPhase::ActiveCon(_) => NetworkPhase::Serve,
        NetworkPhase::Close => NetworkPhase::Aborted(NetworkError::CloseCmd),
        NetworkPhase::CheckClosed => NetworkPhase::Aborted(NetworkError::StatusBus),
        NetworkPhase::Listen => NetworkPhase::Aborted(NetworkError::Listen),
        NetworkPhase::CheckConflict => NetworkPhase::Aborted(NetworkError::InterruptStatus),
        NetworkPhase::ClearConflict => NetworkPhase::Aborted(NetworkError::ClearConflict),
        NetworkPhase::CheckUnreach => NetworkPhase::Aborted(NetworkError::InterruptStatus),
        NetworkPhase::ClearUnreach => NetworkPhase::Aborted(NetworkError::ClearUnreach),
        NetworkPhase::CheckCmd => NetworkPhase::Aborted(NetworkError::CmdInterrupt),
        NetworkPhase::ClearTimeout => NetworkPhase::Aborted(NetworkError::ClearEarlyTimeout),
        NetworkPhase::ClearCon => NetworkPhase::Aborted(NetworkError::ClearConnection),
        _ => phase,
    }
}

/// The phase after a reply.
pub open spec fn spec_network_next(phase: NetworkPhase, reply: NetworkReply) -> NetworkPhase {
    match (phase, reply) {
        (_, NetworkReply::Failed) => spec_after_failure(phase),
        (NetworkPhase::Setup(i), _) => spec_setup_next(
            i,
            crate::chip::spec_configure_w5500().len(),
            |j: usize| NetworkPhase::Setup(j),
            NetworkPhase::Close,
        ),
        (NetworkPhase::SetupFailed(_), _) => NetworkPhase::Setup(0),
        (NetworkPhase::Close, _) => NetworkPhase::CheckClosed,
        (NetworkPhase::CheckClosed, NetworkReply::Closed(true)) => NetworkPhase::AnnounceClosed,
        (NetworkPhase::CheckClosed, NetworkReply::Closed(false)) => NetworkPhase::Closing,
        (NetworkPhase::CheckClosed, _) => NetworkPhase::Aborted(NetworkError::StatusConversion),
        (NetworkPhase::Closing, _) => NetworkPhase::CheckClosed,
        (NetworkPhase::AnnounceClosed, _) => NetworkPhase::Listen,
        (NetworkPhase::Listen, _) => NetworkPhase::PreCon(0),
        (NetworkPhase::PreCon(i), _) => spec_setup_next(
            i,
            crate::chip::spec_configure_interrupts_pre_con().len(),
            |j: usize| NetworkPhase::PreCon(j),
            NetworkPhase::WaitForClient,
        ),
        (NetworkPhase::WaitForClient, _) => NetworkPhase::CheckConflict,
        (NetworkPhase::CheckConflict, NetworkReply::Register(ir)) =>
            if crate::interrupts::raised(ir, IR_CONFLICT) {
                NetworkPhase::ClearConflict
            } else {
                NetworkPhase::CheckUnreach
            },
        (NetworkPhase::ClearConflict, _) => NetworkPhase::Aborted(NetworkError::IpConflict),
        (NetworkPhase::CheckUnreach, NetworkReply::Register(ir)) =>
            if crate::interrupts::raised(ir, IR_UNREACH) {
                NetworkPhase::ClearUnreach
            } else {
                NetworkPhase::CheckCmd
            },
        (NetworkPhase::ClearUnreach, _) => NetworkPhase::Aborted(NetworkError::Unreachable),
        (NetworkPhase::CheckCmd, NetworkReply::Register(sn_ir)) =>
            if crate::interrupts::raised(sn_ir, SN_TIMEOUT) {
                NetworkPhase::ClearTimeout
            } else if crate::interrupts::raised(sn_ir, SN_CON) {
                NetworkPhase::ClearCon
            } else {
                NetworkPhase::Aborted(NetworkError::NoConnection)
            },
        (NetworkPhase::ClearTimeout, _) => NetworkPhase::Aborted(NetworkError::CmdTimedOut),
        (NetworkPhase::ClearCon, _) => NetworkPhase::AnnounceConnected,
        (NetworkPhase::AnnounceConnected, _) => NetworkPhase::ActiveCon(0),
        (NetworkPhase::ActiveCon(i), _) => spec_setup_next(
            i,
            crate::chip::spec_configure_interrupts_active_con().len(),
            |j: usize| NetworkPhase::ActiveCon(j),
            NetworkPhase::Serve,
        ),
        (NetworkPhase::Serve, NetworkReply::Served(end)) => spec_after_serving(end),
        (NetworkPhase::AnnounceGoodbye, _) => NetworkPhase::Rest,
        (NetworkPhase::Aborted(_), _) => NetworkPhase::Rest,
        (NetworkPhase::Rest, _) => NetworkPhase::Close,
        _ => phase,
    }
}

/// The steps of the setups are counted within their lists.
pub open spec fn phase_is_valid(phase: NetworkPhase) -> bool {
    match phase {
        NetworkPhase::Setup(i) => i < crate::chip::spec_configure_w5500().len(),
        NetworkPhase::PreCon(i) => i < crate::chip::spec_configure_interrupts_pre_con().len(),
        NetworkPhase::ActiveCon(i) => i
            < crate::chip::spec_configure_interrupts_active_con().len(),
        _ => true,
    }
}

/// The network task. It sets up the chip, and then waits for one client after
/// another.
#[derive(Clone, Copy, Debug)]
pub struct NetworkTask {
    phase: NetworkPhase,
}

impl NetworkTask {
    #[verifier::type_invariant]
    spec fn valid(self) -> bool {
        phase_is_valid(self.phase)
    }

    pub closed spec fn at(self) -> NetworkPhase {
        self.phase
    }

    pub fn new() -> (r: NetworkTask)
        ensures
            r.at() == NetworkPhase::Setup(0),
    {
        NetworkTask { phase: NetworkPhase::Setup(0) }
    }

    /// The error that the task is about to recover from.
    pub fn error(&self) -> (e: Option<NetworkError>)
        ensures
            e == (match self.at() {
                NetworkPhase::SetupFailed(error) => Some(error),
                NetworkPhase::Aborted(error) => Some(error),
                _ => None,
            }),
    {
        match self.phase {
            NetworkPhase::SetupFailed(error) => Some(error),
            NetworkPhase::Aborted(error) => Some(error),
            _ => None,
        }
    }

    /// What is asked for.
    pub fn request(&self) -> (r: NetworkRequest)
        ensures
            r == spec_network_request(self.at()),
    {
        proof {
            use_type_invariant(self);
        }
        match self.phase {
            NetworkPhase::Setup(i) => NetworkRequest::Chip(configure_w5500(i).unwrap().0),
            NetworkPhase::SetupFailed(_) => NetworkRequest::Sleep(RETRY_MS),
            NetworkPhase::Close => NetworkRequest::Chip(Op::Close(Socket::Cmd)),
            NetworkPhase::CheckClosed => NetworkRequest::Chip(Op::ReadStatus(Socket::Cmd)),
            NetworkPhase::Closing => NetworkRequest::Sleep(CLOSING_MS),
            NetworkPhase::AnnounceClosed => NetworkRequest::Announce(NetworkStatus::Disconnected),
            NetworkPhase::Listen => NetworkRequest::Chip(Op::Listen(Socket::Cmd, CMD_PORT)),
            NetworkPhase::PreCon(i) => NetworkRequest::Chip(
                configure_interrupts_pre_con(i).unwrap().0,
            ),
            NetworkPhase::WaitForClient => NetworkRequest::WaitForInterrupt,
            NetworkPhase::CheckConflict => NetworkRequest::Chip(Op::ReadIr),
            NetworkPhase::ClearConflict => NetworkRequest::Chip(Op::SetIr(IR_CONFLICT)),
            NetworkPhase::CheckUnreach => NetworkRequest::Chip(Op::ReadIr),
            NetworkPhase::ClearUnreach => NetworkRequest::Chip(Op::SetIr(IR_UNREACH)),
            NetworkPhase::CheckCmd => NetworkRequest::Chip(Op::ReadSocketIr(Socket::Cmd)),
            NetworkPhase::ClearTimeout => NetworkRequest::Chip(
                Op::SetSocketIr(Socket::Cmd, SN_TIMEOUT),
            ),
            NetworkPhase::ClearCon => NetworkRequest::Chip(Op::SetSocketIr(Socket::Cmd, SN_CON)),
            NetworkPhase::AnnounceConnected => NetworkRequest::Announce(NetworkStatus::Connected),
            NetworkPhase::ActiveCon(i) => NetworkRequest::Chip(
                configure_interrupts_active_con(i).unwrap().0,
            ),
            NetworkPhase::Serve => NetworkRequest::Serve,
            NetworkPhase::AnnounceGoodbye => NetworkRequest::Announce(
                NetworkStatus::Disconnected,
            ),
            NetworkPhase::Aborted(_) => NetworkRequest::Announce(NetworkStatus::Disconnected),
            NetworkPhase::Rest => NetworkRequest::Sleep(RETRY_MS),
        }
    }

    /// Whether `advance` can take a reply: it is one that the request can have.
    pub fn can_advance(&self, reply: NetworkReply) -> (b: bool)
        ensures
            b == settles(self.at(), reply),
    {
        match (self.request(), reply) {
            (NetworkRequest::Chip(_), NetworkReply::Failed) => true,
            (NetworkRequest::Chip(Op::ReadIr), _) => is_register(reply),
            (NetworkRequest::Chip(Op::ReadSocketIr(_)), _) => is_register(reply),
            (NetworkRequest::Chip(Op::ReadStatus(_)), _) => match reply {
                NetworkReply::Closed(_) => true,
                NetworkReply::UnknownStatus => true,
                _ => false,
            },
            (NetworkRequest::Chip(_), NetworkReply::Done) => true,
            (NetworkRequest::Sleep(_), NetworkReply::Done) => true,
            (NetworkRequest::Announce(_), NetworkReply::Done) => true,
            (NetworkRequest::WaitForInterrupt, NetworkReply::Done) => true,
            (NetworkRequest::Serve, NetworkReply::Served(_)) => true,
            _ => false,
        }
    }

    fn after_failure(&self) -> (next: NetworkPhase)
        ensures
            next == spec_after_failure(self.at()),
    {
        proof {
            use_type_invariant(self);
        }
        match self.phase {
            NetworkPhase::Setup(i) => NetworkPhase::SetupFailed(configure_w5500(i).unwrap().1),
            NetworkPhase::PreCon(_) => NetworkPhase::WaitForClient,
            NetworkPhase::ActiveCon(_) => NetworkPhase::Serve,
            NetworkPhase::Close => NetworkPhase::Aborted(NetworkError::CloseCmd),
            NetworkPhase::CheckClosed => NetworkPhase::Aborted(NetworkError::StatusBus),
            NetworkPhase::Listen => NetworkPhase::Aborted(NetworkError::Listen),
            NetworkPhase::CheckConflict => NetworkPhase::Aborted(NetworkError::InterruptStatus),
            NetworkPhase::ClearConflict => NetworkPhase::Aborted(NetworkError::ClearConflict),
            NetworkPhase::CheckUnreach => NetworkPhase::Aborted(NetworkError::InterruptStatus),
            NetworkPhase::ClearUnreach => NetworkPhase::Aborted(NetworkError::ClearUnreach),
            NetworkPhase::CheckCmd => NetworkPhase::Aborted(NetworkError::CmdInterrupt),
            NetworkPhase::ClearTimeout => NetworkPhase::Aborted(NetworkError::ClearEarlyTimeout),
            NetworkPhase::ClearCon => NetworkPhase::Aborted(NetworkError::ClearConnection),
            phase => phase,
        }
    }

    /// Takes the reply to the request.
    pub fn advance(&mut self, reply: NetworkReply)
        requires
            settles(old(self).at(), reply),
        ensures
            final(self).at() == spec_network_next(old(self).at(), reply),
    {
        proof {
            use_type_invariant(&*self);
        }
        let next = match (self.phase, reply) {
            (_, NetworkReply::Failed) => self.after_failure(),
            (NetworkPhase::Setup(i), _) => match configure_w5500(i + 1) {
                Some(_) => NetworkPhase::Setup(i + 1),
                None => NetworkPhase::Close,
            },
            (NetworkPhase::SetupFailed(_), _) => NetworkPhase::Setup(0),
            (NetworkPhase::Close, _) => NetworkPhase::CheckClosed,
            (NetworkPhase::CheckClosed, NetworkReply::Closed(closed)) => {
                if closed {
                    NetworkPhase::AnnounceClosed
                } else {
                    NetworkPhase::Closing
                }
            },
            (NetworkPhase::CheckClosed, _) => NetworkPhase::Aborted(
                NetworkError::StatusConversion,
            ),
            (NetworkPhase::Closing, _) => NetworkPhase::CheckClosed,
            (NetworkPhase::AnnounceClosed, _) => NetworkPhase::Listen,
            (NetworkPhase::Listen, _) => NetworkPhase::PreCon(0),
            (NetworkPhase::PreCon(i), _) => match configure_interrupts_pre_con(i + 1) {
                Some(_) => NetworkPhase::PreCon(i + 1),
                None => NetworkPhase::WaitForClient,
            },
            (NetworkPhase::WaitForClient, _) => NetworkPhase::CheckConflict,
            (NetworkPhase::CheckConflict, NetworkReply::Register(ir)) => {
                if conflict(ir) {
                    NetworkPhase::ClearConflict
                } else {
                    NetworkPhase::CheckUnreach
                }
            },
            (NetworkPhase::ClearConflict, _) => NetworkPhase::Aborted(NetworkError::IpConflict),
            (NetworkPhase::CheckUnreach, NetworkReply::Register(ir)) => {
                if unreach(ir) {
                    NetworkPhase::ClearUnreach
                } else {
                    NetworkPhase::CheckCmd
                }
            },
            (NetworkPhase::ClearUnreach, _) => NetworkPhase::Aborted(NetworkError::Unreachable),
            (NetworkPhase::CheckCmd, NetworkReply::Register(cmd_ir)) => {
                if timeout_raised(cmd_ir) {
                    NetworkPhase::ClearTimeout
                } else if !con_raised(cmd_ir) {
                    NetworkPhase::Aborted(NetworkError::NoConnection)
                } else {
                    NetworkPhase::ClearCon
                }
            },
            (NetworkPhase::ClearTimeout, _) => NetworkPhase::Aborted(NetworkError::CmdTimedOut),
            (NetworkPhase::ClearCon, _) => NetworkPhase::AnnounceConnected,
            (NetworkPhase::AnnounceConnected, _) => NetworkPhase::ActiveCon(0),
            (NetworkPhase::ActiveCon(i), _) => match configure_interrupts_active_con(i + 1) {
                Some(_) => NetworkPhase::ActiveCon(i + 1),
                None => NetworkPhase::Serve,
            },
            (NetworkPhase::Serve, NetworkReply::Served(end)) => after_serving(end),
            (NetworkPhase::AnnounceGoodbye, _) => NetworkPhase::Rest,
            (NetworkPhase::Aborted(_), _) => NetworkPhase::Rest,
            (NetworkPhase::Rest, _) => NetworkPhase::Close,
            (phase, _) => phase,
        };
        *self = NetworkTask { phase: next };
    }
}

fn is_register(reply: NetworkReply) -> (b: bool)
    ensures
        b == (reply is Register),
{
    match reply {
        NetworkReply::Register(_) => true,
        _ => false,
    }
}

fn after_serving(end: ServeEnd) -> (next: NetworkPhase)
    ensures
        next == spec_after_serving(end),
{
    match end {
        ServeEnd::PulseLost => NetworkPhase::Aborted(NetworkError::NoHeartbeat),
        ServeEnd::Interrupts(Ending::Graceful) => NetworkPhase::AnnounceGoodbye,
        ServeEnd::Interrupts(Ending::Failed(error)) => NetworkPhase::Aborted(error),
        ServeEnd::Telemetry(None) => NetworkPhase::Aborted(NetworkError::PushTelemetry),
        ServeEnd::Telemetry(Some(error)) => NetworkPhase::Aborted(error),
    }
}

/// The status that the others were told last, where there was one.
pub open spec fn last_announced(phase: NetworkPhase, before: NetworkStatus) -> NetworkStatus {
    match phase {
        NetworkPhase::Listen | NetworkPhase::PreCon(_) | NetworkPhase::WaitForClient
        | NetworkPhase::CheckConflict | NetworkPhase::ClearConflict
        | NetworkPhase::CheckUnreach | NetworkPhase::ClearUnreach | NetworkPhase::CheckCmd
        | NetworkPhase::ClearTimeout | NetworkPhase::ClearCon | NetworkPhase::AnnounceConnected
        | NetworkPhase::Rest => NetworkStatus::Disconnected,
        NetworkPhase::ActiveCon(_) | NetworkPhase::Serve
        | NetworkPhase::AnnounceGoodbye => NetworkStatus::Connected,
        _ => before,
    }
}

/// The others are told the truth about the connection: while a client is
/// served they were told last that one is connected, and while one is waited
/// for, that none is.
pub proof fn law_announcements_are_true(
    phase: NetworkPhase,
    reply: NetworkReply,
    told: NetworkStatus,
)
    requires
        settles(phase, reply),
        told == last_announced(phase, told),
    ensures
        ({
            let next = spec_network_next(phase, reply);
            let told_next = match spec_network_request(phase) {
                NetworkRequest::Announce(status) => status,
                _ => told,
            };
            told_next == last_announced(next, told_next)
        }),
{
}

/// However serving a client ends, the next thing is to tell the others that no
/// client is connected, and a new client is waited for a second later.
pub proof fn law_every_ending_is_announced(end: ServeEnd)
    ensures
        ({
            let next = spec_network_next(NetworkPhase::Serve, NetworkReply::Served(end));
            let rest = spec_network_next(next, NetworkReply::Done);
            &&& spec_network_request(next) == NetworkRequest::Announce(
                NetworkStatus::Disconnected,
            )
            &&& spec_network_request(rest) == NetworkRequest::Sleep(RETRY_MS)
            &&& spec_network_next(rest, NetworkReply::Done) == NetworkPhase::Close
        }),
{
}

/// The steps of the setups stay within their lists.
pub proof fn law_phases_stay_valid(phase: NetworkPhase, reply: NetworkReply)
    requires
        phase_is_valid(phase),
        settles(phase, reply),
    ensures
        phase_is_valid(spec_network_next(phase, reply)),
{
}

/// A client is served only after its connection was acknowledged.
pub proof fn law_serving_needs_a_connection(phase: NetworkPhase, reply: NetworkReply)
    requires
        settles(phase, reply),
    ensures
        spec_network_next(phase, reply) is ActiveCon ==> phase is AnnounceConnected
            || phase is ActiveCon,
        spec_network_next(phase, reply) is AnnounceConnected ==> phase is ClearCon
            && reply is Done,
        spec_network_next(phase, reply) is ClearCon ==> phase is CheckCmd && (reply matches
            NetworkReply::Register(sn_ir) && crate::interrupts::raised(sn_ir, SN_CON)),
{
}

/// Whatever the chip refuses after its setup, the task recovers from: it
/// passes over the setup of interrupts, and tells the others of anything else
/// that no client is connected.
pub proof fn law_refusals_of_the_chip_are_recovered_from(phase: NetworkPhase)
    requires
        settles(phase, NetworkReply::Failed),
    ensures
        ({
            let next = spec_network_next(phase, NetworkReply::Failed);
            match phase {
                NetworkPhase::Setup(_) => next is SetupFailed,
                NetworkPhase::PreCon(_) => next is WaitForClient,
                NetworkPhase::ActiveCon(_) => next is Serve,
                _ => next is Aborted && spec_network_request(next) == NetworkRequest::Announce(
                    NetworkStatus::Disconnected,
                ),
            }
        }),
{
}

/// Every reply moves the task on to another phase.
pub proof fn law_every_reply_moves_the_task_on(phase: NetworkPhase, reply: NetworkReply)
    requires
        settles(phase, reply),
    ensures
        spec_network_next(phase, reply) != phase,
{
}

/// The check of the client's signs of life.
#[derive(Clone, Copy, Debug, PartialEq, Eq, Structural)]
pub struct PulseCheck {
    /// When the client is given up.
    pub deadline: Instant,
}

impl PulseCheck {
    /// Starts the check, or starts it over at a heartbeat.
    pub fn beat(now: Instant) -> (r: PulseCheck)
        requires
            now.ticks + HEARTBEAT_MAX_ALLOWED_MS * 1000 <= u64::MAX,
        ensures
            r.deadline.ticks == now.ticks + HEARTBEAT_MAX_ALLOWED_MS * 1000,
    {
        PulseCheck { deadline: now.plus(Duration::from_millis(HEARTBEAT_MAX_ALLOWED_MS)) }
    }

    /// Whether the client is given up at `now`.
    pub fn is_lost(&self, now: Instant) -> (b: bool)
        ensures
            b == (self.deadline.ticks <= now.ticks),
    {
        self.deadline.ticks <= now.ticks
    }
}

/// A client that gives a sign of life before half a second has passed is not
/// given up, and a silent one is.
pub proof fn law_silence_of_half_a_second_is_too_long(
    beat: Instant,
    pulse: PulseCheck,
    now: Instant,
)
    requires
        pulse.deadline.ticks == beat.ticks + HEARTBEAT_MAX_ALLOWED_MS * 1000,
    ensures
        pulse.deadline.ticks <= now.ticks <==> now.ticks - beat.ticks >= 500_000,
{
}

/// One period of the telemetry.
pub fn telemetry_period() -> (d: Duration)
    ensures
        d.ticks == 2_000,
{
    Duration::from_hz(TELEMETRY_HZ)
}

/// The telemetry packet for a position.
pub fn telemetry_packet(position: Angle) -> (t: TelemToPC)
    ensures
        t == TelemToPC::MotorPosition(Float32::spec_from_fixed(position.bits)),
{
    TelemToPC::MotorPosition(position.to_radians())
}

/// What came of sending a telemetry packet.
#[derive(Clone, Copy, Debug, PartialEq, Eq, Structural)]
pub enum Sent {
    /// The packet could not be put into bytes.
    NotSerialized,
    /// The packet could not be sent.
    NotSent,
    /// That many bytes were sent.
    Bytes(u16),
}

/// Whether telemetry goes on, or with what error it ends.
pub fn push_telemetry(sent: Sent) -> (r: Result<(), NetworkError>)
    ensures
        r == (match sent {
            Sent::NotSerialized => Err::<(), NetworkError>(NetworkError::SerializeTelem),
            Sent::NotSent => Err(NetworkError::SendTelem),
            Sent::Bytes(n) => if n == TELEM_TO_PC_SIZE {
                Ok(())
            } else {
                Err(NetworkError::TelemSizeMismatch)
            },
        }),
{
    match sent {
        Sent::NotSerialized => Err(NetworkError::SerializeTelem),
        Sent::NotSent => Err(NetworkError::SendTelem),
        Sent::Bytes(n) => {
            if n as usize != TELEM_TO_PC_SIZE {
                Err(NetworkError::TelemSizeMismatch)
            } else {
                Ok(())
            }
        },
    }
}

/// The task goes through `tasks` while it gets `replies`, and asks for
/// `requests`.
pub open spec fn is_run(
    tasks: Seq<NetworkTask>,
    replies: Seq<NetworkReply>,
    requests: Seq<NetworkRequest>,
) -> bool {
    &&& tasks.len() == requests.len()
    &&& tasks.len() == replies.len() + 1
    &&& phase_is_valid(tasks[0].at())
    &&& forall|i: int|
        0 <= i < tasks.len() ==> #[trigger] call_ensures(
            NetworkTask::request,
            (&tasks[i],),
            requests[i],
        )
    &&& forall|i: int|
        0 <= i < replies.len() ==> settles(tasks[i].at(), #[trigger] replies[i])
            && tasks[i + 1].at() == spec_network_next(tasks[i].at(), replies[i])
}

/// The last interrupt mask that was requested for the command socket.
pub open spec fn last_cmd_mask(requests: Seq<NetworkRequest>) -> Option<u8>
    decreases requests.len(),
{
    if requests.len() == 0 {
        None
    } else {
        match requests.last() {
            NetworkRequest::Chip(Op::SetSocketImr(Socket::Cmd, mask)) => Some(mask),
            _ => last_cmd_mask(requests.drop_last()),
        }
    }
}

/// The last mask of the sockets that was requested.
pub open spec fn last_socket_mask(requests: Seq<NetworkRequest>) -> Option<u8>
    decreases requests.len(),
{
    if requests.len() == 0 {
        None
    } else {
        match requests.last() {
            NetworkRequest::Chip(Op::SetSimr(mask)) => Some(mask),
            _ => last_socket_mask(requests.drop_last()),
        }
    }
}

/// On every path from listening to waiting for a client on which nothing
/// failed, the last mask that was requested for the command socket lets a
/// connection (bit 0) and a timeout (bit 3) through and nothing else, and only
/// the command socket is enabled. What was raised before is cleared first.
pub proof fn law_waiting_lets_a_connection_through(
    tasks: Seq<NetworkTask>,
    replies: Seq<NetworkReply>,
    requests: Seq<NetworkRequest>,
)
    requires
        is_run(tasks, replies, requests),
        requests[0] == NetworkRequest::Chip(Op::Listen(Socket::Cmd, 15397)),
        requests.last() is WaitForInterrupt,
        forall|i: int|
            0 <= i < requests.len() - 1 ==> !(#[trigger] requests[i] is WaitForInterrupt),
        forall|i: int| 0 <= i < replies.len() ==> !(#[trigger] replies[i] is Failed),
    ensures
        last_cmd_mask(requests) matches Some(mask) && mask & 0x01 != 0 && mask & 0x08 != 0 && mask
            & 0x16 == 0,
        last_socket_mask(requests) == Some(0x01u8),
        requests.contains(NetworkRequest::Chip(Op::SetIr(0xc0))),
        requests.contains(NetworkRequest::Chip(Op::SetImr(0xc0))),
        requests.contains(NetworkRequest::Chip(Op::SetSocketIr(Socket::Cmd, 0xe9))),
{
    assert(0xe9u8 & 0x01 != 0 && 0xe9u8 & 0x08 != 0 && 0xe9u8 & 0x16 == 0) by (bit_vector);
    lemma_run_is_determined(tasks, replies, requests, 0);
    let n = requests.len();
    assert(tasks[0].at() is Listen);
    lemma_pre_con_run(tasks, replies, requests, 1);
    lemma_pre_con_run(tasks, replies, requests, 2);
    lemma_pre_con_run(tasks, replies, requests, 3);
    lemma_pre_con_run(tasks, replies, requests, 4);
    lemma_pre_con_run(tasks, replies, requests, 5);
    lemma_pre_con_run(tasks, replies, requests, 6);
    lemma_run_is_determined(tasks, replies, requests, 1);
    lemma_run_is_determined(tasks, replies, requests, 2);
    lemma_run_is_determined(tasks, replies, requests, 3);
    lemma_run_is_determined(tasks, replies, requests, 4);
    lemma_run_is_determined(tasks, replies, requests, 5);
    lemma_run_is_determined(tasks, replies, requests, 6);
    assert(requests[6] is WaitForInterrupt);
    assert(n == 7);
    reveal_with_fuel(last_cmd_mask, 8);
    reveal_with_fuel(last_socket_mask, 8);
    assert(requests[1] == NetworkRequest::Chip(Op::SetIr(0xc0)));
    assert(requests[2] == NetworkRequest::Chip(Op::SetImr(0xc0)));
    assert(requests[4] == NetworkRequest::Chip(Op::SetSocketIr(Socket::Cmd, 0xe9)));
}

/// Each request of a run is that of its phase, and each phase follows from the
/// one before.
proof fn lemma_run_is_determined(
    tasks: Seq<NetworkTask>,
    replies: Seq<NetworkReply>,
    requests: Seq<NetworkRequest>,
    i: int,
)
    requires
        is_run(tasks, replies, requests),
        0 <= i < requests.len(),
    ensures
        requests[i] == spec_network_request(tasks[i].at()),
        i + 1 < requests.len() ==> settles(tasks[i].at(), replies[i]) && tasks[i + 1].at()
            == spec_network_next(tasks[i].at(), replies[i]),
{
    assert(call_ensures(NetworkTask::request, (&tasks[i],), requests[i]));
    if i + 1 < requests.len() {
        assert(settles(tasks[i].at(), replies[i]));
    }
}

/// Phases from listening to waiting for a client.
proof fn lemma_pre_con_run(
    tasks: Seq<NetworkTask>,
    replies: Seq<NetworkReply>,
    requests: Seq<NetworkRequest>,
    i: int,
)
    requires
        is_run(tasks, replies, requests),
        tasks[0].at() is Listen,
        requests.last() is WaitForInterrupt,
        forall|i: int| 0 <= i < replies.len() ==> !(#[trigger] replies[i] is Failed),
        0 <= i <= 6,
    ensures
        i < requests.len(),
        tasks[i].at() == (if i == 0 {
            NetworkPhase::Listen
        } else if i <= 5 {
            NetworkPhase::PreCon((i - 1) as usize)
        } else {
            NetworkPhase::WaitForClient
        }),
    decreases i,
{
    if i > 0 {
        lemma_pre_con_run(tasks, replies, requests, i - 1);
        lemma_run_is_determined(tasks, replies, requests, i - 1);
        if i == requests.len() {
            assert(requests.last() == requests[i - 1]);
        }
        assert(!(replies[i - 1] is Failed));
    }
}

/// The chip is brought up with its addresses, its MAC address and the UDP port;
/// then the command socket is closed.
pub proof fn law_chip_is_brought_up(task: NetworkTask, error: NetworkError)
    requires
        call_ensures(NetworkTask::new, (), task),
    ensures
        ({
            let p0 = task.at();
            let p1 = spec_network_next(p0, NetworkReply::Done);
            let p2 = spec_network_next(p1, NetworkReply::Done);
            let p3 = spec_network_next(p2, NetworkReply::Done);
            let p4 = spec_network_next(p3, NetworkReply::Done);
            let p5 = spec_network_next(p4, NetworkReply::Done);
            &&& spec_network_request(p0) == NetworkRequest::Chip(
                Op::SetSourceIp(crate::chip::Ipv4 { a: 192, b: 168, c: 1, d: 20 }),
            )
            &&& spec_network_request(p1) == NetworkRequest::Chip(
                Op::SetGateway(crate::chip::Ipv4 { a: 192, b: 168, c: 1, d: 1 }),
            )
            &&& spec_network_request(p2) == NetworkRequest::Chip(
                Op::SetSubnet(crate::chip::Ipv4 { a: 255, b: 255, c: 255, d: 0 }),
            )
            &&& spec_network_request(p3) == NetworkRequest::Chip(
                Op::SetMac(
                    crate::chip::Mac { a: 0x02, b: 0x00, c: 0x11, d: 0x22, e: 0x33, f: 0x44 },
                ),
            )
            &&& spec_network_request(p4) == NetworkRequest::Chip(Op::UdpBind(Socket::Telem, 15509))
            &&& spec_network_request(p5) == NetworkRequest::Chip(Op::Close(Socket::Cmd))
            // Whatever fails, the bring-up starts over a second later.
            &&& spec_network_next(p0, NetworkReply::Failed) == NetworkPhase::SetupFailed(
                NetworkError::SetStaticIp,
            )
            &&& spec_network_next(p1, NetworkReply::Failed) == NetworkPhase::SetupFailed(
                NetworkError::SetGateway,
            )
            &&& spec_network_next(p2, NetworkReply::Failed) == NetworkPhase::SetupFailed(
                NetworkError::SetSubnet,
            )
            &&& spec_network_next(p3, NetworkReply::Failed) == NetworkPhase::SetupFailed(
                NetworkError::SetMacAddress,
            )
            &&& spec_network_next(p4, NetworkReply::Failed) == NetworkPhase::SetupFailed(
                NetworkError::BindUdp,
            )
        }),
        spec_network_request(NetworkPhase::SetupFailed(error)) == NetworkRequest::Sleep(1000),
        spec_network_next(NetworkPhase::SetupFailed(error), NetworkReply::Done) == task.at(),
{
}

/// The command socket is closed before a client is listened for: its status is
/// read every millisecond until it is closed, and the others are told that no
/// client is connected.
pub proof fn law_socket_is_closed_before_listening(phase: NetworkPhase)
    requires
        phase_is_valid(phase),
        spec_network_request(phase) == NetworkRequest::Chip(Op::Close(Socket::Cmd)),
    ensures
        ({
            let check = spec_network_next(phase, NetworkReply::Done);
            let closed = spec_network_next(check, NetworkReply::Closed(true));
            let listen = spec_network_next(closed, NetworkReply::Done);
            let open = spec_network_next(check, NetworkReply::Closed(false));
            &&& spec_network_request(check) == NetworkRequest::Chip(Op::ReadStatus(Socket::Cmd))
            &&& spec_network_request(closed) == NetworkRequest::Announce(
                NetworkStatus::Disconnected,
            )
            &&& spec_network_request(listen) == NetworkRequest::Chip(
                Op::Listen(Socket::Cmd, 15397),
            )
            &&& spec_network_request(open) == NetworkRequest::Sleep(1)
            &&& spec_network_next(open, NetworkReply::Done) == check
            &&& spec_network_next(check, NetworkReply::UnknownStatus) == NetworkPhase::Aborted(
                NetworkError::StatusConversion,
            )
            &&& spec_network_next(phase, NetworkReply::Failed) == NetworkPhase::Aborted(
                NetworkError::CloseCmd,
            )
            &&& spec_network_next(check, NetworkReply::Failed) == NetworkPhase::Aborted(
                NetworkError::StatusBus,
            )
            &&& spec_network_next(listen, NetworkReply::Failed) == NetworkPhase::Aborted(
                NetworkError::Listen,
            )
        }),
{
}

/// What an interrupt means while a client is waited for. An address conflict
/// (bit 7 of the first reading of the chip's register), an unreachable host
/// (bit 6 of the second one) and a timeout (bit 3 of the socket's register) are
/// cleared and end the attempt, and so does an interrupt without a connection
/// (bit 0).
pub proof fn law_interrupts_while_waiting(phase: NetworkPhase, ir: u8, again: u8, sn_ir: u8)
    requires
        phase_is_valid(phase),
        spec_network_request(phase) is WaitForInterrupt,
    ensures
        ({
            let check = spec_network_next(phase, NetworkReply::Done);
            let second = spec_network_next(check, NetworkReply::Register(ir));
            let socket = spec_network_next(second, NetworkReply::Register(again));
            let found = spec_network_next(socket, NetworkReply::Register(sn_ir));
            &&& spec_network_request(check) == NetworkRequest::Chip(Op::ReadIr)
            &&& spec_network_next(check, NetworkReply::Failed) == NetworkPhase::Aborted(
                NetworkError::InterruptStatus,
            )
            &&& if ir & 0x80 != 0 {
                &&& spec_network_request(second) == NetworkRequest::Chip(Op::SetIr(0x80))
                &&& spec_network_next(second, NetworkReply::Done) == NetworkPhase::Aborted(
                    NetworkError::IpConflict,
                )
                &&& spec_network_next(second, NetworkReply::Failed) == NetworkPhase::Aborted(
                    NetworkError::ClearConflict,
                )
            } else {
                &&& spec_network_request(second) == NetworkRequest::Chip(Op::ReadIr)
                &&& spec_network_next(second, NetworkReply::Failed) == NetworkPhase::Aborted(
                    NetworkError::InterruptStatus,
                )
                &&& if again & 0x40 != 0 {
                    &&& spec_network_request(socket) == NetworkRequest::Chip(Op::SetIr(0x40))
                    &&& spec_network_next(socket, NetworkReply::Done) == NetworkPhase::Aborted(
                        NetworkError::Unreachable,
                    )
                    &&& spec_network_next(socket, NetworkReply::Failed) == NetworkPhase::Aborted(
                        NetworkError::ClearUnreach,
                    )
                } else {
                    &&& spec_network_request(socket) == NetworkRequest::Chip(
                        Op::ReadSocketIr(Socket::Cmd),
                    )
                    &&& spec_network_next(socket, NetworkReply::Failed) == NetworkPhase::Aborted(
                        NetworkError::CmdInterrupt,
                    )
                    &&& sn_ir & 0x08 != 0 ==> spec_network_request(found) == NetworkRequest::Chip(
                        Op::SetSocketIr(Socket::Cmd, 0x08),
                    ) && spec_network_next(found, NetworkReply::Done) == NetworkPhase::Aborted(
                        NetworkError::CmdTimedOut,
                    ) && spec_network_next(found, NetworkReply::Failed) == NetworkPhase::Aborted(
                        NetworkError::ClearEarlyTimeout,
                    )
                    &&& sn_ir & 0x08 == 0 && sn_ir & 0x01 == 0 ==> found == NetworkPhase::Aborted(
                        NetworkError::NoConnection,
                    )
                    &&& sn_ir & 0x08 == 0 && sn_ir & 0x01 != 0 ==> spec_network_request(found)
                        == NetworkRequest::Chip(Op::SetSocketIr(Socket::Cmd, 0x01))
                        && spec_network_request(spec_network_next(found, NetworkReply::Done))
                        == NetworkRequest::Announce(NetworkStatus::Connected)
                        && spec_network_next(found, NetworkReply::Failed)
                        == NetworkPhase::Aborted(NetworkError::ClearConnection)
                }
            }
        }),
{
}

/// After the others were told of a client, the interrupts of the chip and of
/// both sockets are set up for it and then it is served. A step that fails ends
/// the setup early.
pub proof fn law_connection_is_set_up_and_served(phase: NetworkPhase)
    requires
        phase_is_valid(phase),
        spec_network_request(phase) == NetworkRequest::Announce(NetworkStatus::Connected),
    ensures
        ({
            let p0 = spec_network_next(phase, NetworkReply::Done);
            let p1 = spec_network_next(p0, NetworkReply::Done);
            let p2 = spec_network_next(p1, NetworkReply::Done);
            let p3 = spec_network_next(p2, NetworkReply::Done);
            let p4 = spec_network_next(p3, NetworkReply::Done);
            let p5 = spec_network_next(p4, NetworkReply::Done);
            let p6 = spec_network_next(p5, NetworkReply::Done);
            let p7 = spec_network_next(p6, NetworkReply::Done);
            &&& spec_network_request(p0) == NetworkRequest::Chip(Op::SetIr(0xc0))
            &&& spec_network_request(p1) == NetworkRequest::Chip(Op::SetImr(0xc0))
            &&& spec_network_request(p2) == NetworkRequest::Chip(Op::SetSimr(0x03))
            &&& spec_network_request(p3) == NetworkRequest::Chip(
                Op::SetSocketIr(Socket::Cmd, 0xee),
            )
            &&& spec_network_request(p4) == NetworkRequest::Chip(
                Op::SetSocketImr(Socket::Cmd, 0xee),
            )
            &&& spec_network_request(p5) == NetworkRequest::Chip(
                Op::SetSocketIr(Socket::Telem, 0xec),
            )
            &&& spec_network_request(p6) == NetworkRequest::Chip(
                Op::SetSocketImr(Socket::Telem, 0xec),
            )
            &&& spec_network_request(p7) is Serve
            &&& spec_network_next(p0, NetworkReply::Failed) == p7
            &&& spec_network_next(p1, NetworkReply::Failed) == p7
            &&& spec_network_next(p2, NetworkReply::Failed) == p7
            &&& spec_network_next(p3, NetworkReply::Failed) == p7
            &&& spec_network_next(p4, NetworkReply::Failed) == p7
            &&& spec_network_next(p5, NetworkReply::Failed) == p7
            &&& spec_network_next(p6, NetworkReply::Failed) == p7
        }),
{
}

/// While the interrupts for waiting are set up, a step that fails ends the
/// setup early, too.
pub proof fn law_failed_setup_still_waits(phase: NetworkPhase)
    requires
        phase_is_valid(phase),
        spec_network_request(phase) == NetworkRequest::Chip(Op::Listen(Socket::Cmd, 15397)),
    ensures
        ({
            let p0 = spec_network_next(phase, NetworkReply::Done);
            let p1 = spec_network_next(p0, NetworkReply::Done);
            let p2 = spec_network_next(p1, NetworkReply::Done);
            let p3 = spec_network_next(p2, NetworkReply::Done);
            let p4 = spec_network_next(p3, NetworkReply::Done);
            let p5 = spec_network_next(p4, NetworkReply::Done);
            &&& spec_network_request(p5) is WaitForInterrupt
            &&& spec_network_next(p0, NetworkReply::Failed) == p5
            &&& spec_network_next(p1, NetworkReply::Failed) == p5
            &&& spec_network_next(p2, NetworkReply::Failed) == p5
            &&& spec_network_next(p3, NetworkReply::Failed) == p5
            &&& spec_network_next(p4, NetworkReply::Failed) == p5
        }),
{
}

/// How a served connection ended is what is recovered from, and in every case
/// the others are told that no client is connected; a second later the socket
/// is closed and the next client is waited for.
pub proof fn law_served_connection_is_left(phase: NetworkPhase, end: ServeEnd, error: NetworkError)
    requires
        phase_is_valid(phase),
        spec_network_request(phase) is Serve,
    ensures
        ({
            let left = spec_network_next(phase, NetworkReply::Served(end));
            let rest = spec_network_next(left, NetworkReply::Done);
            &&& spec_network_request(left) == NetworkRequest::Announce(NetworkStatus::Disconnected)
            &&& spec_network_request(rest) == NetworkRequest::Sleep(1000)
            &&& spec_network_request(spec_network_next(rest, NetworkReply::Done))
                == NetworkRequest::Chip(Op::Close(Socket::Cmd))
            &&& end is PulseLost ==> left == NetworkPhase::Aborted(NetworkError::NoHeartbeat)
            &&& end == ServeEnd::Interrupts(Ending::Graceful) ==> !(left is Aborted)
            &&& end == ServeEnd::Interrupts(Ending::Failed(error)) ==> left
                == NetworkPhase::Aborted(error)
            &&& end == ServeEnd::Telemetry(None) ==> left == NetworkPhase::Aborted(
                NetworkError::PushTelemetry,
            )
            &&& end == ServeEnd::Telemetry(Some(error)) ==> left == NetworkPhase::Aborted(error)
        }),
{
}

/// After an attempt was given up the others are told that no client is
/// connected, and a second later the socket is closed and the next client is
/// waited for.
pub proof fn law_aborted_attempt_is_announced_and_retried(error: NetworkError)
    ensures
        ({
            let rest = spec_network_next(NetworkPhase::Aborted(error), NetworkReply::Done);
            &&& spec_network_request(NetworkPhase::Aborted(error)) == NetworkRequest::Announce(
                NetworkStatus::Disconnected,
            )
            &&& spec_network_request(rest) == NetworkRequest::Sleep(1000)
            &&& spec_network_request(spec_network_next(rest, NetworkReply::Done))
                == NetworkRequest::Chip(Op::Close(Socket::Cmd))
        }),
{
}

/// Which replies a request can have.
pub proof fn law_replies_to_the_network_task(
    task: NetworkTask,
    request: NetworkRequest,
    reply: NetworkReply,
    takes: bool,
)
    requires
        call_ensures(NetworkTask::request, (&task,), request),
        call_ensures(NetworkTask::can_advance, (&task, reply), takes),
    ensures
        reply is Failed ==> (takes <==> request is Chip),
        reply is Served ==> (takes <==> request is Serve),
        reply is Register ==> (takes <==> (request == NetworkRequest::Chip(Op::ReadIr) || (request
            matches NetworkRequest::Chip(Op::ReadSocketIr(_))))),
        reply is Closed || reply is UnknownStatus ==> (takes <==> (request matches
            NetworkRequest::Chip(Op::ReadStatus(_)))),
        reply is Done && !(request is Chip) ==> (takes <==> !(request is Serve)),
        request matches NetworkRequest::Chip(op) ==> (reply is Done ==> (takes <==> !(op is ReadIr
            || op is ReadSocketIr || op is ReadStatus))),
{
}

/// A client is given up exactly when half a second has passed since its last
/// sign of life.
pub proof fn law_client_is_given_up_after_half_a_second(
    beat: Instant,
    now: Instant,
    pulse: PulseCheck,
    lost: bool,
)
    requires
        beat.ticks + 500_000 <= u64::MAX,
        call_ensures(PulseCheck::beat, (beat,), pulse),
        call_ensures(PulseCheck::is_lost, (&pulse, now), lost),
    ensures
        lost <==> now.ticks - beat.ticks >= 500_000,
{
}

/// Telemetry reports the position as the number of radians nearest to it, five
/// hundred times a second, and goes on as long as packets of five bytes are
/// sent.
pub proof fn law_telemetry_reports_the_position(
    position: Angle,
    packet: TelemToPC,
    period: Duration,
    sent: Sent,
    r: Result<(), NetworkError>,
)
    requires
        call_ensures(telemetry_packet, (position,), packet),
        call_ensures(telemetry_period, (), period),
        call_ensures(push_telemetry, (sent,), r),
    ensures
        packet matches TelemToPC::MotorPosition(x) && x.is_negative() == (position.bits < 0)
            && crate::rounding::is_nearest(
            x.magnitude(),
            crate::float32::magnitude_of(position.bits as int)
                * vstd::arithmetic::power2::pow2(117),
            1,
        ),
        period.ticks * 500 == 1_000_000,
        r is Ok <==> sent == Sent::Bytes(5),
        sent is NotSerialized ==> r == Err::<(), NetworkError>(NetworkError::SerializeTelem),
        sent is NotSent ==> r == Err::<(), NetworkError>(NetworkError::SendTelem),
        sent is Bytes && sent != Sent::Bytes(5) ==> r == Err::<(), NetworkError>(
            NetworkError::TelemSizeMismatch,
        ),
{
    let (n, q) = (
        crate::float32::magnitude_of(position.bits as int),
        vstd::arithmetic::power2::pow2(117) as int,
    );
    vstd::arithmetic::power2::lemma_pow2_pos(117);
    assert(n * q >= 0) by (nonlinear_arith)
        requires
            n >= 0,
            q > 0,
    ;
    crate::rounding::lemma_rounded_is_nearest(n * q, 1);
}

/// However a client was served, the task asks next to announce that none is
/// connected.
pub proof fn law_task_announces_the_end(
    task: &mut NetworkTask,
    end: ServeEnd,
    before: NetworkRequest,
    after: NetworkRequest,
)
    requires
        phase_is_valid(old(task).at()),
        call_ensures(NetworkTask::request, (&*old(task),), before),
        before is Serve,
        call_ensures(NetworkTask::advance, (task, NetworkReply::Served(end)), ()),
        call_ensures(NetworkTask::request, (&*final(task),), after),
    ensures
        after == NetworkRequest::Announce(NetworkStatus::Disconnected),
{
}

/// A task that has announced a client sets up the chip for it, and one that was
/// refused by the chip while it did so serves the client all the same.
pub proof fn law_task_serves_a_client_that_was_announced(
    task: &mut NetworkTask,
    next: &mut NetworkTask,
    before: NetworkRequest,
    setup: NetworkRequest,
    after: NetworkRequest,
)
    requires
        phase_is_valid(old(task).at()),
        call_ensures(NetworkTask::request, (&*old(task),), before),
        before == NetworkRequest::Announce(NetworkStatus::Connected),
        call_ensures(NetworkTask::advance, (task, NetworkReply::Done), ()),
        call_ensures(NetworkTask::request, (&*final(task),), setup),
        *old(next) == *final(task),
        call_ensures(NetworkTask::advance, (next, NetworkReply::Failed), ()),
        call_ensures(NetworkTask::request, (&*final(next),), after),
    ensures
        setup == NetworkRequest::Chip(Op::SetIr(0xc0)),
        after is Serve,
{
}

} // verus!
