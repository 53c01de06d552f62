use servo_reg::active_connection::ActiveReply::{Bytes, Cmd, Done, Failed, Register, Telem};
use servo_reg::active_connection::{
    ActiveConnection, ActiveReply, ActiveRequest, Ending, PacketSizes,
};
use servo_reg::angle::Angle;
use servo_reg::chip::{
    configure_interrupts_active_con, configure_interrupts_pre_con, configure_w5500, pc_addr, Ipv4,
    Mac, Op, Socket, BOTH_SOCKETS, CHIP_MASK, CMD_ACTIVE_MASK, CMD_WAITING_MASK, TELEM_ACTIVE_MASK,
};
use servo_reg::float32::Float32;
use servo_reg::interrupts::{
    CMD_SOCKET_BIT, IR_CONFLICT, IR_UNREACH, SN_ALL_MASKED, SN_CON, SN_DISCON, SN_RECV, SN_TIMEOUT,
    TELEM_SOCKET_BIT,
};
use servo_reg::messages::{CmdFromPC, NetworkStatus, TelemFromPC, TelemToPC};
use servo_reg::network::{
    push_telemetry, telemetry_packet, telemetry_period, NetworkReply, NetworkRequest, NetworkTask,
    PulseCheck, Sent, ServeEnd, TELEM_TO_PC_SIZE,
};
use servo_reg::network_error::NetworkError;
use servo_reg::time::Instant;

use w5500_ll::{Interrupt, Sn, SocketInterrupt, SocketInterruptMask};

const SIZES: PacketSizes = PacketSizes { cmd: 8, telem: 6 };

fn number(x: f32) -> Float32 {
    Float32 { bits: x.to_bits() }
}

fn drive(replies: &[ActiveReply]) -> ActiveConnection {
    let mut c = ActiveConnection::new(SIZES);
    for &r in replies {
        c.advance(r);
    }
    c
}

fn failed(e: NetworkError) -> ActiveRequest {
    ActiveRequest::End(Ending::Failed(e))
}

/// A task that is waiting for an answer in the phase after these replies.
fn task(replies: &[NetworkReply]) -> NetworkTask {
    let mut t = NetworkTask::new();
    for &r in replies {
        t.advance(r);
    }
    t
}

const DONE: NetworkReply = NetworkReply::Done;

fn brought_up() -> Vec<NetworkReply> {
    vec![DONE; 5]
}

fn listening() -> Vec<NetworkReply> {
    let mut v = brought_up();
    v.extend([DONE, NetworkReply::Closed(true), DONE]);
    v
}

fn waiting() -> Vec<NetworkReply> {
    let mut v = listening();
    v.push(DONE);
    v.extend(vec![DONE; 5]);
    v
}

fn connected() -> Vec<NetworkReply> {
    let mut v = waiting();
    v.extend([
        DONE,
        NetworkReply::Register(0),
        NetworkReply::Register(0),
        NetworkReply::Register(SN_CON),
    ]);
    v
}

fn serving() -> Vec<NetworkReply> {
    let mut v = connected();
    v.extend([DONE, DONE]);
    v.extend(vec![DONE; 7]);
    v
}

fn with(mut v: Vec<NetworkReply>, more: &[NetworkReply]) -> NetworkTask {
    v.extend_from_slice(more);
    task(&v)
}

#[test]
fn register_values_are_those_of_the_chip() {
    let ir = Interrupt::DEFAULT;
    assert_eq!(IR_CONFLICT, u8::from(ir.set_conflict()));
    assert_eq!(IR_UNREACH, u8::from(ir.set_unreach()));
    assert_eq!(0, u8::from(ir.clear_unreach()));
    assert_eq!(CHIP_MASK, u8::from(ir.set_conflict().set_unreach()));
    let sir = SocketInterrupt::DEFAULT;
    assert_eq!(SN_CON, u8::from(sir.clear_con()));
    assert_eq!(SN_DISCON, u8::from(sir.clear_discon()));
    assert_eq!(SN_RECV, u8::from(sir.clear_recv()));
    assert_eq!(SN_TIMEOUT, u8::from(sir.clear_timeout()));
    assert_eq!(SN_TIMEOUT, SocketInterrupt::TIMEOUT_MASK);
    let none = SocketInterruptMask::ALL_MASKED;
    assert_eq!(SN_ALL_MASKED, u8::from(none));
    assert_eq!(CMD_WAITING_MASK, u8::from(none.unmask_con().unmask_timeout()));
    assert_eq!(
        CMD_ACTIVE_MASK,
        u8::from(none.unmask_discon().unmask_recv().unmask_timeout())
    );
    assert_eq!(TELEM_ACTIVE_MASK, u8::from(none.unmask_recv().unmask_timeout()));
    assert_eq!(CMD_SOCKET_BIT, Sn::Sn0.bitmask());
    assert_eq!(TELEM_SOCKET_BIT, Sn::Sn1.bitmask());
    assert_eq!(BOTH_SOCKETS, Sn::Sn0.bitmask() | Sn::Sn1.bitmask());
}

#[test]
fn chip_is_set_up() {
    let ip = |d: u8| Ipv4 { a: 192, b: 168, c: 1, d };
    let steps: Vec<(Op, NetworkError)> = (0..9).filter_map(configure_w5500).collect();
    assert_eq!(
        steps,
        vec![
            (Op::SetSourceIp(ip(20)), NetworkError::SetStaticIp),
            (Op::SetGateway(ip(1)), NetworkError::SetGateway),
            (
                Op::SetSubnet(Ipv4 { a: 255, b: 255, c: 255, d: 0 }),
                NetworkError::SetSubnet
            ),
            (
                Op::SetMac(Mac { a: 0x02, b: 0x00, c: 0x11, d: 0x22, e: 0x33, f: 0x44 }),
                NetworkError::SetMacAddress
            ),
            (Op::UdpBind(Socket::Telem, 15509), NetworkError::BindUdp),
        ]
    );
    assert_eq!(pc_addr(), ip(10));
}

#[test]
fn interrupts_are_set_up() {
    let ops: Vec<Op> = (0..9).filter_map(configure_interrupts_pre_con).map(|s| s.0).collect();
    assert_eq!(
        ops,
        vec![
            Op::SetIr(0xc0),
            Op::SetImr(0xc0),
            Op::SetSimr(1),
            Op::SetSocketIr(Socket::Cmd, 0xe9),
            Op::SetSocketImr(Socket::Cmd, 0xe9),
        ]
    );
    let steps: Vec<(Op, NetworkError)> = (0..9).filter_map(configure_interrupts_active_con).collect();
    assert_eq!(
        steps,
        vec![
            (Op::SetIr(0xc0), NetworkError::ClearStale),
            (Op::SetImr(0xc0), NetworkError::UnmaskInterrupts),
            (Op::SetSimr(3), NetworkError::SetSocketInterrupts),
            (Op::SetSocketIr(Socket::Cmd, 0xee), NetworkError::ClearSocketInterrupts),
            (Op::SetSocketImr(Socket::Cmd, 0xee), NetworkError::UnmaskCmdInterrupts),
            (Op::SetSocketIr(Socket::Telem, 0xec), NetworkError::ClearSocketInterrupts),
            (Op::SetSocketImr(Socket::Telem, 0xec), NetworkError::UnmaskTelemInterrupts),
        ]
    );
}

#[test]
fn setup_is_tried_again() {
    let mut t = NetworkTask::new();
    t.advance(DONE);
    assert_eq!(t.error(), None);
    t.advance(NetworkReply::Failed);
    assert_eq!(t.error(), Some(NetworkError::SetGateway));
    assert_eq!(t.request(), NetworkRequest::Sleep(1000));
    t.advance(DONE);
    assert_eq!(t.request(), NetworkTask::new().request());
    for e in [
        NetworkError::SetStaticIp,
        NetworkError::SetGateway,
        NetworkError::SetSubnet,
        NetworkError::SetMacAddress,
        NetworkError::BindUdp,
    ] {
        let mut u = t;
        u.advance(NetworkReply::Failed);
        assert_eq!(u.error(), Some(e));
        t.advance(DONE);
    }
    assert_eq!(t.request(), NetworkRequest::Chip(Op::Close(Socket::Cmd)));
}

#[test]
fn socket_is_closed_before_listening() {
    let mut v = brought_up();
    v.push(DONE);
    let mut t = task(&v);
    assert_eq!(t.request(), NetworkRequest::Chip(Op::ReadStatus(Socket::Cmd)));
    t.advance(NetworkReply::Closed(false));
    assert_eq!(t.request(), NetworkRequest::Sleep(1));
    t.advance(DONE);
    t.advance(NetworkReply::Closed(true));
    assert_eq!(t.request(), NetworkRequest::Announce(NetworkStatus::Disconnected));
    t.advance(DONE);
    assert_eq!(t.request(), NetworkRequest::Chip(Op::Listen(Socket::Cmd, 15397)));
}

#[test]
fn a_client_is_announced_and_served() {
    let mut t = task(&waiting());
    assert_eq!(t.request(), NetworkRequest::WaitForInterrupt);
    t.advance(DONE);
    assert_eq!(t.request(), NetworkRequest::Chip(Op::ReadIr));
    let mut t = task(&connected());
    assert_eq!(t.request(), NetworkRequest::Chip(Op::SetSocketIr(Socket::Cmd, SN_CON)));
    t.advance(DONE);
    assert_eq!(t.request(), NetworkRequest::Announce(NetworkStatus::Connected));
    t.advance(DONE);
    assert_eq!(t.request(), NetworkRequest::Chip(Op::SetIr(0xc0)));
    assert_eq!(task(&serving()).request(), NetworkRequest::Serve);
}

#[test]
fn errors_of_the_interrupt_setup_are_passed_over() {
    let t = with(listening(), &[DONE, DONE, NetworkReply::Failed]);
    assert_eq!(t.request(), NetworkRequest::WaitForInterrupt);
    let t = with(connected(), &[DONE, DONE, NetworkReply::Failed]);
    assert_eq!(t.request(), NetworkRequest::Serve);
}

#[test]
fn errors_before_a_connection() {
    let f = NetworkReply::Failed;
    let reg = NetworkReply::Register;
    let cases: Vec<(NetworkTask, NetworkError)> = vec![
        (with(brought_up(), &[f]), NetworkError::CloseCmd),
        (with(brought_up(), &[DONE, f]), NetworkError::StatusBus),
        (
            with(brought_up(), &[DONE, NetworkReply::UnknownStatus]),
            NetworkError::StatusConversion,
        ),
        (with(listening(), &[f]), NetworkError::Listen),
        (with(waiting(), &[DONE, f]), NetworkError::InterruptStatus),
        (with(waiting(), &[DONE, reg(0x80), DONE]), NetworkError::IpConflict),
        (with(waiting(), &[DONE, reg(0x80), f]), NetworkError::ClearConflict),
        (with(waiting(), &[DONE, reg(0x40), f]), NetworkError::InterruptStatus),
        (with(waiting(), &[DONE, reg(0x40), reg(0x40), DONE]), NetworkError::Unreachable),
        (with(waiting(), &[DONE, reg(0), reg(0x40), f]), NetworkError::ClearUnreach),
        (with(waiting(), &[DONE, reg(0), reg(0), f]), NetworkError::CmdInterrupt),
        (with(waiting(), &[DONE, reg(0), reg(0), reg(9), DONE]), NetworkError::CmdTimedOut),
        (with(waiting(), &[DONE, reg(0), reg(0), reg(8), f]), NetworkError::ClearEarlyTimeout),
        (with(waiting(), &[DONE, reg(0), reg(0), reg(0xf6)]), NetworkError::NoConnection),
        (with(connected(), &[f]), NetworkError::ClearConnection),
    ];
    for (mut t, e) in cases {
        assert_eq!(t.error(), Some(e));
        assert_eq!(t.request(), NetworkRequest::Announce(NetworkStatus::Disconnected));
        t.advance(DONE);
        assert_eq!(t.request(), NetworkRequest::Sleep(1000));
        t.advance(DONE);
        assert_eq!(t.request(), NetworkRequest::Chip(Op::Close(Socket::Cmd)));
    }
    let t = with(waiting(), &[DONE, reg(0x80)]);
    assert_eq!(t.request(), NetworkRequest::Chip(Op::SetIr(0x80)));
    let t = with(waiting(), &[DONE, reg(0), reg(0xc0)]);
    assert_eq!(t.request(), NetworkRequest::Chip(Op::SetIr(0x40)));
    let t = with(waiting(), &[DONE, reg(0), reg(0), reg(9)]);
    assert_eq!(t.request(), NetworkRequest::Chip(Op::SetSocketIr(Socket::Cmd, 8)));
}

#[test]
fn every_ending_is_announced() {
    let ends = [
        (ServeEnd::PulseLost, Some(NetworkError::NoHeartbeat)),
        (ServeEnd::Interrupts(Ending::Graceful), None),
        (
            ServeEnd::Interrupts(Ending::Failed(NetworkError::CmdPacketSize)),
            Some(NetworkError::CmdPacketSize),
        ),
        (ServeEnd::Telemetry(None), Some(NetworkError::PushTelemetry)),
        (ServeEnd::Telemetry(Some(NetworkError::SendTelem)), Some(NetworkError::SendTelem)),
    ];
    for (end, error) in ends {
        let mut t = with(serving(), &[NetworkReply::Served(end)]);
        assert_eq!(t.error(), error);
        assert_eq!(t.request(), NetworkRequest::Announce(NetworkStatus::Disconnected));
        t.advance(DONE);
        assert_eq!(t.request(), NetworkRequest::Sleep(1000));
    }
}

#[test]
fn connection_errors_by_interrupt() {
    let cases: Vec<(Vec<ActiveReply>, NetworkError)> = vec![
        (vec![Done, Failed], NetworkError::ReadInterrupt),
        (vec![Done, Register(0xff), Done], NetworkError::IpConflict),
        (vec![Done, Register(0x80), Failed], NetworkError::WriteInterrupt),
        (vec![Done, Register(0x7f), Done], NetworkError::Unreachable),
        (vec![Done, Register(0x40), Failed], NetworkError::WriteInterrupt),
        (vec![Done, Register(0), Failed], NetworkError::CmdInterrupt),
        (vec![Done, Register(0), Register(2), Failed], NetworkError::ClearCmdDisconnect),
        (vec![Done, Register(0), Register(0x0d), Done], NetworkError::CmdTimedOut),
        (vec![Done, Register(0), Register(8), Failed], NetworkError::ClearCmdTimeout),
        (vec![Done, Register(0), Register(4), Failed], NetworkError::ClearCmdRecv),
        (vec![Done, Register(0), Register(4), Done, Failed], NetworkError::ReadCmd),
        (vec![Done, Register(0), Register(4), Done, Bytes(7)], NetworkError::CmdPacketSize),
        (vec![Done, Register(0), Register(4), Done, Bytes(8), Failed], NetworkError::DecodeCmd),
        (vec![Done, Register(0), Register(0), Failed], NetworkError::TelemInterrupt),
        (vec![Done, Register(0), Register(1), Register(0x0c), Done], NetworkError::TelemTimedOut),
        (
            vec![Done, Register(0), Register(0), Register(8), Failed],
            NetworkError::ClearTelemTimeout,
        ),
        (vec![Done, Register(0), Register(0), Register(4), Failed], NetworkError::ClearTelemRecv),
        (
            vec![Done, Register(0), Register(0), Register(4), Done, Failed],
            NetworkError::ReceiveTelem,
        ),
        (
            vec![Done, Register(0), Register(0), Register(4), Done, Bytes(8)],
            NetworkError::TelemPacketSize,
        ),
        (
            vec![Done, Register(0), Register(0), Register(4), Done, Bytes(6), Failed],
            NetworkError::DecodeTelem,
        ),
    ];
    for (replies, e) in cases {
        assert_eq!(drive(&replies).request(), failed(e));
    }
    assert_eq!(
        drive(&[Done, Register(0x80)]).request(),
        ActiveRequest::Chip(Op::SetIr(0x80))
    );
    assert_eq!(drive(&[Done, Register(0x40)]).request(), ActiveRequest::Chip(Op::SetIr(0)));
}

#[test]
fn interrupt_bits_are_read_as_the_chip_library_does() {
    for b in 0..=255u8 {
        let request = drive(&[Done, Register(b)]).request();
        let i = Interrupt::from(b);
        let expected = if i.conflict() {
            ActiveRequest::Chip(Op::SetIr(0x80))
        } else if i.unreach() {
            ActiveRequest::Chip(Op::SetIr(0))
        } else {
            ActiveRequest::Chip(Op::ReadSocketIr(Socket::Cmd))
        };
        assert_eq!(request, expected);
        let s = SocketInterrupt::from(b);
        let request = drive(&[Done, Register(0), Register(b)]).request();
        let expected = if s.discon_raised() {
            ActiveRequest::Chip(Op::SetSocketIr(Socket::Cmd, SN_DISCON))
        } else if s.timeout_raised() {
            ActiveRequest::Chip(Op::SetSocketIr(Socket::Cmd, SN_TIMEOUT))
        } else if s.recv_raised() {
            ActiveRequest::Chip(Op::SetSocketIr(Socket::Cmd, SN_RECV))
        } else {
            ActiveRequest::Chip(Op::ReadSocketIr(Socket::Telem))
        };
        assert_eq!(request, expected);
        let request = drive(&[Done, Register(0), Register(0), Register(b)]).request();
        let expected = if s.timeout_raised() {
            ActiveRequest::Chip(Op::SetSocketIr(Socket::Telem, SN_TIMEOUT))
        } else if s.recv_raised() {
            ActiveRequest::Chip(Op::SetSocketIr(Socket::Telem, SN_RECV))
        } else {
            ActiveRequest::Wait
        };
        assert_eq!(request, expected);
        let t = with(
            waiting(),
            &[DONE, NetworkReply::Register(0), NetworkReply::Register(0), NetworkReply::Register(b)],
        );
        assert_eq!(
            t.error() == Some(NetworkError::NoConnection),
            !s.timeout_raised() && !s.con_raised()
        );
    }
}

#[test]
fn client_disconnects_gracefully() {
    let mut c = drive(&[Done, Register(0), Register(0x0e)]);
    assert_eq!(c.request(), ActiveRequest::Chip(Op::SetSocketIr(Socket::Cmd, 2)));
    c.advance(Done);
    assert_eq!(c.request(), ActiveRequest::End(Ending::Graceful));
}

#[test]
fn command_is_passed_on_and_setpoint_taken_over() {
    let mut c = drive(&[Done, Register(0), Register(4), Done]);
    assert_eq!(c.request(), ActiveRequest::Chip(Op::TcpRead(Socket::Cmd)));
    c.advance(Bytes(8));
    assert_eq!(c.request(), ActiveRequest::DecodeCmd);
    c.advance(Cmd(CmdFromPC::Heartbeat));
    assert_eq!(c.request(), ActiveRequest::PassOnCmd(CmdFromPC::Heartbeat));
    c.advance(Done);
    c.advance(Register(4));
    c.advance(Done);
    assert_eq!(c.request(), ActiveRequest::Chip(Op::UdpReceive(Socket::Telem)));
    c.advance(Bytes(6));
    assert_eq!(c.request(), ActiveRequest::DecodeTelem);
    let mut d = c;
    c.advance(Telem(TelemFromPC::MotorPositionSetpoint(number(1.5))));
    assert_eq!(c.request(), ActiveRequest::SetPosition(Angle { bits: 3 << 31 }));
    d.advance(Telem(TelemFromPC::MotorSpeedSetpoint(number(0.5))));
    assert_eq!(d.request(), ActiveRequest::SetSpeed(number(0.5)));
    d.advance(Done);
    assert_eq!(d.request(), ActiveRequest::Wait);
}

#[test]
fn packets_of_another_size_end_the_connection() {
    for n in 0..12u16 {
        let c = drive(&[Done, Register(0), Register(4), Done, Bytes(n)]);
        let expected = if n == 8 {
            ActiveRequest::DecodeCmd
        } else {
            failed(NetworkError::CmdPacketSize)
        };
        assert_eq!(c.request(), expected);
        let c = drive(&[Done, Register(0), Register(0), Register(4), Done, Bytes(n)]);
        let expected = if n == 6 {
            ActiveRequest::DecodeTelem
        } else {
            failed(NetworkError::TelemPacketSize)
        };
        assert_eq!(c.request(), expected);
    }
}

#[test]
fn only_fitting_replies_are_taken() {
    let replies = [
        Done,
        Failed,
        Register(0),
        Bytes(8),
        Cmd(CmdFromPC::Disable),
        Telem(TelemFromPC::MotorSpeedSetpoint(number(0.0))),
    ];
    let taken = |c: ActiveConnection| -> Vec<bool> {
        replies.iter().map(|&r| c.can_advance(r)).collect()
    };
    let (f, t) = (false, true);
    assert_eq!(taken(drive(&[])), vec![t, f, f, f, f, f]);
    assert_eq!(taken(drive(&[Done])), vec![f, t, t, f, f, f]);
    assert_eq!(taken(drive(&[Done, Register(0)])), vec![f, t, t, f, f, f]);
    let recv = [Done, Register(0), Register(4), Done, Bytes(8), Cmd(CmdFromPC::Disable)];
    assert_eq!(taken(drive(&recv[..3])), vec![t, t, f, f, f, f]);
    assert_eq!(taken(drive(&recv[..4])), vec![f, t, f, t, f, f]);
    assert_eq!(taken(drive(&recv[..5])), vec![f, t, f, f, t, f]);
    assert_eq!(taken(drive(&recv)), vec![t, f, f, f, f, f]);
    let telem = [Done, Register(0), Register(0), Register(4), Done, Bytes(6), replies[5]];
    assert_eq!(taken(drive(&telem[..6])), vec![f, t, f, f, f, t]);
    assert_eq!(taken(drive(&telem)), vec![t, f, f, f, f, f]);
    assert_eq!(taken(drive(&[Done, Failed])), vec![f; 6]);

    let replies = [
        DONE,
        NetworkReply::Failed,
        NetworkReply::Register(0),
        NetworkReply::Closed(true),
        NetworkReply::UnknownStatus,
        NetworkReply::Served(ServeEnd::PulseLost),
    ];
    let taken = |task: NetworkTask| -> Vec<bool> {
        replies.iter().map(|&r| task.can_advance(r)).collect()
    };
    assert_eq!(taken(NetworkTask::new()), vec![t, t, f, f, f, f]);
    assert_eq!(taken(with(brought_up(), &[DONE])), vec![f, t, f, t, t, f]);
    assert_eq!(taken(task(&waiting())), vec![t, f, f, f, f, f]);
    assert_eq!(taken(with(waiting(), &[DONE])), vec![f, t, t, f, f, f]);
    assert_eq!(taken(task(&connected())), vec![t, t, f, f, f, f]);
    assert_eq!(taken(with(connected(), &[DONE])), vec![t, f, f, f, f, f]);
    assert_eq!(taken(task(&serving())), vec![f, f, f, f, f, t]);
}

#[test]
fn setpoints_that_do_not_fit_are_told() {
    assert!(ActiveConnection::can_take(TelemFromPC::MotorPositionSetpoint(number(1.0))));
    assert!(!ActiveConnection::can_take(TelemFromPC::MotorPositionSetpoint(number(f32::NAN))));
    assert!(!ActiveConnection::can_take(TelemFromPC::MotorPositionSetpoint(number(-3.0e9))));
    assert!(ActiveConnection::can_take(TelemFromPC::MotorSpeedSetpoint(number(f32::NAN))));
    for v in [f32::NAN, f32::INFINITY, f32::NEG_INFINITY, 3.0e9] {
        let telem = TelemFromPC::MotorPositionSetpoint(number(v));
        let c = drive(&[Done, Register(0), Register(0), Register(4), Done, Bytes(6), Telem(telem)]);
        assert_eq!(c.request(), failed(NetworkError::DecodeTelem));
    }
}

#[test]
fn half_a_second_of_silence_is_too_long() {
    let pulse = PulseCheck::beat(Instant { ticks: 7 });
    assert_eq!(pulse.deadline, Instant { ticks: 500_007 });
    assert!(!pulse.is_lost(Instant { ticks: 500_006 }));
    assert!(pulse.is_lost(Instant { ticks: 500_007 }));
}

#[test]
fn telemetry_reports_the_position() {
    assert_eq!(
        telemetry_packet(Angle { bits: -(5 << 31) }),
        TelemToPC::MotorPosition(number(-2.5))
    );
    assert_eq!(telemetry_period().ticks, 2000);
    assert_eq!(push_telemetry(Sent::Bytes(TELEM_TO_PC_SIZE as u16)), Ok(()));
    assert_eq!(push_telemetry(Sent::Bytes(4)), Err(NetworkError::TelemSizeMismatch));
    assert_eq!(push_telemetry(Sent::NotSent), Err(NetworkError::SendTelem));
    assert_eq!(push_telemetry(Sent::NotSerialized), Err(NetworkError::SerializeTelem));
}

#[test]
fn errors_have_messages() {
    assert_eq!(NetworkError::IpConflict.message(), "IP conflict detected");
    assert_eq!(
        NetworkError::NoHeartbeat.message(),
        "Didn't get a hearbeat from client in time"
    );
    assert_eq!(NetworkError::BindUdp.message(), "Failed to bind UDP port");
    assert_eq!(
        NetworkError::ClearConnection.message(),
        "Failed to clear CMD connection interrupt"
    );
    assert_eq!(NetworkError::CmdTimedOut.message(), "CMD socket timed out");
    assert_eq!(NetworkError::TelemSizeMismatch.message(), "Telemetry packet size mismatch");
}

#[test]
fn telemetry_packet_has_a_tag_and_a_number() {
    let mut buf = [0u8; 16];
    let bytes = postcard::to_slice(&(0u8, -2.5f32), &mut buf).unwrap();
    assert_eq!(bytes.len(), TELEM_TO_PC_SIZE);
}

#[test]
fn replies_move_the_task_on() {
    let mut t = NetworkTask::new();
    for r in serving() {
        let before = format!("{:?}", t);
        t.advance(r);
        assert_ne!(format!("{:?}", t), before);
    }
}
