//! Interrupt registers of the W5500 network chip, as bytes.
use vstd::prelude::*;

verus! {

/// Bits of the interrupt register and of its mask. Writing a bit clears it.
pub const IR_CONFLICT: u8 = 0x80;

pub const IR_UNREACH: u8 = 0x40;

/// Bits of the interrupt register of a socket. Writing a bit clears it.
pub const SN_CON: u8 = 0x01;

pub const SN_DISCON: u8 = 0x02;

pub const SN_RECV: u8 = 0x04;

pub const SN_TIMEOUT: u8 = 0x08;

/// Mask of a socket that lets no interrupt through; the upper bits are
/// reserved.
pub const SN_ALL_MASKED: u8 = 0xe0;

/// Bits of the two sockets in the socket interrupt mask.
pub const CMD_SOCKET_BIT: u8 = 0x01;

pub const TELEM_SOCKET_BIT: u8 = 0x02;

/// Whether a bit of a register is set.
pub open spec fn raised(register: u8, bit: u8) -> bool {
    register & bit != 0
}

/// `w5500_ll::Interrupt::conflict`: whether bit 7 is set.
#[verifier::external_body]
pub(crate) fn conflict(ir: u8) -> (b: bool)
    ensures
        b == raised(ir, IR_CONFLICT),
{
    w5500_ll::Interrupt::from(ir).conflict()
}

/// `w5500_ll::Interrupt::unreach`: whether bit 6 is set.
#[verifier::external_body]
pub(crate) fn unreach(ir: u8) -> (b: bool)
    ensures
        b == raised(ir, IR_UNREACH),
{
    w5500_ll::Interrupt::from(ir).unreach()
}

/// `w5500_ll::SocketInterrupt::con_raised`: whether bit 0 is set.
#[verifier::external_body]
pub(crate) fn con_raised(sn_ir: u8) -> (b: bool)
    ensures
        b == raised(sn_ir, SN_CON),
{
    w5500_ll::SocketInterrupt::from(sn_ir).con_raised()
}

/// `w5500_ll::SocketInterrupt::discon_raised`: whether bit 1 is set.
#[verifier::external_body]
pub(crate) fn discon_raised(sn_ir: u8) -> (b: bool)
    ensures
        b == raised(sn_ir, SN_DISCON),
{
    w5500_ll::SocketInterrupt::from(sn_ir).discon_raised()
}

/// `w5500_ll::SocketInterrupt::recv_raised`: whether bit 2 is set.
#[verifier::external_body]
pub(crate) fn recv_raised(sn_ir: u8) -> (b: bool)
    ensures
        b == raised(sn_ir, SN_RECV),
{
    w5500_ll::SocketInterrupt::from(sn_ir).recv_raised()
}

/// `w5500_ll::SocketInterrupt::timeout_raised`: whether bit 3 is set.
#[verifier::external_body]
pub(crate) fn timeout_raised(sn_ir: u8) -> (b: bool)
    ensures
        b == raised(sn_ir, SN_TIMEOUT),
{
    w5500_ll::SocketInterrupt::from(sn_ir).timeout_raised()
}

} // verus!
