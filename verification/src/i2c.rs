//! The I2C bus boundary: address arithmetic and the decisions of the bus
//! driver's status-poll loops.  The register transport itself — start
//! conditions, byte shuffling through the peripheral's data registers —
//! belongs to the platform glue that owns the hardware.

use vstd::prelude::*;

verus! {

/// A bus fault reported by the peripheral.
#[derive(Debug, Clone, Copy, PartialEq, Eq, Structural)]
pub enum Error {
    /// The addressed device did not acknowledge.
    Nack,
}

/// A device address, positioned as the peripheral's address field expects.
#[derive(Debug, Clone, Copy, PartialEq, Eq, Structural)]
pub struct Address(pub u16);

impl Address {
    /// A 7-bit address, shifted left by one into the field position.
    pub fn bits_7(addr: u8) -> (a: Address)
        ensures
            a.0 == 2 * addr as u16,
    {
        proof {
            assert(((addr as u16) << 1u16) == (addr as u16) * 2) by (bit_vector);
        }
        Address((addr as u16) << 1)
    }
}

/// The two bytes a 16-bit register value travels as on the bus, most
/// significant first.
pub fn u16_register_bytes(value: u16) -> (b: (u8, u8))
    ensures
        b.0 == value / 256,
        b.1 == value % 256,
{
    proof {
        assert((value >> 8u16) == value / 256 && (value & 0xffu16) == value % 256)
            by (bit_vector);
    }
    ((value >> 8) as u8, (value & 0xff) as u8)
}

/// The 16-bit register value read back from its two bus bytes.
pub fn u16_register_value(high: u8, low: u8) -> (value: u16)
    ensures
        value == high as u16 * 256 + low as u16,
{
    proof {
        let h = high as u16;
        let l = low as u16;
        assert(((h << 8u16) | l) == h * 256 + l) by (bit_vector)
            requires h < 256 && l < 256;
    }
    ((high as u16) << 8) | (low as u16)
}

/// One decision of a status-poll loop.
#[derive(Debug, Clone, Copy, PartialEq, Eq, Structural)]
pub enum WaitOutcome {
    /// The device did not acknowledge: give up with `Error::Nack`.
    Nack,
    /// The awaited flag is set: the transfer step is done.
    Ready,
    /// Neither yet: poll again.
    Pending,
}

/// The decision the driver's wait loops take on each status read: a
/// not-acknowledge always wins over the awaited flag.
pub open spec fn wait_step_spec(nack: bool, ready: bool) -> WaitOutcome {
    if nack {
        WaitOutcome::Nack
    } else if ready {
        WaitOutcome::Ready
    } else {
        WaitOutcome::Pending
    }
}

/// Decide one iteration of a wait loop, given the status register's
/// not-acknowledge flag and the flag being awaited (transmit-ready,
/// receive-not-empty, transfer-complete, or stop-detected).
pub fn wait_step(nack: bool, ready: bool) -> (outcome: WaitOutcome)
    ensures
        outcome == wait_step_spec(nack, ready),
{
    if nack {
        WaitOutcome::Nack
    } else if ready {
        WaitOutcome::Ready
    } else {
        WaitOutcome::Pending
    }
}

} // verus!
