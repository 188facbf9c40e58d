//! Driver core for an Ethernet MAC/DMA peripheral: receive and transmit
//! descriptor rings, multi-descriptor frame reassembly, hardware error
//! classification, and the polling contract a network protocol stack uses to
//! pull and push frames.
//!
//! The rings and their algorithms are verified.  The DMA engine itself is an
//! external, autonomous agent: its side of the descriptor ownership protocol
//! is modelled by the explicit `dma_*` methods on the rings, which a host
//! harness or a test double uses to play the hardware's part.

use vstd::prelude::*;

pub mod device;
pub mod dma;
pub mod i2c;
pub mod rx;
pub mod sockets;
pub mod tx;

verus! {

/// Maximum frame size, in bytes, that the device advertises to the protocol
/// stack.
pub const MTU: usize = 1536;

/// A failure of device construction, reported before any ring is installed.
#[derive(Debug, Clone, Copy, PartialEq, Eq, Structural)]
pub enum InitError {
    /// A ring configuration whose region arithmetic does not add up.
    InvalidConfiguration,
    /// The peripheral bring-up collaborator reported a failure.
    BringUpFailed,
}

/// The device-level error vocabulary handed to the protocol stack.
#[derive(Debug, Clone, Copy, PartialEq, Eq, Structural)]
pub enum Error {
    /// Nothing to do right now; always worth retrying on the next poll.
    Exhausted,
    /// The hardware checksum offload flagged the frame.
    Checksum,
    /// A frame could not be handed over intact.
    Truncated,
    /// No usable IP configuration.
    NoIp,
    /// A fault with no more precise classification.
    Unknown,
    /// Device construction failed; fatal to the device, carries the cause.
    Initialization(InitError),
}

impl From<InitError> for Error {
    fn from(err: InitError) -> (r: Error) {
        Error::Initialization(err)
    }
}

impl vstd::std_specs::convert::FromSpecImpl<InitError> for Error {
    open spec fn obeys_from_spec() -> bool {
        true
    }

    open spec fn from_spec(err: InitError) -> Error {
        Error::Initialization(err)
    }
}

impl From<()> for Error {
    fn from(unit: ()) -> (r: Error) {
        Error::Unknown
    }
}

impl vstd::std_specs::convert::FromSpecImpl<()> for Error {
    open spec fn obeys_from_spec() -> bool {
        true
    }

    open spec fn from_spec(unit: ()) -> Error {
        Error::Unknown
    }
}

/// How the receive ring classifies one attempt to take a frame.
///
/// The first seven variants are hardware-flagged defects of a fully received
/// frame; `Processing` carries through whatever the consumer callback
/// reported, and also stands for the transient "nothing available" and
/// "checksum" outcomes, exactly as the ring hands them upward.
#[derive(Debug, PartialEq, Eq, Structural)]
pub enum ReceiveError {
    Crc,
    Receive,
    WatchdogTimeout,
    LateCollision,
    GiantFrame,
    Overflow,
    Descriptor,
    Processing(Error),
}

} // verus!
