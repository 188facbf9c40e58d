//! The boundary to the DMA engine.
//!
//! Descriptors are kept in volatile cells so that, on hardware, every access
//! is an isolated, uncached load or store the compiler may not reorder or
//! merge; the engine reads and writes the same cells autonomously.  The
//! contracts below state the sequential semantics of the cells — a read
//! returns the value most recently stored — which is exact in the host model,
//! where the engine's asynchronous actions are played by the explicit `dma_*`
//! methods on the rings.  The driver's own protocol never trusts a cell
//! beyond its ownership bit, which it always re-reads.

use vstd::prelude::*;
use crate::rx::RxDescriptor;
use crate::tx::TxDescriptor;

verus! {

#[verifier::external_type_specification]
#[verifier::external_body]
#[verifier::reject_recursive_types(T)]
pub struct ExVolatile<T: Copy>(volatile::Volatile<T>);

/// The receive descriptor a volatile cell currently holds.
pub uninterp spec fn rx_descriptor_value(c: volatile::Volatile<RxDescriptor>) -> RxDescriptor;

/// The transmit descriptor a volatile cell currently holds.
pub uninterp spec fn tx_descriptor_value(c: volatile::Volatile<TxDescriptor>) -> TxDescriptor;

/// Relies on volatile::Volatile::new: the cell starts out holding the given
/// value.
#[verifier::external_body]
pub(crate) fn rx_cell_new(d: RxDescriptor) -> (c: volatile::Volatile<RxDescriptor>)
    ensures
        rx_descriptor_value(c) == d,
{
    volatile::Volatile::new(d)
}

/// Relies on volatile::Volatile::read: a volatile load returning a copy of
/// the stored value.
#[verifier::external_body]
pub(crate) fn rx_cell_read(c: &volatile::Volatile<RxDescriptor>) -> (d: RxDescriptor)
    ensures
        d == rx_descriptor_value(*c),
{
    c.read()
}

/// Relies on volatile::Volatile::write: a volatile store of the given value.
#[verifier::external_body]
pub(crate) fn rx_cell_write(c: &mut volatile::Volatile<RxDescriptor>, d: RxDescriptor)
    ensures
        rx_descriptor_value(*final(c)) == d,
{
    c.write(d)
}

/// Relies on volatile::Volatile::new: the cell starts out holding the given
/// value.
#[verifier::external_body]
pub(crate) fn tx_cell_new(d: TxDescriptor) -> (c: volatile::Volatile<TxDescriptor>)
    ensures
        tx_descriptor_value(c) == d,
{
    volatile::Volatile::new(d)
}

/// Relies on volatile::Volatile::read: a volatile load returning a copy of
/// the stored value.
#[verifier::external_body]
pub(crate) fn tx_cell_read(c: &volatile::Volatile<TxDescriptor>) -> (d: TxDescriptor)
    ensures
        d == tx_descriptor_value(*c),
{
    c.read()
}

/// Relies on volatile::Volatile::write: a volatile store of the given value.
#[verifier::external_body]
pub(crate) fn tx_cell_write(c: &mut volatile::Volatile<TxDescriptor>, d: TxDescriptor)
    ensures
        tx_descriptor_value(*final(c)) == d,
{
    c.write(d)
}

/// What the driver must do after queueing a frame, as a function of the DMA
/// status register's three-bit transmit-process-state field.
#[derive(Debug, Clone, Copy, PartialEq, Eq, Structural)]
pub enum TransmitPollAction {
    /// The engine is suspended waiting for a descriptor: write the
    /// poll-demand register to resume it.
    PollDemand,
    /// The engine is running and will pick the descriptor up on its own.
    NoAction,
    /// The engine is stopped: a driver or hardware invariant was violated,
    /// not recoverable in-band.
    FatalStopped,
    /// A state outside the documented set: halt rather than guess.
    FatalUnexpected,
}

/// The transmit-process states of the DMA engine, by field value: 0 stopped;
/// 1, 2, 3 running (fetching, waiting, reading); 6 suspended; 7 running
/// (closing); 4 and 5 undocumented.
pub open spec fn transmit_poll_action_spec(state: u8) -> TransmitPollAction {
    if state == 0 {
        TransmitPollAction::FatalStopped
    } else if state == 6 {
        TransmitPollAction::PollDemand
    } else if state == 1 || state == 2 || state == 3 || state == 7 {
        TransmitPollAction::NoAction
    } else {
        TransmitPollAction::FatalUnexpected
    }
}

/// Decide how to kick the transmit engine after `insert`, given the
/// transmit-process-state field read from the DMA status register.  The two
/// fatal outcomes are returned, not raised: the caller owns the halt policy.
pub fn transmit_poll_action(state: u8) -> (action: TransmitPollAction)
    requires
        state < 8,
    ensures
        action == transmit_poll_action_spec(state),
{
    if state == 0 {
        TransmitPollAction::FatalStopped
    } else if state == 6 {
        TransmitPollAction::PollDemand
    } else if state == 1 || state == 2 || state == 3 || state == 7 {
        TransmitPollAction::NoAction
    } else {
        TransmitPollAction::FatalUnexpected
    }
}

} // verus!
