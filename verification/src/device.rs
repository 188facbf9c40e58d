//! The device level: link-layer address handling, the composition of the two
//! rings, and the polling contract offered to the protocol stack.

use vstd::prelude::*;
use vstd::slice::slice_subrange;
use crate::{Error, InitError, ReceiveError};
use crate::rx::{ChainOutcome, RxConfig, RxDevice};
use crate::tx::{cleaned_buffers, TxConfig, TxDevice, TxDescriptor};

verus! {

/// A 48-bit link-layer (MAC) address.
#[derive(Debug, Clone, Copy)]
pub struct MacAddress {
    pub bytes: [u8; 6],
}

/// The value of a two-byte little-endian integer.
pub open spec fn le_u16(b: Seq<u8>) -> int {
    b[0] + 0x100 * b[1]
}

/// The value of a four-byte little-endian integer.
pub open spec fn le_u32(b: Seq<u8>) -> int {
    b[0] + 0x100 * b[1] + 0x10000 * b[2] + 0x1000000 * b[3]
}

/// Relies on byteorder::LittleEndian::read_u32: returns the first four bytes
/// of the slice as a little-endian unsigned integer.  It panics on a shorter
/// slice, which the precondition rules out.
#[verifier::external_body]
fn le_read_u32(buf: &[u8]) -> (r: u32)
    requires
        buf@.len() >= 4,
    ensures
        r as int == le_u32(buf@),
{
    <byteorder::LittleEndian as byteorder::ByteOrder>::read_u32(buf)
}

/// Relies on byteorder::LittleEndian::read_u16: returns the first two bytes
/// of the slice as a little-endian unsigned integer.  It panics on a shorter
/// slice, which the precondition rules out.
#[verifier::external_body]
fn le_read_u16(buf: &[u8]) -> (r: u16)
    requires
        buf@.len() >= 2,
    ensures
        r as int == le_u16(buf@),
{
    <byteorder::LittleEndian as byteorder::ByteOrder>::read_u16(buf)
}

/// The two values to program into the MAC address registers: the low
/// register takes the first four address bytes as a little-endian word, the
/// high register the remaining two as a little-endian halfword.
pub fn mac_address_registers(address: &MacAddress) -> (r: (u32, u16))
    ensures
        r.0 as int == le_u32(address.bytes@.subrange(0, 4)),
        r.1 as int == le_u16(address.bytes@.subrange(4, 6)),
{
    let bytes: &[u8] = address.bytes.as_slice();
    let low = le_read_u32(slice_subrange(bytes, 0, 4));
    let high = le_read_u16(slice_subrange(bytes, 4, 6));
    (low, high)
}

/// A socket port that was requested twice; `f` is the handler that lost.
pub struct PortInUse<F> {
    pub tcp: bool,
    pub port: u16,
    pub f: F,
}

impl<F> PortInUse<F> {
    pub fn new(tcp: bool, port: u16, f: F) -> (r: PortInUse<F>)
        ensures
            r.tcp == tcp,
            r.port == port,
    {
        PortInUse { tcp, port, f }
    }
}

/// How ring-level receive outcomes are translated at the protocol-stack
/// boundary: only a consumer error wrapped in `Processing` passes through
/// verbatim; every hardware-flagged defect collapses to the stack's generic
/// `Truncated` signal.
pub open spec fn device_error_spec(err: ReceiveError) -> Error {
    match err {
        ReceiveError::Processing(e) => e,
        _ => Error::Truncated,
    }
}

/// Translate a ring-level receive error into the device-level vocabulary.
pub fn device_error(err: ReceiveError) -> (e: Error)
    ensures
        e == device_error_spec(err),
{
    match err {
        ReceiveError::Processing(e) => e,
        _ => Error::Truncated,
    }
}

/// The Ethernet device: the two rings plus the configured link-layer
/// address.  The DMA and MAC register blocks stay with the platform glue
/// that owns the hardware; everything it must program is computed here
/// (`mac_address_registers`, `front_of_queue` on each ring, and
/// `transmit_poll_action` for the send kick).
///
/// There is deliberately no teardown: a live device is never destroyed in
/// normal operation, and stopping the DMA engine and draining it to idle
/// before the rings are released is left to the adopting system's
/// lifecycle model.
pub struct EthernetDevice {
    pub rx: RxDevice,
    pub tx: TxDevice,
    pub ethernet_address: MacAddress,
}

impl EthernetDevice {
    pub open spec fn wf(self) -> bool {
        self.rx.wf() && self.tx.wf()
    }

    /// Build the device's software state: both rings, constructed with every
    /// receive descriptor armed for the hardware and every transmit slot
    /// empty.  Peripheral bring-up and register programming are the platform
    /// glue's part and happen around this call; a bad ring geometry is
    /// rejected here.
    pub fn new(rx_config: RxConfig, tx_config: TxConfig, ethernet_address: MacAddress) -> (r:
        Result<EthernetDevice, Error>)
        ensures
            match r {
                Ok(device) => {
                    &&& rx_config.valid()
                    &&& 1 <= tx_config.number_of_descriptors
                    &&& device.wf()
                    &&& device.rx.config == rx_config
                    &&& device.tx.n() == tx_config.number_of_descriptors
                    &&& device.rx.next_descriptor == 0
                    &&& device.tx.next_descriptor == 0
                    &&& device.ethernet_address == ethernet_address
                    &&& forall|i: int|
                        0 <= i < device.rx.n() ==> (#[trigger] device.rx.descs()[i]).own
                    &&& forall|i: int|
                        0 <= i < device.tx.n() ==> !(#[trigger] device.tx.descs()[i]).own
                    &&& forall|i: int|
                        0 <= i < device.tx.n() ==> (#[trigger] device.tx.bufs()[i]) is None
                },
                Err(e) => {
                    &&& e == Error::Initialization(InitError::InvalidConfiguration)
                    &&& !(rx_config.valid() && 1 <= tx_config.number_of_descriptors)
                },
            },
    {
        if tx_config.number_of_descriptors < 1 {
            return Err(Error::Initialization(InitError::InvalidConfiguration));
        }
        let rx = match RxDevice::new(rx_config) {
            Ok(rx) => rx,
            Err(e) => {
                return Err(e);
            },
        };
        let tx = TxDevice::new(tx_config);
        Ok(EthernetDevice { rx, tx, ethernet_address })
    }

    /// The maximum transmission unit advertised to the protocol stack.
    pub fn capabilities(&self) -> (mtu: usize)
        ensures
            mtu == crate::MTU,
    {
        crate::MTU
    }

    /// Whether a receive poll would yield a frame token.
    pub fn receive_available(&self) -> (b: bool)
        requires
            self.wf(),
        ensures
            b == self.rx.available(),
    {
        self.rx.new_data_received()
    }

    /// Whether a transmit poll would yield a slot token.
    pub fn transmit_available(&self) -> (b: bool)
        requires
            self.wf(),
        ensures
            b == !self.tx.descs()[self.tx.next_descriptor as int].own,
    {
        self.tx.descriptor_available()
    }

    /// One receive poll, as the protocol stack sees it: `None` when no frame
    /// has arrived; otherwise the frame is consumed through `consumer` and
    /// the outcome is reported in the device-level vocabulary — the
    /// consumer's own error verbatim, every hardware defect as `Truncated`,
    /// a checksum hit as `Checksum`, and a partial frame as `Exhausted`.
    pub fn poll_receive<T, F: FnOnce(&[u8]) -> Result<T, Error>>(&mut self, consumer: F) -> (r:
        Option<Result<T, Error>>)
        requires
            old(self).wf(),
            old(self).rx.receive_safe(),
            forall|b: &[u8]| #[trigger] call_requires(consumer, (b,)),
        ensures
            final(self).wf(),
            final(self).tx == old(self).tx,
            final(self).ethernet_address == old(self).ethernet_address,
            final(self).rx.config == old(self).rx.config,
            final(self).rx.buffer@ == old(self).rx.buffer@,
            !old(self).rx.available() ==> r is None && final(self).rx == old(self).rx,
            old(self).rx.available()
                && old(self).rx.descs()[old(self).rx.next_descriptor as int].checksum_error ==> r
                == Some(Err::<T, Error>(Error::Checksum)) && final(self).rx == old(self).rx,
            old(self).rx.available()
                && !old(self).rx.descs()[old(self).rx.next_descriptor as int].checksum_error
                && old(self).rx.chain() is Incomplete ==> r == Some(Err::<T, Error>(Error::Exhausted))
                && final(self).rx == old(self).rx,
            old(self).rx.available()
                && !old(self).rx.descs()[old(self).rx.next_descriptor as int].checksum_error ==> (
            old(self).rx.chain() matches ChainOutcome::Complete(last) ==> {
                &&& RxDevice::recycled(old(self).rx, final(self).rx, last)
                &&& match old(self).rx.descs()[last].error_kind() {
                    Some(k) => r == Some(Err::<T, Error>(Error::Truncated)),
                    None => exists|b: &[u8], out: Result<T, Error>|
                        {
                            &&& b@ == old(self).rx.frame_bytes(last)
                            &&& #[trigger] call_ensures(consumer, (b,), out)
                            &&& r == Some(out)
                        },
                }
            }),
    {
        if !self.rx.new_data_received() {
            return None;
        }
        let result = self.rx.receive(consumer);
        match result {
            Ok(t) => Some(Ok(t)),
            Err(e) => Some(Err(device_error(e))),
        }
    }

    /// One transmit poll, as the protocol stack sees it: `None` when no slot
    /// is free; otherwise a zeroed buffer of the requested length is handed
    /// to `producer` to fill, and the filled frame is queued on the ring.
    /// A producer failure leaves the ring untouched and is passed through.
    /// After a successful poll the caller kicks the engine: it reads the
    /// transmit-process state and acts on `transmit_poll_action`.
    pub fn poll_transmit<T, F: FnOnce(Vec<u8>) -> Result<(Vec<u8>, T), Error>>(
        &mut self,
        length: usize,
        producer: F,
    ) -> (r: Option<Result<T, Error>>)
        requires
            old(self).wf(),
            forall|v: Vec<u8>| #[trigger] call_requires(producer, (v,)),
        ensures
            final(self).wf(),
            final(self).rx == old(self).rx,
            final(self).ethernet_address == old(self).ethernet_address,
            old(self).tx.descs()[old(self).tx.next_descriptor as int].own ==> r is None
                && final(self).tx == old(self).tx,
            !old(self).tx.descs()[old(self).tx.next_descriptor as int].own
                ==> exists|input: Vec<u8>, out: Result<(Vec<u8>, T), Error>|
                {
                    &&& input@ == Seq::new(length as nat, |i: int| 0u8)
                    &&& #[trigger] call_ensures(producer, (input,), out)
                    &&& match out {
                        Err(e) => r == Some(Err::<T, Error>(e)) && final(self).tx == old(self).tx,
                        Ok((filled, t)) => {
                            &&& r == Some(Ok::<T, Error>(t))
                            &&& final(self).tx.descs() == old(self).tx.descs().update(
                                old(self).tx.next_descriptor as int,
                                TxDescriptor {
                                    own: true,
                                    end_of_ring: old(self).tx.descs()[old(self).tx.next_descriptor as int].end_of_ring,
                                },
                            )
                            &&& final(self).tx.next_descriptor as int
                                == (old(self).tx.next_descriptor + 1) % old(self).tx.n()
                            &&& final(self).tx.bufs() == cleaned_buffers(
                                final(self).tx.descs(),
                                old(self).tx.bufs().update(
                                    old(self).tx.next_descriptor as int,
                                    Some(filled@),
                                ),
                            )
                        },
                    }
                },
    {
        if !self.tx.descriptor_available() {
            return None;
        }
        let mut data: Vec<u8> = Vec::new();
        let mut i: usize = 0;
        while i < length
            invariant
                data@.len() == i,
                i <= length,
                forall|k: int| 0 <= k < data@.len() ==> data@[k] == 0u8,
            decreases length - i,
        {
            data.push(0u8);
            i = i + 1;
        }
        proof {
            assert(data@ =~= Seq::new(length as nat, |k: int| 0u8));
        }
        match producer(data) {
            Ok((filled, t)) => {
                self.tx.insert(filled);
                Some(Ok(t))
            },
            Err(e) => Some(Err(e)),
        }
    }
}

} // verus!
