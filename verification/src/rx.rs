//! The receive side: descriptor layout, ring configuration, and the ring
//! itself with multi-descriptor frame reassembly.

use vstd::prelude::*;
use vstd::slice::slice_subrange;
use crate::{Error, InitError, ReceiveError};
use crate::dma;

verus! {

/// One receive descriptor: the control record shared with the DMA engine.
///
/// On hardware this is a packed register-like word; here every field the
/// driver reads or writes is a plain field.  `end_of_ring` and `capacity` are
/// bound at ring construction and never change afterwards; all other fields
/// cycle with the ownership protocol.
#[derive(Debug, Clone, Copy, PartialEq, Eq, Structural)]
pub struct RxDescriptor {
    /// Ownership bit: true while the DMA engine owns the descriptor and may
    /// fill its region; false once the hardware has handed it back.
    pub own: bool,
    /// This descriptor carries the first segment of a frame.
    pub first: bool,
    /// This descriptor carries the last segment of a frame.
    pub last: bool,
    /// Total frame length in bytes; meaningful only on a last descriptor.
    pub frame_len: usize,
    /// The hardware checksum offload flagged the frame.
    pub checksum_error: bool,
    /// Error summary bit; the per-cause flags below count only when set.
    pub error: bool,
    pub crc_error: bool,
    pub receive_error: bool,
    pub watchdog_timeout_error: bool,
    pub late_collision_error: bool,
    pub giant_frame_error: bool,
    pub overflow_error: bool,
    pub descriptor_error: bool,
    /// Marks the ring's final descriptor so the hardware wraps to index 0.
    pub end_of_ring: bool,
    /// Size in bytes of the buffer region this descriptor describes.
    pub capacity: usize,
}

impl RxDescriptor {
    /// A freshly armed descriptor: hardware-owned, no status, ready to be
    /// filled.
    pub open spec fn armed_spec(capacity: usize, end_of_ring: bool) -> RxDescriptor {
        RxDescriptor {
            own: true,
            first: false,
            last: false,
            frame_len: 0,
            checksum_error: false,
            error: false,
            crc_error: false,
            receive_error: false,
            watchdog_timeout_error: false,
            late_collision_error: false,
            giant_frame_error: false,
            overflow_error: false,
            descriptor_error: false,
            end_of_ring,
            capacity,
        }
    }

    /// Build a descriptor over a region of the given size.
    pub fn new(capacity: usize, end_of_ring: bool) -> (d: RxDescriptor)
        ensures
            d == RxDescriptor::armed_spec(capacity, end_of_ring),
    {
        RxDescriptor {
            own: true,
            first: false,
            last: false,
            frame_len: 0,
            checksum_error: false,
            error: false,
            crc_error: false,
            receive_error: false,
            watchdog_timeout_error: false,
            late_collision_error: false,
            giant_frame_error: false,
            overflow_error: false,
            descriptor_error: false,
            end_of_ring,
            capacity,
        }
    }

    /// The state a descriptor is put back into when its frame has been
    /// consumed: status cleared, ownership re-armed to hardware.  The region
    /// binding (`end_of_ring`, `capacity`) is kept.
    pub open spec fn reset_spec(self) -> RxDescriptor {
        RxDescriptor::armed_spec(self.capacity, self.end_of_ring)
    }

    /// Which error a fully received frame is reported with, if any: the
    /// per-cause flags count only under the summary bit, and are consulted in
    /// the fixed priority order CRC, receive, watchdog timeout, late
    /// collision, giant frame, overflow, descriptor.
    pub open spec fn error_kind(self) -> Option<ReceiveError> {
        if !self.error {
            None
        } else if self.crc_error {
            Some(ReceiveError::Crc)
        } else if self.receive_error {
            Some(ReceiveError::Receive)
        } else if self.watchdog_timeout_error {
            Some(ReceiveError::WatchdogTimeout)
        } else if self.late_collision_error {
            Some(ReceiveError::LateCollision)
        } else if self.giant_frame_error {
            Some(ReceiveError::GiantFrame)
        } else if self.overflow_error {
            Some(ReceiveError::Overflow)
        } else if self.descriptor_error {
            Some(ReceiveError::Descriptor)
        } else {
            None
        }
    }

    /// Report the frame's error classification, exactly as `error_kind`
    /// states it.
    pub fn classify(&self) -> (e: Option<ReceiveError>)
        ensures
            e == self.error_kind(),
    {
        if !self.error {
            None
        } else if self.crc_error {
            Some(ReceiveError::Crc)
        } else if self.receive_error {
            Some(ReceiveError::Receive)
        } else if self.watchdog_timeout_error {
            Some(ReceiveError::WatchdogTimeout)
        } else if self.late_collision_error {
            Some(ReceiveError::LateCollision)
        } else if self.giant_frame_error {
            Some(ReceiveError::GiantFrame)
        } else if self.overflow_error {
            Some(ReceiveError::Overflow)
        } else if self.descriptor_error {
            Some(ReceiveError::Descriptor)
        } else {
            None
        }
    }
}

/// Geometry of the receive ring: a single backing buffer of `buffer_size`
/// bytes is cut into `number_of_descriptors` regions; every region but the
/// last is `default_descriptor_buffer_size` bytes, and the last absorbs the
/// remainder, so the region sizes sum to exactly `buffer_size`.
#[derive(Debug, Clone, Copy, PartialEq, Eq, Structural)]
pub struct RxConfig {
    /// Total bytes backing all descriptor regions.
    pub buffer_size: usize,
    /// Ring depth.
    pub number_of_descriptors: usize,
    /// Bytes per region, except for the last region.
    pub default_descriptor_buffer_size: usize,
}

impl RxConfig {
    /// The arithmetic a configuration must satisfy: at least one descriptor,
    /// non-empty regions, and a buffer large enough that the last region is
    /// non-empty too.
    pub open spec fn valid(self) -> bool {
        &&& 1 <= self.number_of_descriptors
        &&& 1 <= self.default_descriptor_buffer_size
        &&& (self.number_of_descriptors - 1) * self.default_descriptor_buffer_size
            < self.buffer_size
    }

    /// Byte offset of descriptor `i`'s region inside the backing buffer.
    pub open spec fn region_offset(self, i: int) -> int {
        i * self.default_descriptor_buffer_size
    }

    /// Size in bytes of descriptor `i`'s region.
    pub open spec fn region_size(self, i: int) -> int {
        if i == self.number_of_descriptors - 1 {
            self.buffer_size - (self.number_of_descriptors - 1)
                * self.default_descriptor_buffer_size
        } else {
            self.default_descriptor_buffer_size as int
        }
    }

    /// Every region ends where it should: within the buffer, and the last
    /// region ends exactly at `buffer_size`.
    pub proof fn lemma_region_in_buffer(self, i: int)
        requires
            self.valid(),
            0 <= i < self.number_of_descriptors,
        ensures
            0 <= self.region_offset(i),
            self.region_offset(i) + self.region_size(i) <= self.buffer_size,
            1 <= self.region_size(i),
    {
        let d = self.default_descriptor_buffer_size as int;
        let n = self.number_of_descriptors as int;
        assert(0 <= i * d && i * d <= (n - 1) * d && (i + 1) * d == i * d + d) by (nonlinear_arith)
            requires 0 <= i <= n - 1 && 0 < d;
        if i < n - 1 {
            assert((i + 1) * d <= (n - 1) * d) by (nonlinear_arith)
                requires 0 <= i + 1 <= n - 1 && 0 < d;
        }
    }

    /// Size in bytes of the region belonging to descriptor `descriptor_index`.
    pub fn descriptor_buffer_size(&self, descriptor_index: usize) -> (size: usize)
        requires
            self.valid(),
            descriptor_index < self.number_of_descriptors,
        ensures
            size == self.region_size(descriptor_index as int),
    {
        proof {
            self.lemma_region_in_buffer(descriptor_index as int);
        }
        let number_of_default_descriptors = self.number_of_descriptors - 1;
        if descriptor_index == number_of_default_descriptors {
            self.buffer_size - number_of_default_descriptors * self.default_descriptor_buffer_size
        } else {
            self.default_descriptor_buffer_size
        }
    }

    /// Byte offset of the region belonging to descriptor `descriptor_index`.
    pub fn descriptor_buffer_offset(&self, descriptor_index: usize) -> (offset: usize)
        requires
            self.valid(),
            descriptor_index < self.number_of_descriptors,
        ensures
            offset == self.region_offset(descriptor_index as int),
    {
        proof {
            self.lemma_region_in_buffer(descriptor_index as int);
        }
        descriptor_index * self.default_descriptor_buffer_size
    }
}

impl Default for RxConfig {
    /// The stock geometry: 128 descriptors of 64 bytes each, with the last
    /// region widened to hold a full maximum-size frame.
    fn default() -> (config: RxConfig)
        ensures
            config.number_of_descriptors == 128,
            config.default_descriptor_buffer_size == 64,
            config.buffer_size == 64 * 127 + crate::MTU,
            config.valid(),
    {
        let number_of_descriptors: usize = 128;
        let default_descriptor_buffer_size: usize = 64;
        RxConfig {
            buffer_size: default_descriptor_buffer_size * (number_of_descriptors - 1) + crate::MTU,
            number_of_descriptors,
            default_descriptor_buffer_size,
        }
    }
}

/// Whether the descriptor at the cursor starts a fully handed-over frame:
/// software-owned and marked as a first segment.
pub open spec fn frame_available(s: Seq<RxDescriptor>, next: int) -> bool {
    !s[next].own && s[next].first
}

/// What following a frame's descriptor chain from descriptor `j` finds.
pub enum ChainOutcome {
    /// The chain ends with the last-segment descriptor at this index.
    Complete(int),
    /// A descriptor of the chain is still hardware-owned: the frame is only
    /// partially received.
    Incomplete,
    /// The chain would run past the ring's final descriptor: the ring is
    /// misconfigured for the frames it is receiving.
    Overrun,
}

/// Follow a frame's chain from descriptor `j` (already known to be
/// software-owned): stop at the first last-segment mark, give up at the
/// first hardware-owned descriptor, and report an overrun if the ring ends
/// first.
pub open spec fn chain_from(s: Seq<RxDescriptor>, j: int) -> ChainOutcome
    decreases s.len() - j,
{
    if j < 0 || j >= s.len() {
        ChainOutcome::Overrun
    } else if s[j].last {
        ChainOutcome::Complete(j)
    } else if j + 1 >= s.len() {
        ChainOutcome::Overrun
    } else if s[j + 1].own {
        ChainOutcome::Incomplete
    } else {
        chain_from(s, j + 1)
    }
}

/// The receive ring: a fixed array of descriptors in volatile cells, one
/// contiguous backing buffer partitioned into per-descriptor regions, and a
/// cursor at the next region expected to start a frame.
pub struct RxDevice {
    pub config: RxConfig,
    pub buffer: Vec<u8>,
    pub descriptors: Vec<volatile::Volatile<RxDescriptor>>,
    pub next_descriptor: usize,
}

impl RxDevice {
    /// The descriptor values currently stored in the ring's cells.
    pub open spec fn descs(self) -> Seq<RxDescriptor> {
        self.descriptors@.map(
            |i: int, c: volatile::Volatile<RxDescriptor>| dma::rx_descriptor_value(c),
        )
    }

    /// Ring depth.
    pub open spec fn n(self) -> int {
        self.config.number_of_descriptors as int
    }

    /// Structural well-formedness: valid geometry, matching lengths, cursor
    /// in range, and every descriptor bound to its region with the
    /// end-of-ring mark on the final one.  The status fields are free: the
    /// hardware may write them at any time.
    pub open spec fn wf(self) -> bool {
        &&& self.config.valid()
        &&& self.descriptors@.len() == self.n()
        &&& self.buffer@.len() == self.config.buffer_size
        &&& (self.next_descriptor as int) < self.n()
        &&& forall|i: int|
            0 <= i < self.n() ==> (#[trigger] self.descs()[i]).capacity
                == self.config.region_size(i)
        &&& forall|i: int|
            0 <= i < self.n() ==> (#[trigger] self.descs()[i]).end_of_ring == (i == self.n() - 1)
    }

    /// Whether the cursor starts an available frame.
    pub open spec fn available(self) -> bool {
        frame_available(self.descs(), self.next_descriptor as int)
    }

    /// The chain walk starting at the cursor.
    pub open spec fn chain(self) -> ChainOutcome {
        chain_from(self.descs(), self.next_descriptor as int)
    }

    /// The bytes of the frame whose chain ends at descriptor `last`: they
    /// start at the cursor's region offset and run for the frame length the
    /// last descriptor records.
    pub open spec fn frame_bytes(self, last: int) -> Seq<u8> {
        let off = self.config.region_offset(self.next_descriptor as int);
        self.buffer@.subrange(off, off + self.descs()[last].frame_len)
    }

    /// The configuration invariant `receive` relies on: if a frame is due to
    /// be walked, its chain stays inside the ring, and if it is due to be
    /// delivered, its recorded length stays inside the chain already walked.
    /// A violation is a fatal misconfiguration — the last region was sized
    /// too small for the frames the ring receives — and not a recoverable
    /// condition; `is_receive_safe` detects it.
    pub open spec fn receive_safe(self) -> bool {
        self.available() && !self.descs()[self.next_descriptor as int].checksum_error
            ==> match self.chain() {
            ChainOutcome::Overrun => false,
            ChainOutcome::Incomplete => true,
            ChainOutcome::Complete(last) => self.descs()[last].error_kind() is None
                ==> self.config.region_offset(self.next_descriptor as int)
                    + self.descs()[last].frame_len
                    <= self.config.region_offset(last) + self.config.region_size(last),
        }
    }

    /// How `receive` leaves the ring after consuming the chain that ends at
    /// descriptor `last`: every descriptor of the chain is reset and re-armed
    /// for the hardware, everything else is untouched, and the cursor moves
    /// just past the chain, wrapping at the ring's end.
    pub open spec fn recycled(pre: RxDevice, post: RxDevice, last: int) -> bool {
        &&& post.descs().len() == pre.descs().len()
        &&& forall|k: int|
            0 <= k < pre.n() && !(pre.next_descriptor <= k <= last)
                ==> (#[trigger] post.descs()[k]) == pre.descs()[k]
        &&& forall|k: int|
            pre.next_descriptor <= k <= last
                ==> (#[trigger] post.descs()[k]) == pre.descs()[k].reset_spec()
        &&& post.next_descriptor as int == (last + 1) % pre.n()
        &&& post.config == pre.config
        &&& post.buffer@ == pre.buffer@
    }

    /// Build the ring: allocate the zeroed backing buffer, slice it into
    /// regions, and arm every descriptor for the hardware.  A configuration
    /// whose region arithmetic does not add up is rejected.
    pub fn new(config: RxConfig) -> (r: Result<RxDevice, Error>)
        ensures
            match r {
                Ok(rx) => {
                    &&& config.valid()
                    &&& rx.wf()
                    &&& rx.config == config
                    &&& rx.next_descriptor == 0
                    &&& forall|i: int|
                        0 <= i < rx.n() ==> (#[trigger] rx.descs()[i]) == RxDescriptor::armed_spec(
                            config.region_size(i) as usize,
                            i == rx.n() - 1,
                        )
                    &&& forall|i: int| 0 <= i < rx.buffer@.len() ==> rx.buffer@[i] == 0u8
                },
                Err(e) => {
                    &&& e == Error::Initialization(InitError::InvalidConfiguration)
                    &&& !config.valid()
                },
            },
    {
        if config.number_of_descriptors < 1 || config.default_descriptor_buffer_size < 1 {
            return Err(Error::Initialization(InitError::InvalidConfiguration));
        }
        let wide_n: u128 = config.number_of_descriptors as u128;
        let wide_d: u128 = config.default_descriptor_buffer_size as u128;
        proof {
            assert((wide_n - 1) * wide_d < 0xffff_ffff_ffff_ffff_ffff_ffff_ffff_ffffu128)
                by (nonlinear_arith)
                requires
                    1 <= wide_n < 0x1_0000_0000_0000_0000,
                    wide_d < 0x1_0000_0000_0000_0000,
            ;
        }
        let wide_product: u128 = (wide_n - 1) * wide_d;
        if !(wide_product < config.buffer_size as u128) {
            return Err(Error::Initialization(InitError::InvalidConfiguration));
        }
        let mut buffer: Vec<u8> = Vec::new();
        let mut b: usize = 0;
        while b < config.buffer_size
            invariant
                buffer@.len() == b,
                b <= config.buffer_size,
                forall|i: int| 0 <= i < buffer@.len() ==> buffer@[i] == 0u8,
            decreases config.buffer_size - b,
        {
            buffer.push(0u8);
            b = b + 1;
        }
        let n = config.number_of_descriptors;
        let mut descriptors: Vec<volatile::Volatile<RxDescriptor>> = Vec::new();
        let mut i: usize = 0;
        while i < n
            invariant
                config.valid(),
                n == config.number_of_descriptors,
                descriptors@.len() == i,
                i <= n,
                forall|k: int|
                    0 <= k < i ==> dma::rx_descriptor_value(#[trigger] descriptors@[k])
                        == RxDescriptor::armed_spec(
                        config.region_size(k) as usize,
                        k == n - 1,
                    ),
            decreases n - i,
        {
            let size = config.descriptor_buffer_size(i);
            let descriptor = RxDescriptor::new(size, i == n - 1);
            descriptors.push(dma::rx_cell_new(descriptor));
            i = i + 1;
        }
        Ok(RxDevice { config, buffer, descriptors, next_descriptor: 0 })
    }

    /// Non-blocking availability check: true iff the descriptor at the
    /// cursor is software-owned and marked as a first segment.
    pub fn new_data_received(&self) -> (b: bool)
        requires
            self.wf(),
        ensures
            b == self.available(),
    {
        let descriptor = dma::rx_cell_read(&self.descriptors[self.next_descriptor]);
        !descriptor.own && descriptor.first
    }

    /// Check the configuration invariant `receive` requires, on the ring's
    /// current contents.  A `false` is fatal: the chain at the cursor runs
    /// past the ring's end (or records a length beyond it), which means the
    /// last region was sized too small for the frames being received.
    pub fn is_receive_safe(&self) -> (b: bool)
        requires
            self.wf(),
        ensures
            b == self.receive_safe(),
    {
        let descriptor = dma::rx_cell_read(&self.descriptors[self.next_descriptor]);
        if descriptor.own || !descriptor.first {
            return true;
        }
        if descriptor.checksum_error {
            return true;
        }
        let ghost s = self.descs();
        let mut last_index = self.next_descriptor;
        let mut last_descriptor = descriptor;
        while !last_descriptor.last
            invariant
                self.wf(),
                self.next_descriptor <= last_index < self.n(),
                last_descriptor == self.descs()[last_index as int],
                s == self.descs(),
                frame_available(s, self.next_descriptor as int),
                !s[self.next_descriptor as int].checksum_error,
                chain_from(s, self.next_descriptor as int) == chain_from(s, last_index as int),
            decreases self.n() - last_index,
        {
            if last_index + 1 >= self.descriptors.len() {
                return false;
            }
            let d = dma::rx_cell_read(&self.descriptors[last_index + 1]);
            if d.own {
                return true;
            }
            last_index = last_index + 1;
            last_descriptor = d;
        }
        match last_descriptor.classify() {
            Some(_) => true,
            None => {
                let offset = self.config.descriptor_buffer_offset(self.next_descriptor);
                let last_offset = self.config.descriptor_buffer_offset(last_index);
                let last_size = self.config.descriptor_buffer_size(last_index);
                (offset as u128) + (last_descriptor.frame_len as u128)
                    <= (last_offset as u128) + (last_size as u128)
            },
        }
    }

    /// Take one frame off the ring and hand its bytes to `consumer`.
    ///
    /// Nothing available, or a frame only partially received, is the
    /// transient `Exhausted`; a checksum-flagged frame fails immediately and
    /// consumes nothing.  Otherwise the chain is walked to its last
    /// descriptor, whose error flags are classified in fixed priority order;
    /// an error-free frame's bytes go to `consumer`, whose own failure is
    /// passed through as `Processing`.  In every walked case — error, clean,
    /// or consumer failure — the whole chain is reset and re-armed for the
    /// hardware and the cursor advances past it, so a failed parse never
    /// leaks descriptors.
    pub fn receive<T, F: FnOnce(&[u8]) -> Result<T, Error>>(&mut self, consumer: F) -> (r: Result<
        T,
        ReceiveError,
    >)
        requires
            old(self).wf(),
            old(self).receive_safe(),
            forall|b: &[u8]| #[trigger] call_requires(consumer, (b,)),
        ensures
            final(self).wf(),
            final(self).config == old(self).config,
            final(self).buffer@ == old(self).buffer@,
            !old(self).available() ==> r == Err::<T, ReceiveError>(
                ReceiveError::Processing(Error::Exhausted),
            ) && *final(self) == *old(self),
            old(self).available() && old(self).descs()[old(self).next_descriptor as int].checksum_error
                ==> r == Err::<T, ReceiveError>(ReceiveError::Processing(Error::Checksum))
                && *final(self) == *old(self),
            old(self).available() && !old(self).descs()[old(self).next_descriptor as int].checksum_error
                && old(self).chain() is Incomplete ==> r == Err::<T, ReceiveError>(
                ReceiveError::Processing(Error::Exhausted),
            ) && *final(self) == *old(self),
            old(self).available()
                && !old(self).descs()[old(self).next_descriptor as int].checksum_error ==> (
            old(self).chain() matches ChainOutcome::Complete(last) ==> {
                &&& RxDevice::recycled(*old(self), *final(self), last)
                &&& match old(self).descs()[last].error_kind() {
                    Some(k) => r == Err::<T, ReceiveError>(k),
                    None => exists|b: &[u8], out: Result<T, Error>|
                        {
                            &&& b@ == old(self).frame_bytes(last)
                            &&& #[trigger] call_ensures(consumer, (b,), out)
                            &&& r == (match out {
                                Ok(t) => Ok::<T, ReceiveError>(t),
                                Err(e) => Err::<T, ReceiveError>(ReceiveError::Processing(e)),
                            })
                        },
                }
            }),
    {
        let ghost o = *old(self);
        let descriptor_index = self.next_descriptor;
        let descriptor = dma::rx_cell_read(&self.descriptors[descriptor_index]);

        if descriptor.own || !descriptor.first {
            return Err(ReceiveError::Processing(Error::Exhausted));
        }
        if descriptor.checksum_error {
            return Err(ReceiveError::Processing(Error::Checksum));
        }

        // Find the last descriptor belonging to the received frame.  The
        // chain may not wrap: under `receive_safe` the walk stays strictly
        // inside the ring, so no run-time wraparound check is needed.
        let ghost s = o.descs();
        let mut last_index = descriptor_index;
        let mut last_descriptor = descriptor;
        while !last_descriptor.last
            invariant
                *self == o,
                o.wf(),
                o.receive_safe(),
                descriptor_index == o.next_descriptor,
                descriptor_index <= last_index < o.n(),
                s == o.descs(),
                !s[descriptor_index as int].own,
                s[descriptor_index as int].first,
                !s[descriptor_index as int].checksum_error,
                last_descriptor == s[last_index as int],
                chain_from(s, descriptor_index as int) == chain_from(s, last_index as int),
            decreases o.n() - last_index,
        {
            proof {
                assert(chain_from(s, last_index as int) != ChainOutcome::Overrun);
            }
            last_index = last_index + 1;
            last_descriptor = dma::rx_cell_read(&self.descriptors[last_index]);
            if last_descriptor.own {
                return Err(ReceiveError::Processing(Error::Exhausted));
            }
        }
        proof {
            assert(o.chain() == ChainOutcome::Complete(last_index as int));
        }

        // Classify the last descriptor's error flags in fixed priority
        // order, then deliver the frame if it is clean.
        let error = last_descriptor.classify();
        let ret: Result<T, ReceiveError> = match error {
            Some(e) => Err(e),
            None => {
                let offset = self.config.descriptor_buffer_offset(descriptor_index);
                let len = last_descriptor.frame_len;
                proof {
                    o.config.lemma_region_in_buffer(last_index as int);
                }
                let data = slice_subrange(self.buffer.as_slice(), offset, offset + len);
                let out = consumer(data);
                proof {
                    assert(data@ == o.frame_bytes(last_index as int));
                }
                match out {
                    Ok(t) => Ok(t),
                    Err(e) => Err(ReceiveError::Processing(e)),
                }
            },
        };

        // Reset every descriptor of the chain — clear status, re-arm
        // ownership to hardware — and advance the cursor past it.
        let mut i = descriptor_index;
        while i <= last_index
            invariant
                o.wf(),
                descriptor_index <= i <= last_index + 1,
                descriptor_index == o.next_descriptor,
                descriptor_index <= last_index < o.n(),
                self.descriptors@.len() == o.descriptors@.len(),
                self.config == o.config,
                self.buffer@ == o.buffer@,
                self.next_descriptor == o.next_descriptor,
                forall|k: int|
                    0 <= k < o.n() && !(descriptor_index <= k < i) ==> (#[trigger] self.descs()[k])
                        == o.descs()[k],
                forall|k: int|
                    descriptor_index <= k < i ==> (#[trigger] self.descs()[k])
                        == o.descs()[k].reset_spec(),
            decreases last_index + 1 - i,
        {
            let d = dma::rx_cell_read(&self.descriptors[i]);
            proof {
                assert(d == self.descs()[i as int]);
                assert(d == o.descs()[i as int]);
            }
            let fresh = RxDescriptor::new(d.capacity, d.end_of_ring);
            let ghost prev = *self;
            dma::rx_cell_write(&mut self.descriptors[i], fresh);
            proof {
                assert(self.descs() =~= prev.descs().update(i as int, fresh));
            }
            i = i + 1;
        }
        let ghost after_reset = *self;
        self.next_descriptor = if last_index + 1 == self.descriptors.len() {
            0
        } else {
            last_index + 1
        };
        proof {
            assert(self.descs() == after_reset.descs());
            let li = last_index as int;
            let n = o.n();
            if li + 1 == n {
                assert((li + 1) % n == 0) by (nonlinear_arith)
                    requires li + 1 == n && n > 0;
            } else {
                assert((li + 1) % n == li + 1) by (nonlinear_arith)
                    requires 0 <= li + 1 < n;
            }
            assert(RxDevice::recycled(o, *self, li));
            assert(self.wf());
        }
        ret
    }

    /// The descriptor currently stored at `index`.
    pub fn descriptor_at(&self, index: usize) -> (d: RxDescriptor)
        requires
            self.wf(),
            (index as int) < self.n(),
        ensures
            d == self.descs()[index as int],
    {
        dma::rx_cell_read(&self.descriptors[index])
    }

    /// The cell of the ring's first descriptor; its address is what the DMA
    /// engine's receive-list base register is programmed with, once, at
    /// initialization.
    pub fn front_of_queue(&self) -> (c: &volatile::Volatile<RxDescriptor>)
        requires
            self.wf(),
        ensures
            dma::rx_descriptor_value(*c) == self.descs()[0],
    {
        &self.descriptors[0]
    }

    /// The DMA engine's half of the ownership protocol, for host-side
    /// simulation and tests: overwrite the status of descriptor `index` as
    /// the engine does when it fills a region.  The region binding
    /// (`end_of_ring`, `capacity`) is fixed at construction and preserved.
    pub fn dma_write_descriptor(&mut self, index: usize, descriptor: RxDescriptor)
        requires
            old(self).wf(),
            (index as int) < old(self).n(),
        ensures
            final(self).wf(),
            final(self).config == old(self).config,
            final(self).buffer@ == old(self).buffer@,
            final(self).next_descriptor == old(self).next_descriptor,
            final(self).descs() == old(self).descs().update(
                index as int,
                RxDescriptor {
                    end_of_ring: old(self).descs()[index as int].end_of_ring,
                    capacity: old(self).descs()[index as int].capacity,
                    ..descriptor
                },
            ),
    {
        let current = dma::rx_cell_read(&self.descriptors[index]);
        let merged = RxDescriptor {
            end_of_ring: current.end_of_ring,
            capacity: current.capacity,
            ..descriptor
        };
        dma::rx_cell_write(&mut self.descriptors[index], merged);
        proof {
            assert(self.descs() =~= old(self).descs().update(
                index as int,
                RxDescriptor {
                    end_of_ring: old(self).descs()[index as int].end_of_ring,
                    capacity: old(self).descs()[index as int].capacity,
                    ..descriptor
                },
            ));
        }
    }

    /// The DMA engine's half of the data path, for host-side simulation and
    /// tests: deposit frame bytes into the backing buffer at `offset`.
    pub fn dma_write_buffer(&mut self, offset: usize, bytes: &[u8])
        requires
            old(self).wf(),
            offset + bytes@.len() <= old(self).config.buffer_size,
        ensures
            final(self).wf(),
            final(self).config == old(self).config,
            final(self).descs() == old(self).descs(),
            final(self).next_descriptor == old(self).next_descriptor,
            final(self).buffer@.len() == old(self).buffer@.len(),
            forall|i: int|
                0 <= i < final(self).buffer@.len() ==> (#[trigger] final(self).buffer@[i])
                    == if offset <= i < offset + bytes@.len() {
                    bytes@[i - offset]
                } else {
                    old(self).buffer@[i]
                },
    {
        let mut i: usize = 0;
        while i < bytes.len()
            invariant
                old(self).wf(),
                i <= bytes@.len(),
                offset + bytes@.len() <= old(self).config.buffer_size,
                self.config == old(self).config,
                self.descriptors@ == old(self).descriptors@,
                self.next_descriptor == old(self).next_descriptor,
                self.buffer@.len() == old(self).buffer@.len(),
                old(self).buffer@.len() == old(self).config.buffer_size,
                forall|k: int|
                    0 <= k < self.buffer@.len() ==> (#[trigger] self.buffer@[k]) == if offset <= k
                        < offset + i {
                        bytes@[k - offset]
                    } else {
                        old(self).buffer@[k]
                    },
            decreases bytes@.len() - i,
        {
            let b = bytes[i];
            self.buffer[offset + i] = b;
            i = i + 1;
        }
        proof {
            assert(self.descs() =~= old(self).descs());
            assert(self.wf());
        }
    }
}

/// With every descriptor still hardware-owned — no frame pending — the ring
/// reports nothing available, and `receive` therefore returns the transient
/// `Exhausted`.
pub proof fn lemma_no_frame_pending(s: Seq<RxDescriptor>, next: int)
    requires
        0 <= next < s.len(),
        forall|i: int| 0 <= i < s.len() ==> (#[trigger] s[i]).own,
    ensures
        !frame_available(s, next),
{
}

/// A frame held by a single descriptor — marked both first and last — walks
/// to completion right where it starts, so consuming it advances the cursor
/// by exactly one.
pub proof fn lemma_single_descriptor_chain(s: Seq<RxDescriptor>, i: int)
    requires
        0 <= i < s.len(),
        s[i].last,
    ensures
        chain_from(s, i) == ChainOutcome::Complete(i),
{
}

/// A frame spanning `k` consecutive descriptors — none marked last before
/// the k-th, all handed back by the hardware — walks to completion exactly
/// at its k-th descriptor.
pub proof fn lemma_chain_complete(s: Seq<RxDescriptor>, start: int, k: int)
    requires
        0 <= start,
        1 <= k,
        start + k <= s.len(),
        forall|j: int| start <= j < start + k - 1 ==> !(#[trigger] s[j]).last,
        forall|j: int| start + 1 <= j < start + k ==> !(#[trigger] s[j]).own,
        s[start + k - 1].last,
    ensures
        chain_from(s, start) == ChainOutcome::Complete(start + k - 1),
    decreases k,
{
    if k > 1 {
        lemma_chain_complete(s, start + 1, k - 1);
    }
}

/// While any descriptor of the chain is still hardware-owned, the walk
/// reports the frame as incomplete: `receive` consumes nothing until every
/// descriptor up to the last-segment mark has been handed back.
pub proof fn lemma_chain_incomplete(s: Seq<RxDescriptor>, start: int, m: int)
    requires
        0 <= start < m < s.len(),
        forall|j: int| start <= j < m ==> !(#[trigger] s[j]).last,
        forall|j: int| start < j < m ==> !(#[trigger] s[j]).own,
        s[m].own,
    ensures
        chain_from(s, start) == ChainOutcome::Incomplete,
    decreases m - start,
{
    if start + 1 < m {
        lemma_chain_incomplete(s, start + 1, m);
    }
}

/// A chain with no last-segment mark anywhere up to the ring's final
/// descriptor overruns the ring: the fatal misconfiguration that
/// `is_receive_safe` detects.
pub proof fn lemma_chain_overrun(s: Seq<RxDescriptor>, start: int)
    requires
        0 <= start < s.len(),
        forall|j: int| start <= j < s.len() ==> !(#[trigger] s[j]).last,
        forall|j: int| start < j < s.len() ==> !(#[trigger] s[j]).own,
    ensures
        chain_from(s, start) == ChainOutcome::Overrun,
    decreases s.len() - start,
{
    if start + 1 < s.len() {
        lemma_chain_overrun(s, start + 1);
    }
}

/// Error priority: on a last descriptor whose summary bit is set, a CRC
/// error is reported ahead of every other flag — overflow included — no
/// matter how many are set at once.
pub proof fn lemma_crc_error_priority(d: RxDescriptor)
    requires
        d.error,
        d.crc_error,
    ensures
        d.error_kind() == Some(ReceiveError::Crc),
{
}

} // verus!
