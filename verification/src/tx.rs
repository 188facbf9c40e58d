//! The transmit side: descriptor layout, ring configuration, and the ring
//! itself with buffer hand-off and completion cleanup.

use vstd::prelude::*;
use crate::dma;

verus! {

/// One transmit descriptor: the control word shared with the DMA engine.
///
/// The frame payload handed to a slot is software-side bookkeeping and lives
/// next to the ring, keyed by the same index; the ownership bit here is the
/// single bit of truth for who may touch the slot.
#[derive(Debug, Clone, Copy, PartialEq, Eq, Structural)]
pub struct TxDescriptor {
    /// Ownership bit: true while the DMA engine owns the descriptor and is
    /// sending its buffer; false once transmission is complete.
    pub own: bool,
    /// Marks the ring's final descriptor so the hardware wraps to index 0.
    pub end_of_ring: bool,
}

impl TxDescriptor {
    /// A fresh, software-owned descriptor with no frame attached.
    pub open spec fn empty_spec(end_of_ring: bool) -> TxDescriptor {
        TxDescriptor { own: false, end_of_ring }
    }

    /// Build an empty descriptor.
    pub fn empty(end_of_ring: bool) -> (d: TxDescriptor)
        ensures
            d == TxDescriptor::empty_spec(end_of_ring),
    {
        TxDescriptor { own: false, end_of_ring }
    }
}

/// Geometry of the transmit ring.
#[derive(Debug, Clone, Copy, PartialEq, Eq, Structural)]
pub struct TxConfig {
    /// Ring depth.
    pub number_of_descriptors: usize,
}

impl Default for TxConfig {
    fn default() -> (config: TxConfig)
        ensures
            config.number_of_descriptors == 64,
    {
        TxConfig { number_of_descriptors: 64 }
    }
}

/// The slot buffers after one cleanup pass over descriptors `descs`: every
/// software-owned slot — its transmission complete — has released its
/// buffer; hardware-owned slots keep theirs.
pub open spec fn cleaned_buffers(descs: Seq<TxDescriptor>, bufs: Seq<Option<Seq<u8>>>) -> Seq<
    Option<Seq<u8>>,
> {
    Seq::new(
        bufs.len(),
        |i: int|
            if i < descs.len() && !descs[i].own {
                None
            } else {
                bufs[i]
            },
    )
}

/// How many slots currently hold a buffer awaiting completion cleanup.
pub open spec fn live_buffers(bufs: Seq<Option<Seq<u8>>>) -> int
    decreases bufs.len(),
{
    if bufs.len() == 0 {
        0
    } else {
        live_buffers(bufs.drop_last()) + if bufs.last() is Some {
            1int
        } else {
            0int
        }
    }
}

/// Idempotence of cleanup: with no new completions in between, a second
/// pass over the same descriptors releases nothing — no buffer is freed
/// twice.
pub proof fn lemma_cleanup_idempotent(descs: Seq<TxDescriptor>, bufs: Seq<Option<Seq<u8>>>)
    ensures
        cleaned_buffers(descs, cleaned_buffers(descs, bufs)) == cleaned_buffers(descs, bufs),
{
    assert(cleaned_buffers(descs, cleaned_buffers(descs, bufs)) =~= cleaned_buffers(descs, bufs));
}

/// The transmit ring: a fixed array of descriptors in volatile cells, the
/// frame buffer each slot currently owns, and a cursor at the next slot to
/// receive a frame.
pub struct TxDevice {
    pub descriptors: Vec<volatile::Volatile<TxDescriptor>>,
    pub buffers: Vec<Option<Vec<u8>>>,
    pub next_descriptor: usize,
}

impl TxDevice {
    /// The descriptor values currently stored in the ring's cells.
    pub open spec fn descs(self) -> Seq<TxDescriptor> {
        self.descriptors@.map(
            |i: int, c: volatile::Volatile<TxDescriptor>| dma::tx_descriptor_value(c),
        )
    }

    /// The byte contents of each slot's owned buffer, if any.
    pub open spec fn bufs(self) -> Seq<Option<Seq<u8>>> {
        self.buffers@.map(
            |i: int, b: Option<Vec<u8>>|
                match b {
                    Some(v) => Some(v@),
                    None => None,
                },
        )
    }

    /// Ring depth.
    pub open spec fn n(self) -> int {
        self.descriptors@.len() as int
    }

    /// Structural well-formedness: a non-empty ring, one buffer slot per
    /// descriptor, cursor in range, and the end-of-ring mark exactly on the
    /// final descriptor.
    pub open spec fn wf(self) -> bool {
        &&& 1 <= self.n()
        &&& self.buffers@.len() == self.n()
        &&& (self.next_descriptor as int) < self.n()
        &&& forall|i: int|
            0 <= i < self.n() ==> (#[trigger] self.descs()[i]).end_of_ring == (i == self.n() - 1)
    }

    /// Build the ring with every descriptor software-owned and empty.
    pub fn new(config: TxConfig) -> (t: TxDevice)
        requires
            1 <= config.number_of_descriptors,
        ensures
            t.wf(),
            t.n() == config.number_of_descriptors,
            t.next_descriptor == 0,
            forall|i: int|
                0 <= i < t.n() ==> (#[trigger] t.descs()[i]) == TxDescriptor::empty_spec(
                    i == t.n() - 1,
                ),
            forall|i: int| 0 <= i < t.n() ==> (#[trigger] t.bufs()[i]) is None,
    {
        let n = config.number_of_descriptors;
        let mut descriptors: Vec<volatile::Volatile<TxDescriptor>> = Vec::new();
        let mut buffers: Vec<Option<Vec<u8>>> = Vec::new();
        let mut i: usize = 0;
        while i < n
            invariant
                descriptors@.len() == i,
                buffers@.len() == i,
                i <= n,
                forall|k: int|
                    0 <= k < i ==> dma::tx_descriptor_value(#[trigger] descriptors@[k])
                        == TxDescriptor::empty_spec(k == n - 1),
                forall|k: int| 0 <= k < i ==> (#[trigger] buffers@[k]) is None,
            decreases n - i,
        {
            let descriptor = TxDescriptor::empty(i == n - 1);
            descriptors.push(dma::tx_cell_new(descriptor));
            buffers.push(None);
            i = i + 1;
        }
        TxDevice { descriptors, buffers, next_descriptor: 0 }
    }

    /// Non-blocking transmit-availability check: true iff the slot at the
    /// cursor is software-owned.
    pub fn descriptor_available(&self) -> (b: bool)
        requires
            self.wf(),
        ensures
            b == !self.descs()[self.next_descriptor as int].own,
    {
        !dma::tx_cell_read(&self.descriptors[self.next_descriptor]).own
    }

    /// Queue one frame: the slot at the cursor takes ownership of `data`,
    /// its descriptor is handed to the hardware, the cursor advances
    /// circularly, and a cleanup pass releases every buffer whose
    /// transmission has completed.
    ///
    /// The caller's poll loop is expected to have seen `descriptor_available`
    /// first; the waiting policy when no slot is free — spin, yield, or
    /// sleep — belongs to that loop, not to the ring.
    pub fn insert(&mut self, data: Vec<u8>)
        requires
            old(self).wf(),
            !old(self).descs()[old(self).next_descriptor as int].own,
        ensures
            final(self).wf(),
            final(self).descs() == old(self).descs().update(
                old(self).next_descriptor as int,
                TxDescriptor {
                    own: true,
                    end_of_ring: old(self).descs()[old(self).next_descriptor as int].end_of_ring,
                },
            ),
            final(self).next_descriptor as int == (old(self).next_descriptor + 1) % old(
                self,
            ).n(),
            final(self).bufs() == cleaned_buffers(
                final(self).descs(),
                old(self).bufs().update(old(self).next_descriptor as int, Some(data@)),
            ),
    {
        let ghost o = *old(self);
        let index = self.next_descriptor;
        let current = dma::tx_cell_read(&self.descriptors[index]);
        let ghost prev = *self;
        self.buffers[index] = Some(data);
        proof {
            assert(self.bufs() =~= prev.bufs().update(index as int, Some(data@)));
        }
        let ghost prev2 = *self;
        dma::tx_cell_write(
            &mut self.descriptors[index],
            TxDescriptor { own: true, end_of_ring: current.end_of_ring },
        );
        proof {
            assert(self.descs() =~= prev2.descs().update(
                index as int,
                TxDescriptor { own: true, end_of_ring: current.end_of_ring },
            ));
            assert(self.bufs() == prev2.bufs());
        }
        let ghost prev3 = *self;
        let len = self.descriptors.len();
        self.next_descriptor = if index + 1 == len {
            0
        } else {
            index + 1
        };
        proof {
            assert(self.descs() == prev3.descs());
            assert(self.bufs() == prev3.bufs());
            let n = o.n();
            if index + 1 == n {
                assert((index + 1) % n == 0) by (nonlinear_arith)
                    requires index + 1 == n && n > 0;
            } else {
                assert((index + 1) % n == index + 1) by (nonlinear_arith)
                    requires 0 <= index + 1 < n;
            }
        }
        self.cleanup();
    }

    /// Release the buffer of every slot whose transmission the hardware has
    /// completed — its descriptor is software-owned again.
    pub fn cleanup(&mut self)
        requires
            old(self).wf(),
        ensures
            final(self).wf(),
            final(self).descs() == old(self).descs(),
            final(self).next_descriptor == old(self).next_descriptor,
            final(self).bufs() == cleaned_buffers(old(self).descs(), old(self).bufs()),
    {
        let mut i: usize = 0;
        while i < self.descriptors.len()
            invariant
                old(self).wf(),
                self.descriptors@ == old(self).descriptors@,
                self.next_descriptor == old(self).next_descriptor,
                self.buffers@.len() == old(self).buffers@.len(),
                i <= self.descriptors@.len(),
                forall|k: int|
                    0 <= k < i ==> (#[trigger] self.bufs()[k]) == cleaned_buffers(
                        old(self).descs(),
                        old(self).bufs(),
                    )[k],
                forall|k: int|
                    i <= k < self.bufs().len() ==> (#[trigger] self.bufs()[k]) == old(
                        self,
                    ).bufs()[k],
            decreases self.descriptors@.len() - i,
        {
            let d = dma::tx_cell_read(&self.descriptors[i]);
            proof {
                assert(d == self.descs()[i as int]);
                assert(self.descs() == old(self).descs());
            }
            if !d.own {
                let ghost prev = *self;
                self.buffers[i] = None;
                proof {
                    assert(self.bufs() =~= prev.bufs().update(i as int, None::<Seq<u8>>));
                }
            }
            i = i + 1;
        }
        proof {
            assert(self.bufs() =~= cleaned_buffers(old(self).descs(), old(self).bufs()));
        }
    }

    /// The cell of the ring's first descriptor; its address is what the DMA
    /// engine's transmit-list base register is programmed with, once, at
    /// initialization.
    pub fn front_of_queue(&self) -> (c: &volatile::Volatile<TxDescriptor>)
        requires
            self.wf(),
        ensures
            dma::tx_descriptor_value(*c) == self.descs()[0],
    {
        &self.descriptors[0]
    }

    /// The descriptor currently stored at `index`.
    pub fn descriptor_at(&self, index: usize) -> (d: TxDescriptor)
        requires
            self.wf(),
            (index as int) < self.n(),
        ensures
            d == self.descs()[index as int],
    {
        dma::tx_cell_read(&self.descriptors[index])
    }

    /// Whether slot `index` still owns a frame buffer.
    pub fn has_buffer(&self, index: usize) -> (b: bool)
        requires
            self.wf(),
            (index as int) < self.n(),
        ensures
            b == (self.bufs()[index as int] is Some),
    {
        proof {
            assert(self.bufs()[index as int] is Some <==> self.buffers@[index as int] is Some);
        }
        self.buffers[index].is_some()
    }

    /// How many slots currently hold a buffer: the diagnostic count that
    /// `insert` grows and `cleanup` shrinks as completions are collected.
    pub fn pending_packets(&self) -> (count: usize)
        requires
            self.wf(),
        ensures
            count == live_buffers(self.bufs()),
    {
        let mut count: usize = 0;
        let mut i: usize = 0;
        while i < self.buffers.len()
            invariant
                self.wf(),
                i <= self.buffers@.len(),
                count == live_buffers(self.bufs().take(i as int)),
                count <= i,
            decreases self.buffers@.len() - i,
        {
            proof {
                assert(self.bufs().take(i as int + 1).drop_last() =~= self.bufs().take(i as int));
                assert(self.bufs().take(i as int + 1).last() == self.bufs()[i as int]);
                assert(self.bufs()[i as int] is Some <==> self.buffers@[i as int] is Some);
            }
            if self.buffers[i].is_some() {
                count = count + 1;
            }
            i = i + 1;
        }
        proof {
            assert(self.bufs().take(self.buffers@.len() as int) =~= self.bufs());
        }
        count
    }

    /// The DMA engine's half of the ownership protocol, for host-side
    /// simulation and tests: mark the transmission of slot `index` complete
    /// by handing its descriptor back to software.
    pub fn dma_complete(&mut self, index: usize)
        requires
            old(self).wf(),
            (index as int) < old(self).n(),
        ensures
            final(self).wf(),
            final(self).descs() == old(self).descs().update(
                index as int,
                TxDescriptor {
                    own: false,
                    end_of_ring: old(self).descs()[index as int].end_of_ring,
                },
            ),
            final(self).bufs() == old(self).bufs(),
            final(self).next_descriptor == old(self).next_descriptor,
    {
        let current = dma::tx_cell_read(&self.descriptors[index]);
        let ghost prev = *self;
        dma::tx_cell_write(
            &mut self.descriptors[index],
            TxDescriptor { own: false, end_of_ring: current.end_of_ring },
        );
        proof {
            assert(self.descs() =~= prev.descs().update(
                index as int,
                TxDescriptor { own: false, end_of_ring: prev.descs()[index as int].end_of_ring },
            ));
            assert(self.bufs() == prev.bufs());
        }
    }
}

} // verus!
