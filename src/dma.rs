//! The DMA-backed receive path: a transfer into a fixed buffer that is
//! re-armed every time it completes, bridged to the main loop through a
//! bounded single-producer/single-consumer queue.

use vstd::prelude::*;

use crate::message::{TargetMsg, TargetToHost, UsartMode};

verus! {

#[verifier::external_type_specification]
#[verifier::external_body]
#[verifier::reject_recursive_types(T)]
pub struct ExQueue<T, const N: usize>(heapless::spsc::Queue<T, N>);

/// How many bytes the queue holds at most.
pub const DMA_QUEUE_CAPACITY: usize = 31;

/// The bytes a queue holds, oldest first.
pub uninterp spec fn queue_items(q: heapless::spsc::Queue<u8, 32>) -> Seq<u8>;

/// Relies on heapless::spsc::Queue::new: a new queue is empty.
#[verifier::external_body]
fn queue_new() -> (q: heapless::spsc::Queue<u8, 32>)
    ensures
        queue_items(q) == Seq::<u8>::empty(),
{
    heapless::spsc::Queue::new()
}

/// Relies on heapless::spsc::Queue::enqueue: with fewer than `N - 1` items
/// the item is appended; otherwise it is handed back and nothing changes.
/// It has no path that panics.
#[verifier::external_body]
fn queue_enqueue(q: &mut heapless::spsc::Queue<u8, 32>, b: u8) -> (r: Result<(), u8>)
    requires
        queue_items(*old(q)).len() <= DMA_QUEUE_CAPACITY,
    ensures
        queue_items(*old(q)).len() < DMA_QUEUE_CAPACITY ==> r is Ok && queue_items(*final(q))
            == queue_items(*old(q)).push(b),
        queue_items(*old(q)).len() >= DMA_QUEUE_CAPACITY ==> (r matches Err(x) && x == b
            && queue_items(*final(q)) == queue_items(*old(q))),
    no_unwind
{
    q.enqueue(b)
}

/// Relies on heapless::spsc::Queue::dequeue: the oldest item leaves, or
/// `None` when the queue is empty. It has no path that panics.
#[verifier::external_body]
fn queue_dequeue(q: &mut heapless::spsc::Queue<u8, 32>) -> (r: Option<u8>)
    ensures
        queue_items(*old(q)).len() == 0 ==> r is None && queue_items(*final(q)) == queue_items(
            *old(q),
        ),
        queue_items(*old(q)).len() > 0 ==> r == Some(queue_items(*old(q))[0]) && queue_items(
            *final(q),
        ) == queue_items(*old(q)).drop_first(),
    no_unwind
{
    q.dequeue()
}

/// Relies on heapless::spsc::Queue::len: the number of items held.
#[verifier::external_body]
fn queue_len(q: &heapless::spsc::Queue<u8, 32>) -> (r: usize)
    ensures
        r == queue_items(*q).len(),
{
    q.len()
}

/// State of the receive transfer.
#[derive(Debug, Clone, Copy, PartialEq, Eq, Structural)]
pub enum DmaState {
    /// No transfer outstanding.
    Idle,
    /// A transfer is armed and running against the buffer.
    Started,
}

/// A completed transfer did not fit the queue. The transfer was re-armed
/// all the same.
#[derive(Debug, Clone, Copy, PartialEq, Eq, Structural)]
pub struct DmaOverflow {
    /// How many of the transfer's bytes were dropped.
    pub dropped: usize,
}

/// What the queue holds after a completed transfer of `buffer`: its bytes
/// are appended in order until the queue is full.
pub open spec fn after_transfer(items: Seq<u8>, buffer: Seq<u8>) -> Seq<u8> {
    if items.len() + buffer.len() <= DMA_QUEUE_CAPACITY {
        items + buffer
    } else {
        items + buffer.subrange(0, DMA_QUEUE_CAPACITY - items.len())
    }
}

/// What the queue holds after several completed transfers, in order.
pub open spec fn after_transfers(items: Seq<u8>, buffers: Seq<Seq<u8>>) -> Seq<u8>
    decreases buffers.len(),
{
    if buffers.len() == 0 {
        items
    } else {
        after_transfers(after_transfer(items, buffers[0]), buffers.drop_first())
    }
}

/// All of `buffers`' bytes, in order.
pub open spec fn concat(buffers: Seq<Seq<u8>>) -> Seq<u8>
    decreases buffers.len(),
{
    if buffers.len() == 0 {
        Seq::<u8>::empty()
    } else {
        buffers[0] + concat(buffers.drop_first())
    }
}

/// The telemetry that forwards `bytes`: one message per byte, in order.
pub open spec fn dma_telemetry(bytes: Seq<u8>) -> Seq<TargetMsg> {
    bytes.map_values(|b: u8| TargetMsg::UsartReceive { mode: UsartMode::Dma, data: seq![b] })
}

/// The bytes that a sequence of telemetry messages carries, in order.
pub open spec fn telemetry_bytes(ms: Seq<TargetMsg>) -> Seq<u8>
    decreases ms.len(),
{
    if ms.len() == 0 {
        Seq::<u8>::empty()
    } else {
        let head = match ms[0] {
            TargetMsg::UsartReceive { data, .. } => data,
            _ => Seq::<u8>::empty(),
        };
        head + telemetry_bytes(ms.drop_first())
    }
}

/// The DMA receive path: the transfer's state and the queue that carries
/// completed transfers to the main loop.
pub struct DmaReceiver {
    queue: heapless::spsc::Queue<u8, 32>,
    state: DmaState,
}

impl DmaReceiver {
    /// The bytes waiting for the main loop, oldest first.
    pub closed spec fn items(&self) -> Seq<u8> {
        queue_items(self.queue)
    }

    pub closed spec fn transfer_state(&self) -> DmaState {
        self.state
    }

    #[verifier::type_invariant]
    spec fn inv(&self) -> bool {
        queue_items(self.queue).len() <= DMA_QUEUE_CAPACITY
    }

    /// No transfer outstanding, and nothing queued.
    pub fn new() -> (r: DmaReceiver)
        ensures
            r.items() == Seq::<u8>::empty(),
            r.transfer_state() == DmaState::Idle,
    {
        DmaReceiver { queue: queue_new(), state: DmaState::Idle }
    }

    pub fn state(&self) -> (r: DmaState)
        ensures
            r == self.transfer_state(),
    {
        self.state
    }

    /// Arms the first transfer.
    pub fn start(&mut self)
        ensures
            final(self).items() == old(self).items(),
            final(self).transfer_state() == DmaState::Started,
    {
        proof {
            use_type_invariant(&*self);
        }
        self.state = DmaState::Started;
    }

    /// Completion interrupt: moves the filled buffer's bytes into the queue
    /// and re-arms the transfer, whether or not every byte fit.
    pub fn on_transfer_complete(&mut self, buffer: &[u8]) -> (r: Result<(), DmaOverflow>)
        requires
            old(self).transfer_state() == DmaState::Started,
        ensures
            final(self).transfer_state() == DmaState::Started,
            final(self).items() == after_transfer(old(self).items(), buffer@),
            r is Ok <==> old(self).items().len() + buffer.len() <= DMA_QUEUE_CAPACITY,
            r is Err ==> r->Err_0.dropped == old(self).items().len() + buffer.len()
                - DMA_QUEUE_CAPACITY,
    {
        proof {
            use_type_invariant(&*self);
        }
        let ghost start = self.items();
        let mut i: usize = 0;
        while i < buffer.len()
            invariant
                self.state == DmaState::Started,
                start == old(self).items(),
                i <= buffer.len(),
                start.len() + i <= DMA_QUEUE_CAPACITY,
                self.items() == start + buffer@.subrange(0, i as int),
            decreases buffer.len() - i,
        {
            match queue_enqueue(&mut self.queue, buffer[i]) {
                Ok(()) => {},
                Err(_) => {
                    assert(i == DMA_QUEUE_CAPACITY - start.len());
                    return Err(DmaOverflow { dropped: buffer.len() - i });
                },
            }
            i = i + 1;
            assert(buffer@.subrange(0, i as int) =~= buffer@.subrange(0, i - 1).push(
                buffer@[i - 1],
            ));
        }
        assert(buffer@.subrange(0, i as int) =~= buffer@);
        Ok(())
    }

    /// Whether any byte is waiting for the main loop.
    pub fn has_items(&self) -> (r: bool)
        ensures
            r == (self.items().len() > 0),
    {
        queue_len(&self.queue) > 0
    }

    /// Main loop: takes the oldest queued byte.
    pub fn dequeue(&mut self) -> (r: Option<u8>)
        ensures
            final(self).transfer_state() == old(self).transfer_state(),
            old(self).items().len() == 0 ==> r is None && final(self).items() == old(self).items(),
            old(self).items().len() > 0 ==> r == Some(old(self).items()[0]) && final(self).items() == old(self).items().drop_first(),
    {
        proof {
            use_type_invariant(&*self);
        }
        queue_dequeue(&mut self.queue)
    }

    /// Main loop: empties the queue, forwarding each byte as telemetry of
    /// its own, in order.
    pub fn drain_telemetry(&mut self) -> (r: Vec<TargetToHost>)
        ensures
            final(self).transfer_state() == old(self).transfer_state(),
            final(self).items() == Seq::<u8>::empty(),
            r@.len() == old(self).items().len(),
            forall|j: int| 0 <= j < r@.len() ==> #[trigger] r@[j]@ == dma_telemetry(old(self).items())[j],
    {
        let ghost start = self.items();
        let mut out: Vec<TargetToHost> = Vec::new();
        loop
            invariant
                self.transfer_state() == old(self).transfer_state(),
                start == old(self).items(),
                out.len() <= start.len(),
                self.items() == start.subrange(out.len() as int, start.len() as int),
                forall|j: int| 0 <= j < out@.len() ==> #[trigger] out@[j]@ == dma_telemetry(start)[j],
            decreases self.items().len(),
        {
            let ghost k = out.len();
            match self.dequeue() {
                None => {
                    assert(k == start.len());
                    return out;
                },
                Some(b) => {
                    assert(b == start[k as int]);
                    let mut data: Vec<u8> = Vec::new();
                    data.push(b);
                    out.push(TargetToHost::UsartReceive { mode: UsartMode::Dma, data });
                    assert(self.items() =~= start.subrange(k + 1, start.len() as int));
                },
            }
        }
    }
}

/// The telemetry of some bytes carries exactly those bytes.
pub proof fn lemma_telemetry_bytes(bytes: Seq<u8>)
    ensures
        telemetry_bytes(dma_telemetry(bytes)) == bytes,
    decreases bytes.len(),
{
    if bytes.len() > 0 {
        lemma_telemetry_bytes(bytes.drop_first());
        assert(dma_telemetry(bytes).drop_first() =~= dma_telemetry(bytes.drop_first()));
        assert(seq![bytes[0]] + bytes.drop_first() =~= bytes);
    } else {
        assert(dma_telemetry(bytes) =~= Seq::<TargetMsg>::empty());
    }
}

/// Transfers that fit the queue together are queued whole, in order.
pub proof fn lemma_after_transfers_fit(items: Seq<u8>, buffers: Seq<Seq<u8>>)
    requires
        items.len() + concat(buffers).len() <= DMA_QUEUE_CAPACITY,
    ensures
        after_transfers(items, buffers) == items + concat(buffers),
    decreases buffers.len(),
{
    if buffers.len() == 0 {
        assert(items + Seq::<u8>::empty() =~= items);
    } else {
        let next = after_transfer(items, buffers[0]);
        assert(next == items + buffers[0]);
        lemma_after_transfers_fit(next, buffers.drop_first());
        assert(items + buffers[0] + concat(buffers.drop_first()) =~= items + concat(buffers));
    }
}

/// Liveness law of the DMA path: while the main loop is busy, any number of
/// transfers may complete; as long as the bytes waiting never exceed the
/// queue's capacity, draining the queue afterwards forwards every one of
/// them as telemetry, in the order they arrived.
pub proof fn lemma_dma_delivery(items: Seq<u8>, buffers: Seq<Seq<u8>>)
    requires
        items.len() + concat(buffers).len() <= DMA_QUEUE_CAPACITY,
    ensures
        after_transfers(items, buffers) == items + concat(buffers),
        telemetry_bytes(dma_telemetry(after_transfers(items, buffers))) == items + concat(buffers),
        dma_telemetry(after_transfers(items, buffers)).len() == items.len() + concat(buffers).len(),
{
    lemma_after_transfers_fit(items, buffers);
    lemma_telemetry_bytes(items + concat(buffers));
}

} // verus!
