use vstd::prelude::*;
use crossbeam_queue::ArrayQueue;
use crate::task::TaskId;

verus! {

/// How many scancodes the bridge holds before it starts dropping input.
pub const QUEUE_CAPACITY: usize = 100;

#[verifier::external_type_specification]
#[verifier::external_body]
#[verifier::reject_recursive_types(T)]
pub struct ExArrayQueue<T>(ArrayQueue<T>);

/// The bytes held by a bounded queue, head first.
pub uninterp spec fn queued_bytes(q: ArrayQueue<u8>) -> Seq<u8>;

/// The capacity that a bounded queue was made with.
pub uninterp spec fn queue_bound(q: ArrayQueue<u8>) -> nat;

/// Relies on `ArrayQueue::new`: an empty queue that holds at most `cap` items
/// (it panics on a zero capacity).
#[verifier::external_body]
fn queue_new(cap: usize) -> (q: ArrayQueue<u8>)
    requires
        cap > 0,
    ensures
        queued_bytes(q) == Seq::<u8>::empty(),
        queue_bound(q) == cap,
{
    ArrayQueue::new(cap)
}

/// Relies on `ArrayQueue::push`: the value goes to the tail, unless the queue
/// already holds `capacity` items, in which case it is handed back and the
/// queue is left as it was.
#[verifier::external_body]
fn queue_push(q: &mut ArrayQueue<u8>, value: u8) -> (stored: bool)
    ensures
        queue_bound(*final(q)) == queue_bound(*old(q)),
        stored <==> queued_bytes(*old(q)).len() < queue_bound(*old(q)),
        stored ==> queued_bytes(*final(q)) == queued_bytes(*old(q)).push(value),
        !stored ==> queued_bytes(*final(q)) == queued_bytes(*old(q)),
{
    q.push(value).is_ok()
}

/// Relies on `ArrayQueue::pop`: takes the item at the head, or reports an
/// empty queue.
#[verifier::external_body]
fn queue_pop(q: &mut ArrayQueue<u8>) -> (r: Option<u8>)
    ensures
        queue_bound(*final(q)) == queue_bound(*old(q)),
        match r {
            Some(b) => {
                &&& queued_bytes(*old(q)).len() > 0
                &&& b == queued_bytes(*old(q))[0]
                &&& queued_bytes(*final(q)) == queued_bytes(*old(q)).drop_first()
            },
            None => {
                &&& queued_bytes(*old(q)).len() == 0
                &&& queued_bytes(*final(q)) == queued_bytes(*old(q))
            },
        },
{
    q.pop().ok()
}

/// A single-slot readiness signal: at most one waiting consumer.
pub struct WakeSlot {
    waiting: Option<TaskId>,
}

impl WakeSlot {
    pub closed spec fn waiting_spec(&self) -> Option<TaskId> {
        self.waiting
    }

    pub fn new() -> (r: WakeSlot)
        ensures
            r.waiting_spec() is None,
    {
        WakeSlot { waiting: None }
    }

    /// Registers `id` as the consumer to notify, replacing any earlier one.
    pub fn register(&mut self, id: TaskId)
        ensures
            final(self).waiting_spec() == Some(id),
    {
        self.waiting = Some(id);
    }

    /// Removes the registration and returns it.
    pub fn take(&mut self) -> (r: Option<TaskId>)
        ensures
            r == old(self).waiting_spec(),
            final(self).waiting_spec() is None,
    {
        let r = self.waiting;
        self.waiting = None;
        r
    }

    /// Notifies the registered consumer, if any: returns the task to make
    /// ready and clears the slot, so that a second wake does nothing.
    pub fn wake(&mut self) -> (r: Option<TaskId>)
        ensures
            r == old(self).waiting_spec(),
            final(self).waiting_spec() is None,
    {
        self.take()
    }
}

/// The effect of the producer's push on the queued bytes: appended when there
/// is room, else the new byte is dropped.
pub open spec fn push_spec(q: Seq<u8>, b: u8) -> Seq<u8> {
    if q.len() < QUEUE_CAPACITY {
        q.push(b)
    } else {
        q
    }
}

/// One step seen by the bridge: the producer pushes a byte, or the consumer
/// polls once.
pub enum BridgeOp {
    Push(u8),
    Poll,
}

/// The queued bytes and the bytes the consumer has received so far, after
/// one more step.
pub open spec fn bridge_step(state: (Seq<u8>, Seq<u8>), op: BridgeOp) -> (Seq<u8>, Seq<u8>) {
    let (q, seen) = state;
    match op {
        BridgeOp::Push(b) => (push_spec(q, b), seen),
        BridgeOp::Poll => if q.len() > 0 {
            (q.drop_first(), seen.push(q[0]))
        } else {
            (q, seen)
        },
    }
}

/// The queued bytes and the bytes received, after `ops` on a new stream.
pub open spec fn bridge_run(ops: Seq<BridgeOp>) -> (Seq<u8>, Seq<u8>)
    decreases ops.len(),
{
    if ops.len() == 0 {
        (Seq::empty(), Seq::empty())
    } else {
        bridge_step(bridge_run(ops.drop_last()), ops.last())
    }
}

/// The bytes that `ops` push, in order.
pub open spec fn pushed_bytes(ops: Seq<BridgeOp>) -> Seq<u8>
    decreases ops.len(),
{
    if ops.len() == 0 {
        Seq::empty()
    } else {
        match ops.last() {
            BridgeOp::Push(b) => pushed_bytes(ops.drop_last()).push(b),
            BridgeOp::Poll => pushed_bytes(ops.drop_last()),
        }
    }
}

/// No push of `ops` meets a full queue.
pub open spec fn within_capacity(ops: Seq<BridgeOp>) -> bool {
    forall|i: int|
        0 <= i < ops.len() && (#[trigger] ops[i]) is Push ==> bridge_run(ops.take(i)).0.len()
            < QUEUE_CAPACITY
}

/// While no push exceeds the capacity, the consumer receives every byte in
/// the order it was pushed: what it has received, followed by what is still
/// queued, is exactly the sequence of pushed bytes.
pub proof fn lemma_bytes_arrive_in_order(ops: Seq<BridgeOp>)
    requires
        within_capacity(ops),
    ensures
        bridge_run(ops).1 + bridge_run(ops).0 == pushed_bytes(ops),
    decreases ops.len(),
{
    if ops.len() > 0 {
        let prefix = ops.drop_last();
        assert forall|i: int|
            0 <= i < prefix.len() && (#[trigger] prefix[i]) is Push implies bridge_run(
                prefix.take(i),
            ).0.len() < QUEUE_CAPACITY by {
            assert(prefix.take(i) == ops.take(i));
            assert(ops[i] == prefix[i]);
        }
        lemma_bytes_arrive_in_order(prefix);
        let (q, seen) = bridge_run(prefix);
        match ops.last() {
            BridgeOp::Push(b) => {
                assert(ops.take(ops.len() - 1) == prefix);
                assert(ops[ops.len() - 1] is Push);
                assert(seen + q.push(b) == (seen + q).push(b));
            },
            BridgeOp::Poll => {
                if q.len() > 0 {
                    assert(seen.push(q[0]) + q.drop_first() == seen + q);
                }
            },
        }
    }
}

/// What the producer learns from a push.
#[derive(Debug, Clone, Copy, PartialEq, Eq, Structural)]
pub enum PushOutcome {
    /// The byte was queued; the consumer to wake, if one was waiting.
    Queued(Option<TaskId>),
    /// The queue was full and the byte was dropped.
    Dropped,
}

impl PushOutcome {
    /// The diagnostic to emit for this push, if any.
    pub fn diagnostic(&self) -> (r: Option<&'static str>)
        ensures
            *self == PushOutcome::Dropped ==> (r matches Some(m) && m@
                == "WARNING: scancode queue full; dropping keyboard input"@),
            *self != PushOutcome::Dropped ==> r is None,
    {
        match self {
            PushOutcome::Dropped => Some("WARNING: scancode queue full; dropping keyboard input"),
            PushOutcome::Queued(_) => None,
        }
    }
}

/// What the consumer gets from one poll of the stream.
#[derive(Debug, Clone, Copy, PartialEq, Eq, Structural)]
pub enum NextScancode {
    Ready(u8),
    Pending,
}

/// The bridge from interrupt context to task context: a bounded byte queue
/// and the readiness signal of its one consumer.
pub struct ScancodeStream {
    queue: ArrayQueue<u8>,
    waker: WakeSlot,
}

impl ScancodeStream {
    /// The bytes waiting to be consumed, oldest first.
    pub closed spec fn contents(&self) -> Seq<u8> {
        queued_bytes(self.queue)
    }

    /// The consumer registered for a wake-up, if any.
    pub closed spec fn waiting(&self) -> Option<TaskId> {
        self.waker.waiting_spec()
    }

    pub closed spec fn wf(&self) -> bool {
        &&& queue_bound(self.queue) == QUEUE_CAPACITY
        &&& queued_bytes(self.queue).len() <= QUEUE_CAPACITY
    }

    pub fn new() -> (r: ScancodeStream)
        ensures
            r.wf(),
            r.contents() == Seq::<u8>::empty(),
            r.waiting() is None,
    {
        ScancodeStream { queue: queue_new(QUEUE_CAPACITY), waker: WakeSlot::new() }
    }

    /// The producer side: queue one byte without blocking. On success the
    /// waiting consumer, if any, is handed back to be woken; on a full queue
    /// the byte is dropped and the queue is left as it was.
    pub fn add_scancode(&mut self, scancode: u8) -> (r: PushOutcome)
        requires
            old(self).wf(),
        ensures
            final(self).wf(),
            final(self).contents() == push_spec(old(self).contents(), scancode),
            old(self).contents().len() < QUEUE_CAPACITY ==> {
                &&& r == PushOutcome::Queued(old(self).waiting())
                &&& final(self).waiting() is None
            },
            old(self).contents().len() >= QUEUE_CAPACITY ==> {
                &&& r == PushOutcome::Dropped
                &&& final(self).waiting() == old(self).waiting()
            },
    {
        if queue_push(&mut self.queue, scancode) {
            PushOutcome::Queued(self.waker.wake())
        } else {
            PushOutcome::Dropped
        }
    }

    /// The consumer side, run by task `cx`: takes the oldest byte if there is
    /// one. Otherwise registers `cx` for a wake-up and checks the queue once
    /// more, so that a byte that came in meanwhile is not missed.
    pub fn poll_next(&mut self, cx: TaskId) -> (r: NextScancode)
        requires
            old(self).wf(),
        ensures
            final(self).wf(),
            old(self).contents().len() > 0 ==> {
                &&& r == NextScancode::Ready(old(self).contents()[0])
                &&& final(self).contents() == old(self).contents().drop_first()
                &&& final(self).waiting() == old(self).waiting()
            },
            old(self).contents().len() == 0 ==> {
                &&& r == NextScancode::Pending
                &&& final(self).contents() == old(self).contents()
                &&& final(self).waiting() == Some(cx)
            },
    {
        if let Some(b) = queue_pop(&mut self.queue) {
            return NextScancode::Ready(b);
        }
        self.waker.register(cx);
        match queue_pop(&mut self.queue) {
            Some(b) => {
                self.waker.take();
                NextScancode::Ready(b)
            },
            None => NextScancode::Pending,
        }
    }
}

} // verus!
