//! The queue of reference-count operations: handles on any thread write to
//! it, the pump alone reads it.

use vstd::prelude::*;
use crate::ids::LoadHandle;

verus! {

/// One change of an identifier's reference count.
#[derive(Clone, Copy, Debug, PartialEq, Eq, Structural)]
pub enum RefOp {
    Increase(LoadHandle),
    Decrease(LoadHandle),
}

impl RefOp {
    /// The identifier whose count the operation changes.
    pub open spec fn target(self) -> LoadHandle {
        match self {
            RefOp::Increase(id) => id,
            RefOp::Decrease(id) => id,
        }
    }

    /// What the operation adds to the count of `id`.
    pub open spec fn delta(self, id: LoadHandle) -> int {
        match self {
            RefOp::Increase(h) => if h == id { 1 } else { 0 },
            RefOp::Decrease(h) => if h == id { -1 } else { 0 },
        }
    }
}

/// Constructions minus destructions of handles to `id` among `ops`.
pub open spec fn net_count(ops: Seq<RefOp>, id: LoadHandle) -> int
    decreases ops.len(),
{
    if ops.len() == 0 {
        0
    } else {
        net_count(ops.drop_last(), id) + ops.last().delta(id)
    }
}

/// `crossbeam_channel::Sender`: the sending end of a channel. Nothing of
/// what it holds is visible here.
#[verifier::external_type_specification]
#[verifier::external_body]
#[verifier::reject_recursive_types(T)]
pub struct ExSender<T>(crossbeam_channel::Sender<T>);

/// `crossbeam_channel::Receiver`: the receiving end of a channel. Nothing
/// of what it holds is visible here.
#[verifier::external_type_specification]
#[verifier::external_body]
#[verifier::reject_recursive_types(T)]
pub struct ExReceiver<T>(crossbeam_channel::Receiver<T>);

/// What `Sender::capacity` returns for `tx`: the capacity of a bounded
/// channel, `None` for an unbounded one. It is fixed when the channel is
/// made.
pub uninterp spec fn capacity_of(tx: crossbeam_channel::Sender<RefOp>) -> Option<nat>;

/// The channel that `tx` sends to. Senders that belong to the same channel,
/// as `Sender::same_channel` tells it, agree here.
pub uninterp spec fn channel_of(tx: crossbeam_channel::Sender<RefOp>) -> int;

/// The channel that `rx` receives from.
pub uninterp spec fn source_of(rx: crossbeam_channel::Receiver<RefOp>) -> int;

/// `crossbeam_channel::unbounded`: a new channel of unbounded capacity.
/// Claimed: the sender is unbounded, and the two ends belong to one channel.
#[verifier::external_body]
pub(crate) fn open_channel() -> (ends: (
    crossbeam_channel::Sender<RefOp>,
    crossbeam_channel::Receiver<RefOp>,
))
    ensures
        capacity_of(ends.0) is None,
        channel_of(ends.0) == source_of(ends.1),
{
    crossbeam_channel::unbounded()
}

/// `Sender::capacity`: the capacity of a bounded channel, `None` for an
/// unbounded one.
#[verifier::external_body]
pub(crate) fn capacity(tx: &crossbeam_channel::Sender<RefOp>) -> (limit: Option<usize>)
    ensures
        match limit {
            Some(n) => capacity_of(*tx) == Some(n as nat),
            None => capacity_of(*tx) is None,
        },
{
    tx.capacity()
}

/// `Sender::send` on an unbounded channel: it never waits, and fails only
/// when every receiver is gone, in which case the operation is discarded.
/// On a bounded channel the call may wait for room, so such a sender is
/// left out. Claimed: the call returns without unwinding.
#[verifier::external_body]
pub(crate) fn send_op(tx: &crossbeam_channel::Sender<RefOp>, op: RefOp)
    requires
        capacity_of(*tx) is None,
    opens_invariants none
    no_unwind
{
    let _ = tx.send(op);
}

/// `Sender::clone`: another sending end of the same channel. Claimed: the
/// copy sends to the same channel, which has the capacity it had.
#[verifier::external_body]
pub(crate) fn clone_sender(tx: &crossbeam_channel::Sender<RefOp>) -> (copy:
    crossbeam_channel::Sender<RefOp>)
    ensures
        capacity_of(copy) == capacity_of(*tx),
        channel_of(copy) == channel_of(*tx),
{
    tx.clone()
}

/// `Receiver::len`: how many operations are queued at this moment. Other
/// threads may send meanwhile, so nothing is claimed of the number.
#[verifier::external_body]
pub(crate) fn queued(rx: &crossbeam_channel::Receiver<RefOp>) -> (waiting: usize) {
    rx.len()
}

/// `Receiver::try_recv`: the oldest queued operation, or `None` when the
/// queue is empty or every sender is gone. It never blocks. Which of the two
/// comes back depends on other threads, so nothing is claimed of it.
#[verifier::external_body]
pub(crate) fn take_op(rx: &crossbeam_channel::Receiver<RefOp>) -> (op: Option<RefOp>) {
    rx.try_recv().ok()
}

/// The queue of reference-count operations: an unbounded channel, with its
/// two ends kept together.
pub struct RefOpChannel {
    pub(crate) tx: crossbeam_channel::Sender<RefOp>,
    pub(crate) rx: crossbeam_channel::Receiver<RefOp>,
}

impl RefOpChannel {
    #[verifier::type_invariant]
    spec fn well_formed(self) -> bool {
        &&& capacity_of(self.tx) is None
        &&& channel_of(self.tx) == source_of(self.rx)
    }

    /// The channel that the pump reads.
    pub closed spec fn id(&self) -> int {
        source_of(self.rx)
    }

    /// A new, empty queue.
    pub fn new() -> (queue: Self) {
        let (tx, rx) = open_channel();
        RefOpChannel { tx, rx }
    }

    /// A sending end of this queue. Sending on it never waits.
    pub fn sender(&self) -> (tx: crossbeam_channel::Sender<RefOp>)
        ensures
            capacity_of(tx) is None,
            channel_of(tx) == self.id(),
    {
        proof {
            use_type_invariant(self);
        }
        clone_sender(&self.tx)
    }
}

} // verus!
