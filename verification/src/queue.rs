//! The bounded multi-producer/multi-consumer FIFO queue of pending tasks. It
//! decouples admission from consumption: producers attempt a non-blocking
//! push and are told when the queue is at capacity — the system's sole
//! backpressure mechanism — while workers drain it in arrival order.
//!
//! The queue is a crossbeam bounded channel holding both of its endpoints, so
//! the channel can never appear disconnected to either operation; its
//! contents and its bound are named below, and the operations are specified
//! against them.

use vstd::prelude::*;

use crate::protocol::Task;

verus! {

/// The sending end of a crossbeam channel, declared so it can stand in a
/// field; the queue's contents are named over the queue as a whole.
#[verifier::external_type_specification]
#[verifier::external_body]
#[verifier::reject_recursive_types(T)]
pub struct ExCbSender<T>(crossbeam::channel::Sender<T>);

/// The receiving end of a crossbeam channel, declared like the sender.
#[verifier::external_type_specification]
#[verifier::external_body]
#[verifier::reject_recursive_types(T)]
pub struct ExCbReceiver<T>(crossbeam::channel::Receiver<T>);

/// The bounded FIFO queue of pending tasks: both endpoints of one bounded
/// channel, held together so that neither end can outlive the other.
pub struct TaskQueue {
    tx: crossbeam::channel::Sender<Task>,
    rx: crossbeam::channel::Receiver<Task>,
}

/// The tasks the queue holds, oldest first.
pub uninterp spec fn queue_contents(q: TaskQueue) -> Seq<Task>;

/// The capacity the queue was created with.
pub uninterp spec fn queue_bound(q: TaskQueue) -> nat;

impl TaskQueue {
    /// Relies on crossbeam_channel::bounded: a fresh bounded channel of
    /// positive capacity `bound` holds nothing. The bound is kept well under
    /// the point where the channel's capacity arithmetic would panic.
    #[verifier::external_body]
    pub(crate) fn new(bound: usize) -> (q: TaskQueue)
        requires
            1 <= bound <= 0x1000_0000,
        ensures
            queue_contents(q) == Seq::<Task>::empty(),
            queue_bound(q) == bound,
    {
        let (tx, rx) = crossbeam::channel::bounded(bound);
        TaskQueue { tx, rx }
    }

    /// Relies on crossbeam_channel::Sender::try_send on the queue's own
    /// bounded channel: the task is appended at the tail unless the channel
    /// holds `bound` messages, and a full channel is the only failure, since
    /// the queue owns the receiving end and so the channel is never
    /// disconnected.
    #[verifier::external_body]
    pub(crate) fn try_enqueue(&mut self, t: Task) -> (ok: bool)
        ensures
            queue_bound(*final(self)) == queue_bound(*old(self)),
            ok == (queue_contents(*old(self)).len() < queue_bound(*old(self))),
            ok ==> queue_contents(*final(self)) == queue_contents(*old(self)).push(t),
            !ok ==> queue_contents(*final(self)) == queue_contents(*old(self)),
    {
        self.tx.try_send(t).is_ok()
    }

    /// Relies on crossbeam_channel::Receiver::try_recv on the queue's own
    /// bounded channel, a ring buffer read in send order: the oldest message
    /// comes out, and an empty channel is the only failure, since the queue
    /// owns the sending end and so the channel is never disconnected.
    #[verifier::external_body]
    pub(crate) fn try_dequeue(&mut self) -> (r: Option<Task>)
        ensures
            queue_bound(*final(self)) == queue_bound(*old(self)),
            match r {
                Some(t) => {
                    &&& queue_contents(*old(self)).len() > 0
                    &&& t == queue_contents(*old(self))[0]
                    &&& queue_contents(*final(self)) == queue_contents(*old(self)).drop_first()
                },
                None => {
                    &&& queue_contents(*old(self)).len() == 0
                    &&& queue_contents(*final(self)) == queue_contents(*old(self))
                },
            },
    {
        self.rx.try_recv().ok()
    }
}

/// The queue's contents after `k` of the tasks it held have been handed out,
/// none having been admitted meanwhile.
pub open spec fn after_dequeues(s: Seq<Task>, k: int) -> Seq<Task>
    recommends
        0 <= k <= s.len(),
{
    s.subrange(k, s.len() as int)
}

/// Law (FIFO): of two tasks `a` before `b` in the queue, `a` is handed out
/// first. Each dequeue yields the head and leaves the rest, so from contents
/// `s` the k-th dequeue yields `s[k]`: the task at the earlier position comes
/// out at the earlier step.
pub proof fn lemma_fifo_order(s: Seq<Task>, k: int)
    requires
        0 <= k < s.len(),
    ensures
        after_dequeues(s, k)[0] == s[k],
        after_dequeues(s, k).drop_first() == after_dequeues(s, k + 1),
{
    assert(after_dequeues(s, k).drop_first() =~= after_dequeues(s, k + 1));
}

/// Law (at-most-once, counted): a dequeue consumes one instance of the task
/// it hands out; what remains holds one fewer copy of it, so no dequeue can
/// hand the same queue entry to two workers.
pub proof fn lemma_dequeue_consumes(s: Seq<Task>)
    requires
        s.len() > 0,
    ensures
        s.drop_first().to_multiset() == s.to_multiset().remove(s[0]),
        s.to_multiset().count(s[0]) >= 1,
{
    s.to_multiset_ensures();
    assert(s.drop_first() =~= s.remove(0));
    assert(s.contains(s[0]));
}

/// Whether no two queued invocations carry one identifier.
pub open spec fn distinct_task_ids(s: Seq<Task>) -> bool {
    forall|i: int, j: int|
        0 <= i < j < s.len() ==> match (#[trigger] s[i], #[trigger] s[j]) {
            (Task::Invoke(a, _), Task::Invoke(b, _)) => a != b,
            _ => true,
        }
}

/// Law (at-most-once, by identifier): when the queued identifiers are
/// distinct, the identifier of a dequeued invocation is gone from the queue —
/// no later dequeue can deliver it to another worker — and the remaining
/// identifiers are distinct still.
pub proof fn lemma_at_most_once(s: Seq<Task>)
    requires
        distinct_task_ids(s),
        s.len() > 0,
    ensures
        forall|k: int|
            0 <= k < s.drop_first().len() ==> match (s[0], #[trigger] s.drop_first()[k]) {
                (Task::Invoke(a, _), Task::Invoke(b, _)) => a != b,
                _ => true,
            },
        distinct_task_ids(s.drop_first()),
{
    assert forall|k: int| 0 <= k < s.drop_first().len() implies match (
        s[0],
        #[trigger] s.drop_first()[k],
    ) {
        (Task::Invoke(a, _), Task::Invoke(b, _)) => a != b,
        _ => true,
    } by {
        assert(s.drop_first()[k] == s[k + 1]);
    }
    assert forall|i: int, j: int| 0 <= i < j < s.drop_first().len() implies match (
        #[trigger] s.drop_first()[i],
        #[trigger] s.drop_first()[j],
    ) {
        (Task::Invoke(a, _), Task::Invoke(b, _)) => a != b,
        _ => true,
    } by {
        assert(s.drop_first()[i] == s[i + 1] && s.drop_first()[j] == s[j + 1]);
    }
}

} // verus!
