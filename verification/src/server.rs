//! The scheduler server's per-connection dispatch rules. A connection carries
//! a mixed sequence of requests; each is handled statelessly against the two
//! shared components, the task queue and the resource manager, and yields an
//! outcome telling the connection loop what to write, whether to close, and
//! where to block. Blocking itself — waiting for a task to arrive, or for a
//! synchronous invocation's result — happens outside these functions, which
//! only decide.

use vstd::prelude::*;

use crate::codec::{dec_resource_info, decode_resource_info};
use crate::protocol::{LabeledInvoke, Request, Response, ReturnCode, Task, TaskReturn};
use crate::queue::{queue_bound, queue_contents, TaskQueue};
use crate::reply::{new_reply_channel, recv_reply, send_reply};
use crate::resource_manager::ResourceManager;

verus! {

/// The admission decision for one `LabeledInvoke`.
pub enum Admission {
    /// The queue was at capacity, or shutdown has begun: the invocation was
    /// not admitted and the caller is told so at once.
    Rejected,
    /// Admitted, fire-and-forget: the caller is told success at once.
    AcceptedAsync,
    /// Admitted, synchronous: the caller's connection blocks on this
    /// receiving end until the result arrives through the wait-list.
    AcceptedSync(std::sync::mpsc::Receiver<TaskReturn>),
}

/// What the connection loop does after one request is handled.
pub enum DispatchOutcome {
    /// Write the response and keep serving.
    Reply(Response),
    /// Write the response, then hand the result to the waiting invoker
    /// through the stored reply channel.
    ReplyThenDeliver(Response, std::sync::mpsc::Sender<TaskReturn>, TaskReturn),
    /// Write the response, then close the connection.
    ReplyThenClose(Response),
    /// No task is queued: wait until one may be there and ask again.
    WaitForTask,
    /// Admitted synchronously: block on the receiver, then write the
    /// `TaskReturn` it yields.
    WaitForReply(std::sync::mpsc::Receiver<TaskReturn>),
}

/// The response a dequeued task turns into: an invocation is handed to the
/// worker, a termination signal is passed through.
pub open spec fn task_response(t: Task) -> Response {
    match t {
        Task::Invoke(task_id, invoke) => Response::ProcessTask { task_id, invoke },
        Task::Terminate => Response::Terminate,
    }
}

/// The immediate reply to an admitted fire-and-forget invocation.
pub open spec fn success_return() -> TaskReturn {
    TaskReturn { code: ReturnCode::Success, payload: None }
}

/// The immediate reply to a rejected invocation.
pub open spec fn queue_full_return() -> TaskReturn {
    TaskReturn { code: ReturnCode::QueueFull, payload: None }
}

/// Relies on uuid::Uuid::new_v4: a freshly generated random version-4
/// identifier, read out as its 128-bit value. Distinct calls are expected to
/// yield distinct values, but that is probabilistic and nothing is promised
/// of the value.
#[verifier::external_body]
pub(crate) fn fresh_task_id() -> u128 {
    uuid::Uuid::new_v4().as_u128()
}

/// Builds the scheduler's two shared components as the server does at
/// startup: an empty task queue with the configured bound, and a fresh
/// resource manager holding the configured total memory budget.
pub fn init_scheduler(queue_size: usize, total_mem: u64) -> (r: (TaskQueue, ResourceManager))
    requires
        1 <= queue_size <= 0x1000_0000,
    ensures
        queue_contents(r.0) == Seq::<Task>::empty(),
        queue_bound(r.0) == queue_size,
        r.1.hosts_map() == Map::<u64, crate::protocol::ResourceInfo>::empty(),
        r.1.waiters() == Map::<u128, std::sync::mpsc::Sender<TaskReturn>>::empty(),
        r.1.budget() == total_mem,
{
    (TaskQueue::new(queue_size), ResourceManager::new(total_mem))
}

/// Answers a worker's `GetTask`: hands out the oldest queued task, or reports
/// that the worker must wait because nothing is queued.
pub fn handle_get_task(queue: &mut TaskQueue) -> (r: Option<Response>)
    ensures
        queue_bound(*final(queue)) == queue_bound(*old(queue)),
        match r {
            Some(resp) => {
                &&& queue_contents(*old(queue)).len() > 0
                &&& resp == task_response(queue_contents(*old(queue))[0])
                &&& queue_contents(*final(queue)) == queue_contents(*old(queue)).drop_first()
            },
            None => {
                &&& queue_contents(*old(queue)).len() == 0
                &&& queue_contents(*final(queue)) == queue_contents(*old(queue))
            },
        },
{
    match queue.try_dequeue() {
        Some(Task::Invoke(task_id, invoke)) => Some(Response::ProcessTask { task_id, invoke }),
        Some(Task::Terminate) => Some(Response::Terminate),
        None => None,
    }
}

/// Handles a worker's `FinishTask` report: looks up and removes the wait-list
/// entry for the task identifier and, when one is registered, yields the
/// stored reply channel together with the reported result — exactly the
/// result carried by the report. A zero identifier and an unknown identifier
/// are acknowledged without effect; fire-and-forget invocations have no
/// entry.
pub fn handle_finish_task(mgr: &mut ResourceManager, task_id: u128, result: TaskReturn) -> (r:
    Option<(std::sync::mpsc::Sender<TaskReturn>, TaskReturn)>)
    ensures
        final(mgr).hosts_map() == old(mgr).hosts_map(),
        final(mgr).budget() == old(mgr).budget(),
        match r {
            Some(d) => {
                &&& task_id != 0
                &&& old(mgr).waiters().contains_key(task_id)
                &&& d.0 == old(mgr).waiters()[task_id]
                &&& d.1 == result
                &&& final(mgr).waiters() == old(mgr).waiters().remove(task_id)
                &&& !final(mgr).waiters().contains_key(task_id)
            },
            None => {
                &&& (task_id == 0 || !old(mgr).waiters().contains_key(task_id))
                &&& final(mgr).waiters() == old(mgr).waiters()
            },
        },
{
    if task_id != 0 {
        match mgr.wait_list_remove(task_id) {
            Some(tx) => Some((tx, result)),
            None => {
                proof {
                    assert(old(mgr).waiters().remove(task_id) =~= old(mgr).waiters());
                }
                None
            },
        }
    } else {
        None
    }
}

/// Decides the admission of one invocation under the identifier the caller
/// generated for it. Admission succeeds exactly when admission is still open
/// and the queue is below its bound; then the task joins the back of the
/// queue, and a synchronous invocation additionally registers a fresh reply
/// channel in the wait-list under its identifier before the caller is left to
/// block on the other end.
pub fn handle_labeled_invoke(
    queue: &mut TaskQueue,
    mgr: &mut ResourceManager,
    admitting: bool,
    task_id: u128,
    invoke: LabeledInvoke,
) -> (r: Admission)
    ensures
        queue_bound(*final(queue)) == queue_bound(*old(queue)),
        final(mgr).hosts_map() == old(mgr).hosts_map(),
        final(mgr).budget() == old(mgr).budget(),
        (r is Rejected) == (!admitting || queue_contents(*old(queue)).len() >= queue_bound(
            *old(queue),
        )),
        r is Rejected ==> queue_contents(*final(queue)) == queue_contents(*old(queue))
            && final(mgr).waiters() == old(mgr).waiters(),
        !(r is Rejected) ==> queue_contents(*final(queue)) == queue_contents(*old(queue)).push(
            Task::Invoke(task_id, invoke),
        ),
        (r is AcceptedSync) == (!(r is Rejected) && invoke.sync),
        (r is AcceptedAsync) == (!(r is Rejected) && !invoke.sync),
        r is AcceptedAsync ==> final(mgr).waiters() == old(mgr).waiters(),
        r is AcceptedSync ==> final(mgr).waiters().contains_key(task_id) && final(mgr).waiters()
            == old(mgr).waiters().insert(task_id, final(mgr).waiters()[task_id]),
{
    if !admitting {
        return Admission::Rejected;
    }
    let sync = invoke.sync;
    let ok = queue.try_enqueue(Task::Invoke(task_id, invoke));
    if !ok {
        Admission::Rejected
    } else if sync {
        let (tx, rx) = new_reply_channel();
        mgr.wait_list_insert(task_id, tx);
        Admission::AcceptedSync(rx)
    } else {
        Admission::AcceptedAsync
    }
}

/// Admits one invocation under a freshly generated identifier, which it
/// returns beside the decision; the decision relates to that identifier as
/// [`handle_labeled_invoke`] states.
pub fn admit_invoke(
    queue: &mut TaskQueue,
    mgr: &mut ResourceManager,
    admitting: bool,
    invoke: LabeledInvoke,
) -> (r: (u128, Admission))
    ensures
        queue_bound(*final(queue)) == queue_bound(*old(queue)),
        final(mgr).hosts_map() == old(mgr).hosts_map(),
        final(mgr).budget() == old(mgr).budget(),
        (r.1 is Rejected) == (!admitting || queue_contents(*old(queue)).len() >= queue_bound(
            *old(queue),
        )),
        r.1 is Rejected ==> queue_contents(*final(queue)) == queue_contents(*old(queue))
            && final(mgr).waiters() == old(mgr).waiters(),
        !(r.1 is Rejected) ==> queue_contents(*final(queue)) == queue_contents(*old(queue)).push(
            Task::Invoke(r.0, invoke),
        ),
        (r.1 is AcceptedSync) == (!(r.1 is Rejected) && invoke.sync),
        (r.1 is AcceptedAsync) == (!(r.1 is Rejected) && !invoke.sync),
        r.1 is AcceptedAsync ==> final(mgr).waiters() == old(mgr).waiters(),
        r.1 is AcceptedSync ==> final(mgr).waiters().contains_key(r.0) && final(mgr).waiters()
            == old(mgr).waiters().insert(r.0, final(mgr).waiters()[r.0]),
{
    let task_id = fresh_task_id();
    let decision = handle_labeled_invoke(queue, mgr, admitting, task_id, invoke);
    (task_id, decision)
}

/// Handles a host's `UpdateResource` report: a snapshot that parses replaces
/// the stored one wholesale; a malformed one is acknowledged all the same and
/// changes nothing. Either way the host is answered with a bare
/// acknowledgement.
pub fn handle_update_resource(mgr: &mut ResourceManager, host: u64, info: &Vec<u8>) -> (r: Response)
    ensures
        r == Response::Ack,
        match dec_resource_info(info@) {
            Some(snapshot) => final(mgr).hosts_map() == old(mgr).hosts_map().insert(
                host,
                snapshot,
            ),
            None => final(mgr).hosts_map() == old(mgr).hosts_map(),
        },
        final(mgr).waiters() == old(mgr).waiters(),
        final(mgr).budget() == old(mgr).budget(),
{
    match decode_resource_info(info) {
        Some(snapshot) => {
            mgr.update(host, snapshot);
        },
        None => {},
    }
    Response::Ack
}

/// Handles a host's `DropResource`: deletes the stored snapshot and
/// acknowledges; the connection is then closed.
pub fn handle_drop_resource(mgr: &mut ResourceManager, host: u64) -> (r: Response)
    ensures
        r == Response::Ack,
        final(mgr).hosts_map() == old(mgr).hosts_map().remove(host),
        final(mgr).waiters() == old(mgr).waiters(),
        final(mgr).budget() == old(mgr).budget(),
{
    mgr.remove(host);
    Response::Ack
}

/// Dispatches one request arriving on a connection from the host at address
/// `host`, exactly as the read-dispatch loop does: `Ping` is answered `Pong`
/// whatever the state of queue and manager; `GetTask` hands out the oldest
/// queued task or leaves the worker waiting; `FinishTask` is acknowledged and
/// delivers the reported result to the registered waiter, if any;
/// `LabeledInvoke` is admitted under a fresh identifier or rejected at once;
/// `UpdateResource` and `DropResource` maintain the host map.
pub fn dispatch(
    req: Request,
    queue: &mut TaskQueue,
    mgr: &mut ResourceManager,
    admitting: bool,
    host: u64,
) -> (r: DispatchOutcome)
    ensures
        queue_bound(*final(queue)) == queue_bound(*old(queue)),
        final(mgr).budget() == old(mgr).budget(),
        match req {
            Request::Ping => {
                &&& r == DispatchOutcome::Reply(Response::Pong)
                &&& queue_contents(*final(queue)) == queue_contents(*old(queue))
                &&& *final(mgr) == *old(mgr)
            },
            Request::GetTask { .. } => {
                &&& *final(mgr) == *old(mgr)
                &&& if queue_contents(*old(queue)).len() > 0 {
                    r == DispatchOutcome::Reply(task_response(queue_contents(*old(queue))[0]))
                        && queue_contents(*final(queue)) == queue_contents(
                        *old(queue),
                    ).drop_first()
                } else {
                    r == DispatchOutcome::WaitForTask && queue_contents(*final(queue))
                        == queue_contents(*old(queue))
                }
            },
            Request::FinishTask { task_id, result } => {
                &&& queue_contents(*final(queue)) == queue_contents(*old(queue))
                &&& final(mgr).hosts_map() == old(mgr).hosts_map()
                &&& if task_id != 0 && old(mgr).waiters().contains_key(task_id) {
                    r == DispatchOutcome::ReplyThenDeliver(
                        Response::Ack,
                        old(mgr).waiters()[task_id],
                        result,
                    ) && final(mgr).waiters() == old(mgr).waiters().remove(task_id)
                } else {
                    r == DispatchOutcome::Reply(Response::Ack)
                        && final(mgr).waiters() == old(mgr).waiters()
                }
            },
            Request::LabeledInvoke(invoke) => {
                &&& final(mgr).hosts_map() == old(mgr).hosts_map()
                &&& if !admitting || queue_contents(*old(queue)).len() >= queue_bound(
                    *old(queue),
                ) {
                    &&& r == DispatchOutcome::Reply(Response::TaskReturn(queue_full_return()))
                    &&& queue_contents(*final(queue)) == queue_contents(*old(queue))
                    &&& final(mgr).waiters() == old(mgr).waiters()
                } else {
                    let s_new = queue_contents(*final(queue));
                    &&& s_new.len() == queue_contents(*old(queue)).len() + 1
                    &&& s_new.subrange(0, queue_contents(*old(queue)).len() as int)
                        == queue_contents(*old(queue))
                    &&& s_new.last() is Invoke
                    &&& s_new.last()->Invoke_1 == invoke
                    &&& if invoke.sync {
                        let task_id = s_new.last()->Invoke_0;
                        &&& r is WaitForReply
                        &&& final(mgr).waiters().contains_key(task_id)
                        &&& final(mgr).waiters() == old(mgr).waiters().insert(
                            task_id,
                            final(mgr).waiters()[task_id],
                        )
                    } else {
                        &&& r == DispatchOutcome::Reply(Response::TaskReturn(success_return()))
                        &&& final(mgr).waiters() == old(mgr).waiters()
                    }
                }
            },
            Request::UpdateResource { info } => {
                &&& queue_contents(*final(queue)) == queue_contents(*old(queue))
                &&& r == DispatchOutcome::Reply(Response::Ack)
                &&& match dec_resource_info(info@) {
                    Some(snapshot) => final(mgr).hosts_map() == old(mgr).hosts_map().insert(
                        host,
                        snapshot,
                    ),
                    None => final(mgr).hosts_map() == old(mgr).hosts_map(),
                }
                &&& final(mgr).waiters() == old(mgr).waiters()
            },
            Request::DropResource => {
                &&& queue_contents(*final(queue)) == queue_contents(*old(queue))
                &&& r == DispatchOutcome::ReplyThenClose(Response::Ack)
                &&& final(mgr).hosts_map() == old(mgr).hosts_map().remove(host)
                &&& final(mgr).waiters() == old(mgr).waiters()
            },
        },
{
    match req {
        Request::Ping => DispatchOutcome::Reply(Response::Pong),
        Request::GetTask { thread_id: _ } => match handle_get_task(queue) {
            Some(resp) => DispatchOutcome::Reply(resp),
            None => DispatchOutcome::WaitForTask,
        },
        Request::FinishTask { task_id, result } => match handle_finish_task(
            mgr,
            task_id,
            result,
        ) {
            Some((tx, ret)) => DispatchOutcome::ReplyThenDeliver(Response::Ack, tx, ret),
            None => DispatchOutcome::Reply(Response::Ack),
        },
        Request::LabeledInvoke(invoke) => {
            let (_, decision) = admit_invoke(queue, mgr, admitting, invoke);
            match decision {
                Admission::Rejected => DispatchOutcome::Reply(
                    Response::TaskReturn(TaskReturn { code: ReturnCode::QueueFull, payload: None }),
                ),
                Admission::AcceptedAsync => DispatchOutcome::Reply(
                    Response::TaskReturn(TaskReturn { code: ReturnCode::Success, payload: None }),
                ),
                Admission::AcceptedSync(rx) => DispatchOutcome::WaitForReply(rx),
            }
        },
        Request::UpdateResource { info } => DispatchOutcome::Reply(
            handle_update_resource(mgr, host, &info),
        ),
        Request::DropResource => DispatchOutcome::ReplyThenClose(handle_drop_resource(mgr, host)),
    }
}

/// Hands a synchronous invocation's result to its blocked invoker through the
/// reply channel that was stored in the wait-list. Whether the value arrives
/// rests on the channel; the value handed over is pinned by the contract of
/// [`handle_finish_task`].
pub fn deliver_reply(tx: &std::sync::mpsc::Sender<TaskReturn>, ret: TaskReturn) -> (ok: bool) {
    send_reply(tx, ret)
}

/// Blocks until the result of a synchronous invocation arrives on the reply
/// channel handed out at admission, yielding whatever value the `FinishTask`
/// handler sent — or nothing, if the sending end was dropped undelivered.
pub fn await_reply(rx: &std::sync::mpsc::Receiver<TaskReturn>) -> (r: Option<TaskReturn>) {
    recv_reply(rx)
}

/// Pushes up to `n` termination signals into the queue, one for each worker
/// that shutdown must release from its pull loop; stops early only when the
/// queue is at capacity, and says how many were placed.
pub fn push_terminates(queue: &mut TaskQueue, n: usize) -> (pushed: usize)
    ensures
        queue_bound(*final(queue)) == queue_bound(*old(queue)),
        pushed <= n,
        queue_contents(*final(queue)) == queue_contents(*old(queue)) + terminate_signals(
            pushed as nat,
        ),
        pushed < n ==> queue_contents(*final(queue)).len() >= queue_bound(*final(queue)),
        n + queue_contents(*old(queue)).len() <= queue_bound(*old(queue)) ==> pushed == n,
{
    let mut pushed: usize = 0;
    while pushed < n
        invariant_except_break
            pushed <= n,
        invariant
            queue_bound(*queue) == queue_bound(*old(queue)),
            queue_contents(*queue) == queue_contents(*old(queue)) + terminate_signals(
                pushed as nat,
            ),
        ensures
            pushed <= n,
            pushed == n || queue_contents(*queue).len() >= queue_bound(*queue),
        decreases n - pushed,
    {
        let ok = queue.try_enqueue(Task::Terminate);
        if !ok {
            break ;
        }
        pushed = pushed + 1;
        assert(queue_contents(*queue) =~= queue_contents(*old(queue)) + terminate_signals(
            pushed as nat,
        ));
    }
    pushed
}

/// The queue's length after `n` admission attempts into an initially empty
/// queue of bound `bound`, none of it drained meanwhile: each attempt adds
/// one task while the bound allows and is rejected after.
pub open spec fn fill_len(bound: nat, n: nat) -> nat
    decreases n,
{
    if n == 0 {
        0
    } else {
        let l = fill_len(bound, (n - 1) as nat);
        if l < bound {
            l + 1
        } else {
            l
        }
    }
}

/// Law (backpressure): with bound `C` and no worker draining, the first `C`
/// admission attempts each find the queue below its bound and are accepted,
/// and every later one — the `(C+1)`-th among them — finds it full and is
/// rejected, as `handle_labeled_invoke` accepts exactly below the bound.
pub proof fn lemma_backpressure(bound: nat, n: nat)
    ensures
        n <= bound ==> fill_len(bound, n) == n,
        n > bound ==> fill_len(bound, n) == bound,
        (fill_len(bound, n) < bound) == (n < bound),
    decreases n,
{
    if n > 0 {
        lemma_backpressure(bound, (n - 1) as nat);
    }
}

/// Law (correlation): once `FinishTask` for identifier `t` has been handled,
/// the wait-list no longer holds `t`; the value that went to the stored
/// channel is the report's own payload, as the contract of
/// [`handle_finish_task`] states.
pub proof fn lemma_correlation(
    waiters: Map<u128, std::sync::mpsc::Sender<TaskReturn>>,
    t: u128,
)
    requires
        waiters.contains_key(t),
    ensures
        !waiters.remove(t).contains_key(t),
        forall|u: u128| u != t && waiters.contains_key(u) ==> waiters.remove(t).contains_key(u)
            && waiters.remove(t)[u] == waiters[u],
{
}

/// The `w` termination signals that shutdown places in the queue.
pub open spec fn terminate_signals(w: nat) -> Seq<Task> {
    Seq::new(w, |i: int| Task::Terminate)
}

/// Law (shutdown completeness): when shutdown places `w` termination signals
/// behind the tasks `s` still queued, then once those tasks are drained each
/// of the next `w` dequeues hands out a termination signal — one per worker
/// blocked in its pull loop, whose step on it is to exit. New work is no
/// longer admitted, since admission with the flag withdrawn is rejected, as
/// `handle_labeled_invoke` states.
pub proof fn lemma_shutdown_completeness(s: Seq<Task>, w: nat)
    ensures
        forall|k: int|
            s.len() <= k < s.len() + w ==> #[trigger] (s + terminate_signals(w))[k]
                == Task::Terminate,
{
}

} // verus!
