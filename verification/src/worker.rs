//! The worker side of the protocol: the pull-loop decisions of a worker bound
//! to one execution slot. A worker asks for a task, runs an invocation
//! through the execution backend, reports the result, and leaves its loop on
//! a termination signal. The backend itself and the connection are outside
//! the library; a worker's loop hands the decisions here plain values.

use vstd::prelude::*;

use crate::protocol::{LabeledInvoke, Request, RequestView, Response, ReturnCode, TaskReturn,
    TaskReturnView};

verus! {

/// What a worker does with the scheduler's answer to `GetTask`.
pub enum WorkerStep {
    /// Execute the invocation through the backend, then report the result
    /// under the task identifier.
    Run { task_id: u128, invoke: LabeledInvoke },
    /// Leave the pull loop; the scheduler is shutting the worker down.
    Exit,
    /// An answer no worker expects; the loop treats the connection as broken
    /// and leaves.
    Unexpected,
}

/// Decides a worker's next step from the scheduler's answer: a handed task is
/// run, a termination signal ends the loop, anything else is a protocol
/// fault.
pub fn worker_step(resp: Response) -> (r: WorkerStep)
    ensures
        match resp {
            Response::ProcessTask { task_id, invoke } => r == (WorkerStep::Run { task_id, invoke }),
            Response::Terminate => r == WorkerStep::Exit,
            _ => r == WorkerStep::Unexpected,
        },
{
    match resp {
        Response::ProcessTask { task_id, invoke } => WorkerStep::Run { task_id, invoke },
        Response::Terminate => WorkerStep::Exit,
        _ => WorkerStep::Unexpected,
    }
}

/// The request a worker sends to ask for its next task, naming its slot.
pub fn get_task_request(thread_id: u64) -> (r: Request)
    ensures
        r == (Request::GetTask { thread_id }),
{
    Request::GetTask { thread_id }
}

/// The result code a worker reports: execution failures travel as failure
/// results inside `FinishTask`, never as protocol faults.
pub open spec fn report_code(ok: bool) -> ReturnCode {
    if ok {
        ReturnCode::Success
    } else {
        ReturnCode::Failure
    }
}

/// The report a worker sends when an invocation has finished: the task's
/// identifier with the backend's payload, marked succeeded or failed.
pub fn finish_task_request(task_id: u128, ok: bool, payload: Option<Vec<u8>>) -> (r: Request)
    ensures
        r@ == (RequestView::FinishTask {
            task_id,
            result: TaskReturnView {
                code: report_code(ok),
                payload: match payload {
                    Some(p) => Some(p@),
                    None => None,
                },
            },
        }),
{
    let code = if ok {
        ReturnCode::Success
    } else {
        ReturnCode::Failure
    };
    Request::FinishTask { task_id, result: TaskReturn { code, payload } }
}

/// How many workers a memory budget supports: one execution slot per 128
/// memory units.
pub fn pool_size_for_memory(total_mem: usize) -> (r: usize)
    ensures
        r == total_mem / 128,
{
    total_mem / 128
}

/// The slot identities of a worker pool: slot numbering starts at 100, one
/// consecutive identity per worker, each addressing one sandboxed VM.
pub fn worker_slots(pool_size: usize) -> (r: Vec<u32>)
    requires
        pool_size + 100 <= u32::MAX,
    ensures
        r@.len() == pool_size,
        forall|i: int| 0 <= i < pool_size ==> r@[i] == 100 + i,
{
    let mut r: Vec<u32> = Vec::new();
    let mut i: usize = 0;
    while i < pool_size
        invariant
            i <= pool_size,
            pool_size + 100 <= u32::MAX,
            r@.len() == i,
            forall|k: int| 0 <= k < i ==> r@[k] == 100 + k,
        decreases pool_size - i,
    {
        r.push(i as u32 + 100);
        i = i + 1;
    }
    r
}

} // verus!
