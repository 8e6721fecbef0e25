//! The message vocabulary of the scheduler's wire protocol and the tasks that
//! flow through the queue. Invocation identifiers are 128-bit values generated
//! at admission time; worker hosts are identified by their network address,
//! carried as an integer.

use vstd::prelude::*;

verus! {

/// A function invocation as admitted by the scheduler: an opaque function
/// descriptor (resolved by the external object store), an opaque serialized
/// argument payload, and whether the caller blocks for the result.
#[derive(Clone, PartialEq, Eq, Debug)]
pub struct LabeledInvoke {
    pub function: Vec<u8>,
    pub payload: Vec<u8>,
    pub sync: bool,
}

/// Spec-level image of [`LabeledInvoke`].
pub struct LabeledInvokeView {
    pub function: Seq<u8>,
    pub payload: Seq<u8>,
    pub sync: bool,
}

impl View for LabeledInvoke {
    type V = LabeledInvokeView;

    open spec fn view(&self) -> LabeledInvokeView {
        LabeledInvokeView { function: self.function@, payload: self.payload@, sync: self.sync }
    }
}

/// The outcome code carried by a `TaskReturn` reply.
#[derive(Clone, Copy, PartialEq, Eq, Structural, Debug)]
pub enum ReturnCode {
    /// The invocation was admitted (asynchronous calls), or ran to completion
    /// (synchronous calls).
    Success,
    /// The queue was at capacity and the invocation was rejected.
    QueueFull,
    /// The execution backend reported a failure for the invocation.
    Failure,
}

/// The immediate or eventual reply to a `LabeledInvoke`, and the result a
/// worker reports inside `FinishTask`.
#[derive(Clone, PartialEq, Eq, Debug)]
pub struct TaskReturn {
    pub code: ReturnCode,
    pub payload: Option<Vec<u8>>,
}

/// Spec-level image of [`TaskReturn`].
pub struct TaskReturnView {
    pub code: ReturnCode,
    pub payload: Option<Seq<u8>>,
}

impl View for TaskReturn {
    type V = TaskReturnView;

    open spec fn view(&self) -> TaskReturnView {
        TaskReturnView {
            code: self.code,
            payload: match self.payload {
                Some(ref p) => Some(p@),
                None => None,
            },
        }
    }
}

/// A message sent to the scheduler by an invoker, a worker, or a worker host.
#[derive(Clone, PartialEq, Eq, Debug)]
pub enum Request {
    /// Liveness check; always answered with `Pong`.
    Ping,
    /// A worker asks for its next task, naming its execution slot.
    GetTask { thread_id: u64 },
    /// A worker reports the completion of a previously dispatched task.
    FinishTask { task_id: u128, result: TaskReturn },
    /// An invoker asks to admit a new invocation.
    LabeledInvoke(LabeledInvoke),
    /// A worker host replaces its stored resource snapshot; the field carries
    /// the serialized snapshot as it arrived.
    UpdateResource { info: Vec<u8> },
    /// A worker host withdraws its snapshot and closes the connection.
    DropResource,
}

/// Spec-level image of [`Request`].
pub enum RequestView {
    Ping,
    GetTask { thread_id: u64 },
    FinishTask { task_id: u128, result: TaskReturnView },
    LabeledInvoke(LabeledInvokeView),
    UpdateResource { info: Seq<u8> },
    DropResource,
}

impl View for Request {
    type V = RequestView;

    open spec fn view(&self) -> RequestView {
        match self {
            Request::Ping => RequestView::Ping,
            Request::GetTask { thread_id } => RequestView::GetTask { thread_id: *thread_id },
            Request::FinishTask { task_id, result } => RequestView::FinishTask {
                task_id: *task_id,
                result: result@,
            },
            Request::LabeledInvoke(inv) => RequestView::LabeledInvoke(inv@),
            Request::UpdateResource { info } => RequestView::UpdateResource { info: info@ },
            Request::DropResource => RequestView::DropResource,
        }
    }
}

/// A message sent by the scheduler.
#[derive(Clone, PartialEq, Eq, Debug)]
pub enum Response {
    /// Reply to `Ping`.
    Pong,
    /// A task handed to a worker in reply to `GetTask`.
    ProcessTask { task_id: u128, invoke: LabeledInvoke },
    /// Tells a worker to leave its pull loop, in reply to `GetTask`.
    Terminate,
    /// The admission result of a `LabeledInvoke`, or the eventual result of a
    /// synchronous invocation.
    TaskReturn(TaskReturn),
    /// A bare acknowledgement carrying no content.
    Ack,
}

/// Spec-level image of [`Response`].
pub enum ResponseView {
    Pong,
    ProcessTask { task_id: u128, invoke: LabeledInvokeView },
    Terminate,
    TaskReturn(TaskReturnView),
    Ack,
}

impl View for Response {
    type V = ResponseView;

    open spec fn view(&self) -> ResponseView {
        match self {
            Response::Pong => ResponseView::Pong,
            Response::ProcessTask { task_id, invoke } => ResponseView::ProcessTask {
                task_id: *task_id,
                invoke: invoke@,
            },
            Response::Terminate => ResponseView::Terminate,
            Response::TaskReturn(ret) => ResponseView::TaskReturn(ret@),
            Response::Ack => ResponseView::Ack,
        }
    }
}

/// A unit of scheduled work: an invocation to run, or a termination signal
/// telling one worker to leave its pull loop.
#[derive(Clone, PartialEq, Eq, Debug)]
pub enum Task {
    Invoke(u128, LabeledInvoke),
    Terminate,
}

/// A per-host resource snapshot, stored wholesale by the resource manager and
/// keyed by the reporting host's network address.
#[derive(Clone, Copy, PartialEq, Eq, Structural, Debug)]
pub struct ResourceInfo {
    /// Capacity the host offers, in memory units.
    pub capacity: u64,
    /// Capacity the host currently has in use.
    pub usage: u64,
}

} // verus!
