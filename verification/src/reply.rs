//! The one-shot reply channels behind the wait-list. A synchronous invoker's
//! connection thread blocks on the receiving end; the sending end is stored
//! in the wait-list under the invocation's identifier and is used exactly
//! once, when the matching `FinishTask` arrives. The channel itself is shared
//! state outside the library's model, so nothing is promised of a send or a
//! receive beyond its shape; what the scheduler hands to a sender is pinned
//! by the contracts of the functions that look the sender up.

use vstd::prelude::*;

use crate::protocol::TaskReturn;

verus! {

#[verifier::external_type_specification]
#[verifier::external_body]
#[verifier::reject_recursive_types(T)]
pub struct ExMpscSender<T>(std::sync::mpsc::Sender<T>);

#[verifier::external_type_specification]
#[verifier::external_body]
#[verifier::reject_recursive_types(T)]
pub struct ExMpscReceiver<T>(std::sync::mpsc::Receiver<T>);

/// Relies on std::sync::mpsc::channel: a fresh channel; what goes into the
/// returned sender comes out of the returned receiver.
#[verifier::external_body]
pub(crate) fn new_reply_channel() -> (std::sync::mpsc::Sender<TaskReturn>, std::sync::mpsc::Receiver<
    TaskReturn,
>) {
    std::sync::mpsc::channel()
}

/// Relies on std::sync::mpsc::Sender::send: the value travels to the paired
/// receiver, and fails only when the receiver is gone.
#[verifier::external_body]
pub(crate) fn send_reply(tx: &std::sync::mpsc::Sender<TaskReturn>, ret: TaskReturn) -> (ok: bool) {
    tx.send(ret).is_ok()
}

/// Relies on std::sync::mpsc::Receiver::recv: blocks until the paired sender
/// sends a value, and fails only when the sender is gone without sending.
#[verifier::external_body]
pub(crate) fn recv_reply(rx: &std::sync::mpsc::Receiver<TaskReturn>) -> (r: Option<TaskReturn>) {
    rx.recv().ok()
}

} // verus!
