//! Scheduler core of a function-as-a-service control plane.
//!
//! The library covers the wire protocol spoken between invokers, workers and
//! the scheduler; the bounded FIFO task queue with its admission control; the
//! per-host resource tracking together with the wait-list that correlates a
//! synchronous invocation with its eventual result; the per-connection
//! dispatch rules; and the worker pull-loop and shutdown decisions. The
//! listening sockets, the connection threads and the execution backend live
//! outside the library and drive it with plain values.

pub mod bytes;
pub mod codec;
pub mod frontend;
pub mod protocol;
pub mod queue;
pub mod reply;
pub mod resource_manager;
pub mod server;
pub mod worker;
