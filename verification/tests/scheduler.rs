use snapfaas::codec::encode_resource_info;
use snapfaas::protocol::{
    LabeledInvoke, Request, ResourceInfo, Response, ReturnCode, TaskReturn,
};
use snapfaas::server::{
    admit_invoke, await_reply, deliver_reply, dispatch, handle_finish_task, init_scheduler,
    push_terminates, Admission, DispatchOutcome,
};
use snapfaas::worker::{worker_step, WorkerStep};

fn invoke(name: u8, sync: bool) -> LabeledInvoke {
    LabeledInvoke { function: vec![name], payload: vec![name, name], sync }
}

fn invoke_request(name: u8, sync: bool) -> Request {
    Request::LabeledInvoke(invoke(name, sync))
}

fn assert_reply_code(outcome: DispatchOutcome, code: ReturnCode) {
    match outcome {
        DispatchOutcome::Reply(Response::TaskReturn(ret)) => assert_eq!(ret.code, code),
        _ => panic!("expected an immediate task-return reply"),
    }
}

#[test]
fn backpressure_rejects_beyond_the_bound() {
    // bound 2, nobody draining: two accepted, the third told QueueFull
    let (mut queue, mut mgr) = init_scheduler(2, 1024);
    let first = dispatch(invoke_request(1, false), &mut queue, &mut mgr, true, 0);
    assert_reply_code(first, ReturnCode::Success);
    let second = dispatch(invoke_request(2, false), &mut queue, &mut mgr, true, 0);
    assert_reply_code(second, ReturnCode::Success);
    let third = dispatch(invoke_request(3, false), &mut queue, &mut mgr, true, 0);
    assert_reply_code(third, ReturnCode::QueueFull);
}

#[test]
fn accepted_tasks_are_delivered_once() {
    let (mut queue, mut mgr) = init_scheduler(4, 1024);
    dispatch(invoke_request(1, false), &mut queue, &mut mgr, true, 0);
    let get = Request::GetTask { thread_id: 100 };
    match dispatch(get.clone(), &mut queue, &mut mgr, true, 0) {
        DispatchOutcome::Reply(Response::ProcessTask { invoke: inv, .. }) => {
            assert_eq!(inv.function, vec![1]);
        }
        _ => panic!("expected the queued task"),
    }
    // the same task must not be handed out a second time
    match dispatch(get, &mut queue, &mut mgr, true, 0) {
        DispatchOutcome::WaitForTask => {}
        _ => panic!("queue should be empty after the single delivery"),
    }
}

#[test]
fn synchronous_invoke_correlates_result_to_caller() {
    let (mut queue, mut mgr) = init_scheduler(2, 1024);

    // client admits a synchronous invocation and blocks on the receiver
    let (task_id, decision) = admit_invoke(&mut queue, &mut mgr, true, invoke(7, true));
    let rx = match decision {
        Admission::AcceptedSync(rx) => rx,
        _ => panic!("expected synchronous admission"),
    };

    // the worker pulls the task and sees the same identifier
    let handed = dispatch(Request::GetTask { thread_id: 100 }, &mut queue, &mut mgr, true, 0);
    match handed {
        DispatchOutcome::Reply(Response::ProcessTask { task_id: handed_id, invoke: inv }) => {
            assert_eq!(handed_id, task_id);
            assert_eq!(inv.function, vec![7]);
        }
        _ => panic!("expected the task to be handed out"),
    }

    // the worker reports the result; the scheduler delivers it to the waiter
    let result = TaskReturn { code: ReturnCode::Success, payload: Some(vec![0xca, 0xfe]) };
    let finish = Request::FinishTask { task_id, result: result.clone() };
    match dispatch(finish, &mut queue, &mut mgr, true, 0) {
        DispatchOutcome::ReplyThenDeliver(Response::Ack, tx, ret) => {
            assert_eq!(ret, result);
            assert!(deliver_reply(&tx, ret));
        }
        _ => panic!("expected acknowledgement with a delivery"),
    }
    assert_eq!(await_reply(&rx), Some(result));

    // the wait-list no longer knows the identifier: a second report finds no waiter
    let late = TaskReturn { code: ReturnCode::Success, payload: None };
    assert!(handle_finish_task(&mut mgr, task_id, late).is_none());
}

#[test]
fn finish_task_without_waiter_is_acknowledged() {
    let (mut queue, mut mgr) = init_scheduler(2, 1024);
    let result = TaskReturn { code: ReturnCode::Failure, payload: None };
    let finish = Request::FinishTask { task_id: 0, result };
    match dispatch(finish, &mut queue, &mut mgr, true, 0) {
        DispatchOutcome::Reply(Response::Ack) => {}
        _ => panic!("expected a bare acknowledgement"),
    }
}

#[test]
fn tasks_come_out_in_admission_order() {
    let (mut queue, mut mgr) = init_scheduler(4, 1024);
    dispatch(invoke_request(1, false), &mut queue, &mut mgr, true, 0);
    dispatch(invoke_request(2, false), &mut queue, &mut mgr, true, 0);
    let mut seen = Vec::new();
    for _ in 0..2 {
        match dispatch(Request::GetTask { thread_id: 100 }, &mut queue, &mut mgr, true, 0) {
            DispatchOutcome::Reply(Response::ProcessTask { invoke: inv, .. }) => {
                seen.push(inv.function[0]);
            }
            _ => panic!("expected a queued task"),
        }
    }
    assert_eq!(seen, vec![1, 2]);
}

#[test]
fn ping_always_pongs() {
    let (mut queue, mut mgr) = init_scheduler(1, 1024);
    // empty queue
    match dispatch(Request::Ping, &mut queue, &mut mgr, true, 0) {
        DispatchOutcome::Reply(Response::Pong) => {}
        _ => panic!("expected Pong"),
    }
    // full queue and shutdown both leave Ping unaffected
    dispatch(invoke_request(1, false), &mut queue, &mut mgr, true, 0);
    match dispatch(Request::Ping, &mut queue, &mut mgr, false, 0) {
        DispatchOutcome::Reply(Response::Pong) => {}
        _ => panic!("expected Pong"),
    }
}

#[test]
fn resource_updates_round_trip_through_the_manager() {
    let (mut queue, mut mgr) = init_scheduler(1, 1024);
    let info = ResourceInfo { capacity: 2048, usage: 256 };
    let update = Request::UpdateResource { info: encode_resource_info(&info) };
    match dispatch(update, &mut queue, &mut mgr, true, 9) {
        DispatchOutcome::Reply(Response::Ack) => {}
        _ => panic!("expected acknowledgement"),
    }
    assert_eq!(mgr.get(9), Some(&info));
    assert_eq!(mgr.get(10), None);

    // a malformed snapshot is acknowledged and changes nothing
    let malformed = Request::UpdateResource { info: vec![1, 2, 3] };
    match dispatch(malformed, &mut queue, &mut mgr, true, 9) {
        DispatchOutcome::Reply(Response::Ack) => {}
        _ => panic!("expected acknowledgement"),
    }
    assert_eq!(mgr.get(9), Some(&info));

    match dispatch(Request::DropResource, &mut queue, &mut mgr, true, 9) {
        DispatchOutcome::ReplyThenClose(Response::Ack) => {}
        _ => panic!("expected acknowledgement and close"),
    }
    assert_eq!(mgr.get(9), None);
}

#[test]
fn shutdown_releases_workers_and_stops_admission() {
    let (mut queue, mut mgr) = init_scheduler(4, 1024);
    // two workers to release
    assert_eq!(push_terminates(&mut queue, 2), 2);
    for _ in 0..2 {
        match dispatch(Request::GetTask { thread_id: 100 }, &mut queue, &mut mgr, false, 0) {
            DispatchOutcome::Reply(Response::Terminate) => {
                assert!(matches!(worker_step(Response::Terminate), WorkerStep::Exit));
            }
            _ => panic!("expected a termination signal"),
        }
    }
    // admission is closed: even an empty queue rejects
    let refused = dispatch(invoke_request(1, false), &mut queue, &mut mgr, false, 0);
    assert_reply_code(refused, ReturnCode::QueueFull);
}

#[test]
fn two_sync_invokes_one_worker() {
    // queue bound 2, one worker: A and B admitted synchronously, C rejected;
    // the worker drains and each caller receives its own result
    let (mut queue, mut mgr) = init_scheduler(2, 1024);

    let (id_a, decision_a) = admit_invoke(&mut queue, &mut mgr, true, invoke(0xa, true));
    let rx_a = match decision_a {
        Admission::AcceptedSync(rx) => rx,
        _ => panic!("A should be admitted synchronously"),
    };
    let (id_b, decision_b) = admit_invoke(&mut queue, &mut mgr, true, invoke(0xb, true));
    let rx_b = match decision_b {
        Admission::AcceptedSync(rx) => rx,
        _ => panic!("B should be admitted synchronously"),
    };
    let refused = dispatch(invoke_request(0xc, true), &mut queue, &mut mgr, true, 0);
    assert_reply_code(refused, ReturnCode::QueueFull);

    for (expected_id, expected_name, rx) in [(id_a, 0xa, rx_a), (id_b, 0xb, rx_b)] {
        let handed = dispatch(Request::GetTask { thread_id: 100 }, &mut queue, &mut mgr, true, 0);
        let (task_id, inv) = match handed {
            DispatchOutcome::Reply(Response::ProcessTask { task_id, invoke }) => (task_id, invoke),
            _ => panic!("expected the oldest queued task"),
        };
        assert_eq!(task_id, expected_id);
        assert_eq!(inv.function, vec![expected_name]);
        let result = TaskReturn { code: ReturnCode::Success, payload: Some(vec![expected_name]) };
        let finish = Request::FinishTask { task_id, result: result.clone() };
        match dispatch(finish, &mut queue, &mut mgr, true, 0) {
            DispatchOutcome::ReplyThenDeliver(Response::Ack, tx, ret) => {
                assert!(deliver_reply(&tx, ret));
            }
            _ => panic!("expected a delivery to the blocked caller"),
        }
        assert_eq!(await_reply(&rx), Some(result));
    }
}

#[test]
fn push_terminates_stops_at_capacity() {
    let (mut queue, mut mgr) = init_scheduler(2, 1024);
    dispatch(invoke_request(1, false), &mut queue, &mut mgr, true, 0);
    assert_eq!(push_terminates(&mut queue, 3), 1);
}
