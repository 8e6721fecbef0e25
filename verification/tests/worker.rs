use snapfaas::frontend::GithubOAuthCredentials;
use snapfaas::protocol::{LabeledInvoke, Request, Response, ReturnCode, TaskReturn};
use snapfaas::worker::{
    finish_task_request, get_task_request, pool_size_for_memory, worker_slots, worker_step,
    WorkerStep,
};

#[test]
fn worker_runs_handed_tasks_and_exits_on_terminate() {
    let inv = LabeledInvoke { function: vec![1], payload: vec![2], sync: false };
    let step = worker_step(Response::ProcessTask { task_id: 5, invoke: inv.clone() });
    match step {
        WorkerStep::Run { task_id, invoke } => {
            assert_eq!(task_id, 5);
            assert_eq!(invoke, inv);
        }
        _ => panic!("expected a run step"),
    }
    assert!(matches!(worker_step(Response::Terminate), WorkerStep::Exit));
    assert!(matches!(worker_step(Response::Pong), WorkerStep::Unexpected));
}

#[test]
fn worker_requests_carry_slot_and_result() {
    assert_eq!(get_task_request(104), Request::GetTask { thread_id: 104 });
    let report = finish_task_request(9, true, Some(vec![1]));
    assert_eq!(
        report,
        Request::FinishTask {
            task_id: 9,
            result: TaskReturn { code: ReturnCode::Success, payload: Some(vec![1]) },
        }
    );
    let failed = finish_task_request(9, false, None);
    assert_eq!(
        failed,
        Request::FinishTask {
            task_id: 9,
            result: TaskReturn { code: ReturnCode::Failure, payload: None },
        }
    );
}

#[test]
fn pool_is_sized_by_memory_and_slots_start_at_100() {
    assert_eq!(pool_size_for_memory(1024), 8);
    assert_eq!(pool_size_for_memory(127), 0);
    let slots = worker_slots(3);
    assert_eq!(slots, vec![100, 101, 102]);
}

#[test]
fn frontend_credentials_keep_their_fields() {
    let creds = GithubOAuthCredentials::new("id".to_string(), "secret".to_string());
    assert_eq!(creds.client_id, "id");
    assert_eq!(creds.client_secret, "secret");
}
