use schedules_runner::api::HttpResponse;
use schedules_runner::lifecycle::Lifecycle;
use schedules_runner::lifecycle::LifecycleAction;
use schedules_runner::lifecycle::LifecycleEvent;
use schedules_runner::lifecycle::LifecycleState;
use schedules_runner::settings::Settings;
use schedules_runner::poller::poll_decision;
use schedules_runner::poller::FetchError;
use schedules_runner::poller::PollDecision;
use schedules_runner::poller::POLL_INTERVAL_SECS;

fn resp(status: u16, body: &str) -> Option<HttpResponse> {
    Some(HttpResponse { status, body: body.to_string() })
}

#[test]
fn poll_transport_failure_is_fatal() {
    match poll_decision(None) {
        PollDecision::Fail(e) => assert_eq!(e, FetchError::Transport),
        PollDecision::Dispatch(_) => panic!("expected a failure"),
    }
}

#[test]
fn poll_http_error_is_fatal() {
    match poll_decision(resp(500, "boom")) {
        PollDecision::Fail(e) => assert_eq!(e, FetchError::Http(500)),
        PollDecision::Dispatch(_) => panic!("expected a failure"),
    }
}

#[test]
fn poll_undecodable_body_is_fatal() {
    match poll_decision(resp(200, "not an array")) {
        PollDecision::Fail(e) => assert_eq!(e, FetchError::Undecodable),
        PollDecision::Dispatch(_) => panic!("expected a failure"),
    }
}

#[test]
fn poll_dispatches_decoded_executions() {
    let body = "[{\"id\":\"E1\",\"task\":{\"id\":\"T1\",\"name\":\"demo\",\"payload\":\"echo hi\"},\"startTime\":1600000000}]";
    match poll_decision(resp(200, body)) {
        PollDecision::Dispatch(v) => {
            assert_eq!(v.len(), 1);
            assert_eq!(v[0].id, "E1");
        },
        PollDecision::Fail(_) => panic!("expected a dispatch"),
    }
}

#[test]
fn poll_empty_list_dispatches_nothing() {
    match poll_decision(resp(200, "[]")) {
        PollDecision::Dispatch(v) => assert!(v.is_empty()),
        PollDecision::Fail(_) => panic!("expected a dispatch"),
    }
}

#[test]
fn poll_interval_is_ten_seconds() {
    assert_eq!(POLL_INTERVAL_SECS, 10);
}

#[test]
fn poll_then_lifecycle_end_to_end() {
    let settings = Settings::new(
        None,
        Some("http://sched".to_string()),
        Some("tok".to_string()),
        Some("logs/".to_string()),
    )
    .unwrap();
    let body = "[{\"id\":\"E1\",\"task\":{\"id\":\"T1\",\"name\":\"demo\",\"payload\":\"echo hi\"},\"startTime\":1600000000}]";
    let executions = match poll_decision(resp(200, body)) {
        PollDecision::Dispatch(v) => v,
        PollDecision::Fail(_) => panic!("expected a dispatch"),
    };
    assert_eq!(executions.len(), 1);
    let mut lifecycle = Lifecycle::new(&settings, executions.into_iter().next().unwrap());
    match lifecycle.step(LifecycleEvent::StartAck(true)) {
        Some(LifecycleAction::Materialize { path, content, .. }) => {
            assert_eq!(path, "logs/tasks/T1/execs/E1/task.sh");
            assert_eq!(content, "echo hi");
        },
        _ => panic!("expected a Materialize action"),
    }
    lifecycle.step(LifecycleEvent::MaterializeDone(true));
    lifecycle.step(LifecycleEvent::SpawnDone(true));
    assert!(lifecycle.step(LifecycleEvent::ProcessExited).is_none());
    assert_eq!(lifecycle.state, LifecycleState::Exited);
}

#[test]
fn poll_dispatches_record_with_escaped_id() {
    // An id written with a JSON escape is still a well-formed record
    // array and must be dispatched, not treated as undecodable.
    let body = "[{\"id\":\"\\u0045\",\"task\":{\"id\":\"T\",\"name\":\"n\",\"payload\":\"p\"},\"startTime\":1}]";
    match poll_decision(resp(200, body)) {
        PollDecision::Dispatch(v) => {
            assert_eq!(v.len(), 1);
            assert_eq!(v[0].id, "E");
        },
        PollDecision::Fail(_) => panic!("expected a dispatch"),
    }
}
