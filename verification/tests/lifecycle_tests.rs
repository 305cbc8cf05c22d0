use schedules_runner::lifecycle::Execution;
use schedules_runner::lifecycle::Lifecycle;
use schedules_runner::lifecycle::LifecycleAction;
use schedules_runner::lifecycle::LifecycleEvent;
use schedules_runner::lifecycle::LifecycleState;
use schedules_runner::lifecycle::Task;
use schedules_runner::settings::Settings;

fn mk_settings() -> Settings {
    Settings::new(
        None,
        Some("http://sched".to_string()),
        Some("tok".to_string()),
        Some("logs/".to_string()),
    )
    .unwrap()
}

fn mk_execution(task_id: &str, exec_id: &str, payload: &str) -> Execution {
    Execution {
        id: exec_id.to_string(),
        task: Task {
            id: task_id.to_string(),
            name: "demo".to_string(),
            payload: payload.to_string(),
        },
        start_time: 1600000000,
    }
}

#[test]
fn lifecycle_happy_path() {
    let settings = mk_settings();
    let mut lc = Lifecycle::new(&settings, mk_execution("T1", "E1", "echo hi"));
    assert_eq!(lc.state, LifecycleState::Fetched);

    match lc.start_action() {
        LifecycleAction::ReportStart { url, body } => {
            assert_eq!(url, "http://sched/api/v1/execs/E1");
            assert_eq!(
                body,
                "{\"status\":{\"value\":\"Started\",\"idempotentKey\":\"E1:Started\"}}"
            );
        },
        _ => panic!("expected a ReportStart action"),
    }

    match lc.step(LifecycleEvent::StartAck(true)) {
        Some(LifecycleAction::Materialize { dir, path, content }) => {
            assert_eq!(dir, "logs/tasks/T1/execs/E1");
            assert_eq!(path, "logs/tasks/T1/execs/E1/task.sh");
            assert_eq!(content, "echo hi");
        },
        _ => panic!("expected a Materialize action"),
    }
    assert_eq!(lc.state, LifecycleState::StartReported);

    match lc.step(LifecycleEvent::MaterializeDone(true)) {
        Some(LifecycleAction::Spawn { path }) => {
            assert_eq!(path, "logs/tasks/T1/execs/E1/task.sh");
        },
        _ => panic!("expected a Spawn action"),
    }
    assert_eq!(lc.state, LifecycleState::Materialized);

    match lc.step(LifecycleEvent::SpawnDone(true)) {
        Some(LifecycleAction::AwaitExit) => {},
        _ => panic!("expected an AwaitExit action"),
    }
    assert_eq!(lc.state, LifecycleState::Spawned);

    assert!(lc.step(LifecycleEvent::ProcessExited).is_none());
    assert_eq!(lc.state, LifecycleState::Exited);
}

#[test]
fn lifecycle_refused_start_is_abandoned() {
    let settings = mk_settings();
    let mut lc = Lifecycle::new(&settings, mk_execution("T1", "E1", "echo hi"));
    assert!(lc.step(LifecycleEvent::StartAck(false)).is_none());
    assert_eq!(lc.state, LifecycleState::Abandoned);
    // Whatever arrives afterwards, nothing is ever materialized.
    assert!(lc.step(LifecycleEvent::MaterializeDone(true)).is_none());
    assert!(lc.step(LifecycleEvent::StartAck(true)).is_none());
    assert_eq!(lc.state, LifecycleState::Abandoned);
}

#[test]
fn lifecycle_materialize_failure_ends_instance() {
    let settings = mk_settings();
    let mut lc = Lifecycle::new(&settings, mk_execution("T1", "E1", "echo hi"));
    lc.step(LifecycleEvent::StartAck(true));
    assert!(lc.step(LifecycleEvent::MaterializeDone(false)).is_none());
    assert_eq!(lc.state, LifecycleState::Failed);
    assert!(lc.step(LifecycleEvent::SpawnDone(true)).is_none());
    assert_eq!(lc.state, LifecycleState::Failed);
}

#[test]
fn lifecycle_spawn_failure_ends_instance() {
    let settings = mk_settings();
    let mut lc = Lifecycle::new(&settings, mk_execution("T1", "E1", "echo hi"));
    lc.step(LifecycleEvent::StartAck(true));
    lc.step(LifecycleEvent::MaterializeDone(true));
    assert!(lc.step(LifecycleEvent::SpawnDone(false)).is_none());
    assert_eq!(lc.state, LifecycleState::Failed);
}

#[test]
fn lifecycle_redispatch_hits_same_path_with_full_content() {
    let settings = mk_settings();
    let mut first = Lifecycle::new(&settings, mk_execution("T1", "E1", "echo one"));
    let mut second = Lifecycle::new(&settings, mk_execution("T1", "E1", "echo two"));
    let (p1, c1) = match first.step(LifecycleEvent::StartAck(true)) {
        Some(LifecycleAction::Materialize { path, content, .. }) => (path, content),
        _ => panic!("expected a Materialize action"),
    };
    let (p2, c2) = match second.step(LifecycleEvent::StartAck(true)) {
        Some(LifecycleAction::Materialize { path, content, .. }) => (path, content),
        _ => panic!("expected a Materialize action"),
    };
    // Same ids: same file, and the write carries the whole new payload,
    // never an appended mixture.
    assert_eq!(p1, p2);
    assert_eq!(c1, "echo one");
    assert_eq!(c2, "echo two");
}

#[test]
fn lifecycle_distinct_executions_are_independent() {
    let settings = mk_settings();
    let mut dirs: Vec<String> = Vec::new();
    let mut contents: Vec<String> = Vec::new();
    for k in 0..5 {
        let exec_id = format!("E{}", k);
        let payload = format!("echo {}", k);
        let mut lc = Lifecycle::new(&settings, mk_execution("T1", &exec_id, &payload));
        match lc.step(LifecycleEvent::StartAck(true)) {
            Some(LifecycleAction::Materialize { dir, content, .. }) => {
                dirs.push(dir);
                contents.push(content);
            },
            _ => panic!("expected a Materialize action"),
        }
    }
    for a in 0..5 {
        assert_eq!(contents[a], format!("echo {}", a));
        for b in 0..5 {
            if a != b {
                assert_ne!(dirs[a], dirs[b]);
            }
        }
    }
}
