use schedules_runner::paths::exec_dir;
use schedules_runner::paths::script_path;

#[test]
fn exec_dir_is_concatenation() {
    assert_eq!(exec_dir("logs/", "T1", "E1"), "logs/tasks/T1/execs/E1");
}

#[test]
fn exec_dir_empty_prefix() {
    assert_eq!(exec_dir("", "T1", "E1"), "tasks/T1/execs/E1");
}

#[test]
fn script_path_appends_task_sh() {
    assert_eq!(script_path("logs/tasks/T1/execs/E1"), "logs/tasks/T1/execs/E1/task.sh");
}

#[test]
fn exec_dir_same_ids_same_path() {
    let a = exec_dir("logs/", "T1", "E1");
    let b = exec_dir("logs/", "T1", "E1");
    assert_eq!(a, b);
}

#[test]
fn exec_dir_distinct_ids_distinct_paths() {
    let base = exec_dir("logs/", "T1", "E1");
    assert_ne!(exec_dir("logs/", "T1", "E2"), base);
    assert_ne!(exec_dir("logs/", "T2", "E1"), base);
    assert_ne!(exec_dir("logs/", "T11", "E11"), base);
}
