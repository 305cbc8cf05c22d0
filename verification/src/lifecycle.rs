//! The per-execution lifecycle state machine.
//!
//! For each fetched execution the agent runs one lifecycle instance:
//! report "Started" to the server, materialize the task payload as a
//! script on disk, spawn it under the interpreter, await its exit. The
//! decisions of that sequence are this state machine; the surrounding
//! process performs each requested [`LifecycleAction`] (an HTTP call, a
//! directory and file write, a process spawn) and feeds the outcome back
//! as a [`LifecycleEvent`]. Instances share nothing mutable, so any
//! number of them can run concurrently.

use vstd::prelude::*;
use crate::api::exec_status_url;
use crate::api::exec_status_url_spec;
use crate::paths::exec_dir;
use crate::paths::exec_dir_spec;
use crate::paths::lemma_exec_dir_injective;
use crate::paths::script_path;
use crate::paths::script_path_spec;
use crate::paths::slash_free;
use crate::settings::Settings;
use crate::wire::idempotency_key;
use crate::wire::idempotency_key_spec;
use crate::wire::status_body;
use crate::wire::status_body_spec;

verus! {

/// Immutable definition of work, owned by the server; the agent only
/// reads it.
pub struct Task {
    pub id: String,
    pub name: String,
    pub payload: String,
}

/// One scheduled instance of running a [`Task`], immutable once fetched.
/// `start_time` is a unix timestamp in seconds.
pub struct Execution {
    pub id: String,
    pub task: Task,
    pub start_time: i64,
}

/// Where one lifecycle instance stands.
#[derive(Clone, Copy, PartialEq, Eq, Structural, Debug)]
pub enum LifecycleState {
    /// Fetched from the server; nothing reported or run yet.
    Fetched,
    /// The server accepted the "Started" report.
    StartReported,
    /// The script is on disk.
    Materialized,
    /// The child process is running.
    Spawned,
    /// The child process has exited; the instance is complete.
    Exited,
    /// The server refused the "Started" report; the execution never runs.
    Abandoned,
    /// Materialization or spawning failed; the instance ended without the
    /// script running (or completing). Local to this instance only.
    Failed,
}

/// The outcome of one action, fed back into the machine.
#[derive(Clone, Copy, PartialEq, Eq, Structural, Debug)]
pub enum LifecycleEvent {
    /// Whether the server accepted the "Started" report.
    StartAck(bool),
    /// Whether directory creation and the script write succeeded.
    MaterializeDone(bool),
    /// Whether the child process could be spawned.
    SpawnDone(bool),
    /// The child process exited. Its exit code is not inspected.
    ProcessExited,
}

/// What the surrounding process must do next.
pub enum LifecycleAction {
    /// POST `body` to `url`.
    ReportStart { url: String, body: String },
    /// Create `dir` (recursively; an existing directory is not an error)
    /// and write `content` to `path`, fully replacing prior contents.
    Materialize { dir: String, path: String, content: String },
    /// Spawn the interpreter on `path` (`bash <path>`).
    Spawn { path: String },
    /// Wait for the spawned process to exit.
    AwaitExit,
}

/// The transition relation: where each event takes each state. An event
/// that is not expected in the current state changes nothing.
pub open spec fn next_state(s: LifecycleState, e: LifecycleEvent) -> LifecycleState {
    match (s, e) {
        (LifecycleState::Fetched, LifecycleEvent::StartAck(true)) => LifecycleState::StartReported,
        (LifecycleState::Fetched, LifecycleEvent::StartAck(false)) => LifecycleState::Abandoned,
        (
            LifecycleState::StartReported,
            LifecycleEvent::MaterializeDone(true),
        ) => LifecycleState::Materialized,
        (
            LifecycleState::StartReported,
            LifecycleEvent::MaterializeDone(false),
        ) => LifecycleState::Failed,
        (LifecycleState::Materialized, LifecycleEvent::SpawnDone(true)) => LifecycleState::Spawned,
        (LifecycleState::Materialized, LifecycleEvent::SpawnDone(false)) => LifecycleState::Failed,
        (LifecycleState::Spawned, LifecycleEvent::ProcessExited) => LifecycleState::Exited,
        (_, _) => s,
    }
}

/// A state in which the lifecycle is over: no further action will ever
/// be requested.
pub open spec fn is_terminal(s: LifecycleState) -> bool {
    s == LifecycleState::Exited || s == LifecycleState::Abandoned || s == LifecycleState::Failed
}

/// One lifecycle instance: the execution it runs, the strings its actions
/// carry (all derived once from the settings and the execution), and the
/// current state.
pub struct Lifecycle {
    pub execution: Execution,
    pub state: LifecycleState,
    pub status_url: String,
    pub dir: String,
    pub script: String,
    pub start_body: String,
}

/// The action, if any, that one step emits. Materialization is requested
/// exactly when the server acknowledges the "Started" report, spawning
/// exactly when materialization succeeded, and waiting exactly when the
/// spawn succeeded.
pub open spec fn step_action_spec(l: Lifecycle, e: LifecycleEvent) -> Option<LifecycleAction> {
    match (l.state, e) {
        (LifecycleState::Fetched, LifecycleEvent::StartAck(true)) => Option::Some(
            LifecycleAction::Materialize {
                dir: l.dir,
                path: l.script,
                content: l.execution.task.payload,
            },
        ),
        (LifecycleState::StartReported, LifecycleEvent::MaterializeDone(true)) => Option::Some(
            LifecycleAction::Spawn { path: l.script },
        ),
        (LifecycleState::Materialized, LifecycleEvent::SpawnDone(true)) => Option::Some(
            LifecycleAction::AwaitExit,
        ),
        (_, _) => Option::None,
    }
}

impl Lifecycle {
    /// The derived strings are the ones the path and wire specifications
    /// prescribe for this execution.
    pub open spec fn wf(&self, server: Seq<char>, logs: Seq<char>) -> bool {
        &&& self.status_url@ == exec_status_url_spec(server, self.execution.id@)
        &&& self.dir@ == exec_dir_spec(logs, self.execution.task.id@, self.execution.id@)
        &&& self.script@ == script_path_spec(
            exec_dir_spec(logs, self.execution.task.id@, self.execution.id@),
        )
        &&& self.start_body@ == status_body_spec(
            "Started"@,
            idempotency_key_spec(self.execution.id@, "Started"@),
        )
    }

    /// Begin a lifecycle for one fetched execution.
    pub fn new(settings: &Settings, execution: Execution) -> (r: Lifecycle)
        ensures
            r.execution == execution,
            r.state == LifecycleState::Fetched,
            r.wf(settings.server@, settings.logs@),
    {
        let status_url = exec_status_url(settings.server.as_str(), execution.id.as_str());
        let dir = exec_dir(settings.logs.as_str(), execution.task.id.as_str(), execution.id.as_str());
        let script = script_path(dir.as_str());
        let key = idempotency_key(execution.id.as_str(), "Started");
        let start_body = status_body("Started", key.as_str());
        Lifecycle { execution, state: LifecycleState::Fetched, status_url, dir, script, start_body }
    }

    /// The first action of every lifecycle: report "Started" before
    /// anything touches the disk or a process.
    pub fn start_action(&self) -> (a: LifecycleAction)
        requires
            self.state == LifecycleState::Fetched,
        ensures
            a == (LifecycleAction::ReportStart { url: self.status_url, body: self.start_body }),
    {
        LifecycleAction::ReportStart { url: self.status_url.clone(), body: self.start_body.clone() }
    }

    /// Feed one event into the machine; the returned action, if any, is
    /// what the surrounding process must perform next.
    pub fn step(&mut self, event: LifecycleEvent) -> (a: Option<LifecycleAction>)
        ensures
            final(self).execution == old(self).execution,
            final(self).status_url == old(self).status_url,
            final(self).dir == old(self).dir,
            final(self).script == old(self).script,
            final(self).start_body == old(self).start_body,
            final(self).state == next_state(old(self).state, event),
            a == step_action_spec(*old(self), event),
    {
        let a: Option<LifecycleAction> = match (self.state, event) {
            (LifecycleState::Fetched, LifecycleEvent::StartAck(true)) => Option::Some(
                LifecycleAction::Materialize {
                    dir: self.dir.clone(),
                    path: self.script.clone(),
                    content: self.execution.task.payload.clone(),
                },
            ),
            (LifecycleState::StartReported, LifecycleEvent::MaterializeDone(true)) => Option::Some(
                LifecycleAction::Spawn { path: self.script.clone() },
            ),
            (LifecycleState::Materialized, LifecycleEvent::SpawnDone(true)) => Option::Some(
                LifecycleAction::AwaitExit,
            ),
            (_, _) => Option::None,
        };
        let ns: LifecycleState = match (self.state, event) {
            (LifecycleState::Fetched, LifecycleEvent::StartAck(true)) => {
                LifecycleState::StartReported
            },
            (LifecycleState::Fetched, LifecycleEvent::StartAck(false)) => LifecycleState::Abandoned,
            (LifecycleState::StartReported, LifecycleEvent::MaterializeDone(true)) => {
                LifecycleState::Materialized
            },
            (LifecycleState::StartReported, LifecycleEvent::MaterializeDone(false)) => {
                LifecycleState::Failed
            },
            (LifecycleState::Materialized, LifecycleEvent::SpawnDone(true)) => {
                LifecycleState::Spawned
            },
            (LifecycleState::Materialized, LifecycleEvent::SpawnDone(false)) => {
                LifecycleState::Failed
            },
            (LifecycleState::Spawned, LifecycleEvent::ProcessExited) => LifecycleState::Exited,
            (_, _) => self.state,
        };
        self.state = ns;
        a
    }
}

/// The state after a whole sequence of events, starting from `s`.
pub open spec fn run_states(s: LifecycleState, events: Seq<LifecycleEvent>) -> LifecycleState
    decreases events.len(),
{
    if events.len() == 0 {
        s
    } else {
        run_states(next_state(s, events[0]), events.drop_first())
    }
}

/// The state a lifecycle that started in `Fetched` is in after the first
/// `k` events.
pub open spec fn state_at(events: Seq<LifecycleEvent>, k: int) -> LifecycleState {
    run_states(LifecycleState::Fetched, events.take(k))
}

/// Whether a step emits a materialization request; by `step_action_spec`
/// this happens in exactly one situation.
pub open spec fn emits_materialize(s: LifecycleState, e: LifecycleEvent) -> bool {
    s == LifecycleState::Fetched && e == LifecycleEvent::StartAck(true)
}

/// Once a lifecycle is over it stays over: a terminal state absorbs
/// every event and never requests another action.
pub proof fn lemma_terminal_is_final(l: Lifecycle, e: LifecycleEvent)
    requires
        is_terminal(l.state),
    ensures
        next_state(l.state, e) == l.state,
        step_action_spec(l, e) is None,
{
}

/// Every emitted `Materialize` action comes from a step that
/// `emits_materialize` describes.
pub proof fn lemma_materialize_characterized(l: Lifecycle, e: LifecycleEvent)
    ensures
        (step_action_spec(l, e) matches Option::Some(a_) && a_ is Materialize)
            <==> emits_materialize(l.state, e),
{
}

/// An abandoned lifecycle stays abandoned, whatever else happens.
proof fn lemma_run_states_abandoned(events: Seq<LifecycleEvent>)
    ensures
        run_states(LifecycleState::Abandoned, events) == LifecycleState::Abandoned,
    decreases events.len(),
{
    if events.len() > 0 {
        lemma_run_states_abandoned(events.drop_first());
    }
}

/// If the server refuses the "Started" report, the execution is
/// abandoned and no step of the rest of the run ever requests a
/// materialization: nothing is created on disk for it.
pub proof fn lemma_refused_start_never_materializes(events: Seq<LifecycleEvent>, k: int)
    requires
        events.len() > 0,
        events[0] == LifecycleEvent::StartAck(false),
        0 <= k < events.len(),
    ensures
        !emits_materialize(state_at(events, k), events[k]),
{
    if k == 0 {
        assert(events.take(0) =~= Seq::<LifecycleEvent>::empty());
    } else {
        let t = events.take(k);
        assert(t[0] == LifecycleEvent::StartAck(false));
        assert(run_states(LifecycleState::Fetched, t) == run_states(
            LifecycleState::Abandoned,
            t.drop_first(),
        ));
        lemma_run_states_abandoned(t.drop_first());
    }
}


/// Two lifecycles over the same settings and the same pair of
/// identifiers materialize to the same directory and the same script
/// file: dispatching an execution id a second time lands on the same
/// path, and each `Materialize` action carries the whole payload, so
/// the later write fully replaces the earlier one.
pub proof fn lemma_same_ids_same_artifacts(
    l1: Lifecycle,
    l2: Lifecycle,
    server: Seq<char>,
    logs: Seq<char>,
)
    requires
        l1.wf(server, logs),
        l2.wf(server, logs),
        l1.execution.task.id@ == l2.execution.task.id@,
        l1.execution.id@ == l2.execution.id@,
    ensures
        l1.dir@ == l2.dir@,
        l1.script@ == l2.script@,
        l1.status_url@ == l2.status_url@,
{
}

/// Two lifecycles over the same settings whose identifier pairs differ
/// (and hold no path separator, as the server issues them) get distinct
/// directories: concurrent instances never touch each other's files.
pub proof fn lemma_distinct_executions_distinct_dirs(
    l1: Lifecycle,
    l2: Lifecycle,
    server: Seq<char>,
    logs: Seq<char>,
)
    requires
        l1.wf(server, logs),
        l2.wf(server, logs),
        slash_free(l1.execution.task.id@),
        slash_free(l1.execution.id@),
        slash_free(l2.execution.task.id@),
        slash_free(l2.execution.id@),
        l1.execution.task.id@ != l2.execution.task.id@ || l1.execution.id@ != l2.execution.id@,
    ensures
        l1.dir@ != l2.dir@,
{
    if l1.dir@ == l2.dir@ {
        lemma_exec_dir_injective(
            logs,
            l1.execution.task.id@,
            l1.execution.id@,
            l2.execution.task.id@,
            l2.execution.id@,
        );
    }
}

} // verus!
