//! Decisions of the workflow engine and its workers.

use degov::engine::decide::{
    apply_transition, cancel, choose_claim, claim, ensure_running, find_transition, is_claimable,
    lock_decision, new_task, pause, plan_transition, resume, run_result, scheduled_at, settle_task,
    task_event_type, unlock_decision, validate_workflow,
};
use degov::engine::model::{
    Action, EngineError, EventType, InstanceState, InstanceStatus, StateDefinition, Task, TaskLease,
    TaskStatus, Transition, WorkflowDefinition,
};
use degov::engine::store::{range_end, storage_key, KvStore};
use degov::engine::types::{RuntimeType, WorkerId, WorkerStats};
use degov::engine::worker::{
    heartbeat_step, poll_loop_done, poll_loop_step, processing_step, runtime_for, task_finished,
    task_started, WorkerAction, WorkerEvent, WorkerSettings,
};

fn state(name: &str, terminal: bool, on_enter: Option<Action>, on_exit: Option<Action>) -> (String, StateDefinition) {
    (
        name.to_string(),
        StateDefinition { name: name.to_string(), is_terminal: terminal, on_enter, on_exit, timeout_seconds: None },
    )
}

fn transition(from: &str, to: &str, event: &str) -> Transition {
    Transition {
        from: from.to_string(),
        to: to.to_string(),
        event: event.to_string(),
        condition: None,
        action: None,
        compensation: None,
    }
}

fn script(code: &str) -> Action {
    Action::Script { code: code.to_string(), language: "javascript".to_string() }
}

fn workflow() -> WorkflowDefinition {
    WorkflowDefinition {
        id: "wf".to_string(),
        name: "Permit".to_string(),
        version: 1,
        initial_state: "start".to_string(),
        states: vec![
            state("start", false, Some(script("enter start")), Some(script("leave start"))),
            state("review", false, Some(script("enter review")), None),
            state("done", true, None, None),
        ],
        transitions: vec![transition("start", "review", "submit"), transition("review", "done", "approve")],
        created_at: 0,
    }
}

fn instance(status: InstanceStatus) -> InstanceState {
    InstanceState {
        instance_id: "i1".to_string(),
        workflow_id: "wf".to_string(),
        workflow_version: 1,
        current_state: "start".to_string(),
        context: "{}".to_string(),
        status,
        created_at: 0,
        updated_at: 0,
        versionstamp: Vec::new(),
    }
}

fn message(e: &EngineError) -> String {
    e.message()
}

#[test]
fn valid_workflow_is_accepted() {
    assert!(validate_workflow(&workflow()).is_ok());
}

#[test]
fn workflow_with_unknown_initial_state_is_refused() {
    let mut wf = workflow();
    wf.initial_state = "nowhere".to_string();
    let e = validate_workflow(&wf).unwrap_err();
    assert_eq!(message(&e), "Validation error: Initial state 'nowhere' not found in states");
}

#[test]
fn workflow_with_dangling_transitions_is_refused() {
    let mut wf = workflow();
    wf.transitions.push(transition("ghost", "done", "x"));
    match validate_workflow(&wf) {
        Err(EngineError::ValidationError(m)) => assert_eq!(m, "Transition from unknown state: ghost"),
        _ => panic!("expected a validation error"),
    }
    let mut wf = workflow();
    wf.transitions.push(transition("start", "ghost", "x"));
    match validate_workflow(&wf) {
        Err(EngineError::ValidationError(m)) => assert_eq!(m, "Transition to unknown state: ghost"),
        _ => panic!("expected a validation error"),
    }
}

#[test]
fn events_fire_the_first_matching_transition() {
    let wf = workflow();
    let t = find_transition(&wf, "start", "submit").unwrap();
    assert_eq!(t.to, "review");
    match find_transition(&wf, "start", "approve") {
        Err(EngineError::InvalidTransition { from, to }) => {
            assert_eq!(from, "start");
            assert_eq!(to, "approve");
        }
        _ => panic!("expected an invalid transition"),
    }
    let e = find_transition(&wf, "done", "approve").unwrap_err();
    assert_eq!(message(&e), "Invalid state transition: from done to approve");
}

#[test]
fn only_running_instances_take_events() {
    assert!(ensure_running(InstanceStatus::Running).is_ok());
    let e = ensure_running(InstanceStatus::Paused).unwrap_err();
    assert_eq!(message(&e), "Validation error: Instance is not running: Paused");
}

#[test]
fn transition_plan_lists_actions_and_completion() {
    let wf = workflow();
    let t = find_transition(&wf, "start", "submit").unwrap();
    let plan = plan_transition(&wf, t).unwrap();
    assert!(matches!(plan.exit_action, Some(Action::Script { code, .. }) if code == "leave start"));
    assert!(plan.transition_action.is_none());
    assert!(matches!(plan.enter_action, Some(Action::Script { code, .. }) if code == "enter review"));
    assert!(!plan.completes);

    let t = find_transition(&wf, "review", "approve").unwrap();
    let plan = plan_transition(&wf, t).unwrap();
    assert!(plan.completes);

    let bad = transition("start", "ghost", "x");
    match plan_transition(&wf, &bad) {
        Err(EngineError::ValidationError(m)) => assert_eq!(m, "State not found: ghost"),
        _ => panic!("expected a missing state"),
    }
}

#[test]
fn applying_a_transition_moves_and_completes() {
    let mut inst = instance(InstanceStatus::Running);
    apply_transition(&mut inst, &transition("start", "done", "finish"), true, None);
    assert_eq!(inst.current_state, "done");
    assert_eq!(inst.status, InstanceStatus::Completed);
    let mut inst = instance(InstanceStatus::Running);
    apply_transition(&mut inst, &transition("start", "review", "submit"), false, None);
    assert_eq!(inst.current_state, "review");
    assert_eq!(inst.status, InstanceStatus::Running);
}

#[test]
fn transition_event_data_is_merged_into_the_context() {
    let mut inst = instance(InstanceStatus::Running);
    inst.context = "{\"a\":1,\"b\":\"x\"}".to_string();
    apply_transition(&mut inst, &transition("start", "review", "submit"), false, Some("{\"b\":\"y\",\"c\":true}"));
    assert_eq!(inst.context, "{\"a\":1,\"b\":\"y\",\"c\":true}");
    let before = inst.context.clone();
    apply_transition(&mut inst, &transition("review", "done", "finish"), true, Some("[1, 2]"));
    assert_eq!(inst.context, before);
    let mut inst = instance(InstanceStatus::Running);
    inst.context = "[]".to_string();
    apply_transition(&mut inst, &transition("start", "review", "submit"), false, Some("{\"b\":1}"));
    assert_eq!(inst.context, "[]");
}

#[test]
fn pause_resume_cancel() {
    let mut inst = instance(InstanceStatus::Running);
    pause(&mut inst).unwrap();
    assert_eq!(inst.status, InstanceStatus::Paused);
    let e = pause(&mut inst).unwrap_err();
    assert_eq!(message(&e), "Validation error: Can only pause running instances");
    resume(&mut inst).unwrap();
    assert_eq!(inst.status, InstanceStatus::Running);
    let e = resume(&mut inst).unwrap_err();
    assert_eq!(message(&e), "Validation error: Can only resume paused instances");
    cancel(&mut inst);
    assert_eq!(inst.status, InstanceStatus::Cancelled);
}

#[test]
fn delayed_tasks_are_scheduled_later() {
    assert_eq!(scheduled_at(&Action::Delay { seconds: 5 }, 1_000), 6_000);
    assert_eq!(scheduled_at(&script("x"), 1_000), 1_000);
    let t = new_task("t1".to_string(), "i1".to_string(), "wf".to_string(), Action::Delay { seconds: 2 }, "k".to_string(), 10);
    assert_eq!(t.scheduled_at, 2_010);
    assert_eq!(t.status, TaskStatus::Pending);
    assert_eq!(t.retry_count, 0);
    assert_eq!(t.max_retries, 3);
    assert_eq!(t.priority, 0);
    assert!(t.lease.is_none());
}

fn task() -> Task {
    new_task("t1".to_string(), "i1".to_string(), "wf".to_string(), script("x"), "k".to_string(), 0)
}

#[test]
fn failing_tasks_are_retried_then_dead_lettered() {
    let mut t = task();
    settle_task(&mut t, false);
    assert_eq!((t.retry_count, t.status), (1, TaskStatus::Pending));
    settle_task(&mut t, false);
    assert_eq!((t.retry_count, t.status), (2, TaskStatus::Pending));
    settle_task(&mut t, false);
    assert_eq!((t.retry_count, t.status), (3, TaskStatus::DeadLetter));
    let mut t = task();
    settle_task(&mut t, true);
    assert_eq!((t.retry_count, t.status), (0, TaskStatus::Completed));
    assert_eq!(task_event_type(true), EventType::TaskCompleted);
    assert_eq!(task_event_type(false), EventType::TaskFailed);
}

#[test]
fn run_results_carry_output_or_error() {
    let t = task();
    let ok = run_result(&t, Ok("42".to_string()), 7);
    assert!(ok.success);
    assert_eq!(ok.output, Some("42".to_string()));
    assert_eq!(ok.duration_ms, 7);
    let failed = run_result(&t, Err(EngineError::ScriptError("boom".to_string())), 3);
    assert!(!failed.success);
    assert_eq!(failed.error, Some("Script execution error: boom".to_string()));
}

#[test]
fn claims_skip_unready_leased_and_finished_tasks() {
    let now = 1_000;
    let mut later = task();
    later.scheduled_at = 2_000;
    let mut leased = task();
    leased.status = TaskStatus::Claimed;
    leased.lease = Some(TaskLease { worker_id: "w".to_string(), claimed_at: 0, expires_at: 5_000, heartbeat_at: 0 });
    let mut expired = task();
    expired.status = TaskStatus::Running;
    expired.lease = Some(TaskLease { worker_id: "w".to_string(), claimed_at: 0, expires_at: 500, heartbeat_at: 0 });
    let mut done = task();
    done.status = TaskStatus::Completed;
    assert!(!is_claimable(&later, now));
    assert!(!is_claimable(&leased, now));
    assert!(is_claimable(&expired, now));
    assert!(!is_claimable(&done, now));

    let tasks = vec![None, Some(later), Some(leased), Some(done), Some(expired)];
    assert_eq!(choose_claim(&tasks, now), Some(4));
    let mut t = tasks[4].clone().unwrap();
    claim(&mut t, "worker-1", now);
    assert_eq!(t.status, TaskStatus::Claimed);
    let lease = t.lease.unwrap();
    assert_eq!(lease.worker_id, "worker-1");
    assert_eq!(lease.expires_at, 31_000);
    assert_eq!(choose_claim(&vec![None], now), None);
}

#[test]
fn locks_are_exclusive_until_they_expire() {
    assert_eq!(lock_decision(&None, "a", 100, 50), Some(150));
    let held = Some(("a".to_string(), 200));
    assert_eq!(lock_decision(&held, "a", 100, 50), Some(150));
    assert_eq!(lock_decision(&held, "b", 100, 50), None);
    assert_eq!(lock_decision(&held, "b", 300, 50), Some(350));
    assert!(unlock_decision(&Some("a".to_string()), "a"));
    assert!(!unlock_decision(&Some("a".to_string()), "b"));
    assert!(!unlock_decision(&None, "a"));
}

#[test]
fn kv_store_reads_what_was_written() {
    let mut kv = KvStore::new();
    assert_eq!(kv.size(), 0);
    assert_eq!(kv.get("a"), None);
    kv.set("a".to_string(), vec![1, 2]);
    kv.set("b".to_string(), vec![3]);
    kv.set("a".to_string(), vec![9]);
    assert_eq!(kv.get("a"), Some(vec![9]));
    assert_eq!(kv.get("b"), Some(vec![3]));
    assert_eq!(kv.size(), 2);
}

#[test]
fn storage_keys_join_parts() {
    let k = storage_key(&vec![b"tasks".to_vec(), b"t1".to_vec()]);
    assert_eq!(k, b"/degov/workflow/tasks/t1".to_vec());
    assert_eq!(storage_key(&vec![]), b"/degov/workflow/".to_vec());
    assert_eq!(range_end(&b"ab".to_vec()), b"ac".to_vec());
    assert_eq!(range_end(&vec![1, 255]), vec![1, 0]);
    assert_eq!(range_end(&vec![]), Vec::<u8>::new());
}

#[test]
fn worker_loops_follow_events() {
    assert_eq!(poll_loop_step(false, 0, WorkerEvent::Tick), (false, WorkerAction::Poll));
    assert_eq!(poll_loop_step(true, 3, WorkerEvent::Tick), (true, WorkerAction::Stop));
    assert_eq!(poll_loop_step(false, 2, WorkerEvent::Shutdown), (true, WorkerAction::Continue));
    assert_eq!(poll_loop_step(false, 0, WorkerEvent::Shutdown), (true, WorkerAction::Stop));
    assert!(poll_loop_done(true, 0));
    assert!(!poll_loop_done(true, 1));
    assert_eq!(heartbeat_step(WorkerEvent::Tick), WorkerAction::Heartbeat);
    assert_eq!(heartbeat_step(WorkerEvent::Shutdown), WorkerAction::Stop);
    assert_eq!(processing_step(false, WorkerEvent::Tick), WorkerAction::Fetch(5));
    assert_eq!(processing_step(true, WorkerEvent::Tick), WorkerAction::Stop);
    let s = WorkerSettings::new().with_poll_interval(250).with_heartbeat_interval(5_000).with_max_concurrent_tasks(2);
    assert_eq!((s.heartbeat_interval_ms, s.poll_interval_ms, s.max_concurrent_tasks), (5_000, 250, 2));
}

#[test]
fn worker_stats_follow_tasks() {
    let mut stats = WorkerStats::default();
    task_started(&mut stats);
    assert_eq!(stats.active_tasks, 1);
    task_finished(&mut stats, true);
    task_started(&mut stats);
    task_finished(&mut stats, false);
    task_finished(&mut stats, false);
    assert_eq!((stats.active_tasks, stats.total_tasks_completed, stats.total_tasks_failed), (0, 1, 2));
}

#[test]
fn runtimes_by_name() {
    assert_eq!(runtime_for("javascript"), Ok(RuntimeType::JavaScript));
    assert_eq!(runtime_for("wasm"), Ok(RuntimeType::Wasm));
    assert_eq!(runtime_for("python"), Err("Unknown runtime type: python".to_string()));
    assert_eq!(RuntimeType::JavaScript.as_str(), "javascript");
    assert_eq!(RuntimeType::Wasm.as_str(), "wasm");
}

#[test]
fn worker_ids() {
    let w = WorkerId::from_string("w-1".to_string());
    assert_eq!(w.as_str(), "w-1");
    assert_eq!(w.to_text(), "w-1");
    let fresh = WorkerId::new();
    assert_eq!(fresh.as_str().len(), 36);
    assert!(uuid::Uuid::parse_str(fresh.as_str()).is_ok());
}
