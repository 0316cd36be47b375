//! The ordered steps of creating instances, triggering events and performing
//! transitions, and the keys of tasks in storage.

use degov::engine::decide::{
    begin_trigger, conclude_trigger, perform_transition, start_instance, transition_step, CreationStep,
    TransitionEffect, TriggerStep,
};
use degov::engine::model::{
    Action, EngineError, InstanceState, InstanceStatus, ScriptResult, StateDefinition, Task, TaskStatus,
    Transition, WorkflowDefinition,
};
use degov::engine::store::{task_by_id_key, task_queue_key};

fn state(name: &str, terminal: bool, on_enter: Option<Action>, on_exit: Option<Action>) -> (String, StateDefinition) {
    (
        name.to_string(),
        StateDefinition { name: name.to_string(), is_terminal: terminal, on_enter, on_exit, timeout_seconds: None },
    )
}

fn transition(from: &str, to: &str, event: &str) -> Transition {
    Transition {
        from: from.to_string(),
        to: to.to_string(),
        event: event.to_string(),
        condition: None,
        action: None,
        compensation: None,
    }
}

fn script(code: &str) -> Action {
    Action::Script { code: code.to_string(), language: "javascript".to_string() }
}

fn code_of(a: &Action) -> String {
    match a {
        Action::Script { code, .. } => code.clone(),
        _ => panic!("expected a script action"),
    }
}

fn workflow() -> WorkflowDefinition {
    let mut guarded = transition("review", "done", "approve");
    guarded.condition = Some("context.ok".to_string());
    let mut submit = transition("start", "review", "submit");
    submit.action = Some(script("notify"));
    WorkflowDefinition {
        id: "wf".to_string(),
        name: "Permit".to_string(),
        version: 3,
        initial_state: "start".to_string(),
        states: vec![
            state("start", false, Some(script("enter start")), Some(script("leave start"))),
            state("review", false, Some(script("enter review")), None),
            state("done", true, None, None),
        ],
        transitions: vec![submit, guarded, transition("review", "ghost", "lose")],
        created_at: 0,
    }
}

fn instance(status: InstanceStatus, current: &str) -> InstanceState {
    InstanceState {
        instance_id: "i1".to_string(),
        workflow_id: "wf".to_string(),
        workflow_version: 3,
        current_state: current.to_string(),
        context: "{\"a\":1}".to_string(),
        status,
        created_at: 5,
        updated_at: 6,
        versionstamp: Vec::new(),
    }
}

fn same_instance(a: &InstanceState, b: &InstanceState) -> bool {
    a.instance_id == b.instance_id
        && a.workflow_id == b.workflow_id
        && a.workflow_version == b.workflow_version
        && a.current_state == b.current_state
        && a.context == b.context
        && a.status == b.status
        && a.created_at == b.created_at
        && a.updated_at == b.updated_at
        && a.versionstamp == b.versionstamp
}

fn describe(steps: &[TransitionEffect]) -> Vec<String> {
    steps
        .iter()
        .map(|s| match s {
            TransitionEffect::CreateTask(a) => format!("task {}", code_of(a)),
            TransitionEffect::StoreInstance => "store".to_string(),
            TransitionEffect::LogTransition => "log".to_string(),
        })
        .collect()
}

fn result(success: bool, output: Option<&str>) -> ScriptResult {
    ScriptResult { success, output: output.map(|o| o.to_string()), error: None }
}

#[test]
fn creating_an_instance_stores_logs_then_enters() {
    let wf = workflow();
    let (inst, steps) = start_instance(&wf, "wf", Some("mine".to_string()), "{}".to_string(), 42);
    assert_eq!(inst.instance_id, "mine");
    assert_eq!(inst.current_state, "start");
    assert_eq!(inst.workflow_version, 3);
    assert_eq!(inst.status, InstanceStatus::Running);
    assert_eq!((inst.created_at, inst.updated_at), (42, 42));
    assert_eq!(steps.len(), 3);
    assert!(matches!(steps[0], CreationStep::StoreInstance));
    assert!(matches!(steps[1], CreationStep::LogCreation));
    match &steps[2] {
        CreationStep::CreateTask(a) => assert_eq!(code_of(a), "enter start"),
        _ => panic!("expected the enter task last"),
    }
    let mut wf = workflow();
    wf.initial_state = "done".to_string();
    let (inst, steps) = start_instance(&wf, "wf", None, "{}".to_string(), 1);
    assert!(inst.instance_id.starts_with("inst-"));
    assert_eq!(inst.instance_id.len(), 5 + 36);
    assert_eq!(steps.len(), 2);
}

#[test]
fn a_transition_runs_exit_and_own_action_before_the_state_and_enter_after() {
    let wf = workflow();
    let mut inst = instance(InstanceStatus::Running, "start");
    let steps = perform_transition(&mut inst, &wf, &wf.transitions[0], Some("{\"b\":2}")).unwrap();
    assert_eq!(describe(&steps), vec!["task leave start", "task notify", "store", "log", "task enter review"]);
    assert_eq!(inst.current_state, "review");
    assert_eq!(inst.context, "{\"a\":1,\"b\":2}");
    assert_eq!(inst.status, InstanceStatus::Running);
}

#[test]
fn a_transition_into_a_terminal_state_completes_without_tasks() {
    let wf = workflow();
    let mut inst = instance(InstanceStatus::Running, "review");
    let steps = perform_transition(&mut inst, &wf, &wf.transitions[1], None).unwrap();
    assert_eq!(describe(&steps), vec!["store", "log"]);
    assert_eq!(inst.status, InstanceStatus::Completed);
    assert_eq!(inst.context, "{\"a\":1}");
}

#[test]
fn a_transition_to_a_missing_state_changes_nothing() {
    let wf = workflow();
    let mut inst = instance(InstanceStatus::Running, "review");
    let before = inst.clone();
    match perform_transition(&mut inst, &wf, &wf.transitions[2], Some("{\"b\":2}")) {
        Err(EngineError::ValidationError(m)) => assert_eq!(m, "State not found: ghost"),
        _ => panic!("expected a missing state"),
    }
    assert!(same_instance(&inst, &before));
}

#[test]
fn triggering_checks_running_before_the_transition() {
    let wf = workflow();
    let inst = instance(InstanceStatus::Paused, "start");
    match begin_trigger(&inst, &wf, "nothing") {
        Err(EngineError::ValidationError(m)) => assert_eq!(m, "Instance is not running: Paused"),
        _ => panic!("expected the running check first"),
    }
    let inst = instance(InstanceStatus::Running, "start");
    match begin_trigger(&inst, &wf, "approve") {
        Err(EngineError::InvalidTransition { from, to }) => {
            assert_eq!(from, "start");
            assert_eq!(to, "approve");
        }
        _ => panic!("expected an invalid transition"),
    }
    match begin_trigger(&inst, &wf, "submit") {
        Ok(TriggerStep::Perform(t)) => assert_eq!(t.to, "review"),
        _ => panic!("expected the transition to be performed"),
    }
    let inst = instance(InstanceStatus::Running, "review");
    match begin_trigger(&inst, &wf, "approve") {
        Ok(TriggerStep::EvaluateCondition { transition, script }) => {
            assert_eq!(transition.to, "done");
            assert_eq!(script, "export default function(context) { return (context.ok); }");
        }
        _ => panic!("expected the condition to be evaluated"),
    }
}

#[test]
fn a_false_condition_leaves_the_instance_unchanged() {
    let wf = workflow();
    for r in [result(true, Some("false")), result(false, Some("true")), result(true, None), result(true, Some("1"))] {
        let mut inst = instance(InstanceStatus::Running, "review");
        let before = inst.clone();
        let steps = conclude_trigger(&mut inst, &wf, &wf.transitions[1], &r, Some("{\"z\":0}")).unwrap();
        assert!(steps.is_empty());
        assert!(same_instance(&inst, &before));
    }
    let mut inst = instance(InstanceStatus::Running, "review");
    let steps = conclude_trigger(&mut inst, &wf, &wf.transitions[1], &result(true, Some("true")), None).unwrap();
    assert_eq!(describe(&steps), vec!["store", "log"]);
    assert_eq!(inst.current_state, "done");
    assert_eq!(inst.status, InstanceStatus::Completed);
}

#[test]
fn executing_a_transition_records_the_context_under_the_source_state() {
    let data = vec![("start.a".to_string(), "0".to_string()), ("other".to_string(), "\"x\"".to_string())];
    let context = vec![("a".to_string(), "1".to_string()), ("b".to_string(), "true".to_string())];
    let (to, d) = transition_step(InstanceStatus::Running, "start", "review", &data, &context).unwrap();
    assert_eq!(to, "review");
    assert_eq!(
        d,
        vec![
            ("start.a".to_string(), "1".to_string()),
            ("other".to_string(), "\"x\"".to_string()),
            ("start.b".to_string(), "true".to_string()),
        ]
    );
    match transition_step(InstanceStatus::Completed, "start", "review", &data, &context) {
        Err(EngineError::ValidationError(m)) => {
            assert_eq!(m, "Cannot execute transition on workflow in state: Completed")
        }
        _ => panic!("expected a refusal"),
    }
}

fn task(priority: i32, scheduled_at: i64, id: &str) -> Task {
    Task {
        task_id: id.to_string(),
        instance_id: "i1".to_string(),
        workflow_id: "wf".to_string(),
        action: script("x"),
        idempotency_key: "k".to_string(),
        priority,
        created_at: 0,
        scheduled_at,
        status: TaskStatus::Pending,
        retry_count: 0,
        max_retries: 3,
        lease: None,
    }
}

#[test]
fn task_keys_lay_out_priority_time_and_id() {
    let mut expected = b"/degov/workflow/tasks/".to_vec();
    expected.extend_from_slice(&(-5i32).to_be_bytes());
    expected.push(b'/');
    expected.extend_from_slice(&7i64.to_be_bytes());
    expected.extend_from_slice(b"/t-1");
    assert_eq!(task_queue_key(&task(5, 7, "t-1")), expected);
    assert_eq!(task_by_id_key("t-1"), b"/degov/workflow/task_by_id/t-1".to_vec());
}

#[test]
fn queue_keys_put_higher_priority_and_earlier_time_first() {
    assert!(task_queue_key(&task(9, 100, "b")) < task_queue_key(&task(2, 1, "a")));
    assert!(task_queue_key(&task(0, 100, "b")) < task_queue_key(&task(-3, 1, "a")));
    assert!(task_queue_key(&task(4, 1, "z")) < task_queue_key(&task(4, 2, "a")));
}
