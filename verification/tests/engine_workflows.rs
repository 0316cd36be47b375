//! Step-based workflow executions and transition conditions.

use degov::engine::decide::{condition_met, condition_script, initial_enter_action, instance_id_or_fresh, new_instance};
use degov::engine::json::merge_json;
use degov::engine::model::{Action, InstanceStatus, ScriptResult, StateDefinition, WorkflowDefinition};
use degov::engine::workflow::{ExecutionState, Workflow, WorkflowExecution};

#[test]
fn new_workflow_is_empty() {
    let wf = Workflow::new("wf-1".to_string(), "Registration".to_string());
    assert_eq!(wf.id, "wf-1");
    assert_eq!(wf.name, "Registration");
    assert!(wf.inputs.is_empty());
    assert!(wf.outputs.is_empty());
    assert!(wf.steps.is_empty());
}

#[test]
fn new_execution_is_pending() {
    let ex = WorkflowExecution::new("wf-1".to_string(), "ex-1".to_string());
    assert_eq!(ex.state, ExecutionState::Pending);
    assert_eq!(ex.current_step, 0);
    assert!(ex.variables.is_empty());
    assert_eq!(ex.get_variable("x"), None);
}

#[test]
fn variable_read_after_write_on_values() {
    let mut ex = WorkflowExecution::new("wf-1".to_string(), "ex-1".to_string());
    ex.set_variable("count".to_string(), "1".to_string());
    ex.set_variable("name".to_string(), "\"Ada\"".to_string());
    assert_eq!(ex.get_variable("count").map(|s| s.as_str()), Some("1"));
    ex.set_variable("count".to_string(), "2".to_string());
    assert_eq!(ex.get_variable("count").map(|s| s.as_str()), Some("2"));
    assert_eq!(ex.get_variable("name").map(|s| s.as_str()), Some("\"Ada\""));
    assert_eq!(ex.variables.len(), 2);
    assert_eq!(ex.get_variable("missing"), None);
}

#[test]
fn condition_script_wraps_the_expression() {
    assert_eq!(
        condition_script("context.amount > 10"),
        "export default function(context) { return (context.amount > 10); }"
    );
}

#[test]
fn condition_met_only_on_true_output() {
    let ok = |out: Option<&str>| ScriptResult { success: true, output: out.map(|s| s.to_string()), error: None };
    assert!(condition_met(&ok(Some("true"))));
    assert!(!condition_met(&ok(Some("false"))));
    assert!(!condition_met(&ok(Some("1"))));
    assert!(!condition_met(&ok(None)));
    let failed = ScriptResult { success: false, output: Some("true".to_string()), error: Some("boom".to_string()) };
    assert!(!condition_met(&failed));
}

#[test]
fn json_merge_sets_data_members_and_keeps_the_rest() {
    assert_eq!(merge_json("{\"a\":1,\"b\":2}", "{\"b\":3,\"c\":[1]}"), "{\"a\":1,\"b\":3,\"c\":[1]}");
    assert_eq!(merge_json("{\"a\":{\"x\":true}}", "{}"), "{\"a\":{\"x\":true}}");
    assert_eq!(merge_json("not json", "{\"b\":3}"), "not json");
    assert_eq!(merge_json("{\"a\":1}", "5"), "{\"a\":1}");
}

#[test]
fn new_instances_start_running_in_the_initial_state() {
    let wf = WorkflowDefinition {
        id: "wf".to_string(),
        name: "Registration".to_string(),
        version: 3,
        initial_state: "start".to_string(),
        states: vec![(
            "start".to_string(),
            StateDefinition {
                name: "start".to_string(),
                is_terminal: false,
                on_enter: Some(Action::Delay { seconds: 5 }),
                on_exit: None,
                timeout_seconds: None,
            },
        )],
        transitions: vec![],
        created_at: 0,
    };
    let id = instance_id_or_fresh(None);
    assert!(id.starts_with("inst-"));
    assert_eq!(id.len(), 5 + 36);
    assert_eq!(instance_id_or_fresh(Some("mine".to_string())), "mine");
    let inst = new_instance(&wf, "wf", "i1".to_string(), "{}".to_string(), 42);
    assert_eq!(inst.current_state, "start");
    assert_eq!(inst.workflow_version, 3);
    assert_eq!(inst.status, InstanceStatus::Running);
    assert_eq!(inst.created_at, 42);
    assert_eq!(inst.updated_at, 42);
    assert!(matches!(initial_enter_action(&wf), Some(Action::Delay { seconds: 5 })));
}
