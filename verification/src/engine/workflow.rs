//! Step-based workflows: the kinds of steps and the states of an execution.

use vstd::prelude::*;
use crate::dsl::schema::{find_key, insert_key, insert_pair, lemma_find_key_from, lookup_key};
use crate::dsl::graph::lemma_insert_key_lookup;

verus! {

/// Type of step execution
#[derive(Debug, Clone)]
pub enum StepType {
    /// Execute a script (JavaScript/TypeScript)
    Script { code: String },
    /// Set variables (the `set` step)
    Assign,
    /// Log output
    Log,
}

/// State of workflow execution
#[derive(Debug, Clone, Copy, PartialEq, Eq, Structural)]
pub enum ExecutionState {
    Pending,
    Running,
    Completed,
    Failed,
    Cancelled,
}

/// A workflow consists of a series of steps to execute; input and output
/// values are JSON text, by name.
#[derive(Debug, Clone)]
pub struct Workflow {
    pub id: String,
    pub name: String,
    pub inputs: Vec<(String, String)>,
    pub outputs: Vec<(String, String)>,
    pub steps: Vec<Step>,
}

/// A step in the workflow; parameter values are JSON text, by name.
#[derive(Debug, Clone)]
pub struct Step {
    pub id: String,
    pub name: String,
    pub step_type: StepType,
    pub params: Vec<(String, String)>,
}

/// Runtime state of a workflow execution; variable values are JSON text, by name.
#[derive(Debug, Clone)]
pub struct WorkflowExecution {
    pub workflow_id: String,
    pub execution_id: String,
    pub state: ExecutionState,
    pub variables: Vec<(String, String)>,
    pub current_step: usize,
}

/// Result of a step execution; the output is JSON text.
#[derive(Debug, Clone)]
pub struct StepResult {
    pub step_id: String,
    pub success: bool,
    pub output: Option<String>,
    pub error: Option<String>,
}

impl Workflow {
    /// A workflow with no inputs, outputs or steps.
    pub fn new(id: String, name: String) -> (r: Self)
        ensures
            r.id == id,
            r.name == name,
            r.inputs@.len() == 0,
            r.outputs@.len() == 0,
            r.steps@.len() == 0,
    {
        Workflow { id, name, inputs: Vec::new(), outputs: Vec::new(), steps: Vec::new() }
    }
}

impl WorkflowExecution {
    /// A pending execution at its first step, with no variables.
    pub fn new(workflow_id: String, execution_id: String) -> (r: Self)
        ensures
            r.workflow_id == workflow_id,
            r.execution_id == execution_id,
            r.state == ExecutionState::Pending,
            r.variables@.len() == 0,
            r.current_step == 0,
    {
        WorkflowExecution {
            workflow_id,
            execution_id,
            state: ExecutionState::Pending,
            variables: Vec::new(),
            current_step: 0,
        }
    }

    /// Set a variable, replacing the value it had.
    pub fn set_variable(&mut self, key: String, value: String)
        ensures
            final(self).variables@ == insert_key(old(self).variables@, key, value),
            final(self).workflow_id == old(self).workflow_id,
            final(self).execution_id == old(self).execution_id,
            final(self).state == old(self).state,
            final(self).current_step == old(self).current_step,
    {
        insert_pair(&mut self.variables, key, value);
    }

    /// The value of a variable, if it was set.
    pub fn get_variable(&self, key: &str) -> (r: Option<&String>)
        ensures
            match r {
                Some(v) => lookup_key(self.variables@, key@) == Some(*v),
                None => lookup_key(self.variables@, key@) is None,
            },
    {
        proof {
            lemma_find_key_from(self.variables@, key@, 0);
        }
        match find_key(&self.variables, key) {
            Some(k) => Some(&self.variables[k].1),
            None => None,
        }
    }
}

/// Reading a variable gives what the last write of it set, and a write leaves
/// every other variable as it was.
pub proof fn variable_read_after_write(vars: Seq<(String, String)>, key: String, value: String, other: Seq<char>)
    ensures
        lookup_key(insert_key(vars, key, value), key@) == Some(value),
        other != key@ ==> lookup_key(insert_key(vars, key, value), other) == lookup_key(vars, other),
{
    lemma_insert_key_lookup(vars, key, value, key@);
    lemma_insert_key_lookup(vars, key, value, other);
}

}
