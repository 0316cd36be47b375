//! Workflow definitions: state types, timeouts, UI hints, validations,
//! approvals and escalations.

use vstd::prelude::*;
use crate::dsl::metadata::ApiVersion;
use crate::dsl::model::Metadata;

verus! {

#[derive(Debug, Clone, PartialEq, Eq)]
pub enum StateType {
    UserInput,
    Automated,
    Operational,
    Restricted,
    Terminal,
}

/// Timeout configuration
#[derive(Debug, Clone)]
pub struct Timeout {
    /// ISO 8601 duration
    pub duration: String,
    /// Action to perform on timeout
    pub action: String,
}

/// UI configuration for a state
#[derive(Debug, Clone)]
pub struct StateUi {
    pub form_sections: Vec<String>,
    pub show_comments: bool,
    pub allow_edits: bool,
    pub display_warning: Option<String>,
}

/// State validations
#[derive(Debug, Clone)]
pub struct StateValidations {
    pub on_submit: Vec<String>,
}

/// Periodic check configuration
#[derive(Debug, Clone)]
pub struct PeriodicCheck {
    /// ISO 8601 duration
    pub interval: String,
    pub action: String,
}

/// State retention configuration
#[derive(Debug, Clone)]
pub struct StateRetention {
    pub archive_after: String,
}

/// Transition validation
#[derive(Debug, Clone)]
pub struct TransitionValidation {
    pub name: String,
    pub script: Option<String>,
}

/// Approval requirement
#[derive(Debug, Clone)]
pub struct ApprovalRequirement {
    pub from: String,
    pub min_count: u32,
}

/// UI configuration for a transition
#[derive(Debug, Clone)]
pub struct TransitionUi {
    pub comment_prompt: Option<String>,
    pub confirmation_message: Option<String>,
}

/// Escalation rule
#[derive(Debug, Clone)]
pub struct Escalation {
    pub name: String,
    pub condition: String,
    pub action: String,
}

/// Action to perform
#[derive(Debug, Clone)]
pub struct Action {
    pub action: String,
    /// Parameters, as YAML text
    pub params: Option<String>,
    pub script: Option<String>,
    pub credential: Option<String>,
}

/// State definition
#[derive(Debug, Clone)]
pub struct State {
    pub title: String,
    pub description: Option<String>,
    pub state_type: StateType,
    /// Actions allowed in this state
    pub allowed_actions: Vec<String>,
    /// Actions to perform when entering this state
    pub on_enter: Vec<Action>,
    /// Actions to perform when exiting this state
    pub on_exit: Vec<Action>,
    /// Timeout configuration
    pub timeout: Option<Timeout>,
    /// UI configuration
    pub ui: Option<StateUi>,
    /// Validations to run in this state
    pub validations: Option<StateValidations>,
    /// Whether this is a terminal state (no transitions out)
    pub terminal: bool,
    /// Periodic checks to perform while in this state
    pub periodic_checks: Vec<PeriodicCheck>,
    /// Retention settings for terminal states
    pub retention: Option<StateRetention>,
}

/// Transition definition
#[derive(Debug, Clone)]
pub struct Transition {
    /// Source state(s)
    pub from: Vec<String>,
    /// Target state
    pub to: String,
    pub title: String,
    pub description: Option<String>,
    /// Required permissions (role names)
    pub permissions: Vec<String>,
    /// Validation functions
    pub validations: Vec<TransitionValidation>,
    /// Side effects to perform
    pub side_effects: Vec<String>,
    /// Whether a comment is required
    pub requires_comment: bool,
    /// Whether a signature is required
    pub requires_signature: bool,
    /// Approval requirements
    pub requires_approval: Option<ApprovalRequirement>,
    /// Reason requirements
    pub requires_reason: Vec<String>,
    /// Whether confirmation is required
    pub confirmation_required: bool,
    /// UI configuration
    pub ui: Option<TransitionUi>,
}

/// Webhook configuration
#[derive(Debug, Clone)]
pub struct Webhook {
    pub event: String,
    pub url: String,
    pub method: String,
    /// Headers, by name
    pub headers: Vec<(String, String)>,
    /// Payload, as YAML text
    pub payload: Option<String>,
}

/// Specification for a workflow
#[derive(Debug, Clone)]
pub struct WorkflowSpec {
    /// The data model this workflow operates on (NSID)
    pub model: String,
    /// Initial state when workflow starts
    pub initial_state: String,
    /// State definitions, by name
    pub states: Vec<(String, State)>,
    /// Transition definitions, by name
    pub transitions: Vec<(String, Transition)>,
    /// Escalation rules
    pub escalations: Vec<Escalation>,
    /// Webhooks for external integrations
    pub webhooks: Vec<Webhook>,
}

/// Workflow definition
#[derive(Debug, Clone)]
pub struct Workflow {
    pub api_version: ApiVersion,
    /// Always "Workflow"
    pub kind: String,
    pub metadata: Metadata,
    pub spec: WorkflowSpec,
}

}
