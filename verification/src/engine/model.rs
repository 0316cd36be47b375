//! The engine's state-machine model: workflow definitions, instances, tasks,
//! workers and the events of the audit log.

use vstd::prelude::*;

verus! {

/// Action to execute during state transition
#[derive(Debug, Clone)]
pub enum Action {
    Script {
        code: String,
        /// "javascript" or "typescript"
        language: String,
    },
    Task {
        task_type: String,
        /// The payload, as JSON text.
        payload: String,
    },
    Http {
        url: String,
        method: String,
        headers: Vec<(String, String)>,
        /// The body, as JSON text.
        body: Option<String>,
    },
    Delay {
        seconds: u64,
    },
}

/// Definition of a state in the workflow
#[derive(Debug, Clone)]
pub struct StateDefinition {
    pub name: String,
    pub is_terminal: bool,
    pub on_enter: Option<Action>,
    pub on_exit: Option<Action>,
    pub timeout_seconds: Option<u64>,
}

/// Transition between states
#[derive(Debug, Clone)]
pub struct Transition {
    pub from: String,
    pub to: String,
    pub event: String,
    /// JavaScript expression
    pub condition: Option<String>,
    pub action: Option<Action>,
    /// For rollback
    pub compensation: Option<Action>,
}

/// Workflow definition with states and transitions
#[derive(Debug, Clone)]
pub struct WorkflowDefinition {
    pub id: String,
    pub name: String,
    pub version: u32,
    pub initial_state: String,
    /// The states by name, at most one per name.
    pub states: Vec<(String, StateDefinition)>,
    pub transitions: Vec<Transition>,
    pub created_at: i64,
}

/// Status of a workflow instance
#[derive(Debug, Clone, Copy, PartialEq, Eq, Structural)]
pub enum InstanceStatus {
    Running,
    Paused,
    Completed,
    Failed,
    Cancelled,
}

impl InstanceStatus {
    /// The status as `{:?}` writes it.
    pub open spec fn debug_text(self) -> Seq<char> {
        match self {
            InstanceStatus::Running => "Running"@,
            InstanceStatus::Paused => "Paused"@,
            InstanceStatus::Completed => "Completed"@,
            InstanceStatus::Failed => "Failed"@,
            InstanceStatus::Cancelled => "Cancelled"@,
        }
    }

    /// The status as `{:?}` writes it.
    pub fn debug_string(&self) -> (r: String)
        ensures
            r@ == self.debug_text(),
    {
        match self {
            InstanceStatus::Running => String::from_str("Running"),
            InstanceStatus::Paused => String::from_str("Paused"),
            InstanceStatus::Completed => String::from_str("Completed"),
            InstanceStatus::Failed => String::from_str("Failed"),
            InstanceStatus::Cancelled => String::from_str("Cancelled"),
        }
    }
}

/// Current state of a workflow instance
#[derive(Debug, Clone)]
pub struct InstanceState {
    pub instance_id: String,
    pub workflow_id: String,
    pub workflow_version: u32,
    pub current_state: String,
    /// The instance's context, as JSON text.
    pub context: String,
    pub status: InstanceStatus,
    pub created_at: i64,
    pub updated_at: i64,
    /// For optimistic locking
    pub versionstamp: Vec<u8>,
}

/// Task execution status
#[derive(Debug, Clone, Copy, PartialEq, Eq, Structural)]
pub enum TaskStatus {
    Pending,
    Claimed,
    Running,
    Completed,
    Failed,
    DeadLetter,
}

/// Lease information for task execution
#[derive(Debug, Clone)]
pub struct TaskLease {
    pub worker_id: String,
    pub claimed_at: i64,
    pub expires_at: i64,
    pub heartbeat_at: i64,
}

/// A task to be executed
#[derive(Debug, Clone)]
pub struct Task {
    pub task_id: String,
    pub instance_id: String,
    pub workflow_id: String,
    pub action: Action,
    pub idempotency_key: String,
    pub priority: i32,
    pub created_at: i64,
    /// For delayed tasks
    pub scheduled_at: i64,
    pub status: TaskStatus,
    pub retry_count: u32,
    pub max_retries: u32,
    pub lease: Option<TaskLease>,
}

/// Worker status
#[derive(Debug, Clone, Copy, PartialEq, Eq, Structural)]
pub enum WorkerStatus {
    Active,
    Idle,
    Stopping,
    Stopped,
}

/// Worker registration information
#[derive(Debug, Clone)]
pub struct Worker {
    pub worker_id: String,
    pub hostname: String,
    pub process_id: u32,
    pub capabilities: Vec<String>,
    pub registered_at: i64,
    pub heartbeat_at: i64,
    pub status: WorkerStatus,
}

/// Types of events that can occur
#[derive(Debug, Clone, Copy, PartialEq, Eq, Structural)]
pub enum EventType {
    InstanceCreated,
    StateTransition,
    TaskCreated,
    TaskClaimed,
    TaskCompleted,
    TaskFailed,
    ActionExecuted,
    InstancePaused,
    InstanceResumed,
    InstanceCancelled,
    InstanceCompleted,
    CompensationStarted,
    CompensationCompleted,
}

/// Result of script execution; the output is JSON text.
#[derive(Debug, Clone)]
pub struct ScriptResult {
    pub success: bool,
    pub output: Option<String>,
    pub error: Option<String>,
}

/// Event log entry; the data is JSON text.
#[derive(Debug, Clone)]
pub struct EventLog {
    pub event_id: String,
    pub instance_id: String,
    pub event_type: EventType,
    pub timestamp: i64,
    pub data: String,
}

/// Result of task execution
#[derive(Debug, Clone)]
pub struct TaskResult {
    pub task_id: String,
    pub success: bool,
    /// The output, as JSON text.
    pub output: Option<String>,
    pub error: Option<String>,
    pub duration_ms: u64,
}

/// Errors of the engine
#[derive(Debug, Clone)]
pub enum EngineError {
    WorkflowNotFound(String),
    InstanceNotFound(String),
    InvalidTransition { from: String, to: String },
    TaskNotFound(String),
    TaskAlreadyClaimed(String),
    TaskLeaseExpired(String),
    WorkerNotFound(String),
    OptimisticLockConflict,
    DatabaseError(String),
    SerializationError(String),
    TransactionConflict,
    ScriptError(String),
    RuntimeError(String),
    ValidationError(String),
    InstanceAlreadyExists(String),
    DeadLetterQueue { task_id: String, reason: String },
}

impl EngineError {
    /// The message of the error, as its `Display` writes it.
    pub open spec fn message_text(self) -> Seq<char> {
        match self {
            EngineError::WorkflowNotFound(s) => "Workflow not found: "@ + s@,
            EngineError::InstanceNotFound(s) => "Instance not found: "@ + s@,
            EngineError::InvalidTransition { from, to } => "Invalid state transition: from "@
                + from@ + " to "@ + to@,
            EngineError::TaskNotFound(s) => "Task not found: "@ + s@,
            EngineError::TaskAlreadyClaimed(s) => "Task already claimed: "@ + s@,
            EngineError::TaskLeaseExpired(s) => "Task lease expired: "@ + s@,
            EngineError::WorkerNotFound(s) => "Worker not found: "@ + s@,
            EngineError::OptimisticLockConflict => "Optimistic lock conflict"@,
            EngineError::DatabaseError(s) => "Database error: "@ + s@,
            EngineError::SerializationError(s) => "Serialization error: "@ + s@,
            EngineError::TransactionConflict => "Transaction conflict"@,
            EngineError::ScriptError(s) => "Script execution error: "@ + s@,
            EngineError::RuntimeError(s) => "Runtime error: "@ + s@,
            EngineError::ValidationError(s) => "Validation error: "@ + s@,
            EngineError::InstanceAlreadyExists(s) => "Instance already exists: "@ + s@,
            EngineError::DeadLetterQueue { task_id, reason } => "Dead letter queue: "@ + task_id@
                + " - "@ + reason@,
        }
    }

    /// The message of the error, as its `Display` writes it.
    pub fn message(&self) -> (r: String)
        ensures
            r@ == self.message_text(),
    {
        match self {
            EngineError::WorkflowNotFound(s) => crate::text::join2("Workflow not found: ", s.as_str()),
            EngineError::InstanceNotFound(s) => crate::text::join2("Instance not found: ", s.as_str()),
            EngineError::InvalidTransition { from, to } => {
                let mut r = crate::text::join2("Invalid state transition: from ", from.as_str());
                r.append(" to ");
                r.append(to.as_str());
                r
            },
            EngineError::TaskNotFound(s) => crate::text::join2("Task not found: ", s.as_str()),
            EngineError::TaskAlreadyClaimed(s) => crate::text::join2("Task already claimed: ", s.as_str()),
            EngineError::TaskLeaseExpired(s) => crate::text::join2("Task lease expired: ", s.as_str()),
            EngineError::WorkerNotFound(s) => crate::text::join2("Worker not found: ", s.as_str()),
            EngineError::OptimisticLockConflict => String::from_str("Optimistic lock conflict"),
            EngineError::DatabaseError(s) => crate::text::join2("Database error: ", s.as_str()),
            EngineError::SerializationError(s) => crate::text::join2("Serialization error: ", s.as_str()),
            EngineError::TransactionConflict => String::from_str("Transaction conflict"),
            EngineError::ScriptError(s) => crate::text::join2("Script execution error: ", s.as_str()),
            EngineError::RuntimeError(s) => crate::text::join2("Runtime error: ", s.as_str()),
            EngineError::ValidationError(s) => crate::text::join2("Validation error: ", s.as_str()),
            EngineError::InstanceAlreadyExists(s) => crate::text::join2("Instance already exists: ", s.as_str()),
            EngineError::DeadLetterQueue { task_id, reason } => {
                let mut r = crate::text::join2("Dead letter queue: ", task_id.as_str());
                r.append(" - ");
                r.append(reason.as_str());
                r
            },
        }
    }
}

}
