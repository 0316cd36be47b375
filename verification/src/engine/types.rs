//! Core domain types for the workflow engine

use vstd::prelude::*;
use crate::engine::ids::{Uuid, hyphenated, is_random_v4, new_v4};

verus! {

/// Unique identifier for a workflow definition
#[derive(Debug, Clone, Copy, PartialEq, Eq)]
pub struct WorkflowId(pub Uuid);

impl WorkflowId {
    /// A fresh random identifier: a version 4 UUID of the RFC variant.
    pub fn new() -> (r: Self)
        ensures
            is_random_v4(r.0.bytes@),
    {
        WorkflowId(new_v4())
    }

    pub fn from_uuid(uuid: Uuid) -> (r: Self)
        ensures
            r.0 == uuid,
    {
        WorkflowId(uuid)
    }

    pub fn as_uuid(&self) -> (r: &Uuid)
        ensures
            *r == self.0,
    {
        &self.0
    }

    /// The identifier as `Display` writes it: the hyphenated UUID.
    pub fn to_text(&self) -> (r: String)
        ensures
            r@ == hyphenated(self.0.bytes@),
    {
        self.0.to_hyphenated()
    }
}

/// Unique identifier for a task
#[derive(Debug, Clone, Copy, PartialEq, Eq)]
pub struct TaskId(pub Uuid);

impl TaskId {
    /// A fresh random identifier: a version 4 UUID of the RFC variant.
    pub fn new() -> (r: Self)
        ensures
            is_random_v4(r.0.bytes@),
    {
        TaskId(new_v4())
    }

    pub fn from_uuid(uuid: Uuid) -> (r: Self)
        ensures
            r.0 == uuid,
    {
        TaskId(uuid)
    }

    pub fn as_uuid(&self) -> (r: &Uuid)
        ensures
            *r == self.0,
    {
        &self.0
    }

    /// The identifier as `Display` writes it: the hyphenated UUID.
    pub fn to_text(&self) -> (r: String)
        ensures
            r@ == hyphenated(self.0.bytes@),
    {
        self.0.to_hyphenated()
    }
}

/// Unique identifier for a worker
#[derive(Debug, Clone, PartialEq, Eq)]
pub struct WorkerId(pub String);

impl WorkerId {
    /// A fresh identifier: the hyphenated text of a random UUID.
    pub fn new() -> (r: Self)
        ensures
            exists|u: Uuid| r.0@ == hyphenated(u.bytes@),
    {
        let u = new_v4();
        WorkerId(u.to_hyphenated())
    }

    pub fn from_string(s: String) -> (r: Self)
        ensures
            r.0 == s,
    {
        WorkerId(s)
    }

    pub fn as_str(&self) -> (r: &str)
        ensures
            r@ == self.0@,
    {
        self.0.as_str()
    }

    /// The identifier as `Display` writes it.
    pub fn to_text(&self) -> (r: String)
        ensures
            r@ == self.0@,
    {
        self.0.clone()
    }
}

/// Status of a workflow instance
#[derive(Debug, Clone, Copy, PartialEq, Eq, Structural)]
pub enum WorkflowStatus {
    Pending,
    Running,
    Completed,
    Failed,
    Cancelled,
}

/// Type of runtime for task execution
#[derive(Debug, Clone, Copy, PartialEq, Eq, Hash, Structural)]
pub enum RuntimeType {
    JavaScript,
    Wasm,
}

impl RuntimeType {
    /// The runtime's name.
    pub open spec fn name_text(self) -> Seq<char> {
        match self {
            RuntimeType::JavaScript => "javascript"@,
            RuntimeType::Wasm => "wasm"@,
        }
    }

    pub fn as_str(&self) -> (r: &'static str)
        ensures
            r@ == self.name_text(),
    {
        proof {
            reveal_strlit("javascript");
            reveal_strlit("wasm");
        }
        match self {
            RuntimeType::JavaScript => "javascript",
            RuntimeType::Wasm => "wasm",
        }
    }
}

/// Status of a task execution
#[derive(Debug, Clone, Copy, PartialEq, Eq, Structural)]
pub enum TaskStatus {
    Pending,
    Assigned,
    Running,
    Completed,
    Failed,
    Retrying,
}

/// Result of task execution
#[derive(Debug, Clone)]
pub struct TaskResult {
    pub success: bool,
    pub output: Vec<u8>,
    pub error: Option<String>,
    pub execution_time_ms: u64,
}

/// Worker health status
#[derive(Debug, Clone, Copy, PartialEq, Eq, Structural)]
pub enum WorkerHealthStatus {
    Healthy,
    Degraded,
    Unhealthy,
}

/// Worker statistics
#[derive(Debug, Clone, Copy, PartialEq, Eq, Structural)]
pub struct WorkerStats {
    pub active_tasks: u32,
    pub total_tasks_completed: u64,
    pub total_tasks_failed: u64,
}

impl Default for WorkerStats {
    fn default() -> (r: Self)
        ensures
            r.active_tasks == 0,
            r.total_tasks_completed == 0,
            r.total_tasks_failed == 0,
    {
        WorkerStats { active_tasks: 0, total_tasks_completed: 0, total_tasks_failed: 0 }
    }
}

/// Workflow instance (running or completed); times are milliseconds since
/// the Unix epoch, the context is JSON text.
#[derive(Debug, Clone)]
pub struct WorkflowInstance {
    pub id: WorkflowId,
    pub definition_id: WorkflowId,
    pub current_state: String,
    pub context: String,
    pub status: WorkflowStatus,
    pub created_at: i64,
    pub updated_at: i64,
    pub completed_at: Option<i64>,
}

/// Worker registration information; times are milliseconds since the Unix epoch.
#[derive(Debug, Clone)]
pub struct WorkerInfo {
    pub id: WorkerId,
    pub capabilities: Vec<RuntimeType>,
    pub hostname: String,
    pub registered_at: i64,
    pub last_heartbeat: i64,
    pub status: WorkerHealthStatus,
    pub stats: WorkerStats,
}

}
