//! The decisions of the workers' loops: what a timer tick or a shutdown
//! signal leads to, how a worker's statistics follow the tasks it runs,
//! and which runtime a task asks for. The loops themselves (timers,
//! channels, RPC calls) run around these steps.

use vstd::prelude::*;
use crate::engine::types::{RuntimeType, WorkerStats};
use crate::text::join2;

verus! {

/// What a worker loop is told.
#[derive(Debug, Clone, Copy, PartialEq, Eq, Structural)]
pub enum WorkerEvent {
    /// Its timer ticked.
    Tick,
    /// A shutdown was signalled.
    Shutdown,
}

/// What a worker loop does next.
#[derive(Debug, Clone, Copy, PartialEq, Eq, Structural)]
pub enum WorkerAction {
    /// Poll for a task and run it.
    Poll,
    /// Send a heartbeat.
    Heartbeat,
    /// Fetch up to this many tasks and run each.
    Fetch(usize),
    /// Keep waiting.
    Continue,
    /// Leave the loop.
    Stop,
}

/// The polling loop of an RPC worker: a tick polls for a task unless a
/// shutdown is under way, which stops the loop; a shutdown signal starts a
/// graceful shutdown, which waits for the active tasks. Gives whether a
/// shutdown is under way afterwards, and the action.
pub open spec fn poll_loop_outcome(graceful_shutdown: bool, active_tasks: u32, event: WorkerEvent) -> (bool, WorkerAction) {
    match event {
        WorkerEvent::Tick => if graceful_shutdown {
            (true, WorkerAction::Stop)
        } else {
            (false, WorkerAction::Poll)
        },
        WorkerEvent::Shutdown => if active_tasks > 0 {
            (true, WorkerAction::Continue)
        } else {
            (true, WorkerAction::Stop)
        },
    }
}

/// One step of the polling loop.
pub fn poll_loop_step(graceful_shutdown: bool, active_tasks: u32, event: WorkerEvent) -> (r: (bool, WorkerAction))
    ensures
        r == poll_loop_outcome(graceful_shutdown, active_tasks, event),
{
    match event {
        WorkerEvent::Tick => {
            if graceful_shutdown {
                (true, WorkerAction::Stop)
            } else {
                (false, WorkerAction::Poll)
            }
        },
        WorkerEvent::Shutdown => {
            if active_tasks > 0 {
                (true, WorkerAction::Continue)
            } else {
                (true, WorkerAction::Stop)
            }
        },
    }
}

/// After each event of the polling loop: a graceful shutdown ends the loop
/// once no task is active.
pub fn poll_loop_done(graceful_shutdown: bool, active_tasks: u32) -> (r: bool)
    ensures
        r == (graceful_shutdown && active_tasks == 0),
{
    graceful_shutdown && active_tasks == 0
}

/// Once a shutdown is signalled, the polling loop never polls again, and it
/// ends as soon as no task is active.
pub proof fn shutdown_stops_polling(active_tasks: u32)
    ensures
        poll_loop_outcome(true, active_tasks, WorkerEvent::Tick).1 == WorkerAction::Stop,
        (active_tasks == 0) ==> poll_loop_outcome(false, active_tasks, WorkerEvent::Shutdown).1
            == WorkerAction::Stop,
{
}

/// The heartbeat loop of a workflow worker: a tick sends a heartbeat; a
/// shutdown signal stops it.
pub fn heartbeat_step(event: WorkerEvent) -> (r: WorkerAction)
    ensures
        r == match event {
            WorkerEvent::Tick => WorkerAction::Heartbeat,
            WorkerEvent::Shutdown => WorkerAction::Stop,
        },
{
    match event {
        WorkerEvent::Tick => WorkerAction::Heartbeat,
        WorkerEvent::Shutdown => WorkerAction::Stop,
    }
}

/// How many tasks a workflow worker fetches on each tick.
pub const FETCH_LIMIT: usize = 5;

/// The processing loop of a workflow worker: a tick stops it once shutdown
/// was requested, else fetches up to five tasks; a shutdown signal stops it.
pub fn processing_step(shutdown_requested: bool, event: WorkerEvent) -> (r: WorkerAction)
    ensures
        r == match event {
            WorkerEvent::Tick => if shutdown_requested {
                WorkerAction::Stop
            } else {
                WorkerAction::Fetch(FETCH_LIMIT)
            },
            WorkerEvent::Shutdown => WorkerAction::Stop,
        },
{
    match event {
        WorkerEvent::Tick => {
            if shutdown_requested {
                WorkerAction::Stop
            } else {
                WorkerAction::Fetch(FETCH_LIMIT)
            }
        },
        WorkerEvent::Shutdown => WorkerAction::Stop,
    }
}

/// The settings of a workflow worker's loops.
#[derive(Debug, Clone, Copy, PartialEq, Eq, Structural)]
pub struct WorkerSettings {
    pub heartbeat_interval_ms: u64,
    pub poll_interval_ms: u64,
    pub max_concurrent_tasks: usize,
}

impl WorkerSettings {
    /// Heartbeat every 10 seconds, poll every second, at most 10 tasks.
    pub fn new() -> (r: Self)
        ensures
            r.heartbeat_interval_ms == 10000,
            r.poll_interval_ms == 1000,
            r.max_concurrent_tasks == 10,
    {
        WorkerSettings { heartbeat_interval_ms: 10000, poll_interval_ms: 1000, max_concurrent_tasks: 10 }
    }

    /// Set heartbeat interval
    pub fn with_heartbeat_interval(self, interval_ms: u64) -> (r: Self)
        ensures
            r == (WorkerSettings { heartbeat_interval_ms: interval_ms, ..self }),
    {
        WorkerSettings { heartbeat_interval_ms: interval_ms, ..self }
    }

    /// Set poll interval
    pub fn with_poll_interval(self, interval_ms: u64) -> (r: Self)
        ensures
            r == (WorkerSettings { poll_interval_ms: interval_ms, ..self }),
    {
        WorkerSettings { poll_interval_ms: interval_ms, ..self }
    }

    /// Set max concurrent tasks
    pub fn with_max_concurrent_tasks(self, max_tasks: usize) -> (r: Self)
        ensures
            r == (WorkerSettings { max_concurrent_tasks: max_tasks, ..self }),
    {
        WorkerSettings { max_concurrent_tasks: max_tasks, ..self }
    }
}

/// A task starts: one more is active.
pub fn task_started(stats: &mut WorkerStats)
    requires
        old(stats).active_tasks < u32::MAX,
    ensures
        *final(stats) == (WorkerStats { active_tasks: (old(stats).active_tasks + 1) as u32, ..*old(stats) }),
{
    stats.active_tasks = stats.active_tasks + 1;
}

/// A task ends: one fewer is active (never below zero), and it counts as
/// completed or failed.
pub fn task_finished(stats: &mut WorkerStats, success: bool)
    requires
        success ==> old(stats).total_tasks_completed < u64::MAX,
        !success ==> old(stats).total_tasks_failed < u64::MAX,
    ensures
        final(stats).active_tasks == (if old(stats).active_tasks > 0 {
            old(stats).active_tasks - 1
        } else {
            0
        }),
        final(stats).total_tasks_completed == old(stats).total_tasks_completed + (if success {
            1int
        } else {
            0int
        }),
        final(stats).total_tasks_failed == old(stats).total_tasks_failed + (if success {
            0int
        } else {
            1int
        }),
{
    stats.active_tasks = stats.active_tasks.saturating_sub(1);
    if success {
        stats.total_tasks_completed = stats.total_tasks_completed + 1;
    } else {
        stats.total_tasks_failed = stats.total_tasks_failed + 1;
    }
}

/// The runtime a task type asks for: "javascript" or "wasm"; any other is
/// refused with "Unknown runtime type: {type}".
pub fn runtime_for(task_type: &str) -> (r: Result<RuntimeType, String>)
    ensures
        task_type@ == "javascript"@ ==> r == Ok::<RuntimeType, String>(RuntimeType::JavaScript),
        task_type@ == "wasm"@ ==> r == Ok::<RuntimeType, String>(RuntimeType::Wasm),
        task_type@ != "javascript"@ && task_type@ != "wasm"@ ==> (r matches Err(m) && m@
            == "Unknown runtime type: "@ + task_type@),
{
    proof {
        reveal_strlit("javascript");
        reveal_strlit("wasm");
        assert("wasm"@.len() != "javascript"@.len());
    }
    if crate::text::str_eq(task_type, "javascript") {
        Ok(RuntimeType::JavaScript)
    } else if crate::text::str_eq(task_type, "wasm") {
        Ok(RuntimeType::Wasm)
    } else {
        Err(join2("Unknown runtime type: ", task_type))
    }
}

/// Running a task to its end leaves the number of active tasks as it was,
/// and counts the task once.
pub proof fn task_run_balances(before: WorkerStats, started: WorkerStats, finished: WorkerStats, success: bool)
    requires
        before.active_tasks < u32::MAX,
        started == (WorkerStats { active_tasks: (before.active_tasks + 1) as u32, ..before }),
        finished.active_tasks == (if started.active_tasks > 0 { started.active_tasks - 1 } else { 0 }),
        finished.total_tasks_completed == started.total_tasks_completed + (if success { 1int } else { 0int }),
        finished.total_tasks_failed == started.total_tasks_failed + (if success { 0int } else { 1int }),
    ensures
        finished.active_tasks == before.active_tasks,
        finished.total_tasks_completed + finished.total_tasks_failed == before.total_tasks_completed
            + before.total_tasks_failed + 1,
{
}

}
