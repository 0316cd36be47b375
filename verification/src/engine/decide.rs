//! The decisions of the workflow engine: which definitions are valid, which
//! transition an event fires, how a transition changes an instance, what
//! pause, resume and cancel allow, how a finished task is settled, and when a
//! task is scheduled.

use vstd::prelude::*;
use vstd::string::*;
use crate::dsl::schema::{find_key, find_key_from, has_key, lookup_key, lemma_find_key_from, lemma_lookup_key};
use crate::engine::model::{TaskResult, Action, StateDefinition, Transition, WorkflowDefinition, InstanceState, InstanceStatus, Task, TaskStatus, TaskLease, EventType, EngineError, ScriptResult};
use crate::text::str_eq;
use crate::engine::json::{merge_json, merged_json};
use crate::engine::ids::{hyphenated, is_random_v4, new_v4, Uuid};
use crate::text::{join2, join3};

verus! {

// ------------------------------------------------------------------------
// Workflow definitions
// ------------------------------------------------------------------------

/// Index of the first transition in `ts[i..]` whose source or target is not a state.
pub open spec fn first_dangling_from(
    states: Seq<(String, StateDefinition)>,
    ts: Seq<Transition>,
    i: int,
) -> Option<int>
    decreases ts.len() - i,
{
    if i < 0 || i >= ts.len() {
        None
    } else if !has_key(states, ts[i].from@) || !has_key(states, ts[i].to@) {
        Some(i)
    } else {
        first_dangling_from(states, ts, i + 1)
    }
}

/// Why a workflow definition is refused, or `None` when it is valid: its
/// initial state must be a state, and each transition must go from a state
/// to a state (the first offending transition is reported, its source first).
pub open spec fn workflow_problem(wf: WorkflowDefinition) -> Option<Seq<char>> {
    if !has_key(wf.states@, wf.initial_state@) {
        Some("Initial state '"@ + wf.initial_state@ + "' not found in states"@)
    } else {
        match first_dangling_from(wf.states@, wf.transitions@, 0) {
            Some(i) => if !has_key(wf.states@, wf.transitions@[i].from@) {
                Some("Transition from unknown state: "@ + wf.transitions@[i].from@)
            } else {
                Some("Transition to unknown state: "@ + wf.transitions@[i].to@)
            },
            None => None,
        }
    }
}

/// Whether `name` is one of the workflow's states.
fn has_state(states: &Vec<(String, StateDefinition)>, name: &str) -> (r: bool)
    ensures
        r == has_key(states@, name@),
{
    proof {
        lemma_lookup_key(states@, name@);
        lemma_find_key_from(states@, name@, 0);
    }
    find_key(states, name).is_some()
}

/// Validates a workflow definition: `Ok` exactly when it has no problem,
/// else a validation error with the problem's message.
pub fn validate_workflow(workflow: &WorkflowDefinition) -> (r: Result<(), EngineError>)
    ensures
        match workflow_problem(*workflow) {
            None => r is Ok,
            Some(m) => r matches Err(EngineError::ValidationError(msg)) && msg@ == m,
        },
{
    if !has_state(&workflow.states, workflow.initial_state.as_str()) {
        return Err(
            EngineError::ValidationError(
                join3("Initial state '", workflow.initial_state.as_str(), "' not found in states"),
            ),
        );
    }
    let mut i: usize = 0;
    while i < workflow.transitions.len()
        invariant
            i <= workflow.transitions@.len(),
            has_key(workflow.states@, workflow.initial_state@),
            first_dangling_from(workflow.states@, workflow.transitions@, 0) == first_dangling_from(
                workflow.states@,
                workflow.transitions@,
                i as int,
            ),
        decreases workflow.transitions.len() - i,
    {
        let t = &workflow.transitions[i];
        if !has_state(&workflow.states, t.from.as_str()) {
            return Err(
                EngineError::ValidationError(
                    join2("Transition from unknown state: ", t.from.as_str()),
                ),
            );
        }
        if !has_state(&workflow.states, t.to.as_str()) {
            return Err(
                EngineError::ValidationError(join2("Transition to unknown state: ", t.to.as_str())),
            );
        }
        i = i + 1;
    }
    Ok(())
}

// ------------------------------------------------------------------------
// Events and transitions
// ------------------------------------------------------------------------

/// Index of the first transition in `ts[i..]` from `state` on `event`.
pub open spec fn matching_transition_from(
    ts: Seq<Transition>,
    state: Seq<char>,
    event: Seq<char>,
    i: int,
) -> Option<int>
    decreases ts.len() - i,
{
    if i < 0 || i >= ts.len() {
        None
    } else if ts[i].from@ == state && ts[i].event@ == event {
        Some(i)
    } else {
        matching_transition_from(ts, state, event, i + 1)
    }
}

pub proof fn lemma_matching_transition_from(ts: Seq<Transition>, state: Seq<char>, event: Seq<char>, i: int)
    requires
        0 <= i <= ts.len(),
    ensures
        match matching_transition_from(ts, state, event, i) {
            Some(k) => i <= k < ts.len() && ts[k].from@ == state && ts[k].event@ == event && forall|j: int|
                i <= j < k ==> !(#[trigger] ts[j].from@ == state && ts[j].event@ == event),
            None => forall|j: int|
                i <= j < ts.len() ==> !(#[trigger] ts[j].from@ == state && ts[j].event@ == event),
        },
    decreases ts.len() - i,
{
    if i < ts.len() && !(ts[i].from@ == state && ts[i].event@ == event) {
        lemma_matching_transition_from(ts, state, event, i + 1);
    }
}

/// An event fires the first transition, in the workflow's order, from the
/// current state on that event: the one chosen goes from that state on that
/// event and no earlier one does; when none is chosen, no transition goes
/// from that state on that event.
pub proof fn first_matching_transition_fires(ts: Seq<Transition>, state: Seq<char>, event: Seq<char>)
    ensures
        match matching_transition_from(ts, state, event, 0) {
            Some(k) => {
                &&& 0 <= k < ts.len()
                &&& ts[k].from@ == state
                &&& ts[k].event@ == event
                &&& forall|j: int| 0 <= j < k ==> !(#[trigger] ts[j].from@ == state && ts[j].event@ == event)
            },
            None => forall|j: int|
                0 <= j < ts.len() ==> !(#[trigger] ts[j].from@ == state && ts[j].event@ == event),
        },
{
    lemma_matching_transition_from(ts, state, event, 0);
}

/// The transition that `event` fires in `current_state`: the first one from
/// that state on that event, else an invalid-transition error naming the
/// state and the event.
pub fn find_transition<'a>(workflow: &'a WorkflowDefinition, current_state: &str, event: &str) -> (r:
    Result<&'a Transition, EngineError>)
    ensures
        match matching_transition_from(workflow.transitions@, current_state@, event@, 0) {
            Some(k) => r == Ok::<&Transition, EngineError>(&workflow.transitions@[k]),
            None => r matches Err(EngineError::InvalidTransition { from, to }) && from@
                == current_state@ && to@ == event@,
        },
{
    proof {
        lemma_matching_transition_from(workflow.transitions@, current_state@, event@, 0);
    }
    let mut i: usize = 0;
    while i < workflow.transitions.len()
        invariant
            i <= workflow.transitions@.len(),
            matching_transition_from(workflow.transitions@, current_state@, event@, 0)
                == matching_transition_from(
                workflow.transitions@,
                current_state@,
                event@,
                i as int,
            ),
        decreases workflow.transitions.len() - i,
    {
        let t = &workflow.transitions[i];
        if crate::text::str_eq(t.from.as_str(), current_state) && crate::text::str_eq(
            t.event.as_str(),
            event,
        ) {
            return Ok(t);
        }
        i = i + 1;
    }
    Err(
        EngineError::InvalidTransition {
            from: current_state.to_owned(),
            to: event.to_owned(),
        },
    )
}

/// An event is only accepted by a running instance.
pub fn ensure_running(status: InstanceStatus) -> (r: Result<(), EngineError>)
    ensures
        status == InstanceStatus::Running ==> r is Ok,
        status != InstanceStatus::Running ==> (r matches Err(EngineError::ValidationError(m)) && m@
            == "Instance is not running: "@ + status.debug_text()),
{
    if status == InstanceStatus::Running {
        Ok(())
    } else {
        let s = status.debug_string();
        Err(EngineError::ValidationError(join2("Instance is not running: ", s.as_str())))
    }
}

/// The actions a transition runs and what it does to the instance: the
/// source state's exit action and the transition's own action run before
/// the state changes, the target state's enter action after; a terminal
/// target completes the instance.
pub struct TransitionPlan<'a> {
    pub exit_action: Option<&'a Action>,
    pub transition_action: Option<&'a Action>,
    pub enter_action: Option<&'a Action>,
    pub completes: bool,
}

/// Plans `transition` in `workflow`: both of its states must exist.
pub fn plan_transition<'a>(workflow: &'a WorkflowDefinition, transition: &'a Transition) -> (r: Result<
    TransitionPlan<'a>,
    EngineError,
>)
    ensures
        match (lookup_key(workflow.states@, transition.from@), lookup_key(workflow.states@, transition.to@)) {
            (Some(from), Some(to)) => r matches Ok(p) && p.exit_action == (match from.on_exit {
                Some(a) => Some(&a),
                None => None::<&Action>,
            }) && p.transition_action == (match transition.action {
                Some(a) => Some(&a),
                None => None::<&Action>,
            }) && p.enter_action == (match to.on_enter {
                Some(a) => Some(&a),
                None => None::<&Action>,
            }) && p.completes == to.is_terminal,
            (None, _) => r matches Err(EngineError::ValidationError(m)) && m@ == "State not found: "@
                + transition.from@,
            (Some(_), None) => r matches Err(EngineError::ValidationError(m)) && m@
                == "State not found: "@ + transition.to@,
        },
{
    proof {
        lemma_find_key_from(workflow.states@, transition.from@, 0);
        lemma_find_key_from(workflow.states@, transition.to@, 0);
    }
    let from = match find_key(&workflow.states, transition.from.as_str()) {
        Some(k) => &workflow.states[k].1,
        None => {
            return Err(
                EngineError::ValidationError(join2("State not found: ", transition.from.as_str())),
            );
        },
    };
    let to = match find_key(&workflow.states, transition.to.as_str()) {
        Some(k) => &workflow.states[k].1,
        None => {
            return Err(
                EngineError::ValidationError(join2("State not found: ", transition.to.as_str())),
            );
        },
    };
    Ok(
        TransitionPlan {
            exit_action: match &from.on_exit {
                Some(a) => Some(a),
                None => None,
            },
            transition_action: match &transition.action {
                Some(a) => Some(a),
                None => None,
            },
            enter_action: match &to.on_enter {
                Some(a) => Some(a),
                None => None,
            },
            completes: to.is_terminal,
        },
    )
}

/// The context of an instance after a transition with `event_data` (JSON
/// text): the event's members merged into it, or unchanged without data.
pub open spec fn context_after(context: Seq<char>, event_data: Option<Seq<char>>) -> Seq<char> {
    match event_data {
        Some(d) => merged_json(context, d),
        None => context,
    }
}

// ------------------------------------------------------------------------
// Creating an instance
// ------------------------------------------------------------------------

/// The id of a new instance: the one given, else `inst-` and a fresh random UUID.
pub fn instance_id_or_fresh(instance_id: Option<String>) -> (r: String)
    ensures
        match instance_id {
            Some(id) => r == id,
            None => exists|u: Uuid| is_random_v4(u.bytes@) && r@ == "inst-"@ + hyphenated(#[trigger] u.bytes@),
        },
{
    match instance_id {
        Some(id) => id,
        None => {
            let u = new_v4();
            let text = u.to_hyphenated();
            join2("inst-", text.as_str())
        },
    }
}

/// A new instance of `workflow` (stored under `workflow_id`): running in the
/// workflow's initial state with `context` (JSON text), created and updated
/// at `now`, with no versionstamp yet.
pub fn new_instance(workflow: &WorkflowDefinition, workflow_id: &str, instance_id: String, context: String, now: i64) -> (r: InstanceState)
    ensures
        r.instance_id == instance_id,
        r.workflow_id@ == workflow_id@,
        r.workflow_version == workflow.version,
        r.current_state@ == workflow.initial_state@,
        r.context == context,
        r.status == InstanceStatus::Running,
        r.created_at == now,
        r.updated_at == now,
        r.versionstamp@.len() == 0,
{
    InstanceState {
        instance_id,
        workflow_id: workflow_id.to_string(),
        workflow_version: workflow.version,
        current_state: workflow.initial_state.clone(),
        context,
        status: InstanceStatus::Running,
        created_at: now,
        updated_at: now,
        versionstamp: Vec::new(),
    }
}

/// The action a new instance runs on entering its initial state: the
/// initial state's enter action, when the state is defined and has one.
pub fn initial_enter_action(workflow: &WorkflowDefinition) -> (r: Option<&Action>)
    ensures
        r == match lookup_key(workflow.states@, workflow.initial_state@) {
            Some(sd) => match sd.on_enter {
                Some(a) => Some(&a),
                None => None::<&Action>,
            },
            None => None::<&Action>,
        },
{
    proof {
        lemma_find_key_from(workflow.states@, workflow.initial_state@, 0);
    }
    match find_key(&workflow.states, workflow.initial_state.as_str()) {
        Some(k) => match &workflow.states[k].1.on_enter {
            Some(a) => Some(a),
            None => None,
        },
        None => None,
    }
}

/// One step of creating an instance, in the order the engine takes them.
pub enum CreationStep<'a> {
    /// Store the new instance.
    StoreInstance,
    /// Append the instance-created event to the audit log.
    LogCreation,
    /// Create a task that runs this action for the instance.
    CreateTask(&'a Action),
}

/// The steps of creating an instance of `workflow`: store it, log its
/// creation, then create the task of its initial state's enter action when
/// there is one.
pub open spec fn creation_steps<'a>(workflow: &'a WorkflowDefinition) -> Seq<CreationStep<'a>> {
    seq![CreationStep::StoreInstance, CreationStep::LogCreation] + match lookup_key(
        workflow.states@,
        workflow.initial_state@,
    ) {
        Some(sd) => match action_ref(&sd.on_enter) {
            Some(a) => seq![CreationStep::CreateTask(a)],
            None => Seq::empty(),
        },
        None => Seq::empty(),
    }
}

/// A new instance of `workflow` under `instance_id` (else a fresh
/// `inst-` id), with the steps that bring it into being.
pub fn start_instance<'a>(
    workflow: &'a WorkflowDefinition,
    workflow_id: &str,
    instance_id: Option<String>,
    context: String,
    now: i64,
) -> (r: (InstanceState, Vec<CreationStep<'a>>))
    ensures
        match instance_id {
            Some(id) => r.0.instance_id == id,
            None => exists|u: Uuid|
                is_random_v4(u.bytes@) && r.0.instance_id@ == "inst-"@ + hyphenated(#[trigger] u.bytes@),
        },
        r.0.workflow_id@ == workflow_id@,
        r.0.workflow_version == workflow.version,
        r.0.current_state@ == workflow.initial_state@,
        r.0.context == context,
        r.0.status == InstanceStatus::Running,
        r.0.created_at == now,
        r.0.updated_at == now,
        r.0.versionstamp@.len() == 0,
        r.1@ == creation_steps(workflow),
{
    let id = instance_id_or_fresh(instance_id);
    let instance = new_instance(workflow, workflow_id, id, context, now);
    let mut steps: Vec<CreationStep<'a>> = Vec::new();
    steps.push(CreationStep::StoreInstance);
    steps.push(CreationStep::LogCreation);
    match initial_enter_action(workflow) {
        Some(a) => steps.push(CreationStep::CreateTask(a)),
        None => {},
    }
    assert(steps@ =~= creation_steps(workflow));
    (instance, steps)
}

/// Moves the instance to the transition's target state, merging the event's
/// data into its context; reaching a terminal state completes it. Nothing
/// else changes.
pub fn apply_transition(instance: &mut InstanceState, transition: &Transition, completes: bool, event_data: Option<&str>)
    ensures
        final(instance).current_state@ == transition.to@,
        final(instance).context@ == context_after(
            old(instance).context@,
            match event_data {
                Some(d) => Some(d@),
                None => None,
            },
        ),
        final(instance).status == (if completes {
            InstanceStatus::Completed
        } else {
            old(instance).status
        }),
        final(instance).instance_id == old(instance).instance_id,
        final(instance).workflow_id == old(instance).workflow_id,
        final(instance).workflow_version == old(instance).workflow_version,
        final(instance).created_at == old(instance).created_at,
        final(instance).updated_at == old(instance).updated_at,
        final(instance).versionstamp == old(instance).versionstamp,
{
    instance.current_state = transition.to.clone();
    match event_data {
        Some(d) => {
            instance.context = merge_json(instance.context.as_str(), d);
        },
        None => {},
    }
    if completes {
        instance.status = InstanceStatus::Completed;
    }
}

// ------------------------------------------------------------------------
// Pause, resume, cancel
// ------------------------------------------------------------------------

/// What pausing does to a status: only a running instance can be paused.
pub open spec fn paused(status: InstanceStatus) -> Option<InstanceStatus> {
    if status == InstanceStatus::Running {
        Some(InstanceStatus::Paused)
    } else {
        None
    }
}

/// What resuming does to a status: only a paused instance can be resumed.
pub open spec fn resumed(status: InstanceStatus) -> Option<InstanceStatus> {
    if status == InstanceStatus::Paused {
        Some(InstanceStatus::Running)
    } else {
        None
    }
}

/// Pauses a running instance; any other is refused and left unchanged.
pub fn pause(instance: &mut InstanceState) -> (r: Result<(), EngineError>)
    ensures
        match paused(old(instance).status) {
            Some(s) => r is Ok && *final(instance) == (InstanceState { status: s, ..*old(instance) }),
            None => *final(instance) == *old(instance) && (r matches Err(
                EngineError::ValidationError(m),
            ) && m@ == "Can only pause running instances"@),
        },
{
    if instance.status != InstanceStatus::Running {
        return Err(EngineError::ValidationError(String::from_str("Can only pause running instances")));
    }
    instance.status = InstanceStatus::Paused;
    Ok(())
}

/// Resumes a paused instance; any other is refused and left unchanged.
pub fn resume(instance: &mut InstanceState) -> (r: Result<(), EngineError>)
    ensures
        match resumed(old(instance).status) {
            Some(s) => r is Ok && *final(instance) == (InstanceState { status: s, ..*old(instance) }),
            None => *final(instance) == *old(instance) && (r matches Err(
                EngineError::ValidationError(m),
            ) && m@ == "Can only resume paused instances"@),
        },
{
    if instance.status != InstanceStatus::Paused {
        return Err(EngineError::ValidationError(String::from_str("Can only resume paused instances")));
    }
    instance.status = InstanceStatus::Running;
    Ok(())
}

/// Cancels an instance, whatever its status.
pub fn cancel(instance: &mut InstanceState)
    ensures
        *final(instance) == (InstanceState { status: InstanceStatus::Cancelled, ..*old(instance) }),
{
    instance.status = InstanceStatus::Cancelled;
}

/// Pausing and then resuming gives back a running instance, unchanged otherwise.
pub proof fn pause_then_resume(status: InstanceStatus)
    requires
        paused(status) is Some,
    ensures
        resumed(paused(status)->0) == Some(status),
{
}

/// Only a running instance can be paused, and only a paused one resumed.
pub proof fn pause_resume_guards(status: InstanceStatus)
    ensures
        paused(status) is Some <==> status == InstanceStatus::Running,
        resumed(status) is Some <==> status == InstanceStatus::Paused,
{
}

// ------------------------------------------------------------------------
// Tasks
// ------------------------------------------------------------------------

/// The lease time of a claim, in milliseconds.
pub const LEASE_MS: i64 = 30000;

/// The retries a new task is given.
pub const DEFAULT_MAX_RETRIES: u32 = 3;

/// When a task for `action` created at `now` is due: a delay action waits
/// its seconds (the seconds taken as an `i64`), any other is due at once.
pub open spec fn due_time(action: Action, now: i64) -> int {
    match action {
        Action::Delay { seconds } => now + (seconds as i64) * 1000,
        _ => now as int,
    }
}

/// When a task for `action` created at `now` is scheduled.
pub fn scheduled_at(action: &Action, now: i64) -> (r: i64)
    requires
        i64::MIN <= due_time(*action, now) <= i64::MAX,
        action matches Action::Delay { seconds } ==> i64::MIN <= (seconds as i64) * 1000 <= i64::MAX,
    ensures
        r == due_time(*action, now),
{
    match action {
        Action::Delay { seconds } => now + (*seconds as i64) * 1000,
        _ => now,
    }
}

/// A new task for `action`: pending, not yet retried, with the default
/// number of retries, priority 0 and no lease.
pub fn new_task(
    task_id: String,
    instance_id: String,
    workflow_id: String,
    action: Action,
    idempotency_key: String,
    now: i64,
) -> (t: Task)
    requires
        i64::MIN <= due_time(action, now) <= i64::MAX,
        action matches Action::Delay { seconds } ==> i64::MIN <= (seconds as i64) * 1000 <= i64::MAX,
    ensures
        t.task_id == task_id,
        t.instance_id == instance_id,
        t.workflow_id == workflow_id,
        t.action == action,
        t.idempotency_key == idempotency_key,
        t.priority == 0,
        t.created_at == now,
        t.scheduled_at == due_time(action, now),
        t.status == TaskStatus::Pending,
        t.retry_count == 0,
        t.max_retries == DEFAULT_MAX_RETRIES,
        t.lease is None,
{
    let at = scheduled_at(&action, now);
    Task {
        task_id,
        instance_id,
        workflow_id,
        action,
        idempotency_key,
        priority: 0,
        created_at: now,
        scheduled_at: at,
        status: TaskStatus::Pending,
        retry_count: 0,
        max_retries: DEFAULT_MAX_RETRIES,
        lease: None,
    }
}

/// A task after one run: completed on success; on failure its retry count
/// goes up, and it is dead-lettered once the count reaches its maximum,
/// else it is pending again without a lease.
pub open spec fn settled(task: Task, success: bool) -> Task {
    if success {
        Task { status: TaskStatus::Completed, ..task }
    } else if task.retry_count + 1 >= task.max_retries {
        Task { retry_count: (task.retry_count + 1) as u32, status: TaskStatus::DeadLetter, ..task }
    } else {
        Task {
            retry_count: (task.retry_count + 1) as u32,
            status: TaskStatus::Pending,
            lease: None,
            ..task
        }
    }
}

/// Settles a task after a run.
pub fn settle_task(task: &mut Task, success: bool)
    requires
        !success ==> old(task).retry_count < u32::MAX,
    ensures
        *final(task) == settled(*old(task), success),
{
    if success {
        task.status = TaskStatus::Completed;
    } else {
        task.retry_count = task.retry_count + 1;
        if task.retry_count >= task.max_retries {
            task.status = TaskStatus::DeadLetter;
        } else {
            task.status = TaskStatus::Pending;
            task.lease = None;
        }
    }
}

/// The event logged for a task run.
pub fn task_event_type(success: bool) -> (r: EventType)
    ensures
        r == (if success {
            EventType::TaskCompleted
        } else {
            EventType::TaskFailed
        }),
{
    if success {
        EventType::TaskCompleted
    } else {
        EventType::TaskFailed
    }
}

/// `n` failed runs of `task`.
pub open spec fn failed_runs(task: Task, n: nat) -> Task
    decreases n,
{
    if n == 0 {
        task
    } else {
        settled(failed_runs(task, (n - 1) as nat), false)
    }
}

/// A new task that keeps failing is retried until it has failed as often as
/// its maximum allows, and is dead-lettered by that failure: after `n`
/// failures it has been retried `n` times, and it is dead-lettered exactly
/// when `n` reaches the maximum (and pending before).
pub proof fn retries_end_in_dead_letter(task: Task, n: nat)
    requires
        task.retry_count == 0,
        task.status == TaskStatus::Pending,
        1 <= n <= task.max_retries,
    ensures
        failed_runs(task, n).retry_count == n,
        failed_runs(task, n).max_retries == task.max_retries,
        failed_runs(task, n).status == (if n == task.max_retries {
            TaskStatus::DeadLetter
        } else {
            TaskStatus::Pending
        }),
    decreases n,
{
    if n > 1 {
        retries_end_in_dead_letter(task, (n - 1) as nat);
    } else {
        assert(failed_runs(task, 0) == task);
    }
}

// ------------------------------------------------------------------------
// Claiming tasks and locking instances
// ------------------------------------------------------------------------

/// Whether a worker may claim `task` at `now`: it is due, it is not held
/// under a lease that is still running, and it is neither completed nor
/// dead-lettered.
pub open spec fn claimable(task: Task, now: i64) -> bool {
    &&& task.scheduled_at <= now
    &&& !((task.status == TaskStatus::Claimed || task.status == TaskStatus::Running)
        && (task.lease matches Some(l) && l.expires_at > now))
    &&& task.status != TaskStatus::Completed
    &&& task.status != TaskStatus::DeadLetter
}

/// When a worker may claim a task: never before it is due, never once it is
/// completed or dead-lettered, never while it is claimed or running under a
/// lease that has not run out; and a due task that is pending or failed, or
/// claimed or running without a lease or under a lease that has run out (its
/// worker is gone), may be claimed.
pub proof fn claim_rules(task: Task, now: i64)
    ensures
        task.scheduled_at > now ==> !claimable(task, now),
        task.status == TaskStatus::Completed ==> !claimable(task, now),
        task.status == TaskStatus::DeadLetter ==> !claimable(task, now),
        (task.status == TaskStatus::Claimed || task.status == TaskStatus::Running) && (task.lease matches Some(
            l,
        ) && l.expires_at > now) ==> !claimable(task, now),
        task.scheduled_at <= now && (task.status == TaskStatus::Pending || task.status
            == TaskStatus::Failed) ==> claimable(task, now),
        task.scheduled_at <= now && (task.status == TaskStatus::Claimed || task.status
            == TaskStatus::Running) && (task.lease matches Some(l) ==> l.expires_at <= now) ==> claimable(
            task,
            now,
        ),
{
}

/// An expired lease never blocks a claim: a due task claimed by a worker
/// whose lease ran out at or before `now` is claimable again.
pub proof fn expired_lease_is_reclaimed(task: Task, now: i64)
    requires
        task.status == TaskStatus::Claimed || task.status == TaskStatus::Running,
        task.lease matches Some(l) && l.expires_at <= now,
        task.scheduled_at <= now,
    ensures
        claimable(task, now),
{
}

/// Whether a worker may claim `task` at `now`.
pub fn is_claimable(task: &Task, now: i64) -> (r: bool)
    ensures
        r == claimable(*task, now),
{
    if task.scheduled_at > now {
        return false;
    }
    if task.status == TaskStatus::Claimed || task.status == TaskStatus::Running {
        match &task.lease {
            Some(l) => {
                if l.expires_at > now {
                    return false;
                }
            },
            None => {},
        }
    }
    !(task.status == TaskStatus::Completed || task.status == TaskStatus::DeadLetter)
}

/// The first of `tasks` (those that could be read) that may be claimed at `now`.
pub fn choose_claim(tasks: &Vec<Option<Task>>, now: i64) -> (r: Option<usize>)
    ensures
        match r {
            Some(i) => i < tasks@.len() && (tasks@[i as int] matches Some(t) && claimable(t, now))
                && forall|j: int|
                0 <= j < i ==> !(#[trigger] tasks@[j] matches Some(u) && claimable(u, now)),
            None => forall|j: int|
                0 <= j < tasks@.len() ==> !(#[trigger] tasks@[j] matches Some(u) && claimable(u, now)),
        },
{
    let mut i: usize = 0;
    while i < tasks.len()
        invariant
            i <= tasks@.len(),
            forall|j: int| 0 <= j < i ==> !(#[trigger] tasks@[j] matches Some(u) && claimable(u, now)),
        decreases tasks.len() - i,
    {
        match &tasks[i] {
            Some(t) => {
                if is_claimable(t, now) {
                    return Some(i);
                }
            },
            None => {},
        }
        i = i + 1;
    }
    None
}

/// Claims a task for `worker_id` at `now`: claimed, under a lease that
/// runs for the lease time.
pub fn claim(task: &mut Task, worker_id: &str, now: i64)
    requires
        now + LEASE_MS <= i64::MAX,
    ensures
        final(task).status == TaskStatus::Claimed,
        final(task).lease matches Some(l) && l.worker_id@ == worker_id@ && l.claimed_at == now
            && l.expires_at == now + LEASE_MS && l.heartbeat_at == now,
        *final(task) == (Task { status: final(task).status, lease: final(task).lease, ..*old(task) }),
{
    task.status = TaskStatus::Claimed;
    task.lease = Some(
        TaskLease {
            worker_id: worker_id.to_owned(),
            claimed_at: now,
            expires_at: now + LEASE_MS,
            heartbeat_at: now,
        },
    );
}

/// Whether `worker` gets the instance lock at `now`, given the lock held
/// (its worker and expiry), if any: a lock that has not expired is kept by
/// its worker (and renewed) and refused to others; otherwise it is taken.
/// The result is the new expiry, or `None` when refused.
pub open spec fn lock_outcome(existing: Option<(String, i64)>, worker: Seq<char>, now: i64, ttl: i64) -> Option<int> {
    match existing {
        Some((w, exp)) => if exp > now && w@ != worker {
            None
        } else {
            Some(now + ttl)
        },
        None => Some(now + ttl),
    }
}

/// Decides a lock request.
pub fn lock_decision(existing: &Option<(String, i64)>, worker_id: &str, now: i64, ttl_ms: i64) -> (r:
    Option<i64>)
    requires
        i64::MIN <= now + ttl_ms <= i64::MAX,
    ensures
        match r {
            Some(e) => lock_outcome(*existing, worker_id@, now, ttl_ms) == Some(e as int),
            None => lock_outcome(*existing, worker_id@, now, ttl_ms) is None,
        },
{
    match existing {
        Some((w, exp)) => {
            if *exp > now && !crate::text::str_eq(w.as_str(), worker_id) {
                return None;
            }
            Some(now + ttl_ms)
        },
        None => Some(now + ttl_ms),
    }
}

/// A lock is released only by the worker that holds it.
pub fn unlock_decision(existing_worker: &Option<String>, worker_id: &str) -> (r: bool)
    ensures
        r == (existing_worker matches Some(w) && w@ == worker_id@),
{
    match existing_worker {
        Some(w) => crate::text::str_eq(w.as_str(), worker_id),
        None => false,
    }
}

/// An unexpired lock is never granted to another worker, and the worker that
/// holds a lock always keeps it.
pub proof fn lock_exclusive(existing: Option<(String, i64)>, worker: Seq<char>, now: i64, ttl: i64)
    ensures
        existing matches Some((w, exp)) && exp > now && w@ != worker ==> lock_outcome(
            existing,
            worker,
            now,
            ttl,
        ) is None,
        existing matches Some((w, _)) && w@ == worker ==> lock_outcome(existing, worker, now, ttl)
            == Some(now + ttl),
{
}


/// The result recorded for a run of `task` that took `duration_ms`: its
/// output on success, else the error's message.
pub fn run_result(task: &Task, outcome: Result<String, EngineError>, duration_ms: u64) -> (r: TaskResult)
    ensures
        r.task_id == task.task_id,
        r.duration_ms == duration_ms,
        r.success == outcome is Ok,
        match outcome {
            Ok(out) => r.output == Some(out) && r.error is None,
            Err(e) => r.output is None && (r.error matches Some(m) && m@ == e.message_text()),
        },
{
    match outcome {
        Ok(output) => TaskResult {
            task_id: task.task_id.clone(),
            success: true,
            output: Some(output),
            error: None,
            duration_ms,
        },
        Err(e) => TaskResult {
            task_id: task.task_id.clone(),
            success: false,
            output: None,
            error: Some(e.message()),
            duration_ms,
        },
    }
}

// ------------------------------------------------------------------------
// Transition conditions
// ------------------------------------------------------------------------

/// The script that evaluates a transition condition: a module whose default
/// export returns the condition's value for a context.
pub open spec fn condition_script_text(condition: Seq<char>) -> Seq<char> {
    "export default function(context) { return ("@ + condition + "); }"@
}

/// The JSON text of the value `true`.
pub open spec fn true_text() -> Seq<char> {
    seq!['t', 'r', 'u', 'e']
}

/// The script that evaluates `condition` against a context.
pub fn condition_script(condition: &str) -> (r: String)
    ensures
        r@ == condition_script_text(condition@),
{
    join3("export default function(context) { return (", condition, "); }")
}

/// Whether a condition's script run says to take the transition: only a
/// successful run whose output is the JSON value `true` does.
pub open spec fn condition_holds(result: ScriptResult) -> bool {
    result.success && result.output is Some && result.output->0@ == true_text()
}

/// Whether a condition's script run says to take the transition: only a
/// successful run whose output is the JSON value `true` does.
pub fn condition_met(result: &ScriptResult) -> (r: bool)
    ensures
        r == condition_holds(*result),
{
    if !result.success {
        return false;
    }
    match &result.output {
        Some(out) => {
            proof {
                reveal_strlit("true");
                assert("true"@ =~= true_text());
            }
            str_eq(out.as_str(), "true")
        },
        None => false,
    }
}


// ------------------------------------------------------------------------
// Performing a transition and triggering an event
// ------------------------------------------------------------------------

/// One step of performing a transition, in the order the engine takes them.
pub enum TransitionEffect<'a> {
    /// Create a task that runs this action for the instance.
    CreateTask(&'a Action),
    /// Store the instance in its new state.
    StoreInstance,
    /// Append the state-transition event to the audit log.
    LogTransition,
}

/// The task an optional action creates: one for an action, none without.
pub open spec fn task_for<'a>(action: Option<&'a Action>) -> Seq<TransitionEffect<'a>> {
    match action {
        Some(a) => seq![TransitionEffect::CreateTask(a)],
        None => Seq::empty(),
    }
}

/// The steps of a transition: the source state's exit action and the
/// transition's own action become tasks first, then the instance is stored
/// and the transition logged, and only then is the target state's enter
/// action's task created.
pub open spec fn effects_of<'a>(plan: TransitionPlan<'a>) -> Seq<TransitionEffect<'a>> {
    task_for(plan.exit_action) + task_for(plan.transition_action) + seq![
        TransitionEffect::StoreInstance,
        TransitionEffect::LogTransition,
    ] + task_for(plan.enter_action)
}

/// The optional action held by `action`, by reference.
pub open spec fn action_ref<'a>(action: &'a Option<Action>) -> Option<&'a Action> {
    match action {
        Some(a) => Some(a),
        None => None,
    }
}

/// The steps that carry out `plan`, in order.
pub fn transition_effects<'a>(plan: &TransitionPlan<'a>) -> (r: Vec<TransitionEffect<'a>>)
    ensures
        r@ == effects_of(*plan),
{
    let mut r: Vec<TransitionEffect<'a>> = Vec::new();
    match plan.exit_action {
        Some(a) => r.push(TransitionEffect::CreateTask(a)),
        None => {},
    }
    match plan.transition_action {
        Some(a) => r.push(TransitionEffect::CreateTask(a)),
        None => {},
    }
    r.push(TransitionEffect::StoreInstance);
    r.push(TransitionEffect::LogTransition);
    match plan.enter_action {
        Some(a) => r.push(TransitionEffect::CreateTask(a)),
        None => {},
    }
    assert(r@ =~= effects_of(*plan));
    r
}

/// Whether both states of `transition` are defined in `workflow`.
pub open spec fn states_defined(workflow: WorkflowDefinition, transition: Transition) -> bool {
    lookup_key(workflow.states@, transition.from@) is Some && lookup_key(
        workflow.states@,
        transition.to@,
    ) is Some
}

/// The steps of performing `transition`, when both of its states are defined.
pub open spec fn transition_steps<'a>(workflow: &'a WorkflowDefinition, transition: &'a Transition) -> Seq<
    TransitionEffect<'a>,
> {
    let from = lookup_key(workflow.states@, transition.from@)->0;
    let to = lookup_key(workflow.states@, transition.to@)->0;
    task_for(action_ref(&from.on_exit)) + task_for(action_ref(&transition.action)) + seq![
        TransitionEffect::StoreInstance,
        TransitionEffect::LogTransition,
    ] + task_for(action_ref(&to.on_enter))
}

/// The instance `after` is `before` moved by `transition`: in its target
/// state, with the event's data merged into its context, completed when the
/// target is terminal, and otherwise unchanged.
pub open spec fn moved_by(
    before: InstanceState,
    after: InstanceState,
    transition: Transition,
    completes: bool,
    event_data: Option<Seq<char>>,
) -> bool {
    &&& after.current_state@ == transition.to@
    &&& after.context@ == context_after(before.context@, event_data)
    &&& after.status == (if completes {
        InstanceStatus::Completed
    } else {
        before.status
    })
    &&& after.instance_id == before.instance_id
    &&& after.workflow_id == before.workflow_id
    &&& after.workflow_version == before.workflow_version
    &&& after.created_at == before.created_at
    &&& after.updated_at == before.updated_at
    &&& after.versionstamp == before.versionstamp
}

/// The event data as a value of the model.
pub open spec fn data_view(event_data: Option<&str>) -> Option<Seq<char>> {
    match event_data {
        Some(d) => Some(d@),
        None => None,
    }
}

/// Performs `transition` on `instance`: when a state of the transition is
/// missing, the instance is left as it was and nothing is to be done;
/// otherwise the instance moves to the target state and the steps to carry
/// out come back in order.
pub fn perform_transition<'a>(
    instance: &mut InstanceState,
    workflow: &'a WorkflowDefinition,
    transition: &'a Transition,
    event_data: Option<&str>,
) -> (r: Result<Vec<TransitionEffect<'a>>, EngineError>)
    ensures
        r is Ok <==> states_defined(*workflow, *transition),
        r is Err ==> *final(instance) == *old(instance),
        lookup_key(workflow.states@, transition.from@) is None ==> (r matches Err(
            EngineError::ValidationError(m),
        ) && m@ == "State not found: "@ + transition.from@),
        lookup_key(workflow.states@, transition.from@) is Some && lookup_key(
            workflow.states@,
            transition.to@,
        ) is None ==> (r matches Err(EngineError::ValidationError(m)) && m@ == "State not found: "@
            + transition.to@),
        r matches Ok(steps) ==> steps@ == transition_steps(workflow, transition) && moved_by(
            *old(instance),
            *final(instance),
            *transition,
            lookup_key(workflow.states@, transition.to@)->0.is_terminal,
            data_view(event_data),
        ),
{
    let plan = match plan_transition(workflow, transition) {
        Ok(p) => p,
        Err(e) => {
            return Err(e);
        },
    };
    apply_transition(instance, transition, plan.completes, event_data);
    let steps = transition_effects(&plan);
    Ok(steps)
}

/// What an event asks of a running instance before anything changes.
pub enum TriggerStep<'a> {
    /// The transition has a condition: run `script` against the instance's
    /// context, then conclude with `conclude_trigger`.
    EvaluateCondition { transition: &'a Transition, script: String },
    /// The transition has no condition: perform it.
    Perform(&'a Transition),
}

/// The first step of `event` on `instance`: the instance must be running;
/// then the first transition from its current state on that event is
/// chosen, else the event is invalid there; a transition with a condition
/// first has it evaluated.
pub fn begin_trigger<'a>(instance: &InstanceState, workflow: &'a WorkflowDefinition, event: &str) -> (r:
    Result<TriggerStep<'a>, EngineError>)
    ensures
        instance.status != InstanceStatus::Running ==> (r matches Err(
            EngineError::ValidationError(m),
        ) && m@ == "Instance is not running: "@ + instance.status.debug_text()),
        instance.status == InstanceStatus::Running ==> match matching_transition_from(
            workflow.transitions@,
            instance.current_state@,
            event@,
            0,
        ) {
            Some(k) => match workflow.transitions@[k].condition {
                Some(c) => r matches Ok(TriggerStep::EvaluateCondition { transition, script })
                    && transition == &workflow.transitions@[k] && script@ == condition_script_text(
                    c@,
                ),
                None => r matches Ok(TriggerStep::Perform(t)) && t == &workflow.transitions@[k],
            },
            None => r matches Err(EngineError::InvalidTransition { from, to }) && from@
                == instance.current_state@ && to@ == event@,
        },
{
    match ensure_running(instance.status) {
        Ok(()) => {},
        Err(e) => {
            return Err(e);
        },
    }
    let t = match find_transition(workflow, instance.current_state.as_str(), event) {
        Ok(t) => t,
        Err(e) => {
            return Err(e);
        },
    };
    match &t.condition {
        Some(c) => Ok(TriggerStep::EvaluateCondition { transition: t, script: condition_script(c.as_str()) }),
        None => Ok(TriggerStep::Perform(t)),
    }
}

/// The end of an event whose transition has a condition, given what the
/// condition's script returned: a condition that does not hold leaves the
/// instance as it was with nothing to do; one that holds performs the
/// transition.
pub fn conclude_trigger<'a>(
    instance: &mut InstanceState,
    workflow: &'a WorkflowDefinition,
    transition: &'a Transition,
    condition_result: &ScriptResult,
    event_data: Option<&str>,
) -> (r: Result<Vec<TransitionEffect<'a>>, EngineError>)
    ensures
        !condition_holds(*condition_result) ==> (r matches Ok(steps) && steps@.len() == 0
            && *final(instance) == *old(instance)),
        condition_holds(*condition_result) ==> {
            &&& r is Ok <==> states_defined(*workflow, *transition)
            &&& r is Err ==> *final(instance) == *old(instance)
            &&& r matches Ok(steps) ==> steps@ == transition_steps(workflow, transition) && moved_by(
                *old(instance),
                *final(instance),
                *transition,
                lookup_key(workflow.states@, transition.to@)->0.is_terminal,
                data_view(event_data),
            )
        },
{
    if !condition_met(condition_result) {
        return Ok(Vec::new());
    }
    perform_transition(instance, workflow, transition, event_data)
}


// ------------------------------------------------------------------------
// State data kept across a transition
// ------------------------------------------------------------------------

/// Key-value pairs (values as JSON text) as plain values.
pub open spec fn pairs_view(d: Seq<(String, String)>) -> Seq<(Seq<char>, Seq<char>)> {
    d.map_values(|p: (String, String)| (p.0@, p.1@))
}

/// Index of the first pair in `d[i..]` with key `key`.
pub open spec fn first_with_key(d: Seq<(Seq<char>, Seq<char>)>, key: Seq<char>, i: int) -> Option<int>
    decreases d.len() - i,
{
    if i < 0 || i >= d.len() {
        None
    } else if d[i].0 == key {
        Some(i)
    } else {
        first_with_key(d, key, i + 1)
    }
}

/// `d` with `key` set to `value`: the pair with that key replaced, or the
/// pair appended when there is none.
pub open spec fn put_pair(d: Seq<(Seq<char>, Seq<char>)>, key: Seq<char>, value: Seq<char>) -> Seq<
    (Seq<char>, Seq<char>),
> {
    match first_with_key(d, key, 0) {
        Some(i) => d.update(i, (key, value)),
        None => d.push((key, value)),
    }
}

/// `data` with each pair of `context` set under the key `{from}.{key}`, in
/// the order of `context`.
pub open spec fn merged_under(
    data: Seq<(Seq<char>, Seq<char>)>,
    from: Seq<char>,
    context: Seq<(Seq<char>, Seq<char>)>,
) -> Seq<(Seq<char>, Seq<char>)>
    decreases context.len(),
{
    if context.len() == 0 {
        data
    } else {
        put_pair(
            merged_under(data, from, context.drop_last()),
            from + "."@ + context.last().0,
            context.last().1,
        )
    }
}

proof fn lemma_first_with_key(d: Seq<(String, String)>, key: Seq<char>, i: int)
    requires
        0 <= i <= d.len(),
    ensures
        first_with_key(pairs_view(d), key, i) == find_key_from(d, key, i),
    decreases d.len() - i,
{
    if i < d.len() {
        lemma_first_with_key(d, key, i + 1);
    }
}

/// What executing a transition keeps of the instance: it must be running;
/// it then moves to `to_state`, and each pair of the transition's context
/// is recorded in its state data under `{from_state}.{key}`.
pub fn transition_step(
    status: InstanceStatus,
    from_state: &str,
    to_state: &str,
    state_data: &Vec<(String, String)>,
    context: &Vec<(String, String)>,
) -> (r: Result<(String, Vec<(String, String)>), EngineError>)
    ensures
        (status != InstanceStatus::Running) <==> r is Err,
        r matches Err(e) ==> (e matches EngineError::ValidationError(m) && m@
            == "Cannot execute transition on workflow in state: "@ + status.debug_text()),
        r matches Ok((s, d)) ==> s@ == to_state@ && pairs_view(d@) == merged_under(
            pairs_view(state_data@),
            from_state@,
            pairs_view(context@),
        ),
{
    if status != InstanceStatus::Running {
        let s = status.debug_string();
        return Err(
            EngineError::ValidationError(
                join2("Cannot execute transition on workflow in state: ", s.as_str()),
            ),
        );
    }
    let mut data: Vec<(String, String)> = Vec::new();
    let mut j: usize = 0;
    while j < state_data.len()
        invariant
            j <= state_data@.len(),
            pairs_view(data@) == pairs_view(state_data@.take(j as int)),
        decreases state_data.len() - j,
    {
        let (k, v) = &state_data[j];
        let ghost before = data@;
        let kc = k.clone();
        let vc = v.clone();
        data.push((kc, vc));
        proof {
            assert(state_data@.take(j + 1) =~= state_data@.take(j as int).push(state_data@[j as int]));
            assert(pairs_view(data@) =~= pairs_view(before).push((k@, v@)));
            assert(pairs_view(state_data@.take(j + 1)) =~= pairs_view(state_data@.take(j as int)).push(
                (k@, v@),
            ));
        }
        j = j + 1;
    }
    assert(state_data@.take(j as int) =~= state_data@);
    let ghost ctx = pairs_view(context@);
    let mut i: usize = 0;
    while i < context.len()
        invariant
            i <= context@.len(),
            ctx == pairs_view(context@),
            pairs_view(data@) == merged_under(pairs_view(state_data@), from_state@, ctx.take(i as int)),
        decreases context.len() - i,
    {
        let (k, v) = &context[i];
        let key = join3(from_state, ".", k.as_str());
        let ghost before = data@;
        proof {
            lemma_find_key_from(data@, key@, 0);
            lemma_first_with_key(data@, key@, 0);
            assert(ctx.take(i + 1).drop_last() =~= ctx.take(i as int));
            assert(ctx.take(i + 1).last() == (k@, v@));
        }
        match find_key(&data, key.as_str()) {
            Some(x) => {
                data.set(x, (key, v.clone()));
                proof {
                    assert(pairs_view(data@) =~= pairs_view(before).update(
                        x as int,
                        (from_state@ + "."@ + k@, v@),
                    ));
                }
            },
            None => {
                data.push((key, v.clone()));
                proof {
                    assert(pairs_view(data@) =~= pairs_view(before).push((from_state@ + "."@ + k@, v@)));
                }
            },
        }
        i = i + 1;
    }
    assert(ctx.take(i as int) =~= ctx);
    Ok((to_state.to_string(), data))
}

}
