//! Storage keys: a type prefix followed by identifiers, big-endian numbers
//! and separators, so that keys of one kind sort together.

use vstd::prelude::*;
use vstd::string::StringSliceAdditionalSpecFns;
use vstd::string::*;
use crate::text::{decimal, decimal_text};
use crate::engine::ids::{hyphenated, Uuid, be_i64, be_u32, be_u64, push_all, push_be_i64, push_be_u32, push_str_bytes};

verus! {

/// Key prefixes for different data types
pub struct KeyPrefix;

impl KeyPrefix {
    /// `wfdef`
    pub const WORKFLOW_DEFINITION: [u8; 5] = [119, 102, 100, 101, 102];
    /// `wfinst`
    pub const WORKFLOW_INSTANCE: [u8; 6] = [119, 102, 105, 110, 115, 116];
    /// `taskq`
    pub const TASK_QUEUE: [u8; 5] = [116, 97, 115, 107, 113];
    /// `task`
    pub const TASK: [u8; 4] = [116, 97, 115, 107];
    /// `worker`
    pub const WORKER: [u8; 6] = [119, 111, 114, 107, 101, 114];
    /// `wflevt`
    pub const WORKFLOW_EVENT: [u8; 6] = [119, 102, 108, 101, 118, 116];
    /// `dlq`
    pub const DEAD_LETTER: [u8; 3] = [100, 108, 113];
    /// `wflk`
    pub const WORKFLOW_LOCK: [u8; 4] = [119, 102, 108, 107];
    /// `taskls`
    pub const TASK_LEASE: [u8; 6] = [116, 97, 115, 107, 108, 115];
    /// `workerhb`
    pub const WORKER_HEARTBEAT: [u8; 8] = [119, 111, 114, 107, 101, 114, 104, 98];
}

fn prefix_of(p: &[u8]) -> (r: Vec<u8>)
    ensures
        r@ == p@,
{
    let mut v: Vec<u8> = Vec::new();
    push_all(&mut v, p);
    assert(v@ =~= p@);
    v
}

/// Schema for workflow definitions
pub struct WorkflowDefSchema;

impl WorkflowDefSchema {
    /// Key for a specific workflow definition
    pub fn key(id: &Uuid) -> (r: Vec<u8>)
        ensures
            r@ == KeyPrefix::WORKFLOW_DEFINITION@ + id.bytes@ + seq![58u8, 100u8, 101u8, 102u8],
    {
        let mut key = prefix_of(&KeyPrefix::WORKFLOW_DEFINITION);
        push_all(&mut key, &id.bytes);
        push_all(&mut key, &[58, 100, 101, 102]);
        key
    }

    /// Key prefix for listing all workflow definitions
    pub fn list_prefix() -> (r: Vec<u8>)
        ensures
            r@ == KeyPrefix::WORKFLOW_DEFINITION@,
    {
        prefix_of(&KeyPrefix::WORKFLOW_DEFINITION)
    }

    /// Key for workflow definition by name and version
    pub fn name_version_key(name: &str, version: u32) -> (r: Vec<u8>)
        ensures
            r@ == KeyPrefix::WORKFLOW_DEFINITION@ + name.spec_bytes() + seq![0u8] + be_u32(version),
    {
        let mut key = prefix_of(&KeyPrefix::WORKFLOW_DEFINITION);
        push_str_bytes(&mut key, name);
        key.push(0);
        push_be_u32(&mut key, version);
        key
    }
}


/// Schema for workflow instances
pub struct WorkflowInstanceSchema;

impl WorkflowInstanceSchema {
    /// Key for a specific workflow instance
    pub fn key(id: &Uuid) -> (r: Vec<u8>)
        ensures
            r@ == KeyPrefix::WORKFLOW_INSTANCE@ + id.bytes@ + seq![58u8, 105u8, 110u8, 115u8, 116u8],
    {
        let mut key = prefix_of(&KeyPrefix::WORKFLOW_INSTANCE);
        push_all(&mut key, &id.bytes);
        push_all(&mut key, &[58, 105, 110, 115, 116]);
        key
    }

    /// Key prefix for instances of a specific workflow definition
    pub fn workflow_prefix(workflow_def_id: &Uuid) -> (r: Vec<u8>)
        ensures
            r@ == KeyPrefix::WORKFLOW_INSTANCE@ + workflow_def_id.bytes@ + seq![0u8],
    {
        let mut key = prefix_of(&KeyPrefix::WORKFLOW_INSTANCE);
        push_all(&mut key, &workflow_def_id.bytes);
        key.push(0);
        key
    }

    /// Key prefix for all instances
    pub fn list_prefix() -> (r: Vec<u8>)
        ensures
            r@ == KeyPrefix::WORKFLOW_INSTANCE@,
    {
        prefix_of(&KeyPrefix::WORKFLOW_INSTANCE)
    }

    /// Key for workflow lock (ensures only one worker processes an instance at a time)
    pub fn lock_key(id: &Uuid) -> (r: Vec<u8>)
        ensures
            r@ == KeyPrefix::WORKFLOW_LOCK@ + id.bytes@,
    {
        let mut key = prefix_of(&KeyPrefix::WORKFLOW_LOCK);
        push_all(&mut key, &id.bytes);
        key
    }
}

/// The nanoseconds of a time as stored in keys: what chrono's
/// `timestamp_nanos_opt` gave, or 0 when the time is out of its range.
pub open spec fn stored_nanos(nanos: Option<i64>) -> i64 {
    match nanos {
        Some(n) => n,
        None => 0,
    }
}

/// Schema for task queue (ordered by scheduled time for priority)
pub struct TaskQueueSchema;

impl TaskQueueSchema {
    /// Key for task queue entry (ordered by scheduled_at, then task_id for
    /// uniqueness); `scheduled_at_nanos` is the time's `timestamp_nanos_opt`.
    pub fn queue_key(scheduled_at_nanos: Option<i64>, task_id: &Uuid) -> (r: Vec<u8>)
        ensures
            r@ == KeyPrefix::TASK_QUEUE@ + be_i64(stored_nanos(scheduled_at_nanos)) + task_id.bytes@,
    {
        let mut key = prefix_of(&KeyPrefix::TASK_QUEUE);
        push_be_i64(&mut key, scheduled_at_nanos.unwrap_or(0));
        push_all(&mut key, &task_id.bytes);
        key
    }

    /// Key prefix for task queue
    pub fn prefix() -> (r: Vec<u8>)
        ensures
            r@ == KeyPrefix::TASK_QUEUE@,
    {
        prefix_of(&KeyPrefix::TASK_QUEUE)
    }

    /// Key for tasks ready to be processed (current timestamp or earlier)
    pub fn ready_prefix() -> (r: Vec<u8>)
        ensures
            r@ == KeyPrefix::TASK_QUEUE@,
    {
        prefix_of(&KeyPrefix::TASK_QUEUE)
    }
}

/// Schema for individual tasks
pub struct TaskSchema;

impl TaskSchema {
    /// Key for a specific task
    pub fn key(id: &Uuid) -> (r: Vec<u8>)
        ensures
            r@ == KeyPrefix::TASK@ + id.bytes@,
    {
        let mut key = prefix_of(&KeyPrefix::TASK);
        push_all(&mut key, &id.bytes);
        key
    }

    /// Key prefix for tasks of a specific workflow instance
    pub fn workflow_prefix(workflow_instance_id: &Uuid) -> (r: Vec<u8>)
        ensures
            r@ == KeyPrefix::TASK@ + workflow_instance_id.bytes@ + seq![0u8],
    {
        let mut key = prefix_of(&KeyPrefix::TASK);
        push_all(&mut key, &workflow_instance_id.bytes);
        key.push(0);
        key
    }

    /// Key prefix for tasks claimed by a specific worker
    pub fn worker_prefix(worker_id: &Uuid) -> (r: Vec<u8>)
        ensures
            r@ == KeyPrefix::TASK@ + seq![119u8, 111u8, 114u8, 107u8, 101u8, 114u8, 58u8] + worker_id.bytes@ + seq![0u8],
    {
        let mut key = prefix_of(&KeyPrefix::TASK);
        push_all(&mut key, &[119, 111, 114, 107, 101, 114, 58]);
        push_all(&mut key, &worker_id.bytes);
        key.push(0);
        key
    }

    /// Key for task lease (prevents multiple workers from claiming same task)
    pub fn lease_key(id: &Uuid) -> (r: Vec<u8>)
        ensures
            r@ == KeyPrefix::TASK_LEASE@ + id.bytes@,
    {
        let mut key = prefix_of(&KeyPrefix::TASK_LEASE);
        push_all(&mut key, &id.bytes);
        key
    }
}

/// Schema for workers
pub struct WorkerSchema;

impl WorkerSchema {
    /// Key for a specific worker
    pub fn key(id: &Uuid) -> (r: Vec<u8>)
        ensures
            r@ == KeyPrefix::WORKER@ + id.bytes@,
    {
        let mut key = prefix_of(&KeyPrefix::WORKER);
        push_all(&mut key, &id.bytes);
        key
    }

    /// Key prefix for all workers
    pub fn list_prefix() -> (r: Vec<u8>)
        ensures
            r@ == KeyPrefix::WORKER@,
    {
        prefix_of(&KeyPrefix::WORKER)
    }

    /// Key for worker heartbeat (with TTL for automatic cleanup)
    pub fn heartbeat_key(id: &Uuid) -> (r: Vec<u8>)
        ensures
            r@ == KeyPrefix::WORKER_HEARTBEAT@ + id.bytes@,
    {
        let mut key = prefix_of(&KeyPrefix::WORKER_HEARTBEAT);
        push_all(&mut key, &id.bytes);
        key
    }

    /// Key prefix for workers by capability
    pub fn capability_prefix(capability: &str) -> (r: Vec<u8>)
        ensures
            r@ == KeyPrefix::WORKER@ + seq![99u8, 97u8, 112u8, 97u8, 98u8, 105u8, 108u8, 105u8, 116u8, 121u8, 58u8] + capability.spec_bytes() + seq![0u8],
    {
        let mut key = prefix_of(&KeyPrefix::WORKER);
        push_all(&mut key, &[99, 97, 112, 97, 98, 105, 108, 105, 116, 121, 58]);
        push_str_bytes(&mut key, capability);
        key.push(0);
        key
    }
}

/// Schema for workflow events (audit log)
pub struct WorkflowEventSchema;

impl WorkflowEventSchema {
    /// Key for a specific event (ordered by timestamp for append-only log);
    /// `timestamp_nanos` is the time's `timestamp_nanos_opt`.
    pub fn key(timestamp_nanos: Option<i64>, event_id: &Uuid) -> (r: Vec<u8>)
        ensures
            r@ == KeyPrefix::WORKFLOW_EVENT@ + be_i64(stored_nanos(timestamp_nanos)) + event_id.bytes@,
    {
        let mut key = prefix_of(&KeyPrefix::WORKFLOW_EVENT);
        push_be_i64(&mut key, timestamp_nanos.unwrap_or(0));
        push_all(&mut key, &event_id.bytes);
        key
    }

    /// Key prefix for events of a specific workflow instance
    pub fn workflow_prefix(workflow_instance_id: &Uuid) -> (r: Vec<u8>)
        ensures
            r@ == KeyPrefix::WORKFLOW_EVENT@ + workflow_instance_id.bytes@ + seq![0u8],
    {
        let mut key = prefix_of(&KeyPrefix::WORKFLOW_EVENT);
        push_all(&mut key, &workflow_instance_id.bytes);
        key.push(0);
        key
    }

    /// Key prefix for all events
    pub fn list_prefix() -> (r: Vec<u8>)
        ensures
            r@ == KeyPrefix::WORKFLOW_EVENT@,
    {
        prefix_of(&KeyPrefix::WORKFLOW_EVENT)
    }
}

/// Schema for dead letter queue
pub struct DeadLetterSchema;

impl DeadLetterSchema {
    /// Key for dead letter task (ordered by dead_lettered_at); the time is
    /// given as its `timestamp_nanos_opt`.
    pub fn key(dead_lettered_at_nanos: Option<i64>, task_id: &Uuid) -> (r: Vec<u8>)
        ensures
            r@ == KeyPrefix::DEAD_LETTER@ + be_i64(stored_nanos(dead_lettered_at_nanos)) + task_id.bytes@,
    {
        let mut key = prefix_of(&KeyPrefix::DEAD_LETTER);
        push_be_i64(&mut key, dead_lettered_at_nanos.unwrap_or(0));
        push_all(&mut key, &task_id.bytes);
        key
    }

    /// Key prefix for all dead letter tasks
    pub fn list_prefix() -> (r: Vec<u8>)
        ensures
            r@ == KeyPrefix::DEAD_LETTER@,
    {
        prefix_of(&KeyPrefix::DEAD_LETTER)
    }

    /// Key prefix for dead letter tasks by original workflow
    pub fn workflow_prefix(workflow_instance_id: &Uuid) -> (r: Vec<u8>)
        ensures
            r@ == KeyPrefix::DEAD_LETTER@ + workflow_instance_id.bytes@ + seq![0u8],
    {
        let mut key = prefix_of(&KeyPrefix::DEAD_LETTER);
        push_all(&mut key, &workflow_instance_id.bytes);
        key.push(0);
        key
    }
}


/// Hashes `uuid::Uuid::from_bytes(id.bytes)`, `task_type` and `context`, in
/// that order, into a fresh `std::collections::hash_map::DefaultHasher` and
/// returns `finish()`. Nothing is claimed of the value: std leaves the
/// hasher's algorithm unspecified and its results may differ between
/// releases and platforms.
#[verifier::external_body]
fn default_hash_of(id: &Uuid, task_type: &str, context: &str) -> (r: u64) {
    let mut hasher = std::collections::hash_map::DefaultHasher::new();
    std::hash::Hash::hash(&uuid::Uuid::from_bytes(id.bytes), &mut hasher);
    std::hash::Hash::hash(task_type, &mut hasher);
    std::hash::Hash::hash(context, &mut hasher);
    std::hash::Hasher::finish(&hasher)
}

/// The current time in milliseconds since the epoch, from `chrono::Utc::now()`.
/// Nothing is claimed of the value.
#[verifier::external_body]
fn utc_now_millis() -> (r: i64) {
    chrono::Utc::now().timestamp_millis()
}

/// The expiration of a lease of `duration_ms` taken at `now_ms` (the
/// duration taken as an `i64`), or `None` when out of the range of times.
pub open spec fn lease_expiry(now_ms: i64, duration_ms: u64) -> Option<i64> {
    let t = now_ms + (duration_ms as i64);
    if i64::MIN <= t <= i64::MAX {
        Some(t as i64)
    } else {
        None
    }
}

/// The idempotency key of a task with this hash: `idem_{id}_{task_type}_{hash}`.
pub open spec fn idempotency_key_with(id: Seq<u8>, task_type: Seq<char>, hash: u64) -> Seq<char> {
    "idem_"@ + hyphenated(id) + "_"@ + task_type + "_"@ + decimal_text(hash as nat)
}

/// Every idempotency key starts with `idem_`, the instance id and the task
/// type, with underscores between and after them; the rest is the decimal
/// text of the hash.
pub proof fn idempotency_key_prefix(id: Seq<u8>, task_type: Seq<char>, hash: u64)
    ensures
        ("idem_"@ + hyphenated(id) + "_"@ + task_type + "_"@).is_prefix_of(idempotency_key_with(id, task_type, hash)),
{
    let p = "idem_"@ + hyphenated(id) + "_"@ + task_type + "_"@;
    let k = idempotency_key_with(id, task_type, hash);
    assert(k =~= p + decimal_text(hash as nat));
    assert(p.is_prefix_of(k));
}

/// Whether a lease expiring at `expires_at_ms` is still valid at `now_ms`.
pub open spec fn lease_valid_at(now_ms: i64, expires_at_ms: i64) -> bool {
    now_ms < expires_at_ms
}

/// Utility functions for working with the schema
pub struct SchemaUtils;

impl SchemaUtils {
    /// Generate a unique idempotency key for a task:
    /// `idem_{id}_{task_type}_{hash}`, where the hash is what std's
    /// `DefaultHasher` gives for the id, the task type and the context.
    pub fn generate_idempotency_key(workflow_instance_id: &Uuid, task_type: &str, context: &str) -> (r:
        String)
        ensures
            exists|hash: u64| r@ == #[trigger] idempotency_key_with(workflow_instance_id.bytes@, task_type@, hash),
    {
        let h = default_hash_of(workflow_instance_id, task_type, context);
        let mut r = String::from_str("idem_");
        let id = workflow_instance_id.to_hyphenated();
        r.append(id.as_str());
        r.append("_");
        r.append(task_type);
        r.append("_");
        let digits = decimal(h as u128);
        r.append(digits.as_str());
        assert(r@ == idempotency_key_with(workflow_instance_id.bytes@, task_type@, h));
        r
    }

    /// The expiration of a lease of `duration_ms` taken at `now_ms` (the
    /// duration taken as an `i64`, as `duration_ms as i64` does), or `None`
    /// when the sum is out of the range of times.
    pub fn lease_expiration_from(now_ms: i64, duration_ms: u64) -> (r: Option<i64>)
        ensures
            match r {
                Some(t) => t == now_ms + (duration_ms as i64),
                None => now_ms + (duration_ms as i64) > i64::MAX || now_ms + (duration_ms as i64)
                    < i64::MIN,
            },
    {
        now_ms.checked_add(duration_ms as i64)
    }

    /// Calculate lease expiration time from now, in milliseconds since the
    /// epoch (`None` when out of range): what `lease_expiration_from` gives
    /// for the time the clock read.
    pub fn lease_expiration_time(duration_ms: u64) -> (r: Option<i64>)
        ensures
            exists|now_ms: i64| r == lease_expiry(now_ms, duration_ms),
    {
        let now_ms = utc_now_millis();
        let r = Self::lease_expiration_from(now_ms, duration_ms);
        assert(r == lease_expiry(now_ms, duration_ms));
        r
    }

    /// Whether a lease expiring at `expires_at_ms` is still valid at `now_ms`.
    pub fn is_lease_valid_at(now_ms: i64, expires_at_ms: i64) -> (r: bool)
        ensures
            r == (now_ms < expires_at_ms),
    {
        now_ms < expires_at_ms
    }

    /// Check if a lease is still valid now: whether the time the clock read
    /// comes before the expiry.
    pub fn is_lease_valid(expires_at_ms: i64) -> (r: bool)
        ensures
            exists|now_ms: i64| r == #[trigger] lease_valid_at(now_ms, expires_at_ms),
    {
        let now_ms = utc_now_millis();
        let r = Self::is_lease_valid_at(now_ms, expires_at_ms);
        assert(r == lease_valid_at(now_ms, expires_at_ms));
        r
    }
}

}

verus! {

/// Whether `a` comes before `b` in lexicographic byte order (the order of
/// `Vec<u8>`, and of keys in the store).
pub open spec fn lex_less(a: Seq<u8>, b: Seq<u8>) -> bool
    decreases a.len(),
{
    if a.len() == 0 {
        b.len() > 0
    } else if b.len() == 0 {
        false
    } else if a[0] < b[0] {
        true
    } else if a[0] > b[0] {
        false
    } else {
        lex_less(a.drop_first(), b.drop_first())
    }
}

pub(crate) proof fn lemma_lex_common_prefix(p: Seq<u8>, a: Seq<u8>, b: Seq<u8>)
    ensures
        lex_less(p + a, p + b) == lex_less(a, b),
    decreases p.len(),
{
    if p.len() > 0 {
        assert((p + a).drop_first() =~= p.drop_first() + a);
        assert((p + b).drop_first() =~= p.drop_first() + b);
        lemma_lex_common_prefix(p.drop_first(), a, b);
    } else {
        assert(p + a =~= a);
        assert(p + b =~= b);
    }
}

pub(crate) proof fn lemma_lex_first_difference(a: Seq<u8>, b: Seq<u8>, k: int)
    requires
        0 <= k < a.len(),
        k < b.len(),
        forall|i: int| 0 <= i < k ==> a[i] == b[i],
        a[k] < b[k],
    ensures
        lex_less(a, b),
    decreases k,
{
    if k > 0 {
        assert(a[0] == b[0]);
        lemma_lex_first_difference(a.drop_first(), b.drop_first(), k - 1);
    }
}

proof fn lemma_be_digit_0(x: u64, y: u64)
    by (bit_vector)
    requires
        x < y,
    ensures
        (x / 0x100000000000000 % 256) <= (y / 0x100000000000000 % 256),
{
}

proof fn lemma_be_digit_1(x: u64, y: u64)
    by (bit_vector)
    requires
        x < y,
        (x / 0x100000000000000 % 256) == (y / 0x100000000000000 % 256),
    ensures
        (x / 0x1000000000000 % 256) <= (y / 0x1000000000000 % 256),
{
}

proof fn lemma_be_digit_2(x: u64, y: u64)
    by (bit_vector)
    requires
        x < y,
        (x / 0x100000000000000 % 256) == (y / 0x100000000000000 % 256),
        (x / 0x1000000000000 % 256) == (y / 0x1000000000000 % 256),
    ensures
        (x / 0x10000000000 % 256) <= (y / 0x10000000000 % 256),
{
}

proof fn lemma_be_digit_3(x: u64, y: u64)
    by (bit_vector)
    requires
        x < y,
        (x / 0x100000000000000 % 256) == (y / 0x100000000000000 % 256),
        (x / 0x1000000000000 % 256) == (y / 0x1000000000000 % 256),
        (x / 0x10000000000 % 256) == (y / 0x10000000000 % 256),
    ensures
        (x / 0x100000000 % 256) <= (y / 0x100000000 % 256),
{
}

proof fn lemma_be_digit_4(x: u64, y: u64)
    by (bit_vector)
    requires
        x < y,
        (x / 0x100000000000000 % 256) == (y / 0x100000000000000 % 256),
        (x / 0x1000000000000 % 256) == (y / 0x1000000000000 % 256),
        (x / 0x10000000000 % 256) == (y / 0x10000000000 % 256),
        (x / 0x100000000 % 256) == (y / 0x100000000 % 256),
    ensures
        (x / 0x1000000 % 256) <= (y / 0x1000000 % 256),
{
}

proof fn lemma_be_digit_5(x: u64, y: u64)
    by (bit_vector)
    requires
        x < y,
        (x / 0x100000000000000 % 256) == (y / 0x100000000000000 % 256),
        (x / 0x1000000000000 % 256) == (y / 0x1000000000000 % 256),
        (x / 0x10000000000 % 256) == (y / 0x10000000000 % 256),
        (x / 0x100000000 % 256) == (y / 0x100000000 % 256),
        (x / 0x1000000 % 256) == (y / 0x1000000 % 256),
    ensures
        (x / 0x10000 % 256) <= (y / 0x10000 % 256),
{
}

proof fn lemma_be_digit_6(x: u64, y: u64)
    by (bit_vector)
    requires
        x < y,
        (x / 0x100000000000000 % 256) == (y / 0x100000000000000 % 256),
        (x / 0x1000000000000 % 256) == (y / 0x1000000000000 % 256),
        (x / 0x10000000000 % 256) == (y / 0x10000000000 % 256),
        (x / 0x100000000 % 256) == (y / 0x100000000 % 256),
        (x / 0x1000000 % 256) == (y / 0x1000000 % 256),
        (x / 0x10000 % 256) == (y / 0x10000 % 256),
    ensures
        (x / 0x100 % 256) <= (y / 0x100 % 256),
{
}

proof fn lemma_be_digit_7(x: u64, y: u64)
    by (bit_vector)
    requires
        x < y,
        (x / 0x100000000000000 % 256) == (y / 0x100000000000000 % 256),
        (x / 0x1000000000000 % 256) == (y / 0x1000000000000 % 256),
        (x / 0x10000000000 % 256) == (y / 0x10000000000 % 256),
        (x / 0x100000000 % 256) == (y / 0x100000000 % 256),
        (x / 0x1000000 % 256) == (y / 0x1000000 % 256),
        (x / 0x10000 % 256) == (y / 0x10000 % 256),
        (x / 0x100 % 256) == (y / 0x100 % 256),
    ensures
        (x % 256) <= (y % 256),
{
}

proof fn lemma_be_digits_equal(x: u64, y: u64)
    by (bit_vector)
    requires
        (x / 0x100000000000000 % 256) == (y / 0x100000000000000 % 256),
        (x / 0x1000000000000 % 256) == (y / 0x1000000000000 % 256),
        (x / 0x10000000000 % 256) == (y / 0x10000000000 % 256),
        (x / 0x100000000 % 256) == (y / 0x100000000 % 256),
        (x / 0x1000000 % 256) == (y / 0x1000000 % 256),
        (x / 0x10000 % 256) == (y / 0x10000 % 256),
        (x / 0x100 % 256) == (y / 0x100 % 256),
        (x % 256) == (y % 256),
    ensures
        x == y,
{
}

pub(crate) proof fn lemma_be_u64_less(x: u64, y: u64, s: Seq<u8>, t: Seq<u8>)
    requires
        x < y,
    ensures
        lex_less(be_u64(x) + s, be_u64(y) + t),
{
    let a = be_u64(x) + s;
    let b = be_u64(y) + t;
    assert(forall|i: int| 0 <= i < 8 ==> a[i] == be_u64(x)[i] && b[i] == be_u64(y)[i]);
    lemma_be_digit_0(x, y);
    if (x / 0x100000000000000 % 256) != (y / 0x100000000000000 % 256) {
        lemma_lex_first_difference(a, b, 0);
    } else {
        lemma_be_digit_1(x, y);
        if (x / 0x1000000000000 % 256) != (y / 0x1000000000000 % 256) {
            lemma_lex_first_difference(a, b, 1);
        } else {
            lemma_be_digit_2(x, y);
            if (x / 0x10000000000 % 256) != (y / 0x10000000000 % 256) {
                lemma_lex_first_difference(a, b, 2);
            } else {
                lemma_be_digit_3(x, y);
                if (x / 0x100000000 % 256) != (y / 0x100000000 % 256) {
                    lemma_lex_first_difference(a, b, 3);
                } else {
                    lemma_be_digit_4(x, y);
                    if (x / 0x1000000 % 256) != (y / 0x1000000 % 256) {
                        lemma_lex_first_difference(a, b, 4);
                    } else {
                        lemma_be_digit_5(x, y);
                        if (x / 0x10000 % 256) != (y / 0x10000 % 256) {
                            lemma_lex_first_difference(a, b, 5);
                        } else {
                            lemma_be_digit_6(x, y);
                            if (x / 0x100 % 256) != (y / 0x100 % 256) {
                                lemma_lex_first_difference(a, b, 6);
                            } else {
                                lemma_be_digit_7(x, y);
                                if (x % 256) != (y % 256) {
                                    lemma_lex_first_difference(a, b, 7);
                                } else {
                                    lemma_be_digits_equal(x, y);
                                }
                            }
                        }
                    }
                }
            }
        }
    }
}

/// Queue keys sort by scheduled time: a task scheduled earlier (at a time
/// not before the epoch) has a smaller key, whatever the task ids.
pub proof fn queue_keys_follow_time(t1: i64, t2: i64, id1: Uuid, id2: Uuid)
    requires
        0 <= t1 < t2,
    ensures
        lex_less(
            KeyPrefix::TASK_QUEUE@ + be_i64(stored_nanos(Some(t1))) + id1.bytes@,
            KeyPrefix::TASK_QUEUE@ + be_i64(stored_nanos(Some(t2))) + id2.bytes@,
        ),
{
    let p = KeyPrefix::TASK_QUEUE@;
    assert(t1 as u64 == t1);
    assert(t2 as u64 == t2);
    lemma_be_u64_less(t1 as u64, t2 as u64, id1.bytes@, id2.bytes@);
    assert(p + be_i64(t1) + id1.bytes@ =~= p + (be_u64(t1 as u64) + id1.bytes@));
    assert(p + be_i64(t2) + id2.bytes@ =~= p + (be_u64(t2 as u64) + id2.bytes@));
    lemma_lex_common_prefix(p, be_u64(t1 as u64) + id1.bytes@, be_u64(t2 as u64) + id2.bytes@);
}

/// Every definition or instance key starts with its kind's list prefix, and
/// two different ids never share a key.
pub proof fn keys_start_with_their_prefix(id1: Uuid, id2: Uuid)
    ensures
        KeyPrefix::WORKFLOW_DEFINITION@.is_prefix_of(KeyPrefix::WORKFLOW_DEFINITION@ + id1.bytes@ + seq![58u8, 100u8, 101u8, 102u8]),
        KeyPrefix::WORKFLOW_INSTANCE@.is_prefix_of(KeyPrefix::WORKFLOW_INSTANCE@ + id1.bytes@ + seq![58u8, 105u8, 110u8, 115u8, 116u8]),
        id1 != id2 ==> KeyPrefix::WORKFLOW_DEFINITION@ + id1.bytes@ + seq![58u8, 100u8, 101u8, 102u8]
            != KeyPrefix::WORKFLOW_DEFINITION@ + id2.bytes@ + seq![58u8, 100u8, 101u8, 102u8],
        id1 != id2 ==> KeyPrefix::TASK@ + id1.bytes@ != KeyPrefix::TASK@ + id2.bytes@,
{
    let d = KeyPrefix::WORKFLOW_DEFINITION@;
    let w = KeyPrefix::WORKFLOW_INSTANCE@;
    assert(d.is_prefix_of(d + id1.bytes@ + seq![58u8, 100u8, 101u8, 102u8]));
    assert(w.is_prefix_of(w + id1.bytes@ + seq![58u8, 105u8, 110u8, 115u8, 116u8]));
    if id1 != id2 {
        broadcast use vstd::array::axiom_array_ext_equal;
        assert(!(id1.bytes =~= id2.bytes));
        let i = choose|i: int| 0 <= i < 16 && id1.bytes@[i] != id2.bytes@[i];
        let k1 = d + id1.bytes@ + seq![58u8, 100u8, 101u8, 102u8];
        let k2 = d + id2.bytes@ + seq![58u8, 100u8, 101u8, 102u8];
        assert(k1[5 + i] == id1.bytes@[i]);
        assert(k2[5 + i] == id2.bytes@[i]);
        let t = KeyPrefix::TASK@;
        assert((t + id1.bytes@)[4 + i] != (t + id2.bytes@)[4 + i]);
    }
}

}
