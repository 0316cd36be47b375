//! Storage helpers: the in-memory key-value store that scripts use, and the
//! key layout of the workflow storage.

use vstd::prelude::*;
use vstd::hash_map::StringHashMap;
use crate::engine::ids::{push_all, be_i64, be_u32, be_u64, push_be_i64, push_be_u32, push_str_bytes};
use crate::engine::keys::{lex_less, lemma_lex_common_prefix, lemma_lex_first_difference, lemma_be_u64_less};
use crate::engine::model::Task;
use vstd::utf8::encode_utf8;

verus! {

fn copy_bytes(v: &Vec<u8>) -> (r: Vec<u8>)
    ensures
        r@ == v@,
{
    let mut r: Vec<u8> = Vec::new();
    push_all(&mut r, v.as_slice());
    assert(r@ =~= v@);
    r
}

/// Simple in-memory key-value store
pub struct KvStore {
    data: StringHashMap<Vec<u8>>,
}

impl View for KvStore {
    type V = Map<Seq<char>, Seq<u8>>;

    closed spec fn view(&self) -> Map<Seq<char>, Seq<u8>> {
        Map::new(|k: Seq<char>| self.data@.contains_key(k), |k: Seq<char>| self.data@[k]@)
    }
}

impl KvStore {
    /// An empty store.
    pub fn new() -> (r: Self)
        ensures
            r@ == Map::<Seq<char>, Seq<u8>>::empty(),
    {
        let r = KvStore { data: StringHashMap::new() };
        assert(r@ =~= Map::<Seq<char>, Seq<u8>>::empty());
        r
    }

    /// The value stored under `key`.
    pub fn get(&self, key: &str) -> (r: Option<Vec<u8>>)
        ensures
            match r {
                Some(v) => self@.contains_key(key@) && v@ == self@[key@],
                None => !self@.contains_key(key@),
            },
    {
        match self.data.get(key) {
            Some(v) => Some(copy_bytes(v)),
            None => None,
        }
    }

    /// Stores `value` under `key`, replacing what was there.
    pub fn set(&mut self, key: String, value: Vec<u8>)
        ensures
            final(self)@ == old(self)@.insert(key@, value@),
    {
        self.data.insert(key, value);
        assert(self@ =~= old(self)@.insert(key@, value@));
    }

    /// The number of keys stored.
    pub fn size(&self) -> (r: usize)
        ensures
            r == self@.len(),
    {
        proof {
            assert(self@.dom() =~= self.data@.dom());
        }
        self.data.len()
    }
}

/// A read after a write gives back what was written, and a write leaves the
/// other keys alone.
pub proof fn kv_read_after_write(before: Map<Seq<char>, Seq<u8>>, key: Seq<char>, value: Seq<u8>, other: Seq<char>)
    requires
        other != key,
    ensures
        before.insert(key, value).contains_key(key),
        before.insert(key, value)[key] == value,
        before.insert(key, value).contains_key(other) == before.contains_key(other),
        before.contains_key(other) ==> before.insert(key, value)[other] == before[other],
{
}

/// A store after writing each of `writes` in order.
pub open spec fn after_writes(before: Map<Seq<char>, Seq<u8>>, writes: Seq<(Seq<char>, Seq<u8>)>) -> Map<Seq<char>, Seq<u8>>
    decreases writes.len(),
{
    if writes.len() == 0 {
        before
    } else {
        after_writes(before, writes.drop_last()).insert(writes.last().0, writes.last().1)
    }
}

/// The value of the last of `writes` under `key`.
pub open spec fn last_write(writes: Seq<(Seq<char>, Seq<u8>)>, key: Seq<char>) -> Option<Seq<u8>>
    decreases writes.len(),
{
    if writes.len() == 0 {
        None
    } else if writes.last().0 == key {
        Some(writes.last().1)
    } else {
        last_write(writes.drop_last(), key)
    }
}

/// The keys of `writes`.
pub open spec fn written_keys(writes: Seq<(Seq<char>, Seq<u8>)>) -> Set<Seq<char>> {
    writes.map_values(|w: (Seq<char>, Seq<u8>)| w.0).to_set()
}

/// After a sequence of writes to a new store, a key holds the value of its
/// last write and a key never written holds nothing; the store's size is
/// the number of distinct keys written.
pub proof fn kv_writes_from_empty(writes: Seq<(Seq<char>, Seq<u8>)>, key: Seq<char>)
    ensures
        after_writes(Map::empty(), writes).dom() == written_keys(writes),
        after_writes(Map::empty(), writes).len() == written_keys(writes).len(),
        match last_write(writes, key) {
            Some(v) => after_writes(Map::empty(), writes).contains_key(key)
                && after_writes(Map::empty(), writes)[key] == v,
            None => !after_writes(Map::empty(), writes).contains_key(key),
        },
    decreases writes.len(),
{
    if writes.len() > 0 {
        let d = writes.drop_last();
        kv_writes_from_empty(d, key);
        assert(written_keys(writes) =~= written_keys(d).insert(writes.last().0)) by {
            let ks = writes.map_values(|w: (Seq<char>, Seq<u8>)| w.0);
            let kd = d.map_values(|w: (Seq<char>, Seq<u8>)| w.0);
            assert(ks =~= kd.push(writes.last().0));
            kd.lemma_push_to_set_commute(writes.last().0);
        }
    } else {
        assert(written_keys(writes) =~= Set::<Seq<char>>::empty());
    }
    assert(after_writes(Map::empty(), writes).dom() =~= written_keys(writes));
}

/// The prefix of every key of the workflow storage.
pub open spec fn storage_prefix() -> Seq<u8> {
    seq![47u8, 100u8, 101u8, 103u8, 111u8, 118u8, 47u8, 119u8, 111u8, 114u8, 107u8, 102u8, 108u8, 111u8, 119u8, 47u8]
}

/// `parts` joined with `/`.
pub open spec fn joined_parts(parts: Seq<Seq<u8>>) -> Seq<u8>
    decreases parts.len(),
{
    if parts.len() == 0 {
        seq![]
    } else if parts.len() == 1 {
        parts[0]
    } else {
        joined_parts(parts.drop_last()) + seq![47u8] + parts.last()
    }
}

/// A key of the workflow storage: its prefix `/degov/workflow/`, then the
/// parts joined with `/`.
pub fn storage_key(parts: &Vec<Vec<u8>>) -> (r: Vec<u8>)
    ensures
        r@ == storage_prefix() + joined_parts(parts@.map_values(|p: Vec<u8>| p@)),
{
    let mut k: Vec<u8> = Vec::new();
    push_all(&mut k, &[47, 100, 101, 103, 111, 118, 47, 119, 111, 114, 107, 102, 108, 111, 119, 47]);
    assert(k@ =~= storage_prefix());
    let ghost ps = parts@.map_values(|p: Vec<u8>| p@);
    let mut i: usize = 0;
    while i < parts.len()
        invariant
            i <= parts@.len(),
            ps == parts@.map_values(|p: Vec<u8>| p@),
            k@ == storage_prefix() + joined_parts(ps.take(i as int)),
        decreases parts.len() - i,
    {
        assert(ps.take(i + 1).drop_last() =~= ps.take(i as int));
        if i > 0 {
            k.push(47);
        }
        push_all(&mut k, parts[i].as_slice());
        proof {
            assert(ps.take(i + 1).last() == parts@[i as int]@);
            if i == 0 {
                assert(joined_parts(ps.take(0)) =~= seq![]);
            }
        }
        i = i + 1;
    }
    assert(ps.take(i as int) =~= ps);
    k
}

/// The exclusive end of the range of keys that start with `prefix`: the
/// prefix with its last byte increased by one (wrapping at 255).
pub fn range_end(prefix: &Vec<u8>) -> (r: Vec<u8>)
    ensures
        prefix@.len() == 0 ==> r@ == prefix@,
        prefix@.len() > 0 ==> r@ == prefix@.drop_last().push(
            (if prefix@.last() == 255 { 0 } else { prefix@.last() + 1 }) as u8,
        ),
{
    let mut end = copy_bytes(prefix);
    let n = end.len();
    if n > 0 {
        let last = end[n - 1];
        let next: u8 = if last == 255 { 0 } else { last + 1 };
        end.set(n - 1, next);
        assert(end@ =~= prefix@.drop_last().push(next));
    }
    end
}


// ------------------------------------------------------------------------
// Task keys
// ------------------------------------------------------------------------

/// The big-endian two's-complement bytes of `x`, as `i32::to_be_bytes` gives them.
pub open spec fn be_i32(x: i32) -> Seq<u8> {
    be_u32(x as u32)
}

/// The bytes of `tasks`.
pub open spec fn tasks_part() -> Seq<u8> {
    seq![116u8, 97u8, 115u8, 107u8, 115u8]
}

/// The bytes of `task_by_id`.
pub open spec fn task_by_id_part() -> Seq<u8> {
    seq![116u8, 97u8, 115u8, 107u8, 95u8, 98u8, 121u8, 95u8, 105u8, 100u8]
}

/// The key of a task in the priority queue:
/// `/degov/workflow/tasks/{-priority}/{scheduled_at}/{task_id}`, the numbers
/// as big-endian bytes, so that a scan of the queue meets higher priorities
/// first and, within one priority, earlier times first.
pub open spec fn task_queue_key_of(priority: i32, scheduled_at: i64, task_id: Seq<char>) -> Seq<u8> {
    storage_prefix() + joined_parts(
        seq![tasks_part(), be_i32((-priority) as i32), be_i64(scheduled_at), encode_utf8(task_id)],
    )
}

/// The key under which a task is found by its id: `/degov/workflow/task_by_id/{task_id}`.
pub open spec fn task_by_id_key_of(task_id: Seq<char>) -> Seq<u8> {
    storage_prefix() + joined_parts(seq![task_by_id_part(), encode_utf8(task_id)])
}

proof fn lemma_joined_two(a: Seq<u8>, b: Seq<u8>)
    ensures
        joined_parts(seq![a, b]) == a + seq![47u8] + b,
{
    assert(seq![a, b].drop_last() =~= seq![a]);
    assert(joined_parts(seq![a]) == a);
    assert(seq![a, b].last() == b);
}

proof fn lemma_joined_four(a: Seq<u8>, b: Seq<u8>, c: Seq<u8>, d: Seq<u8>)
    ensures
        joined_parts(seq![a, b, c, d]) == a + seq![47u8] + b + seq![47u8] + c + seq![47u8] + d,
{
    assert(seq![a, b, c, d].drop_last() =~= seq![a, b, c]);
    assert(seq![a, b, c].drop_last() =~= seq![a, b]);
    lemma_joined_two(a, b);
    assert(seq![a, b, c].last() == c);
    assert(joined_parts(seq![a, b, c]) == a + seq![47u8] + b + seq![47u8] + c);
    assert(seq![a, b, c, d].last() == d);
}

/// The queue key of `task` (whose priority can be negated).
pub fn task_queue_key(task: &Task) -> (r: Vec<u8>)
    requires
        task.priority > i32::MIN,
    ensures
        r@ == task_queue_key_of(task.priority, task.scheduled_at, task.task_id@),
{
    let mut name: Vec<u8> = Vec::new();
    push_all(&mut name, &[116, 97, 115, 107, 115]);
    let mut priority: Vec<u8> = Vec::new();
    let negated: i32 = -task.priority;
    push_be_u32(&mut priority, negated as u32);
    let mut scheduled: Vec<u8> = Vec::new();
    push_be_i64(&mut scheduled, task.scheduled_at);
    let mut id: Vec<u8> = Vec::new();
    push_str_bytes(&mut id, task.task_id.as_str());
    let mut parts: Vec<Vec<u8>> = Vec::new();
    parts.push(name);
    parts.push(priority);
    parts.push(scheduled);
    parts.push(id);
    let r = storage_key(&parts);
    proof {
        assert(parts@.map_values(|p: Vec<u8>| p@) =~= seq![
            tasks_part(),
            be_i32((-task.priority) as i32),
            be_i64(task.scheduled_at),
            encode_utf8(task.task_id@),
        ]);
    }
    r
}

/// The by-id key of the task with id `task_id`.
pub fn task_by_id_key(task_id: &str) -> (r: Vec<u8>)
    ensures
        r@ == task_by_id_key_of(task_id@),
{
    let mut name: Vec<u8> = Vec::new();
    push_all(&mut name, &[116, 97, 115, 107, 95, 98, 121, 95, 105, 100]);
    let mut id: Vec<u8> = Vec::new();
    push_str_bytes(&mut id, task_id);
    let mut parts: Vec<Vec<u8>> = Vec::new();
    parts.push(name);
    parts.push(id);
    let r = storage_key(&parts);
    proof {
        assert(parts@.map_values(|p: Vec<u8>| p@) =~= seq![task_by_id_part(), encode_utf8(task_id@)]);
    }
    r
}

proof fn lemma_be32_digit_0(x: u32, y: u32)
    by (bit_vector)
    requires
        x < y,
    ensures
        (x / 0x1000000 % 256) <= (y / 0x1000000 % 256),
{
}

proof fn lemma_be32_digit_1(x: u32, y: u32)
    by (bit_vector)
    requires
        x < y,
        (x / 0x1000000 % 256) == (y / 0x1000000 % 256),
    ensures
        (x / 0x10000 % 256) <= (y / 0x10000 % 256),
{
}

proof fn lemma_be32_digit_2(x: u32, y: u32)
    by (bit_vector)
    requires
        x < y,
        (x / 0x1000000 % 256) == (y / 0x1000000 % 256),
        (x / 0x10000 % 256) == (y / 0x10000 % 256),
    ensures
        (x / 0x100 % 256) <= (y / 0x100 % 256),
{
}

proof fn lemma_be32_digit_3(x: u32, y: u32)
    by (bit_vector)
    requires
        x < y,
        (x / 0x1000000 % 256) == (y / 0x1000000 % 256),
        (x / 0x10000 % 256) == (y / 0x10000 % 256),
        (x / 0x100 % 256) == (y / 0x100 % 256),
    ensures
        (x % 256) < (y % 256),
{
}

proof fn lemma_be_u32_less(x: u32, y: u32, s: Seq<u8>, t: Seq<u8>)
    requires
        x < y,
    ensures
        lex_less(be_u32(x) + s, be_u32(y) + t),
{
    let a = be_u32(x) + s;
    let b = be_u32(y) + t;
    assert(forall|i: int| 0 <= i < 4 ==> a[i] == be_u32(x)[i] && b[i] == be_u32(y)[i]);
    lemma_be32_digit_0(x, y);
    if (x / 0x1000000 % 256) != (y / 0x1000000 % 256) {
        lemma_lex_first_difference(a, b, 0);
    } else {
        lemma_be32_digit_1(x, y);
        if (x / 0x10000 % 256) != (y / 0x10000 % 256) {
            lemma_lex_first_difference(a, b, 1);
        } else {
            lemma_be32_digit_2(x, y);
            if (x / 0x100 % 256) != (y / 0x100 % 256) {
                lemma_lex_first_difference(a, b, 2);
            } else {
                lemma_be32_digit_3(x, y);
                lemma_lex_first_difference(a, b, 3);
            }
        }
    }
}

proof fn lemma_negated_order(p1: i32, p2: i32)
    by (bit_vector)
    requires
        i32::MIN < p2 < p1,
        (p1 > 0) == (p2 > 0),
    ensures
        (((-p1) as i32) as u32) < (((-p2) as i32) as u32),
{
}

/// A scan of the queue meets a task of higher priority before one of lower
/// priority, whatever their times and ids, when both priorities are
/// positive or both are not.
pub proof fn queue_keys_follow_priority(p1: i32, p2: i32, s1: i64, s2: i64, id1: Seq<char>, id2: Seq<char>)
    requires
        i32::MIN < p2 < p1,
        (p1 > 0) == (p2 > 0),
    ensures
        lex_less(task_queue_key_of(p1, s1, id1), task_queue_key_of(p2, s2, id2)),
{
    let c = storage_prefix() + tasks_part() + seq![47u8];
    let r1 = seq![47u8] + be_i64(s1) + seq![47u8] + encode_utf8(id1);
    let r2 = seq![47u8] + be_i64(s2) + seq![47u8] + encode_utf8(id2);
    let x1 = ((-p1) as i32) as u32;
    let x2 = ((-p2) as i32) as u32;
    lemma_joined_four(tasks_part(), be_i32((-p1) as i32), be_i64(s1), encode_utf8(id1));
    lemma_joined_four(tasks_part(), be_i32((-p2) as i32), be_i64(s2), encode_utf8(id2));
    assert(task_queue_key_of(p1, s1, id1) =~= c + (be_u32(x1) + r1));
    assert(task_queue_key_of(p2, s2, id2) =~= c + (be_u32(x2) + r2));
    lemma_negated_order(p1, p2);
    lemma_be_u32_less(x1, x2, r1, r2);
    lemma_lex_common_prefix(c, be_u32(x1) + r1, be_u32(x2) + r2);
}

/// Within one priority, a scan of the queue meets a task scheduled earlier
/// (at a time not before the epoch) before one scheduled later, whatever
/// their ids.
pub proof fn queue_keys_follow_schedule(p: i32, s1: i64, s2: i64, id1: Seq<char>, id2: Seq<char>)
    requires
        p > i32::MIN,
        0 <= s1 < s2,
    ensures
        lex_less(task_queue_key_of(p, s1, id1), task_queue_key_of(p, s2, id2)),
{
    let c = storage_prefix() + tasks_part() + seq![47u8] + be_i32((-p) as i32) + seq![47u8];
    let r1 = seq![47u8] + encode_utf8(id1);
    let r2 = seq![47u8] + encode_utf8(id2);
    lemma_joined_four(tasks_part(), be_i32((-p) as i32), be_i64(s1), encode_utf8(id1));
    lemma_joined_four(tasks_part(), be_i32((-p) as i32), be_i64(s2), encode_utf8(id2));
    assert(task_queue_key_of(p, s1, id1) =~= c + (be_u64(s1 as u64) + r1));
    assert(task_queue_key_of(p, s2, id2) =~= c + (be_u64(s2 as u64) + r2));
    lemma_be_u64_less(s1 as u64, s2 as u64, r1, r2);
    lemma_lex_common_prefix(c, be_u64(s1 as u64) + r1, be_u64(s2 as u64) + r2);
}

}
