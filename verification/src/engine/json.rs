//! JSON objects as lists of members: reading and writing them goes through
//! `serde_json`; merging one object into another is the library's own.

use vstd::prelude::*;
use crate::text::str_eq;

verus! {

/// Whether `serde_json` reads `text` as a JSON value.
pub uninterp spec fn json_valid(text: Seq<char>) -> bool;

/// The members of the JSON object `text` as `serde_json` reads it, each
/// value written back as JSON text, in the order of its map; `None` when
/// the text is not JSON or not an object.
pub uninterp spec fn json_object_members(text: Seq<char>) -> Option<Seq<(Seq<char>, Seq<char>)>>;

/// The JSON text `serde_json` writes for the object with these members
/// (each value given as JSON text).
pub uninterp spec fn json_object_text(members: Seq<(Seq<char>, Seq<char>)>) -> Seq<char>;

/// The texts of a list of members.
pub open spec fn member_texts(ms: Seq<(String, String)>) -> Seq<(Seq<char>, Seq<char>)> {
    ms.map_values(|m: (String, String)| (m.0@, m.1@))
}

/// Every value of the members is JSON text.
pub open spec fn values_valid(ms: Seq<(String, String)>) -> bool {
    forall|i: int| 0 <= i < ms.len() ==> json_valid((#[trigger] ms[i]).1@)
}

/// Reads `text` with `serde_json::from_str` as a `serde_json::Value`; for
/// an object, lists its members with each value written by `to_string`.
/// Claimed: the result depends on the text alone, and each value written
/// by `to_string` is JSON text that `serde_json` reads back.
#[verifier::external_body]
fn parse_json_object(text: &str) -> (r: Option<Vec<(String, String)>>)
    ensures
        match r {
            Some(ms) => json_object_members(text@) == Some(member_texts(ms@))
                && forall|i: int| 0 <= i < ms@.len() ==> json_valid((#[trigger] ms@[i]).1@),
            None => json_object_members(text@) is None,
        },
{
    match serde_json::from_str::<serde_json::Value>(text) {
        Ok(serde_json::Value::Object(map)) => Some(map.into_iter().map(|(k, v)| (k, v.to_string())).collect()),
        Ok(_) => None,
        Err(_) => None,
    }
}

/// Reads each value with `serde_json::from_str`, collects the members into
/// a `serde_json::Map` and writes the object with `to_string`. Claimed: the
/// result depends on the members alone. Values that are not JSON text would
/// make `from_str` fail; `requires` leaves them out.
#[verifier::external_body]
fn write_json_object(ms: &Vec<(String, String)>) -> (r: String)
    requires
        values_valid(ms@),
    ensures
        r@ == json_object_text(member_texts(ms@)),
{
    let map: serde_json::Map<String, serde_json::Value> = ms
        .iter()
        .map(|(k, v)| (k.clone(), serde_json::from_str(v).unwrap()))
        .collect();
    serde_json::Value::Object(map).to_string()
}

// ------------------------------------------------------------------------
// Members and merging
// ------------------------------------------------------------------------

/// Index of the first member of `s[i..]` named `k`.
pub open spec fn find_member_from(s: Seq<(Seq<char>, Seq<char>)>, k: Seq<char>, i: int) -> Option<int>
    decreases s.len() - i,
{
    if i < 0 || i >= s.len() {
        None
    } else if s[i].0 == k {
        Some(i)
    } else {
        find_member_from(s, k, i + 1)
    }
}

/// The value of the member named `k`.
pub open spec fn member_value(s: Seq<(Seq<char>, Seq<char>)>, k: Seq<char>) -> Option<Seq<char>> {
    match find_member_from(s, k, 0) {
        Some(i) => Some(s[i].1),
        None => None,
    }
}

/// `s` with member `k` set to `v`: in its place when there is one, else last.
pub open spec fn set_member(s: Seq<(Seq<char>, Seq<char>)>, k: Seq<char>, v: Seq<char>) -> Seq<(Seq<char>, Seq<char>)> {
    match find_member_from(s, k, 0) {
        Some(i) => s.update(i, (k, v)),
        None => s.push((k, v)),
    }
}

/// The members of `c` with each member of `d` set in turn.
pub open spec fn merge_members(c: Seq<(Seq<char>, Seq<char>)>, d: Seq<(Seq<char>, Seq<char>)>) -> Seq<(Seq<char>, Seq<char>)>
    decreases d.len(),
{
    if d.len() == 0 {
        c
    } else {
        set_member(merge_members(c, d.drop_last()), d.last().0, d.last().1)
    }
}

/// The value of the last member of `d` named `k`.
pub open spec fn last_member_value(d: Seq<(Seq<char>, Seq<char>)>, k: Seq<char>) -> Option<Seq<char>>
    decreases d.len(),
{
    if d.len() == 0 {
        None
    } else if d.last().0 == k {
        Some(d.last().1)
    } else {
        last_member_value(d.drop_last(), k)
    }
}

proof fn lemma_find_member_from(s: Seq<(Seq<char>, Seq<char>)>, k: Seq<char>, i: int)
    requires
        0 <= i <= s.len(),
    ensures
        match find_member_from(s, k, i) {
            Some(j) => i <= j < s.len() && s[j].0 == k && forall|m: int| i <= m < j ==> (#[trigger] s[m]).0 != k,
            None => forall|m: int| i <= m < s.len() ==> (#[trigger] s[m]).0 != k,
        },
    decreases s.len() - i,
{
    if i < s.len() {
        lemma_find_member_from(s, k, i + 1);
    }
}

/// Lists with the same names in the same places find a name in the same place.
proof fn lemma_find_same_names(s: Seq<(Seq<char>, Seq<char>)>, t: Seq<(Seq<char>, Seq<char>)>, k: Seq<char>, i: int)
    requires
        0 <= i <= s.len(),
        s.len() == t.len(),
        forall|m: int| 0 <= m < s.len() ==> (#[trigger] s[m]).0 == t[m].0,
    ensures
        find_member_from(s, k, i) == find_member_from(t, k, i),
    decreases s.len() - i,
{
    if i < s.len() {
        lemma_find_same_names(s, t, k, i + 1);
    }
}

proof fn lemma_find_push(s: Seq<(Seq<char>, Seq<char>)>, x: (Seq<char>, Seq<char>), k: Seq<char>, i: int)
    requires
        0 <= i <= s.len(),
    ensures
        find_member_from(s.push(x), k, i) == match find_member_from(s, k, i) {
            Some(j) => Some(j),
            None => if x.0 == k { Some(s.len() as int) } else { None },
        },
    decreases s.len() - i,
{
    if i < s.len() {
        assert(s.push(x)[i] == s[i]);
        lemma_find_push(s, x, k, i + 1);
    } else {
        assert(s.push(x)[i] == x);
        assert(find_member_from(s.push(x), k, i + 1) is None);
    }
}

/// Setting a member gives it its new value and leaves every other member's value.
proof fn lemma_set_member_value(s: Seq<(Seq<char>, Seq<char>)>, k: Seq<char>, v: Seq<char>, q: Seq<char>)
    ensures
        member_value(set_member(s, k, v), q) == if q == k { Some(v) } else { member_value(s, q) },
{
    lemma_find_member_from(s, k, 0);
    lemma_find_member_from(s, q, 0);
    match find_member_from(s, k, 0) {
        Some(j) => {
            let u = s.update(j, (k, v));
            assert forall|m: int| 0 <= m < s.len() implies (#[trigger] s[m]).0 == u[m].0 by {}
            lemma_find_same_names(s, u, q, 0);
            lemma_find_member_from(u, q, 0);
        },
        None => {
            lemma_find_push(s, (k, v), q, 0);
        },
    }
}

/// Merging sets each member of the data and keeps every other member of the
/// context: a name's value after the merge is that of the last member of the
/// data of that name, or, when the data has none, its value in the context.
pub proof fn merged_members_values(c: Seq<(Seq<char>, Seq<char>)>, d: Seq<(Seq<char>, Seq<char>)>, q: Seq<char>)
    ensures
        member_value(merge_members(c, d), q) == match last_member_value(d, q) {
            Some(v) => Some(v),
            None => member_value(c, q),
        },
    decreases d.len(),
{
    if d.len() > 0 {
        merged_members_values(c, d.drop_last(), q);
        lemma_set_member_value(merge_members(c, d.drop_last()), d.last().0, d.last().1, q);
    }
}

/// Sets member `k` of `ms` to `v`.
fn put_member(ms: &mut Vec<(String, String)>, k: String, v: String)
    requires
        values_valid(old(ms)@),
        json_valid(v@),
    ensures
        member_texts(final(ms)@) == set_member(member_texts(old(ms)@), k@, v@),
        values_valid(final(ms)@),
{
    let ghost t = member_texts(ms@);
    proof {
        lemma_find_member_from(t, k@, 0);
    }
    let mut i: usize = 0;
    while i < ms.len()
        invariant
            i <= ms@.len(),
            ms@ == old(ms)@,
            t == member_texts(ms@),
            values_valid(ms@),
            json_valid(v@),
            forall|m: int| 0 <= m < i ==> (#[trigger] t[m]).0 != k@,
        decreases ms.len() - i,
    {
        if str_eq(ms[i].0.as_str(), k.as_str()) {
            proof {
                assert(t[i as int].0 == k@);
                lemma_find_member_from(t, k@, 0);
                assert(find_member_from(t, k@, 0) == Some(i as int));
            }
            let ghost vv = v@;
            ms.set(i, (k, v));
            assert(member_texts(ms@) =~= t.update(i as int, (k@, vv)));
            assert(values_valid(ms@)) by {
                assert forall|m: int| 0 <= m < ms@.len() implies json_valid((#[trigger] ms@[m]).1@) by {
                    if m != i {
                        assert(ms@[m] == old(ms)@[m]);
                    } else {
                        assert(ms@[m].1@ == vv);
                    }
                }
            }
            return;
        }
        i = i + 1;
    }
    proof {
        assert(find_member_from(t, k@, 0) is None);
    }
    ms.push((k, v));
    assert(member_texts(ms@) =~= t.push((k@, v@)));
    assert(values_valid(ms@)) by {
        assert forall|m: int| 0 <= m < ms@.len() implies json_valid((#[trigger] ms@[m]).1@) by {
            if m < old(ms)@.len() {
                assert(ms@[m] == old(ms)@[m]);
            }
        }
    }
}

/// Sets each member of `data`, in order, in `ms`.
fn merge_into(ms: &mut Vec<(String, String)>, data: &Vec<(String, String)>)
    requires
        values_valid(old(ms)@),
        values_valid(data@),
    ensures
        member_texts(final(ms)@) == merge_members(member_texts(old(ms)@), member_texts(data@)),
        values_valid(final(ms)@),
{
    let ghost c = member_texts(ms@);
    let ghost d = member_texts(data@);
    let mut i: usize = 0;
    while i < data.len()
        invariant
            i <= data@.len(),
            d == member_texts(data@),
            values_valid(data@),
            values_valid(ms@),
            member_texts(ms@) == merge_members(c, d.take(i as int)),
        decreases data.len() - i,
    {
        proof {
            assert(d.take(i + 1).drop_last() =~= d.take(i as int));
            assert(d.take(i + 1).last() == (data@[i as int].0@, data@[i as int].1@));
        }
        put_member(ms, data[i].0.clone(), data[i].1.clone());
        i = i + 1;
    }
    assert(d.take(i as int) =~= d);
}

/// The JSON text of the object `context` with the members of the object
/// `data` set in it; `context` itself when either text is not a JSON object.
pub open spec fn merged_json(context: Seq<char>, data: Seq<char>) -> Seq<char> {
    match (json_object_members(context), json_object_members(data)) {
        (Some(cm), Some(dm)) => json_object_text(merge_members(cm, dm)),
        _ => context,
    }
}

/// Sets the members of the JSON object `data` in the JSON object `context`;
/// gives `context` unchanged when either is not a JSON object.
pub fn merge_json(context: &str, data: &str) -> (r: String)
    ensures
        r@ == merged_json(context@, data@),
{
    match parse_json_object(context) {
        Some(mut cm) => match parse_json_object(data) {
            Some(dm) => {
                merge_into(&mut cm, &dm);
                write_json_object(&cm)
            },
            None => context.to_string(),
        },
        None => context.to_string(),
    }
}

}
