//! Model inheritance: a dependency graph of data models (an edge goes from a
//! model to each model it inherits from), its cycles and topological order
//! (computed by `petgraph`), and the resolution of a model against its
//! already resolved parents.

use vstd::prelude::*;
use crate::dsl::model::{DataModel, Index, Property, ComputedField, same_property, same_metadata, same_model, lemma_cloned_property};
use crate::dsl::schema::{find_key, find_key_from, has_key, insert_key, insert_pair, lookup_key, lemma_find_key_from, lemma_lookup_key};
use crate::text::{join2, str_eq};

verus! {

// ------------------------------------------------------------------------
// Resolving a model against its parents
// ------------------------------------------------------------------------

/// Where a merged item comes from: the parent at a position of the
/// model's `inherits` list, or the model itself.
#[derive(Debug, Clone, Copy, PartialEq, Eq, Structural)]
pub enum Origin {
    Parent(usize),
    Own,
}

/// An item of a merged list: its origin and its position in that model's list.
#[derive(Debug, Clone, Copy, PartialEq, Eq, Structural)]
pub struct Pick {
    pub origin: Origin,
    pub index: usize,
}

/// `names`, each tagged with `origin` and its position.
pub open spec fn tagged(names: Seq<String>, origin: Origin) -> Seq<(String, Pick)> {
    Seq::new(names.len(), |k: int| (names[k], Pick { origin, index: k as usize }))
}

/// `acc` with each of `items` appended unless an item of its name is
/// already there: the first of a name wins.
pub open spec fn with_absent(acc: Seq<(String, Pick)>, items: Seq<(String, Pick)>) -> Seq<(String, Pick)>
    decreases items.len(),
{
    if items.len() == 0 {
        acc
    } else {
        let a = with_absent(acc, items.drop_last());
        if has_key(a, items.last().0@) {
            a
        } else {
            a.push(items.last())
        }
    }
}

/// `acc` with each of `items` inserted as into an ordered map: an item
/// replaces the entry of its name in place, else it is appended.
pub open spec fn with_overrides(acc: Seq<(String, Pick)>, items: Seq<(String, Pick)>) -> Seq<(String, Pick)>
    decreases items.len(),
{
    if items.len() == 0 {
        acc
    } else {
        let a = with_overrides(acc, items.drop_last());
        insert_key(a, items.last().0, items.last().1)
    }
}

/// `acc` with each of `items` added after removing every entry of its name.
pub open spec fn with_replacements(acc: Seq<(String, Pick)>, items: Seq<(String, Pick)>) -> Seq<(String, Pick)>
    decreases items.len(),
{
    if items.len() == 0 {
        acc
    } else {
        let a = with_replacements(acc, items.drop_last());
        let item = items.last();
        a.filter(|e: (String, Pick)| e.0@ != item.0@).push(item)
    }
}

/// Whether a string with the characters of `s` is in `names`.
pub open spec fn contains_name(names: Seq<String>, s: Seq<char>) -> bool {
    exists|i: int| 0 <= i < names.len() && #[trigger] names[i]@ == s
}

/// `acc` with each of `items` appended unless an equal string is already there.
pub open spec fn with_new_names(acc: Seq<String>, items: Seq<String>) -> Seq<String>
    decreases items.len(),
{
    if items.len() == 0 {
        acc
    } else {
        let a = with_new_names(acc, items.drop_last());
        if contains_name(a, items.last()@) {
            a
        } else {
            a.push(items.last())
        }
    }
}

/// The names of a list of named entries.
pub open spec fn entry_names<V>(entries: Seq<(String, V)>) -> Seq<String> {
    entries.map_values(|e: (String, V)| e.0)
}

/// The names of a list of indexes.
pub open spec fn index_names(indexes: Seq<Index>) -> Seq<String> {
    indexes.map_values(|i: Index| i.name)
}

/// The first `j` parents' lists merged, the first of a name winning.
pub open spec fn parents_merged(parents: Seq<Seq<String>>, j: int) -> Seq<(String, Pick)>
    decreases j,
{
    if j <= 0 || j > parents.len() {
        seq![]
    } else {
        with_absent(parents_merged(parents, j - 1), tagged(parents[j - 1], Origin::Parent((j - 1) as usize)))
    }
}

/// The first `j` parents' required fields, in order, without repeats.
pub open spec fn parents_required(parents: Seq<Seq<String>>, j: int) -> Seq<String>
    decreases j,
{
    if j <= 0 || j > parents.len() {
        seq![]
    } else {
        with_new_names(parents_required(parents, j - 1), parents[j - 1])
    }
}

/// What resolving a model against its parents picks: properties and computed
/// fields of the parents (the first parent with a name wins), overridden in
/// place or extended by the model's own; required fields of the parents and
/// then the model, without repeats; indexes of the parents (first name wins),
/// then the model's own, each removing any earlier index of its name.
pub struct MergePlan {
    pub properties: Vec<(String, Pick)>,
    pub required: Vec<String>,
    pub indexes: Vec<(String, Pick)>,
    pub computed: Vec<(String, Pick)>,
}

/// The parents' property names, in inheritance order.
pub open spec fn parent_property_names(parents: Seq<DataModel>) -> Seq<Seq<String>> {
    parents.map_values(|m: DataModel| entry_names(m.spec.schema.properties@))
}

pub open spec fn parent_required_names(parents: Seq<DataModel>) -> Seq<Seq<String>> {
    parents.map_values(|m: DataModel| m.spec.schema.required@)
}

pub open spec fn parent_index_names(parents: Seq<DataModel>) -> Seq<Seq<String>> {
    parents.map_values(|m: DataModel| index_names(m.spec.indexes@))
}

pub open spec fn parent_computed_names(parents: Seq<DataModel>) -> Seq<Seq<String>> {
    parents.map_values(|m: DataModel| entry_names(m.spec.computed@))
}

/// The properties picked for `model` against `parents` (in inheritance order).
pub open spec fn property_plan(model: DataModel, parents: Seq<DataModel>) -> Seq<(String, Pick)> {
    with_overrides(
        parents_merged(parent_property_names(parents), parents.len() as int),
        tagged(entry_names(model.spec.schema.properties@), Origin::Own),
    )
}

/// The required fields of `model` merged with those of `parents`.
pub open spec fn required_plan(model: DataModel, parents: Seq<DataModel>) -> Seq<String> {
    with_new_names(
        parents_required(parent_required_names(parents), parents.len() as int),
        model.spec.schema.required@,
    )
}

/// The indexes picked for `model` against `parents`.
pub open spec fn index_plan(model: DataModel, parents: Seq<DataModel>) -> Seq<(String, Pick)> {
    with_replacements(
        parents_merged(parent_index_names(parents), parents.len() as int),
        tagged(index_names(model.spec.indexes@), Origin::Own),
    )
}

/// The computed fields picked for `model` against `parents`.
pub open spec fn computed_plan(model: DataModel, parents: Seq<DataModel>) -> Seq<(String, Pick)> {
    with_overrides(
        parents_merged(parent_computed_names(parents), parents.len() as int),
        tagged(entry_names(model.spec.computed@), Origin::Own),
    )
}

/// The merge plan of `model` against `parents` (in inheritance order).
pub open spec fn plan_holds(plan: MergePlan, model: DataModel, parents: Seq<DataModel>) -> bool {
    &&& plan.properties@ == property_plan(model, parents)
    &&& plan.required@ == required_plan(model, parents)
    &&& plan.indexes@ == index_plan(model, parents)
    &&& plan.computed@ == computed_plan(model, parents)
}

fn add_absent(acc: &mut Vec<(String, Pick)>, names: &Vec<String>, origin: Origin)
    ensures
        final(acc)@ == with_absent(old(acc)@, tagged(names@, origin)),
{
    let ghost items = tagged(names@, origin);
    let mut i: usize = 0;
    while i < names.len()
        invariant
            i <= names@.len(),
            items == tagged(names@, origin),
            acc@ == with_absent(old(acc)@, items.take(i as int)),
        decreases names.len() - i,
    {
        assert(items.take(i + 1).drop_last() =~= items.take(i as int));
        assert(items.take(i + 1).last() == (names@[i as int], Pick { origin, index: i }));
        proof {
            lemma_lookup_key(acc@, names@[i as int]@);
            lemma_find_key_from(acc@, names@[i as int]@, 0);
        }
        if find_key(acc, names[i].as_str()).is_none() {
            acc.push((names[i].clone(), Pick { origin, index: i }));
        }
        i = i + 1;
    }
    assert(items.take(i as int) =~= items);
}

fn add_overrides(acc: &mut Vec<(String, Pick)>, names: &Vec<String>, origin: Origin)
    ensures
        final(acc)@ == with_overrides(old(acc)@, tagged(names@, origin)),
{
    let ghost items = tagged(names@, origin);
    let mut i: usize = 0;
    while i < names.len()
        invariant
            i <= names@.len(),
            items == tagged(names@, origin),
            acc@ == with_overrides(old(acc)@, items.take(i as int)),
        decreases names.len() - i,
    {
        assert(items.take(i + 1).drop_last() =~= items.take(i as int));
        assert(items.take(i + 1).last() == (names@[i as int], Pick { origin, index: i }));
        insert_pair(acc, names[i].clone(), Pick { origin, index: i });
        i = i + 1;
    }
    assert(items.take(i as int) =~= items);
}

fn add_replacements(acc: &mut Vec<(String, Pick)>, names: &Vec<String>, origin: Origin)
    ensures
        final(acc)@ == with_replacements(old(acc)@, tagged(names@, origin)),
{
    let ghost items = tagged(names@, origin);
    let mut i: usize = 0;
    while i < names.len()
        invariant
            i <= names@.len(),
            items == tagged(names@, origin),
            acc@ == with_replacements(old(acc)@, items.take(i as int)),
        decreases names.len() - i,
    {
        assert(items.take(i + 1).drop_last() =~= items.take(i as int));
        let item = (names[i].clone(), Pick { origin, index: i });
        assert(items.take(i + 1).last() == item);
        let mut kept: Vec<(String, Pick)> = Vec::new();
        let mut j: usize = 0;
        while j < acc.len()
            invariant
                j <= acc@.len(),
                kept@ == acc@.take(j as int).filter(|e: (String, Pick)| e.0@ != item.0@),
            decreases acc.len() - j,
        {
            assert(acc@.take(j + 1) =~= acc@.take(j as int).push(acc@[j as int]));
            proof {
                acc@.take(j as int).lemma_filter_push(
                    acc@[j as int],
                    |e: (String, Pick)| e.0@ != item.0@,
                );
            }
            if !str_eq(acc[j].0.as_str(), item.0.as_str()) {
                kept.push((acc[j].0.clone(), acc[j].1));
            }
            j = j + 1;
        }
        assert(acc@.take(j as int) =~= acc@);
        kept.push(item);
        *acc = kept;
        i = i + 1;
    }
    assert(items.take(i as int) =~= items);
}

fn add_new_names(acc: &mut Vec<String>, names: &Vec<String>)
    ensures
        final(acc)@ == with_new_names(old(acc)@, names@),
{
    let mut i: usize = 0;
    while i < names.len()
        invariant
            i <= names@.len(),
            acc@ == with_new_names(old(acc)@, names@.take(i as int)),
        decreases names.len() - i,
    {
        assert(names@.take(i + 1).drop_last() =~= names@.take(i as int));
        assert(names@.take(i + 1).last() == names@[i as int]);
        let mut found = false;
        let mut j: usize = 0;
        while j < acc.len()
            invariant
                j <= acc@.len(),
                i < names@.len(),
                found <==> exists|k: int| 0 <= k < j && #[trigger] acc@[k]@ == names@[i as int]@,
            decreases acc.len() - j,
        {
            if str_eq(acc[j].as_str(), names[i].as_str()) {
                found = true;
            }
            j = j + 1;
        }
        if !found {
            acc.push(names[i].clone());
        }
        i = i + 1;
    }
    assert(names@.take(i as int) =~= names@);
}

fn entry_names_of<V>(entries: &Vec<(String, V)>) -> (r: Vec<String>)
    ensures
        r@ == entry_names(entries@),
{
    let mut r: Vec<String> = Vec::new();
    let mut i: usize = 0;
    while i < entries.len()
        invariant
            i <= entries@.len(),
            r@ == entry_names(entries@.take(i as int)),
        decreases entries.len() - i,
    {
        r.push(entries[i].0.clone());
        assert(entry_names(entries@.take(i + 1)) =~= entry_names(entries@.take(i as int)).push(
            entries@[i as int].0,
        ));
        i = i + 1;
    }
    assert(entries@.take(i as int) =~= entries@);
    r
}

fn index_names_of(indexes: &Vec<Index>) -> (r: Vec<String>)
    ensures
        r@ == index_names(indexes@),
{
    let mut r: Vec<String> = Vec::new();
    let mut i: usize = 0;
    while i < indexes.len()
        invariant
            i <= indexes@.len(),
            r@ == index_names(indexes@.take(i as int)),
        decreases indexes.len() - i,
    {
        r.push(indexes[i].name.clone());
        assert(index_names(indexes@.take(i + 1)) =~= index_names(indexes@.take(i as int)).push(
            indexes@[i as int].name,
        ));
        i = i + 1;
    }
    assert(indexes@.take(i as int) =~= indexes@);
    r
}

/// The merge plan of `model` against `parents`, given in inheritance order.
pub fn merge_plan(model: &DataModel, parents: &Vec<&DataModel>) -> (plan: MergePlan)
    ensures
        plan_holds(plan, *model, parents@.map_values(|p: &DataModel| *p)),
{
    let ghost ps = parents@.map_values(|p: &DataModel| *p);
    let mut properties: Vec<(String, Pick)> = Vec::new();
    let mut required: Vec<String> = Vec::new();
    let mut indexes: Vec<(String, Pick)> = Vec::new();
    let mut computed: Vec<(String, Pick)> = Vec::new();
    let mut j: usize = 0;
    while j < parents.len()
        invariant
            j <= parents@.len(),
            ps == parents@.map_values(|p: &DataModel| *p),
            properties@ == parents_merged(parent_property_names(ps), j as int),
            required@ == parents_required(parent_required_names(ps), j as int),
            indexes@ == parents_merged(parent_index_names(ps), j as int),
            computed@ == parents_merged(parent_computed_names(ps), j as int),
        decreases parents.len() - j,
    {
        let p = parents[j];
        let names = entry_names_of(&p.spec.schema.properties);
        add_absent(&mut properties, &names, Origin::Parent(j));
        add_new_names(&mut required, &p.spec.schema.required);
        let inames = index_names_of(&p.spec.indexes);
        add_absent(&mut indexes, &inames, Origin::Parent(j));
        let cnames = entry_names_of(&p.spec.computed);
        add_absent(&mut computed, &cnames, Origin::Parent(j));
        j = j + 1;
    }
    let own = entry_names_of(&model.spec.schema.properties);
    add_overrides(&mut properties, &own, Origin::Own);
    add_new_names(&mut required, &model.spec.schema.required);
    let own_indexes = index_names_of(&model.spec.indexes);
    add_replacements(&mut indexes, &own_indexes, Origin::Own);
    let own_computed = entry_names_of(&model.spec.computed);
    add_overrides(&mut computed, &own_computed, Origin::Own);
    MergePlan { properties, required, indexes, computed }
}


// ------------------------------------------------------------------------
// Every pick of a plan names an item that exists
// ------------------------------------------------------------------------

/// `p` names an item: a position in the list of an existing parent, or in
/// the model's own list.
pub open spec fn pick_valid(p: Pick, parent_lens: Seq<int>, own_len: int) -> bool {
    match p.origin {
        Origin::Parent(k) => k < parent_lens.len() && p.index < parent_lens[k as int],
        Origin::Own => p.index < own_len,
    }
}

pub open spec fn all_valid(s: Seq<(String, Pick)>, parent_lens: Seq<int>, own_len: int) -> bool {
    forall|i: int| 0 <= i < s.len() ==> pick_valid(#[trigger] s[i].1, parent_lens, own_len)
}

proof fn lemma_tagged_valid(names: Seq<String>, origin: Origin, parent_lens: Seq<int>, own_len: int)
    requires
        match origin {
            Origin::Parent(k) => k < parent_lens.len() && parent_lens[k as int] == names.len(),
            Origin::Own => own_len == names.len(),
        },
    ensures
        all_valid(tagged(names, origin), parent_lens, own_len),
{
}

proof fn lemma_with_absent_valid(acc: Seq<(String, Pick)>, items: Seq<(String, Pick)>, parent_lens: Seq<int>, own_len: int)
    requires
        all_valid(acc, parent_lens, own_len),
        all_valid(items, parent_lens, own_len),
    ensures
        all_valid(with_absent(acc, items), parent_lens, own_len),
    decreases items.len(),
{
    if items.len() > 0 {
        let d = items.drop_last();
        assert(all_valid(d, parent_lens, own_len)) by {
            assert forall|i: int| 0 <= i < d.len() implies pick_valid(#[trigger] d[i].1, parent_lens, own_len) by {
                assert(d[i] == items[i]);
            }
        }
        lemma_with_absent_valid(acc, d, parent_lens, own_len);
        assert(pick_valid(items[items.len() - 1].1, parent_lens, own_len));
    }
}

proof fn lemma_with_overrides_valid(acc: Seq<(String, Pick)>, items: Seq<(String, Pick)>, parent_lens: Seq<int>, own_len: int)
    requires
        all_valid(acc, parent_lens, own_len),
        all_valid(items, parent_lens, own_len),
    ensures
        all_valid(with_overrides(acc, items), parent_lens, own_len),
    decreases items.len(),
{
    if items.len() > 0 {
        let d = items.drop_last();
        assert(all_valid(d, parent_lens, own_len)) by {
            assert forall|i: int| 0 <= i < d.len() implies pick_valid(#[trigger] d[i].1, parent_lens, own_len) by {
                assert(d[i] == items[i]);
            }
        }
        lemma_with_overrides_valid(acc, d, parent_lens, own_len);
        let a = with_overrides(acc, d);
        let it = items[items.len() - 1];
        assert(pick_valid(it.1, parent_lens, own_len));
        lemma_find_key_from(a, it.0@, 0);
        let r = insert_key(a, it.0, it.1);
        assert forall|i: int| 0 <= i < r.len() implies pick_valid(#[trigger] r[i].1, parent_lens, own_len) by {
            match find_key_from(a, it.0@, 0) {
                Some(k) => {
                    if i != k {
                        assert(r[i] == a[i]);
                    }
                },
                None => {
                    if i < a.len() {
                        assert(r[i] == a[i]);
                    }
                },
            }
        }
    }
}

proof fn lemma_with_replacements_valid(acc: Seq<(String, Pick)>, items: Seq<(String, Pick)>, parent_lens: Seq<int>, own_len: int)
    requires
        all_valid(acc, parent_lens, own_len),
        all_valid(items, parent_lens, own_len),
    ensures
        all_valid(with_replacements(acc, items), parent_lens, own_len),
    decreases items.len(),
{
    if items.len() > 0 {
        let d = items.drop_last();
        assert(all_valid(d, parent_lens, own_len)) by {
            assert forall|i: int| 0 <= i < d.len() implies pick_valid(#[trigger] d[i].1, parent_lens, own_len) by {
                assert(d[i] == items[i]);
            }
        }
        lemma_with_replacements_valid(acc, d, parent_lens, own_len);
        let a = with_replacements(acc, d);
        let item = items[items.len() - 1];
        let f = a.filter(|e: (String, Pick)| e.0@ != item.0@);
        a.filter_lemma(|e: (String, Pick)| e.0@ != item.0@);
        assert forall|i: int| 0 <= i < f.len() implies pick_valid(#[trigger] f[i].1, parent_lens, own_len) by {
            assert(f.contains(f[i]));
            a.lemma_filter_contains_rev(|e: (String, Pick)| e.0@ != item.0@, f[i]);
        }
        let r = f.push(item);
        assert forall|i: int| 0 <= i < r.len() implies pick_valid(#[trigger] r[i].1, parent_lens, own_len) by {
            if i < f.len() {
                assert(r[i] == f[i]);
            }
        }
    }
}

proof fn lemma_parents_merged_valid(parents: Seq<Seq<String>>, j: int, parent_lens: Seq<int>, own_len: int)
    requires
        0 <= j <= parents.len(),
        parent_lens.len() == parents.len(),
        forall|k: int| 0 <= k < parents.len() ==> parent_lens[k] == (#[trigger] parents[k]).len(),
        parents.len() <= usize::MAX,
    ensures
        all_valid(parents_merged(parents, j), parent_lens, own_len),
    decreases j,
{
    if j > 0 {
        lemma_parents_merged_valid(parents, j - 1, parent_lens, own_len);
        lemma_tagged_valid(parents[j - 1], Origin::Parent((j - 1) as usize), parent_lens, own_len);
        lemma_with_absent_valid(
            parents_merged(parents, j - 1),
            tagged(parents[j - 1], Origin::Parent((j - 1) as usize)),
            parent_lens,
            own_len,
        );
    }
}


// ------------------------------------------------------------------------
// Resolving a model
// ------------------------------------------------------------------------

/// Errors of dependency resolution
#[derive(Debug, Clone)]
pub enum GraphError {
    InvalidNsid(String),
    MissingField(String),
    CircularDependency(String),
}

/// The value a pick names: in the list of a parent, or in the model's own list.
pub open spec fn picked<V>(p: Pick, own: Seq<(String, V)>, parents: Seq<Seq<(String, V)>>) -> V {
    match p.origin {
        Origin::Parent(k) => parents[k as int][p.index as int].1,
        Origin::Own => own[p.index as int].1,
    }
}

/// The items of a plan, taken from the lists they were picked from.
fn pick_pairs<V: Clone>(plan: &Vec<(String, Pick)>, own: &Vec<(String, V)>, parents: &Vec<&Vec<(String, V)>>) -> (r: Vec<(String, V)>)
    requires
        all_valid(
            plan@,
            parents@.map_values(|l: &Vec<(String, V)>| l@.len() as int),
            own@.len() as int,
        ),
    ensures
        entry_names(r@) == entry_names(plan@),
        forall|k: int| 0 <= k < r@.len() ==> cloned::<V>(
            picked(plan@[k].1, own@, parents@.map_values(|l: &Vec<(String, V)>| l@)),
            #[trigger] r@[k].1,
        ),
{
    let ghost lens = parents@.map_values(|l: &Vec<(String, V)>| l@.len() as int);
    let mut r: Vec<(String, V)> = Vec::new();
    let mut i: usize = 0;
    while i < plan.len()
        invariant
            i <= plan@.len(),
            lens == parents@.map_values(|l: &Vec<(String, V)>| l@.len() as int),
            all_valid(plan@, lens, own@.len() as int),
            entry_names(r@) == entry_names(plan@.take(i as int)),
            r@.len() == i,
            forall|k: int| 0 <= k < i ==> cloned::<V>(
                picked(plan@[k].1, own@, parents@.map_values(|l: &Vec<(String, V)>| l@)),
                #[trigger] r@[k].1,
            ),
        decreases plan.len() - i,
    {
        let pick = plan[i].1;
        assert(pick_valid(plan@[i as int].1, lens, own@.len() as int));
        let item = match pick.origin {
            Origin::Parent(k) => parents[k][pick.index].1.clone(),
            Origin::Own => own[pick.index].1.clone(),
        };
        let ghost before = r@;
        let name = plan[i].0.clone();
        r.push((name, item));
        assert(entry_names(r@) =~= entry_names(before).push(plan@[i as int].0));
        assert(entry_names(plan@.take(i + 1)) =~= entry_names(plan@.take(i as int)).push(
            plan@[i as int].0,
        ));
        i = i + 1;
    }
    assert(plan@.take(i as int) =~= plan@);
    r
}

/// The index a pick names: in the list of a parent, or in the model's own list.
pub open spec fn picked_index(p: Pick, own: Seq<Index>, parents: Seq<Seq<Index>>) -> Index {
    match p.origin {
        Origin::Parent(k) => parents[k as int][p.index as int],
        Origin::Own => own[p.index as int],
    }
}

/// The indexes of a plan, taken from the lists they were picked from.
fn pick_indexes(plan: &Vec<(String, Pick)>, own: &Vec<Index>, parents: &Vec<&Vec<Index>>) -> (r: Vec<Index>)
    requires
        all_valid(plan@, parents@.map_values(|l: &Vec<Index>| l@.len() as int), own@.len() as int),
    ensures
        index_names(r@) == entry_names(plan@),
        forall|k: int| 0 <= k < r@.len() ==> {
            let src = picked_index(plan@[k].1, own@, parents@.map_values(|l: &Vec<Index>| l@));
            (#[trigger] r@[k]).fields@ == src.fields@ && r@[k].unique == src.unique
        },
{
    let ghost lens = parents@.map_values(|l: &Vec<Index>| l@.len() as int);
    let mut r: Vec<Index> = Vec::new();
    let mut i: usize = 0;
    while i < plan.len()
        invariant
            i <= plan@.len(),
            lens == parents@.map_values(|l: &Vec<Index>| l@.len() as int),
            all_valid(plan@, lens, own@.len() as int),
            index_names(r@) == entry_names(plan@.take(i as int)),
            r@.len() == i,
            forall|k: int| 0 <= k < i ==> {
                let src = picked_index(plan@[k].1, own@, parents@.map_values(|l: &Vec<Index>| l@));
                (#[trigger] r@[k]).fields@ == src.fields@ && r@[k].unique == src.unique
            },
        decreases plan.len() - i,
    {
        let pick = plan[i].1;
        assert(pick_valid(plan@[i as int].1, lens, own@.len() as int));
        let source = match pick.origin {
            Origin::Parent(k) => &parents[k][pick.index],
            Origin::Own => &own[pick.index],
        };
        assert(*source == picked_index(plan@[i as int].1, own@, parents@.map_values(|l: &Vec<Index>| l@)));
        let ghost before = r@;
        let name = plan[i].0.clone();
        let fields = source.fields.clone();
        assert(fields@ =~= source.fields@);
        r.push(Index { name, fields, unique: source.unique });
        assert(index_names(r@) =~= index_names(before).push(plan@[i as int].0));
        assert(entry_names(plan@.take(i + 1)) =~= entry_names(plan@.take(i as int)).push(
            plan@[i as int].0,
        ));
        i = i + 1;
    }
    assert(plan@.take(i as int) =~= plan@);
    r
}

/// Index of the first of `inherits[i..]` that `cache` has no model for.
pub open spec fn first_missing_from(inherits: Seq<String>, cache: Seq<(String, DataModel)>, i: int) -> Option<int>
    decreases inherits.len() - i,
{
    if i < 0 || i >= inherits.len() {
        None
    } else if !has_key(cache, inherits[i]@) {
        Some(i)
    } else {
        first_missing_from(inherits, cache, i + 1)
    }
}

/// The parents named by `inherits`, as `cache` has them.
pub open spec fn cached_parents(inherits: Seq<String>, cache: Seq<(String, DataModel)>) -> Seq<DataModel> {
    inherits.map_values(|n: String| lookup_key(cache, n@)->0)
}

/// The parents' properties, in inheritance order.
pub open spec fn parent_property_lists(parents: Seq<DataModel>) -> Seq<Seq<(String, Property)>> {
    parents.map_values(|m: DataModel| m.spec.schema.properties@)
}

/// The parents' indexes, in inheritance order.
pub open spec fn parent_index_lists(parents: Seq<DataModel>) -> Seq<Seq<Index>> {
    parents.map_values(|m: DataModel| m.spec.indexes@)
}

/// The parents' computed fields, in inheritance order.
pub open spec fn parent_computed_lists(parents: Seq<DataModel>) -> Seq<Seq<(String, ComputedField)>> {
    parents.map_values(|m: DataModel| m.spec.computed@)
}

/// `m` is `model` resolved against `parents`: its properties, required
/// fields, indexes and computed fields are those the merge picks, each with
/// the contents of the item it was picked from; it inherits from nothing;
/// the rest is `model`'s.
pub open spec fn resolved_as(m: DataModel, model: DataModel, parents: Seq<DataModel>) -> bool {
    &&& entry_names(m.spec.schema.properties@) == entry_names(property_plan(model, parents))
    &&& forall|k: int| 0 <= k < m.spec.schema.properties@.len() ==> same_property(
        picked(property_plan(model, parents)[k].1, model.spec.schema.properties@, parent_property_lists(parents)),
        #[trigger] m.spec.schema.properties@[k].1,
    )
    &&& m.spec.schema.required@ == required_plan(model, parents)
    &&& index_names(m.spec.indexes@) == entry_names(index_plan(model, parents))
    &&& forall|k: int| 0 <= k < m.spec.indexes@.len() ==> {
        let src = picked_index(index_plan(model, parents)[k].1, model.spec.indexes@, parent_index_lists(parents));
        (#[trigger] m.spec.indexes@[k]).fields@ == src.fields@ && m.spec.indexes@[k].unique == src.unique
    }
    &&& entry_names(m.spec.computed@) == entry_names(computed_plan(model, parents))
    &&& forall|k: int| 0 <= k < m.spec.computed@.len() ==> picked(
        computed_plan(model, parents)[k].1,
        model.spec.computed@,
        parent_computed_lists(parents),
    ) == (#[trigger] m.spec.computed@[k]).1
    &&& m.spec.inherits@.len() == 0
    &&& m.api_version == model.api_version
    &&& m.kind == model.kind
    &&& same_metadata(model.metadata, m.metadata)
    &&& m.spec.storage == model.spec.storage
    &&& m.spec.schema.schema_type == model.spec.schema.schema_type
    &&& (match model.spec.schema.items {
        Some(x) => m.spec.schema.items matches Some(y) && same_property(*x, *y),
        None => m.spec.schema.items is None,
    })
}

/// Resolve a single model by merging its parent schemas, which `cache`
/// holds already resolved; a model without parents is returned as it is.
pub fn resolve_model(model: &DataModel, cache: &Vec<(String, DataModel)>) -> (r: Result<DataModel, GraphError>)
    ensures
        model.spec.inherits@.len() == 0 ==> (r matches Ok(m) && same_model(*model, m)),
        model.spec.inherits@.len() > 0 ==> match first_missing_from(model.spec.inherits@, cache@, 0) {
            Some(i) => r matches Err(GraphError::MissingField(m)) && m@
                == "Parent model not found or not yet resolved: "@ + model.spec.inherits@[i]@,
            None => r matches Ok(m) && resolved_as(
                m,
                *model,
                cached_parents(model.spec.inherits@, cache@),
            ),
        },
{
    if model.spec.inherits.len() == 0 {
        return Ok(model.clone());
    }
    let inherits = &model.spec.inherits;
    let mut parents: Vec<&DataModel> = Vec::new();
    let mut i: usize = 0;
    while i < inherits.len()
        invariant
            i <= inherits@.len(),
            inherits@ == model.spec.inherits@,
            first_missing_from(inherits@, cache@, 0) == first_missing_from(inherits@, cache@, i as int),
            parents@.len() == i,
            forall|k: int| 0 <= k < i ==> *(#[trigger] parents@[k]) == lookup_key(cache@, inherits@[k]@)->0,
        decreases inherits.len() - i,
    {
        proof {
            lemma_find_key_from(cache@, inherits@[i as int]@, 0);
            lemma_lookup_key(cache@, inherits@[i as int]@);
        }
        match find_key(cache, inherits[i].as_str()) {
            Some(k) => {
                parents.push(&cache[k].1);
            },
            None => {
                return Err(
                    GraphError::MissingField(
                        join2("Parent model not found or not yet resolved: ", inherits[i].as_str()),
                    ),
                );
            },
        }
        i = i + 1;
    }
    let ghost ps = parents@.map_values(|p: &DataModel| *p);
    assert(ps =~= cached_parents(inherits@, cache@));
    let plan = merge_plan(model, &parents);
    // The lists each parent contributes.
    let mut prop_lists: Vec<&Vec<(String, Property)>> = Vec::new();
    let mut index_lists: Vec<&Vec<Index>> = Vec::new();
    let mut computed_lists: Vec<&Vec<(String, ComputedField)>> = Vec::new();
    let mut j: usize = 0;
    while j < parents.len()
        invariant
            j <= parents@.len(),
            prop_lists@.len() == j,
            index_lists@.len() == j,
            computed_lists@.len() == j,
            forall|k: int| 0 <= k < j ==> *(#[trigger] prop_lists@[k]) == parents@[k].spec.schema.properties,
            forall|k: int| 0 <= k < j ==> *(#[trigger] index_lists@[k]) == parents@[k].spec.indexes,
            forall|k: int| 0 <= k < j ==> *(#[trigger] computed_lists@[k]) == parents@[k].spec.computed,
        decreases parents.len() - j,
    {
        prop_lists.push(&parents[j].spec.schema.properties);
        index_lists.push(&parents[j].spec.indexes);
        computed_lists.push(&parents[j].spec.computed);
        j = j + 1;
    }
    proof {
        let own_p = model.spec.schema.properties@.len() as int;
        let lp = prop_lists@.map_values(|l: &Vec<(String, Property)>| l@.len() as int);
        let pn = parent_property_names(ps);
        assert forall|k: int| 0 <= k < pn.len() implies lp[k] == (#[trigger] pn[k]).len() by {}
        lemma_parents_merged_valid(pn, pn.len() as int, lp, own_p);
        lemma_tagged_valid(entry_names(model.spec.schema.properties@), Origin::Own, lp, own_p);
        lemma_with_overrides_valid(parents_merged(pn, pn.len() as int), tagged(entry_names(model.spec.schema.properties@), Origin::Own), lp, own_p);

        let own_i = model.spec.indexes@.len() as int;
        let li = index_lists@.map_values(|l: &Vec<Index>| l@.len() as int);
        let inm = parent_index_names(ps);
        assert forall|k: int| 0 <= k < inm.len() implies li[k] == (#[trigger] inm[k]).len() by {}
        lemma_parents_merged_valid(inm, inm.len() as int, li, own_i);
        lemma_tagged_valid(index_names(model.spec.indexes@), Origin::Own, li, own_i);
        lemma_with_replacements_valid(parents_merged(inm, inm.len() as int), tagged(index_names(model.spec.indexes@), Origin::Own), li, own_i);

        let own_c = model.spec.computed@.len() as int;
        let lc = computed_lists@.map_values(|l: &Vec<(String, ComputedField)>| l@.len() as int);
        let cn = parent_computed_names(ps);
        assert forall|k: int| 0 <= k < cn.len() implies lc[k] == (#[trigger] cn[k]).len() by {}
        lemma_parents_merged_valid(cn, cn.len() as int, lc, own_c);
        lemma_tagged_valid(entry_names(model.spec.computed@), Origin::Own, lc, own_c);
        lemma_with_overrides_valid(parents_merged(cn, cn.len() as int), tagged(entry_names(model.spec.computed@), Origin::Own), lc, own_c);
    }
    let properties = pick_pairs(&plan.properties, &model.spec.schema.properties, &prop_lists);
    let indexes = pick_indexes(&plan.indexes, &model.spec.indexes, &index_lists);
    let computed = pick_pairs(&plan.computed, &model.spec.computed, &computed_lists);
    proof {
        assert(prop_lists@.map_values(|l: &Vec<(String, Property)>| l@) =~= parent_property_lists(ps));
        assert(index_lists@.map_values(|l: &Vec<Index>| l@) =~= parent_index_lists(ps));
        assert(computed_lists@.map_values(|l: &Vec<(String, ComputedField)>| l@) =~= parent_computed_lists(ps));
        assert forall|k: int| 0 <= k < properties@.len() implies same_property(
            picked(plan.properties@[k].1, model.spec.schema.properties@, parent_property_lists(ps)),
            #[trigger] properties@[k].1,
        ) by {
            lemma_cloned_property(
                picked(plan.properties@[k].1, model.spec.schema.properties@, parent_property_lists(ps)),
                properties@[k].1,
            );
        }
    }
    let mut merged = model.clone();
    merged.spec.schema.properties = properties;
    merged.spec.schema.required = plan.required;
    merged.spec.indexes = indexes;
    merged.spec.computed = computed;
    merged.spec.inherits = Vec::new();
    Ok(merged)
}


// ------------------------------------------------------------------------
// The dependency graph, with petgraph's algorithms
// ------------------------------------------------------------------------

/// `p` is a path along `edges` of at least one edge that ends where it starts.
pub open spec fn is_cycle_path(edges: Seq<(usize, usize)>, p: Seq<usize>) -> bool {
    &&& p.len() >= 2
    &&& p[0] == p[p.len() - 1]
    &&& forall|i: int| 0 <= i < p.len() - 1 ==> edges.contains((#[trigger] p[i], p[i + 1]))
}

/// The graph with `edges` has a cycle (a self loop is one).
pub open spec fn has_cycle(edges: Seq<(usize, usize)>) -> bool {
    exists|p: Seq<usize>| is_cycle_path(edges, p)
}

/// `order` lists the nodes `0..n` once each, and each edge's source before its target.
pub open spec fn is_topological_order(n: nat, edges: Seq<(usize, usize)>, order: Seq<usize>) -> bool {
    &&& order.len() == n
    &&& forall|i: int| 0 <= i < n ==> #[trigger] order[i] < n
    &&& forall|i: int, j: int| 0 <= i < j < n ==> order[i] != order[j]
    &&& forall|e: int, i: int, j: int|
        #![trigger edges[e], order[i], order[j]]
        0 <= e < edges.len() && 0 <= i < n && 0 <= j < n && order[i] == edges[e].0 && order[j]
            == edges[e].1 ==> i < j
}

/// A list of `n` distinct nodes below `n` holds each node below `n`.
proof fn lemma_order_covers(n: nat, order: Seq<usize>, x: usize)
    requires
        order.len() == n,
        forall|i: int| 0 <= i < n ==> #[trigger] order[i] < n,
        forall|i: int, j: int| 0 <= i < j < n ==> order[i] != order[j],
        x < n,
    ensures
        exists|i: int| 0 <= i < n && order[i] == x,
{
    let s = order.map_values(|v: usize| v as int);
    assert(s.no_duplicates()) by {
        assert forall|i: int, j: int| 0 <= i < s.len() && 0 <= j < s.len() && i != j implies s[i] != s[j] by {
            if i < j {
                assert(order[i] != order[j]);
            } else {
                assert(order[j] != order[i]);
            }
        }
    }
    s.unique_seq_to_set();
    let r = vstd::set_lib::set_int_range(0, n as int);
    vstd::set_lib::lemma_int_range(0, n as int);
    assert(s.to_set().subset_of(r)) by {
        assert forall|v: int| s.to_set().contains(v) implies r.contains(v) by {
            assert(s.contains(v));
            let i = choose|i: int| 0 <= i < s.len() && s[i] == v;
            assert(order[i] < n);
        }
    }
    vstd::set_lib::lemma_len_subset(s.to_set(), r);
    vstd::set_lib::lemma_subset_equality(s.to_set(), r);
    assert(r.contains(x as int));
    assert(s.to_set().contains(x as int));
    assert(s.contains(x as int));
    let i = choose|i: int| 0 <= i < s.len() && s[i] == x as int;
    assert(order[i] == x);
}

/// The position of node `x` in `order`.
spec fn position_in(order: Seq<usize>, x: usize) -> int {
    choose|i: int| 0 <= i < order.len() && order[i] == x
}

/// Along a path of edges, positions in a topological order go up.
proof fn lemma_path_positions(n: nat, edges: Seq<(usize, usize)>, order: Seq<usize>, p: Seq<usize>, m: int)
    requires
        is_topological_order(n, edges, order),
        forall|k: int| 0 <= k < edges.len() ==> (#[trigger] edges[k]).0 < n && edges[k].1 < n,
        p.len() >= 2,
        forall|i: int| 0 <= i < p.len() - 1 ==> edges.contains((#[trigger] p[i], p[i + 1])),
        1 <= m < p.len(),
    ensures
        0 <= position_in(order, p[0]) < n,
        order[position_in(order, p[0])] == p[0],
        0 <= position_in(order, p[m]) < n,
        order[position_in(order, p[m])] == p[m],
        position_in(order, p[0]) < position_in(order, p[m]),
    decreases m,
{
    let a = p[m - 1];
    let b = p[m];
    assert(edges.contains((p[m - 1], p[m])));
    let e = choose|e: int| 0 <= e < edges.len() && edges[e] == (a, b);
    assert(a < n && b < n);
    lemma_order_covers(n, order, a);
    lemma_order_covers(n, order, b);
    let i = position_in(order, a);
    let j = position_in(order, b);
    assert(order[i] == edges[e].0 && order[j] == edges[e].1);
    assert(i < j);
    if m > 1 {
        lemma_path_positions(n, edges, order, p, m - 1);
    } else {
        assert(edges.contains((p[0], p[1])));
    }
}

/// A graph with a topological order has no cycle.
proof fn lemma_order_acyclic(n: nat, edges: Seq<(usize, usize)>, order: Seq<usize>)
    requires
        is_topological_order(n, edges, order),
        forall|k: int| 0 <= k < edges.len() ==> (#[trigger] edges[k]).0 < n && edges[k].1 < n,
    ensures
        !has_cycle(edges),
{
    if has_cycle(edges) {
        let p = choose|p: Seq<usize>| is_cycle_path(edges, p);
        lemma_path_positions(n, edges, order, p, p.len() - 1);
        assert(p[0] == p[p.len() - 1]);
    }
}

/// The names at the positions of an order of all nodes are the node names,
/// each once.
proof fn lemma_order_names(nodes: Seq<String>, order: Seq<usize>, v: Seq<String>)
    requires
        names_distinct(nodes),
        nodes.len() <= usize::MAX,
        order.len() == nodes.len(),
        forall|i: int| 0 <= i < nodes.len() ==> #[trigger] order[i] < nodes.len(),
        forall|i: int, j: int| 0 <= i < j < nodes.len() ==> order[i] != order[j],
        v.len() == order.len(),
        forall|k: int| 0 <= k < v.len() ==> #[trigger] v[k] == nodes[order[k] as int],
    ensures
        forall|i: int, j: int| 0 <= i < j < v.len() ==> v[i]@ != v[j]@,
        forall|k: int| 0 <= k < nodes.len() ==> holds_name(v, #[trigger] nodes[k]@),
        forall|i: int| 0 <= i < v.len() ==> holds_name(nodes, #[trigger] v[i]@),
{
    let n = nodes.len();
    assert forall|i: int, j: int| 0 <= i < j < v.len() implies v[i]@ != v[j]@ by {
        assert(v[i] == nodes[order[i] as int]);
        assert(v[j] == nodes[order[j] as int]);
        if order[i] < order[j] {
            assert(nodes[order[i] as int]@ != nodes[order[j] as int]@);
        } else {
            assert(nodes[order[j] as int]@ != nodes[order[i] as int]@);
        }
    }
    assert forall|k: int| 0 <= k < n implies holds_name(v, #[trigger] nodes[k]@) by {
        lemma_order_covers(n, order, k as usize);
        let i = choose|i: int| 0 <= i < n && order[i] == k as usize;
        assert(v[i] == nodes[order[i] as int]);
        assert(v[i]@ == nodes[k]@);
    }
    assert forall|i: int| 0 <= i < v.len() implies holds_name(nodes, #[trigger] v[i]@) by {
        assert(v[i] == nodes[order[i] as int]);
        assert(order[i] < n);
        assert(nodes[order[i] as int]@ == v[i]@);
    }
}

/// What `petgraph::algo::toposort` gives for the graph with nodes `0..n` and
/// `edges` added in order: the nodes in its order, or `None` for a cycle.
pub uninterp spec fn petgraph_toposort(n: nat, edges: Seq<(usize, usize)>) -> Option<Seq<usize>>;

/// Builds a `petgraph` `DiGraph` with nodes `0..n` and `edges` in order and
/// runs `petgraph::algo::toposort` on it. Claimed, as petgraph documents: for
/// an acyclic graph the nodes come in topological order (each before its
/// successors), otherwise it reports a cycle; and the result depends on
/// `n` and `edges` alone.
#[verifier::external_body]
fn toposort_nodes(n: usize, edges: &Vec<(usize, usize)>) -> (r: Option<Vec<usize>>)
    requires
        n < 4294967295usize,
        forall|k: int| 0 <= k < edges@.len() ==> (#[trigger] edges@[k]).0 < n && edges@[k].1 < n,
    ensures
        match r {
            Some(v) => petgraph_toposort(n as nat, edges@) == Some(v@) && is_topological_order(
                n as nat,
                edges@,
                v@,
            ),
            None => petgraph_toposort(n as nat, edges@) is None && has_cycle(edges@),
        },
{
    let mut g: petgraph::graph::DiGraph<(), ()> = petgraph::graph::DiGraph::new();
    for _ in 0..n {
        g.add_node(());
    }
    for &(a, b) in edges.iter() {
        g.add_edge(petgraph::graph::NodeIndex::new(a), petgraph::graph::NodeIndex::new(b), ());
    }
    match petgraph::algo::toposort(&g, None) {
        Ok(v) => Some(v.iter().map(|i| i.index()).collect()),
        Err(_) => None,
    }
}

/// The neighbours of `node` along `edges` (targets of its edges when
/// `outgoing`, else sources of the edges into it), the most recently added first.
pub open spec fn neighbors_of(edges: Seq<(usize, usize)>, node: usize, outgoing: bool) -> Seq<usize>
    decreases edges.len(),
{
    if edges.len() == 0 {
        seq![]
    } else {
        let e = edges.last();
        let rest = neighbors_of(edges.drop_last(), node, outgoing);
        if outgoing && e.0 == node {
            seq![e.1] + rest
        } else if !outgoing && e.1 == node {
            seq![e.0] + rest
        } else {
            rest
        }
    }
}

/// Builds the same graph and lists `neighbors_directed(node, ..)`. Claimed,
/// as petgraph documents for a directed graph: the neighbours in reverse
/// order of the addition of their edges.
#[verifier::external_body]
fn neighbor_nodes(n: usize, edges: &Vec<(usize, usize)>, node: usize, outgoing: bool) -> (r: Vec<usize>)
    requires
        n < 4294967295usize,
        node < n,
        forall|k: int| 0 <= k < edges@.len() ==> (#[trigger] edges@[k]).0 < n && edges@[k].1 < n,
    ensures
        r@ == neighbors_of(edges@, node, outgoing),
{
    let mut g: petgraph::graph::DiGraph<(), ()> = petgraph::graph::DiGraph::new();
    for _ in 0..n {
        g.add_node(());
    }
    for &(a, b) in edges.iter() {
        g.add_edge(petgraph::graph::NodeIndex::new(a), petgraph::graph::NodeIndex::new(b), ());
    }
    let dir = if outgoing { petgraph::Direction::Outgoing } else { petgraph::Direction::Incoming };
    g.neighbors_directed(petgraph::graph::NodeIndex::new(node), dir).map(|i| i.index()).collect()
}

/// No two of `names` hold the same characters.
pub open spec fn names_distinct(names: Seq<String>) -> bool {
    forall|i: int, j: int| 0 <= i < j < names.len() ==> names[i]@ != names[j]@
}

/// A dependency graph for resolving model inheritance: an edge goes from a
/// model to each model it inherits from.
pub struct DependencyGraph {
    /// The nodes: model NSIDs, in the order they were added.
    nodes: Vec<String>,
    /// The edges (child, parent), as node positions, in the order they were added.
    edges: Vec<(usize, usize)>,
    /// The models by NSID, at most one per NSID.
    models: Vec<(String, DataModel)>,
}

impl DependencyGraph {
    /// The edges join existing nodes, node names are distinct, and there are
    /// fewer nodes than petgraph's default index type can number.
    pub closed spec fn wf(self) -> bool {
        &&& self.nodes@.len() < 4294967295
        &&& names_distinct(self.nodes@)
        &&& forall|k: int|
            0 <= k < self.edges@.len() ==> (#[trigger] self.edges@[k]).0 < self.nodes@.len()
                && self.edges@[k].1 < self.nodes@.len()
    }

    /// The node names, in the order they were added.
    pub closed spec fn node_names(self) -> Seq<String> {
        self.nodes@
    }

    /// The edges as (child, parent) names, in the order they were added.
    pub closed spec fn edge_names(self) -> Seq<(Seq<char>, Seq<char>)> {
        self.edges@.map_values(|e: (usize, usize)| (self.nodes@[e.0 as int]@, self.nodes@[e.1 as int]@))
    }

    /// The edges as positions of `node_names`.
    pub closed spec fn edge_list(self) -> Seq<(usize, usize)> {
        self.edges@
    }

    /// The models, by NSID.
    pub closed spec fn model_entries(self) -> Seq<(String, DataModel)> {
        self.models@
    }

    /// Create a new empty dependency graph
    pub fn new() -> (g: Self)
        ensures
            g.wf(),
            g.node_names().len() == 0,
            g.edge_list().len() == 0,
            g.model_entries().len() == 0,
    {
        DependencyGraph { nodes: Vec::new(), edges: Vec::new(), models: Vec::new() }
    }

    /// The position of the node named `name`.
    fn node_of(&self, name: &str) -> (r: Option<usize>)
        ensures
            match r {
                Some(i) => i < self.nodes@.len() && self.nodes@[i as int]@ == name@,
                None => !contains_name(self.nodes@, name@),
            },
    {
        let mut i: usize = 0;
        while i < self.nodes.len()
            invariant
                i <= self.nodes@.len(),
                forall|j: int| 0 <= j < i ==> self.nodes@[j]@ != name@,
            decreases self.nodes.len() - i,
        {
            if str_eq(self.nodes[i].as_str(), name) {
                return Some(i);
            }
            i = i + 1;
        }
        None
    }

    /// The node named `name`, added when there is none.
    fn node_for(&mut self, name: &String) -> (r: usize)
        requires
            old(self).wf(),
            old(self).nodes@.len() + 1 < 4294967295,
        ensures
            final(self).wf(),
            final(self).nodes@ == with_new_names(old(self).nodes@, seq![*name]),
            r < final(self).nodes@.len(),
            final(self).nodes@[r as int]@ == name@,
            final(self).edges == old(self).edges,
            final(self).models == old(self).models,
    {
        assert(seq![*name].drop_last() =~= Seq::<String>::empty());
        assert(with_new_names(self.nodes@, Seq::<String>::empty()) == self.nodes@);
        match self.node_of(name.as_str()) {
            Some(i) => {
                assert(contains_name(self.nodes@, name@));
                i
            },
            None => {
                let i = self.nodes.len();
                self.nodes.push(name.clone());
                proof {
                    assert forall|a: int, b: int| 0 <= a < b < self.nodes@.len() implies self.nodes@[a]@
                        != self.nodes@[b]@ by {
                        if b == i {
                            assert(!contains_name(old(self).nodes@, name@));
                            assert(old(self).nodes@[a] == self.nodes@[a]);
                        }
                    }
                }
                i
            },
        }
    }
}


proof fn lemma_with_new_names_grows(a: Seq<String>, items: Seq<String>)
    ensures
        a.len() <= with_new_names(a, items).len() <= a.len() + items.len(),
        forall|i: int| 0 <= i < a.len() ==> #[trigger] with_new_names(a, items)[i] == a[i],
    decreases items.len(),
{
    if items.len() > 0 {
        lemma_with_new_names_grows(a, items.drop_last());
    }
}

proof fn lemma_with_new_names_push(a: Seq<String>, items: Seq<String>, x: String)
    ensures
        with_new_names(a, items.push(x)) == with_new_names(with_new_names(a, items), seq![x]),
{
    assert(items.push(x).drop_last() =~= items);
    assert(seq![x].drop_last() =~= Seq::<String>::empty());
    assert(with_new_names(with_new_names(a, items), Seq::<String>::empty()) == with_new_names(a, items));
}

impl DependencyGraph {
    /// Add a model to the graph: its node and its parents' nodes (when not
    /// there yet), an edge from it to each parent in order, and the model
    /// itself under its NSID (replacing one of the same NSID).
    pub fn add_model(&mut self, model: DataModel) -> (r: Result<(), GraphError>)
        requires
            old(self).wf(),
            old(self).node_names().len() + model.spec.inherits@.len() + 1 < 4294967295,
        ensures
            final(self).wf(),
            r is Ok,
            final(self).node_names() == with_new_names(
                old(self).node_names(),
                seq![model.metadata.id] + model.spec.inherits@,
            ),
            final(self).edge_names() == old(self).edge_names() + model.spec.inherits@.map_values(
                |p: String| (model.metadata.id@, p@),
            ),
            final(self).model_entries() == insert_key(old(self).model_entries(), model.metadata.id, model),
    {
        let ghost old_nodes = self.nodes@;
        let ghost old_edges = self.edges@;
        let ghost inh = model.spec.inherits@;
        let ghost items = seq![model.metadata.id] + inh;
        let nsid = model.metadata.id.clone();
        let mut inherits: Vec<String> = Vec::new();
        let mut i: usize = 0;
        while i < model.spec.inherits.len()
            invariant
                i <= model.spec.inherits@.len(),
                inherits@ == model.spec.inherits@.take(i as int),
            decreases model.spec.inherits.len() - i,
        {
            inherits.push(model.spec.inherits[i].clone());
            assert(model.spec.inherits@.take(i + 1) =~= model.spec.inherits@.take(i as int).push(
                model.spec.inherits@[i as int],
            ));
            i = i + 1;
        }
        assert(model.spec.inherits@.take(i as int) =~= model.spec.inherits@);
        let node_idx = self.node_for(&nsid);
        proof {
            assert(items.take(1) =~= seq![model.metadata.id]);
            lemma_with_new_names_grows(old_nodes, seq![nsid]);
        }
        let key = nsid.clone();
        insert_pair(&mut self.models, key, model);
        let ghost models_after = self.models@;
        let mut i: usize = 0;
        while i < inherits.len()
            invariant
                i <= inherits@.len(),
                inherits@ == inh,
                items == seq![nsid] + inh,
                self.wf(),
                self.nodes@ == with_new_names(old_nodes, items.take(i + 1)),
                self.nodes@.len() <= old_nodes.len() + 1 + i,
                self.nodes@.len() >= old_nodes.len(),
                self.models@ == models_after,
                old_nodes.len() + inh.len() + 1 < 4294967295,
                node_idx < self.nodes@.len(),
                self.nodes@[node_idx as int]@ == nsid@,
                self.edges@.len() == old_edges.len() + i,
                forall|k: int| 0 <= k < old_edges.len() ==> #[trigger] self.edges@[k] == old_edges[k],
                forall|k: int| 0 <= k < old_nodes.len() ==> #[trigger] self.nodes@[k] == old_nodes[k],
                forall|k: int|
                    0 <= k < i ==> self.nodes@[(#[trigger] self.edges@[old_edges.len() + k]).0 as int]@
                        == nsid@ && self.nodes@[self.edges@[old_edges.len() + k].1 as int]@ == inh[k]@,
            decreases inherits.len() - i,
        {
            let ghost before = self.nodes@;
            let p = self.node_for(&inherits[i]);
            proof {
                lemma_with_new_names_grows(before, seq![inherits@[i as int]]);
                assert(items.take(i + 2) =~= items.take(i + 1).push(inherits@[i as int]));
                lemma_with_new_names_push(old_nodes, items.take(i + 1), inherits@[i as int]);
            }
            proof {
                assert forall|k: int| 0 <= k < old_nodes.len() implies #[trigger] self.nodes@[k]
                    == old_nodes[k] by {
                    assert(before[k] == old_nodes[k]);
                }
            }
            self.edges.push((node_idx, p));
            i = i + 1;
        }
        proof {
            assert(items.take(i + 1) =~= items);
            let en = self.edges@.map_values(|e: (usize, usize)| (self.nodes@[e.0 as int]@, self.nodes@[e.1 as int]@));
            let expected = old(self).edge_names() + inh.map_values(|p: String| (nsid@, p@));
            assert(en =~= expected) by {
                assert forall|k: int| 0 <= k < en.len() implies en[k] == expected[k] by {
                    if k < old_edges.len() {
                        assert(self.edges@[k] == old_edges[k]);
                    } else {
                        assert(self.edges@[old_edges.len() + (k - old_edges.len())] == self.edges@[k]);
                    }
                }
            }
        }
        Ok(())
    }
}


/// The position of the first node named `name` in `nodes[i..]`.
pub open spec fn node_position_from(nodes: Seq<String>, name: Seq<char>, i: int) -> Option<int>
    decreases nodes.len() - i,
{
    if i < 0 || i >= nodes.len() {
        None
    } else if nodes[i]@ == name {
        Some(i)
    } else {
        node_position_from(nodes, name, i + 1)
    }
}

/// The names of the nodes at `positions`.
pub open spec fn names_at(nodes: Seq<String>, positions: Seq<usize>) -> Seq<Seq<char>> {
    positions.map_values(|k: usize| nodes[k as int]@)
}

// ------------------------------------------------------------------------
// Loading a model and its ancestors, breadth first
// ------------------------------------------------------------------------

/// Whether `names` holds a name with the characters of `n`.
pub open spec fn holds_name(names: Seq<String>, n: Seq<char>) -> bool {
    exists|i: int| 0 <= i < names.len() && #[trigger] names[i]@ == n
}

/// Index of the first of `queue[i..]` that is not among `loaded`.
pub open spec fn first_unloaded_from(queue: Seq<String>, loaded: Seq<String>, i: int) -> Option<int>
    decreases queue.len() - i,
{
    if i < 0 || i >= queue.len() {
        None
    } else if !holds_name(loaded, queue[i]@) {
        Some(i)
    } else {
        first_unloaded_from(queue, loaded, i + 1)
    }
}

/// The loader never hands out an NSID twice: the next NSID it gives is not
/// among those loaded, and everything it skips before it is.
pub proof fn loader_skips_loaded(queue: Seq<String>, loaded: Seq<String>, i: int)
    requires
        0 <= i <= queue.len(),
    ensures
        first_unloaded_from(queue, loaded, i) matches Some(k) ==> {
            &&& i <= k < queue.len()
            &&& !holds_name(loaded, queue[k]@)
            &&& forall|j: int| i <= j < k ==> holds_name(loaded, #[trigger] queue[j]@)
        },
        first_unloaded_from(queue, loaded, i) is None ==> forall|j: int|
            i <= j < queue.len() ==> holds_name(loaded, #[trigger] queue[j]@),
    decreases queue.len() - i,
{
    if i < queue.len() {
        loader_skips_loaded(queue, loaded, i + 1);
    }
}

/// The parents of a model that are not among `loaded`, in order.
pub open spec fn parents_to_load(inherits: Seq<String>, loaded: Seq<String>) -> Seq<String> {
    inherits.filter(|p: String| !holds_name(loaded, p@))
}

/// The state of loading a model and all the models it inherits from,
/// breadth first: the NSIDs still to load, in order, and those loaded.
/// The caller loads the definitions of each NSID that `next` gives and hands
/// back the data model among them.
pub struct ModelLoader {
    to_load: Vec<String>,
    loaded: Vec<String>,
}

impl ModelLoader {
    /// The NSIDs still to load, front first.
    pub closed spec fn queue(self) -> Seq<String> {
        self.to_load@
    }

    /// The NSIDs loaded so far, in order.
    pub closed spec fn done(self) -> Seq<String> {
        self.loaded@
    }

    /// Loading starts with `nsid` alone.
    pub fn new(nsid: &str) -> (r: Self)
        ensures
            r.queue().len() == 1,
            r.queue()[0]@ == nsid@,
            r.done().len() == 0,
    {
        let mut to_load: Vec<String> = Vec::new();
        to_load.push(nsid.to_string());
        ModelLoader { to_load, loaded: Vec::new() }
    }

    /// The next NSID to load: the front of the queue, past those loaded
    /// already, which leave the queue; `None` when loading is done.
    pub fn next(&mut self) -> (r: Option<String>)
        ensures
            final(self).done() == old(self).done(),
            match first_unloaded_from(old(self).queue(), old(self).done(), 0) {
                Some(k) => r matches Some(n) && n == old(self).queue()[k]
                    && final(self).queue() == old(self).queue().skip(k + 1),
                None => r is None && final(self).queue().len() == 0,
            },
    {
        let ghost q0 = self.to_load@;
        let queued = self.to_load.len();
        assert(q0.len() == queued);
        let mut popped: usize = 0;
        while self.to_load.len() > 0
            invariant
                self.loaded@ == old(self).loaded@,
                q0 == old(self).to_load@,
                q0.len() <= usize::MAX,
                popped <= q0.len(),
                self.to_load@ == q0.skip(popped as int),
                first_unloaded_from(q0, self.loaded@, 0) == first_unloaded_from(q0, self.loaded@, popped as int),
            decreases self.to_load.len(),
        {
            let n = self.to_load.remove(0);
            assert(n == q0[popped as int]);
            assert(self.to_load@ =~= q0.skip(popped + 1));
            if !self.is_loaded(n.as_str()) {
                return Some(n);
            }
            popped = popped + 1;
        }
        None
    }

    /// Whether `nsid` is loaded already.
    fn is_loaded(&self, nsid: &str) -> (r: bool)
        ensures
            r == holds_name(self.loaded@, nsid@),
    {
        let mut i: usize = 0;
        while i < self.loaded.len()
            invariant
                i <= self.loaded@.len(),
                forall|j: int| 0 <= j < i ==> (#[trigger] self.loaded@[j])@ != nsid@,
            decreases self.loaded.len() - i,
        {
            if str_eq(self.loaded[i].as_str(), nsid) {
                return true;
            }
            i = i + 1;
        }
        false
    }

    /// Takes the data model found among the definitions of `nsid`: its
    /// parents that are not loaded yet join the queue, it is added to the
    /// graph, and `nsid` counts as loaded. Without a data model, loading
    /// fails and nothing changes.
    pub fn take_model(&mut self, graph: &mut DependencyGraph, nsid: String, model: Option<DataModel>) -> (r: Result<(), GraphError>)
        requires
            old(graph).wf(),
            model matches Some(m) ==> old(graph).node_names().len() + m.spec.inherits@.len() + 1 < 4294967295,
        ensures
            final(graph).wf(),
            match model {
                None => {
                    &&& r matches Err(GraphError::MissingField(msg)) && msg@ == "No DataModel found for "@ + nsid@
                    &&& *final(self) == *old(self)
                    &&& *final(graph) == *old(graph)
                },
                Some(m) => {
                    &&& r is Ok
                    &&& final(self).queue() == old(self).queue() + parents_to_load(m.spec.inherits@, old(self).done())
                    &&& final(self).done() == old(self).done().push(nsid)
                    &&& final(graph).node_names() == with_new_names(
                        old(graph).node_names(),
                        seq![m.metadata.id] + m.spec.inherits@,
                    )
                    &&& final(graph).edge_names() == old(graph).edge_names() + m.spec.inherits@.map_values(
                        |p: String| (m.metadata.id@, p@),
                    )
                    &&& final(graph).model_entries() == insert_key(old(graph).model_entries(), m.metadata.id, m)
                },
            },
    {
        let m = match model {
            Some(m) => m,
            None => {
                return Err(GraphError::MissingField(join2("No DataModel found for ", nsid.as_str())));
            },
        };
        let ghost q0 = self.to_load@;
        let ghost inh = m.spec.inherits@;
        let mut i: usize = 0;
        while i < m.spec.inherits.len()
            invariant
                i <= inh.len(),
                inh == m.spec.inherits@,
                self.loaded@ == old(self).loaded@,
                q0 == old(self).to_load@,
                self.to_load@ == q0 + inh.take(i as int).filter(|p: String| !holds_name(old(self).loaded@, p@)),
            decreases inh.len() - i,
        {
            let p = &m.spec.inherits[i];
            proof {
                assert(inh.take(i + 1) =~= inh.take(i as int).push(inh[i as int]));
                inh.take(i as int).lemma_filter_push(inh[i as int], |p: String| !holds_name(old(self).loaded@, p@));
            }
            if !self.is_loaded(p.as_str()) {
                self.to_load.push(p.clone());
            }
            i = i + 1;
        }
        proof {
            assert(inh.take(i as int) =~= inh);
        }
        let r = graph.add_model(m);
        self.loaded.push(nsid);
        r
    }
}

impl DependencyGraph {
    /// Add multiple models to the graph, in order
    pub fn add_models(&mut self, models: Vec<DataModel>) -> (r: Result<(), GraphError>)
        requires
            old(self).wf(),
            old(self).node_names().len() + nodes_needed(models@) < 4294967295,
        ensures
            final(self).wf(),
            r is Ok,
            final(self).node_names() == nodes_after(old(self).node_names(), models@),
            final(self).edge_names() == edges_after(old(self).edge_names(), models@),
            final(self).model_entries() == entries_after(old(self).model_entries(), models@),
    {
        let ghost all = models@;
        let mut models = models;
        while models.len() > 0
            invariant
                self.wf(),
                self.node_names().len() + nodes_needed(models@) < 4294967295,
                nodes_after(old(self).node_names(), all) == nodes_after(self.node_names(), models@),
                edges_after(old(self).edge_names(), all) == edges_after(self.edge_names(), models@),
                entries_after(old(self).model_entries(), all) == entries_after(self.model_entries(), models@),
            decreases models.len(),
        {
            let ghost before = models@;
            let m = models.remove(0);
            proof {
                assert(before.drop_first() =~= models@);
                assert(before[0] == m);
                lemma_nodes_needed_nonnegative(models@);
            }
            let ghost n_before = self.nodes@;
            let ghost m_inh = m.spec.inherits@;
            let ghost m_id = m.metadata.id;
            let _ = self.add_model(m);
            proof {
                lemma_with_new_names_grows(n_before, seq![m_id] + m_inh);
            }
        }
        Ok(())
    }

    /// Check for circular dependencies in the graph
    pub fn detect_cycles(&self) -> (r: Result<(), GraphError>)
        requires
            self.wf(),
        ensures
            !has_cycle(self.edge_list()) ==> r is Ok,
            has_cycle(self.edge_list()) ==> (r matches Err(GraphError::CircularDependency(m)) && m@
                == "Circular inheritance detected in the dependency graph"@),
    {
        match toposort_nodes(self.nodes.len(), &self.edges) {
            Some(order) => {
                proof {
                    lemma_order_acyclic(self.nodes@.len() as nat, self.edges@, order@);
                }
                Ok(())
            },
            None => Err(
                GraphError::CircularDependency(
                    String::from_str("Circular inheritance detected in the dependency graph"),
                ),
            ),
        }
    }

    /// Perform topological sort to get the resolution order: models in order
    /// from derived to base (child to parent).
    pub fn topological_sort(&self) -> (r: Result<Vec<String>, GraphError>)
        requires
            self.wf(),
        ensures
            match petgraph_toposort(self.node_names().len(), self.edge_list()) {
                Some(order) => r matches Ok(v) && v@.map_values(|s: String| s@) == names_at(
                    self.node_names(),
                    order,
                ),
                None => r matches Err(GraphError::CircularDependency(m)) && m@
                    == "Circular dependency detected during topological sort"@,
            },
            r is Ok <==> !has_cycle(self.edge_list()),
            r matches Ok(v) ==> forall|e: int, i: int, j: int|
                #![trigger self.edge_names()[e], v@[i], v@[j]]
                0 <= e < self.edge_names().len() && 0 <= i < v@.len() && 0 <= j < v@.len()
                    && v@[i]@ == self.edge_names()[e].0 && v@[j]@ == self.edge_names()[e].1 ==> i < j,
            r matches Ok(v) ==> {
                &&& v@.len() == self.node_names().len()
                &&& forall|i: int, j: int| 0 <= i < j < v@.len() ==> v@[i]@ != v@[j]@
                &&& forall|k: int| 0 <= k < self.node_names().len() ==> holds_name(v@, #[trigger] self.node_names()[k]@)
                &&& forall|i: int| 0 <= i < v@.len() ==> holds_name(self.node_names(), #[trigger] v@[i]@)
            },
    {
        match toposort_nodes(self.nodes.len(), &self.edges) {
            Some(order) => {
                let mut v: Vec<String> = Vec::new();
                let mut i: usize = 0;
                while i < order.len()
                    invariant
                        i <= order@.len(),
                        self.wf(),
                        is_topological_order(self.nodes@.len() as nat, self.edges@, order@),
                        v@.len() == i,
                        forall|k: int| 0 <= k < i ==> #[trigger] v@[k] == self.nodes@[order@[k] as int],
                    decreases order.len() - i,
                {
                    v.push(self.nodes[order[i]].clone());
                    i = i + 1;
                }
                proof {
                    lemma_order_acyclic(self.nodes@.len() as nat, self.edges@, order@);
                    lemma_order_names(self.nodes@, order@, v@);
                    assert(v@.map_values(|s: String| s@) =~= names_at(self.nodes@, order@));
                    assert forall|e: int, i: int, j: int|
                        #![trigger self.edge_names()[e], v@[i], v@[j]]
                        0 <= e < self.edge_names().len() && 0 <= i < v@.len() && 0 <= j < v@.len()
                            && v@[i]@ == self.edge_names()[e].0 && v@[j]@ == self.edge_names()[e].1 implies i < j by {
                        let ed = self.edges@[e];
                        assert(self.nodes@[order@[i] as int]@ == self.nodes@[ed.0 as int]@);
                        assert(order@[i] == ed.0);
                        assert(self.nodes@[order@[j] as int]@ == self.nodes@[ed.1 as int]@);
                        assert(order@[j] == ed.1);
                        assert(self.edges@[e] == ed);
                    }
                }
                Ok(v)
            },
            None => Err(
                GraphError::CircularDependency(
                    String::from_str("Circular dependency detected during topological sort"),
                ),
            ),
        }
    }
}

/// The node names after adding `models` in order.
pub open spec fn nodes_after(nodes: Seq<String>, models: Seq<DataModel>) -> Seq<String>
    decreases models.len(),
{
    if models.len() == 0 {
        nodes
    } else {
        nodes_after(with_new_names(nodes, seq![models[0].metadata.id] + models[0].spec.inherits@), models.drop_first())
    }
}

/// The edges, by names, after adding `models` in order.
pub open spec fn edges_after(edges: Seq<(Seq<char>, Seq<char>)>, models: Seq<DataModel>) -> Seq<(Seq<char>, Seq<char>)>
    decreases models.len(),
{
    if models.len() == 0 {
        edges
    } else {
        let m = models[0];
        edges_after(edges + m.spec.inherits@.map_values(|p: String| (m.metadata.id@, p@)), models.drop_first())
    }
}

/// The models by NSID after adding `models` in order.
pub open spec fn entries_after(entries: Seq<(String, DataModel)>, models: Seq<DataModel>) -> Seq<(String, DataModel)>
    decreases models.len(),
{
    if models.len() == 0 {
        entries
    } else {
        entries_after(insert_key(entries, models[0].metadata.id, models[0]), models.drop_first())
    }
}

/// How many nodes adding `models` can add at most: each model and its parents.
pub open spec fn nodes_needed(models: Seq<DataModel>) -> int
    decreases models.len(),
{
    if models.len() == 0 {
        0
    } else {
        1 + models[0].spec.inherits@.len() + nodes_needed(models.drop_first())
    }
}

proof fn lemma_nodes_needed_nonnegative(models: Seq<DataModel>)
    ensures
        nodes_needed(models) >= 0,
    decreases models.len(),
{
    if models.len() > 0 {
        lemma_nodes_needed_nonnegative(models.drop_first());
    }
}


/// Entry `i` of `res` resolves the model named by `names[i]`: the graph has
/// a model of that name, and it is resolved against the entries before it.
pub open spec fn resolved_entry(
    res: Seq<(String, DataModel)>,
    names: Seq<Seq<char>>,
    models: Seq<(String, DataModel)>,
    i: int,
) -> bool {
    let m = lookup_key(models, names[i])->0;
    &&& res[i].0@ == names[i]
    &&& has_key(models, names[i])
    &&& m.spec.inherits@.len() > 0 ==> resolved_as(res[i].1, m, cached_parents(m.spec.inherits@, res.take(i)))
    &&& m.spec.inherits@.len() == 0 ==> same_model(m, res[i].1)
}

/// Index of the first of `inherits[j..]` that is not among `present`.
pub open spec fn first_absent_from(inherits: Seq<String>, present: Seq<Seq<char>>, j: int) -> Option<int>
    decreases inherits.len() - j,
{
    if j < 0 || j >= inherits.len() {
        None
    } else if !present.contains(inherits[j]@) {
        Some(j)
    } else {
        first_absent_from(inherits, present, j + 1)
    }
}

/// Whether the model named `names[i]` cannot be resolved after those before
/// it: the graph has no model of that name, or it inherits from one that is
/// not among them.
pub open spec fn unresolvable_at(names: Seq<Seq<char>>, models: Seq<(String, DataModel)>, i: int) -> bool {
    !has_key(models, names[i]) || {
        let m = lookup_key(models, names[i])->0;
        m.spec.inherits@.len() > 0 && first_absent_from(m.spec.inherits@, names.take(i), 0) is Some
    }
}

/// Index of the first of `names[i..]` that cannot be resolved after those before it.
pub open spec fn first_unresolvable_from(names: Seq<Seq<char>>, models: Seq<(String, DataModel)>, i: int) -> Option<int>
    decreases names.len() - i,
{
    if i < 0 || i >= names.len() {
        None
    } else if unresolvable_at(names, models, i) {
        Some(i)
    } else {
        first_unresolvable_from(names, models, i + 1)
    }
}

/// The error of resolving the model named `names[i]` after those before it.
pub open spec fn unresolvable_message(names: Seq<Seq<char>>, models: Seq<(String, DataModel)>, i: int) -> Seq<char> {
    if !has_key(models, names[i]) {
        "Model not found: "@ + names[i]
    } else {
        let m = lookup_key(models, names[i])->0;
        "Parent model not found or not yet resolved: "@ + m.spec.inherits@[first_absent_from(m.spec.inherits@, names.take(i), 0)->0]@
    }
}

/// A cache holds a name exactly when the list of its names does, so the
/// first parent missing from it is the first one absent from that list.
proof fn lemma_missing_is_absent(inherits: Seq<String>, cache: Seq<(String, DataModel)>, present: Seq<Seq<char>>, j: int)
    requires
        0 <= j <= inherits.len(),
        cache.len() == present.len(),
        forall|k: int| 0 <= k < cache.len() ==> (#[trigger] cache[k]).0@ == present[k],
    ensures
        first_missing_from(inherits, cache, j) == first_absent_from(inherits, present, j),
    decreases inherits.len() - j,
{
    if j < inherits.len() {
        let q = inherits[j]@;
        if has_key(cache, q) {
            let k = choose|k: int| 0 <= k < cache.len() && #[trigger] cache[k].0@ == q;
            assert(present[k] == q);
        }
        if present.contains(q) {
            let k = choose|k: int| 0 <= k < present.len() && present[k] == q;
            assert(cache[k].0@ == q);
        }
        lemma_missing_is_absent(inherits, cache, present, j + 1);
    }
}

impl DependencyGraph {
    /// Resolve all models in the graph by merging parent schemas, parents
    /// first: the models in reverse topological order, each resolved against
    /// those before it.
    pub fn resolve_all(&self) -> (r: Result<Vec<(String, DataModel)>, GraphError>)
        requires
            self.wf(),
        ensures
            match petgraph_toposort(self.node_names().len(), self.edge_list()) {
                None => r matches Err(GraphError::CircularDependency(m)) && m@
                    == "Circular dependency detected during topological sort"@,
                Some(order) => {
                    let names = names_at(self.node_names(), order).reverse();
                    match first_unresolvable_from(names, self.model_entries(), 0) {
                        None => r matches Ok(res) && {
                            &&& res@.len() == names.len()
                            &&& forall|i: int| 0 <= i < names.len() ==> #[trigger] resolved_entry(res@, names, self.model_entries(), i)
                        },
                        Some(i) => r matches Err(GraphError::MissingField(m))
                            && m@ == unresolvable_message(names, self.model_entries(), i),
                    }
                },
            },
    {
        let order = match self.topological_sort() {
            Ok(o) => o,
            Err(e) => {
                return Err(e);
            },
        };
        assert(petgraph_toposort(self.nodes@.len() as nat, self.edges@) is Some);
        let ghost names = order@.map_values(|s: String| s@).reverse();
        let mut resolved: Vec<(String, DataModel)> = Vec::new();
        let mut i: usize = order.len();
        while i > 0
            invariant
                i <= order@.len(),
                names == order@.map_values(|s: String| s@).reverse(),
                petgraph_toposort(self.nodes@.len() as nat, self.edges@) is Some,
                order@.map_values(|s: String| s@) == names_at(
                    self.node_names(),
                    petgraph_toposort(self.node_names().len(), self.edge_list())->0,
                ),
                resolved@.len() == order@.len() - i,
                forall|k: int| 0 <= k < resolved@.len() ==> #[trigger] resolved_entry(resolved@, names, self.models@, k),
                first_unresolvable_from(names, self.models@, 0) == first_unresolvable_from(
                    names,
                    self.models@,
                    resolved@.len() as int,
                ),
            decreases i,
        {
            i = i - 1;
            let nsid = &order[i];
            let ghost c = resolved@.len() as int;
            proof {
                lemma_find_key_from(self.models@, nsid@, 0);
                lemma_lookup_key(self.models@, nsid@);
                assert(names[c] == nsid@);
                assert forall|k: int| 0 <= k < resolved@.len() implies (#[trigger] resolved@[k]).0@ == names.take(c)[k] by {
                    assert(resolved_entry(resolved@, names, self.models@, k));
                }
                lemma_missing_is_absent(
                    lookup_key(self.models@, names[c])->0.spec.inherits@,
                    resolved@,
                    names.take(c),
                    0,
                );
            }
            let model = match find_key(&self.models, nsid.as_str()) {
                Some(k) => &self.models[k].1,
                None => {
                    proof {
                        assert(unresolvable_at(names, self.models@, c));
                    }
                    return Err(GraphError::MissingField(join2("Model not found: ", nsid.as_str())));
                },
            };
            let resolved_model = match resolve_model(model, &resolved) {
                Ok(m) => m,
                Err(e) => {
                    proof {
                        assert(unresolvable_at(names, self.models@, c));
                    }
                    return Err(e);
                },
            };
            proof {
                assert(!unresolvable_at(names, self.models@, c));
            }
            let ghost before = resolved@;
            resolved.push((nsid.clone(), resolved_model));
            proof {
                assert(resolved@.take(before.len() as int) =~= before);
                assert forall|k: int| 0 <= k < resolved@.len() implies #[trigger] resolved_entry(resolved@, names, self.models@, k) by {
                    if k < before.len() {
                        assert(resolved@[k] == before[k]);
                        assert(resolved@.take(k) =~= before.take(k));
                        assert(resolved_entry(before, names, self.models@, k));
                    }
                }
            }
        }
        Ok(resolved)
    }

    /// Get a model from the graph
    pub fn get_model(&self, nsid: &str) -> (r: Option<&DataModel>)
        ensures
            match lookup_key(self.model_entries(), nsid@) {
                Some(m) => r == Some(&m),
                None => r is None,
            },
    {
        proof {
            lemma_find_key_from(self.models@, nsid@, 0);
        }
        match find_key(&self.models, nsid) {
            Some(k) => Some(&self.models[k].1),
            None => None,
        }
    }

    /// Get all models in the graph, by NSID
    pub fn models(&self) -> (r: &Vec<(String, DataModel)>)
        ensures
            r@ == self.model_entries(),
    {
        &self.models
    }

    fn neighbor_names(&self, nsid: &str, outgoing: bool) -> (r: Option<Vec<String>>)
        requires
            self.wf(),
        ensures
            match node_position_from(self.node_names(), nsid@, 0) {
                Some(i) => r matches Some(v) && v@.map_values(|s: String| s@) == names_at(
                    self.node_names(),
                    neighbors_of(self.edge_list(), i as usize, outgoing),
                ),
                None => r is None,
            },
    {
        let mut i: usize = 0;
        while i < self.nodes.len()
            invariant
                i <= self.nodes@.len(),
                self.wf(),
                node_position_from(self.nodes@, nsid@, 0) == node_position_from(self.nodes@, nsid@, i as int),
            decreases self.nodes.len() - i,
        {
            if str_eq(self.nodes[i].as_str(), nsid) {
                let ns = neighbor_nodes(self.nodes.len(), &self.edges, i, outgoing);
                proof {
                    lemma_neighbors_in_range(self.edges@, i, outgoing, self.nodes@.len());
                }
                let mut v: Vec<String> = Vec::new();
                let mut k: usize = 0;
                while k < ns.len()
                    invariant
                        k <= ns@.len(),
                        forall|j: int| 0 <= j < ns@.len() ==> (#[trigger] ns@[j]) < self.nodes@.len(),
                        v@.map_values(|s: String| s@) == names_at(self.nodes@, ns@.take(k as int)),
                    decreases ns.len() - k,
                {
                    let ghost before = v@;
                    v.push(self.nodes[ns[k]].clone());
                    assert(v@.map_values(|s: String| s@) =~= before.map_values(|s: String| s@).push(
                        self.nodes@[ns@[k as int] as int]@,
                    ));
                    assert(names_at(self.nodes@, ns@.take(k + 1)) =~= names_at(self.nodes@, ns@.take(k as int)).push(
                        self.nodes@[ns@[k as int] as int]@,
                    ));
                    k = k + 1;
                }
                assert(ns@.take(k as int) =~= ns@);
                return Some(v);
            }
            i = i + 1;
        }
        None
    }

    /// Get the dependencies of a model (models it inherits from), the most
    /// recently added first
    pub fn get_dependencies(&self, nsid: &str) -> (r: Option<Vec<String>>)
        requires
            self.wf(),
        ensures
            match node_position_from(self.node_names(), nsid@, 0) {
                Some(i) => r matches Some(v) && v@.map_values(|s: String| s@) == names_at(
                    self.node_names(),
                    neighbors_of(self.edge_list(), i as usize, true),
                ),
                None => r is None,
            },
    {
        self.neighbor_names(nsid, true)
    }

    /// Get the models that depend on a given model (models that inherit from
    /// it), the most recently added first
    pub fn get_dependents(&self, nsid: &str) -> (r: Option<Vec<String>>)
        requires
            self.wf(),
        ensures
            match node_position_from(self.node_names(), nsid@, 0) {
                Some(i) => r matches Some(v) && v@.map_values(|s: String| s@) == names_at(
                    self.node_names(),
                    neighbors_of(self.edge_list(), i as usize, false),
                ),
                None => r is None,
            },
    {
        self.neighbor_names(nsid, false)
    }

    /// Get the number of models in the graph
    pub fn len(&self) -> (r: usize)
        ensures
            r == self.model_entries().len(),
    {
        self.models.len()
    }

    /// Check if the graph is empty
    pub fn is_empty(&self) -> (r: bool)
        ensures
            r == (self.model_entries().len() == 0),
    {
        self.models.len() == 0
    }
}

proof fn lemma_neighbors_in_range(edges: Seq<(usize, usize)>, node: usize, outgoing: bool, n: nat)
    requires
        forall|k: int| 0 <= k < edges.len() ==> (#[trigger] edges[k]).0 < n && edges[k].1 < n,
    ensures
        forall|j: int| 0 <= j < neighbors_of(edges, node, outgoing).len() ==> #[trigger] neighbors_of(edges, node, outgoing)[j] < n,
    decreases edges.len(),
{
    if edges.len() > 0 {
        let d = edges.drop_last();
        assert forall|k: int| 0 <= k < d.len() implies (#[trigger] d[k]).0 < n && d[k].1 < n by {
            assert(d[k] == edges[k]);
        }
        lemma_neighbors_in_range(d, node, outgoing, n);
        let e = edges[edges.len() - 1];
        assert(edges.last() == e);
        let rest = neighbors_of(d, node, outgoing);
        let all = neighbors_of(edges, node, outgoing);
        assert forall|j: int| 0 <= j < all.len() implies #[trigger] all[j] < n by {
            if outgoing && e.0 == node {
                assert(all == seq![e.1] + rest);
                if j > 0 {
                    assert(all[j] == rest[j - 1]);
                }
            } else if !outgoing && e.1 == node {
                assert(all == seq![e.0] + rest);
                if j > 0 {
                    assert(all[j] == rest[j - 1]);
                }
            } else {
                assert(all == rest);
            }
        }
    }
}


// ------------------------------------------------------------------------
// Laws of resolution
// ------------------------------------------------------------------------

proof fn lemma_find_same_names<V1, V2>(s1: Seq<(String, V1)>, s2: Seq<(String, V2)>, q: Seq<char>, i: int)
    requires
        s1.len() == s2.len(),
        forall|k: int| 0 <= k < s1.len() ==> (#[trigger] s1[k]).0@ == s2[k].0@,
    ensures
        find_key_from(s1, q, i) == find_key_from(s2, q, i),
    decreases s1.len() - i,
{
    if 0 <= i < s1.len() {
        assert(s1[i].0@ == s2[i].0@);
        lemma_find_same_names(s1, s2, q, i + 1);
    }
}

proof fn lemma_find_push<V>(a: Seq<(String, V)>, x: (String, V), q: Seq<char>, i: int)
    requires
        0 <= i <= a.len(),
    ensures
        find_key_from(a.push(x), q, i) == match find_key_from(a, q, i) {
            Some(j) => Some(j),
            None => if x.0@ == q {
                Some(a.len() as int)
            } else {
                None
            },
        },
    decreases a.len() - i,
{
    if i < a.len() {
        assert(a.push(x)[i] == a[i]);
        lemma_find_push(a, x, q, i + 1);
    } else {
        assert(a.push(x)[i] == x);
        assert(find_key_from(a.push(x), q, i + 1) is None);
        assert(find_key_from(a, q, i) is None);
    }
}

/// Looking a name up after an insertion gives the inserted value for that
/// name, and what was there before for any other.
pub proof fn lemma_insert_key_lookup<V>(a: Seq<(String, V)>, key: String, v: V, q: Seq<char>)
    ensures
        lookup_key(insert_key(a, key, v), q) == if q == key@ {
            Some(v)
        } else {
            lookup_key(a, q)
        },
{
    lemma_find_key_from(a, key@, 0);
    lemma_find_key_from(a, q, 0);
    match find_key_from(a, key@, 0) {
        Some(k) => {
            let u = a.update(k, (key, v));
            assert forall|j: int| 0 <= j < u.len() implies (#[trigger] u[j]).0@ == a[j].0@ by {}
            lemma_find_same_names(u, a, q, 0);
            lemma_find_key_from(u, q, 0);
        },
        None => {
            lemma_find_push(a, (key, v), q, 0);
        },
    }
}

/// An insertion keeps every name there was, and adds its own.
pub proof fn lemma_insert_key_names<V>(a: Seq<(String, V)>, key: String, v: V, q: Seq<char>)
    ensures
        has_key(insert_key(a, key, v), q) <==> (has_key(a, q) || q == key@),
{
    lemma_insert_key_lookup(a, key, v, q);
    lemma_lookup_key(insert_key(a, key, v), q);
    lemma_lookup_key(a, q);
}

/// A model added to the graph is the one the graph then gives for its NSID;
/// the models of other NSIDs stay as they were.
pub proof fn added_model_is_found(entries: Seq<(String, DataModel)>, model: DataModel, other: Seq<char>)
    ensures
        lookup_key(insert_key(entries, model.metadata.id, model), model.metadata.id@) == Some(model),
        other != model.metadata.id@ ==> lookup_key(insert_key(entries, model.metadata.id, model), other)
            == lookup_key(entries, other),
{
    lemma_insert_key_lookup(entries, model.metadata.id, model, model.metadata.id@);
    lemma_insert_key_lookup(entries, model.metadata.id, model, other);
}

/// Names of `names` hold different characters.
pub open spec fn distinct_names(names: Seq<String>) -> bool {
    forall|i: int, j: int| 0 <= i < j < names.len() ==> names[i]@ != names[j]@
}

proof fn lemma_overrides_own(acc: Seq<(String, Pick)>, names: Seq<String>, n: int)
    requires
        0 <= n <= names.len(),
        names.len() <= usize::MAX,
        distinct_names(names),
    ensures
        forall|k: int| 0 <= k < n ==> lookup_key(with_overrides(acc, tagged(names, Origin::Own).take(n)), #[trigger] names[k]@)
            == Some(Pick { origin: Origin::Own, index: k as usize }),
    decreases n,
{
    let items = tagged(names, Origin::Own);
    if n > 0 {
        lemma_overrides_own(acc, names, n - 1);
        assert(items.take(n).drop_last() =~= items.take(n - 1));
        let a = with_overrides(acc, items.take(n - 1));
        let last = items.take(n).last();
        assert(last == (names[n - 1], Pick { origin: Origin::Own, index: (n - 1) as usize }));
        assert forall|k: int| 0 <= k < n implies lookup_key(with_overrides(acc, items.take(n)), #[trigger] names[k]@)
            == Some(Pick { origin: Origin::Own, index: k as usize }) by {
            lemma_insert_key_lookup(a, last.0, last.1, names[k]@);
            if k < n - 1 {
                assert(names[k]@ != names[n - 1]@);
            }
        }
    }
}

/// A model's own properties override those of its parents: when its
/// property names are distinct, each of them is picked from the model itself.
pub proof fn own_properties_override(model: DataModel, parents: Seq<DataModel>)
    requires
        distinct_names(entry_names(model.spec.schema.properties@)),
        model.spec.schema.properties@.len() <= usize::MAX,
    ensures
        forall|k: int|
            0 <= k < model.spec.schema.properties@.len() ==> lookup_key(
                property_plan(model, parents),
                (#[trigger] model.spec.schema.properties@[k]).0@,
            ) == Some(Pick { origin: Origin::Own, index: k as usize }),
{
    let names = entry_names(model.spec.schema.properties@);
    let acc = parents_merged(parent_property_names(parents), parents.len() as int);
    lemma_overrides_own(acc, names, names.len() as int);
    assert(tagged(names, Origin::Own).take(names.len() as int) =~= tagged(names, Origin::Own));
    assert forall|k: int| 0 <= k < model.spec.schema.properties@.len() implies lookup_key(
        property_plan(model, parents),
        (#[trigger] model.spec.schema.properties@[k]).0@,
    ) == Some(Pick { origin: Origin::Own, index: k as usize }) by {
        assert(names[k] == model.spec.schema.properties@[k].0);
    }
}

proof fn lemma_with_absent_names(acc: Seq<(String, Pick)>, items: Seq<(String, Pick)>, q: Seq<char>)
    ensures
        has_key(with_absent(acc, items), q) <==> (has_key(acc, q) || exists|k: int|
            0 <= k < items.len() && (#[trigger] items[k]).0@ == q),
    decreases items.len(),
{
    if items.len() > 0 {
        let d = items.drop_last();
        lemma_with_absent_names(acc, d, q);
        let a = with_absent(acc, d);
        let last = items.last();
        if has_key(a, last.0@) {
        } else {
            assert forall|i: int| 0 <= i < a.len() implies a.push(last)[i] == a[i] by {}
            assert(a.push(last)[a.len() as int] == last);
        }
        if exists|k: int| 0 <= k < items.len() && (#[trigger] items[k]).0@ == q {
            let k = choose|k: int| 0 <= k < items.len() && (#[trigger] items[k]).0@ == q;
            if k < d.len() {
                assert(d[k] == items[k]);
            }
        }
        if exists|k: int| 0 <= k < d.len() && (#[trigger] d[k]).0@ == q {
            let k = choose|k: int| 0 <= k < d.len() && (#[trigger] d[k]).0@ == q;
            assert(items[k] == d[k]);
        }
    }
}

proof fn lemma_with_overrides_names(acc: Seq<(String, Pick)>, items: Seq<(String, Pick)>, q: Seq<char>)
    ensures
        has_key(with_overrides(acc, items), q) <==> (has_key(acc, q) || exists|k: int|
            0 <= k < items.len() && (#[trigger] items[k]).0@ == q),
    decreases items.len(),
{
    if items.len() > 0 {
        let d = items.drop_last();
        lemma_with_overrides_names(acc, d, q);
        let last = items.last();
        lemma_insert_key_names(with_overrides(acc, d), last.0, last.1, q);
        if exists|k: int| 0 <= k < items.len() && (#[trigger] items[k]).0@ == q {
            let k = choose|k: int| 0 <= k < items.len() && (#[trigger] items[k]).0@ == q;
            if k < d.len() {
                assert(d[k] == items[k]);
            }
        }
        if exists|k: int| 0 <= k < d.len() && (#[trigger] d[k]).0@ == q {
            let k = choose|k: int| 0 <= k < d.len() && (#[trigger] d[k]).0@ == q;
            assert(items[k] == d[k]);
        }
    }
}

proof fn lemma_parents_merged_names(parents: Seq<Seq<String>>, j: int, p: int, k: int)
    requires
        0 <= p < j <= parents.len(),
        0 <= k < parents[p].len(),
        parents.len() <= usize::MAX,
    ensures
        has_key(parents_merged(parents, j), parents[p][k]@),
    decreases j,
{
    let q = parents[p][k]@;
    let items = tagged(parents[j - 1], Origin::Parent((j - 1) as usize));
    lemma_with_absent_names(parents_merged(parents, j - 1), items, q);
    if p < j - 1 {
        lemma_parents_merged_names(parents, j - 1, p, k);
    } else {
        assert(items[k].0@ == q);
    }
}

/// A model inherits every property of each of its parents: each name of a
/// parent's property is a name of the merged properties.
pub proof fn parent_properties_inherited(model: DataModel, parents: Seq<DataModel>, p: int, k: int)
    requires
        0 <= p < parents.len(),
        0 <= k < parents[p].spec.schema.properties@.len(),
        parents.len() <= usize::MAX,
    ensures
        has_key(property_plan(model, parents), parents[p].spec.schema.properties@[k].0@),
{
    let pn = parent_property_names(parents);
    assert(pn[p] == entry_names(parents[p].spec.schema.properties@));
    assert(pn[p][k] == parents[p].spec.schema.properties@[k].0);
    lemma_parents_merged_names(pn, parents.len() as int, p, k);
    lemma_with_overrides_names(
        parents_merged(pn, parents.len() as int),
        tagged(entry_names(model.spec.schema.properties@), Origin::Own),
        parents[p].spec.schema.properties@[k].0@,
    );
}


/// A model inherits every computed field of each of its parents: each name
/// of a parent's computed field is a name of the merged computed fields.
pub proof fn parent_computed_inherited(model: DataModel, parents: Seq<DataModel>, p: int, k: int)
    requires
        0 <= p < parents.len(),
        0 <= k < parents[p].spec.computed@.len(),
        parents.len() <= usize::MAX,
    ensures
        has_key(computed_plan(model, parents), parents[p].spec.computed@[k].0@),
{
    let cn = parent_computed_names(parents);
    assert(cn[p] == entry_names(parents[p].spec.computed@));
    assert(cn[p][k] == parents[p].spec.computed@[k].0);
    lemma_parents_merged_names(cn, parents.len() as int, p, k);
    lemma_with_overrides_names(
        parents_merged(cn, parents.len() as int),
        tagged(entry_names(model.spec.computed@), Origin::Own),
        parents[p].spec.computed@[k].0@,
    );
}

/// A resolved model has a computed field of every name that one of its
/// parents computes, and one of every name it computes itself.
pub proof fn resolved_model_keeps_computed_fields(m: DataModel, model: DataModel, parents: Seq<DataModel>)
    requires
        resolved_as(m, model, parents),
        parents.len() <= usize::MAX,
    ensures
        forall|p: int, k: int|
            0 <= p < parents.len() && 0 <= k < parents[p].spec.computed@.len() ==> has_key(
                m.spec.computed@,
                (#[trigger] parents[p].spec.computed@[k]).0@,
            ),
        forall|k: int|
            0 <= k < model.spec.computed@.len() ==> has_key(
                m.spec.computed@,
                (#[trigger] model.spec.computed@[k]).0@,
            ),
{
    let plan = computed_plan(model, parents);
    assert forall|q: Seq<char>| has_key(plan, q) implies has_key(m.spec.computed@, q) by {
        let i = choose|i: int| 0 <= i < plan.len() && #[trigger] plan[i].0@ == q;
        assert(entry_names(plan)[i] == plan[i].0);
        assert(entry_names(m.spec.computed@).len() == entry_names(plan).len());
        assert(entry_names(m.spec.computed@)[i] == m.spec.computed@[i].0);
        assert(m.spec.computed@[i].0@ == q);
    }
    assert forall|p: int, k: int|
        0 <= p < parents.len() && 0 <= k < parents[p].spec.computed@.len() implies has_key(
            m.spec.computed@,
            (#[trigger] parents[p].spec.computed@[k]).0@,
        ) by {
        parent_computed_inherited(model, parents, p, k);
    }
    assert forall|k: int| 0 <= k < model.spec.computed@.len() implies has_key(
        m.spec.computed@,
        (#[trigger] model.spec.computed@[k]).0@,
    ) by {
        let own = tagged(entry_names(model.spec.computed@), Origin::Own);
        lemma_with_overrides_names(
            parents_merged(parent_computed_names(parents), parents.len() as int),
            own,
            model.spec.computed@[k].0@,
        );
        assert(own[k].0@ == model.spec.computed@[k].0@);
    }
}

}
