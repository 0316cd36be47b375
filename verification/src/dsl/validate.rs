//! Core Parser Module
//!
//! Reads a KDL document and checks it against a schema: arguments, properties
//! (written `key=value` or as a child `key value`), child nodes, value types
//! and enum values.

use std::sync::Arc;
use vstd::prelude::*;
use vstd::string::*;
use crate::dsl::document::{KdlValue, Entry, Node, Document, is_property_named, last_property_index, lemma_last_property_index};
use crate::dsl::error::{Severity, SourceFile, DiagnosticKind, DslDiagnostic, DslError, KdlFailure, KindView, from_kdl_error, reports_kdl_failure, count_severity, reports_of, lemma_reports_append, lemma_reports_push};
use crate::dsl::schema::{ValueType, PropertyDef, NodeDef, Schema, value_matches, value_type_name, value_type_label, value_kind_name, lookup_key, has_key, find_key, find_key_from, lemma_find_key_from, lemma_lookup_key, contains_text};
use crate::dsl::span::Span;
use crate::dsl::kdl_bridge::{parse_kdl, kdl_parse_outcome};
use crate::text::{join2, join5, join_all, joined, str_eq};

verus! {

// ------------------------------------------------------------------------
// What it means for a document to conform to a schema
// ------------------------------------------------------------------------

/// Index of the first definition in `defs[i..]` named `name`.
pub open spec fn find_def_from(defs: Seq<NodeDef>, name: Seq<char>, i: int) -> Option<int>
    decreases defs.len() - i,
{
    if i < 0 || i >= defs.len() {
        None
    } else if defs[i].name matches Some(n) && n@ == name {
        Some(i)
    } else {
        find_def_from(defs, name, i + 1)
    }
}

pub proof fn lemma_find_def_from(defs: Seq<NodeDef>, name: Seq<char>, i: int)
    requires
        0 <= i <= defs.len(),
    ensures
        match find_def_from(defs, name, i) {
            Some(k) => i <= k < defs.len() && (defs[k].name matches Some(n) && n@ == name),
            None => true,
        },
    decreases defs.len() - i,
{
    if i < defs.len() && !(defs[i].name matches Some(n) && n@ == name) {
        lemma_find_def_from(defs, name, i + 1);
    }
}

/// The first child definition named `name`.
pub open spec fn child_def(defs: Seq<NodeDef>, name: Seq<char>) -> Option<NodeDef> {
    match find_def_from(defs, name, 0) {
        Some(k) => Some(defs[k]),
        None => None,
    }
}

/// The arguments of a node: its entries without a name, in order.
pub open spec fn arguments_of(es: Seq<Entry>) -> Seq<Entry>
    decreases es.len(),
{
    if es.len() == 0 {
        seq![]
    } else if es.last().name is None {
        arguments_of(es.drop_last()).push(es.last())
    } else {
        arguments_of(es.drop_last())
    }
}

/// Every required argument is present and of its type.
pub open spec fn arguments_conform(node: Node, def: NodeDef) -> bool {
    let args = arguments_of(node.entries@);
    forall|i: int|
        0 <= i < def.arguments@.len() && (#[trigger] def.arguments@[i]).required ==> i < args.len()
            && value_matches(def.arguments@[i].ty, args[i].value)
}

/// A string value of an enum type is one of the enum's values (when the enum is defined).
pub open spec fn enum_accepts(schema: Schema, ty: ValueType, v: KdlValue) -> bool {
    match ty {
        ValueType::Enum(n) => match lookup_key(schema.enums@, n@) {
            Some(ed) => match v {
                KdlValue::String(s) => contains_text(ed.values@, s@),
                _ => true,
            },
            None => true,
        },
        _ => true,
    }
}

/// A property value conforms to its definition.
pub open spec fn value_conforms(schema: Schema, pd: PropertyDef, v: KdlValue) -> bool {
    value_matches(pd.ty, v) && enum_accepts(schema, pd.ty, v)
}

/// The nodes of a node's child block (none when it has no block).
pub open spec fn child_nodes(node: Node) -> Seq<Node> {
    match node.children {
        Some(d) => d.nodes@,
        None => seq![],
    }
}

/// A node whose only entry is one argument (`name value`).
pub open spec fn is_single_argument(node: Node) -> bool {
    node.entries@.len() == 1 && node.entries@[0].name is None
}

/// A node whose first entry is an argument.
pub open spec fn starts_with_argument(node: Node) -> bool {
    node.entries@.len() > 0 && node.entries@[0].name is None
}

/// Whether the node has a `key=value` entry.
pub open spec fn has_property_entry(node: Node, key: Seq<char>) -> bool {
    exists|i: int| 0 <= i < node.entries@.len() && is_property_named(#[trigger] node.entries@[i], key)
}

/// Whether the node gives a value for `key`: as `key=value`, or as a child
/// named `key` whose first entry is an argument.
pub open spec fn provides_property(node: Node, key: Seq<char>) -> bool {
    ||| has_property_entry(node, key)
    ||| exists|j: int|
        0 <= j < child_nodes(node).len() && (#[trigger] child_nodes(node)[j]).name@ == key
            && starts_with_argument(child_nodes(node)[j])
}

/// A `key=value` entry is defined and conforms, or unknown properties are allowed.
pub open spec fn entry_conforms(schema: Schema, def: NodeDef, e: Entry) -> bool {
    match e.name {
        Some(n) => match lookup_key(def.properties@, n@) {
            Some(pd) => value_conforms(schema, pd, e.value),
            None => def.allow_unknown_properties,
        },
        None => true,
    }
}

/// A child in property form (`key value`, not also given as `key=value`)
/// of a defined property conforms to it.
pub open spec fn child_property_conforms(
    schema: Schema,
    node: Node,
    def: NodeDef,
    child: Node,
) -> bool {
    (!has_property_entry(node, child.name@) && starts_with_argument(child)) ==> match lookup_key(
        def.properties@,
        child.name@,
    ) {
        Some(pd) => value_conforms(schema, pd, child.entries@[0].value),
        None => true,
    }
}

/// Required properties are given, given properties conform, and unknown
/// `key=value` properties appear only where allowed.
pub open spec fn properties_conform(schema: Schema, node: Node, def: NodeDef) -> bool {
    &&& forall|i: int|
        0 <= i < def.properties@.len() && (#[trigger] def.properties@[i]).1.required
            ==> provides_property(node, def.properties@[i].0@)
    &&& forall|i: int|
        0 <= i < node.entries@.len() ==> entry_conforms(schema, def, #[trigger] node.entries@[i])
    &&& forall|j: int|
        0 <= j < child_nodes(node).len() ==> child_property_conforms(
            schema,
            node,
            def,
            #[trigger] child_nodes(node)[j],
        )
}

/// A child in property form of a defined property.
pub open spec fn is_property_child(def: NodeDef, child: Node) -> bool {
    has_key(def.properties@, child.name@) && is_single_argument(child)
}

/// A node conforms to a definition: its arguments, its properties, and each
/// child that is not in property form conforms to the first child definition
/// of its name (or unknown children are allowed).
pub open spec fn node_conforms(schema: Schema, node: Node, def: NodeDef) -> bool
    decreases node, 0int,
{
    &&& arguments_conform(node, def)
    &&& properties_conform(schema, node, def)
    &&& match node.children {
        Some(d) => children_conform(schema, d, def, d.nodes@.len() as int),
        None => true,
    }
}

/// The first `n` nodes of `doc`, children of a node defined by `def`, conform.
pub open spec fn children_conform(schema: Schema, doc: Document, def: NodeDef, n: int) -> bool
    decreases doc, n,
{
    if n <= 0 || n > doc.nodes@.len() {
        true
    } else {
        let c = doc.nodes@[n - 1];
        &&& children_conform(schema, doc, def, n - 1)
        &&& (is_property_child(def, c) || match child_def(def.children@, c.name@) {
            Some(cd) => node_conforms(schema, c, cd),
            None => def.allow_unknown_children,
        })
    }
}

/// The root definition describes properties of the document itself: it has
/// no name (or an empty one) and defines properties.
pub open spec fn root_is_property_container(root: NodeDef) -> bool {
    &&& match root.name {
        Some(n) => n@.len() == 0,
        None => true,
    }
    &&& root.properties@.len() > 0
}

/// A top-level node of a property-container document conforms.
pub open spec fn root_node_conforms(schema: Schema, node: Node) -> bool {
    let root = schema.root;
    match lookup_key(root.properties@, node.name@) {
        Some(pd) if is_single_argument(node) => value_conforms(schema, pd, node.entries@[0].value),
        _ => match child_def(root.children@, node.name@) {
            Some(cd) => node_conforms(schema, node, cd),
            None => root.allow_unknown_children,
        },
    }
}

/// A document conforms to a schema.
pub open spec fn document_conforms(schema: Schema, doc: Document) -> bool {
    let root = schema.root;
    if root_is_property_container(root) {
        &&& forall|i: int|
            0 <= i < doc.nodes@.len() ==> root_node_conforms(schema, #[trigger] doc.nodes@[i])
        &&& forall|k: int|
            0 <= k < root.properties@.len() && (#[trigger] root.properties@[k]).1.required
                ==> exists|i: int|
                0 <= i < doc.nodes@.len() && (#[trigger] doc.nodes@[i]).name@
                    == root.properties@[k].0@ && is_single_argument(doc.nodes@[i])
    } else {
        forall|i: int| 0 <= i < doc.nodes@.len() ==> node_conforms(schema, #[trigger] doc.nodes@[i], root)
    }
}

// ------------------------------------------------------------------------
// What checking a document reports, in order
// ------------------------------------------------------------------------

/// What checking an enum value given at `span` reports: a string that is
/// not one of a defined enum's values.
pub open spec fn enum_reports(schema: Schema, ty: ValueType, v: KdlValue, span: Span) -> Seq<(KindView, Span)> {
    match ty {
        ValueType::Enum(n) => match lookup_key(schema.enums@, n@) {
            Some(ed) => match v {
                KdlValue::String(s) => if contains_text(ed.values@, s@) {
                    seq![]
                } else {
                    seq![
                        (
                            KindView::InvalidValue {
                                message: "Invalid enum value '"@ + s@ + "' for enum '"@ + n@ + "'"@,
                                suggestion: Some("Valid values are: "@ + joined(ed.values@, ", "@)),
                            },
                            span,
                        ),
                    ]
                },
                _ => seq![],
            },
            None => seq![],
        },
        _ => seq![],
    }
}

/// What checking a property value given at `span` reports: a value of the
/// wrong type, then an enum value that is not allowed.
pub open spec fn value_reports(schema: Schema, pd: PropertyDef, v: KdlValue, span: Span) -> Seq<(KindView, Span)> {
    let mismatch: Seq<(KindView, Span)> = if value_matches(pd.ty, v) {
        seq![]
    } else {
        seq![(KindView::TypeMismatch { expected: value_type_label(pd.ty), got: value_kind_name(v) }, span)]
    };
    mismatch + enum_reports(schema, pd.ty, v, span)
}

/// What checking the `j`-th argument definition of `def` reports for `node`.
pub open spec fn argument_report(node: Node, def: NodeDef, j: int) -> Seq<(KindView, Span)> {
    let ad = def.arguments@[j];
    let args = arguments_of(node.entries@);
    if !ad.required {
        seq![]
    } else if j >= args.len() {
        seq![(KindView::MissingProperty { property: ad.name@ }, node.span)]
    } else if value_matches(ad.ty, args[j].value) {
        seq![]
    } else {
        seq![(KindView::TypeMismatch { expected: value_type_label(ad.ty), got: value_kind_name(args[j].value) }, args[j].span)]
    }
}

/// What checking the first `n` argument definitions reports.
pub open spec fn argument_reports(node: Node, def: NodeDef, n: int) -> Seq<(KindView, Span)>
    decreases n,
{
    if n <= 0 {
        seq![]
    } else {
        argument_reports(node, def, n - 1) + argument_report(node, def, n - 1)
    }
}

/// What checking that the `j`-th property of `def` is given reports.
pub open spec fn missing_property_report(node: Node, def: NodeDef, j: int) -> Seq<(KindView, Span)> {
    let (name, pd) = def.properties@[j];
    if pd.required && !provides_property(node, name@) {
        seq![(KindView::MissingProperty { property: name@ }, node.span)]
    } else {
        seq![]
    }
}

/// What checking that the first `n` properties of `def` are given reports.
pub open spec fn missing_property_reports(node: Node, def: NodeDef, n: int) -> Seq<(KindView, Span)>
    decreases n,
{
    if n <= 0 {
        seq![]
    } else {
        missing_property_reports(node, def, n - 1) + missing_property_report(node, def, n - 1)
    }
}

/// What checking a `key=value` entry reports: an unknown property, or what
/// its value reports.
pub open spec fn entry_report(schema: Schema, def: NodeDef, e: Entry) -> Seq<(KindView, Span)> {
    match e.name {
        Some(n) => match lookup_key(def.properties@, n@) {
            Some(pd) => value_reports(schema, pd, e.value, e.span),
            None => if def.allow_unknown_properties {
                seq![]
            } else {
                seq![(KindView::UnknownProperty { property: n@, suggestion: None }, e.span)]
            },
        },
        None => seq![],
    }
}

/// What checking the first `n` entries reports.
pub open spec fn entry_reports(schema: Schema, def: NodeDef, es: Seq<Entry>, n: int) -> Seq<(KindView, Span)>
    decreases n,
{
    if n <= 0 {
        seq![]
    } else {
        entry_reports(schema, def, es, n - 1) + entry_report(schema, def, es[n - 1])
    }
}

/// What checking a child in property form (`key value`) reports.
pub open spec fn child_property_report(schema: Schema, node: Node, def: NodeDef, c: Node) -> Seq<(KindView, Span)> {
    if !has_property_entry(node, c.name@) && starts_with_argument(c) {
        match lookup_key(def.properties@, c.name@) {
            Some(pd) => value_reports(schema, pd, c.entries@[0].value, c.entries@[0].span),
            None => seq![],
        }
    } else {
        seq![]
    }
}

/// What checking the first `n` children in property form reports.
pub open spec fn child_property_reports(schema: Schema, node: Node, def: NodeDef, n: int) -> Seq<(KindView, Span)>
    decreases n,
{
    if n <= 0 {
        seq![]
    } else {
        child_property_reports(schema, node, def, n - 1) + child_property_report(schema, node, def, child_nodes(node)[n - 1])
    }
}

/// What checking the properties of a node reports: missing required ones,
/// then its `key=value` entries, then its children in property form.
pub open spec fn property_reports(schema: Schema, node: Node, def: NodeDef) -> Seq<(KindView, Span)> {
    missing_property_reports(node, def, def.properties@.len() as int)
        + entry_reports(schema, def, node.entries@, node.entries@.len() as int)
        + child_property_reports(schema, node, def, child_nodes(node).len() as int)
}

/// What checking a node against a definition reports: its arguments, its
/// properties, then its children.
pub open spec fn node_reports(schema: Schema, node: Node, def: NodeDef) -> Seq<(KindView, Span)>
    decreases node, 0int,
{
    argument_reports(node, def, def.arguments@.len() as int) + property_reports(schema, node, def) + match node.children {
        Some(d) => children_reports(schema, d, def, d.nodes@.len() as int),
        None => seq![],
    }
}

/// What checking the first `n` nodes of `doc`, children of a node defined by
/// `def`, reports.
pub open spec fn children_reports(schema: Schema, doc: Document, def: NodeDef, n: int) -> Seq<(KindView, Span)>
    decreases doc, n,
{
    if n <= 0 || n > doc.nodes@.len() {
        seq![]
    } else {
        let c = doc.nodes@[n - 1];
        children_reports(schema, doc, def, n - 1) + if is_property_child(def, c) {
            seq![]
        } else {
            match child_def(def.children@, c.name@) {
                Some(cd) => node_reports(schema, c, cd),
                None => if def.allow_unknown_children {
                    seq![]
                } else {
                    seq![(KindView::UnknownNode { node_name: c.name@, suggestion: None }, c.span)]
                },
            }
        }
    }
}

/// What checking a top-level node of a property-container document reports.
pub open spec fn root_node_reports(schema: Schema, node: Node) -> Seq<(KindView, Span)> {
    let root = schema.root;
    match lookup_key(root.properties@, node.name@) {
        Some(pd) if is_single_argument(node) => value_reports(schema, pd, node.entries@[0].value, node.entries@[0].span),
        _ => match child_def(root.children@, node.name@) {
            Some(cd) => node_reports(schema, node, cd),
            None => if root.allow_unknown_children {
                seq![]
            } else {
                seq![(KindView::UnknownNode { node_name: node.name@, suggestion: None }, node.span)]
            },
        },
    }
}

/// What checking the first `n` top-level nodes of a property-container document reports.
pub open spec fn root_nodes_reports(schema: Schema, nodes: Seq<Node>, n: int) -> Seq<(KindView, Span)>
    decreases n,
{
    if n <= 0 {
        seq![]
    } else {
        root_nodes_reports(schema, nodes, n - 1) + root_node_reports(schema, nodes[n - 1])
    }
}

/// What checking that the first `n` root properties are given as top-level
/// nodes reports.
pub open spec fn missing_root_reports(schema: Schema, nodes: Seq<Node>, n: int) -> Seq<(KindView, Span)>
    decreases n,
{
    if n <= 0 {
        seq![]
    } else {
        let (name, pd) = schema.root.properties@[n - 1];
        let given = exists|i: int| 0 <= i < nodes.len() && (#[trigger] nodes[i]).name@ == name@ && is_single_argument(nodes[i]);
        missing_root_reports(schema, nodes, n - 1) + if pd.required && !given {
            seq![(KindView::MissingProperty { property: name@ }, Span { offset: 0, len: 0 })]
        } else {
            seq![]
        }
    }
}

/// What checking the first `n` top-level nodes against the root definition reports.
pub open spec fn root_def_reports(schema: Schema, nodes: Seq<Node>, n: int) -> Seq<(KindView, Span)>
    decreases n,
{
    if n <= 0 {
        seq![]
    } else {
        root_def_reports(schema, nodes, n - 1) + node_reports(schema, nodes[n - 1], schema.root)
    }
}

/// What checking a document against a schema reports, in order.
pub open spec fn document_reports(schema: Schema, doc: Document) -> Seq<(KindView, Span)> {
    if root_is_property_container(schema.root) {
        root_nodes_reports(schema, doc.nodes@, doc.nodes@.len() as int)
            + missing_root_reports(schema, doc.nodes@, schema.root.properties@.len() as int)
    } else {
        root_def_reports(schema, doc.nodes@, doc.nodes@.len() as int)
    }
}

/// Every diagnostic is an error that points into `source`, with no related spans.
pub open spec fn all_errors_in(ds: Seq<DslDiagnostic>, source: Arc<SourceFile>) -> bool {
    forall|i: int|
        0 <= i < ds.len() ==> (#[trigger] ds[i]).severity == Severity::Error && ds[i].source == source
            && ds[i].related_spans@.len() == 0
}

}

verus! {

// ------------------------------------------------------------------------
// Checking a document against a schema
// ------------------------------------------------------------------------

/// Positions of the argument entries (entries without a name), in order.
fn argument_positions(es: &Vec<Entry>) -> (r: Vec<usize>)
    ensures
        r@.len() == arguments_of(es@).len(),
        forall|k: int|
            0 <= k < r@.len() ==> #[trigger] r@[k] < es@.len() && es@[r@[k] as int] == arguments_of(
                es@,
            )[k],
{
    let mut r: Vec<usize> = Vec::new();
    let mut i: usize = 0;
    while i < es.len()
        invariant
            i <= es@.len(),
            r@.len() == arguments_of(es@.take(i as int)).len(),
            forall|k: int|
                0 <= k < r@.len() ==> #[trigger] r@[k] < i && es@[r@[k] as int] == arguments_of(
                    es@.take(i as int),
                )[k],
        decreases es.len() - i,
    {
        let ghost before = arguments_of(es@.take(i as int));
        assert(es@.take(i + 1).drop_last() =~= es@.take(i as int));
        assert(es@.take(i + 1).last() == es@[i as int]);
        let ghost old_r = r@;
        if es[i].name.is_none() {
            r.push(i);
            assert(arguments_of(es@.take(i + 1)) == before.push(es@[i as int]));
        } else {
            assert(arguments_of(es@.take(i + 1)) == before);
        }
        assert forall|k: int| 0 <= k < r@.len() implies r@[k] < i + 1 && es@[r@[k] as int]
            == arguments_of(es@.take(i + 1))[k] by {
            if k < old_r.len() {
                assert(r@[k] == old_r[k]);
            }
        }
        i = i + 1;
    }
    assert(es@.take(i as int) =~= es@);
    r
}

/// Position of the first child definition named `name`.
fn find_child_def(defs: &Vec<NodeDef>, name: &str) -> (r: Option<usize>)
    ensures
        match r {
            Some(j) => find_def_from(defs@, name@, 0) == Some(j as int),
            None => find_def_from(defs@, name@, 0) is None,
        },
{
    let mut i: usize = 0;
    while i < defs.len()
        invariant
            i <= defs@.len(),
            find_def_from(defs@, name@, 0) == find_def_from(defs@, name@, i as int),
        decreases defs.len() - i,
    {
        match &defs[i].name {
            Some(n) => {
                if str_eq(n.as_str(), name) {
                    return Some(i);
                }
            },
            None => {},
        }
        i = i + 1;
    }
    None
}

/// Whether the node has a `key=value` entry named `key`.
fn has_named_entry(node: &Node, key: &str) -> (r: bool)
    ensures
        r == has_property_entry(*node, key@),
{
    let mut i: usize = 0;
    while i < node.entries.len()
        invariant
            i <= node.entries@.len(),
            forall|j: int| 0 <= j < i ==> !is_property_named(#[trigger] node.entries@[j], key@),
        decreases node.entries.len() - i,
    {
        match &node.entries[i].name {
            Some(n) => {
                if str_eq(n.as_str(), key) {
                    return true;
                }
            },
            None => {},
        }
        i = i + 1;
    }
    false
}

/// The value given for `key`: the last `key=value` entry, else the first
/// argument of the first child named `key` that starts with an argument.
fn get_property_value<'a>(node: &'a Node, key: &str) -> (r: Option<&'a KdlValue>)
    ensures
        r is Some <==> provides_property(*node, key@),
{
    proof {
        lemma_last_property_index(node.entries@, key@);
    }
    match node.get(key) {
        Some(v) => {
            return Some(v);
        },
        None => {},
    }
    match &node.children {
        Some(d) => {
            let mut i: usize = 0;
            while i < d.nodes.len()
                invariant
                    i <= d.nodes@.len(),
                    child_nodes(*node) == d.nodes@,
                    forall|j: int|
                        0 <= j < i ==> !((#[trigger] d.nodes@[j]).name@ == key@
                            && starts_with_argument(d.nodes@[j])),
                decreases d.nodes.len() - i,
            {
                let c = &d.nodes[i];
                if str_eq(c.name.as_str(), key) && c.entries.len() > 0 && c.entries[0].name.is_none() {
                    return Some(&c.entries[0].value);
                }
                i = i + 1;
            }
            None
        },
        None => None,
    }
}

/// Checks one property value: its type, and for an enum type that the
/// string is one of the enum's values.
fn validate_property_value(
    value: &KdlValue,
    pd: &PropertyDef,
    schema: &Schema,
    source: &Arc<SourceFile>,
    span: Span,
) -> (r: Vec<DslDiagnostic>)
    ensures
        r@.len() == 0 <==> value_conforms(*schema, *pd, *value),
        all_errors_in(r@, *source),
        reports_of(r@) == value_reports(*schema, *pd, *value, span),
{
    let mut r: Vec<DslDiagnostic> = Vec::new();
    if !pd.ty.matches(value) {
        r.push(
            DslDiagnostic::error(
                source.clone(),
                DiagnosticKind::TypeMismatch { expected: pd.ty.name(), got: value_type_name(value) },
                span,
            ),
        );
    }
    let ghost first = r@;
    assert(reports_of(first) =~= if value_matches(pd.ty, *value) {
        seq![]
    } else {
        seq![(KindView::TypeMismatch { expected: value_type_label(pd.ty), got: value_kind_name(*value) }, span)]
    });
    match &pd.ty {
        ValueType::Enum(enum_name) => {
            match schema.get_enum(enum_name.as_str()) {
                Some(ed) => {
                    match value {
                        KdlValue::String(s) => {
                            if !ed.is_valid(s.as_str()) {
                                let message = join5(
                                    "Invalid enum value '",
                                    s.as_str(),
                                    "' for enum '",
                                    enum_name.as_str(),
                                    "'",
                                );
                                let listed = join_all(&ed.values, ", ");
                                let suggestion = join2("Valid values are: ", listed.as_str());
                                r.push(
                                    DslDiagnostic::error(
                                        source.clone(),
                                        DiagnosticKind::InvalidValue {
                                            message,
                                            suggestion: Some(suggestion),
                                        },
                                        span,
                                    ),
                                );
                                proof {
                                    lemma_reports_push(first, r@.last());
                                    assert(r@ =~= first.push(r@.last()));
                                }
                            }
                        },
                        _ => {},
                    }
                },
                None => {},
            }
        },
        _ => {},
    }
    r
}

/// Checks the required arguments of a node: present, and of their type.
fn validate_arguments(node: &Node, def: &NodeDef, source: &Arc<SourceFile>) -> (r: Vec<
    DslDiagnostic,
>)
    ensures
        r@.len() == 0 <==> arguments_conform(*node, *def),
        all_errors_in(r@, *source),
        reports_of(r@) == argument_reports(*node, *def, def.arguments@.len() as int),
{
    let pos = argument_positions(&node.entries);
    let ghost args = arguments_of(node.entries@);
    assert(forall|k: int|
        0 <= k < pos@.len() ==> #[trigger] pos@[k] < node.entries@.len() && node.entries@[pos@[k] as int]
            == args[k]);
    let mut r: Vec<DslDiagnostic> = Vec::new();
    let mut i: usize = 0;
    while i < def.arguments.len()
        invariant
            i <= def.arguments@.len(),
            pos@.len() == args.len(),
            args == arguments_of(node.entries@),
            forall|k: int|
                0 <= k < pos@.len() ==> #[trigger] pos@[k] < node.entries@.len() && node.entries@[pos@[k] as int]
                    == args[k],
            all_errors_in(r@, *source),
            r@.len() == 0 <==> forall|j: int|
                0 <= j < i && (#[trigger] def.arguments@[j]).required ==> j < args.len()
                    && value_matches(def.arguments@[j].ty, args[j].value),
            reports_of(r@) == argument_reports(*node, *def, i as int),
        decreases def.arguments.len() - i,
    {
        let ad = &def.arguments[i];
        let ghost before = r@;
        if ad.required {
            if i >= pos.len() {
                r.push(
                    DslDiagnostic::error(
                        source.clone(),
                        DiagnosticKind::MissingProperty { property: ad.name.clone() },
                        node.span,
                    ),
                );
            } else {
                let e = &node.entries[pos[i]];
                if !ad.ty.matches(&e.value) {
                    r.push(
                        DslDiagnostic::error(
                            source.clone(),
                            DiagnosticKind::TypeMismatch {
                                expected: ad.ty.name(),
                                got: value_type_name(&e.value),
                            },
                            e.span,
                        ),
                    );
                }
            }
        }
        proof {
            if r@.len() > before.len() {
                assert(r@ =~= before.push(r@.last()));
                lemma_reports_push(before, r@.last());
            }
            assert(reports_of(r@) =~= argument_reports(*node, *def, i as int) + argument_report(*node, *def, i as int));
        }
        i = i + 1;
    }
    r
}

}

verus! {

/// Checks the properties of a node: required ones are given, `key=value`
/// entries are defined (or unknown ones allowed) and conform, and children in
/// property form conform.
fn validate_properties(node: &Node, def: &NodeDef, schema: &Schema, source: &Arc<SourceFile>) -> (r: Vec<
    DslDiagnostic,
>)
    ensures
        r@.len() == 0 <==> properties_conform(*schema, *node, *def),
        all_errors_in(r@, *source),
        reports_of(r@) == property_reports(*schema, *node, *def),
{
    // Required properties, in either form.
    let mut missing: Vec<DslDiagnostic> = Vec::new();
    let mut i: usize = 0;
    while i < def.properties.len()
        invariant
            i <= def.properties@.len(),
            all_errors_in(missing@, *source),
            missing@.len() == 0 <==> forall|j: int|
                0 <= j < i && (#[trigger] def.properties@[j]).1.required ==> provides_property(
                    *node,
                    def.properties@[j].0@,
                ),
            reports_of(missing@) == missing_property_reports(*node, *def, i as int),
        decreases def.properties.len() - i,
    {
        let ghost before = missing@;
        if def.properties[i].1.required {
            if get_property_value(node, def.properties[i].0.as_str()).is_none() {
                missing.push(
                    DslDiagnostic::error(
                        source.clone(),
                        DiagnosticKind::MissingProperty { property: def.properties[i].0.clone() },
                        node.span,
                    ),
                );
            }
        }
        proof {
            if missing@.len() > before.len() {
                assert(missing@ =~= before.push(missing@.last()));
                lemma_reports_push(before, missing@.last());
            }
            assert(reports_of(missing@) =~= missing_property_reports(*node, *def, i as int)
                + missing_property_report(*node, *def, i as int));
        }
        i = i + 1;
    }
    // `key=value` entries.
    let mut entries: Vec<DslDiagnostic> = Vec::new();
    let mut i: usize = 0;
    while i < node.entries.len()
        invariant
            i <= node.entries@.len(),
            all_errors_in(entries@, *source),
            entries@.len() == 0 <==> forall|j: int|
                0 <= j < i ==> entry_conforms(*schema, *def, #[trigger] node.entries@[j]),
            reports_of(entries@) == entry_reports(*schema, *def, node.entries@, i as int),
        decreases node.entries.len() - i,
    {
        let e = &node.entries[i];
        let ghost before = entries@;
        match &e.name {
            Some(n) => {
                proof {
                    lemma_find_key_from(def.properties@, n@, 0);
                }
                match find_key(&def.properties, n.as_str()) {
                    Some(k) => {
                        let mut found = validate_property_value(
                            &e.value,
                            &def.properties[k].1,
                            schema,
                            source,
                            e.span,
                        );
                        let ghost f = found@;
                        entries.append(&mut found);
                        proof {
                            lemma_reports_append(before, f);
                        }
                    },
                    None => {
                        if !def.allow_unknown_properties {
                            entries.push(
                                DslDiagnostic::error(
                                    source.clone(),
                                    DiagnosticKind::UnknownProperty {
                                        property: n.clone(),
                                        suggestion: None,
                                    },
                                    e.span,
                                ),
                            );
                            proof {
                                lemma_reports_push(before, entries@.last());
                            }
                        }
                    },
                }
            },
            None => {},
        }
        proof {
            assert(reports_of(entries@) =~= entry_reports(*schema, *def, node.entries@, i as int)
                + entry_report(*schema, *def, node.entries@[i as int]));
        }
        i = i + 1;
    }
    // Children in property form (`key value`).
    let mut children: Vec<DslDiagnostic> = Vec::new();
    match &node.children {
        Some(d) => {
            let mut i: usize = 0;
            while i < d.nodes.len()
                invariant
                    i <= d.nodes@.len(),
                    child_nodes(*node) == d.nodes@,
                    all_errors_in(children@, *source),
                    children@.len() == 0 <==> forall|j: int|
                        0 <= j < i ==> child_property_conforms(
                            *schema,
                            *node,
                            *def,
                            #[trigger] d.nodes@[j],
                        ),
                    reports_of(children@) == child_property_reports(*schema, *node, *def, i as int),
                decreases d.nodes.len() - i,
            {
                let c = &d.nodes[i];
                let ghost before = children@;
                proof {
                    lemma_find_key_from(def.properties@, c.name@, 0);
                }
                if !has_named_entry(node, c.name.as_str()) {
                    match find_key(&def.properties, c.name.as_str()) {
                        Some(k) => {
                            if c.entries.len() > 0 && c.entries[0].name.is_none() {
                                let mut found = validate_property_value(
                                    &c.entries[0].value,
                                    &def.properties[k].1,
                                    schema,
                                    source,
                                    c.entries[0].span,
                                );
                                let ghost f = found@;
                                children.append(&mut found);
                                proof {
                                    lemma_reports_append(before, f);
                                }
                            }
                        },
                        None => {},
                    }
                }
                proof {
                    assert(reports_of(children@) =~= child_property_reports(*schema, *node, *def, i as int)
                        + child_property_report(*schema, *node, *def, child_nodes(*node)[i as int]));
                }
                i = i + 1;
            }
        },
        None => {},
    }
    let ghost m = missing@;
    let ghost en = entries@;
    let ghost ch = children@;
    missing.append(&mut entries);
    missing.append(&mut children);
    proof {
        lemma_reports_append(m, en);
        lemma_reports_append(m + en, ch);
        assert(missing@ =~= m + en + ch);
        if node.children is None {
            assert(child_property_reports(*schema, *node, *def, 0) == Seq::<(KindView, Span)>::empty());
        }
    }
    missing
}

/// Whether `child` is in property form for `def`: a defined property with
/// exactly one entry, an argument.
fn is_property_form(def: &NodeDef, child: &Node) -> (r: bool)
    ensures
        r == is_property_child(*def, *child),
{
    proof {
        lemma_lookup_key(def.properties@, child.name@);
        lemma_find_key_from(def.properties@, child.name@, 0);
    }
    find_key(&def.properties, child.name.as_str()).is_some() && child.entries.len() == 1
        && child.entries[0].name.is_none()
}

/// Checks the nodes of a child block against the child definitions of `def`.
fn validate_children(doc: &Document, def: &NodeDef, schema: &Schema, source: &Arc<SourceFile>) -> (r: Vec<
    DslDiagnostic,
>)
    ensures
        r@.len() == 0 <==> children_conform(*schema, *doc, *def, doc.nodes@.len() as int),
        all_errors_in(r@, *source),
        reports_of(r@) == children_reports(*schema, *doc, *def, doc.nodes@.len() as int),
    decreases doc, 0int,
{
    let mut r: Vec<DslDiagnostic> = Vec::new();
    let mut i: usize = 0;
    while i < doc.nodes.len()
        invariant
            i <= doc.nodes@.len(),
            all_errors_in(r@, *source),
            r@.len() == 0 <==> children_conform(*schema, *doc, *def, i as int),
            reports_of(r@) == children_reports(*schema, *doc, *def, i as int),
        decreases doc.nodes.len() - i,
    {
        let c = &doc.nodes[i];
        let ghost before = r@;
        proof {
            lemma_find_def_from(def.children@, c.name@, 0);
        }
        if !is_property_form(def, c) {
            match find_child_def(&def.children, c.name.as_str()) {
                Some(k) => {
                    proof {
                        assert(decreases_to!(doc => doc.nodes));
                        assert(decreases_to!(doc.nodes => doc.nodes@));
                        assert(decreases_to!(doc.nodes@ => doc.nodes@[i as int]));
                    }
                    let mut found = validate_node_against_def(c, &def.children[k], schema, source);
                    let ghost f = found@;
                    r.append(&mut found);
                    proof {
                        lemma_reports_append(before, f);
                    }
                },
                None => {
                    if !def.allow_unknown_children {
                        r.push(
                            DslDiagnostic::error(
                                source.clone(),
                                DiagnosticKind::UnknownNode {
                                    node_name: c.name.clone(),
                                    suggestion: None,
                                },
                                c.span,
                            ),
                        );
                        proof {
                            lemma_reports_push(before, r@.last());
                        }
                    }
                },
            }
        }
        i = i + 1;
    }
    r
}

/// Checks a node against its definition: arguments, properties, then children.
fn validate_node_against_def(
    node: &Node,
    def: &NodeDef,
    schema: &Schema,
    source: &Arc<SourceFile>,
) -> (r: Vec<DslDiagnostic>)
    ensures
        r@.len() == 0 <==> node_conforms(*schema, *node, *def),
        all_errors_in(r@, *source),
        reports_of(r@) == node_reports(*schema, *node, *def),
    decreases node, 1int,
{
    let mut r = validate_arguments(node, def, source);
    let mut props = validate_properties(node, def, schema, source);
    let ghost a = r@;
    let ghost p = props@;
    r.append(&mut props);
    proof {
        lemma_reports_append(a, p);
    }
    match &node.children {
        Some(d) => {
            let mut found = validate_children(d, def, schema, source);
            let ghost f = found@;
            let ghost ap = r@;
            r.append(&mut found);
            proof {
                lemma_reports_append(ap, f);
            }
        },
        None => {
            proof {
                assert(reports_of(r@) =~= reports_of(r@) + Seq::<(KindView, Span)>::empty());
            }
        },
    }
    r
}

}

verus! {

/// Whether some top-level node is named `key` and holds a single argument.
fn has_property_node(doc: &Document, key: &str) -> (r: bool)
    ensures
        r == exists|i: int|
            0 <= i < doc.nodes@.len() && (#[trigger] doc.nodes@[i]).name@ == key@
                && is_single_argument(doc.nodes@[i]),
{
    let mut i: usize = 0;
    while i < doc.nodes.len()
        invariant
            i <= doc.nodes@.len(),
            forall|j: int|
                0 <= j < i ==> !((#[trigger] doc.nodes@[j]).name@ == key@ && is_single_argument(
                    doc.nodes@[j],
                )),
        decreases doc.nodes.len() - i,
    {
        let n = &doc.nodes[i];
        if str_eq(n.name.as_str(), key) && n.entries.len() == 1 && n.entries[0].name.is_none() {
            return true;
        }
        i = i + 1;
    }
    false
}

/// Checks a whole document against a schema.
pub fn validate_document(doc: &Document, schema: &Schema, source: &Arc<SourceFile>) -> (r: Vec<
    DslDiagnostic,
>)
    ensures
        r@.len() == 0 <==> document_conforms(*schema, *doc),
        all_errors_in(r@, *source),
        reports_of(r@) == document_reports(*schema, *doc),
{
    let root = &schema.root;
    let unnamed = match &root.name {
        Some(n) => n.as_str().is_empty(),
        None => true,
    };
    let mut r: Vec<DslDiagnostic> = Vec::new();
    if unnamed && root.properties.len() > 0 {
        // The top-level nodes are the properties and children of an implicit root.
        let mut i: usize = 0;
        while i < doc.nodes.len()
            invariant
                i <= doc.nodes@.len(),
                root == schema.root,
                all_errors_in(r@, *source),
                r@.len() == 0 <==> forall|j: int|
                    0 <= j < i ==> root_node_conforms(*schema, #[trigger] doc.nodes@[j]),
                reports_of(r@) == root_nodes_reports(*schema, doc.nodes@, i as int),
            decreases doc.nodes.len() - i,
        {
            let node = &doc.nodes[i];
            let ghost before = r@;
            proof {
                lemma_find_key_from(root.properties@, node.name@, 0);
                lemma_find_def_from(root.children@, node.name@, 0);
            }
            let mut as_property = false;
            match find_key(&root.properties, node.name.as_str()) {
                Some(k) => {
                    if node.entries.len() == 1 && node.entries[0].name.is_none() {
                        let mut found = validate_property_value(
                            &node.entries[0].value,
                            &root.properties[k].1,
                            schema,
                            source,
                            node.entries[0].span,
                        );
                        let ghost f = found@;
                        r.append(&mut found);
                        proof {
                            lemma_reports_append(before, f);
                        }
                        as_property = true;
                    }
                },
                None => {},
            }
            if !as_property {
                match find_child_def(&root.children, node.name.as_str()) {
                    Some(k) => {
                        let mut found = validate_node_against_def(
                            node,
                            &root.children[k],
                            schema,
                            source,
                        );
                        let ghost f = found@;
                        r.append(&mut found);
                        proof {
                            lemma_reports_append(before, f);
                        }
                    },
                    None => {
                        if !root.allow_unknown_children {
                            r.push(
                                DslDiagnostic::error(
                                    source.clone(),
                                    DiagnosticKind::UnknownNode {
                                        node_name: node.name.clone(),
                                        suggestion: None,
                                    },
                                    node.span,
                                ),
                            );
                            proof {
                                lemma_reports_push(before, r@.last());
                            }
                        }
                    },
                }
            }
            proof {
                assert(reports_of(r@) =~= root_nodes_reports(*schema, doc.nodes@, i as int)
                    + root_node_reports(*schema, doc.nodes@[i as int]));
            }
            i = i + 1;
        }
        // Required properties of the implicit root.
        let mut missing: Vec<DslDiagnostic> = Vec::new();
        let mut k: usize = 0;
        while k < root.properties.len()
            invariant
                k <= root.properties@.len(),
                root == schema.root,
                all_errors_in(missing@, *source),
                missing@.len() == 0 <==> forall|m: int|
                    0 <= m < k && (#[trigger] root.properties@[m]).1.required ==> exists|i: int|
                        0 <= i < doc.nodes@.len() && (#[trigger] doc.nodes@[i]).name@
                            == root.properties@[m].0@ && is_single_argument(doc.nodes@[i]),
                reports_of(missing@) == missing_root_reports(*schema, doc.nodes@, k as int),
            decreases root.properties.len() - k,
        {
            let ghost before = missing@;
            if root.properties[k].1.required && !has_property_node(
                doc,
                root.properties[k].0.as_str(),
            ) {
                missing.push(
                    DslDiagnostic::error(
                        source.clone(),
                        DiagnosticKind::MissingProperty { property: root.properties[k].0.clone() },
                        Span { offset: 0, len: 0 },
                    ),
                );
                proof {
                    lemma_reports_push(before, missing@.last());
                }
            }
            k = k + 1;
        }
        let ghost rn = r@;
        let ghost mi = missing@;
        r.append(&mut missing);
        proof {
            lemma_reports_append(rn, mi);
        }
    } else {
        // Every top-level node is checked against the root definition.
        let mut i: usize = 0;
        while i < doc.nodes.len()
            invariant
                i <= doc.nodes@.len(),
                root == schema.root,
                all_errors_in(r@, *source),
                r@.len() == 0 <==> forall|j: int|
                    0 <= j < i ==> node_conforms(*schema, #[trigger] doc.nodes@[j], schema.root),
                reports_of(r@) == root_def_reports(*schema, doc.nodes@, i as int),
            decreases doc.nodes.len() - i,
        {
            let mut found = validate_node_against_def(&doc.nodes[i], root, schema, source);
            let ghost before = r@;
            let ghost f = found@;
            r.append(&mut found);
            proof {
                lemma_reports_append(before, f);
            }
            i = i + 1;
        }
    }
    r
}

/// Every diagnostic of `ds` that is an error is counted as one.
proof fn lemma_all_errors_counted(ds: Seq<DslDiagnostic>, source: Arc<SourceFile>)
    requires
        all_errors_in(ds, source),
    ensures
        count_severity(ds, Severity::Error) == ds.len(),
    decreases ds.len(),
{
    if ds.len() > 0 {
        lemma_all_errors_counted(ds.drop_last(), source);
    }
}

/// A parsed and validated document
pub struct ParsedDocument {
    /// The parsed KDL document
    pub document: Document,
    /// Any diagnostics (warnings, etc.)
    pub diagnostics: Vec<DslDiagnostic>,
    /// Source information
    pub source: Arc<SourceFile>,
}

/// The main parser for schema-validated KDL documents
pub struct Parser {
    source: String,
    source_name: String,
    schema: Option<Schema>,
}

/// What a parse of `text`, named `name`, checked against `schema` when there
/// is one, returns: the KDL parser's failure, else the document when it
/// conforms, else an error that lists at least one problem.
pub open spec fn parse_outcome_holds(
    text: String,
    name: String,
    schema: Option<Schema>,
    r: Result<ParsedDocument, DslError>,
) -> bool {
    match kdl_parse_outcome(text@) {
        Err(f) => r matches Err(e) && reports_kdl_failure(e, f, name),
        Ok(doc) => {
            let conforms = match schema {
                Some(s) => document_conforms(s, doc),
                None => true,
            };
            &&& (r is Ok <==> conforms)
            &&& r matches Ok(p) ==> {
                &&& p.document == doc
                &&& p.diagnostics@.len() == 0
                &&& p.source.name == name
                &&& p.source.text == text
            }
            &&& r matches Err(e) ==> {
                &&& e.source.name == name
                &&& e.source.text == text
                &&& e.diagnostics@.len() > 0
                &&& all_errors_in(e.diagnostics@, e.source)
                &&& schema matches Some(s) && reports_of(e.diagnostics@) == document_reports(s, doc)
            }
        },
    }
}

impl Parser {
    /// The text to parse.
    pub closed spec fn source_text(self) -> String {
        self.source
    }

    /// The name the text is reported under.
    pub closed spec fn name_text(self) -> String {
        self.source_name
    }

    /// The schema the document is checked against, if any.
    pub closed spec fn schema_of(self) -> Option<Schema> {
        self.schema
    }

    /// Create a new parser
    pub fn new(source: String, source_name: String) -> (p: Self)
        ensures
            p.source_text() == source,
            p.name_text() == source_name,
            p.schema_of() is None,
    {
        Parser { source, source_name, schema: None }
    }

    /// Set the schema to validate against
    pub fn with_schema(self, schema: Schema) -> (p: Self)
        ensures
            p.source_text() == self.source_text(),
            p.name_text() == self.name_text(),
            p.schema_of() == Some(schema),
    {
        Parser { schema: Some(schema), ..self }
    }

    /// Parse the document, and check it against the schema when there is one.
    pub fn parse(&self) -> (r: Result<ParsedDocument, DslError>)
        ensures
            parse_outcome_holds(self.source_text(), self.name_text(), self.schema_of(), r),
    {
        let doc = match parse_kdl(self.source.as_str()) {
            Ok(doc) => doc,
            Err(err) => {
                return Err(from_kdl_error(err, self.source_name.clone()));
            },
        };
        let source = Arc::new(
            SourceFile { name: self.source_name.clone(), text: self.source.clone() },
        );
        let diagnostics = match &self.schema {
            Some(schema) => validate_document(&doc, schema, &source),
            None => Vec::new(),
        };
        proof {
            lemma_all_errors_counted(diagnostics@, source);
        }
        let err = DslError { source, diagnostics };
        if err.has_errors() {
            return Err(err);
        }
        Ok(ParsedDocument { document: doc, diagnostics: err.diagnostics, source: err.source })
    }
}

}
