//! A KDL document as plain values: nodes with a name, entries (arguments and
//! `key=value` properties) and optional children, each with its source span.

use vstd::prelude::*;
use crate::dsl::span::Span;
use crate::text::{debug_quoted, debug_str, signed_decimal, signed_decimal_text, join3};

verus! {

/// A generic KDL value wrapper
#[derive(Debug, Clone, PartialEq)]
pub enum KdlValue {
    String(String),
    Integer(i128),
    /// A floating point number, kept as the text `{:?}` writes for it.
    Float(String),
    Boolean(bool),
    Null,
}

impl KdlValue {
    /// What `{:?}` writes for the `kdl` crate's value: the variant's name
    /// around the value.
    pub open spec fn debug_text(self) -> Seq<char> {
        match self {
            KdlValue::String(s) => "String("@ + debug_quoted(s@) + ")"@,
            KdlValue::Integer(i) => "Integer("@ + signed_decimal_text(i as int) + ")"@,
            KdlValue::Float(t) => "Float("@ + t@ + ")"@,
            KdlValue::Boolean(b) => if b {
                "Bool(true)"@
            } else {
                "Bool(false)"@
            },
            KdlValue::Null => "Null"@,
        }
    }

    /// The value as `{:?}` writes the `kdl` crate's value.
    pub fn debug_string(&self) -> (r: String)
        ensures
            r@ == self.debug_text(),
    {
        match self {
            KdlValue::String(s) => {
                let q = debug_str(s.as_str());
                join3("String(", q.as_str(), ")")
            },
            KdlValue::Integer(i) => {
                let d = signed_decimal(*i);
                join3("Integer(", d.as_str(), ")")
            },
            KdlValue::Float(t) => join3("Float(", t.as_str(), ")"),
            KdlValue::Boolean(b) => if *b {
                String::from_str("Bool(true)")
            } else {
                String::from_str("Bool(false)")
            },
            KdlValue::Null => String::from_str("Null"),
        }
    }

    /// Returns the string if the value is a string.
    pub fn as_string(&self) -> (r: Option<&String>)
        ensures
            match self {
                KdlValue::String(s) => r == Some(s),
                _ => r is None,
            },
    {
        match self {
            KdlValue::String(s) => Some(s),
            _ => None,
        }
    }

    /// Returns the boolean if the value is a boolean.
    pub fn as_bool(&self) -> (r: Option<bool>)
        ensures
            match self {
                KdlValue::Boolean(b) => r == Some(*b),
                _ => r is None,
            },
    {
        match self {
            KdlValue::Boolean(b) => Some(*b),
            _ => None,
        }
    }
}

/// An entry of a node: an argument (no name) or a property (`name=value`).
#[derive(Debug, Clone)]
pub struct Entry {
    pub name: Option<String>,
    pub value: KdlValue,
    pub span: Span,
}

/// A node: its name, entries in order, optional child block, and span.
#[derive(Debug)]
pub struct Node {
    pub name: String,
    pub entries: Vec<Entry>,
    pub children: Option<Document>,
    pub span: Span,
}

/// A document: the nodes at one level, in order.
#[derive(Debug)]
pub struct Document {
    pub nodes: Vec<Node>,
    pub span: Span,
}

/// Index of the first node in `nodes[i..]` named `name`.
pub open spec fn find_node_from(nodes: Seq<Node>, name: Seq<char>, i: int) -> Option<int>
    decreases nodes.len() - i,
{
    if i < 0 || i >= nodes.len() {
        None
    } else if nodes[i].name@ == name {
        Some(i)
    } else {
        find_node_from(nodes, name, i + 1)
    }
}

/// Index of the first node in `nodes` named `name`.
pub open spec fn find_node(nodes: Seq<Node>, name: Seq<char>) -> Option<int> {
    find_node_from(nodes, name, 0)
}

/// Whether `e` is a property entry (`key=value`) named `key`.
pub open spec fn is_property_named(e: Entry, key: Seq<char>) -> bool {
    e.name matches Some(n) && n@ == key
}

/// Index of the last property entry named `key`.
pub open spec fn last_property_index(entries: Seq<Entry>, key: Seq<char>) -> Option<int>
    decreases entries.len(),
{
    if entries.len() == 0 {
        None
    } else if is_property_named(entries.last(), key) {
        Some(entries.len() - 1)
    } else {
        last_property_index(entries.drop_last(), key)
    }
}

pub proof fn lemma_find_node_from(nodes: Seq<Node>, name: Seq<char>, i: int)
    requires
        0 <= i <= nodes.len(),
    ensures
        match find_node_from(nodes, name, i) {
            Some(k) => i <= k < nodes.len() && nodes[k].name@ == name && forall|j: int|
                i <= j < k ==> #[trigger] nodes[j].name@ != name,
            None => forall|j: int| i <= j < nodes.len() ==> #[trigger] nodes[j].name@ != name,
        },
    decreases nodes.len() - i,
{
    if i < nodes.len() && nodes[i].name@ != name {
        lemma_find_node_from(nodes, name, i + 1);
    }
}

pub proof fn lemma_last_property_index(entries: Seq<Entry>, key: Seq<char>)
    ensures
        match last_property_index(entries, key) {
            Some(k) => 0 <= k < entries.len() && is_property_named(entries[k], key) && forall|j: int|
                k < j < entries.len() ==> !is_property_named(#[trigger] entries[j], key),
            None => forall|j: int|
                0 <= j < entries.len() ==> !is_property_named(#[trigger] entries[j], key),
        },
    decreases entries.len(),
{
    if entries.len() > 0 {
        lemma_last_property_index(entries.drop_last(), key);
        assert forall|j: int| 0 <= j < entries.len() - 1 implies #[trigger] entries[j]
            == entries.drop_last()[j] by {}
    }
}

impl Entry {
    pub fn name(&self) -> (r: Option<&String>)
        ensures
            r == match self.name { Some(n) => Some(&n), None => None::<&String> },
    {
        match &self.name {
            Some(n) => Some(n),
            None => None,
        }
    }

    pub fn value(&self) -> (r: &KdlValue)
        ensures
            *r == self.value,
    {
        &self.value
    }

    pub fn span(&self) -> (r: Span)
        ensures
            r == self.span,
    {
        self.span
    }
}

impl Node {
    pub fn name(&self) -> (r: &String)
        ensures
            *r == self.name,
    {
        &self.name
    }

    pub fn entries(&self) -> (r: &Vec<Entry>)
        ensures
            *r == self.entries,
    {
        &self.entries
    }

    pub fn children(&self) -> (r: Option<&Document>)
        ensures
            r == match self.children { Some(d) => Some(&d), None => None::<&Document> },
    {
        match &self.children {
            Some(d) => Some(d),
            None => None,
        }
    }

    pub fn span(&self) -> (r: Span)
        ensures
            r == self.span,
    {
        self.span
    }

    /// The value of the last property entry named `key`.
    pub fn get(&self, key: &str) -> (r: Option<&KdlValue>)
        ensures
            match last_property_index(self.entries@, key@) {
                Some(k) => r == Some(&self.entries@[k].value),
                None => r is None,
            },
    {
        let mut found: Option<&KdlValue> = None;
        let mut i: usize = 0;
        let ghost es = self.entries@;
        while i < self.entries.len()
            invariant
                i <= es.len(),
                es == self.entries@,
                match last_property_index(es.take(i as int), key@) {
                    Some(k) => found == Some(&es[k].value),
                    None => found is None,
                },
            decreases self.entries.len() - i,
        {
            assert(es.take(i + 1).drop_last() =~= es.take(i as int));
            let e = &self.entries[i];
            match &e.name {
                Some(n) => {
                    if crate::text::str_eq(n.as_str(), key) {
                        found = Some(&e.value);
                    }
                },
                None => {},
            }
            proof {
                let t = es.take(i + 1);
                assert(t.last() == es[i as int]);
                if let Some(k) = last_property_index(es.take(i as int), key@) {
                    lemma_last_property_index(es.take(i as int), key@);
                    assert(es.take(i as int)[k] == es[k]);
                }
            }
            i = i + 1;
        }
        assert(es.take(i as int) =~= es);
        found
    }
}

impl Document {
    pub fn nodes(&self) -> (r: &Vec<Node>)
        ensures
            *r == self.nodes,
    {
        &self.nodes
    }

    pub fn span(&self) -> (r: Span)
        ensures
            r == self.span,
    {
        self.span
    }

    /// The first node named `name`.
    pub fn get(&self, name: &str) -> (r: Option<&Node>)
        ensures
            match find_node(self.nodes@, name@) {
                Some(k) => r == Some(&self.nodes@[k]),
                None => r is None,
            },
    {
        let mut i: usize = 0;
        while i < self.nodes.len()
            invariant
                i <= self.nodes@.len(),
                find_node(self.nodes@, name@) == find_node_from(self.nodes@, name@, i as int),
            decreases self.nodes.len() - i,
        {
            if crate::text::str_eq(self.nodes[i].name.as_str(), name) {
                return Some(&self.nodes[i]);
            }
            i = i + 1;
        }
        None
    }
}

}
