//! The definition parser: reads the `definition` node of a KDL document and
//! the values under it, reporting what is missing or of the wrong kind.

use std::sync::Arc;
use vstd::prelude::*;
use vstd::string::*;
use crate::dsl::document::{KdlValue, Node, Document, find_node, lemma_find_node_from};
use crate::dsl::error::{SourceFile, DiagnosticKind, DslDiagnostic, DslError, from_kdl_error, reports_kdl_failure};
use crate::dsl::span::{Span, Spanned};
use crate::dsl::kdl_bridge::{parse_kdl, kdl_parse_outcome};
use crate::text::{decimal, decimal_text, join2};

verus! {

/// `e` holds exactly one error diagnostic, of kind `kind`, at `span`, in `source`.
pub open spec fn single_error(e: DslError, source: Arc<SourceFile>, kind: DiagnosticKind, span: Span) -> bool {
    &&& e.source == source
    &&& e.diagnostics@.len() == 1
    &&& e.diagnostics@[0].source == source
    &&& e.diagnostics@[0].kind == kind
    &&& e.diagnostics@[0].span == span
    &&& e.diagnostics@[0].severity == crate::dsl::error::Severity::Error
    &&& e.diagnostics@[0].related_spans@.len() == 0
}

/// An error with the single diagnostic `kind` at `span`.
fn single_error_of(source: Arc<SourceFile>, kind: DiagnosticKind, span: Span) -> (e: DslError)
    ensures
        single_error(e, source, kind, span),
{
    DslError::single(DslDiagnostic::error(source, kind, span))
}

/// Parser context that maintains source information for error reporting
pub struct Parser {
    source: Arc<SourceFile>,
    src: String,
}

impl Parser {
    /// The source, with its name, that diagnostics point into.
    pub closed spec fn source_file(self) -> Arc<SourceFile> {
        self.source
    }

    /// The text to parse.
    pub closed spec fn src_text(self) -> String {
        self.src
    }

    /// Create a new parser with source content and a name for error reporting
    pub fn new(src: String, source_name: String) -> (p: Self)
        ensures
            p.src_text() == src,
            p.source_file().name == source_name,
            p.source_file().text == src,
    {
        let source = Arc::new(SourceFile { name: source_name, text: src.clone() });
        Parser { source, src }
    }

    /// Get the source for error reporting
    pub fn source(&self) -> (r: Arc<SourceFile>)
        ensures
            r == self.source_file(),
    {
        self.source.clone()
    }

    /// Get the source name
    pub fn source_name(&self) -> (r: &str)
        ensures
            r@ == self.source_file().name@,
    {
        self.source.name.as_str()
    }

    /// Get the source content as a string slice
    pub fn src(&self) -> (r: &str)
        ensures
            r@ == self.src_text()@,
    {
        self.src.as_str()
    }

    /// Parse the source into a `Definition`: the KDL parser's failure, an
    /// error when there is no `definition` node, else what the first
    /// `definition` node gives.
    pub fn parse(&self) -> (r: Result<Definition, DslError>)
        ensures
            match kdl_parse_outcome(self.src_text()@) {
                Err(f) => r matches Err(e) && exists|n: String|
                    n@ == self.source_file().name@ && reports_kdl_failure(e, f, n),
                Ok(doc) => match find_node(doc.nodes@, "definition"@) {
                    None => r matches Err(e) && e.source == self.source_file()
                        && e.diagnostics@.len() == 1 && e.diagnostics@[0].span == (Span {
                        offset: 0,
                        len: if self.src_text()@.len() == 0 { 0 } else { 1 },
                    }) && (e.diagnostics@[0].kind matches DiagnosticKind::MissingNode {
                        node_name,
                    } && node_name@ == "definition"@),
                    Some(k) => definition_outcome(doc.nodes@[k], self.source_file(), r),
                },
            },
    {
        let doc = match parse_kdl(self.src.as_str()) {
            Ok(doc) => doc,
            Err(err) => {
                let name = self.source_name().to_owned();
                return Err(from_kdl_error(err, name));
            },
        };
        proof {
            reveal_strlit("definition");
            lemma_find_node_from(doc.nodes@, "definition"@, 0);
        }
        match doc.get("definition") {
            Some(node) => Definition::from_kdl_node(node, self),
            None => {
                let len: usize = if self.src.as_str().is_empty() {
                    0
                } else {
                    1
                };
                Err(
                    single_error_of(
                        self.source(),
                        DiagnosticKind::MissingNode { node_name: String::from_str("definition") },
                        Span { offset: 0, len },
                    ),
                )
            },
        }
    }
}

/// The first child of `parent` named `name`, when it has a child block.
pub open spec fn child_named(parent: Node, name: Seq<char>) -> Option<Node> {
    match parent.children {
        Some(d) => match find_node(d.nodes@, name) {
            Some(k) => Some(d.nodes@[k]),
            None => None,
        },
        None => None,
    }
}

/// `e` reports that `parent` has no child named `name`.
pub open spec fn missing_child(e: DslError, source: Arc<SourceFile>, parent: Node, name: Seq<char>) -> bool {
    &&& e.source == source
    &&& e.diagnostics@.len() == 1
    &&& e.diagnostics@[0].source == source
    &&& e.diagnostics@[0].span == parent.span
    &&& e.diagnostics@[0].kind matches DiagnosticKind::MissingChild { parent_name, child_name }
        && parent_name@ == parent.name@ && child_name@ == name
}

/// Helper to extract a child node by name
pub fn get_child_node<'a>(parent: &'a Node, child_name: &str, parser: &Parser) -> (r: Result<
    &'a Node,
    DslError,
>)
    ensures
        match child_named(*parent, child_name@) {
            Some(c) => r == Ok::<&Node, DslError>(&c),
            None => r matches Err(e) && missing_child(e, parser.source_file(), *parent, child_name@),
        },
{
    match get_optional_child_node(parent, child_name) {
        Some(c) => Ok(c),
        None => Err(
            single_error_of(
                parser.source(),
                DiagnosticKind::MissingChild {
                    parent_name: parent.name.clone(),
                    child_name: child_name.to_owned(),
                },
                parent.span,
            ),
        ),
    }
}

/// Helper to extract an optional child node by name
pub fn get_optional_child_node<'a>(parent: &'a Node, child_name: &str) -> (r: Option<&'a Node>)
    ensures
        match child_named(*parent, child_name@) {
            Some(c) => r == Some(&c),
            None => r is None,
        },
{
    match &parent.children {
        Some(d) => d.get(child_name),
        None => None,
    }
}

/// What reading entry `index` of `node` as a string gives: the string and
/// the entry's span, or an error when there is no such entry or it is not a string.
pub open spec fn string_entry_outcome(
    node: Node,
    index: int,
    source: Arc<SourceFile>,
    r: Result<Spanned<String>, DslError>,
) -> bool {
    if index >= node.entries@.len() {
        r matches Err(e) && e.source == source && e.diagnostics@.len() == 1 && e.diagnostics@[0].span
            == node.span && (e.diagnostics@[0].kind matches DiagnosticKind::MissingProperty {
            property,
        } && property@ == "entry at index "@ + decimal_text(index as nat))
    } else {
        let entry = node.entries@[index];
        match entry.value {
            KdlValue::String(s) => r matches Ok(sp) && sp.spec_value()@ == s@ && sp.spec_span()
                == entry.span,
            _ => r matches Err(e) && e.source == source && e.diagnostics@.len() == 1
                && e.diagnostics@[0].span == entry.span
                && (e.diagnostics@[0].kind matches DiagnosticKind::TypeMismatch { expected, got }
                && expected@ == "string"@ && got@ == entry.value.debug_text()),
        }
    }
}

/// Helper to extract a string value from a node's entry by index
pub fn get_string_entry(node: &Node, index: usize, parser: &Parser) -> (r: Result<
    Spanned<String>,
    DslError,
>)
    ensures
        string_entry_outcome(*node, index as int, parser.source_file(), r),
{
    if index >= node.entries.len() {
        let digits = decimal(index as u128);
        return Err(
            single_error_of(
                parser.source(),
                DiagnosticKind::MissingProperty {
                    property: join2("entry at index ", digits.as_str()),
                },
                node.span,
            ),
        );
    }
    let entry = &node.entries[index];
    match entry.value.as_string() {
        Some(s) => Ok(Spanned::new(s.clone(), entry.span)),
        None => Err(
            single_error_of(
                parser.source(),
                DiagnosticKind::TypeMismatch {
                    expected: String::from_str("string"),
                    got: entry.value.debug_string(),
                },
                entry.span,
            ),
        ),
    }
}

/// Helper to extract a string value from a child node's first entry
pub fn get_child_string_value(parent: &Node, child_name: &str, parser: &Parser) -> (r: Result<
    Spanned<String>,
    DslError,
>)
    ensures
        match child_named(*parent, child_name@) {
            Some(c) => string_entry_outcome(c, 0, parser.source_file(), r),
            None => r matches Err(e) && missing_child(e, parser.source_file(), *parent, child_name@),
        },
{
    let child = match get_child_node(parent, child_name, parser) {
        Ok(c) => c,
        Err(e) => {
            return Err(e);
        },
    };
    get_string_entry(child, 0, parser)
}

/// Helper to extract an optional string value from a child node's first entry
pub fn get_optional_child_string_value(parent: &Node, child_name: &str, parser: &Parser) -> (r:
    Result<Option<Spanned<String>>, DslError>)
    ensures
        match child_named(*parent, child_name@) {
            Some(c) => {
                &&& r is Ok ==> (r matches Ok(Some(sp)) && string_entry_outcome(
                    c,
                    0,
                    parser.source_file(),
                    Ok(sp),
                ))
                &&& r matches Err(e) ==> string_entry_outcome(c, 0, parser.source_file(), Err(e))
            },
            None => r == Ok::<Option<Spanned<String>>, DslError>(None),
        },
{
    match get_optional_child_node(parent, child_name) {
        Some(child) => match get_string_entry(child, 0, parser) {
            Ok(sp) => Ok(Some(sp)),
            Err(e) => Err(e),
        },
        None => Ok(None),
    }
}

/// What reading the first entry of `child` as a boolean gives.
pub open spec fn bool_entry_outcome(
    child: Node,
    source: Arc<SourceFile>,
    r: Result<Spanned<bool>, DslError>,
) -> bool {
    if child.entries@.len() == 0 {
        r matches Err(e) && e.source == source && e.diagnostics@.len() == 1 && e.diagnostics@[0].span
            == child.span && (e.diagnostics@[0].kind matches DiagnosticKind::MissingProperty {
            property,
        } && property@ == "value"@)
    } else {
        let entry = child.entries@[0];
        match entry.value {
            KdlValue::Boolean(b) => r matches Ok(sp) && sp.spec_value() == b && sp.spec_span()
                == entry.span,
            _ => r matches Err(e) && e.source == source && e.diagnostics@.len() == 1
                && e.diagnostics@[0].span == entry.span
                && (e.diagnostics@[0].kind matches DiagnosticKind::TypeMismatch { expected, got }
                && expected@ == "boolean"@ && got@ == entry.value.debug_text()),
        }
    }
}

/// Helper to extract a boolean value from a child node's first entry
pub fn get_child_bool_value(parent: &Node, child_name: &str, parser: &Parser) -> (r: Result<
    Spanned<bool>,
    DslError,
>)
    ensures
        match child_named(*parent, child_name@) {
            Some(c) => bool_entry_outcome(c, parser.source_file(), r),
            None => r matches Err(e) && missing_child(e, parser.source_file(), *parent, child_name@),
        },
{
    let child = match get_child_node(parent, child_name, parser) {
        Ok(c) => c,
        Err(e) => {
            return Err(e);
        },
    };
    if child.entries.len() == 0 {
        return Err(
            single_error_of(
                parser.source(),
                DiagnosticKind::MissingProperty { property: String::from_str("value") },
                child.span,
            ),
        );
    }
    let entry = &child.entries[0];
    match entry.value.as_bool() {
        Some(b) => Ok(Spanned::new(b, entry.span)),
        None => Err(
            single_error_of(
                parser.source(),
                DiagnosticKind::TypeMismatch {
                    expected: String::from_str("boolean"),
                    got: entry.value.debug_string(),
                },
                entry.span,
            ),
        ),
    }
}

/// Helper to get all children of a node
pub fn get_children(node: &Node) -> (r: Vec<&Node>)
    ensures
        match node.children {
            Some(d) => r@.len() == d.nodes@.len() && forall|i: int|
                0 <= i < r@.len() ==> *(#[trigger] r@[i]) == d.nodes@[i],
            None => r@.len() == 0,
        },
{
    let mut r: Vec<&Node> = Vec::new();
    match &node.children {
        Some(d) => {
            let mut i: usize = 0;
            while i < d.nodes.len()
                invariant
                    i <= d.nodes@.len(),
                    r@.len() == i,
                    forall|j: int| 0 <= j < i ==> *(#[trigger] r@[j]) == d.nodes@[j],
                decreases d.nodes.len() - i,
            {
                r.push(&d.nodes[i]);
                i = i + 1;
            }
        },
        None => {},
    }
    r
}

/// A definition in the DSL (the root structure)
#[derive(Debug, Clone)]
pub struct Definition {
    /// The definition's type, with the span of its value.
    pub definition_type: Spanned<String>,
}

/// What reading a `definition` node gives: its `type` child's string value.
pub open spec fn definition_outcome(
    node: Node,
    source: Arc<SourceFile>,
    r: Result<Definition, DslError>,
) -> bool {
    match child_named(node, "type"@) {
        Some(c) => {
            &&& r matches Ok(d) ==> string_entry_outcome(c, 0, source, Ok(d.definition_type))
            &&& r matches Err(e) ==> string_entry_outcome(c, 0, source, Err(e))
        },
        None => r matches Err(e) && missing_child(e, source, node, "type"@),
    }
}

impl Definition {
    /// Parse a Definition from a KDL node
    pub fn from_kdl_node(node: &Node, parser: &Parser) -> (r: Result<Self, DslError>)
        ensures
            definition_outcome(*node, parser.source_file(), r),
    {
        proof {
            reveal_strlit("type");
        }
        match get_child_string_value(node, "type", parser) {
            Ok(t) => Ok(Definition { definition_type: t }),
            Err(e) => Err(e),
        }
    }
}

}
