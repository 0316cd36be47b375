//! Reading KDL text with the `kdl` crate, and carrying the result over into
//! this library's plain document model.

use vstd::prelude::*;
use crate::dsl::document::{Document, Node, Entry, KdlValue};
use crate::dsl::error::{KdlFailure, KdlFailureDiagnostic, Severity};
use crate::dsl::span::Span;

verus! {

#[verifier::external_type_specification]
#[verifier::external_body]
pub struct ExKdlDocument(kdl::KdlDocument);

#[verifier::external_type_specification]
#[verifier::external_body]
pub struct ExKdlNode(kdl::KdlNode);

#[verifier::external_type_specification]
#[verifier::external_body]
pub struct ExKdlEntry(kdl::KdlEntry);

#[verifier::external_type_specification]
#[verifier::external_body]
pub struct ExKdlError(kdl::KdlError);

/// What the `kdl` crate's parser makes of a source text: the document, or the
/// failure with its diagnostics.
pub uninterp spec fn kdl_parse_outcome(src: Seq<char>) -> Result<Document, KdlFailure>;

/// Parses `src` with `kdl::KdlDocument::parse` (the `FromStr` of `KdlDocument`).
/// Claimed: the result is a function of the text alone (`kdl_parse_outcome`);
/// nothing else is claimed of what the parser accepts.
#[verifier::external_body]
pub(crate) fn parse_kdl(src: &str) -> (res: Result<Document, KdlFailure>)
    ensures
        res == kdl_parse_outcome(src@),
{
    match src.parse::<kdl::KdlDocument>() {
        Ok(doc) => Ok(plain_document(&doc)),
        Err(err) => Err(plain_failure(&err)),
    }
}

/// Carries a `kdl::KdlDocument` over field by field.
#[verifier::external_body]
fn plain_document(doc: &kdl::KdlDocument) -> Document {
    let span = doc.span();
    Document {
        nodes: doc.nodes().iter().map(plain_node).collect(),
        span: Span { offset: span.offset(), len: span.len() },
    }
}

/// Carries a `kdl::KdlNode` over field by field.
#[verifier::external_body]
fn plain_node(node: &kdl::KdlNode) -> Node {
    let span = node.span();
    Node {
        name: node.name().value().to_string(),
        entries: node.entries().iter().map(plain_entry).collect(),
        children: node.children().map(plain_document),
        span: Span { offset: span.offset(), len: span.len() },
    }
}

/// Carries a `kdl::KdlEntry` over; a float is kept as the text `{:?}` writes for it.
#[verifier::external_body]
fn plain_entry(entry: &kdl::KdlEntry) -> Entry {
    let span = entry.span();
    let value = match entry.value() {
        kdl::KdlValue::String(s) => KdlValue::String(s.clone()),
        kdl::KdlValue::Integer(i) => KdlValue::Integer(*i),
        kdl::KdlValue::Float(f) => KdlValue::Float(format!("{:?}", f)),
        kdl::KdlValue::Bool(b) => KdlValue::Boolean(*b),
        kdl::KdlValue::Null => KdlValue::Null,
    };
    Entry {
        name: entry.name().map(|n| n.value().to_string()),
        value,
        span: Span { offset: span.offset(), len: span.len() },
    }
}

/// Carries a `kdl::KdlError` over: its input and each diagnostic's span, message and severity.
#[verifier::external_body]
fn plain_failure(err: &kdl::KdlError) -> KdlFailure {
    KdlFailure {
        input: err.input.to_string(),
        diagnostics: err.diagnostics.iter().map(|d| KdlFailureDiagnostic {
            span: Span { offset: d.span.offset(), len: d.span.len() },
            message: d.message.clone(),
            severity: match d.severity {
                miette::Severity::Advice => Severity::Advice,
                miette::Severity::Warning => Severity::Warning,
                miette::Severity::Error => Severity::Error,
            },
        }).collect(),
    }
}

}
