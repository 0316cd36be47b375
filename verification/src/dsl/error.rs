//! Diagnostics reported while reading DSL documents.

use std::sync::Arc;
use vstd::prelude::*;
use vstd::string::*;
use crate::text::{join2, join3, join5, decimal, decimal_text};
use crate::dsl::span::Span;

verus! {

/// How serious a diagnostic is.
#[derive(Debug, Clone, Copy, PartialEq, Eq, Structural)]
pub enum Severity {
    Advice,
    Warning,
    Error,
}

/// A named source text that diagnostics point into.
#[derive(Debug, Clone)]
pub struct SourceFile {
    pub name: String,
    pub text: String,
}

/// Different kinds of diagnostics that can occur during DSL parsing
#[derive(Debug, Clone)]
pub enum DiagnosticKind {
    ParseError { message: String },
    MissingNode { node_name: String },
    MissingChild { parent_name: String, child_name: String },
    MissingProperty { property: String },
    TypeMismatch { expected: String, got: String },
    InvalidValue { message: String, suggestion: Option<String> },
    ValidationError { message: String, suggestion: Option<String> },
    Duplicate { item_type: String, name: String },
    UnknownNode { node_name: String, suggestion: Option<String> },
    UnknownProperty { property: String, suggestion: Option<String> },
}

impl DiagnosticKind {
    /// The stable code of each kind.
    pub open spec fn code_text(self) -> Seq<char> {
        match self {
            DiagnosticKind::ParseError { .. } => "dsl::parse_error"@,
            DiagnosticKind::MissingNode { .. } => "dsl::missing_node"@,
            DiagnosticKind::MissingChild { .. } => "dsl::missing_child"@,
            DiagnosticKind::MissingProperty { .. } => "dsl::missing_property"@,
            DiagnosticKind::TypeMismatch { .. } => "dsl::type_mismatch"@,
            DiagnosticKind::InvalidValue { .. } => "dsl::invalid_value"@,
            DiagnosticKind::ValidationError { .. } => "dsl::validation"@,
            DiagnosticKind::Duplicate { .. } => "dsl::duplicate"@,
            DiagnosticKind::UnknownNode { .. } => "dsl::unknown_node"@,
            DiagnosticKind::UnknownProperty { .. } => "dsl::unknown_property"@,
        }
    }

    /// The one-line message of each kind.
    pub open spec fn message_text(self) -> Seq<char> {
        match self {
            DiagnosticKind::ParseError { message } => "Parse error: "@ + message@,
            DiagnosticKind::MissingNode { node_name } => "Missing required node: '"@ + node_name@
                + "'"@,
            DiagnosticKind::MissingChild { parent_name, child_name } =>
                "Missing required child node: '"@ + child_name@ + "' in '"@ + parent_name@ + "'"@,
            DiagnosticKind::MissingProperty { property } => "Missing required property: '"@
                + property@ + "'"@,
            DiagnosticKind::TypeMismatch { expected, got } => "Invalid type: expected "@
                + expected@ + ", got "@ + got@,
            DiagnosticKind::InvalidValue { message, .. } => "Invalid value: "@ + message@,
            DiagnosticKind::ValidationError { message, .. } => "Validation error: "@ + message@,
            DiagnosticKind::Duplicate { item_type, name } => "Duplicate "@ + item_type@ + ": '"@
                + name@ + "'"@,
            DiagnosticKind::UnknownNode { node_name, .. } => "Unknown node: '"@ + node_name@
                + "'"@,
            DiagnosticKind::UnknownProperty { property, .. } => "Unknown property: '"@
                + property@ + "'"@,
        }
    }

    /// The label shown at the primary span of each kind.
    pub open spec fn label_text(self) -> Seq<char> {
        match self {
            DiagnosticKind::ParseError { .. } => "parse error here"@,
            DiagnosticKind::MissingNode { node_name } => "'"@ + node_name@
                + "' node is required here"@,
            DiagnosticKind::MissingChild { child_name, .. } => "'"@ + child_name@
                + "' child node is required"@,
            DiagnosticKind::MissingProperty { property } => "missing '"@ + property@ + "'"@,
            DiagnosticKind::TypeMismatch { expected, got } => "expected "@ + expected@
                + ", found "@ + got@,
            DiagnosticKind::InvalidValue { message, .. } => message@,
            DiagnosticKind::ValidationError { message, .. } => message@,
            DiagnosticKind::Duplicate { item_type, name } => "duplicate "@ + item_type@ + " '"@
                + name@ + "'"@,
            DiagnosticKind::UnknownNode { node_name, .. } => "unknown node '"@ + node_name@
                + "'"@,
            DiagnosticKind::UnknownProperty { property, .. } => "unknown property '"@
                + property@ + "'"@,
        }
    }

    /// The optional help text of each kind.
    pub open spec fn help_text(self) -> Option<Seq<char>> {
        match self {
            DiagnosticKind::ParseError { .. } => Some("Check the syntax of your DSL file"@),
            DiagnosticKind::MissingNode { node_name } => Some(
                "Add a '"@ + node_name@ + "' node to define this field"@,
            ),
            DiagnosticKind::MissingChild { parent_name, child_name } => Some(
                "Add a '"@ + child_name@ + "' node inside the '"@ + parent_name@ + "' block"@,
            ),
            DiagnosticKind::MissingProperty { property } => Some(
                "Add the '"@ + property@ + "' property to this node"@,
            ),
            DiagnosticKind::TypeMismatch { expected, .. } => Some(
                "Change this value to be of type '"@ + expected@ + "'"@,
            ),
            DiagnosticKind::InvalidValue { suggestion, .. } => match suggestion {
                Some(s) => Some(s@),
                None => None,
            },
            DiagnosticKind::ValidationError { suggestion, .. } => match suggestion {
                Some(s) => Some(s@),
                None => None,
            },
            DiagnosticKind::Duplicate { item_type, .. } => Some(
                "Each "@ + item_type@ + " must have a unique name"@,
            ),
            DiagnosticKind::UnknownNode { suggestion, .. } => match suggestion {
                Some(s) => Some(s@),
                None => Some("Check the documentation for valid options"@),
            },
            DiagnosticKind::UnknownProperty { suggestion, .. } => match suggestion {
                Some(s) => Some(s@),
                None => Some("Check the documentation for valid options"@),
            },
        }
    }

    pub fn code(&self) -> (r: &'static str)
        ensures
            r@ == self.code_text(),
    {
        match self {
            DiagnosticKind::ParseError { .. } => "dsl::parse_error",
            DiagnosticKind::MissingNode { .. } => "dsl::missing_node",
            DiagnosticKind::MissingChild { .. } => "dsl::missing_child",
            DiagnosticKind::MissingProperty { .. } => "dsl::missing_property",
            DiagnosticKind::TypeMismatch { .. } => "dsl::type_mismatch",
            DiagnosticKind::InvalidValue { .. } => "dsl::invalid_value",
            DiagnosticKind::ValidationError { .. } => "dsl::validation",
            DiagnosticKind::Duplicate { .. } => "dsl::duplicate",
            DiagnosticKind::UnknownNode { .. } => "dsl::unknown_node",
            DiagnosticKind::UnknownProperty { .. } => "dsl::unknown_property",
        }
    }

    pub fn message(&self) -> (r: String)
        ensures
            r@ == self.message_text(),
    {
        match self {
            DiagnosticKind::ParseError { message } => join2("Parse error: ", message.as_str()),
            DiagnosticKind::MissingNode { node_name } => join3(
                "Missing required node: '",
                node_name.as_str(),
                "'",
            ),
            DiagnosticKind::MissingChild { parent_name, child_name } => join5(
                "Missing required child node: '",
                child_name.as_str(),
                "' in '",
                parent_name.as_str(),
                "'",
            ),
            DiagnosticKind::MissingProperty { property } => join3(
                "Missing required property: '",
                property.as_str(),
                "'",
            ),
            DiagnosticKind::TypeMismatch { expected, got } => {
                let mut r = join3("Invalid type: expected ", expected.as_str(), ", got ");
                r.append(got.as_str());
                r
            },
            DiagnosticKind::InvalidValue { message, .. } => join2(
                "Invalid value: ",
                message.as_str(),
            ),
            DiagnosticKind::ValidationError { message, .. } => join2(
                "Validation error: ",
                message.as_str(),
            ),
            DiagnosticKind::Duplicate { item_type, name } => join5(
                "Duplicate ",
                item_type.as_str(),
                ": '",
                name.as_str(),
                "'",
            ),
            DiagnosticKind::UnknownNode { node_name, .. } => join3(
                "Unknown node: '",
                node_name.as_str(),
                "'",
            ),
            DiagnosticKind::UnknownProperty { property, .. } => join3(
                "Unknown property: '",
                property.as_str(),
                "'",
            ),
        }
    }

    pub fn label(&self) -> (r: String)
        ensures
            r@ == self.label_text(),
    {
        match self {
            DiagnosticKind::ParseError { .. } => String::from_str("parse error here"),
            DiagnosticKind::MissingNode { node_name } => join3(
                "'",
                node_name.as_str(),
                "' node is required here",
            ),
            DiagnosticKind::MissingChild { child_name, .. } => join3(
                "'",
                child_name.as_str(),
                "' child node is required",
            ),
            DiagnosticKind::MissingProperty { property } => join3(
                "missing '",
                property.as_str(),
                "'",
            ),
            DiagnosticKind::TypeMismatch { expected, got } => {
                let mut r = join3("expected ", expected.as_str(), ", found ");
                r.append(got.as_str());
                r
            },
            DiagnosticKind::InvalidValue { message, .. } => message.clone(),
            DiagnosticKind::ValidationError { message, .. } => message.clone(),
            DiagnosticKind::Duplicate { item_type, name } => join5(
                "duplicate ",
                item_type.as_str(),
                " '",
                name.as_str(),
                "'",
            ),
            DiagnosticKind::UnknownNode { node_name, .. } => join3(
                "unknown node '",
                node_name.as_str(),
                "'",
            ),
            DiagnosticKind::UnknownProperty { property, .. } => join3(
                "unknown property '",
                property.as_str(),
                "'",
            ),
        }
    }

    pub fn help(&self) -> (r: Option<String>)
        ensures
            match (r, self.help_text()) {
                (Some(s), Some(t)) => s@ == t,
                (None, None) => true,
                _ => false,
            },
    {
        match self {
            DiagnosticKind::ParseError { .. } => Some(
                String::from_str("Check the syntax of your DSL file"),
            ),
            DiagnosticKind::MissingNode { node_name } => Some(
                join3("Add a '", node_name.as_str(), "' node to define this field"),
            ),
            DiagnosticKind::MissingChild { parent_name, child_name } => Some(
                join5(
                    "Add a '",
                    child_name.as_str(),
                    "' node inside the '",
                    parent_name.as_str(),
                    "' block",
                ),
            ),
            DiagnosticKind::MissingProperty { property } => Some(
                join3("Add the '", property.as_str(), "' property to this node"),
            ),
            DiagnosticKind::TypeMismatch { expected, .. } => Some(
                join3("Change this value to be of type '", expected.as_str(), "'"),
            ),
            DiagnosticKind::InvalidValue { suggestion, .. } => clone_opt(suggestion),
            DiagnosticKind::ValidationError { suggestion, .. } => clone_opt(suggestion),
            DiagnosticKind::Duplicate { item_type, .. } => Some(
                join3("Each ", item_type.as_str(), " must have a unique name"),
            ),
            DiagnosticKind::UnknownNode { suggestion, .. } => match suggestion {
                Some(s) => Some(s.clone()),
                None => Some(String::from_str("Check the documentation for valid options")),
            },
            DiagnosticKind::UnknownProperty { suggestion, .. } => match suggestion {
                Some(s) => Some(s.clone()),
                None => Some(String::from_str("Check the documentation for valid options")),
            },
        }
    }
}

fn clone_opt(o: &Option<String>) -> (r: Option<String>)
    ensures
        r == *o,
{
    match o {
        Some(s) => Some(s.clone()),
        None => None,
    }
}

}

verus! {

/// An individual diagnostic message for a DSL parsing issue
#[derive(Debug, Clone)]
pub struct DslDiagnostic {
    /// Shared source for the diagnostic (includes filename)
    pub source: Arc<SourceFile>,
    /// The kind of diagnostic
    pub kind: DiagnosticKind,
    /// Primary span for the diagnostic
    pub span: Span,
    /// Optional secondary spans with labels
    pub related_spans: Vec<(Span, String)>,
    /// Severity level
    pub severity: Severity,
}

impl DslDiagnostic {
    /// Create a new error diagnostic
    pub fn error(source: Arc<SourceFile>, kind: DiagnosticKind, span: Span) -> (d: Self)
        ensures
            d.source == source,
            d.kind == kind,
            d.span == span,
            d.related_spans@.len() == 0,
            d.severity == Severity::Error,
    {
        DslDiagnostic { source, kind, span, related_spans: Vec::new(), severity: Severity::Error }
    }

    /// Create a new warning diagnostic
    pub fn warning(source: Arc<SourceFile>, kind: DiagnosticKind, span: Span) -> (d: Self)
        ensures
            d.source == source,
            d.kind == kind,
            d.span == span,
            d.related_spans@.len() == 0,
            d.severity == Severity::Warning,
    {
        DslDiagnostic { source, kind, span, related_spans: Vec::new(), severity: Severity::Warning }
    }

    /// Add a related span with a label
    pub fn with_related_span(self, span: Span, label: String) -> (d: Self)
        ensures
            d.source == self.source,
            d.kind == self.kind,
            d.span == self.span,
            d.severity == self.severity,
            d.related_spans@ == self.related_spans@.push((span, label)),
    {
        let mut d = self;
        d.related_spans.push((span, label));
        d
    }

    /// The text shown for this diagnostic: the message of its kind.
    pub fn display_text(&self) -> (r: String)
        ensures
            r@ == self.kind.message_text(),
    {
        self.kind.message()
    }
}

/// How many diagnostics in `ds` have severity `sev`.
pub open spec fn count_severity(ds: Seq<DslDiagnostic>, sev: Severity) -> nat
    decreases ds.len(),
{
    if ds.len() == 0 {
        0
    } else {
        count_severity(ds.drop_last(), sev) + if ds.last().severity == sev { 1nat } else { 0nat }
    }
}

/// The top-level error type for DSL parsing failures.
/// Contains multiple diagnostics that can be displayed together.
#[derive(Debug, Clone)]
pub struct DslError {
    /// Original input with source name for better error messages
    pub source: Arc<SourceFile>,
    /// All diagnostics collected during parsing
    pub diagnostics: Vec<DslDiagnostic>,
}

/// "s" unless `n` is one.
pub open spec fn plural_suffix(n: nat) -> Seq<char> {
    if n == 1 { ""@ } else { "s"@ }
}

/// The one-line summary of a collection of diagnostics.
pub open spec fn summary_text(errors: nat, warnings: nat) -> Seq<char> {
    if errors == 0 && warnings == 0 {
        "No diagnostics"@
    } else if errors == 0 {
        "Found "@ + decimal_text(warnings) + " warning"@ + plural_suffix(warnings)
    } else if warnings == 0 {
        "Found "@ + decimal_text(errors) + " error"@ + plural_suffix(errors)
    } else {
        "Found "@ + decimal_text(errors) + " error"@ + plural_suffix(errors) + " and "@
            + decimal_text(warnings) + " warning"@ + plural_suffix(warnings)
    }
}

fn suffix_for(n: usize) -> (r: &'static str)
    ensures
        r@ == plural_suffix(n as nat),
{
    if n == 1 { "" } else { "s" }
}

impl DslError {
    /// Create a new DslError with the given source
    pub fn new(input: String, source_name: String) -> (e: Self)
        ensures
            e.source.name == source_name,
            e.source.text == input,
            e.diagnostics@.len() == 0,
    {
        DslError {
            source: Arc::new(SourceFile { name: source_name, text: input }),
            diagnostics: Vec::new(),
        }
    }

    /// Create a DslError with a single diagnostic
    pub fn single(diagnostic: DslDiagnostic) -> (e: Self)
        ensures
            e.source == diagnostic.source,
            e.diagnostics@ == seq![diagnostic],
    {
        let source = diagnostic.source.clone();
        let mut diagnostics = Vec::new();
        diagnostics.push(diagnostic);
        DslError { source, diagnostics }
    }

    /// Add a diagnostic to this error
    pub fn add_diagnostic(&mut self, diagnostic: DslDiagnostic)
        ensures
            final(self).source == old(self).source,
            final(self).diagnostics@ == old(self).diagnostics@.push(diagnostic),
    {
        self.diagnostics.push(diagnostic);
    }

    /// Check if there are any errors (vs warnings)
    pub fn has_errors(&self) -> (r: bool)
        ensures
            r == (count_severity(self.diagnostics@, Severity::Error) > 0),
    {
        self.error_count() > 0
    }

    /// Get the number of errors
    pub fn error_count(&self) -> (r: usize)
        ensures
            r == count_severity(self.diagnostics@, Severity::Error),
    {
        count_with(&self.diagnostics, Severity::Error)
    }

    /// Get the number of warnings
    pub fn warning_count(&self) -> (r: usize)
        ensures
            r == count_severity(self.diagnostics@, Severity::Warning),
    {
        count_with(&self.diagnostics, Severity::Warning)
    }

    /// The summary line, e.g. "Found 2 errors and 1 warning".
    pub fn summary(&self) -> (r: String)
        ensures
            r@ == summary_text(
                count_severity(self.diagnostics@, Severity::Error),
                count_severity(self.diagnostics@, Severity::Warning),
            ),
    {
        let e = self.error_count();
        let w = self.warning_count();
        if e == 0 && w == 0 {
            String::from_str("No diagnostics")
        } else if e == 0 {
            let mut r = String::from_str("Found ");
            r.append(decimal(w as u128).as_str());
            r.append(" warning");
            r.append(suffix_for(w));
            r
        } else if w == 0 {
            let mut r = String::from_str("Found ");
            r.append(decimal(e as u128).as_str());
            r.append(" error");
            r.append(suffix_for(e));
            r
        } else {
            let mut r = String::from_str("Found ");
            r.append(decimal(e as u128).as_str());
            r.append(" error");
            r.append(suffix_for(e));
            r.append(" and ");
            r.append(decimal(w as u128).as_str());
            r.append(" warning");
            r.append(suffix_for(w));
            r
        }
    }
}

proof fn lemma_count_bounded(ds: Seq<DslDiagnostic>, sev: Severity)
    ensures
        count_severity(ds, sev) <= ds.len(),
    decreases ds.len(),
{
    if ds.len() > 0 {
        lemma_count_bounded(ds.drop_last(), sev);
    }
}

fn count_with(ds: &Vec<DslDiagnostic>, sev: Severity) -> (r: usize)
    ensures
        r == count_severity(ds@, sev),
{
    let mut n: usize = 0;
    let mut i: usize = 0;
    while i < ds.len()
        invariant
            i <= ds@.len(),
            n == count_severity(ds@.take(i as int), sev),
        decreases ds.len() - i,
    {
        proof {
            assert(ds@.take(i + 1).drop_last() =~= ds@.take(i as int));
            lemma_count_bounded(ds@.take(i as int), sev);
        }
        if ds[i].severity == sev {
            n = n + 1;
        }
        i = i + 1;
    }
    assert(ds@.take(i as int) =~= ds@);
    n
}

/// One diagnostic of a failed KDL parse, as the KDL parser reports it.
#[derive(Debug, Clone)]
pub struct KdlFailureDiagnostic {
    pub span: Span,
    pub message: Option<String>,
    pub severity: Severity,
}

/// A failed KDL parse: the input and the parser's diagnostics.
#[derive(Debug, Clone)]
pub struct KdlFailure {
    pub input: String,
    pub diagnostics: Vec<KdlFailureDiagnostic>,
}

/// The message given to a KDL parse diagnostic that came without one.
pub open spec fn parse_message(m: Option<String>) -> Seq<char> {
    match m {
        Some(s) => s@,
        None => "Unknown parse error"@,
    }
}

/// `e` reports the failed KDL parse `err` of the source named `source_name`:
/// one `ParseError` diagnostic per parser diagnostic, with its span and severity.
pub open spec fn reports_kdl_failure(e: DslError, err: KdlFailure, source_name: String) -> bool {
    &&& e.source.name == source_name
    &&& e.source.text == err.input
    &&& e.diagnostics@.len() == err.diagnostics@.len()
    &&& forall|i: int|
        0 <= i < err.diagnostics@.len() ==> {
            let d = #[trigger] e.diagnostics@[i];
            let k = err.diagnostics@[i];
            &&& d.source == e.source
            &&& d.span == k.span
            &&& d.severity == k.severity
            &&& d.related_spans@.len() == 0
            &&& d.kind matches DiagnosticKind::ParseError { message } && message@
                == parse_message(k.message)
        }
}

/// Turns a failed KDL parse into a `DslError` whose source is named `source_name`:
/// one `ParseError` diagnostic per parser diagnostic, with its span and severity.
pub fn from_kdl_error(err: KdlFailure, source_name: String) -> (e: DslError)
    ensures
        reports_kdl_failure(e, err, source_name),
{
    let source = Arc::new(SourceFile { name: source_name, text: err.input });
    let mut diagnostics: Vec<DslDiagnostic> = Vec::new();
    let mut i: usize = 0;
    while i < err.diagnostics.len()
        invariant
            i <= err.diagnostics@.len(),
            diagnostics@.len() == i,
            forall|j: int|
                0 <= j < i ==> {
                    let d = #[trigger] diagnostics@[j];
                    let k = err.diagnostics@[j];
                    &&& d.source == source
                    &&& d.span == k.span
                    &&& d.severity == k.severity
                    &&& d.related_spans@.len() == 0
                    &&& d.kind matches DiagnosticKind::ParseError { message } && message@
                        == parse_message(k.message)
                },
        decreases err.diagnostics.len() - i,
    {
        let k = &err.diagnostics[i];
        let message = match &k.message {
            Some(m) => m.clone(),
            None => String::from_str("Unknown parse error"),
        };
        diagnostics.push(
            DslDiagnostic {
                source: source.clone(),
                kind: DiagnosticKind::ParseError { message },
                span: k.span,
                related_spans: Vec::new(),
                severity: k.severity,
            },
        );
        i = i + 1;
    }
    DslError { source, diagnostics }
}

/// What a diagnostic kind says, with its texts as character sequences.
pub enum KindView {
    ParseError { message: Seq<char> },
    MissingNode { node_name: Seq<char> },
    MissingChild { parent_name: Seq<char>, child_name: Seq<char> },
    MissingProperty { property: Seq<char> },
    TypeMismatch { expected: Seq<char>, got: Seq<char> },
    InvalidValue { message: Seq<char>, suggestion: Option<Seq<char>> },
    ValidationError { message: Seq<char>, suggestion: Option<Seq<char>> },
    Duplicate { item_type: Seq<char>, name: Seq<char> },
    UnknownNode { node_name: Seq<char>, suggestion: Option<Seq<char>> },
    UnknownProperty { property: Seq<char>, suggestion: Option<Seq<char>> },
}

/// The text of an optional string.
pub open spec fn opt_text(s: Option<String>) -> Option<Seq<char>> {
    match s {
        Some(t) => Some(t@),
        None => None,
    }
}

impl View for DiagnosticKind {
    type V = KindView;

    open spec fn view(&self) -> KindView {
        match self {
            DiagnosticKind::ParseError { message } => KindView::ParseError { message: message@ },
            DiagnosticKind::MissingNode { node_name } => KindView::MissingNode { node_name: node_name@ },
            DiagnosticKind::MissingChild { parent_name, child_name } => KindView::MissingChild {
                parent_name: parent_name@,
                child_name: child_name@,
            },
            DiagnosticKind::MissingProperty { property } => KindView::MissingProperty { property: property@ },
            DiagnosticKind::TypeMismatch { expected, got } => KindView::TypeMismatch {
                expected: expected@,
                got: got@,
            },
            DiagnosticKind::InvalidValue { message, suggestion } => KindView::InvalidValue {
                message: message@,
                suggestion: opt_text(*suggestion),
            },
            DiagnosticKind::ValidationError { message, suggestion } => KindView::ValidationError {
                message: message@,
                suggestion: opt_text(*suggestion),
            },
            DiagnosticKind::Duplicate { item_type, name } => KindView::Duplicate {
                item_type: item_type@,
                name: name@,
            },
            DiagnosticKind::UnknownNode { node_name, suggestion } => KindView::UnknownNode {
                node_name: node_name@,
                suggestion: opt_text(*suggestion),
            },
            DiagnosticKind::UnknownProperty { property, suggestion } => KindView::UnknownProperty {
                property: property@,
                suggestion: opt_text(*suggestion),
            },
        }
    }
}

/// What each diagnostic of a list reports, and where.
pub open spec fn reports_of(ds: Seq<DslDiagnostic>) -> Seq<(KindView, Span)> {
    ds.map_values(|d: DslDiagnostic| (d.kind@, d.span))
}

/// The reports of two lists, one after the other, are those of the joined list.
pub proof fn lemma_reports_append(a: Seq<DslDiagnostic>, b: Seq<DslDiagnostic>)
    ensures
        reports_of(a + b) == reports_of(a) + reports_of(b),
{
    assert(reports_of(a + b) =~= reports_of(a) + reports_of(b));
}

/// The reports of a list with one more diagnostic.
pub proof fn lemma_reports_push(a: Seq<DslDiagnostic>, d: DslDiagnostic)
    ensures
        reports_of(a.push(d)) == reports_of(a).push((d.kind@, d.span)),
{
    assert(reports_of(a.push(d)) =~= reports_of(a).push((d.kind@, d.span)));
}

}
