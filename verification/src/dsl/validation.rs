//! Built-in validators of nodes: a pattern that the first argument must
//! match, and references that must exist.

use vstd::prelude::*;
use crate::dsl::document::{KdlValue, Node};
use crate::dsl::schema::ValidationError;
use crate::dsl::span::Span;
use crate::text::join3;

verus! {

#[verifier::external_type_specification]
#[verifier::external_body]
pub struct ExRegexError(regex::Error);

/// Whether `pattern` compiles with the `regex` crate.
pub uninterp spec fn regex_compiles(pattern: Seq<char>) -> bool;

/// Whether `text` has a match of `pattern`, as the `regex` crate's `is_match` says.
pub uninterp spec fn regex_is_match(pattern: Seq<char>, text: Seq<char>) -> bool;

/// Compiles `pattern` with `regex::Regex::new`. Claimed: whether it
/// compiles depends on the pattern alone.
#[verifier::external_body]
fn compile_pattern(pattern: &str) -> (r: Result<(), regex::Error>)
    ensures
        r is Ok <==> regex_compiles(pattern@),
{
    regex::Regex::new(pattern).map(|_| ())
}

/// Compiles `pattern` and asks `is_match` on `text`. Claimed: the answer
/// depends on the two texts alone.
#[verifier::external_body]
fn pattern_matches(pattern: &str, text: &str) -> (r: bool)
    requires
        regex_compiles(pattern@),
    ensures
        r == regex_is_match(pattern@, text@),
{
    match regex::Regex::new(pattern) {
        Ok(re) => re.is_match(text),
        Err(_) => false,
    }
}

/// Validates that the first argument, when it is a string, matches a regex pattern
pub struct RegexValidator {
    pattern: String,
    message: String,
}

impl RegexValidator {
    /// The pattern compiles.
    #[verifier::type_invariant]
    spec fn compiles(self) -> bool {
        regex_compiles(self.pattern@)
    }

    /// The pattern the first argument must match.
    pub closed spec fn pattern_text(self) -> Seq<char> {
        self.pattern@
    }

    /// The message of the error.
    pub closed spec fn message_text(self) -> Seq<char> {
        self.message@
    }

    /// A validator for `pattern`, or the pattern's compile error.
    pub fn new(pattern: &str, message: &str) -> (r: Result<Self, regex::Error>)
        ensures
            r is Ok <==> regex_compiles(pattern@),
            r matches Ok(v) ==> v.pattern_text() == pattern@ && v.message_text() == message@,
    {
        match compile_pattern(pattern) {
            Ok(()) => Ok(RegexValidator { pattern: pattern.to_owned(), message: message.to_owned() }),
            Err(e) => Err(e),
        }
    }

    /// Fails with the message at `span` when the node's first entry is a
    /// string that does not match.
    pub fn validate(&self, node: &Node, span: Span) -> (r: Result<(), ValidationError>)
        ensures
            match (if node.entries@.len() > 0 { Some(node.entries@[0].value) } else { None }) {
                Some(KdlValue::String(s)) => if regex_is_match(self.pattern_text(), s@) {
                    r is Ok
                } else {
                    r matches Err(e) && e.message@ == self.message_text() && e.span == span
                        && e.help is None
                },
                _ => r is Ok,
            },
    {
        proof {
            use_type_invariant(self);
        }
        if node.entries.len() > 0 {
            match &node.entries[0].value {
                KdlValue::String(value) => {
                    if !pattern_matches(self.pattern.as_str(), value.as_str()) {
                        return Err(ValidationError::new(self.message.as_str(), span));
                    }
                },
                _ => {},
            }
        }
        Ok(())
    }
}

/// A validator that checks that references exist
pub struct ExternalRefValidator {
    check_exists: bool,
}

impl ExternalRefValidator {
    /// Whether references are checked at all.
    pub closed spec fn checks(self) -> bool {
        self.check_exists
    }

    pub fn new(check_exists: bool) -> (r: Self)
        ensures
            r.checks() == check_exists,
    {
        ExternalRefValidator { check_exists }
    }

    /// Whether the reference exists; every reference is taken to exist.
    fn check_reference_exists(&self, _reference: &str) -> (r: bool)
        ensures
            r,
    {
        true
    }

    /// Fails when references are checked and the node's first entry is a
    /// string naming a reference that does not exist; as every reference
    /// exists, it never fails.
    pub fn validate(&self, node: &Node, span: Span) -> (r: Result<(), ValidationError>)
        ensures
            r is Ok,
    {
        if !self.check_exists {
            return Ok(());
        }
        if node.entries.len() > 0 {
            match &node.entries[0].value {
                KdlValue::String(value) => {
                    if !self.check_reference_exists(value.as_str()) {
                        let message = join3("Reference '", value.as_str(), "' does not exist");
                        return Err(ValidationError::new(message.as_str(), span));
                    }
                },
                _ => {},
            }
        }
        Ok(())
    }
}

}
