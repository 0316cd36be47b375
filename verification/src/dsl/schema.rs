//! Schema Definition Framework
//!
//! A schema describes which nodes, arguments, properties and children a
//! KDL-based language allows, and with which value types.

use vstd::prelude::*;
use vstd::string::*;
use crate::dsl::document::{Entry, KdlValue, Node};
use crate::dsl::span::Span;
use crate::dsl::numeric::{parses_as_i64, parses_as_f64, text_parses_as_i64, text_parses_as_f64};
use crate::text::{join3, str_eq};
use crate::dsl::graph::lemma_insert_key_lookup;

verus! {

/// Index of the first pair in `s[i..]` whose key is `key`.
pub open spec fn find_key_from<V>(s: Seq<(String, V)>, key: Seq<char>, i: int) -> Option<int>
    decreases s.len() - i,
{
    if i < 0 || i >= s.len() {
        None
    } else if s[i].0@ == key {
        Some(i)
    } else {
        find_key_from(s, key, i + 1)
    }
}

/// The value of the first pair in `s` whose key is `key`.
pub open spec fn lookup_key<V>(s: Seq<(String, V)>, key: Seq<char>) -> Option<V> {
    match find_key_from(s, key, 0) {
        Some(k) => Some(s[k].1),
        None => None,
    }
}

/// Whether some pair of `s` has key `key`.
pub open spec fn has_key<V>(s: Seq<(String, V)>, key: Seq<char>) -> bool {
    exists|i: int| 0 <= i < s.len() && #[trigger] s[i].0@ == key
}

pub proof fn lemma_find_key_from<V>(s: Seq<(String, V)>, key: Seq<char>, i: int)
    requires
        0 <= i <= s.len(),
    ensures
        match find_key_from(s, key, i) {
            Some(k) => i <= k < s.len() && s[k].0@ == key && forall|j: int|
                i <= j < k ==> #[trigger] s[j].0@ != key,
            None => forall|j: int| i <= j < s.len() ==> #[trigger] s[j].0@ != key,
        },
    decreases s.len() - i,
{
    if i < s.len() && s[i].0@ != key {
        lemma_find_key_from(s, key, i + 1);
    }
}

pub proof fn lemma_lookup_key<V>(s: Seq<(String, V)>, key: Seq<char>)
    ensures
        lookup_key(s, key) is Some <==> has_key(s, key),
{
    lemma_find_key_from(s, key, 0);
}

/// Position of the first pair whose key is `key`.
pub fn find_key<V>(s: &Vec<(String, V)>, key: &str) -> (r: Option<usize>)
    ensures
        match r {
            Some(j) => find_key_from(s@, key@, 0) == Some(j as int),
            None => find_key_from(s@, key@, 0) is None,
        },
{
    let mut i: usize = 0;
    while i < s.len()
        invariant
            i <= s@.len(),
            find_key_from(s@, key@, 0) == find_key_from(s@, key@, i as int),
        decreases s.len() - i,
    {
        if str_eq(s[i].0.as_str(), key) {
            return Some(i);
        }
        i = i + 1;
    }
    None
}

/// `s` with the value at `key` replaced by `v`, or `(key, v)` appended when absent.
pub open spec fn insert_key<V>(s: Seq<(String, V)>, key: String, v: V) -> Seq<(String, V)> {
    match find_key_from(s, key@, 0) {
        Some(k) => s.update(k, (key, v)),
        None => s.push((key, v)),
    }
}

pub(crate) fn insert_pair<V>(s: &mut Vec<(String, V)>, key: String, v: V)
    ensures
        final(s)@ == insert_key(old(s)@, key, v),
{
    proof {
        lemma_find_key_from(old(s)@, key@, 0);
    }
    match find_key(s, key.as_str()) {
        Some(k) => {
            s.set(k, (key, v));
        },
        None => {
            s.push((key, v));
        },
    }
}

/// Type definition for values
#[derive(Debug, Clone, PartialEq)]
pub enum ValueType {
    /// String value
    String,
    /// Integer value
    Integer,
    /// Float value
    Float,
    /// Boolean value
    Boolean,
    /// Null value
    Null,
    /// Enum type (reference to enum definition)
    Enum(String),
    /// Reference to another node type
    NodeRef(String),
    /// Custom type with user-defined validation
    /// The string references a type validator registered in the schema
    Custom {
        /// Name of the custom type
        name: String,
        /// Optional reference to a type validator function
        validator: Option<String>,
    },
    /// Any value type
    Any,
}

/// Whether `v` is a string that `parse` judges acceptable.
pub open spec fn is_string_where(v: KdlValue, integer: bool) -> bool {
    match v {
        KdlValue::String(s) => if integer { parses_as_i64(s@) } else { parses_as_f64(s@) },
        _ => false,
    }
}

/// Whether a value is a KDL integer literal within the range of `i64`.
pub open spec fn is_i64_literal(v: KdlValue) -> bool {
    v matches KdlValue::Integer(i) && i64::MIN <= i <= i64::MAX
}

/// Whether a value matches a type: an integer is an integer literal (in the
/// range of `i64`) or a string that parses as one; a float is a float
/// literal or a string that parses as a number; enums and node references
/// are strings; custom types and `Any` accept everything.
pub open spec fn value_matches(ty: ValueType, v: KdlValue) -> bool {
    match ty {
        ValueType::String => v is String,
        ValueType::Integer => is_i64_literal(v) || is_string_where(v, true),
        ValueType::Float => v is Float || is_string_where(v, false),
        ValueType::Boolean => v is Boolean,
        ValueType::Null => v is Null,
        ValueType::Enum(_) => v is String,
        ValueType::NodeRef(_) => v is String,
        ValueType::Custom { .. } => true,
        ValueType::Any => true,
    }
}

/// Each plain type accepts only its own kind of value: a boolean property
/// only a KDL boolean (never text such as `"yes"`), a null one only null, a
/// string, enum or node-reference one only text; booleans and null are
/// never numbers, an integer literal is not a float and a float literal is
/// not an integer.
pub proof fn plain_types_accept_their_kind(v: KdlValue)
    ensures
        value_matches(ValueType::Boolean, v) <==> v is Boolean,
        value_matches(ValueType::Null, v) <==> v is Null,
        value_matches(ValueType::String, v) <==> v is String,
        (v is Boolean || v is Null) ==> !value_matches(ValueType::Integer, v) && !value_matches(
            ValueType::Float,
            v,
        ),
        v is Integer ==> !value_matches(ValueType::Float, v),
        v is Float ==> !value_matches(ValueType::Integer, v),
        forall|n: String| value_matches(ValueType::Enum(n), v) <==> v is String,
        forall|n: String| value_matches(ValueType::NodeRef(n), v) <==> v is String,
{
}

/// The human-readable name of a type.
pub open spec fn value_type_label(ty: ValueType) -> Seq<char> {
    match ty {
        ValueType::String => "string"@,
        ValueType::Integer => "integer"@,
        ValueType::Float => "float"@,
        ValueType::Boolean => "boolean"@,
        ValueType::Null => "null"@,
        ValueType::Enum(n) => "enum<"@ + n@ + ">"@,
        ValueType::NodeRef(n) => "ref<"@ + n@ + ">"@,
        ValueType::Custom { name, .. } => name@,
        ValueType::Any => "any"@,
    }
}

/// The name a value's kind is reported under: strings that look like
/// integers or numbers are reported as such.
pub open spec fn value_kind_name(v: KdlValue) -> Seq<char> {
    match v {
        KdlValue::String(s) => if parses_as_i64(s@) {
            "integer"@
        } else if parses_as_f64(s@) {
            "number"@
        } else {
            "string"@
        },
        KdlValue::Boolean(_) => "boolean"@,
        KdlValue::Null => "null"@,
        _ => "unknown"@,
    }
}

impl ValueType {
    /// Create a custom type with a validator
    pub fn custom(name: &str, validator: &str) -> (r: Self)
        ensures
            r matches ValueType::Custom { name: n, validator: Some(v) } && n@ == name@ && v@
                == validator@,
    {
        ValueType::Custom { name: String::from_str(name), validator: Some(String::from_str(validator)) }
    }

    /// Create a custom type without a validator
    pub fn custom_unvalidated(name: &str) -> (r: Self)
        ensures
            r matches ValueType::Custom { name: n, validator: None } && n@ == name@,
    {
        ValueType::Custom { name: String::from_str(name), validator: None }
    }

    /// Check if a KDL value matches this type
    pub fn matches(&self, value: &KdlValue) -> (r: bool)
        ensures
            r == value_matches(*self, *value),
    {
        match self {
            ValueType::String => matches!(value, KdlValue::String(_)),
            ValueType::Integer => match value {
                KdlValue::Integer(i) => i64::MIN as i128 <= *i && *i <= i64::MAX as i128,
                KdlValue::String(s) => text_parses_as_i64(s.as_str()),
                _ => false,
            },
            ValueType::Float => match value {
                KdlValue::Float(_) => true,
                KdlValue::String(s) => text_parses_as_f64(s.as_str()),
                _ => false,
            },
            ValueType::Boolean => matches!(value, KdlValue::Boolean(_)),
            ValueType::Null => matches!(value, KdlValue::Null),
            ValueType::Enum(_) => matches!(value, KdlValue::String(_)),
            ValueType::NodeRef(_) => matches!(value, KdlValue::String(_)),
            ValueType::Custom { .. } => true,
            ValueType::Any => true,
        }
    }

    /// Get a human-readable name for this type
    pub fn name(&self) -> (r: String)
        ensures
            r@ == value_type_label(*self),
    {
        match self {
            ValueType::String => String::from_str("string"),
            ValueType::Integer => String::from_str("integer"),
            ValueType::Float => String::from_str("float"),
            ValueType::Boolean => String::from_str("boolean"),
            ValueType::Null => String::from_str("null"),
            ValueType::Enum(name) => join3("enum<", name.as_str(), ">"),
            ValueType::NodeRef(name) => join3("ref<", name.as_str(), ">"),
            ValueType::Custom { name, .. } => name.clone(),
            ValueType::Any => String::from_str("any"),
        }
    }
}

/// Get a human-readable name for a KDL value type
pub fn value_type_name(value: &KdlValue) -> (r: String)
    ensures
        r@ == value_kind_name(*value),
{
    match value {
        KdlValue::String(s) => {
            if text_parses_as_i64(s.as_str()) {
                String::from_str("integer")
            } else if text_parses_as_f64(s.as_str()) {
                String::from_str("number")
            } else {
                String::from_str("string")
            }
        },
        KdlValue::Boolean(_) => String::from_str("boolean"),
        KdlValue::Null => String::from_str("null"),
        _ => String::from_str("unknown"),
    }
}

}

verus! {

/// Definition of an enum type
#[derive(Debug, Clone)]
pub struct EnumDef {
    /// Possible values
    pub values: Vec<String>,
    /// Description for each value
    pub value_descriptions: Vec<(String, String)>,
    /// Description of the enum itself
    pub description: Option<String>,
}

/// Whether `value` is one of `values`.
pub open spec fn contains_text(values: Seq<String>, value: Seq<char>) -> bool {
    exists|i: int| 0 <= i < values.len() && #[trigger] values[i]@ == value
}

impl EnumDef {
    pub fn new(values: Vec<String>) -> (r: Self)
        ensures
            r.values == values,
            r.value_descriptions@.len() == 0,
            r.description is None,
    {
        EnumDef { values, value_descriptions: Vec::new(), description: None }
    }

    pub fn with_description(self, desc: &str) -> (r: Self)
        ensures
            r.values == self.values,
            r.value_descriptions == self.value_descriptions,
            r.description matches Some(d) && d@ == desc@,
    {
        let mut r = self;
        r.description = Some(String::from_str(desc));
        r
    }

    /// Describes one value; a second description of the same value replaces the first.
    pub fn with_value_desc(self, value: &str, desc: &str) -> (r: Self)
        ensures
            r.values == self.values,
            r.description == self.description,
            exists|k: String, d: String|
                k@ == value@ && d@ == desc@ && r.value_descriptions@ == insert_key(
                    self.value_descriptions@,
                    k,
                    d,
                ),
    {
        let mut r = self;
        let k = String::from_str(value);
        let d = String::from_str(desc);
        insert_pair(&mut r.value_descriptions, k, d);
        r
    }

    /// Check if a value is valid for this enum
    pub fn is_valid(&self, value: &str) -> (r: bool)
        ensures
            r == contains_text(self.values@, value@),
    {
        let mut i: usize = 0;
        while i < self.values.len()
            invariant
                i <= self.values@.len(),
                forall|j: int| 0 <= j < i ==> #[trigger] self.values@[j]@ != value@,
            decreases self.values.len() - i,
        {
            if str_eq(self.values[i].as_str(), value) {
                return true;
            }
            i = i + 1;
        }
        false
    }
}

/// Definition of an expected argument
#[derive(Debug, Clone)]
pub struct ArgumentDef {
    /// Human-readable name/description
    pub name: String,
    /// Expected type
    pub ty: ValueType,
    /// Whether this argument is required
    pub required: bool,
    /// Default value if not provided
    pub default: Option<KdlValue>,
    /// Description for documentation
    pub description: Option<String>,
}

impl ArgumentDef {
    pub fn new(name: &str, ty: ValueType) -> (r: Self)
        ensures
            r.name@ == name@,
            r.ty == ty,
            r.required,
            r.default is None,
            r.description is None,
    {
        ArgumentDef {
            name: String::from_str(name),
            ty,
            required: true,
            default: None,
            description: None,
        }
    }

    pub fn optional(self) -> (r: Self)
        ensures
            r == (ArgumentDef { required: false, ..self }),
    {
        ArgumentDef { required: false, ..self }
    }

    pub fn with_default(self, value: KdlValue) -> (r: Self)
        ensures
            r == (ArgumentDef { default: Some(value), required: false, ..self }),
    {
        ArgumentDef { default: Some(value), required: false, ..self }
    }

    pub fn with_description(self, desc: &str) -> (r: Self)
        ensures
            r.name == self.name && r.ty == self.ty && r.required == self.required && r.default
                == self.default,
            r.description matches Some(d) && d@ == desc@,
    {
        ArgumentDef { description: Some(String::from_str(desc)), ..self }
    }
}

/// Definition of a property (key-value pair)
#[derive(Debug, Clone)]
pub struct PropertyDef {
    /// Expected type
    pub ty: ValueType,
    /// Whether this property is required
    pub required: bool,
    /// Default value if not provided
    pub default: Option<KdlValue>,
    /// Description for documentation
    pub description: Option<String>,
    /// Possible values (for completion)
    pub suggestions: Vec<String>,
}

impl PropertyDef {
    pub fn new(ty: ValueType) -> (r: Self)
        ensures
            r.ty == ty,
            !r.required,
            r.default is None,
            r.description is None,
            r.suggestions@.len() == 0,
    {
        PropertyDef {
            ty,
            required: false,
            default: None,
            description: None,
            suggestions: Vec::new(),
        }
    }

    pub fn required(self) -> (r: Self)
        ensures
            r == (PropertyDef { required: true, ..self }),
    {
        PropertyDef { required: true, ..self }
    }

    pub fn with_default(self, value: KdlValue) -> (r: Self)
        ensures
            r == (PropertyDef { default: Some(value), ..self }),
    {
        PropertyDef { default: Some(value), ..self }
    }

    pub fn with_description(self, desc: &str) -> (r: Self)
        ensures
            r.ty == self.ty && r.required == self.required && r.default == self.default
                && r.suggestions == self.suggestions,
            r.description matches Some(d) && d@ == desc@,
    {
        PropertyDef { description: Some(String::from_str(desc)), ..self }
    }

    pub fn with_suggestions(self, suggestions: Vec<String>) -> (r: Self)
        ensures
            r == (PropertyDef { suggestions, ..self }),
    {
        PropertyDef { suggestions, ..self }
    }
}

/// Completion item for IDE support
#[derive(Debug, Clone)]
pub struct CompletionItem {
    /// The text to insert
    pub label: String,
    /// Kind of completion
    pub kind: CompletionKind,
    /// Detailed description
    pub detail: Option<String>,
    /// Documentation
    pub documentation: Option<String>,
    /// The actual text to insert (if different from label)
    pub insert_text: Option<String>,
    /// Whether this is a snippet with placeholders
    pub is_snippet: bool,
    /// Sort priority (lower = higher priority)
    pub sort_priority: u32,
}

impl CompletionItem {
    pub fn new(label: &str, kind: CompletionKind) -> (r: Self)
        ensures
            r.label@ == label@,
            r.kind == kind,
            r.detail is None,
            r.documentation is None,
            r.insert_text is None,
            !r.is_snippet,
            r.sort_priority == 100,
    {
        CompletionItem {
            label: String::from_str(label),
            kind,
            detail: None,
            documentation: None,
            insert_text: None,
            is_snippet: false,
            sort_priority: 100,
        }
    }

    pub fn with_detail(self, detail: &str) -> (r: Self)
        ensures
            r.label == self.label && r.kind == self.kind && r.documentation == self.documentation
                && r.insert_text == self.insert_text && r.is_snippet == self.is_snippet
                && r.sort_priority == self.sort_priority,
            r.detail matches Some(d) && d@ == detail@,
    {
        CompletionItem { detail: Some(String::from_str(detail)), ..self }
    }

    pub fn with_docs(self, docs: &str) -> (r: Self)
        ensures
            r.label == self.label && r.kind == self.kind && r.detail == self.detail
                && r.insert_text == self.insert_text && r.is_snippet == self.is_snippet
                && r.sort_priority == self.sort_priority,
            r.documentation matches Some(d) && d@ == docs@,
    {
        CompletionItem { documentation: Some(String::from_str(docs)), ..self }
    }

    pub fn with_insert_text(self, text: &str) -> (r: Self)
        ensures
            r.label == self.label && r.kind == self.kind && r.detail == self.detail
                && r.documentation == self.documentation && r.is_snippet == self.is_snippet
                && r.sort_priority == self.sort_priority,
            r.insert_text matches Some(t) && t@ == text@,
    {
        CompletionItem { insert_text: Some(String::from_str(text)), ..self }
    }

    pub fn as_snippet(self) -> (r: Self)
        ensures
            r == (CompletionItem { is_snippet: true, ..self }),
    {
        CompletionItem { is_snippet: true, ..self }
    }

    pub fn with_priority(self, priority: u32) -> (r: Self)
        ensures
            r == (CompletionItem { sort_priority: priority, ..self }),
    {
        CompletionItem { sort_priority: priority, ..self }
    }
}

/// Kind of completion
#[derive(Debug, Clone, Copy, PartialEq, Eq, Structural)]
pub enum CompletionKind {
    Node,
    Property,
    Value,
    Enum,
    Keyword,
    Snippet,
}

impl CompletionKind {
    /// The Language Server Protocol's number for the kind.
    pub open spec fn lsp_number(self) -> u32 {
        match self {
            CompletionKind::Node => 7,
            CompletionKind::Property => 10,
            CompletionKind::Value => 12,
            CompletionKind::Enum => 13,
            CompletionKind::Keyword => 14,
            CompletionKind::Snippet => 15,
        }
    }

    pub fn to_lsp_kind(&self) -> (r: u32)
        ensures
            r == self.lsp_number(),
    {
        match self {
            CompletionKind::Node => 7,
            CompletionKind::Property => 10,
            CompletionKind::Value => 12,
            CompletionKind::Enum => 13,
            CompletionKind::Keyword => 14,
            CompletionKind::Snippet => 15,
        }
    }
}

/// A validation error
#[derive(Debug, Clone)]
pub struct ValidationError {
    pub message: String,
    pub span: Span,
    pub help: Option<String>,
}

impl ValidationError {
    pub fn new(message: &str, span: Span) -> (r: Self)
        ensures
            r.message@ == message@,
            r.span == span,
            r.help is None,
    {
        ValidationError { message: String::from_str(message), span, help: None }
    }

    pub fn with_help(self, help: &str) -> (r: Self)
        ensures
            r.message == self.message,
            r.span == self.span,
            r.help matches Some(h) && h@ == help@,
    {
        ValidationError { help: Some(String::from_str(help)), ..self }
    }
}

/// Definition of a node type in the schema
#[derive(Debug)]
pub struct NodeDef {
    /// Human-readable description
    pub name: Option<String>,
    pub description: Option<String>,
    /// Expected arguments (positional)
    pub arguments: Vec<ArgumentDef>,
    /// Expected properties (key-value), at most one per key
    pub properties: Vec<(String, PropertyDef)>,
    /// Expected child nodes
    pub children: Vec<NodeDef>,
    /// Whether this node can have any properties (open schema)
    pub allow_unknown_properties: bool,
    /// Whether this node can have any children (open schema)
    pub allow_unknown_children: bool,
    /// Custom validation function
    pub validator: Option<String>,
    /// Completion items for this context
    pub completions: Vec<CompletionItem>,
}

impl Clone for NodeDef {
    fn clone(&self) -> (r: Self)
        decreases self,
    {
        let mut children: Vec<NodeDef> = Vec::new();
        let mut i: usize = 0;
        while i < self.children.len()
            decreases self.children.len() - i,
        {
            proof {
                assert(decreases_to!(self => self.children));
                assert(decreases_to!(self.children => self.children@));
                assert(decreases_to!(self.children@ => self.children@[i as int]));
            }
            children.push(self.children[i].clone());
            i = i + 1;
        }
        NodeDef {
            name: self.name.clone(),
            description: self.description.clone(),
            arguments: self.arguments.clone(),
            properties: self.properties.clone(),
            children,
            allow_unknown_properties: self.allow_unknown_properties,
            allow_unknown_children: self.allow_unknown_children,
            validator: self.validator.clone(),
            completions: self.completions.clone(),
        }
    }
}

impl NodeDef {
    /// Create a new node definition
    pub fn new(name: &str) -> (r: Self)
        ensures
            r.name matches Some(n) && n@ == name@,
            r.description is None,
            r.arguments@.len() == 0,
            r.properties@.len() == 0,
            r.children@.len() == 0,
            !r.allow_unknown_properties,
            !r.allow_unknown_children,
            r.validator is None,
            r.completions@.len() == 0,
    {
        NodeDef {
            name: Some(String::from_str(name)),
            description: None,
            arguments: Vec::new(),
            properties: Vec::new(),
            children: Vec::new(),
            allow_unknown_properties: false,
            allow_unknown_children: false,
            validator: None,
            completions: Vec::new(),
        }
    }

    /// A node definition with an empty name.
    pub fn default() -> (r: Self)
        ensures
            r.name matches Some(n) && n@.len() == 0,
            r.arguments@.len() == 0,
            r.properties@.len() == 0,
            r.children@.len() == 0,
            !r.allow_unknown_properties,
            !r.allow_unknown_children,
    {
        proof {
            reveal_strlit("");
        }
        NodeDef::new("")
    }

    /// Set the description
    pub fn with_description(self, desc: &str) -> (r: Self)
        ensures
            r == (NodeDef { description: r.description, ..self }),
            r.description matches Some(d) && d@ == desc@,
    {
        NodeDef { description: Some(String::from_str(desc)), ..self }
    }

    /// Add an argument
    pub fn with_argument(self, arg: ArgumentDef) -> (r: Self)
        ensures
            r == (NodeDef { arguments: r.arguments, ..self }),
            r.arguments@ == self.arguments@.push(arg),
    {
        let mut r = self;
        r.arguments.push(arg);
        r
    }

    /// Add a property; a property of the same name is replaced.
    pub fn with_property(self, name: &str, prop: PropertyDef) -> (r: Self)
        ensures
            r == (NodeDef { properties: r.properties, ..self }),
            exists|k: String|
                k@ == name@ && r.properties@ == insert_key(self.properties@, k, prop),
    {
        let mut r = self;
        insert_pair(&mut r.properties, String::from_str(name), prop);
        r
    }

    /// Add a child node definition
    pub fn with_child(self, child: NodeDef) -> (r: Self)
        ensures
            r == (NodeDef { children: r.children, ..self }),
            r.children@ == self.children@.push(child),
    {
        let mut r = self;
        r.children.push(child);
        r
    }

    /// Allow unknown properties
    pub fn allow_unknown_props(self) -> (r: Self)
        ensures
            r == (NodeDef { allow_unknown_properties: true, ..self }),
    {
        NodeDef { allow_unknown_properties: true, ..self }
    }

    /// Allow unknown children
    pub fn allow_unknown_children(self) -> (r: Self)
        ensures
            r == (NodeDef { allow_unknown_children: true, ..self }),
    {
        NodeDef { allow_unknown_children: true, ..self }
    }

    /// Set validator
    pub fn with_validator(self, validator: &str) -> (r: Self)
        ensures
            r == (NodeDef { validator: r.validator, ..self }),
            r.validator matches Some(v) && v@ == validator@,
    {
        NodeDef { validator: Some(String::from_str(validator)), ..self }
    }

    /// Add a completion item
    pub fn with_completion(self, item: CompletionItem) -> (r: Self)
        ensures
            r == (NodeDef { completions: r.completions, ..self }),
            r.completions@ == self.completions@.push(item),
    {
        let mut r = self;
        r.completions.push(item);
        r
    }
}

/// The text of a string value.
pub open spec fn string_text(v: KdlValue) -> Option<Seq<char>> {
    match v {
        KdlValue::String(s) => Some(s@),
        _ => None,
    }
}

/// Index of the first entry of `es[i..]` named `key`.
pub open spec fn first_entry_named(es: Seq<Entry>, key: Seq<char>, i: int) -> Option<int>
    decreases es.len() - i,
{
    if i < 0 || i >= es.len() {
        None
    } else if es[i].name matches Some(n) && n@ == key {
        Some(i)
    } else {
        first_entry_named(es, key, i + 1)
    }
}

/// Whether `n` is a child `key "value"`: named `key`, with one argument and nothing else.
pub open spec fn is_value_child(n: Node, key: Seq<char>) -> bool {
    n.name@ == key && n.entries@.len() == 1 && n.entries@[0].name is None
}

/// Index of the first node of `ns[i..]` that is a child `key "value"`.
pub open spec fn first_value_child(ns: Seq<Node>, key: Seq<char>, i: int) -> Option<int>
    decreases ns.len() - i,
{
    if i < 0 || i >= ns.len() {
        None
    } else if is_value_child(ns[i], key) {
        Some(i)
    } else {
        first_value_child(ns, key, i + 1)
    }
}

/// The value of property `key` of a node: the string of its first entry named
/// `key` (`node key="value"`), or else that of its first child `key "value"`.
pub open spec fn node_property_value(node: Node, key: Seq<char>) -> Option<Seq<char>> {
    let direct = match first_entry_named(node.entries@, key, 0) {
        Some(i) => string_text(node.entries@[i].value),
        None => None,
    };
    if direct is Some {
        direct
    } else {
        match node.children {
            Some(d) => match first_value_child(d.nodes@, key, 0) {
                Some(j) => string_text(d.nodes@[j].entries@[0].value),
                None => None,
            },
            None => None,
        }
    }
}

fn string_copy(v: &KdlValue) -> (r: Option<String>)
    ensures
        match r {
            Some(s) => string_text(*v) == Some(s@),
            None => string_text(*v) is None,
        },
{
    match v {
        KdlValue::String(s) => Some(s.clone()),
        _ => None,
    }
}

impl NodeDef {
    /// The value of property `prop_name` of a node, written either as a
    /// property (`node prop="value"`) or as a child (`node { prop "value" }`).
    pub fn get_node_property_value(node: &Node, prop_name: &str) -> (r: Option<String>)
        ensures
            match r {
                Some(s) => node_property_value(*node, prop_name@) == Some(s@),
                None => node_property_value(*node, prop_name@) is None,
            },
    {
        let mut i: usize = 0;
        while i < node.entries.len()
            invariant
                i <= node.entries@.len(),
                first_entry_named(node.entries@, prop_name@, 0) == first_entry_named(node.entries@, prop_name@, i as int),
            ensures
                i <= node.entries@.len(),
                first_entry_named(node.entries@, prop_name@, 0) == first_entry_named(node.entries@, prop_name@, i as int),
                i < node.entries@.len() ==> first_entry_named(node.entries@, prop_name@, i as int) == Some(i as int),
            decreases node.entries@.len() - i,
        {
            let named = match &node.entries[i].name {
                Some(n) => str_eq(n.as_str(), prop_name),
                None => false,
            };
            if named {
                break;
            }
            i = i + 1;
        }
        let direct = if i < node.entries.len() {
            string_copy(&node.entries[i].value)
        } else {
            None
        };
        if direct.is_some() {
            return direct;
        }
        match &node.children {
            Some(d) => {
                let mut j: usize = 0;
                assert(node_property_value(*node, prop_name@) == match first_value_child(d.nodes@, prop_name@, 0) {
                    Some(k) => string_text(d.nodes@[k].entries@[0].value),
                    None => None,
                });
                while j < d.nodes.len()
                    invariant
                        j <= d.nodes@.len(),
                        node_property_value(*node, prop_name@) == match first_value_child(d.nodes@, prop_name@, 0) {
                            Some(k) => string_text(d.nodes@[k].entries@[0].value),
                            None => None,
                        },
                        first_value_child(d.nodes@, prop_name@, 0) == first_value_child(d.nodes@, prop_name@, j as int),
                    decreases d.nodes@.len() - j,
                {
                    let c = &d.nodes[j];
                    if str_eq(c.name.as_str(), prop_name) && c.entries.len() == 1 && c.entries[0].name.is_none() {
                        assert(is_value_child(d.nodes@[j as int], prop_name@));
                        assert(first_value_child(d.nodes@, prop_name@, j as int) == Some(j as int));
                        return string_copy(&c.entries[0].value);
                    }
                    j = j + 1;
                }
                None
            },
            None => None,
        }
    }
}

/// An enum defined in a schema is the one the schema then gives for its
/// name; the enums of other names stay as they were.
pub proof fn defined_enum_is_found(enums: Seq<(String, EnumDef)>, name: String, def: EnumDef, other: Seq<char>)
    ensures
        lookup_key(insert_key(enums, name, def), name@) == Some(def),
        other != name@ ==> lookup_key(insert_key(enums, name, def), other) == lookup_key(enums, other),
{
    lemma_insert_key_lookup(enums, name, def, name@);
    lemma_insert_key_lookup(enums, name, def, other);
}

/// A schema defines the structure and validation rules for a KDL-based language
#[derive(Debug, Clone)]
pub struct Schema {
    /// Human-readable name of the schema
    pub name: String,
    /// Root node definitions
    pub root: NodeDef,
    /// Enum definitions for use in properties, at most one per name
    pub enums: Vec<(String, EnumDef)>,
}

impl Schema {
    /// Create a new empty schema
    pub fn new(name: &str, root: NodeDef) -> (r: Self)
        ensures
            r.name@ == name@,
            r.root == root,
            r.enums@.len() == 0,
    {
        Schema { name: String::from_str(name), root, enums: Vec::new() }
    }

    /// Define an enum type; an enum of the same name is replaced.
    pub fn define_enum(&mut self, name: &str, def: EnumDef)
        ensures
            final(self).name == old(self).name,
            final(self).root == old(self).root,
            exists|k: String|
                k@ == name@ && final(self).enums@ == insert_key(old(self).enums@, k, def),
    {
        insert_pair(&mut self.enums, String::from_str(name), def);
    }

    /// Get an enum definition
    pub fn get_enum(&self, name: &str) -> (r: Option<&EnumDef>)
        ensures
            match lookup_key(self.enums@, name@) {
                Some(d) => r == Some(&d),
                None => r is None,
            },
    {
        proof {
            lemma_find_key_from(self.enums@, name@, 0);
        }
        match find_key(&self.enums, name) {
            Some(k) => {
                let d = &self.enums[k].1;
                assert(*d == self.enums@[k as int].1);
                Some(d)
            },
            None => None,
        }
    }
}

}
