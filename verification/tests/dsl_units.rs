//! The definition parser, diagnostics, value types, number recognition,
//! highlighting and validators of the DSL.

use degov::dsl::document::KdlValue;
use degov::dsl::error::{DiagnosticKind, DslDiagnostic, DslError, Severity, SourceFile};
use degov::dsl::numeric::text_parses_as_f64;
use degov::dsl::parser::{
    get_child_bool_value, get_child_node, get_children, get_optional_child_node,
    get_optional_child_string_value, get_string_entry, Parser,
};
use degov::dsl::permission::{default_deny, DefaultPolicy};
use degov::dsl::schema::{value_type_name, EnumDef, NodeDef, PropertyDef, Schema, ValueType};
use degov::dsl::span::{Span, Spanned};
use degov::dsl::syntax::{highlight_line, overlaps, Color};
use degov::dsl::validate::Parser as SchemaParser;
use degov::dsl::validation::{ExternalRefValidator, RegexValidator};
use std::sync::Arc;

fn parse_doc(src: &str) -> degov::dsl::document::Document {
    SchemaParser::new(src.to_string(), "t.dgv".to_string()).parse().unwrap().document
}

#[test]
fn definition_type_is_read() {
    let parser = Parser::new("definition {\n    type \"DataModel\"\n}\n".to_string(), "def.dgv".to_string());
    let def = parser.parse().unwrap();
    assert_eq!(def.definition_type.value(), "DataModel");
    assert_eq!(parser.source_name(), "def.dgv");
    assert_eq!(parser.src(), "definition {\n    type \"DataModel\"\n}\n");
}

#[test]
fn missing_definition_node_is_reported() {
    let parser = Parser::new("other 1\n".to_string(), "x.dgv".to_string());
    let err = parser.parse().unwrap_err();
    assert_eq!(err.diagnostics.len(), 1);
    let d = &err.diagnostics[0];
    assert_eq!(d.kind.message(), "Missing required node: 'definition'");
    assert_eq!(d.span, Span { offset: 0, len: 1 });
    let parser = Parser::new(String::new(), "empty.dgv".to_string());
    let err = parser.parse().unwrap_err();
    assert_eq!(err.diagnostics[0].span, Span { offset: 0, len: 0 });
}

#[test]
fn missing_type_child_is_reported() {
    let parser = Parser::new("definition {\n    kind \"x\"\n}\n".to_string(), "x.dgv".to_string());
    let err = parser.parse().unwrap_err();
    assert_eq!(err.diagnostics[0].kind.message(), "Missing required child node: 'type' in 'definition'");
}

#[test]
fn non_string_type_is_reported() {
    let parser = Parser::new("definition {\n    type 42\n}\n".to_string(), "x.dgv".to_string());
    let err = parser.parse().unwrap_err();
    assert_eq!(err.diagnostics[0].kind.message(), "Invalid type: expected string, got Integer(42)");
}

#[test]
fn kdl_syntax_errors_become_parse_errors() {
    let parser = Parser::new("definition {".to_string(), "broken.dgv".to_string());
    let err = parser.parse().unwrap_err();
    assert!(!err.diagnostics.is_empty());
    assert_eq!(err.source.name, "broken.dgv");
    assert!(err.diagnostics.iter().all(|d| d.kind.code() == "dsl::parse_error"));
}

#[test]
fn node_helpers() {
    let parser = Parser::new(String::new(), "h.dgv".to_string());
    let doc = parse_doc("n \"a\" 2 {\n  flag #true\n  other \"x\"\n  bad \"yes\"\n}\n");
    let n = &doc.nodes()[0];
    assert_eq!(get_children(n).len(), 3);
    assert!(get_optional_child_node(n, "missing").is_none());
    assert_eq!(get_child_node(n, "other", &parser).unwrap().name(), "other");
    assert_eq!(get_string_entry(n, 0, &parser).unwrap().into_value(), "a");
    let e = get_string_entry(n, 5, &parser).unwrap_err();
    assert_eq!(e.diagnostics[0].kind.message(), "Missing required property: 'entry at index 5'");
    let e = get_string_entry(n, 1, &parser).unwrap_err();
    assert_eq!(e.diagnostics[0].kind.message(), "Invalid type: expected string, got Integer(2)");
    assert_eq!(*get_child_bool_value(n, "flag", &parser).unwrap().value(), true);
    let e = get_child_bool_value(n, "bad", &parser).unwrap_err();
    assert_eq!(e.diagnostics[0].kind.message(), "Invalid type: expected boolean, got String(\"yes\")");
    assert!(get_optional_child_string_value(n, "none", &parser).unwrap().is_none());
    assert_eq!(get_optional_child_string_value(n, "other", &parser).unwrap().unwrap().into_value(), "x");
}

#[test]
fn diagnostic_texts() {
    let k = DiagnosticKind::TypeMismatch { expected: "integer".to_string(), got: "string".to_string() };
    assert_eq!(k.code(), "dsl::type_mismatch");
    assert_eq!(k.message(), "Invalid type: expected integer, got string");
    assert_eq!(k.label(), "expected integer, found string");
    assert_eq!(k.help(), Some("Change this value to be of type 'integer'".to_string()));
    let k = DiagnosticKind::UnknownNode { node_name: "x".to_string(), suggestion: None };
    assert_eq!(k.help(), Some("Check the documentation for valid options".to_string()));
    let k = DiagnosticKind::InvalidValue { message: "m".to_string(), suggestion: None };
    assert_eq!(k.help(), None);
}

#[test]
fn error_summaries() {
    let mut err = DslError::new("text".to_string(), "f.dgv".to_string());
    assert_eq!(err.summary(), "No diagnostics");
    let src = Arc::new(SourceFile { name: "f.dgv".to_string(), text: "text".to_string() });
    let span = Span { offset: 0, len: 1 };
    err.add_diagnostic(DslDiagnostic::warning(src.clone(), DiagnosticKind::ParseError { message: "w".to_string() }, span));
    assert_eq!(err.summary(), "Found 1 warning");
    assert!(!err.has_errors());
    err.add_diagnostic(DslDiagnostic::error(src.clone(), DiagnosticKind::ParseError { message: "e".to_string() }, span));
    err.add_diagnostic(DslDiagnostic::error(src, DiagnosticKind::ParseError { message: "e".to_string() }, span));
    assert_eq!(err.summary(), "Found 2 errors and 1 warning");
    assert_eq!(err.error_count(), 2);
    assert_eq!(err.warning_count(), 1);
    assert!(err.has_errors());
    assert_eq!(err.diagnostics[0].severity, Severity::Warning);
}

#[test]
fn numbers_are_recognised_like_rust_parse() {
    for s in ["0", "-12", "+7", "9223372036854775807", "-9223372036854775808"] {
        assert_eq!(ValueType::Integer.matches(&KdlValue::String(s.to_string())), s.parse::<i64>().is_ok(), "{}", s);
    }
    for s in ["", "-", "9223372036854775808", "1.0", "12a"] {
        assert_eq!(ValueType::Integer.matches(&KdlValue::String(s.to_string())), s.parse::<i64>().is_ok(), "{}", s);
    }
    for s in ["1.5", "-.5", "1e10", "inf", "NaN", "-Infinity", "1.", ".", "e5", "1e", "abc", "+3.25E-2"] {
        assert_eq!(text_parses_as_f64(s), s.parse::<f64>().is_ok(), "{}", s);
    }
}

#[test]
fn value_types_match_and_name() {
    assert!(ValueType::Integer.matches(&KdlValue::String("42".to_string())));
    assert!(ValueType::Integer.matches(&KdlValue::Integer(42)));
    assert!(ValueType::Float.matches(&KdlValue::String("4.2".to_string())));
    assert_eq!(ValueType::Enum("Status".to_string()).name(), "enum<Status>");
    assert_eq!(ValueType::NodeRef("model".to_string()).name(), "ref<model>");
    assert_eq!(ValueType::custom("nsid", "nsid").name(), "nsid");
    assert_eq!(value_type_name(&KdlValue::String("42".to_string())), "integer");
    assert_eq!(value_type_name(&KdlValue::String("4.2".to_string())), "number");
    assert_eq!(value_type_name(&KdlValue::String("x".to_string())), "string");
    assert_eq!(value_type_name(&KdlValue::Boolean(true)), "boolean");
    assert_eq!(value_type_name(&KdlValue::Null), "null");
    assert_eq!(value_type_name(&KdlValue::Integer(1)), "unknown");
    assert!(EnumDef::new(vec!["a".to_string()]).is_valid("a"));
    assert!(!EnumDef::new(vec!["a".to_string()]).is_valid("b"));
}

#[test]
fn enum_errors_list_the_valid_values() {
    let mut schema = Schema::new("s", NodeDef::new("person")
        .with_property("status", PropertyDef::new(ValueType::Enum("Status".to_string()))));
    schema.define_enum("Status", EnumDef::new(vec!["active".to_string(), "inactive".to_string()]));
    let err = SchemaParser::new("person status=\"gone\"".to_string(), "e.dgv".to_string())
        .with_schema(schema)
        .parse()
        .err()
        .unwrap();
    assert_eq!(err.diagnostics.len(), 1);
    assert_eq!(err.diagnostics[0].kind.message(), "Invalid value: Invalid enum value 'gone' for enum 'Status'");
    assert_eq!(err.diagnostics[0].kind.help(), Some("Valid values are: active, inactive".to_string()));
}

#[test]
fn spans_of_spanned_values() {
    let a = Spanned::with_offsets("a", 2, 5);
    let b = Spanned::new("b", Span { offset: 7, len: 3 });
    assert_eq!(a.span(), Span { offset: 2, len: 3 });
    assert_eq!(a.join(&b), Span { offset: 2, len: 8 });
    let z = a.zip(b);
    assert_eq!(*z.value(), ("a", "b"));
}

#[test]
fn default_policy_denies() {
    assert_eq!(default_deny(), DefaultPolicy::Deny);
}

#[test]
fn highlighting_wraps_matches_in_colours() {
    let out = String::from_utf8(highlight_line("name \"x\" 42")).unwrap();
    assert_eq!(out, "\x1b[34mname\x1b[0m \x1b[32m\"x\"\x1b[0m \x1b[33m42\x1b[0m");
    let out = String::from_utf8(highlight_line("// a comment with model 1")).unwrap();
    assert_eq!(out, "\x1b[90m// a comment with model 1\x1b[0m");
    let out = String::from_utf8(highlight_line("plain words")).unwrap();
    assert_eq!(out, "plain words");
    let out = String::from_utf8(highlight_line("type \"string\" null true")).unwrap();
    assert_eq!(out, "type \x1b[32m\"string\"\x1b[0m \x1b[35mnull\x1b[0m \x1b[35mtrue\x1b[0m");
}

#[test]
fn overlapping_ranges() {
    let hs = vec![(2usize, 5usize, Color::Green)];
    assert!(overlaps(&hs, 3, 4));
    assert!(overlaps(&hs, 0, 3));
    assert!(overlaps(&hs, 1, 9));
    assert!(!overlaps(&hs, 5, 7));
    assert!(!overlaps(&hs, 0, 2));
}

#[test]
fn validators() {
    let doc = parse_doc("id \"de.berlin\"\nid \"Not Valid\"\nid 7\n");
    let v = RegexValidator::new("^[a-z.]+$", "bad id").ok().unwrap();
    let span = Span { offset: 0, len: 2 };
    assert!(v.validate(&doc.nodes()[0], span).is_ok());
    let e = v.validate(&doc.nodes()[1], span).unwrap_err();
    assert_eq!(e.message, "bad id");
    assert!(v.validate(&doc.nodes()[2], span).is_ok());
    assert!(RegexValidator::new("(", "x").is_err());
    assert!(ExternalRefValidator::new(true).validate(&doc.nodes()[0], span).is_ok());
    assert!(ExternalRefValidator::new(false).validate(&doc.nodes()[1], span).is_ok());
}

#[test]
fn node_property_value_from_property_or_child() {
    let doc = parse_doc(
        "a kind=\"DataModel\"\nb { kind \"Workflow\" }\nc kind=1 { kind \"Service\" }\nd { kind \"x\" \"y\" }\ne\n",
    );
    let nodes = doc.nodes();
    assert_eq!(NodeDef::get_node_property_value(&nodes[0], "kind"), Some("DataModel".to_string()));
    assert_eq!(NodeDef::get_node_property_value(&nodes[1], "kind"), Some("Workflow".to_string()));
    assert_eq!(NodeDef::get_node_property_value(&nodes[2], "kind"), Some("Service".to_string()));
    assert_eq!(NodeDef::get_node_property_value(&nodes[3], "kind"), None);
    assert_eq!(NodeDef::get_node_property_value(&nodes[4], "kind"), None);
    assert_eq!(NodeDef::get_node_property_value(&nodes[0], "other"), None);
}

#[test]
fn diagnostics_come_in_checking_order() {
    let root = NodeDef::new("person")
        .with_argument(degov::dsl::schema::ArgumentDef::new("id", ValueType::Integer))
        .with_property("name", PropertyDef::new(ValueType::String).required())
        .with_property("age", PropertyDef::new(ValueType::Integer))
        .with_child(NodeDef::new("address"));
    let schema = Schema::new("people", root);
    let src = "person \"x\" age=\"old\" color=\"red\" {\n  pet \"cat\"\n}\n";
    let err = match SchemaParser::new(src.to_string(), "p.dgv".to_string()).with_schema(schema).parse() {
        Ok(_) => panic!("the document does not conform"),
        Err(e) => e,
    };
    let messages: Vec<String> = err.diagnostics.iter().map(|d| d.kind.message()).collect();
    assert_eq!(
        messages,
        vec![
            "Invalid type: expected integer, got string".to_string(),
            "Missing required property: 'name'".to_string(),
            "Invalid type: expected integer, got string".to_string(),
            "Unknown property: 'color'".to_string(),
            "Unknown node: 'pet'".to_string(),
        ]
    );
}

#[test]
fn number_literals_match_number_types() {
    assert!(ValueType::Integer.matches(&KdlValue::Integer(30)));
    assert!(ValueType::Integer.matches(&KdlValue::String("30".to_string())));
    assert!(!ValueType::Integer.matches(&KdlValue::Integer(i64::MAX as i128 + 1)));
    assert!(!ValueType::Integer.matches(&KdlValue::Float("1.5".to_string())));
    assert!(ValueType::Float.matches(&KdlValue::Float("1.5".to_string())));
    assert!(!ValueType::Float.matches(&KdlValue::Integer(2)));
    assert!(ValueType::Float.matches(&KdlValue::String("2.5".to_string())));
    assert!(!ValueType::String.matches(&KdlValue::Integer(30)));
    let root = NodeDef::new("person").with_property("age", PropertyDef::new(ValueType::Integer));
    let schema = Schema::new("people", root);
    let parsed = SchemaParser::new("person age=30\n".to_string(), "p.dgv".to_string()).with_schema(schema).parse();
    assert!(parsed.is_ok());
}
