//! Dependency graphs of data models: adding models, cycles, topological
//! order, neighbours, and resolution of inherited schemas.

use degov::dsl::graph::{DependencyGraph, GraphError, ModelLoader};
use degov::dsl::metadata::{ApiVersion, Authority};
use degov::dsl::model::{DataModel, DataModelSpec, Index, Metadata, Property, PropertyType, Schema, SchemaType};

fn property(property_type: PropertyType, description: &str, required: bool) -> Property {
    Property {
        property_type,
        reference: None,
        format: None,
        description: Some(description.to_string()),
        required,
        nullable: false,
        immutable: false,
        indexed: false,
        encrypted: false,
        pii: false,
        generated: false,
        default: None,
        values: None,
        pattern: None,
        min_length: None,
        max_length: None,
        min: None,
        max: None,
        min_items: None,
        max_items: None,
        items: None,
        properties: Vec::new(),
        validations: Vec::new(),
    }
}

fn create_test_model(id: &str, inherits: Vec<&str>, add_properties: bool) -> DataModel {
    let mut properties = Vec::new();
    if add_properties {
        let field_name = id.split('/').last().unwrap().replace("-", "_");
        properties.push((
            format!("{}_field", field_name),
            property(PropertyType::String, &format!("Field from {}", id), false),
        ));
    }
    DataModel {
        api_version: ApiVersion::V1,
        kind: "DataModel".to_string(),
        metadata: Metadata {
            id: id.to_string(),
            title: format!("Test Model {}", id),
            description: Some(format!("Test description for {}", id)),
            version: "1.0.0".to_string(),
            authority: Some(Authority {
                name: "Test Authority".to_string(),
                did: "did:test:authority".to_string(),
                logo: None,
                email: None,
            }),
            tags: Vec::new(),
            extra: Vec::new(),
        },
        spec: DataModelSpec {
            inherits: inherits.iter().map(|s| s.to_string()).collect(),
            storage: None,
            schema: Schema {
                schema_type: SchemaType::Object,
                properties,
                items: None,
                required: Vec::new(),
            },
            indexes: Vec::new(),
            computed: Vec::new(),
        },
    }
}

fn lookup<'a, V>(entries: &'a [(String, V)], key: &str) -> Option<&'a V> {
    entries.iter().find(|(k, _)| k == key).map(|(_, v)| v)
}

fn has_key<V>(entries: &[(String, V)], key: &str) -> bool {
    lookup(entries, key).is_some()
}

#[test]
fn test_add_model() {
    let mut graph = DependencyGraph::new();
    let model = create_test_model("test.org/model1", vec![], false);

    graph.add_model(model).unwrap();
    assert_eq!(graph.models().len(), 1);
}

#[test]
fn test_simple_inheritance() {
    let mut graph = DependencyGraph::new();
    let base = create_test_model("test.org/base", vec![], false);
    let derived = create_test_model("test.org/derived", vec!["test.org/base"], false);

    graph.add_model(base).unwrap();
    graph.add_model(derived).unwrap();

    let order = graph.topological_sort().unwrap();
    assert_eq!(order.len(), 2);
    assert!(order.iter().position(|s| s == "test.org/base").unwrap()
        > order.iter().position(|s| s == "test.org/derived").unwrap());
}

#[test]
fn test_cycle_detection() {
    let mut graph = DependencyGraph::new();
    let model_a = create_test_model("test.org/a", vec!["test.org/b"], false);
    let model_b = create_test_model("test.org/b", vec!["test.org/c"], false);
    let model_c = create_test_model("test.org/c", vec!["test.org/a"], false);

    graph.add_model(model_a).unwrap();
    graph.add_model(model_b).unwrap();
    graph.add_model(model_c).unwrap();

    assert!(graph.detect_cycles().is_err());
}

#[test]
fn graph_test_multiple_inheritance() {
    let mut graph = DependencyGraph::new();
    let base1 = create_test_model("test.org/base1", vec![], false);
    let base2 = create_test_model("test.org/base2", vec![], false);
    let derived = create_test_model("test.org/derived", vec!["test.org/base1", "test.org/base2"], false);

    graph.add_model(base1).unwrap();
    graph.add_model(base2).unwrap();
    graph.add_model(derived).unwrap();

    graph.detect_cycles().unwrap();
    let order = graph.topological_sort().unwrap();
    assert_eq!(order.len(), 3);
}

#[test]
fn graph_test_diamond_inheritance() {
    let mut graph = DependencyGraph::new();
    let base = create_test_model("test.org/base", vec![], false);
    let left = create_test_model("test.org/left", vec!["test.org/base"], false);
    let right = create_test_model("test.org/right", vec!["test.org/base"], false);
    let derived = create_test_model("test.org/derived", vec!["test.org/left", "test.org/right"], false);

    graph.add_model(base).unwrap();
    graph.add_model(left).unwrap();
    graph.add_model(right).unwrap();
    graph.add_model(derived).unwrap();

    graph.detect_cycles().unwrap();
    let order = graph.topological_sort().unwrap();
    assert_eq!(order.len(), 4);
}

#[test]
fn test_resolve_with_properties() {
    let mut graph = DependencyGraph::new();

    let mut base = create_test_model("test.org/base", vec![], false);
    base.spec.schema.properties.push(("baseField".to_string(), property(PropertyType::String, "Base field", false)));
    base.spec.schema.required.push("baseField".to_string());

    let mut derived = create_test_model("test.org/derived", vec!["test.org/base"], false);
    derived.spec.schema.properties.push((
        "derivedField".to_string(),
        property(PropertyType::Integer, "Derived field", false),
    ));

    graph.add_model(base).unwrap();
    graph.add_model(derived).unwrap();

    let resolved = graph.resolve_all().unwrap();
    let resolved_derived = lookup(&resolved, "test.org/derived").unwrap();

    assert!(has_key(&resolved_derived.spec.schema.properties, "baseField"));
    assert!(has_key(&resolved_derived.spec.schema.properties, "derivedField"));
    assert!(resolved_derived.spec.schema.required.contains(&"baseField".to_string()));
}

#[test]
fn test_get_dependencies() {
    let mut graph = DependencyGraph::new();
    let base = create_test_model("test.org/base", vec![], false);
    let derived = create_test_model("test.org/derived", vec!["test.org/base"], false);

    graph.add_model(base).unwrap();
    graph.add_model(derived).unwrap();

    let deps = graph.get_dependencies("test.org/derived").unwrap();
    assert_eq!(deps.len(), 1);
    assert_eq!(deps[0], "test.org/base");
}

#[test]
fn test_get_dependents() {
    let mut graph = DependencyGraph::new();
    let base = create_test_model("test.org/base", vec![], false);
    let derived = create_test_model("test.org/derived", vec!["test.org/base"], false);

    graph.add_model(base).unwrap();
    graph.add_model(derived).unwrap();

    let dependents = graph.get_dependents("test.org/base").unwrap();
    assert_eq!(dependents.len(), 1);
    assert_eq!(dependents[0], "test.org/derived");
}

#[test]
fn test_simple_inheritance_resolution() {
    let mut graph = DependencyGraph::new();
    let base = create_test_model("test.org/person", vec![], true);
    let citizen = create_test_model("test.org/citizen", vec!["test.org/person"], true);

    graph.add_model(base).unwrap();
    graph.add_model(citizen).unwrap();

    let resolved = graph.resolve_all().unwrap();

    let resolved_citizen = lookup(&resolved, "test.org/citizen").unwrap();
    assert!(has_key(&resolved_citizen.spec.schema.properties, "person_field"));
    assert!(has_key(&resolved_citizen.spec.schema.properties, "citizen_field"));
    assert_eq!(resolved_citizen.spec.schema.properties.len(), 2);
    assert_eq!(resolved_citizen.spec.inherits.len(), 0);
}

#[test]
fn test_graph_test_multiple_inheritance() {
    let mut graph = DependencyGraph::new();
    let person = create_test_model("test.org/person", vec![], true);
    let taxpayer = create_test_model("test.org/taxpayer", vec![], true);
    let citizen = create_test_model("test.org/citizen", vec!["test.org/person", "test.org/taxpayer"], true);

    graph.add_model(person).unwrap();
    graph.add_model(taxpayer).unwrap();
    graph.add_model(citizen).unwrap();

    let resolved = graph.resolve_all().unwrap();

    let resolved_citizen = lookup(&resolved, "test.org/citizen").unwrap();
    assert!(has_key(&resolved_citizen.spec.schema.properties, "person_field"));
    assert!(has_key(&resolved_citizen.spec.schema.properties, "taxpayer_field"));
    assert!(has_key(&resolved_citizen.spec.schema.properties, "citizen_field"));
    assert_eq!(resolved_citizen.spec.schema.properties.len(), 3);
}

#[test]
fn test_deep_inheritance_chain() {
    let mut graph = DependencyGraph::new();
    let base = create_test_model("test.org/base", vec![], true);
    let middle = create_test_model("test.org/middle", vec!["test.org/base"], true);
    let derived = create_test_model("test.org/derived", vec!["test.org/middle"], true);

    graph.add_model(base).unwrap();
    graph.add_model(middle).unwrap();
    graph.add_model(derived).unwrap();

    let resolved = graph.resolve_all().unwrap();

    let resolved_derived = lookup(&resolved, "test.org/derived").unwrap();
    assert!(has_key(&resolved_derived.spec.schema.properties, "base_field"));
    assert!(has_key(&resolved_derived.spec.schema.properties, "middle_field"));
    assert!(has_key(&resolved_derived.spec.schema.properties, "derived_field"));
    assert_eq!(resolved_derived.spec.schema.properties.len(), 3);
}

#[test]
fn test_graph_test_diamond_inheritance() {
    let mut graph = DependencyGraph::new();
    let base = create_test_model("test.org/base", vec![], true);
    let left = create_test_model("test.org/left", vec!["test.org/base"], true);
    let right = create_test_model("test.org/right", vec!["test.org/base"], true);
    let derived = create_test_model("test.org/derived", vec!["test.org/left", "test.org/right"], true);

    graph.add_model(base).unwrap();
    graph.add_model(left).unwrap();
    graph.add_model(right).unwrap();
    graph.add_model(derived).unwrap();

    let resolved = graph.resolve_all().unwrap();

    let resolved_derived = lookup(&resolved, "test.org/derived").unwrap();
    assert!(has_key(&resolved_derived.spec.schema.properties, "base_field"));
    assert!(has_key(&resolved_derived.spec.schema.properties, "left_field"));
    assert!(has_key(&resolved_derived.spec.schema.properties, "right_field"));
    assert!(has_key(&resolved_derived.spec.schema.properties, "derived_field"));
    assert_eq!(resolved_derived.spec.schema.properties.len(), 4);
}

#[test]
fn test_property_override() {
    let mut graph = DependencyGraph::new();

    let mut base = create_test_model("test.org/base", vec![], false);
    base.spec.schema.properties.push(("name".to_string(), property(PropertyType::String, "Base name", false)));

    let mut derived = create_test_model("test.org/derived", vec!["test.org/base"], false);
    derived.spec.schema.properties.push((
        "name".to_string(),
        property(PropertyType::String, "Derived name (overridden)", true),
    ));

    graph.add_model(base).unwrap();
    graph.add_model(derived).unwrap();

    let resolved = graph.resolve_all().unwrap();

    let resolved_derived = lookup(&resolved, "test.org/derived").unwrap();
    let name_prop = lookup(&resolved_derived.spec.schema.properties, "name").unwrap();
    assert_eq!(name_prop.description, Some("Derived name (overridden)".to_string()));
    assert_eq!(name_prop.required, true);
}

#[test]
fn test_circular_dependency_detection() {
    let mut graph = DependencyGraph::new();
    let model_a = create_test_model("test.org/a", vec!["test.org/b"], false);
    let model_b = create_test_model("test.org/b", vec!["test.org/c"], false);
    let model_c = create_test_model("test.org/c", vec!["test.org/a"], false);

    graph.add_model(model_a).unwrap();
    graph.add_model(model_b).unwrap();
    graph.add_model(model_c).unwrap();

    assert!(graph.detect_cycles().is_err());
    assert!(graph.topological_sort().is_err());
}

#[test]
fn test_get_dependencies_and_dependents() {
    let mut graph = DependencyGraph::new();
    let base = create_test_model("test.org/base", vec![], false);
    let middle = create_test_model("test.org/middle", vec!["test.org/base"], false);
    let derived = create_test_model("test.org/derived", vec!["test.org/middle"], false);

    graph.add_model(base).unwrap();
    graph.add_model(middle).unwrap();
    graph.add_model(derived).unwrap();

    let middle_deps = graph.get_dependencies("test.org/middle").unwrap();
    assert_eq!(middle_deps.len(), 1);
    assert!(middle_deps.contains(&"test.org/base".to_string()));

    let base_dependents = graph.get_dependents("test.org/base").unwrap();
    assert_eq!(base_dependents.len(), 1);
    assert!(base_dependents.contains(&"test.org/middle".to_string()));
}

#[test]
fn test_empty_graph() {
    let graph = DependencyGraph::new();
    assert!(graph.is_empty());
    assert_eq!(graph.len(), 0);

    let resolved = graph.resolve_all().unwrap();
    assert!(resolved.is_empty());
}

#[test]
fn test_no_inheritance() {
    let mut graph = DependencyGraph::new();
    let model = create_test_model("test.org/standalone", vec![], true);
    graph.add_model(model).unwrap();

    let resolved = graph.resolve_all().unwrap();
    let resolved_model = lookup(&resolved, "test.org/standalone").unwrap();

    assert!(has_key(&resolved_model.spec.schema.properties, "standalone_field"));
    assert_eq!(resolved_model.spec.schema.properties.len(), 1);
}

// ---------------------------------------------------------------------------
// Further cases
// ---------------------------------------------------------------------------

#[test]
fn resolution_keeps_property_order_and_first_parent_wins() {
    let mut graph = DependencyGraph::new();
    let mut a = create_test_model("test.org/a", vec![], false);
    a.spec.schema.properties.push(("x".to_string(), property(PropertyType::String, "from a", false)));
    a.spec.schema.properties.push(("y".to_string(), property(PropertyType::String, "from a", false)));
    let mut b = create_test_model("test.org/b", vec![], false);
    b.spec.schema.properties.push(("y".to_string(), property(PropertyType::String, "from b", false)));
    b.spec.schema.properties.push(("z".to_string(), property(PropertyType::String, "from b", false)));
    let mut c = create_test_model("test.org/c", vec!["test.org/a", "test.org/b"], false);
    c.spec.schema.properties.push(("x".to_string(), property(PropertyType::Integer, "from c", false)));
    c.spec.schema.properties.push(("w".to_string(), property(PropertyType::String, "from c", false)));

    graph.add_model(a).unwrap();
    graph.add_model(b).unwrap();
    graph.add_model(c).unwrap();
    let resolved = graph.resolve_all().unwrap();
    let rc = lookup(&resolved, "test.org/c").unwrap();
    let names: Vec<&str> = rc.spec.schema.properties.iter().map(|(k, _)| k.as_str()).collect();
    assert_eq!(names, vec!["x", "y", "z", "w"]);
    assert_eq!(lookup(&rc.spec.schema.properties, "x").unwrap().description, Some("from c".to_string()));
    assert_eq!(lookup(&rc.spec.schema.properties, "y").unwrap().description, Some("from a".to_string()));
}

#[test]
fn resolution_merges_required_and_replaces_indexes() {
    let mut graph = DependencyGraph::new();
    let mut base = create_test_model("test.org/base", vec![], false);
    base.spec.schema.required = vec!["id".to_string(), "name".to_string()];
    base.spec.indexes = vec![
        Index { name: "by_id".to_string(), fields: vec!["id".to_string()], unique: true },
        Index { name: "by_name".to_string(), fields: vec!["name".to_string()], unique: false },
    ];
    let mut derived = create_test_model("test.org/derived", vec!["test.org/base"], false);
    derived.spec.schema.required = vec!["name".to_string(), "email".to_string()];
    derived.spec.indexes = vec![Index { name: "by_id".to_string(), fields: vec!["uuid".to_string()], unique: false }];

    graph.add_model(base).unwrap();
    graph.add_model(derived).unwrap();
    let resolved = graph.resolve_all().unwrap();
    let rd = lookup(&resolved, "test.org/derived").unwrap();
    assert_eq!(rd.spec.schema.required, vec!["id".to_string(), "name".to_string(), "email".to_string()]);
    let index_names: Vec<&str> = rd.spec.indexes.iter().map(|i| i.name.as_str()).collect();
    assert_eq!(index_names, vec!["by_name", "by_id"]);
    assert_eq!(rd.spec.indexes[1].fields, vec!["uuid".to_string()]);
}

#[test]
fn resolution_reports_a_model_that_is_only_referenced() {
    let mut graph = DependencyGraph::new();
    let derived = create_test_model("test.org/derived", vec!["test.org/missing"], false);
    graph.add_model(derived).unwrap();
    match graph.resolve_all() {
        Err(GraphError::MissingField(m)) => assert_eq!(m, "Model not found: test.org/missing"),
        _ => panic!("expected a missing model"),
    }
}

#[test]
fn cycle_messages() {
    let mut graph = DependencyGraph::new();
    graph.add_model(create_test_model("test.org/self", vec!["test.org/self"], false)).unwrap();
    match graph.detect_cycles() {
        Err(GraphError::CircularDependency(m)) => {
            assert_eq!(m, "Circular inheritance detected in the dependency graph")
        }
        _ => panic!("expected a cycle"),
    }
    match graph.topological_sort() {
        Err(GraphError::CircularDependency(m)) => {
            assert_eq!(m, "Circular dependency detected during topological sort")
        }
        _ => panic!("expected a cycle"),
    }
}

#[test]
fn dependencies_come_most_recent_first() {
    let mut graph = DependencyGraph::new();
    graph.add_model(create_test_model("test.org/d", vec!["test.org/p1", "test.org/p2", "test.org/p3"], false)).unwrap();
    let deps = graph.get_dependencies("test.org/d").unwrap();
    assert_eq!(deps, vec!["test.org/p3".to_string(), "test.org/p2".to_string(), "test.org/p1".to_string()]);
    assert!(graph.get_dependencies("test.org/unknown").is_none());
}

#[test]
fn loader_visits_each_ancestor_once_breadth_first() {
    let mut graph = DependencyGraph::new();
    let mut loader = ModelLoader::new("test.org/child");
    let mut order: Vec<String> = Vec::new();
    while let Some(nsid) = loader.next() {
        order.push(nsid.clone());
        let model = match nsid.as_str() {
            "test.org/child" => create_test_model("test.org/child", vec!["test.org/a", "test.org/b"], false),
            "test.org/a" => create_test_model("test.org/a", vec!["test.org/base"], false),
            "test.org/b" => create_test_model("test.org/b", vec!["test.org/base"], false),
            _ => create_test_model("test.org/base", vec![], false),
        };
        loader.take_model(&mut graph, nsid, Some(model)).unwrap();
    }
    assert_eq!(order, vec!["test.org/child", "test.org/a", "test.org/b", "test.org/base"]);
    assert_eq!(graph.len(), 4);
}

#[test]
fn loader_reports_a_missing_data_model() {
    let mut graph = DependencyGraph::new();
    let mut loader = ModelLoader::new("test.org/x");
    let nsid = loader.next().unwrap();
    match loader.take_model(&mut graph, nsid, None) {
        Err(GraphError::MissingField(m)) => assert_eq!(m, "No DataModel found for test.org/x"),
        _ => panic!("expected a missing data model"),
    }
    assert!(graph.is_empty());
}

#[test]
fn topological_order_lists_every_node_once() {
    let mut graph = DependencyGraph::new();
    graph.add_model(create_test_model("test.org/c", vec!["test.org/a", "test.org/b"], false)).unwrap();
    graph.add_model(create_test_model("test.org/b", vec!["test.org/a"], false)).unwrap();
    let order = graph.topological_sort().unwrap();
    assert_eq!(order.len(), 3);
    let pos = |n: &str| order.iter().position(|x| x == n).unwrap();
    assert!(pos("test.org/c") < pos("test.org/b"));
    assert!(pos("test.org/b") < pos("test.org/a"));
}
