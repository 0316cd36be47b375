//! Data model definitions: storage, retention, schema and property types,
//! validations, indexes and computed fields.

use vstd::prelude::*;
use crate::dsl::metadata::{ApiVersion, Authority};

verus! {

/// Storage configuration for a model
#[derive(Debug)]
pub struct StorageConfig {
    /// Whether to encrypt data at rest
    pub encrypted: bool,
    /// Whether to generate Merkle proofs
    pub merkle_proof: bool,
    /// Data retention policy
    pub retention: Option<RetentionPolicy>,
}

/// Data retention policy
#[derive(Debug)]
pub struct RetentionPolicy {
    /// ISO 8601 duration (e.g., "P50Y" for 50 years)
    pub duration: String,
    /// What to do after deletion
    pub after_deletion: RetentionAction,
}

#[derive(Debug, Clone, Copy, PartialEq, Eq, Structural)]
pub enum RetentionAction {
    Delete,
    Anonymize,
    Archive,
}

#[derive(Debug, Clone, Copy, PartialEq, Eq, Structural)]
pub enum SchemaType {
    Object,
    Array,
    String,
    Number,
    Integer,
    Boolean,
}

#[derive(Debug, Clone, Copy, PartialEq, Eq, Structural)]
pub enum PropertyType {
    String,
    Number,
    Integer,
    Boolean,
    Date,
    Timestamp,
    Enum,
    Array,
    Object,
    Ref,
}

/// Custom validation rule
#[derive(Debug)]
pub struct Validation {
    pub validation_type: ValidationType,
    pub script: Option<String>,
    pub message: Option<String>,
    pub min: Option<String>,
    pub max: Option<String>,
}

#[derive(Debug, Clone, Copy, PartialEq, Eq, Structural)]
pub enum ValidationType {
    Custom,
    DateRange,
    Pattern,
    Required,
}

impl Clone for Validation {
    fn clone(&self) -> (r: Self)
        ensures
            r == *self,
    {
        Validation {
            validation_type: self.validation_type,
            script: self.script.clone(),
            message: self.message.clone(),
            min: self.min.clone(),
            max: self.max.clone(),
        }
    }
}

/// Index definition
#[derive(Debug)]
pub struct Index {
    pub name: String,
    pub fields: Vec<String>,
    pub unique: bool,
}

/// Computed field definition
#[derive(Debug)]
pub struct ComputedField {
    pub field_type: String,
    pub description: Option<String>,
    /// JavaScript code to compute the value
    pub script: String,
}


/// Data model definition
#[derive(Debug)]
pub struct DataModel {
    pub api_version: ApiVersion,
    /// Always "DataModel"
    pub kind: String,
    pub metadata: Metadata,
    pub spec: DataModelSpec,
}

/// Common metadata of a definition
#[derive(Debug)]
pub struct Metadata {
    /// Namespaced ID (NSID), e.g. "de.berlin/business-registration"
    pub id: String,
    /// Human-readable title
    pub title: String,
    /// Detailed description
    pub description: Option<String>,
    /// Version number (semantic versioning)
    pub version: String,
    /// Authority information
    pub authority: Option<Authority>,
    /// Tags for categorization
    pub tags: Vec<String>,
    /// Additional metadata, each value as YAML text
    pub extra: Vec<(String, String)>,
}

/// Specification for a data model
#[derive(Debug)]
pub struct DataModelSpec {
    /// Models this one inherits from (NSIDs)
    pub inherits: Vec<String>,
    /// Storage configuration
    pub storage: Option<StorageConfig>,
    /// Schema definition
    pub schema: Schema,
    /// Indexes for efficient querying
    pub indexes: Vec<Index>,
    /// Computed/derived fields, by name
    pub computed: Vec<(String, ComputedField)>,
}

/// Schema definition (JSON Schema-like)
#[derive(Debug)]
pub struct Schema {
    pub schema_type: SchemaType,
    /// Properties for object types, by name
    pub properties: Vec<(String, Property)>,
    /// Items definition for array types
    pub items: Option<Box<Property>>,
    /// Required fields (for objects)
    pub required: Vec<String>,
}

/// Property definition
#[derive(Debug)]
pub struct Property {
    pub property_type: PropertyType,
    /// Reference to another model (for ref types)
    pub reference: Option<String>,
    /// Format hint (e.g., "uuid", "email", "did")
    pub format: Option<String>,
    /// Description
    pub description: Option<String>,
    /// Whether field is required
    pub required: bool,
    /// Whether field can be null
    pub nullable: bool,
    /// Whether field is immutable after creation
    pub immutable: bool,
    /// Whether to create an index
    pub indexed: bool,
    /// Whether to encrypt this field
    pub encrypted: bool,
    /// Whether this is personally identifiable information
    pub pii: bool,
    /// Whether value is auto-generated
    pub generated: bool,
    /// Default value, as YAML text
    pub default: Option<String>,
    /// Enum values
    pub values: Option<Vec<String>>,
    /// Pattern for string validation (regex)
    pub pattern: Option<String>,
    /// Minimum length (strings)
    pub min_length: Option<usize>,
    /// Maximum length (strings)
    pub max_length: Option<usize>,
    /// Minimum value (numbers), as decimal text
    pub min: Option<String>,
    /// Maximum value (numbers), as decimal text
    pub max: Option<String>,
    /// Minimum items (arrays)
    pub min_items: Option<usize>,
    /// Maximum items (arrays)
    pub max_items: Option<usize>,
    /// Items definition for array types
    pub items: Option<Box<Property>>,
    /// Properties for object types, by name
    pub properties: Vec<(String, Property)>,
    /// Custom validations
    pub validations: Vec<Validation>,
}


/// `b` has the same contents as `a`: equal fields, with nested properties
/// compared the same way.
pub open spec fn same_property(a: Property, b: Property) -> bool
    decreases a,
{
    &&& a.property_type == b.property_type
    &&& a.reference == b.reference
    &&& a.format == b.format
    &&& a.description == b.description
    &&& a.required == b.required
    &&& a.nullable == b.nullable
    &&& a.immutable == b.immutable
    &&& a.indexed == b.indexed
    &&& a.encrypted == b.encrypted
    &&& a.pii == b.pii
    &&& a.generated == b.generated
    &&& a.default == b.default
    &&& (match a.values {
        Some(x) => b.values matches Some(y) && x@ == y@,
        None => b.values is None,
    })
    &&& a.pattern == b.pattern
    &&& a.min_length == b.min_length
    &&& a.max_length == b.max_length
    &&& a.min == b.min
    &&& a.max == b.max
    &&& a.min_items == b.min_items
    &&& a.max_items == b.max_items
    &&& a.validations@ == b.validations@
    &&& a.properties@.len() == b.properties@.len()
    &&& forall|i: int| 0 <= i < a.properties@.len() ==> {
        proof {
            assert(decreases_to!(a => a.properties));
            assert(decreases_to!(a.properties => a.properties@));
            assert(decreases_to!(a.properties@ => a.properties@[i]));
            assert(decreases_to!(a.properties@[i] => a.properties@[i].1));
        }
        &&& a.properties@[i].0 == b.properties@[i].0
        &&& same_property(a.properties@[i].1, #[trigger] b.properties@[i].1)
    }
    &&& (match a.items {
        Some(x) => b.items matches Some(y) && same_property(*x, *y),
        None => b.items is None,
    })
}

impl Clone for Property {
    fn clone(&self) -> (r: Self)
        ensures
            same_property(*self, r),
        decreases self,
    {
        let mut properties: Vec<(String, Property)> = Vec::new();
        let mut i: usize = 0;
        while i < self.properties.len()
            invariant
                i <= self.properties@.len(),
                properties@.len() == i,
                forall|k: int| 0 <= k < i ==> {
                    &&& (#[trigger] properties@[k]).0 == self.properties@[k].0
                    &&& same_property(self.properties@[k].1, properties@[k].1)
                },
            decreases self.properties.len() - i,
        {
            proof {
                assert(decreases_to!(self => self.properties));
                assert(decreases_to!(self.properties => self.properties@));
                assert(decreases_to!(self.properties@ => self.properties@[i as int]));
                assert(decreases_to!(self.properties@[i as int] => self.properties@[i as int].1));
            }
            let name = self.properties[i].0.clone();
            let prop = self.properties[i].1.clone();
            properties.push((name, prop));
            i = i + 1;
        }
        let items = match &self.items {
            Some(b) => Some(Box::new((**b).clone())),
            None => None,
        };
        let values = match &self.values {
            Some(v) => {
                let c = v.clone();
                assert(c@ =~= v@);
                Some(c)
            },
            None => None,
        };
        let validations = self.validations.clone();
        assert(validations@ =~= self.validations@);
        Property {
            property_type: self.property_type,
            reference: self.reference.clone(),
            format: self.format.clone(),
            description: self.description.clone(),
            required: self.required,
            nullable: self.nullable,
            immutable: self.immutable,
            indexed: self.indexed,
            encrypted: self.encrypted,
            pii: self.pii,
            generated: self.generated,
            default: self.default.clone(),
            values,
            pattern: self.pattern.clone(),
            min_length: self.min_length,
            max_length: self.max_length,
            min: self.min.clone(),
            max: self.max.clone(),
            min_items: self.min_items,
            max_items: self.max_items,
            items,
            properties,
            validations,
        }
    }
}

/// Two lists of named properties: the same names, with the same properties.
pub open spec fn same_named_properties(a: Seq<(String, Property)>, b: Seq<(String, Property)>) -> bool {
    &&& a.len() == b.len()
    &&& forall|i: int| 0 <= i < a.len() ==> a[i].0 == b[i].0 && same_property(a[i].1, #[trigger] b[i].1)
}

/// `b` has the same contents as `a`.
pub open spec fn same_schema(a: Schema, b: Schema) -> bool {
    &&& a.schema_type == b.schema_type
    &&& same_named_properties(a.properties@, b.properties@)
    &&& (match a.items {
        Some(x) => b.items matches Some(y) && same_property(*x, *y),
        None => b.items is None,
    })
    &&& a.required@ == b.required@
}

/// `b` has the same contents as `a`.
pub open spec fn same_index(a: Index, b: Index) -> bool {
    a.name == b.name && a.fields@ == b.fields@ && a.unique == b.unique
}

/// Two lists of indexes with the same contents, in the same order.
pub open spec fn same_indexes(a: Seq<Index>, b: Seq<Index>) -> bool {
    &&& a.len() == b.len()
    &&& forall|i: int| 0 <= i < a.len() ==> same_index(a[i], #[trigger] b[i])
}

/// `b` has the same contents as `a`.
pub open spec fn same_metadata(a: Metadata, b: Metadata) -> bool {
    &&& a.id == b.id
    &&& a.title == b.title
    &&& a.description == b.description
    &&& a.version == b.version
    &&& a.authority == b.authority
    &&& a.tags@ == b.tags@
    &&& a.extra@ == b.extra@
}

/// `b` has the same contents as `a`.
pub open spec fn same_model(a: DataModel, b: DataModel) -> bool {
    &&& a.api_version == b.api_version
    &&& a.kind == b.kind
    &&& same_metadata(a.metadata, b.metadata)
    &&& a.spec.inherits@ == b.spec.inherits@
    &&& a.spec.storage == b.spec.storage
    &&& same_schema(a.spec.schema, b.spec.schema)
    &&& same_indexes(a.spec.indexes@, b.spec.indexes@)
    &&& a.spec.computed@ == b.spec.computed@
}

/// Every property has the same contents as itself.
pub proof fn lemma_same_property_reflexive(a: Property)
    ensures
        same_property(a, a),
    decreases a,
{
    assert forall|i: int| 0 <= i < a.properties@.len() implies same_property(a.properties@[i].1, #[trigger] a.properties@[i].1) by {
        assert(decreases_to!(a => a.properties));
        assert(decreases_to!(a.properties => a.properties@));
        assert(decreases_to!(a.properties@ => a.properties@[i]));
        assert(decreases_to!(a.properties@[i] => a.properties@[i].1));
        lemma_same_property_reflexive(a.properties@[i].1);
    }
    if let Some(x) = a.items {
        lemma_same_property_reflexive(*x);
    }
}

/// A clone of a property has the same contents.
pub proof fn lemma_cloned_property(a: Property, b: Property)
    requires
        cloned::<Property>(a, b),
    ensures
        same_property(a, b),
{
    if a == b {
        lemma_same_property_reflexive(a);
    }
}

impl Clone for RetentionPolicy {
    fn clone(&self) -> (r: Self)
        ensures
            r == *self,
    {
        RetentionPolicy { duration: self.duration.clone(), after_deletion: self.after_deletion }
    }
}

impl Clone for StorageConfig {
    fn clone(&self) -> (r: Self)
        ensures
            r == *self,
    {
        StorageConfig {
            encrypted: self.encrypted,
            merkle_proof: self.merkle_proof,
            retention: match &self.retention {
                Some(p) => Some(p.clone()),
                None => None,
            },
        }
    }
}

impl Clone for Index {
    fn clone(&self) -> (r: Self)
        ensures
            same_index(*self, r),
    {
        let fields = self.fields.clone();
        assert(fields@ =~= self.fields@);
        Index { name: self.name.clone(), fields, unique: self.unique }
    }
}

impl Clone for ComputedField {
    fn clone(&self) -> (r: Self)
        ensures
            r == *self,
    {
        ComputedField {
            field_type: self.field_type.clone(),
            description: self.description.clone(),
            script: self.script.clone(),
        }
    }
}

/// A copy of a list of text pairs.
fn clone_text_pairs(v: &Vec<(String, String)>) -> (r: Vec<(String, String)>)
    ensures
        r@ == v@,
{
    let mut r: Vec<(String, String)> = Vec::new();
    let mut i: usize = 0;
    while i < v.len()
        invariant
            i <= v@.len(),
            r@ == v@.take(i as int),
        decreases v.len() - i,
    {
        r.push((v[i].0.clone(), v[i].1.clone()));
        assert(v@.take(i + 1) =~= v@.take(i as int).push(v@[i as int]));
        i = i + 1;
    }
    assert(v@.take(i as int) =~= v@);
    r
}

/// A copy of a list of named computed fields.
fn clone_computed(v: &Vec<(String, ComputedField)>) -> (r: Vec<(String, ComputedField)>)
    ensures
        r@ == v@,
{
    let mut r: Vec<(String, ComputedField)> = Vec::new();
    let mut i: usize = 0;
    while i < v.len()
        invariant
            i <= v@.len(),
            r@ == v@.take(i as int),
        decreases v.len() - i,
    {
        r.push((v[i].0.clone(), v[i].1.clone()));
        assert(v@.take(i + 1) =~= v@.take(i as int).push(v@[i as int]));
        i = i + 1;
    }
    assert(v@.take(i as int) =~= v@);
    r
}

/// A copy of a list of named properties.
fn clone_named_properties(v: &Vec<(String, Property)>) -> (r: Vec<(String, Property)>)
    ensures
        same_named_properties(v@, r@),
{
    let mut r: Vec<(String, Property)> = Vec::new();
    let mut i: usize = 0;
    while i < v.len()
        invariant
            i <= v@.len(),
            r@.len() == i,
            forall|k: int| 0 <= k < i ==> v@[k].0 == (#[trigger] r@[k]).0 && same_property(v@[k].1, r@[k].1),
        decreases v.len() - i,
    {
        r.push((v[i].0.clone(), v[i].1.clone()));
        i = i + 1;
    }
    r
}

/// A copy of a list of indexes.
fn clone_indexes(v: &Vec<Index>) -> (r: Vec<Index>)
    ensures
        same_indexes(v@, r@),
{
    let mut r: Vec<Index> = Vec::new();
    let mut i: usize = 0;
    while i < v.len()
        invariant
            i <= v@.len(),
            r@.len() == i,
            forall|k: int| 0 <= k < i ==> same_index(v@[k], #[trigger] r@[k]),
        decreases v.len() - i,
    {
        r.push(v[i].clone());
        i = i + 1;
    }
    r
}

impl Clone for Metadata {
    fn clone(&self) -> (r: Self)
        ensures
            same_metadata(*self, r),
    {
        let tags = self.tags.clone();
        assert(tags@ =~= self.tags@);
        Metadata {
            id: self.id.clone(),
            title: self.title.clone(),
            description: self.description.clone(),
            version: self.version.clone(),
            authority: match &self.authority {
                Some(a) => Some(a.clone()),
                None => None,
            },
            tags,
            extra: clone_text_pairs(&self.extra),
        }
    }
}

impl Clone for Schema {
    fn clone(&self) -> (r: Self)
        ensures
            same_schema(*self, r),
    {
        let required = self.required.clone();
        assert(required@ =~= self.required@);
        Schema {
            schema_type: self.schema_type,
            properties: clone_named_properties(&self.properties),
            items: match &self.items {
                Some(b) => Some(Box::new((**b).clone())),
                None => None,
            },
            required,
        }
    }
}

impl Clone for DataModelSpec {
    fn clone(&self) -> (r: Self)
        ensures
            r.inherits@ == self.inherits@,
            r.storage == self.storage,
            same_schema(self.schema, r.schema),
            same_indexes(self.indexes@, r.indexes@),
            r.computed@ == self.computed@,
    {
        let inherits = self.inherits.clone();
        assert(inherits@ =~= self.inherits@);
        DataModelSpec {
            inherits,
            storage: match &self.storage {
                Some(s) => Some(s.clone()),
                None => None,
            },
            schema: self.schema.clone(),
            indexes: clone_indexes(&self.indexes),
            computed: clone_computed(&self.computed),
        }
    }
}

impl Clone for DataModel {
    fn clone(&self) -> (r: Self)
        ensures
            same_model(*self, r),
    {
        DataModel {
            api_version: self.api_version,
            kind: self.kind.clone(),
            metadata: self.metadata.clone(),
            spec: self.spec.clone(),
        }
    }
}

}
