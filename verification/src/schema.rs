//! The JSON Schema value type and its mathematical model.
use std::collections::BTreeMap;
use vstd::prelude::*;

verus! {

/// JSON Schema type
#[derive(Debug, Clone, Copy, PartialEq, Eq, Structural)]
pub enum SchemaType {
    String,
    Number,
    Integer,
    Boolean,
    Array,
    Object,
    Null,
}

/// JSON Schema `type` supports either a string or an array of strings.
#[derive(Debug, Clone)]
pub enum SchemaTypes {
    Single(SchemaType),
    Multiple(Vec<SchemaType>),
}

impl From<SchemaType> for SchemaTypes {
    fn from(value: SchemaType) -> (r: Self) {
        SchemaTypes::Single(value)
    }
}

impl vstd::std_specs::convert::FromSpecImpl<SchemaType> for SchemaTypes {
    open spec fn obeys_from_spec() -> bool {
        true
    }

    open spec fn from_spec(value: SchemaType) -> SchemaTypes {
        SchemaTypes::Single(value)
    }
}

/// Additional properties can be a boolean or a schema
#[derive(Debug)]
pub enum AdditionalProperties {
    Bool(bool),
    Schema(Box<JsonSchema>),
}

/// A JSON Schema definition.
///
/// This is a simplified representation that covers the most common cases.
#[derive(Debug)]
pub struct JsonSchema {
    /// The JSON Schema dialect (`$schema`)
    pub schema: Option<String>,
    /// Reference to another schema definition (`$ref`)
    pub ref_: Option<String>,
    /// Schema definitions for reuse (`$defs`)
    pub defs: Option<BTreeMap<String, JsonSchema>>,
    /// The type (or list of types) of the schema
    pub type_: Option<SchemaTypes>,
    /// For objects: the properties
    pub properties: Option<BTreeMap<String, JsonSchema>>,
    /// For objects: required property names
    pub required: Option<Vec<String>>,
    /// For objects: additional properties schema or false
    pub additional_properties: Option<AdditionalProperties>,
    /// For arrays: the items schema
    pub items: Option<Box<JsonSchema>>,
    /// For strings: enumerated values (`enum`)
    pub enum_: Option<Vec<String>>,
    /// For numbers: minimum value
    pub minimum: Option<i64>,
    /// For numbers: maximum value
    pub maximum: Option<i64>,
    /// `oneOf`
    pub one_of: Option<Vec<JsonSchema>>,
    /// `anyOf`
    pub any_of: Option<Vec<JsonSchema>>,
    /// `allOf`
    pub all_of: Option<Vec<JsonSchema>>,
    /// Description from doc comments
    pub description: Option<String>,
    /// Title (type name)
    pub title: Option<String>,
    /// Constant value (`const`)
    pub const_: Option<String>,
}

/// The mathematical model of the `type` keyword.
pub enum TypesModel {
    Single(SchemaType),
    Multiple(Seq<SchemaType>),
}

/// The mathematical model of `additionalProperties`.
pub enum AdditionalModel {
    Bool(bool),
    Schema(Box<SchemaModel>),
}

/// The mathematical model of a [`JsonSchema`]: strings are character
/// sequences, lists are sequences and property maps are maps keyed by the
/// characters of the property name.
pub struct SchemaModel {
    pub schema: Option<Seq<char>>,
    pub ref_: Option<Seq<char>>,
    pub defs: Option<Map<Seq<char>, SchemaModel>>,
    pub type_: Option<TypesModel>,
    pub properties: Option<Map<Seq<char>, SchemaModel>>,
    pub required: Option<Seq<Seq<char>>>,
    pub additional_properties: Option<AdditionalModel>,
    pub items: Option<Box<SchemaModel>>,
    pub enum_: Option<Seq<Seq<char>>>,
    pub minimum: Option<i64>,
    pub maximum: Option<i64>,
    pub one_of: Option<Seq<SchemaModel>>,
    pub any_of: Option<Seq<SchemaModel>>,
    pub all_of: Option<Seq<SchemaModel>>,
    pub description: Option<Seq<char>>,
    pub title: Option<Seq<char>>,
    pub const_: Option<Seq<char>>,
}

/// The model of the empty schema: every keyword absent.
pub open spec fn empty_model() -> SchemaModel {
    SchemaModel {
        schema: None,
        ref_: None,
        defs: None,
        type_: None,
        properties: None,
        required: None,
        additional_properties: None,
        items: None,
        enum_: None,
        minimum: None,
        maximum: None,
        one_of: None,
        any_of: None,
        all_of: None,
        description: None,
        title: None,
        const_: None,
    }
}

/// An optional string holds exactly the optional characters `m`.
pub open spec fn opt_str_is(s: Option<String>, m: Option<Seq<char>>) -> bool {
    match (s, m) {
        (None, None) => true,
        (Some(a), Some(b)) => a@ == b,
        _ => false,
    }
}

/// A list of strings holds exactly the character sequences `m`, in order.
pub open spec fn strings_are(v: Vec<String>, m: Seq<Seq<char>>) -> bool {
    &&& v@.len() == m.len()
    &&& forall|i: int| 0 <= i < m.len() ==> #[trigger] v@[i]@ == m[i]
}

/// An optional list of strings holds exactly `m`.
pub open spec fn opt_strings_are(v: Option<Vec<String>>, m: Option<Seq<Seq<char>>>) -> bool {
    match (v, m) {
        (None, None) => true,
        (Some(a), Some(b)) => strings_are(a, b),
        _ => false,
    }
}

/// The `type` keyword holds exactly `m`.
pub open spec fn types_are(t: Option<SchemaTypes>, m: Option<TypesModel>) -> bool {
    match (t, m) {
        (None, None) => true,
        (Some(SchemaTypes::Single(a)), Some(TypesModel::Single(b))) => a == b,
        (Some(SchemaTypes::Multiple(a)), Some(TypesModel::Multiple(b))) => a@ == b,
        _ => false,
    }
}

/// The schemas are, in order, those that the models describe.
pub open spec fn seq_holds(a: Seq<JsonSchema>, b: Seq<SchemaModel>) -> bool
    decreases b,
{
    if b.len() == 0 {
        a.len() == 0
    } else {
        &&& a.len() == b.len()
        &&& seq_holds(a.drop_last(), b.drop_last())
        &&& a.last().represents(b.last())
    }
}

/// Appending a schema and its model keeps a list holding its models.
pub proof fn lemma_seq_push(a: Seq<JsonSchema>, b: Seq<SchemaModel>, x: JsonSchema, y: SchemaModel)
    requires
        seq_holds(a, b),
        x.represents(y),
    ensures
        seq_holds(a.push(x), b.push(y)),
{
    lemma_seq_holds_len(a, b);
    assert(a.push(x).drop_last() =~= a);
    assert(b.push(y).drop_last() =~= b);
}

/// Lists that hold models are as long as the models.
pub proof fn lemma_seq_holds_len(a: Seq<JsonSchema>, b: Seq<SchemaModel>)
    requires
        seq_holds(a, b),
    ensures
        a.len() == b.len(),
{
}

/// The map holds exactly the model's entries: each key, by its characters,
/// with a schema that the model's schema describes.
pub open spec fn map_holds(p: BTreeMap<String, JsonSchema>, mp: Map<Seq<char>, SchemaModel>) -> bool
    decreases mp,
{
    &&& mp.dom().finite()
    &&& forall|k: String| #[trigger]
        p@.contains_key(k) ==> mp.contains_key(k@) && p@[k].represents(mp[k@])
    &&& forall|key: Seq<char>| #[trigger]
        mp.contains_key(key) ==> exists|k: String| p@.contains_key(k) && k@ == key
}

/// `new` is `old` after inserting `value` under `key`, keys compared by their
/// characters: the entry whose key has the characters of `key` holds
/// `value`, and every other entry is unchanged.
pub open spec fn inserted(
    old: Map<String, JsonSchema>,
    new: Map<String, JsonSchema>,
    key: String,
    value: JsonSchema,
) -> bool {
    &&& forall|k: String| #[trigger]
        new.contains_key(k) ==> if k@ == key@ {
            new[k] == value
        } else {
            old.contains_key(k) && new[k] == old[k]
        }
    &&& exists|k: String| #[trigger] new.contains_key(k) && k@ == key@
    &&& forall|k: String| #[trigger] old.contains_key(k) && k@ != key@ ==> new.contains_key(k)
}

/// `BTreeMap::insert` of std, on string keys. Its documentation: a key that
/// is not present is added with the value; for a key that is present the
/// value is replaced and the key kept. Strings are ordered and compared by
/// their characters, so the contract states the insertion over the keys'
/// characters. The returned previous value is dropped.
#[verifier::external_body]
pub(crate) fn insert_property(map: &mut BTreeMap<String, JsonSchema>, key: String, value: JsonSchema)
    ensures
        inserted(old(map)@, final(map)@, key, value),
{
    map.insert(key, value);
}

/// Inserting a schema into a map that holds a model gives a map that holds
/// the model with the schema's model inserted.
pub proof fn lemma_insert_holds(
    old_map: BTreeMap<String, JsonSchema>,
    new_map: BTreeMap<String, JsonSchema>,
    key: String,
    value: JsonSchema,
    mp: Map<Seq<char>, SchemaModel>,
    vm: SchemaModel,
)
    requires
        map_holds(old_map, mp),
        value.represents(vm),
        inserted(old_map@, new_map@, key, value),
    ensures
        map_holds(new_map, mp.insert(key@, vm)),
{
    let mp2 = mp.insert(key@, vm);
    assert forall|k: String| #[trigger] new_map@.contains_key(k) implies mp2.contains_key(k@)
        && new_map@[k].represents(mp2[k@]) by {
        if k@ != key@ {
            assert(old_map@.contains_key(k));
        }
    }
    assert forall|q: Seq<char>| #[trigger] mp2.contains_key(q) implies exists|k: String|
        new_map@.contains_key(k) && k@ == q by {
        if q != key@ {
            assert(mp.contains_key(q));
            let k0 = choose|k: String| old_map@.contains_key(k) && k@ == q;
            assert(new_map@.contains_key(k0));
        }
    }
}

/// An empty map holds the empty model.
pub proof fn lemma_empty_holds(p: BTreeMap<String, JsonSchema>)
    requires
        p@ == Map::<String, JsonSchema>::empty(),
    ensures
        map_holds(p, Map::empty()),
{
}

impl Default for JsonSchema {
    fn default() -> (s: Self)
        ensures
            s.represents(empty_model()),
    {
        Self::new()
    }
}

impl JsonSchema {
    /// `self` is a schema whose model is `m`: each keyword holds the model's
    /// value, nested schemas recursively, property maps keyed by name.
    pub open spec fn represents(self, m: SchemaModel) -> bool
        decreases m,
    {
        &&& opt_str_is(self.schema, m.schema)
        &&& opt_str_is(self.ref_, m.ref_)
        &&& match (self.defs, m.defs) {
            (None, None) => true,
            (Some(p), Some(mp)) => map_holds(p, mp),
            _ => false,
        }
        &&& types_are(self.type_, m.type_)
        &&& match (self.properties, m.properties) {
            (None, None) => true,
            (Some(p), Some(mp)) => map_holds(p, mp),
            _ => false,
        }
        &&& opt_strings_are(self.required, m.required)
        &&& match (self.additional_properties, m.additional_properties) {
            (None, None) => true,
            (Some(AdditionalProperties::Bool(a)), Some(AdditionalModel::Bool(b))) => a == b,
            (Some(AdditionalProperties::Schema(a)), Some(AdditionalModel::Schema(b))) => (*a).represents(*b),
            _ => false,
        }
        &&& match (self.items, m.items) {
            (None, None) => true,
            (Some(a), Some(b)) => (*a).represents(*b),
            _ => false,
        }
        &&& opt_strings_are(self.enum_, m.enum_)
        &&& self.minimum == m.minimum
        &&& self.maximum == m.maximum
        &&& match (self.one_of, m.one_of) {
            (None, None) => true,
            (Some(a), Some(b)) => seq_holds(a@, b),
            _ => false,
        }
        &&& match (self.any_of, m.any_of) {
            (None, None) => true,
            (Some(a), Some(b)) => seq_holds(a@, b),
            _ => false,
        }
        &&& match (self.all_of, m.all_of) {
            (None, None) => true,
            (Some(a), Some(b)) => seq_holds(a@, b),
            _ => false,
        }
        &&& opt_str_is(self.description, m.description)
        &&& opt_str_is(self.title, m.title)
        &&& opt_str_is(self.const_, m.const_)
    }

    /// Create an empty schema
    pub fn new() -> (s: Self)
        ensures
            s.represents(empty_model()),
    {
        JsonSchema {
            schema: None,
            ref_: None,
            defs: None,
            type_: None,
            properties: None,
            required: None,
            additional_properties: None,
            items: None,
            enum_: None,
            minimum: None,
            maximum: None,
            one_of: None,
            any_of: None,
            all_of: None,
            description: None,
            title: None,
            const_: None,
        }
    }

    /// Create a schema with a $schema dialect
    pub fn with_dialect(dialect: &str) -> (s: Self)
        ensures
            s.represents(SchemaModel { schema: Some(dialect@), ..empty_model() }),
    {
        JsonSchema { schema: Some(dialect.to_string()), ..Self::new() }
    }

    /// Create a reference to another schema
    pub fn reference(ref_path: &str) -> (s: Self)
        ensures
            s.represents(SchemaModel { ref_: Some(ref_path@), ..empty_model() }),
    {
        JsonSchema { ref_: Some(ref_path.to_string()), ..Self::new() }
    }
}

} // verus!
