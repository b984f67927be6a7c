use std::collections::BTreeMap;

use facet_json_schema::{
    AdditionalProperties, Field, JsonSchema, SchemaType, SchemaTypes, Shape, ShapeAttr, ShapeDef,
    ShapeGraph, StructKind, Variant, schema_for,
};

fn lines(doc: &[&str]) -> Vec<String> {
    doc.iter().map(|s| s.to_string()).collect()
}

fn shape(name: &str, doc: &[&str], def: ShapeDef) -> Shape {
    Shape {
        type_identifier: name.to_string(),
        doc: lines(doc),
        attributes: vec![],
        def,
        inner: None,
    }
}

fn scalar(name: &str) -> Shape {
    shape(name, &[], ShapeDef::Scalar)
}

fn field(name: &str, shape: usize, doc: &[&str]) -> Field {
    Field { name: name.to_string(), shape, doc: lines(doc), skip: false, has_default: false }
}

fn record(name: &str, doc: &[&str], fields: Vec<Field>) -> Shape {
    shape(name, doc, ShapeDef::Struct(StructKind::Struct, fields))
}

fn variant(name: &str, kind: StructKind, fields: Vec<Field>) -> Variant {
    Variant { name: name.to_string(), kind, fields }
}

fn graph(shapes: Vec<Shape>) -> ShapeGraph {
    ShapeGraph { shapes, root: 0 }
}

fn is_type(s: &JsonSchema, t: SchemaType) -> bool {
    matches!(s.type_, Some(SchemaTypes::Single(x)) if x == t)
}

fn names(v: &Option<Vec<String>>) -> Option<Vec<&str>> {
    v.as_ref().map(|v| v.iter().map(|s| s.as_str()).collect())
}

fn props(s: &JsonSchema) -> &BTreeMap<String, JsonSchema> {
    s.properties.as_ref().expect("object properties")
}

fn closed(s: &JsonSchema) -> bool {
    matches!(s.additional_properties, Some(AdditionalProperties::Bool(false)))
}

#[test]
fn test_simple_struct() {
    // struct User { name: String, age: u32 }
    let g = graph(vec![
        record("User", &[], vec![field("name", 1, &[]), field("age", 2, &[])]),
        scalar("String"),
        scalar("u32"),
    ]);
    let schema = schema_for(&g);
    assert!(is_type(&schema, SchemaType::Object));
    assert_eq!(schema.title.as_deref(), Some("User"));
    assert!(closed(&schema));
    assert_eq!(names(&schema.required), Some(vec!["name", "age"]));
    assert_eq!(schema.description, None);
    assert!(schema.schema.is_none() && schema.defs.is_none());
    let p = props(&schema);
    assert_eq!(p.len(), 2);
    assert!(is_type(&p["name"], SchemaType::String));
    assert_eq!(p["name"].minimum, None);
    assert!(is_type(&p["age"], SchemaType::Integer));
    assert_eq!(p["age"].minimum, Some(0));
    assert_eq!(p["age"].maximum, None);
}

#[test]
fn test_optional_field() {
    // struct Config { required: String, optional: Option<String> }
    let g = graph(vec![
        record("Config", &[], vec![field("required", 1, &[]), field("optional", 2, &[])]),
        scalar("String"),
        shape("Option", &[], ShapeDef::OptionOf(1)),
    ]);
    let schema = schema_for(&g);
    assert_eq!(names(&schema.required), Some(vec!["required"]));
    let p = props(&schema);
    assert!(is_type(&p["required"], SchemaType::String));
    let optional = &p["optional"];
    assert!(optional.type_.is_none());
    let any_of = optional.any_of.as_ref().expect("anyOf");
    assert_eq!(any_of.len(), 2);
    assert!(is_type(&any_of[0], SchemaType::String));
    assert!(is_type(&any_of[1], SchemaType::Null));
}

#[test]
fn test_simple_enum() {
    // enum Status { Active, Inactive, Pending }
    let g = graph(vec![shape(
        "Status",
        &[],
        ShapeDef::Enum(vec![
            variant("Active", StructKind::Unit, vec![]),
            variant("Inactive", StructKind::Unit, vec![]),
            variant("Pending", StructKind::Unit, vec![]),
        ]),
    )]);
    let schema = schema_for(&g);
    assert!(is_type(&schema, SchemaType::String));
    assert_eq!(names(&schema.enum_), Some(vec!["Active", "Inactive", "Pending"]));
    assert_eq!(schema.title.as_deref(), Some("Status"));
    assert!(schema.one_of.is_none());
}

#[test]
fn test_vec() {
    // struct Data { items: Vec<String> }
    let g = graph(vec![
        record("Data", &[], vec![field("items", 1, &[])]),
        shape("Vec", &[], ShapeDef::ListOf(2)),
        scalar("String"),
    ]);
    let schema = schema_for(&g);
    assert_eq!(names(&schema.required), Some(vec!["items"]));
    let items = &props(&schema)["items"];
    assert!(is_type(items, SchemaType::Array));
    assert!(is_type(items.items.as_ref().expect("items schema"), SchemaType::String));
}

#[test]
fn test_enum_rename_all_snake_case() {
    // #[facet(rename_all = "snake_case")]
    // enum ValidationErrorCode { CircularDependency, InvalidNaming, UnknownRequirement }
    let g = graph(vec![shape(
        "ValidationErrorCode",
        &[],
        ShapeDef::Enum(vec![
            variant("circular_dependency", StructKind::Unit, vec![]),
            variant("invalid_naming", StructKind::Unit, vec![]),
            variant("unknown_requirement", StructKind::Unit, vec![]),
        ]),
    )]);
    let schema = schema_for(&g);
    assert!(is_type(&schema, SchemaType::String));
    assert_eq!(
        names(&schema.enum_),
        Some(vec!["circular_dependency", "invalid_naming", "unknown_requirement"])
    );
    assert_eq!(schema.title.as_deref(), Some("ValidationErrorCode"));
}

#[test]
fn test_struct_rename_all_camel_case() {
    // #[facet(rename_all = "camelCase")]
    // struct ApiResponse { user_name: String, created_at: String, is_active: bool }
    let g = graph(vec![
        record(
            "ApiResponse",
            &[],
            vec![field("userName", 1, &[]), field("createdAt", 1, &[]), field("isActive", 2, &[])],
        ),
        scalar("String"),
        scalar("bool"),
    ]);
    let schema = schema_for(&g);
    assert_eq!(names(&schema.required), Some(vec!["userName", "createdAt", "isActive"]));
    let p = props(&schema);
    assert_eq!(p.keys().map(|k| k.as_str()).collect::<Vec<_>>(), vec!["createdAt", "isActive", "userName"]);
    assert!(is_type(&p["isActive"], SchemaType::Boolean));
    assert!(is_type(&p["userName"], SchemaType::String));
}

#[test]
fn test_field_doc_comments_override_type_description() {
    // /// Shared type-level docs that should not leak into undocumented fields.
    // struct DocumentedInner { value: String }
    // struct Container {
    //     /// Field-level docs win for this property.
    //     documented: DocumentedInner,
    //     undocumented: DocumentedInner,
    // }
    let g = graph(vec![
        record(
            "Container",
            &[],
            vec![
                field("documented", 1, &[" Field-level docs win for this property."]),
                field("undocumented", 1, &[]),
            ],
        ),
        record(
            "DocumentedInner",
            &[" Shared type-level docs that should not leak into undocumented fields."],
            vec![field("value", 2, &[])],
        ),
        scalar("String"),
    ]);
    let schema = schema_for(&g);
    let properties = schema.properties.expect("container should have object properties");

    let documented = properties.get("documented").expect("documented field schema should exist");
    assert_eq!(documented.description.as_deref(), Some("Field-level docs win for this property."));

    let undocumented =
        properties.get("undocumented").expect("undocumented field schema should exist");
    assert_eq!(undocumented.description, None);
}

#[test]
fn test_enum_with_data_rename_all() {
    // #[facet(rename_all = "snake_case")]
    // enum Message { TextMessage { content: String }, ImageUpload { url: String, width: u32 } }
    let g = graph(vec![
        shape(
            "Message",
            &[],
            ShapeDef::Enum(vec![
                variant("text_message", StructKind::Struct, vec![field("content", 1, &[])]),
                variant(
                    "image_upload",
                    StructKind::Struct,
                    vec![field("url", 1, &[]), field("width", 2, &[])],
                ),
            ]),
        ),
        scalar("String"),
        scalar("u32"),
    ]);
    let schema = schema_for(&g);
    assert_eq!(schema.title.as_deref(), Some("Message"));
    assert!(schema.type_.is_none());
    let one_of = schema.one_of.as_ref().expect("oneOf");
    assert_eq!(one_of.len(), 2);

    let text = &one_of[0];
    assert!(is_type(text, SchemaType::Object));
    assert!(closed(text));
    assert_eq!(names(&text.required), Some(vec!["text_message"]));
    let inner = &props(text)["text_message"];
    assert!(is_type(inner, SchemaType::Object));
    assert_eq!(inner.title.as_deref(), Some("Message"));
    assert_eq!(names(&inner.required), Some(vec!["content"]));
    assert!(is_type(&props(inner)["content"], SchemaType::String));

    let image = &one_of[1];
    assert_eq!(names(&image.required), Some(vec!["image_upload"]));
    let inner = &props(image)["image_upload"];
    assert_eq!(names(&inner.required), Some(vec!["url", "width"]));
    assert_eq!(props(inner)["width"].minimum, Some(0));
}

#[test]
fn recursive_struct_refers_to_itself() {
    // struct Node { children: Vec<Node> }
    let g = graph(vec![
        record("Node", &[], vec![field("children", 1, &[])]),
        shape("Vec", &[], ShapeDef::ListOf(0)),
    ]);
    let schema = schema_for(&g);
    let children = &props(&schema)["children"];
    assert!(is_type(children, SchemaType::Array));
    let item = children.items.as_ref().expect("items");
    assert_eq!(item.ref_.as_deref(), Some("#/$defs/Node"));
    assert!(item.type_.is_none());
    // the definitions are never collected
    assert!(schema.defs.is_none());
    assert!(schema.schema.is_none());
}

#[test]
fn scalars_map_to_json_types() {
    let cases: Vec<(&str, Option<SchemaType>, Option<i64>)> = vec![
        ("String", Some(SchemaType::String), None),
        ("&str", Some(SchemaType::String), None),
        ("Cow", Some(SchemaType::String), None),
        ("char", Some(SchemaType::String), None),
        ("bool", Some(SchemaType::Boolean), None),
        ("usize", Some(SchemaType::Integer), Some(0)),
        ("u128", Some(SchemaType::Integer), Some(0)),
        ("i8", Some(SchemaType::Integer), Some(-128)),
        ("i16", Some(SchemaType::Integer), Some(-32768)),
        ("i32", Some(SchemaType::Integer), Some(-2147483648)),
        ("i64", Some(SchemaType::Integer), Some(i64::MIN)),
        ("i128", Some(SchemaType::Integer), Some(i64::MIN)),
        ("isize", Some(SchemaType::Integer), Some(i64::MIN)),
        ("f32", Some(SchemaType::Number), None),
        ("f64", Some(SchemaType::Number), None),
        ("Uuid", None, None),
    ];
    for (name, t, min) in cases {
        let schema = schema_for(&graph(vec![scalar(name)]));
        match t {
            Some(t) => assert!(is_type(&schema, t), "{name}"),
            None => assert!(schema.type_.is_none(), "{name}"),
        }
        assert_eq!(schema.minimum, min, "{name}");
        assert_eq!(schema.maximum, None, "{name}");
    }
}

#[test]
fn map_becomes_object_with_additional_properties() {
    let g = graph(vec![shape("HashMap", &[], ShapeDef::MapOf(1)), scalar("i8")]);
    let schema = schema_for(&g);
    assert!(is_type(&schema, SchemaType::Object));
    match &schema.additional_properties {
        Some(AdditionalProperties::Schema(value)) => {
            assert!(is_type(value, SchemaType::Integer));
            assert_eq!(value.minimum, Some(-128));
        }
        other => panic!("expected a schema for additional properties, got {other:?}"),
    }
}

#[test]
fn arrays_and_sets_become_arrays() {
    for def in [ShapeDef::ArrayOf(1), ShapeDef::SetOf(1)] {
        let g = graph(vec![shape("Many", &[" Several."], def), scalar("bool")]);
        let schema = schema_for(&g);
        assert!(is_type(&schema, SchemaType::Array));
        assert!(is_type(schema.items.as_ref().unwrap(), SchemaType::Boolean));
        assert_eq!(schema.description.as_deref(), Some("Several."));
    }
}

#[test]
fn struct_kinds() {
    // struct Meters(f64);
    let newtype = graph(vec![
        shape("Meters", &[" A length."], ShapeDef::Struct(StructKind::TupleStruct, vec![field("0", 1, &[])])),
        scalar("f64"),
    ]);
    let schema = schema_for(&newtype);
    assert!(is_type(&schema, SchemaType::Number));
    assert_eq!(schema.description, None);

    // struct Pair(u8, String);
    let pair = graph(vec![
        shape(
            "Pair",
            &[" Two things."],
            ShapeDef::Struct(StructKind::TupleStruct, vec![field("0", 1, &[]), field("1", 2, &[])]),
        ),
        scalar("u8"),
        scalar("String"),
    ]);
    let schema = schema_for(&pair);
    assert!(is_type(&schema, SchemaType::Array));
    assert!(schema.items.is_none());
    assert_eq!(schema.description.as_deref(), Some("Two things."));

    // (u8, u8)
    let tuple = graph(vec![
        shape("(u8, u8)", &[], ShapeDef::Struct(StructKind::Tuple, vec![field("0", 1, &[]), field("1", 1, &[])])),
        scalar("u8"),
    ]);
    assert!(is_type(&schema_for(&tuple), SchemaType::Array));

    // struct Marker;
    let unit = graph(vec![shape("Marker", &[" Nothing."], ShapeDef::Struct(StructKind::Unit, vec![]))]);
    let schema = schema_for(&unit);
    assert!(is_type(&schema, SchemaType::Null));
    assert_eq!(schema.description.as_deref(), Some("Nothing."));
    assert!(schema.title.is_none());
}

#[test]
fn transparent_wrappers_are_described_as_their_inner_type() {
    let mut wrapper = shape("Arc", &[" Shared."], ShapeDef::Other);
    wrapper.inner = Some(1);
    let schema = schema_for(&graph(vec![wrapper, scalar("u16")]));
    assert!(is_type(&schema, SchemaType::Integer));
    assert_eq!(schema.minimum, Some(0));
    assert_eq!(schema.description, None);

    let opaque = shape("Opaque", &[" Something."], ShapeDef::Other);
    let schema = schema_for(&graph(vec![opaque]));
    assert!(schema.type_.is_none());
    assert_eq!(schema.description.as_deref(), Some("Something."));
}

#[test]
fn skipped_and_defaulted_fields() {
    let mut skipped = field("secret", 1, &[]);
    skipped.skip = true;
    let mut defaulted = field("retries", 2, &[]);
    defaulted.has_default = true;
    let g = graph(vec![
        record("Settings", &[], vec![field("host", 1, &[]), skipped, defaulted]),
        scalar("String"),
        scalar("u8"),
    ]);
    let schema = schema_for(&g);
    let p = props(&schema);
    assert_eq!(p.len(), 2);
    assert!(p.get("secret").is_none());
    assert!(p.contains_key("retries"));
    assert_eq!(names(&schema.required), Some(vec!["host"]));

    // no required field at all: `required` is absent
    let mut only = field("retries", 1, &[]);
    only.has_default = true;
    let g = graph(vec![record("Loose", &[], vec![only]), scalar("u8")]);
    assert!(schema_for(&g).required.is_none());
}

#[test]
fn later_field_of_the_same_name_wins() {
    let g = graph(vec![
        record("Twice", &[], vec![field("x", 1, &[]), field("x", 2, &[])]),
        scalar("String"),
        scalar("bool"),
    ]);
    let schema = schema_for(&g);
    let p = props(&schema);
    assert_eq!(p.len(), 1);
    assert!(is_type(&p["x"], SchemaType::Boolean));
    assert_eq!(names(&schema.required), Some(vec!["x", "x"]));
}

#[test]
fn doc_lines_are_joined_and_trimmed() {
    let g = graph(vec![shape("Doc", &[" First line.", " Second line.  "], ShapeDef::Scalar)]);
    assert_eq!(schema_for(&g).description.as_deref(), Some("First line.\n Second line."));

    let g = graph(vec![shape("Wide", &["\u{3000}Wide\u{a0}", "\t"], ShapeDef::Scalar)]);
    assert_eq!(schema_for(&g).description.as_deref(), Some("Wide"));

    let g = graph(vec![shape("Blank", &["   "], ShapeDef::Scalar)]);
    assert_eq!(schema_for(&g).description.as_deref(), Some(""));
}

#[test]
fn data_enum_variants() {
    // enum E { A(u8), B, C(u8, u8) }
    let g = graph(vec![
        shape(
            "E",
            &[],
            ShapeDef::Enum(vec![
                variant("A", StructKind::TupleStruct, vec![field("0", 1, &[])]),
                variant("B", StructKind::Unit, vec![]),
                variant("C", StructKind::TupleStruct, vec![field("0", 1, &[]), field("1", 1, &[])]),
            ]),
        ),
        scalar("u8"),
    ]);
    let schema = schema_for(&g);
    let one_of = schema.one_of.as_ref().expect("oneOf");
    assert_eq!(one_of.len(), 3);
    assert!(is_type(&props(&one_of[0])["A"], SchemaType::Integer));
    assert_eq!(names(&one_of[0].required), Some(vec!["A"]));
    assert_eq!(one_of[1].const_.as_deref(), Some("B"));
    assert!(one_of[1].type_.is_none());
    assert!(is_type(&props(&one_of[2])["C"], SchemaType::Array));
}

#[test]
fn only_the_schema_namespace_marks_unconstrained_strings() {
    let mut other = shape("Code", &[], ShapeDef::Enum(vec![variant("X", StructKind::Unit, vec![])]));
    other.attributes = vec![
        ShapeAttr { ns: Some("serde".to_string()), key: "unconstrained_string".to_string() },
        ShapeAttr { ns: None, key: "unconstrained_string".to_string() },
    ];
    let schema = schema_for(&graph(vec![other]));
    assert_eq!(names(&schema.enum_), Some(vec!["X"]));
}

#[test]
fn constructors() {
    let empty = JsonSchema::new();
    assert!(empty.schema.is_none() && empty.ref_.is_none() && empty.type_.is_none());
    assert!(empty.properties.is_none() && empty.description.is_none() && empty.const_.is_none());
    let default = JsonSchema::default();
    assert!(default.title.is_none() && default.one_of.is_none());

    let dialect = JsonSchema::with_dialect("https://json-schema.org/draft/2020-12/schema");
    assert_eq!(dialect.schema.as_deref(), Some("https://json-schema.org/draft/2020-12/schema"));
    assert!(dialect.ref_.is_none());

    let reference = JsonSchema::reference("#/$defs/Node");
    assert_eq!(reference.ref_.as_deref(), Some("#/$defs/Node"));
    assert!(reference.schema.is_none());

    assert!(matches!(SchemaTypes::from(SchemaType::Null), SchemaTypes::Single(SchemaType::Null)));
}
