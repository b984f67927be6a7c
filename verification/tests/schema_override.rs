use facet_json_schema::{
    Field, SchemaType, SchemaTypes, Shape, ShapeAttr, ShapeDef, ShapeGraph, StructKind, Variant,
    schema_for,
};

fn unit_variant(name: &str) -> Variant {
    Variant { name: name.to_string(), kind: StructKind::Unit, fields: vec![] }
}

/// The shape of
/// `#[facet(facet_json_schema::unconstrained_string)]`
/// `/// One of the values supported by the application.`
/// `enum LargeEnum { Alpha, Beta, Gamma }`
fn large_enum() -> Shape {
    Shape {
        type_identifier: "LargeEnum".to_string(),
        doc: vec![" One of the values supported by the application.".to_string()],
        attributes: vec![ShapeAttr {
            ns: Some("facet_json_schema".to_string()),
            key: "unconstrained_string".to_string(),
        }],
        def: ShapeDef::Enum(vec![unit_variant("Alpha"), unit_variant("Beta"), unit_variant("Gamma")]),
        inner: None,
    }
}

#[test]
fn enum_schema_can_be_an_unconstrained_string() {
    let graph = ShapeGraph { shapes: vec![large_enum()], root: 0 };
    let schema = schema_for(&graph);
    assert!(matches!(
        schema.type_,
        Some(SchemaTypes::Single(SchemaType::String))
    ));
    assert!(schema.enum_.is_none());
    assert_eq!(schema.title.as_deref(), Some("LargeEnum"));
    assert_eq!(
        schema.description.as_deref(),
        Some("One of the values supported by the application.")
    );
}

#[test]
fn override_is_used_when_the_enum_is_nested() {
    // struct Request { value: LargeEnum }
    let request = Shape {
        type_identifier: "Request".to_string(),
        doc: vec![],
        attributes: vec![],
        def: ShapeDef::Struct(
            StructKind::Struct,
            vec![Field {
                name: "value".to_string(),
                shape: 1,
                doc: vec![],
                skip: false,
                has_default: false,
            }],
        ),
        inner: None,
    };
    let graph = ShapeGraph { shapes: vec![request, large_enum()], root: 0 };
    let schema = schema_for(&graph);
    let value = schema
        .properties
        .as_ref()
        .and_then(|properties| properties.get("value"))
        .expect("value property");
    assert!(matches!(
        value.type_,
        Some(SchemaTypes::Single(SchemaType::String))
    ));
    assert!(value.enum_.is_none());
    assert_eq!(
        value.description.as_deref(),
        Some("One of the values supported by the application.")
    );
}
