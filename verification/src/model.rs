//! The mathematical model of schema generation.
//!
//! `shape_model(g, id, ip, f)` is the schema of shape `id` when the names in
//! `ip` are being described further up; the schema generator recurses into
//! the shapes a shape refers to, and `f` bounds the depth of that recursion:
//! the result is `None` when `f` is too small. A shape whose description
//! never ends (a cycle that no struct breaks) has `None` for every `f`.
use vstd::prelude::*;
use crate::schema::{AdditionalModel, SchemaModel, SchemaType, TypesModel, empty_model};
use crate::shape::{Field, ShapeAttr, ShapeDef, ShapeGraph, StructKind, Variant};
use crate::text::{doc_text, texts};

verus! {

/// `type` set to a single type.
pub open spec fn one_type(t: SchemaType) -> Option<TypesModel> {
    Some(TypesModel::Single(t))
}

/// The schema of `null`.
pub open spec fn null_model() -> SchemaModel {
    SchemaModel { type_: one_type(SchemaType::Null), ..empty_model() }
}

/// The prefix of the references emitted for types being described.
pub open spec fn ref_prefix() -> Seq<char> {
    "#/$defs/"@
}

/// The attribute that asks for a type to be described as an unconstrained string.
pub open spec fn is_unconstrained_attr(a: ShapeAttr) -> bool {
    &&& a.ns matches Some(n) && n@ == "facet_json_schema"@
    &&& a.key@ == "unconstrained_string"@
}

/// One of the attributes asks for an unconstrained string.
pub open spec fn has_unconstrained_attr(attrs: Seq<ShapeAttr>) -> bool {
    exists|i: int| 0 <= i < attrs.len() && #[trigger] is_unconstrained_attr(attrs[i])
}

/// The name of a shape.
pub open spec fn name_of(g: ShapeGraph, id: int) -> Seq<char> {
    g.shapes@[id].type_identifier@
}

/// The description that a shape's doc comments give.
pub open spec fn description_of(g: ShapeGraph, id: int) -> Option<Seq<char>> {
    doc_text(texts(g.shapes@[id].doc@))
}

/// The characters of an optional string.
pub open spec fn opt_text(o: Option<String>) -> Option<Seq<char>> {
    match o {
        Some(s) => Some(s@),
        None => None,
    }
}

/// The JSON type, minimum and maximum of a scalar, chosen by its name.
pub open spec fn scalar_facts(name: Seq<char>) -> (Option<TypesModel>, Option<i64>, Option<i64>) {
    if name == "String"@ || name == "str"@ || name == "&str"@ || name == "Cow"@ {
        (one_type(SchemaType::String), None, None)
    } else if name == "bool"@ {
        (one_type(SchemaType::Boolean), None, None)
    } else if name == "u8"@ || name == "u16"@ || name == "u32"@ || name == "u64"@ || name
        == "u128"@ || name == "usize"@ {
        (one_type(SchemaType::Integer), Some(0i64), None)
    } else if name == "i8"@ {
        (one_type(SchemaType::Integer), Some(i8::MIN as i64), None)
    } else if name == "i16"@ {
        (one_type(SchemaType::Integer), Some(i16::MIN as i64), None)
    } else if name == "i32"@ {
        (one_type(SchemaType::Integer), Some(i32::MIN as i64), None)
    } else if name == "i64"@ || name == "i128"@ || name == "isize"@ {
        (one_type(SchemaType::Integer), Some(i64::MIN), None)
    } else if name == "f32"@ || name == "f64"@ {
        (one_type(SchemaType::Number), None, None)
    } else if name == "char"@ {
        (one_type(SchemaType::String), None, None)
    } else {
        (None, None, None)
    }
}

/// The schema of a scalar.
pub open spec fn scalar_model(name: Seq<char>, desc: Option<Seq<char>>) -> SchemaModel {
    let (t, min, max) = scalar_facts(name);
    SchemaModel { type_: t, minimum: min, maximum: max, description: desc, ..empty_model() }
}

/// The schema of an object with the given properties and required names.
pub open spec fn object_model(
    props: Map<Seq<char>, SchemaModel>,
    required: Seq<Seq<char>>,
    desc: Option<Seq<char>>,
    title: Seq<char>,
) -> SchemaModel {
    SchemaModel {
        type_: one_type(SchemaType::Object),
        properties: Some(props),
        required: if required.len() == 0 {
            None
        } else {
            Some(required)
        },
        additional_properties: Some(AdditionalModel::Bool(false)),
        description: desc,
        title: Some(title),
        ..empty_model()
    }
}

/// The schema of a data-carrying enum variant: an object with the variant's
/// name as its one, required property.
pub open spec fn tagged_model(name: Seq<char>, inner: SchemaModel) -> SchemaModel {
    SchemaModel {
        type_: one_type(SchemaType::Object),
        properties: Some(Map::empty().insert(name, inner)),
        required: Some(seq![name]),
        additional_properties: Some(AdditionalModel::Bool(false)),
        ..empty_model()
    }
}

/// The description a property gets: the field's own doc comments; a field
/// without doc comments whose type is described as an unconstrained string
/// keeps that type's description.
pub open spec fn field_description(g: ShapeGraph, fld: Field, schema: SchemaModel) -> Option<
    Seq<char>,
> {
    if fld.doc@.len() == 0 && has_unconstrained_attr(g.shapes@[fld.shape as int].attributes@) {
        schema.description
    } else {
        doc_text(texts(fld.doc@))
    }
}

/// The schema of a property: the schema of the field's type with the
/// field's description.
pub open spec fn field_schema(g: ShapeGraph, fld: Field, schema: SchemaModel) -> SchemaModel {
    SchemaModel { description: field_description(g, fld, schema), ..schema }
}

/// A field is required when its type is not an `Option` and it has no default.
pub open spec fn field_required(g: ShapeGraph, fld: Field) -> bool {
    !(g.shapes@[fld.shape as int].def is OptionOf) && !fld.has_default
}

/// The schema of a shape (see the module documentation).
pub open spec fn shape_model(g: ShapeGraph, id: int, ip: Seq<Seq<char>>, f: nat) -> Option<
    SchemaModel,
>
    decreases f, 0int, 0int,
{
    if f == 0 {
        None
    } else {
        let s = g.shapes@[id];
        let name = s.type_identifier@;
        let desc = doc_text(texts(s.doc@));
        if ip.contains(name) {
            Some(SchemaModel { ref_: Some(ref_prefix() + name), ..empty_model() })
        } else if has_unconstrained_attr(s.attributes@) {
            Some(
                SchemaModel {
                    type_: one_type(SchemaType::String),
                    description: desc,
                    title: Some(name),
                    ..empty_model()
                },
            )
        } else {
            match s.def {
                ShapeDef::Scalar => Some(scalar_model(name, desc)),
                ShapeDef::OptionOf(t) => match shape_model(g, t as int, ip, (f - 1) as nat) {
                    Some(inner) => Some(
                        SchemaModel {
                            any_of: Some(seq![inner, null_model()]),
                            description: desc,
                            ..empty_model()
                        },
                    ),
                    None => None,
                },
                ShapeDef::ListOf(t) => match shape_model(g, t as int, ip, (f - 1) as nat) {
                    Some(inner) => Some(array_model(inner, desc)),
                    None => None,
                },
                ShapeDef::ArrayOf(t) => match shape_model(g, t as int, ip, (f - 1) as nat) {
                    Some(inner) => Some(array_model(inner, desc)),
                    None => None,
                },
                ShapeDef::SetOf(t) => match shape_model(g, t as int, ip, (f - 1) as nat) {
                    Some(inner) => Some(array_model(inner, desc)),
                    None => None,
                },
                ShapeDef::MapOf(t) => match shape_model(g, t as int, ip, (f - 1) as nat) {
                    Some(inner) => Some(
                        SchemaModel {
                            type_: one_type(SchemaType::Object),
                            additional_properties: Some(AdditionalModel::Schema(Box::new(inner))),
                            description: desc,
                            ..empty_model()
                        },
                    ),
                    None => None,
                },
                ShapeDef::Struct(kind, fields) => struct_model(
                    g,
                    id,
                    fields@,
                    kind,
                    desc,
                    ip,
                    (f - 1) as nat,
                ),
                ShapeDef::Enum(variants) => enum_model(g, id, variants@, desc, ip, (f - 1) as nat),
                ShapeDef::Other => match s.inner {
                    Some(j) => shape_model(g, j as int, ip, (f - 1) as nat),
                    None => Some(SchemaModel { description: desc, ..empty_model() }),
                },
            }
        }
    }
}

/// The schema of a list, array or set of `inner`.
pub open spec fn array_model(inner: SchemaModel, desc: Option<Seq<char>>) -> SchemaModel {
    SchemaModel {
        type_: one_type(SchemaType::Array),
        items: Some(Box::new(inner)),
        description: desc,
        ..empty_model()
    }
}

/// The properties and required names that the first `n` fields give.
pub open spec fn props_model(
    g: ShapeGraph,
    fields: Seq<Field>,
    ip: Seq<Seq<char>>,
    f: nat,
    n: int,
) -> Option<(Map<Seq<char>, SchemaModel>, Seq<Seq<char>>)>
    decreases f, 1int, n,
{
    if n <= 0 {
        Some((Map::empty(), seq![]))
    } else {
        match props_model(g, fields, ip, f, n - 1) {
            None => None,
            Some((props, req)) => {
                let fld = fields[n - 1];
                if fld.skip {
                    Some((props, req))
                } else {
                    match shape_model(g, fld.shape as int, ip, f) {
                        None => None,
                        Some(fs) => {
                            let fs2 = field_schema(g, fld, fs);
                            Some(
                                (
                                    props.insert(fld.name@, fs2),
                                    if field_required(g, fld) {
                                        req.push(fld.name@)
                                    } else {
                                        req
                                    },
                                ),
                            )
                        },
                    }
                }
            },
        }
    }
}

/// The schema of a struct (or of a struct-like variant of enum `sid`).
pub open spec fn struct_model(
    g: ShapeGraph,
    sid: int,
    fields: Seq<Field>,
    kind: StructKind,
    desc: Option<Seq<char>>,
    ip: Seq<Seq<char>>,
    f: nat,
) -> Option<SchemaModel>
    decreases f, 2int, 0int,
{
    if kind == StructKind::Unit {
        Some(SchemaModel { type_: one_type(SchemaType::Null), description: desc, ..empty_model() })
    } else if kind == StructKind::TupleStruct && fields.len() == 1 {
        shape_model(g, fields[0].shape as int, ip, f)
    } else if kind == StructKind::Struct {
        let name = name_of(g, sid);
        match props_model(g, fields, ip.push(name), f, fields.len() as int) {
            Some((props, req)) => Some(object_model(props, req, desc, name)),
            None => None,
        }
    } else if items_described(g, fields, ip, f, fields.len() as int) {
        Some(SchemaModel { type_: one_type(SchemaType::Array), description: desc, ..empty_model() })
    } else {
        None
    }
}

/// The shapes of the first `n` fields can all be described.
pub open spec fn items_described(g: ShapeGraph, fields: Seq<Field>, ip: Seq<Seq<char>>, f: nat, n: int) -> bool
    decreases f, 1int, n,
{
    if n <= 0 {
        true
    } else {
        items_described(g, fields, ip, f, n - 1) && shape_model(g, fields[n - 1].shape as int, ip, f) is Some
    }
}

/// The schema of one variant of enum `sid`.
pub open spec fn variant_model(g: ShapeGraph, sid: int, v: Variant, ip: Seq<Seq<char>>, f: nat) -> Option<
    SchemaModel,
>
    decreases f, 3int, 0int,
{
    let vn = v.name@;
    if v.kind == StructKind::Unit {
        Some(SchemaModel { const_: Some(vn), ..empty_model() })
    } else if v.kind == StructKind::TupleStruct && v.fields@.len() == 1 {
        match shape_model(g, v.fields@[0].shape as int, ip, f) {
            Some(inner) => Some(tagged_model(vn, inner)),
            None => None,
        }
    } else {
        match struct_model(g, sid, v.fields@, v.kind, None, ip, f) {
            Some(inner) => Some(tagged_model(vn, inner)),
            None => None,
        }
    }
}

/// Every variant is a unit variant.
pub open spec fn all_unit(variants: Seq<Variant>) -> bool {
    forall|i: int| 0 <= i < variants.len() ==> #[trigger] variants[i].kind == StructKind::Unit
}

/// The names of the variants.
pub open spec fn variant_names(variants: Seq<Variant>) -> Seq<Seq<char>> {
    variants.map_values(|v: Variant| v.name@)
}

/// The schema of enum `sid`.
pub open spec fn enum_model(
    g: ShapeGraph,
    sid: int,
    variants: Seq<Variant>,
    desc: Option<Seq<char>>,
    ip: Seq<Seq<char>>,
    f: nat,
) -> Option<SchemaModel>
    decreases f, 4int, 0int,
{
    let name = name_of(g, sid);
    if all_unit(variants) {
        Some(
            SchemaModel {
                type_: one_type(SchemaType::String),
                enum_: Some(variant_names(variants)),
                description: desc,
                title: Some(name),
                ..empty_model()
            },
        )
    } else {
        match variants_model(g, sid, variants, ip, f, variants.len() as int) {
            Some(one_of) => Some(
                SchemaModel {
                    one_of: Some(one_of),
                    description: desc,
                    title: Some(name),
                    ..empty_model()
                },
            ),
            None => None,
        }
    }
}

/// The schemas of the first `n` variants of enum `sid`.
pub open spec fn variants_model(
    g: ShapeGraph,
    sid: int,
    variants: Seq<Variant>,
    ip: Seq<Seq<char>>,
    f: nat,
    n: int,
) -> Option<Seq<SchemaModel>>
    decreases f, 3int, n,
{
    if n <= 0 {
        Some(seq![])
    } else {
        match variants_model(g, sid, variants, ip, f, n - 1) {
            Some(prev) => match variant_model(g, sid, variants[n - 1], ip, f) {
                Some(m) => Some(prev.push(m)),
                None => None,
            },
            None => None,
        }
    }
}

/// The description of shape `id` ends when the names in `ip` are in progress.
pub open spec fn converges(g: ShapeGraph, id: int, ip: Seq<Seq<char>>) -> bool {
    exists|f: nat| #[trigger] shape_model(g, id, ip, f) is Some
}

/// A recursion depth that suffices to describe shape `id`.
pub open spec fn depth_for(g: ShapeGraph, id: int, ip: Seq<Seq<char>>) -> nat {
    choose|f: nat| #[trigger] shape_model(g, id, ip, f) is Some
}

/// The schema of shape `id` with the names in `ip` in progress.
pub open spec fn schema_model(g: ShapeGraph, id: int, ip: Seq<Seq<char>>) -> SchemaModel {
    shape_model(g, id, ip, depth_for(g, id, ip)).unwrap()
}

impl ShapeGraph {
    /// Describing the root type ends.
    pub open spec fn terminates(self) -> bool {
        converges(self, self.root as int, seq![])
    }

    /// The schema of the root type.
    pub open spec fn model(self) -> SchemaModel {
        schema_model(self, self.root as int, seq![])
    }
}

} // verus!
