//! Laws of schema generation, proved over the model.
use vstd::prelude::*;
use crate::model::{
    all_unit, converges, depth_for, description_of, enum_model, field_required, field_schema,
    has_unconstrained_attr, is_unconstrained_attr, items_described, name_of, null_model, props_model,
    scalar_model, schema_model, shape_model, struct_model, variant_model, variant_names,
    variants_model,
};
use crate::schema::{AdditionalModel, SchemaModel, SchemaType, TypesModel, empty_model};
use crate::shape::{Field, ShapeAttr, ShapeDef, ShapeGraph, StructKind, Variant};
use crate::text::{doc_text, texts};

verus! {

/// A greater recursion depth gives the same schema.
pub proof fn lemma_shape_depth(g: ShapeGraph, id: int, ip: Seq<Seq<char>>, f: nat, f2: nat)
    requires
        f <= f2,
        shape_model(g, id, ip, f) is Some,
    ensures
        shape_model(g, id, ip, f2) == shape_model(g, id, ip, f),
    decreases f, 0int, 0int,
{
    let s = g.shapes@[id];
    if ip.contains(s.type_identifier@) {
    } else if crate::model::has_unconstrained_attr(s.attributes@) {
    } else {
        match s.def {
            ShapeDef::OptionOf(t) => lemma_shape_depth(g, t as int, ip, (f - 1) as nat, (f2 - 1) as nat),
            ShapeDef::ListOf(t) => lemma_shape_depth(g, t as int, ip, (f - 1) as nat, (f2 - 1) as nat),
            ShapeDef::ArrayOf(t) => lemma_shape_depth(g, t as int, ip, (f - 1) as nat, (f2 - 1) as nat),
            ShapeDef::SetOf(t) => lemma_shape_depth(g, t as int, ip, (f - 1) as nat, (f2 - 1) as nat),
            ShapeDef::MapOf(t) => lemma_shape_depth(g, t as int, ip, (f - 1) as nat, (f2 - 1) as nat),
            ShapeDef::Struct(kind, fields) => {
                let desc = crate::text::doc_text(crate::text::texts(s.doc@));
                lemma_struct_depth(g, id, fields@, kind, desc, ip, (f - 1) as nat, (f2 - 1) as nat);
            },
            ShapeDef::Enum(variants) => {
                let desc = crate::text::doc_text(crate::text::texts(s.doc@));
                lemma_enum_depth(g, id, variants@, desc, ip, (f - 1) as nat, (f2 - 1) as nat);
            },
            ShapeDef::Other => {
                if let Some(j) = s.inner {
                    lemma_shape_depth(g, j as int, ip, (f - 1) as nat, (f2 - 1) as nat);
                }
            },
            ShapeDef::Scalar => {},
        }
    }
}

/// A greater recursion depth gives the same properties.
pub proof fn lemma_props_depth(
    g: ShapeGraph,
    fields: Seq<Field>,
    ip: Seq<Seq<char>>,
    f: nat,
    f2: nat,
    n: int,
)
    requires
        f <= f2,
        props_model(g, fields, ip, f, n) is Some,
    ensures
        props_model(g, fields, ip, f2, n) == props_model(g, fields, ip, f, n),
    decreases f, 1int, n,
{
    if n > 0 {
        lemma_props_depth(g, fields, ip, f, f2, n - 1);
        if !fields[n - 1].skip {
            lemma_shape_depth(g, fields[n - 1].shape as int, ip, f, f2);
        }
    }
}

/// A greater recursion depth describes the same items.
pub proof fn lemma_items_depth(
    g: ShapeGraph,
    fields: Seq<Field>,
    ip: Seq<Seq<char>>,
    f: nat,
    f2: nat,
    n: int,
)
    requires
        f <= f2,
        items_described(g, fields, ip, f, n),
    ensures
        items_described(g, fields, ip, f2, n),
    decreases f, 1int, n,
{
    if n > 0 {
        lemma_items_depth(g, fields, ip, f, f2, n - 1);
        lemma_shape_depth(g, fields[n - 1].shape as int, ip, f, f2);
    }
}

/// A greater recursion depth gives the same struct schema.
pub proof fn lemma_struct_depth(
    g: ShapeGraph,
    sid: int,
    fields: Seq<Field>,
    kind: StructKind,
    desc: Option<Seq<char>>,
    ip: Seq<Seq<char>>,
    f: nat,
    f2: nat,
)
    requires
        f <= f2,
        struct_model(g, sid, fields, kind, desc, ip, f) is Some,
    ensures
        struct_model(g, sid, fields, kind, desc, ip, f2) == struct_model(g, sid, fields, kind, desc, ip, f),
    decreases f, 2int, 0int,
{
    if kind == StructKind::Unit {
    } else if kind == StructKind::TupleStruct && fields.len() == 1 {
        lemma_shape_depth(g, fields[0].shape as int, ip, f, f2);
    } else if kind == StructKind::Struct {
        lemma_props_depth(g, fields, ip.push(crate::model::name_of(g, sid)), f, f2, fields.len() as int);
    } else {
        lemma_items_depth(g, fields, ip, f, f2, fields.len() as int);
    }
}

/// A greater recursion depth gives the same variant schema.
pub proof fn lemma_variant_depth(g: ShapeGraph, sid: int, v: Variant, ip: Seq<Seq<char>>, f: nat, f2: nat)
    requires
        f <= f2,
        variant_model(g, sid, v, ip, f) is Some,
    ensures
        variant_model(g, sid, v, ip, f2) == variant_model(g, sid, v, ip, f),
    decreases f, 3int, 0int,
{
    if v.kind == StructKind::Unit {
    } else if v.kind == StructKind::TupleStruct && v.fields@.len() == 1 {
        lemma_shape_depth(g, v.fields@[0].shape as int, ip, f, f2);
    } else {
        lemma_struct_depth(g, sid, v.fields@, v.kind, None, ip, f, f2);
    }
}

/// A greater recursion depth gives the same variant schemas.
pub proof fn lemma_variants_depth(
    g: ShapeGraph,
    sid: int,
    variants: Seq<Variant>,
    ip: Seq<Seq<char>>,
    f: nat,
    f2: nat,
    n: int,
)
    requires
        f <= f2,
        variants_model(g, sid, variants, ip, f, n) is Some,
    ensures
        variants_model(g, sid, variants, ip, f2, n) == variants_model(g, sid, variants, ip, f, n),
    decreases f, 3int, n,
{
    if n > 0 {
        lemma_variants_depth(g, sid, variants, ip, f, f2, n - 1);
        lemma_variant_depth(g, sid, variants[n - 1], ip, f, f2);
    }
}

/// A greater recursion depth gives the same enum schema.
pub proof fn lemma_enum_depth(
    g: ShapeGraph,
    sid: int,
    variants: Seq<Variant>,
    desc: Option<Seq<char>>,
    ip: Seq<Seq<char>>,
    f: nat,
    f2: nat,
)
    requires
        f <= f2,
        enum_model(g, sid, variants, desc, ip, f) is Some,
    ensures
        enum_model(g, sid, variants, desc, ip, f2) == enum_model(g, sid, variants, desc, ip, f),
    decreases f, 4int, 0int,
{
    if !crate::model::all_unit(variants) {
        lemma_variants_depth(g, sid, variants, ip, f, f2, variants.len() as int);
    }
}

/// The schema of a shape does not depend on the recursion depth used to
/// compute it: any depth that suffices gives `schema_model`.
pub proof fn lemma_model_at(g: ShapeGraph, id: int, ip: Seq<Seq<char>>, f: nat)
    requires
        shape_model(g, id, ip, f) is Some,
    ensures
        converges(g, id, ip),
        schema_model(g, id, ip) == shape_model(g, id, ip, f).unwrap(),
{
    let d = depth_for(g, id, ip);
    if d <= f {
        lemma_shape_depth(g, id, ip, d, f);
    } else {
        lemma_shape_depth(g, id, ip, f, d);
    }
}

/// The attribute `facet_json_schema::unconstrained_string`.
pub open spec fn unconstrained_marker(a: ShapeAttr) -> bool {
    &&& a.ns matches Some(n) && n@ == "facet_json_schema"@
    &&& a.key@ == "unconstrained_string"@
}

/// Some attribute of the list, at any position, is the
/// `facet_json_schema::unconstrained_string` marker.
pub open spec fn marked_unconstrained(attrs: Seq<ShapeAttr>) -> bool {
    exists|i: int| 0 <= i < attrs.len() && #[trigger] unconstrained_marker(attrs[i])
}

/// The override is found wherever it stands among the attributes: a type is
/// described as an unconstrained string exactly when one of its attributes,
/// at any position, is `facet_json_schema::unconstrained_string`.
pub proof fn law_marker_anywhere(attrs: Seq<ShapeAttr>)
    ensures
        has_unconstrained_attr(attrs) == marked_unconstrained(attrs),
{
    if has_unconstrained_attr(attrs) {
        let i = choose|i: int| 0 <= i < attrs.len() && #[trigger] is_unconstrained_attr(attrs[i]);
        assert(unconstrained_marker(attrs[i]));
    }
    if marked_unconstrained(attrs) {
        let i = choose|i: int| 0 <= i < attrs.len() && #[trigger] unconstrained_marker(attrs[i]);
        assert(is_unconstrained_attr(attrs[i]));
    }
}

/// A type that is already being described is not described again: its
/// schema is a `$ref` to `#/$defs/` followed by its name, and nothing else.
pub proof fn law_in_progress_is_reference(g: ShapeGraph, id: int, ip: Seq<Seq<char>>)
    requires
        ip.contains(g.shapes@[id].type_identifier@),
    ensures
        converges(g, id, ip),
        schema_model(g, id, ip) == (SchemaModel {
            ref_: Some("#/$defs/"@ + g.shapes@[id].type_identifier@),
            ..empty_model()
        }),
{
    lemma_model_at(g, id, ip, 1);
}

/// A type marked `facet_json_schema::unconstrained_string` (by any of its
/// attributes) is described as a string, with its doc comments and its name
/// as title, and with no `enum` list whatever its definition.
pub proof fn law_unconstrained_string(g: ShapeGraph, id: int, ip: Seq<Seq<char>>)
    requires
        !ip.contains(g.shapes@[id].type_identifier@),
        marked_unconstrained(g.shapes@[id].attributes@),
    ensures
        converges(g, id, ip),
        schema_model(g, id, ip) == (SchemaModel {
            type_: Some(TypesModel::Single(SchemaType::String)),
            description: doc_text(texts(g.shapes@[id].doc@)),
            title: Some(g.shapes@[id].type_identifier@),
            ..empty_model()
        }),
        schema_model(g, id, ip).enum_ is None,
{
    law_marker_anywhere(g.shapes@[id].attributes@);
    lemma_model_at(g, id, ip, 1);
}

/// The shapes that a shape is described by when it is an `Option`, a list,
/// an array, a set or a map: the element (or value) shape.
pub open spec fn element_shape(d: ShapeDef) -> Option<usize> {
    match d {
        ShapeDef::OptionOf(t) => Some(t),
        ShapeDef::ListOf(t) => Some(t),
        ShapeDef::ArrayOf(t) => Some(t),
        ShapeDef::SetOf(t) => Some(t),
        ShapeDef::MapOf(t) => Some(t),
        _ => None,
    }
}

/// The schema of a type that is neither in progress nor an unconstrained
/// string follows from its definition.
pub open spec fn plain(g: ShapeGraph, id: int, ip: Seq<Seq<char>>) -> bool {
    &&& !ip.contains(g.shapes@[id].type_identifier@)
    &&& !marked_unconstrained(g.shapes@[id].attributes@)
}

/// An `Option<T>`, list, array, set or map is described exactly when its
/// element type is, and its schema is built from the element's: `anyOf`
/// the element and `null` for an `Option`, an array of the element for a
/// list, array or set, an object whose additional properties are the
/// element for a map; each with the type's doc comments.
pub proof fn law_containers(g: ShapeGraph, id: int, ip: Seq<Seq<char>>)
    requires
        plain(g, id, ip),
        element_shape(g.shapes@[id].def) is Some,
    ensures
        ({
            let t = element_shape(g.shapes@[id].def).unwrap() as int;
            let inner = schema_model(g, t, ip);
            let desc = doc_text(texts(g.shapes@[id].doc@));
            &&& converges(g, id, ip) <==> converges(g, t, ip)
            &&& converges(g, t, ip) && g.shapes@[id].def is OptionOf ==> {
                let m = schema_model(g, id, ip);
                &&& m == (SchemaModel { any_of: m.any_of, description: desc, ..empty_model() })
                &&& m.any_of matches Some(a) && a.len() == 2 && a[0] == inner && a[1] == (SchemaModel {
                    type_: Some(TypesModel::Single(SchemaType::Null)),
                    ..empty_model()
                })
            }
            &&& converges(g, t, ip) && g.shapes@[id].def is MapOf ==> schema_model(g, id, ip) == (SchemaModel {
                type_: Some(TypesModel::Single(SchemaType::Object)),
                additional_properties: Some(AdditionalModel::Schema(Box::new(inner))),
                description: desc,
                ..empty_model()
            })
            &&& converges(g, t, ip) && (g.shapes@[id].def is ListOf || g.shapes@[id].def is ArrayOf
                || g.shapes@[id].def is SetOf) ==> schema_model(g, id, ip) == (SchemaModel {
                type_: Some(TypesModel::Single(SchemaType::Array)),
                items: Some(Box::new(inner)),
                description: desc,
                ..empty_model()
            })
        }),
{
    law_marker_anywhere(g.shapes@[id].attributes@);
    let t = element_shape(g.shapes@[id].def).unwrap() as int;
    if converges(g, t, ip) {
        let f = depth_for(g, t, ip);
        let inner = schema_model(g, t, ip);
        lemma_model_at(g, t, ip, f);
        assert(shape_model(g, id, ip, f + 1) is Some);
        lemma_model_at(g, id, ip, f + 1);
        if g.shapes@[id].def is OptionOf {
            assert(schema_model(g, id, ip).any_of == Some(seq![inner, null_model()]));
        }
    }
    if converges(g, id, ip) {
        let f = depth_for(g, id, ip);
        assert(shape_model(g, t, ip, (f - 1) as nat) is Some);
    }
}

/// The schema with only the given `type`, `minimum` and description.
pub open spec fn typed_schema(t: SchemaType, min: Option<i64>, d: Option<Seq<char>>) -> SchemaModel {
    SchemaModel { type_: Some(TypesModel::Single(t)), minimum: min, description: d, ..empty_model() }
}

/// `m` is the schema of a scalar named `name` with description `d`:
/// `String`, `str`, `&str`, `Cow` and `char` are strings; `bool` is a
/// boolean; `u8`, `u16`, `u32`, `u64`, `u128` and `usize` are integers of
/// minimum 0; `i8`, `i16` and `i32` are integers whose minimum is the type's
/// least value, and `i64`, `i128` and `isize` integers of minimum
/// `i64::MIN`; `f32` and `f64` are numbers; any other scalar has its
/// description alone. No maximum is ever given.
pub open spec fn scalar_schema_is(name: Seq<char>, d: Option<Seq<char>>, m: SchemaModel) -> bool {
    &&& (name == "String"@ || name == "str"@ || name == "&str"@ || name == "Cow"@ || name
        == "char"@) ==> m == typed_schema(SchemaType::String, None, d)
    &&& name == "bool"@ ==> m == typed_schema(SchemaType::Boolean, None, d)
    &&& (name == "u8"@ || name == "u16"@ || name == "u32"@ || name == "u64"@ || name
        == "u128"@ || name == "usize"@) ==> m == typed_schema(SchemaType::Integer, Some(0i64), d)
    &&& name == "i8"@ ==> m == typed_schema(SchemaType::Integer, Some(-128i64), d)
    &&& name == "i16"@ ==> m == typed_schema(SchemaType::Integer, Some(-32768i64), d)
    &&& name == "i32"@ ==> m == typed_schema(SchemaType::Integer, Some(-2147483648i64), d)
    &&& (name == "i64"@ || name == "i128"@ || name == "isize"@) ==> m == typed_schema(
        SchemaType::Integer,
        Some(i64::MIN),
        d,
    )
    &&& (name == "f32"@ || name == "f64"@) ==> m == typed_schema(SchemaType::Number, None, d)
    &&& !(name == "String"@ || name == "str"@ || name == "&str"@ || name == "Cow"@ || name
        == "char"@ || name == "bool"@ || name == "u8"@ || name == "u16"@ || name == "u32"@
        || name == "u64"@ || name == "u128"@ || name == "usize"@ || name == "i8"@ || name
        == "i16"@ || name == "i32"@ || name == "i64"@ || name == "i128"@ || name == "isize"@
        || name == "f32"@ || name == "f64"@) ==> m == (SchemaModel {
        description: d,
        ..empty_model()
    })
}

/// The schema of a scalar follows from its name alone (see
/// [`scalar_schema_is`]).
pub proof fn law_scalar_model(name: Seq<char>, d: Option<Seq<char>>)
    ensures
        scalar_schema_is(name, d, scalar_model(name, d)),
{
    reveal_strlit("String");
    reveal_strlit("str");
    reveal_strlit("&str");
    reveal_strlit("Cow");
    reveal_strlit("char");
    reveal_strlit("bool");
    reveal_strlit("u8");
    reveal_strlit("u16");
    reveal_strlit("u32");
    reveal_strlit("u64");
    reveal_strlit("u128");
    reveal_strlit("usize");
    reveal_strlit("i8");
    reveal_strlit("i16");
    reveal_strlit("i32");
    reveal_strlit("i64");
    reveal_strlit("i128");
    reveal_strlit("isize");
    reveal_strlit("f32");
    reveal_strlit("f64");
    // Names differ in length, or else in their first or second character.
    assert("String"@.len() == 6 && "str"@.len() == 3 && "&str"@.len() == 4 && "Cow"@.len() == 3);
    assert("char"@.len() == 4 && "bool"@.len() == 4 && "u8"@.len() == 2 && "u16"@.len() == 3);
    assert("u32"@.len() == 3 && "u64"@.len() == 3 && "u128"@.len() == 4 && "usize"@.len() == 5);
    assert("i8"@.len() == 2 && "i16"@.len() == 3 && "i32"@.len() == 3 && "i64"@.len() == 3);
    assert("i128"@.len() == 4 && "isize"@.len() == 5 && "f32"@.len() == 3 && "f64"@.len() == 3);
    assert("str"@[0] == 's' && "Cow"@[0] == 'C' && "u16"@[0] == 'u' && "u32"@[0] == 'u');
    assert("u64"@[0] == 'u' && "i16"@[0] == 'i' && "i32"@[0] == 'i' && "i64"@[0] == 'i');
    assert("f32"@[0] == 'f' && "f64"@[0] == 'f');
    assert("u16"@[1] == '1' && "u32"@[1] == '3' && "u64"@[1] == '6');
    assert("i16"@[1] == '1' && "i32"@[1] == '3' && "i64"@[1] == '6');
    assert("f32"@[1] == '3' && "f64"@[1] == '6');
    assert("&str"@[0] == '&' && "char"@[0] == 'c' && "bool"@[0] == 'b');
    assert("u128"@[0] == 'u' && "i128"@[0] == 'i');
    assert("u8"@[0] == 'u' && "i8"@[0] == 'i');
    assert("usize"@[0] == 'u' && "isize"@[0] == 'i');
}

/// A scalar that is neither in progress nor an unconstrained string is
/// described by its name and doc comments (see [`scalar_schema_is`]).
pub proof fn law_scalar(g: ShapeGraph, id: int, ip: Seq<Seq<char>>)
    requires
        plain(g, id, ip),
        g.shapes@[id].def is Scalar,
    ensures
        converges(g, id, ip),
        scalar_schema_is(
            g.shapes@[id].type_identifier@,
            doc_text(texts(g.shapes@[id].doc@)),
            schema_model(g, id, ip),
        ),
{
    law_marker_anywhere(g.shapes@[id].attributes@);
    lemma_model_at(g, id, ip, 1);
    law_scalar_model(g.shapes@[id].type_identifier@, doc_text(texts(g.shapes@[id].doc@)));
}

/// An enum whose variants all carry no data is described as a string
/// restricted to the variants' names, in order, titled with the enum's name.
pub proof fn law_unit_enum(g: ShapeGraph, id: int, ip: Seq<Seq<char>>, variants: Seq<Variant>)
    requires
        plain(g, id, ip),
        g.shapes@[id].def matches ShapeDef::Enum(vs) && vs@ == variants,
        forall|i: int| 0 <= i < variants.len() ==> #[trigger] variants[i].kind == StructKind::Unit,
    ensures
        converges(g, id, ip),
        schema_model(g, id, ip) == (SchemaModel {
            type_: Some(TypesModel::Single(SchemaType::String)),
            enum_: Some(Seq::new(variants.len(), |i: int| variants[i].name@)),
            description: doc_text(texts(g.shapes@[id].doc@)),
            title: Some(g.shapes@[id].type_identifier@),
            ..empty_model()
        }),
{
    law_marker_anywhere(g.shapes@[id].attributes@);
    let desc = description_of(g, id);
    assert(all_unit(variants));
    assert(variant_names(variants) =~= Seq::new(variants.len(), |i: int| variants[i].name@));
    assert(enum_model(g, id, variants, desc, ip, 0) is Some);
    assert(shape_model(g, id, ip, 1) == enum_model(g, id, variants, desc, ip, 0));
    lemma_model_at(g, id, ip, 1);
}

/// No schema that generation produces carries `$schema` or `$defs`: types
/// met again are referred to, never collected as definitions.
pub proof fn law_no_definitions(g: ShapeGraph, id: int, ip: Seq<Seq<char>>, f: nat)
    requires
        shape_model(g, id, ip, f) is Some,
    ensures
        shape_model(g, id, ip, f).unwrap().schema is None,
        shape_model(g, id, ip, f).unwrap().defs is None,
    decreases f,
{
    let s = g.shapes@[id];
    let desc = description_of(g, id);
    if !ip.contains(s.type_identifier@) && !has_unconstrained_attr(s.attributes@) {
        match s.def {
            ShapeDef::Struct(kind, fields) => {
                let sm = struct_model(g, id, fields@, kind, desc, ip, (f - 1) as nat);
                assert(shape_model(g, id, ip, f) == sm);
                if kind == StructKind::TupleStruct && fields@.len() == 1 {
                    assert(sm == shape_model(g, fields@[0].shape as int, ip, (f - 1) as nat));
                    law_no_definitions(g, fields@[0].shape as int, ip, (f - 1) as nat);
                }
            },
            ShapeDef::Enum(variants) => {
                assert(shape_model(g, id, ip, f) == enum_model(g, id, variants@, desc, ip, (f - 1) as nat));
            },
            ShapeDef::Other => {
                if let Some(j) = s.inner {
                    law_no_definitions(g, j as int, ip, (f - 1) as nat);
                }
            },
            _ => {},
        }
    }
}

/// The schema of a whole type carries neither `$schema` nor `$defs`.
pub proof fn law_root_has_no_definitions(g: ShapeGraph)
    requires
        g.terminates(),
    ensures
        g.model().schema is None,
        g.model().defs is None,
{
    law_no_definitions(g, g.root as int, seq![], depth_for(g, g.root as int, seq![]));
}

/// The names of the fields among the first `n` that are not skipped.
pub open spec fn property_names(fields: Seq<Field>, n: int) -> Set<Seq<char>> {
    Set::new(|k: Seq<char>| exists|i: int| 0 <= i < n && !fields[i].skip && #[trigger] fields[i].name@ == k)
}

/// No field after field `i` and before `n` that is kept has the same name.
pub open spec fn last_with_name(fields: Seq<Field>, i: int, n: int) -> bool {
    forall|j: int| i < j < n ==> #[trigger] fields[j].skip || fields[j].name@ != fields[i].name@
}

/// Some field among the first `n` named `k` is kept, has a type that is not
/// an `Option` and has no default.
pub open spec fn required_name(g: ShapeGraph, fields: Seq<Field>, n: int, k: Seq<char>) -> bool {
    exists|i: int|
        0 <= i < n && !fields[i].skip && !(g.shapes@[fields[i].shape as int].def is OptionOf)
            && !fields[i].has_default && #[trigger] fields[i].name@ == k
}

/// A field must be present: it is kept, its type is not an `Option` and it
/// has no default.
pub open spec fn must_be_present(g: ShapeGraph, fld: Field) -> bool {
    !fld.skip && !(g.shapes@[fld.shape as int].def is OptionOf) && !fld.has_default
}

/// The names of the fields that must be present, in field order.
pub open spec fn required_list(g: ShapeGraph, fields: Seq<Field>) -> Seq<Seq<char>>
    decreases fields.len(),
{
    if fields.len() == 0 {
        seq![]
    } else {
        let rest = required_list(g, fields.drop_last());
        if must_be_present(g, fields.last()) {
            rest.push(fields.last().name@)
        } else {
            rest
        }
    }
}

/// The description of the property of a field whose type has schema
/// `schema`: the field's own doc comments when it has any; without them, the
/// type's description when the type is an unconstrained string, else none.
pub open spec fn property_description(g: ShapeGraph, fld: Field, schema: SchemaModel) -> Option<Seq<char>> {
    if fld.doc@.len() > 0 {
        doc_text(texts(fld.doc@))
    } else if marked_unconstrained(g.shapes@[fld.shape as int].attributes@) {
        schema.description
    } else {
        None
    }
}

/// What the properties of the first `n` fields are made of.
proof fn lemma_props_entries(g: ShapeGraph, fields: Seq<Field>, ip: Seq<Seq<char>>, f: nat, n: int)
    requires
        0 <= n <= fields.len(),
        props_model(g, fields, ip, f, n) is Some,
    ensures
        ({
            let (p, r) = props_model(g, fields, ip, f, n).unwrap();
            &&& p.dom() == property_names(fields, n)
            &&& forall|i: int|
                0 <= i < n && !fields[i].skip && last_with_name(fields, i, n) ==> {
                    &&& shape_model(g, fields[i].shape as int, ip, f) is Some
                    &&& #[trigger] p[fields[i].name@] == field_schema(
                        g,
                        fields[i],
                        shape_model(g, fields[i].shape as int, ip, f).unwrap(),
                    )
                }
            &&& forall|k: Seq<char>| r.contains(k) <==> required_name(g, fields, n, k)
            &&& r == required_list(g, fields.take(n))
        }),
    decreases n,
{
    if n == 0 {
        let (p, r) = props_model(g, fields, ip, f, n).unwrap();
        assert(p.dom() =~= property_names(fields, n));
        assert(fields.take(n).len() == 0);
    } else {
        lemma_props_entries(g, fields, ip, f, n - 1);
        let (p0, r0) = props_model(g, fields, ip, f, n - 1).unwrap();
        let (p, r) = props_model(g, fields, ip, f, n).unwrap();
        let fld = fields[n - 1];
        assert(fields.take(n).drop_last() =~= fields.take(n - 1));
        assert(fields.take(n).last() == fld);
        assert(p.dom() =~= property_names(fields, n)) by {
            assert forall|k: Seq<char>| p.dom().contains(k) implies property_names(fields, n).contains(k) by {
                if !(!fld.skip && k == fld.name@) {
                    assert(p0.dom().contains(k));
                    let i = choose|i: int| 0 <= i < n - 1 && !fields[i].skip && #[trigger] fields[i].name@ == k;
                    assert(fields[i].name@ == k);
                }
            }
            assert forall|k: Seq<char>| property_names(fields, n).contains(k) implies p.dom().contains(k) by {
                let i = choose|i: int| 0 <= i < n && !fields[i].skip && #[trigger] fields[i].name@ == k;
                if i < n - 1 {
                    assert(fields[i].name@ == k);
                    assert(property_names(fields, n - 1).contains(k));
                }
            }
        }
        assert forall|i: int|
            0 <= i < n && !fields[i].skip && last_with_name(fields, i, n) implies {
                &&& shape_model(g, fields[i].shape as int, ip, f) is Some
                &&& #[trigger] p[fields[i].name@] == field_schema(
                    g,
                    fields[i],
                    shape_model(g, fields[i].shape as int, ip, f).unwrap(),
                )
            } by {
            if i < n - 1 {
                assert(last_with_name(fields, i, n - 1));
                assert(fields[n - 1].skip || fields[n - 1].name@ != fields[i].name@);
            }
        }
        assert forall|k: Seq<char>| r.contains(k) <==> required_name(g, fields, n, k) by {
            let pushed = !fld.skip && field_required(g, fld);
            if pushed {
                assert(r == r0.push(fld.name@));
            } else {
                assert(r == r0);
            }
            if r.contains(k) {
                let j = choose|j: int| 0 <= j < r.len() && r[j] == k;
                if pushed && j == r.len() - 1 {
                    assert(fields[n - 1].name@ == k);
                } else {
                    assert(r0[j] == k);
                    assert(r0.contains(k));
                    let i = choose|i: int|
                        0 <= i < n - 1 && !fields[i].skip && !(g.shapes@[fields[i].shape as int].def is OptionOf)
                            && !fields[i].has_default && #[trigger] fields[i].name@ == k;
                    assert(fields[i].name@ == k);
                }
            }
            if required_name(g, fields, n, k) {
                let i = choose|i: int|
                    0 <= i < n && !fields[i].skip && !(g.shapes@[fields[i].shape as int].def is OptionOf)
                        && !fields[i].has_default && #[trigger] fields[i].name@ == k;
                if i < n - 1 {
                    assert(fields[i].name@ == k);
                    assert(required_name(g, fields, n - 1, k));
                    assert(r0.contains(k));
                    let j = choose|j: int| 0 <= j < r0.len() && r0[j] == k;
                    assert(r[j] == k);
                } else {
                    assert(r[r.len() - 1] == k);
                }
            }
        }
    }
}

/// `m` describes the named fields `fields` of a struct (or of a struct-like
/// enum variant) as an object titled `title`, with description `desc`, that
/// allows no other properties and has no other keyword; the types of the
/// fields are described with the names in `ip` in progress. Each field that
/// is not skipped is a property under its (serialized) name, whose schema is
/// that of the field's type with the field's description; the last field of
/// a name wins. `required` lists, in field order, the names of the kept
/// fields whose types are not `Option`s and that have no default, and is
/// absent when there are none.
pub open spec fn fields_object(
    g: ShapeGraph,
    fields: Seq<Field>,
    ip: Seq<Seq<char>>,
    title: Seq<char>,
    desc: Option<Seq<char>>,
    m: SchemaModel,
) -> bool {
    let n = fields.len() as int;
    &&& m == (SchemaModel {
        type_: Some(TypesModel::Single(SchemaType::Object)),
        properties: m.properties,
        required: m.required,
        additional_properties: Some(AdditionalModel::Bool(false)),
        description: desc,
        title: Some(title),
        ..empty_model()
    })
    &&& m.properties matches Some(p) && p.dom() == property_names(fields, n)
    &&& forall|i: int|
        0 <= i < n && !fields[i].skip && last_with_name(fields, i, n) ==> {
            let t = fields[i].shape as int;
            &&& converges(g, t, ip)
            &&& #[trigger] m.properties.unwrap()[fields[i].name@] == (SchemaModel {
                description: property_description(g, fields[i], schema_model(g, t, ip)),
                ..schema_model(g, t, ip)
            })
        }
    &&& m.required == if required_list(g, fields).len() == 0 {
        None
    } else {
        Some(required_list(g, fields))
    }
    &&& forall|k: Seq<char>|
        (m.required matches Some(r) && r.contains(k)) <==> required_name(g, fields, n, k)
}

/// The object that the named fields of struct (or enum) `sid` give.
proof fn lemma_fields_object(
    g: ShapeGraph,
    sid: int,
    fields: Seq<Field>,
    desc: Option<Seq<char>>,
    ip: Seq<Seq<char>>,
    f: nat,
)
    requires
        struct_model(g, sid, fields, StructKind::Struct, desc, ip, f) is Some,
    ensures
        fields_object(
            g,
            fields,
            ip.push(name_of(g, sid)),
            name_of(g, sid),
            desc,
            struct_model(g, sid, fields, StructKind::Struct, desc, ip, f).unwrap(),
        ),
{
    let ip2 = ip.push(name_of(g, sid));
    let n = fields.len() as int;
    lemma_props_entries(g, fields, ip2, f, n);
    let (p, r) = props_model(g, fields, ip2, f, n).unwrap();
    let m = struct_model(g, sid, fields, StructKind::Struct, desc, ip, f).unwrap();
    assert(m.properties == Some(p));
    assert(fields.take(n) =~= fields);
    assert forall|i: int|
        0 <= i < n && !fields[i].skip && last_with_name(fields, i, n) implies {
            let t = fields[i].shape as int;
            &&& converges(g, t, ip2)
            &&& #[trigger] m.properties.unwrap()[fields[i].name@] == (SchemaModel {
                description: property_description(g, fields[i], schema_model(g, t, ip2)),
                ..schema_model(g, t, ip2)
            })
        } by {
        let t = fields[i].shape as int;
        lemma_model_at(g, t, ip2, f);
        law_field_description(g, fields[i], schema_model(g, t, ip2));
    }
    assert forall|k: Seq<char>|
        (m.required matches Some(r) && r.contains(k)) <==> required_name(g, fields, n, k) by {
        if r.len() == 0 {
            assert(!r.contains(k));
        }
    }
}

/// A struct with named fields is described as an object titled with its
/// name and with its doc comments, its fields described with the struct in
/// progress (see [`fields_object`]).
pub proof fn law_struct_schema(g: ShapeGraph, id: int, ip: Seq<Seq<char>>, fields: Seq<Field>)
    requires
        plain(g, id, ip),
        g.shapes@[id].def matches ShapeDef::Struct(k, fs) && k == StructKind::Struct && fs@ == fields,
        converges(g, id, ip),
    ensures
        fields_object(
            g,
            fields,
            ip.push(g.shapes@[id].type_identifier@),
            g.shapes@[id].type_identifier@,
            doc_text(texts(g.shapes@[id].doc@)),
            schema_model(g, id, ip),
        ),
{
    law_marker_anywhere(g.shapes@[id].attributes@);
    let f = depth_for(g, id, ip);
    let desc = description_of(g, id);
    assert(shape_model(g, id, ip, f) == struct_model(g, id, fields, StructKind::Struct, desc, ip, (f - 1) as nat));
    lemma_fields_object(g, id, fields, desc, ip, (f - 1) as nat);
}

/// The `i`-th of the schemas of the first `n` variants is that of variant `i`.
proof fn lemma_variant_entry(
    g: ShapeGraph,
    sid: int,
    variants: Seq<Variant>,
    ip: Seq<Seq<char>>,
    f: nat,
    n: int,
    i: int,
)
    requires
        0 <= i < n,
        variants_model(g, sid, variants, ip, f, n) is Some,
    ensures
        variants_model(g, sid, variants, ip, f, n).unwrap().len() == n,
        variant_model(g, sid, variants[i], ip, f) is Some,
        variants_model(g, sid, variants, ip, f, n).unwrap()[i] == variant_model(g, sid, variants[i], ip, f).unwrap(),
    decreases n,
{
    let prev = variants_model(g, sid, variants, ip, f, n - 1);
    let vm = variant_model(g, sid, variants[n - 1], ip, f);
    assert(prev is Some && vm is Some);
    assert(variants_model(g, sid, variants, ip, f, n) == Some(prev.unwrap().push(vm.unwrap())));
    if n - 1 > 0 {
        lemma_variant_entry(g, sid, variants, ip, f, n - 1, if i < n - 1 { i } else { 0 });
    } else {
        assert(prev.unwrap().len() == 0);
    }
}

/// An object whose one property, `name`, is required and holds `inner`, and
/// that allows no other property.
pub open spec fn single_property_object(name: Seq<char>, inner: SchemaModel) -> SchemaModel {
    SchemaModel {
        type_: Some(TypesModel::Single(SchemaType::Object)),
        properties: Some(Map::empty().insert(name, inner)),
        required: Some(seq![name]),
        additional_properties: Some(AdditionalModel::Bool(false)),
        ..empty_model()
    }
}

/// `o` describes variant `v` of the enum named `name`, with the names in
/// `ip` in progress: a unit variant is the constant of its name; any other
/// variant is an object whose one, required property is the variant's name,
/// holding for a newtype variant the schema of its field's type, for a
/// variant with named fields the object of those fields titled with the
/// enum's name and without description (the enum in progress), and for a
/// tuple variant an array.
pub open spec fn variant_schema(g: ShapeGraph, ip: Seq<Seq<char>>, name: Seq<char>, v: Variant, o: SchemaModel) -> bool {
    if v.kind == StructKind::Unit {
        o == SchemaModel { const_: Some(v.name@), ..empty_model() }
    } else if v.kind == StructKind::TupleStruct && v.fields@.len() == 1 {
        converges(g, v.fields@[0].shape as int, ip) && o == single_property_object(
            v.name@,
            schema_model(g, v.fields@[0].shape as int, ip),
        )
    } else if v.kind == StructKind::Struct {
        exists|inner: SchemaModel|
            #[trigger] single_property_object(v.name@, inner) == o && fields_object(
                g,
                v.fields@,
                ip.push(name),
                name,
                None,
                inner,
            )
    } else {
        o == single_property_object(
            v.name@,
            SchemaModel { type_: Some(TypesModel::Single(SchemaType::Array)), ..empty_model() },
        )
    }
}

/// How variant `v` of enum `sid` is described.
proof fn lemma_variant_schema(g: ShapeGraph, sid: int, ip: Seq<Seq<char>>, v: Variant, f: nat)
    requires
        variant_model(g, sid, v, ip, f) is Some,
    ensures
        variant_schema(g, ip, name_of(g, sid), v, variant_model(g, sid, v, ip, f).unwrap()),
{
    if v.kind == StructKind::Unit {
    } else if v.kind == StructKind::TupleStruct && v.fields@.len() == 1 {
        lemma_model_at(g, v.fields@[0].shape as int, ip, f);
    } else if v.kind == StructKind::Struct {
        let inner = struct_model(g, sid, v.fields@, v.kind, None, ip, f).unwrap();
        lemma_fields_object(g, sid, v.fields@, None, ip, f);
        assert(single_property_object(v.name@, inner) == variant_model(g, sid, v, ip, f).unwrap());
    } else {
    }
}

/// An enum with a variant that carries data is described by `oneOf`, one
/// schema per variant in order (see [`variant_schema`]), titled with the
/// enum's name and with its doc comments, and by no other keyword.
pub proof fn law_data_enum(g: ShapeGraph, id: int, ip: Seq<Seq<char>>, variants: Seq<Variant>)
    requires
        plain(g, id, ip),
        g.shapes@[id].def matches ShapeDef::Enum(vs) && vs@ == variants,
        exists|i: int| 0 <= i < variants.len() && #[trigger] variants[i].kind != StructKind::Unit,
        converges(g, id, ip),
    ensures
        ({
            let m = schema_model(g, id, ip);
            let name = g.shapes@[id].type_identifier@;
            &&& m == (SchemaModel {
                one_of: m.one_of,
                description: doc_text(texts(g.shapes@[id].doc@)),
                title: Some(name),
                ..empty_model()
            })
            &&& m.one_of matches Some(os) && os.len() == variants.len()
            &&& forall|i: int|
                0 <= i < variants.len() ==> variant_schema(g, ip, name, variants[i], #[trigger] m.one_of.unwrap()[i])
        }),
{
    law_marker_anywhere(g.shapes@[id].attributes@);
    let f = depth_for(g, id, ip);
    let desc = description_of(g, id);
    let w = choose|i: int| 0 <= i < variants.len() && #[trigger] variants[i].kind != StructKind::Unit;
    assert(!all_unit(variants)) by {
        assert(variants[w].kind != StructKind::Unit);
    }
    assert(shape_model(g, id, ip, f) == enum_model(g, id, variants, desc, ip, (f - 1) as nat));
    let n = variants.len() as int;
    lemma_variant_entry(g, id, variants, ip, (f - 1) as nat, n, 0);
    let m = schema_model(g, id, ip);
    let name = g.shapes@[id].type_identifier@;
    assert forall|i: int| 0 <= i < variants.len() implies variant_schema(
        g,
        ip,
        name,
        variants[i],
        #[trigger] m.one_of.unwrap()[i],
    ) by {
        lemma_variant_entry(g, id, variants, ip, (f - 1) as nat, n, i);
        lemma_variant_schema(g, id, ip, variants[i], (f - 1) as nat);
    }
}

/// A newtype struct is described as the type it wraps.
pub proof fn law_newtype(g: ShapeGraph, id: int, ip: Seq<Seq<char>>, t: int)
    requires
        plain(g, id, ip),
        g.shapes@[id].def matches ShapeDef::Struct(k, fs) && k == StructKind::TupleStruct && fs@.len() == 1
            && fs@[0].shape == t,
    ensures
        converges(g, id, ip) <==> converges(g, t, ip),
        converges(g, id, ip) ==> schema_model(g, id, ip) == schema_model(g, t, ip),
{
    law_marker_anywhere(g.shapes@[id].attributes@);
    let desc = description_of(g, id);
    if let ShapeDef::Struct(kind, fs) = g.shapes@[id].def {
        if converges(g, t, ip) {
            let f = depth_for(g, t, ip);
            lemma_model_at(g, t, ip, f);
            assert(shape_model(g, id, ip, f + 1) == struct_model(g, id, fs@, kind, desc, ip, f));
            lemma_model_at(g, id, ip, f + 1);
        }
        if converges(g, id, ip) {
            let f = depth_for(g, id, ip);
            assert(shape_model(g, id, ip, f) == struct_model(g, id, fs@, kind, desc, ip, (f - 1) as nat));
            assert(shape_model(g, t, ip, (f - 1) as nat) is Some);
        }
    }
}

/// A unit struct is described as `null`, with its doc comments.
pub proof fn law_unit_struct(g: ShapeGraph, id: int, ip: Seq<Seq<char>>)
    requires
        plain(g, id, ip),
        g.shapes@[id].def matches ShapeDef::Struct(k, fs) && k == StructKind::Unit,
    ensures
        converges(g, id, ip),
        schema_model(g, id, ip) == (SchemaModel {
            type_: Some(TypesModel::Single(SchemaType::Null)),
            description: doc_text(texts(g.shapes@[id].doc@)),
            ..empty_model()
        }),
{
    law_marker_anywhere(g.shapes@[id].attributes@);
    let desc = description_of(g, id);
    if let ShapeDef::Struct(kind, fs) = g.shapes@[id].def {
        assert(shape_model(g, id, ip, 1) == struct_model(g, id, fs@, kind, desc, ip, 0));
        lemma_model_at(g, id, ip, 1);
    }
}

/// A tuple, or a tuple struct of other than one field, is described as an
/// array with the type's doc comments and no other keyword: no `items`,
/// whatever the types of its elements.
pub proof fn law_tuple(g: ShapeGraph, id: int, ip: Seq<Seq<char>>, fields: Seq<Field>)
    requires
        plain(g, id, ip),
        g.shapes@[id].def matches ShapeDef::Struct(k, fs) && fs@ == fields && (k == StructKind::Tuple || (k
            == StructKind::TupleStruct && fs@.len() != 1)),
        converges(g, id, ip),
    ensures
        schema_model(g, id, ip) == (SchemaModel {
            type_: Some(TypesModel::Single(SchemaType::Array)),
            description: doc_text(texts(g.shapes@[id].doc@)),
            ..empty_model()
        }),
{
    law_marker_anywhere(g.shapes@[id].attributes@);
    let desc = description_of(g, id);
    let f = depth_for(g, id, ip);
    if let ShapeDef::Struct(kind, fs) = g.shapes@[id].def {
        assert(shape_model(g, id, ip, f) == struct_model(g, id, fs@, kind, desc, ip, (f - 1) as nat));
    }
}

/// A transparent wrapper of no other definition is described as the type
/// it wraps.
pub proof fn law_transparent(g: ShapeGraph, id: int, ip: Seq<Seq<char>>, j: int)
    requires
        plain(g, id, ip),
        g.shapes@[id].def is Other,
        g.shapes@[id].inner matches Some(k) && k == j,
    ensures
        converges(g, id, ip) <==> converges(g, j, ip),
        converges(g, id, ip) ==> schema_model(g, id, ip) == schema_model(g, j, ip),
{
    law_marker_anywhere(g.shapes@[id].attributes@);
    if converges(g, j, ip) {
        let f = depth_for(g, j, ip);
        lemma_model_at(g, j, ip, f);
        assert(shape_model(g, id, ip, f + 1) is Some);
        lemma_model_at(g, id, ip, f + 1);
    }
    if converges(g, id, ip) {
        let f = depth_for(g, id, ip);
        assert(shape_model(g, j, ip, (f - 1) as nat) is Some);
    }
}

/// A type of no other definition that wraps nothing is described by its doc
/// comments alone.
pub proof fn law_opaque(g: ShapeGraph, id: int, ip: Seq<Seq<char>>)
    requires
        plain(g, id, ip),
        g.shapes@[id].def is Other,
        g.shapes@[id].inner is None,
    ensures
        converges(g, id, ip),
        schema_model(g, id, ip) == (SchemaModel {
            description: doc_text(texts(g.shapes@[id].doc@)),
            ..empty_model()
        }),
{
    law_marker_anywhere(g.shapes@[id].attributes@);
    lemma_model_at(g, id, ip, 1);
}

/// The description of a property: the field's own doc comments when it has
/// any (they override the type's); without doc comments, none, unless the
/// field's type is described as an unconstrained string, whose description
/// is then kept. Everything else is the schema of the field's type.
pub proof fn law_field_description(g: ShapeGraph, fld: Field, schema: SchemaModel)
    ensures
        fld.doc@.len() > 0 ==> field_schema(g, fld, schema).description == doc_text(texts(fld.doc@)),
        fld.doc@.len() == 0 && !marked_unconstrained(g.shapes@[fld.shape as int].attributes@)
            ==> field_schema(g, fld, schema).description is None,
        fld.doc@.len() == 0 && marked_unconstrained(g.shapes@[fld.shape as int].attributes@)
            ==> field_schema(g, fld, schema).description == schema.description,
        field_schema(g, fld, schema) == (SchemaModel {
            description: property_description(g, fld, schema),
            ..schema
        }),
{
    law_marker_anywhere(g.shapes@[fld.shape as int].attributes@);
    assert(texts(fld.doc@).len() == fld.doc@.len());
}


/// Every kept field's type is described with the names in `ip` in progress.
pub open spec fn kept_fields_converge(g: ShapeGraph, fields: Seq<Field>, ip: Seq<Seq<char>>) -> bool {
    forall|i: int| 0 <= i < fields.len() && !fields[i].skip ==> converges(g, #[trigger] fields[i].shape as int, ip)
}

/// Every field's type is described with the names in `ip` in progress.
pub open spec fn all_fields_converge(g: ShapeGraph, fields: Seq<Field>, ip: Seq<Seq<char>>) -> bool {
    forall|i: int| 0 <= i < fields.len() ==> converges(g, #[trigger] fields[i].shape as int, ip)
}

/// One depth describes the first `n` fields when each kept one is described.
proof fn lemma_props_converge(g: ShapeGraph, fields: Seq<Field>, ip: Seq<Seq<char>>, n: int) -> (f: nat)
    requires
        0 <= n <= fields.len(),
        kept_fields_converge(g, fields, ip),
    ensures
        props_model(g, fields, ip, f, n) is Some,
    decreases n,
{
    if n == 0 {
        0
    } else {
        let f0 = lemma_props_converge(g, fields, ip, n - 1);
        if fields[n - 1].skip {
            f0
        } else {
            let t = fields[n - 1].shape as int;
            assert(converges(g, t, ip));
            let ft = depth_for(g, t, ip);
            let f = if f0 <= ft { ft } else { f0 };
            lemma_props_depth(g, fields, ip, f0, f, n - 1);
            lemma_shape_depth(g, t, ip, ft, f);
            f
        }
    }
}

/// The first `n` fields described at depth `f` each have their kept types
/// described at `f`.
proof fn lemma_props_fields(g: ShapeGraph, fields: Seq<Field>, ip: Seq<Seq<char>>, f: nat, n: int)
    requires
        0 <= n <= fields.len(),
        props_model(g, fields, ip, f, n) is Some,
    ensures
        forall|i: int| 0 <= i < n && !fields[i].skip ==> #[trigger] converges(g, fields[i].shape as int, ip),
    decreases n,
{
    if n > 0 {
        lemma_props_fields(g, fields, ip, f, n - 1);
        if !fields[n - 1].skip {
            lemma_model_at(g, fields[n - 1].shape as int, ip, f);
        }
    }
}

/// One depth describes the first `n` items when each is described.
proof fn lemma_items_converge(g: ShapeGraph, fields: Seq<Field>, ip: Seq<Seq<char>>, n: int) -> (f: nat)
    requires
        0 <= n <= fields.len(),
        all_fields_converge(g, fields, ip),
    ensures
        items_described(g, fields, ip, f, n),
    decreases n,
{
    if n == 0 {
        0
    } else {
        let f0 = lemma_items_converge(g, fields, ip, n - 1);
        let t = fields[n - 1].shape as int;
        assert(converges(g, t, ip));
        let ft = depth_for(g, t, ip);
        let f = if f0 <= ft { ft } else { f0 };
        lemma_items_depth(g, fields, ip, f0, f, n - 1);
        lemma_shape_depth(g, t, ip, ft, f);
        f
    }
}

/// The first `n` items described at depth `f` each have their types described.
proof fn lemma_items_fields(g: ShapeGraph, fields: Seq<Field>, ip: Seq<Seq<char>>, f: nat, n: int)
    requires
        0 <= n <= fields.len(),
        items_described(g, fields, ip, f, n),
    ensures
        forall|i: int| 0 <= i < n ==> #[trigger] converges(g, fields[i].shape as int, ip),
    decreases n,
{
    if n > 0 {
        lemma_items_fields(g, fields, ip, f, n - 1);
        lemma_model_at(g, fields[n - 1].shape as int, ip, f);
    }
}

/// A struct with named fields is described exactly when the type of each of
/// its kept fields is, with the struct in progress.
pub proof fn law_struct_converges(g: ShapeGraph, id: int, ip: Seq<Seq<char>>, fields: Seq<Field>)
    requires
        plain(g, id, ip),
        g.shapes@[id].def matches ShapeDef::Struct(k, fs) && k == StructKind::Struct && fs@ == fields,
    ensures
        converges(g, id, ip) <==> kept_fields_converge(g, fields, ip.push(g.shapes@[id].type_identifier@)),
{
    law_marker_anywhere(g.shapes@[id].attributes@);
    let desc = description_of(g, id);
    let ip2 = ip.push(name_of(g, id));
    let n = fields.len() as int;
    if kept_fields_converge(g, fields, ip2) {
        let f = lemma_props_converge(g, fields, ip2, n);
        assert(shape_model(g, id, ip, f + 1) == struct_model(g, id, fields, StructKind::Struct, desc, ip, f));
        assert(shape_model(g, id, ip, f + 1) is Some);
    }
    if converges(g, id, ip) {
        let f = depth_for(g, id, ip);
        assert(shape_model(g, id, ip, f) == struct_model(g, id, fields, StructKind::Struct, desc, ip, (f - 1) as nat));
        lemma_props_fields(g, fields, ip2, (f - 1) as nat, n);
    }
}

/// A tuple, or a tuple struct of other than one field, is described exactly
/// when the type of each of its fields is.
pub proof fn law_tuple_converges(g: ShapeGraph, id: int, ip: Seq<Seq<char>>, fields: Seq<Field>)
    requires
        plain(g, id, ip),
        g.shapes@[id].def matches ShapeDef::Struct(k, fs) && fs@ == fields && (k == StructKind::Tuple || (k
            == StructKind::TupleStruct && fs@.len() != 1)),
    ensures
        converges(g, id, ip) <==> all_fields_converge(g, fields, ip),
{
    law_marker_anywhere(g.shapes@[id].attributes@);
    let desc = description_of(g, id);
    let n = fields.len() as int;
    if let ShapeDef::Struct(kind, fs) = g.shapes@[id].def {
        if all_fields_converge(g, fields, ip) {
            let f = lemma_items_converge(g, fields, ip, n);
            assert(shape_model(g, id, ip, f + 1) == struct_model(g, id, fields, kind, desc, ip, f));
            assert(shape_model(g, id, ip, f + 1) is Some);
        }
        if converges(g, id, ip) {
            let f = depth_for(g, id, ip);
            assert(shape_model(g, id, ip, f) == struct_model(g, id, fields, kind, desc, ip, (f - 1) as nat));
            lemma_items_fields(g, fields, ip, (f - 1) as nat, n);
        }
    }
}


/// The types that describing variant `v` of the enum named `name` needs are
/// described: none for a unit variant; the field's type for a newtype
/// variant; the kept fields' types, with the enum in progress, for a variant
/// with named fields; every field's type for a tuple variant.
pub open spec fn variant_converges(g: ShapeGraph, ip: Seq<Seq<char>>, name: Seq<char>, v: Variant) -> bool {
    if v.kind == StructKind::Unit {
        true
    } else if v.kind == StructKind::TupleStruct && v.fields@.len() == 1 {
        converges(g, v.fields@[0].shape as int, ip)
    } else if v.kind == StructKind::Struct {
        kept_fields_converge(g, v.fields@, ip.push(name))
    } else {
        all_fields_converge(g, v.fields@, ip)
    }
}

/// A variant whose needed types are described is described at some depth.
proof fn lemma_variant_converge(g: ShapeGraph, sid: int, ip: Seq<Seq<char>>, v: Variant) -> (f: nat)
    requires
        variant_converges(g, ip, name_of(g, sid), v),
    ensures
        variant_model(g, sid, v, ip, f) is Some,
{
    let n = v.fields@.len() as int;
    if v.kind == StructKind::Unit {
        0
    } else if v.kind == StructKind::TupleStruct && n == 1 {
        depth_for(g, v.fields@[0].shape as int, ip)
    } else if v.kind == StructKind::Struct {
        lemma_props_converge(g, v.fields@, ip.push(name_of(g, sid)), n)
    } else {
        lemma_items_converge(g, v.fields@, ip, n)
    }
}

/// A variant described at some depth has its needed types described.
proof fn lemma_variant_needs(g: ShapeGraph, sid: int, ip: Seq<Seq<char>>, v: Variant, f: nat)
    requires
        variant_model(g, sid, v, ip, f) is Some,
    ensures
        variant_converges(g, ip, name_of(g, sid), v),
{
    let n = v.fields@.len() as int;
    if v.kind == StructKind::Unit {
    } else if v.kind == StructKind::TupleStruct && n == 1 {
        lemma_model_at(g, v.fields@[0].shape as int, ip, f);
    } else if v.kind == StructKind::Struct {
        lemma_props_fields(g, v.fields@, ip.push(name_of(g, sid)), f, n);
    } else {
        lemma_items_fields(g, v.fields@, ip, f, n);
    }
}

/// One depth describes the first `n` variants when each has its needed types
/// described.
proof fn lemma_variants_converge(g: ShapeGraph, sid: int, variants: Seq<Variant>, ip: Seq<Seq<char>>, n: int) -> (f: nat)
    requires
        0 <= n <= variants.len(),
        forall|i: int| 0 <= i < variants.len() ==> variant_converges(g, ip, name_of(g, sid), #[trigger] variants[i]),
    ensures
        variants_model(g, sid, variants, ip, f, n) is Some,
    decreases n,
{
    if n == 0 {
        0
    } else {
        let f0 = lemma_variants_converge(g, sid, variants, ip, n - 1);
        let v = variants[n - 1];
        let fv = lemma_variant_converge(g, sid, ip, v);
        let f = if f0 <= fv { fv } else { f0 };
        lemma_variants_depth(g, sid, variants, ip, f0, f, n - 1);
        lemma_variant_depth(g, sid, v, ip, fv, f);
        f
    }
}

/// The first `n` variants described at depth `f` have their needed types
/// described.
proof fn lemma_variants_needs(g: ShapeGraph, sid: int, variants: Seq<Variant>, ip: Seq<Seq<char>>, f: nat, n: int)
    requires
        0 <= n <= variants.len(),
        variants_model(g, sid, variants, ip, f, n) is Some,
    ensures
        forall|i: int| 0 <= i < n ==> variant_converges(g, ip, name_of(g, sid), #[trigger] variants[i]),
    decreases n,
{
    if n > 0 {
        lemma_variants_needs(g, sid, variants, ip, f, n - 1);
        lemma_variant_needs(g, sid, ip, variants[n - 1], f);
    }
}

/// An enum is described exactly when, for each of its variants, the types
/// that the variant's description needs are described.
pub proof fn law_enum_converges(g: ShapeGraph, id: int, ip: Seq<Seq<char>>, variants: Seq<Variant>)
    requires
        plain(g, id, ip),
        g.shapes@[id].def matches ShapeDef::Enum(vs) && vs@ == variants,
    ensures
        converges(g, id, ip) <==> forall|i: int|
            0 <= i < variants.len() ==> variant_converges(g, ip, g.shapes@[id].type_identifier@, #[trigger] variants[i]),
{
    law_marker_anywhere(g.shapes@[id].attributes@);
    let desc = description_of(g, id);
    let n = variants.len() as int;
    if all_unit(variants) {
        assert(shape_model(g, id, ip, 1) == enum_model(g, id, variants, desc, ip, 0));
        assert(shape_model(g, id, ip, 1) is Some);
        assert forall|i: int| 0 <= i < variants.len() implies variant_converges(
            g,
            ip,
            g.shapes@[id].type_identifier@,
            #[trigger] variants[i],
        ) by {
            assert(variants[i].kind == StructKind::Unit);
        }
    } else {
        if forall|i: int|
            0 <= i < variants.len() ==> variant_converges(g, ip, g.shapes@[id].type_identifier@, #[trigger] variants[i]) {
            let f = lemma_variants_converge(g, id, variants, ip, n);
            assert(shape_model(g, id, ip, f + 1) == enum_model(g, id, variants, desc, ip, f));
            assert(shape_model(g, id, ip, f + 1) is Some);
        }
        if converges(g, id, ip) {
            let f = depth_for(g, id, ip);
            assert(shape_model(g, id, ip, f) == enum_model(g, id, variants, desc, ip, (f - 1) as nat));
            lemma_variants_needs(g, id, variants, ip, (f - 1) as nat, n);
        }
    }
}

} // verus!
