//! Schema generation.
use std::collections::BTreeMap;
use vstd::prelude::*;
use crate::model::{
    all_unit, depth_for, enum_model, field_required, has_unconstrained_attr, is_unconstrained_attr,
    items_described, name_of, null_model, one_type, opt_text, props_model, scalar_model,
    shape_model, struct_model, tagged_model, variant_model, variant_names, variants_model,
};
use crate::schema::{
    AdditionalProperties, JsonSchema, SchemaModel, SchemaType, SchemaTypes, empty_model,
    insert_property, lemma_empty_holds, lemma_insert_holds, lemma_seq_push, map_holds, seq_holds,
    strings_are,
};
use crate::shape::{Field, Shape, ShapeAttr, ShapeDef, ShapeGraph, StructKind, Variant, fields_within, shape_within};
use crate::text::{contains_text, doc_description, is_text, texts};

verus! {

/// Whether one of the attributes, at any position, is
/// `facet_json_schema::unconstrained_string`.
fn has_unconstrained(attrs: &Vec<ShapeAttr>) -> (r: bool)
    ensures
        r == has_unconstrained_attr(attrs@),
        r == exists|i: int|
            0 <= i < attrs@.len() && (#[trigger] attrs@[i].ns matches Some(n) && n@ == "facet_json_schema"@)
                && attrs@[i].key@ == "unconstrained_string"@,
{
    let mut i: usize = 0;
    while i < attrs.len()
        invariant
            i <= attrs.len(),
            forall|j: int| 0 <= j < i ==> !is_unconstrained_attr(#[trigger] attrs@[j]),
        decreases attrs.len() - i,
    {
        let attr = &attrs[i];
        let ns_matches = match &attr.ns {
            Some(ns) => is_text(ns, "facet_json_schema"),
            None => false,
        };
        if ns_matches && is_text(&attr.key, "unconstrained_string") {
            proof {
                assert(is_unconstrained_attr(attrs@[i as int]));
            }
            return true;
        }
        i = i + 1;
    }
    false
}

/// The context of one schema generation: the definitions collected so far
/// and the names of the types being described, outermost first.
struct SchemaContext {
    defs: BTreeMap<String, JsonSchema>,
    in_progress: Vec<String>,
}

/// The schema with only a `type`.
fn typed(t: SchemaType) -> (r: JsonSchema)
    ensures
        r.represents(SchemaModel { type_: one_type(t), ..empty_model() }),
{
    JsonSchema { type_: Some(SchemaTypes::from(t)), ..JsonSchema::new() }
}

impl SchemaContext {
    /// The names in progress, as characters.
    spec fn names(self) -> Seq<Seq<char>> {
        texts(self.in_progress@)
    }

    fn new() -> (c: Self)
        ensures
            c.defs@ == Map::<String, JsonSchema>::empty(),
            c.in_progress@ == Seq::<String>::empty(),
    {
        SchemaContext { defs: BTreeMap::new(), in_progress: Vec::new() }
    }

    fn schema_for_scalar(&self, shape: &Shape, description: Option<String>) -> (r: JsonSchema)
        ensures
            r.represents(scalar_model(shape.type_identifier@, opt_text(description))),
    {
        let ident = &shape.type_identifier;
        // Map common Rust types to JSON Schema types
        let (type_, minimum, maximum): (Option<SchemaTypes>, Option<i64>, Option<i64>) =
            if is_text(ident, "String") || is_text(ident, "str") || is_text(ident, "&str")
            || is_text(ident, "Cow") {
            (Some(SchemaTypes::from(SchemaType::String)), None, None)
        } else if is_text(ident, "bool") {
            (Some(SchemaTypes::from(SchemaType::Boolean)), None, None)
        } else if is_text(ident, "u8") || is_text(ident, "u16") || is_text(ident, "u32")
            || is_text(ident, "u64") || is_text(ident, "u128") || is_text(ident, "usize") {
            (Some(SchemaTypes::from(SchemaType::Integer)), Some(0), None)
        } else if is_text(ident, "i8") {
            (Some(SchemaTypes::from(SchemaType::Integer)), Some(i8::MIN as i64), None)
        } else if is_text(ident, "i16") {
            (Some(SchemaTypes::from(SchemaType::Integer)), Some(i16::MIN as i64), None)
        } else if is_text(ident, "i32") {
            (Some(SchemaTypes::from(SchemaType::Integer)), Some(i32::MIN as i64), None)
        } else if is_text(ident, "i64") || is_text(ident, "i128") || is_text(ident, "isize") {
            (Some(SchemaTypes::from(SchemaType::Integer)), Some(i64::MIN), None)
        } else if is_text(ident, "f32") || is_text(ident, "f64") {
            (Some(SchemaTypes::from(SchemaType::Number)), None, None)
        } else if is_text(ident, "char") {
            (Some(SchemaTypes::from(SchemaType::String)), None, None)
        } else {
            (None, None, None)
        };
        JsonSchema { type_, minimum, maximum, description, ..JsonSchema::new() }
    }

    fn schema_for_shape(&mut self, g: &ShapeGraph, id: usize, Ghost(f): Ghost<nat>) -> (r: JsonSchema)
        requires
            g.well_formed(),
            id < g.shapes@.len(),
            shape_model(*g, id as int, old(self).names(), f) is Some,
        ensures
            final(self).in_progress@ == old(self).in_progress@,
            final(self).defs == old(self).defs,
            r.represents(shape_model(*g, id as int, old(self).names(), f).unwrap()),
        decreases f, 0int, 0int,
    {
        let ghost ip = self.names();
        let shape = &g.shapes[id];
        proof {
            assert(shape_within(*shape, g.shapes@.len() as int));
        }
        // A type already being described is referred to, not described again
        if contains_text(&self.in_progress, &shape.type_identifier) {
            let mut path = "#/$defs/".to_string();
            path.append(shape.type_identifier.as_str());
            return JsonSchema::reference(path.as_str());
        }
        let description = doc_description(&shape.doc);
        if has_unconstrained(&shape.attributes) {
            return JsonSchema {
                type_: Some(SchemaTypes::from(SchemaType::String)),
                description,
                title: Some(shape.type_identifier.clone()),
                ..JsonSchema::new()
            };
        }
        match &shape.def {
            ShapeDef::Scalar => self.schema_for_scalar(shape, description),
            ShapeDef::OptionOf(t) => {
                // Option<T> becomes anyOf: [schema(T), {type: "null"}]
                let inner_schema = self.schema_for_shape(g, *t, Ghost((f - 1) as nat));
                let null_schema = typed(SchemaType::Null);
                let ghost im = shape_model(*g, *t as int, ip, (f - 1) as nat).unwrap();
                let any_of = vec![inner_schema, null_schema];
                proof {
                    lemma_seq_push(seq![], seq![], inner_schema, im);
                    assert(Seq::<JsonSchema>::empty().push(inner_schema) =~= seq![inner_schema]);
                    assert(Seq::<SchemaModel>::empty().push(im) =~= seq![im]);
                    lemma_seq_push(seq![inner_schema], seq![im], null_schema, null_model());
                    assert(seq![inner_schema].push(null_schema) =~= any_of@);
                    assert(seq![im].push(null_model()) =~= seq![im, null_model()]);
                }
                JsonSchema { any_of: Some(any_of), description, ..JsonSchema::new() }
            },
            ShapeDef::ListOf(t) => JsonSchema {
                type_: Some(SchemaTypes::from(SchemaType::Array)),
                items: Some(Box::new(self.schema_for_shape(g, *t, Ghost((f - 1) as nat)))),
                description,
                ..JsonSchema::new()
            },
            ShapeDef::ArrayOf(t) => JsonSchema {
                type_: Some(SchemaTypes::from(SchemaType::Array)),
                items: Some(Box::new(self.schema_for_shape(g, *t, Ghost((f - 1) as nat)))),
                description,
                ..JsonSchema::new()
            },
            ShapeDef::SetOf(t) => JsonSchema {
                type_: Some(SchemaTypes::from(SchemaType::Array)),
                items: Some(Box::new(self.schema_for_shape(g, *t, Ghost((f - 1) as nat)))),
                description,
                ..JsonSchema::new()
            },
            ShapeDef::MapOf(t) => {
                // Maps become objects with additionalProperties
                JsonSchema {
                    type_: Some(SchemaTypes::from(SchemaType::Object)),
                    additional_properties: Some(
                        AdditionalProperties::Schema(
                            Box::new(self.schema_for_shape(g, *t, Ghost((f - 1) as nat))),
                        ),
                    ),
                    description,
                    ..JsonSchema::new()
                }
            },
            ShapeDef::Struct(kind, fields) => self.schema_for_struct(
                g,
                id,
                fields,
                *kind,
                description,
                Ghost((f - 1) as nat),
            ),
            ShapeDef::Enum(variants) => self.schema_for_enum(
                g,
                id,
                variants,
                description,
                Ghost((f - 1) as nat),
            ),
            ShapeDef::Other => {
                // A transparent wrapper is described as what it wraps
                match shape.inner {
                    Some(inner) => self.schema_for_shape(g, inner, Ghost((f - 1) as nat)),
                    None => JsonSchema { description, ..JsonSchema::new() },
                }
            },
        }
    }

    fn schema_for_struct(
        &mut self,
        g: &ShapeGraph,
        sid: usize,
        fields: &Vec<Field>,
        kind: StructKind,
        description: Option<String>,
        Ghost(f): Ghost<nat>,
    ) -> (r: JsonSchema)
        requires
            g.well_formed(),
            sid < g.shapes@.len(),
            fields_within(fields@, g.shapes@.len() as int),
            struct_model(*g, sid as int, fields@, kind, opt_text(description), old(self).names(), f) is Some,
        ensures
            final(self).in_progress@ == old(self).in_progress@,
            final(self).defs == old(self).defs,
            r.represents(
                struct_model(*g, sid as int, fields@, kind, opt_text(description), old(self).names(), f).unwrap(),
            ),
        decreases f, 2int, 0int,
    {
        let ghost ip = self.names();
        let ghost old_in_progress = self.in_progress@;
        let ghost n = g.shapes@.len() as int;
        match kind {
            StructKind::Unit => {
                // Unit struct serializes as null
                JsonSchema {
                    type_: Some(SchemaTypes::from(SchemaType::Null)),
                    description,
                    ..JsonSchema::new()
                }
            },
            StructKind::TupleStruct if fields.len() == 1 => {
                // Newtype - described as the inner type
                self.schema_for_shape(g, fields[0].shape, Ghost(f))
            },
            StructKind::Struct => {
                // Mark as in progress for cycle detection
                let ghost ip2 = ip.push(name_of(*g, sid as int));
                self.in_progress.push(g.shapes[sid].type_identifier.clone());
                proof {
                    assert(self.names() =~= ip2);
                }
                let mut properties: BTreeMap<String, JsonSchema> = BTreeMap::new();
                let mut required: Vec<String> = Vec::new();
                let ghost mut pm = Map::<Seq<char>, SchemaModel>::empty();
                let ghost mut rm = Seq::<Seq<char>>::empty();
                proof {
                    lemma_empty_holds(properties);
                }
                let mut i: usize = 0;
                while i < fields.len()
                    invariant
                        i <= fields.len(),
                        g.well_formed(),
                        n == g.shapes@.len(),
                        sid < n,
                        fields_within(fields@, n),
                        self.names() == ip2,
                        self.in_progress@ == old_in_progress.push(g.shapes@[sid as int].type_identifier),
                        self.defs == old(self).defs,
                        props_model(*g, fields@, ip2, f, fields.len() as int) is Some,
                        props_model(*g, fields@, ip2, f, i as int) == Some((pm, rm)),
                        map_holds(properties, pm),
                        strings_are(required, rm),
                    decreases fields.len() - i,
                {
                    proof {
                        lemma_props_prefix(*g, fields@, ip2, f, i + 1, fields.len() as int);
                    }
                    let field = &fields[i];
                    // Skip fields marked with skip
                    if !field.skip {
                        proof {
                            assert(field.shape < n);
                        }
                        let mut field_schema = self.schema_for_shape(g, field.shape, Ghost(f));
                        let ghost fs = shape_model(*g, field.shape as int, ip2, f).unwrap();
                        // Use field-level doc comments instead of type-level
                        let field_description = doc_description(&field.doc);
                        if field.doc.len() != 0 || !has_unconstrained(&g.shapes[field.shape].attributes) {
                            field_schema.description = field_description;
                        }
                        let ghost fs2 = crate::model::field_schema(*g, *field, fs);
                        // A field is required when it is not an Option and has no default
                        let is_option = match &g.shapes[field.shape].def {
                            ShapeDef::OptionOf(_) => true,
                            _ => false,
                        };
                        let has_default = field.has_default;
                        if !is_option && !has_default {
                            required.push(field.name.clone());
                        }
                        let ghost old_props = properties;
                        insert_property(&mut properties, field.name.clone(), field_schema);
                        proof {
                            lemma_insert_holds(old_props, properties, field.name, field_schema, pm, fs2);
                            pm = pm.insert(field.name@, fs2);
                            if field_required(*g, *field) {
                                rm = rm.push(field.name@);
                            }
                        }
                    }
                    i = i + 1;
                }
                self.in_progress.pop();
                proof {
                    assert(self.in_progress@ =~= old_in_progress);
                }
                JsonSchema {
                    type_: Some(SchemaTypes::from(SchemaType::Object)),
                    properties: Some(properties),
                    required: if required.len() == 0 {
                        None
                    } else {
                        Some(required)
                    },
                    additional_properties: Some(AdditionalProperties::Bool(false)),
                    description,
                    title: Some(g.shapes[sid].type_identifier.clone()),
                    ..JsonSchema::new()
                }
            },
            _ => {
                // Tuple struct or tuple as array; the items are described but not kept
                let mut items: Vec<JsonSchema> = Vec::new();
                let mut i: usize = 0;
                while i < fields.len()
                    invariant
                        i <= fields.len(),
                        g.well_formed(),
                        n == g.shapes@.len(),
                        fields_within(fields@, n),
                        self.names() == ip,
                        self.in_progress@ == old_in_progress,
                        self.defs == old(self).defs,
                        items_described(*g, fields@, ip, f, fields.len() as int),
                    decreases fields.len() - i,
                {
                    proof {
                        assert(fields@[i as int].shape < n);
                        lemma_items_prefix(*g, fields@, ip, f, i + 1, fields.len() as int);
                    }
                    let item = self.schema_for_shape(g, fields[i].shape, Ghost(f));
                    items.push(item);
                    i = i + 1;
                }
                JsonSchema {
                    type_: Some(SchemaTypes::from(SchemaType::Array)),
                    description,
                    ..JsonSchema::new()
                }
            },
        }
    }

    /// The object schema of a data-carrying variant: the variant's name as
    /// its one, required property.
    fn variant_object(variant_name: String, inner: JsonSchema, Ghost(m): Ghost<SchemaModel>) -> (r: JsonSchema)
        requires
            inner.represents(m),
        ensures
            r.represents(tagged_model(variant_name@, m)),
    {
        let mut props: BTreeMap<String, JsonSchema> = BTreeMap::new();
        let ghost empty = props;
        proof {
            lemma_empty_holds(props);
        }
        insert_property(&mut props, variant_name.clone(), inner);
        proof {
            lemma_insert_holds(empty, props, variant_name, inner, Map::empty(), m);
        }
        let required = vec![variant_name];
        proof {
            assert(required@ =~= seq![variant_name]);
        }
        JsonSchema {
            type_: Some(SchemaTypes::from(SchemaType::Object)),
            properties: Some(props),
            required: Some(required),
            additional_properties: Some(AdditionalProperties::Bool(false)),
            ..JsonSchema::new()
        }
    }

    /// The schema of one variant of enum `sid`.
    fn schema_for_variant(&mut self, g: &ShapeGraph, sid: usize, v: &Variant, Ghost(f): Ghost<nat>) -> (r: JsonSchema)
        requires
            g.well_formed(),
            sid < g.shapes@.len(),
            fields_within(v.fields@, g.shapes@.len() as int),
            variant_model(*g, sid as int, *v, old(self).names(), f) is Some,
        ensures
            final(self).in_progress@ == old(self).in_progress@,
            final(self).defs == old(self).defs,
            r.represents(variant_model(*g, sid as int, *v, old(self).names(), f).unwrap()),
        decreases f, 3int, 0int,
    {
        let ghost ip = self.names();
        let variant_name = v.name.clone();
        match v.kind {
            StructKind::Unit => {
                // Unit variant: just its name
                JsonSchema { const_: Some(variant_name), ..JsonSchema::new() }
            },
            StructKind::TupleStruct if v.fields.len() == 1 => {
                // Newtype variant: { "VariantName": <inner> }
                let inner = self.schema_for_shape(g, v.fields[0].shape, Ghost(f));
                Self::variant_object(
                    variant_name,
                    inner,
                    Ghost(shape_model(*g, v.fields@[0].shape as int, ip, f).unwrap()),
                )
            },
            _ => {
                // Struct variant: { "VariantName": { ...fields } }
                let inner = self.schema_for_struct(g, sid, &v.fields, v.kind, None, Ghost(f));
                Self::variant_object(
                    variant_name,
                    inner,
                    Ghost(struct_model(*g, sid as int, v.fields@, v.kind, None, ip, f).unwrap()),
                )
            },
        }
    }

    fn schema_for_enum(
        &mut self,
        g: &ShapeGraph,
        sid: usize,
        variants: &Vec<Variant>,
        description: Option<String>,
        Ghost(f): Ghost<nat>,
    ) -> (r: JsonSchema)
        requires
            g.well_formed(),
            sid < g.shapes@.len(),
            forall|i: int|
                0 <= i < variants@.len() ==> fields_within(#[trigger] variants@[i].fields@, g.shapes@.len() as int),
            enum_model(*g, sid as int, variants@, opt_text(description), old(self).names(), f) is Some,
        ensures
            final(self).in_progress@ == old(self).in_progress@,
            final(self).defs == old(self).defs,
            r.represents(
                enum_model(*g, sid as int, variants@, opt_text(description), old(self).names(), f).unwrap(),
            ),
        decreases f, 4int, 0int,
    {
        let ghost ip = self.names();
        let ghost old_in_progress = self.in_progress@;
        let ghost n = g.shapes@.len() as int;
        // Check if all variants are unit variants (simple string enum)
        let mut all_unit_variants = true;
        let mut i: usize = 0;
        while i < variants.len()
            invariant
                i <= variants.len(),
                all_unit_variants == forall|j: int| 0 <= j < i ==> #[trigger] variants@[j].kind == StructKind::Unit,
            decreases variants.len() - i,
        {
            if variants[i].kind != StructKind::Unit {
                all_unit_variants = false;
            }
            i = i + 1;
        }
        proof {
            assert(all_unit_variants == all_unit(variants@));
        }
        if all_unit_variants {
            // Simple string enum
            let mut values: Vec<String> = Vec::new();
            let mut i: usize = 0;
            while i < variants.len()
                invariant
                    i <= variants.len(),
                    strings_are(values, variant_names(variants@).take(i as int)),
                decreases variants.len() - i,
            {
                values.push(variants[i].name.clone());
                i = i + 1;
            }
            proof {
                assert(variant_names(variants@).take(variants@.len() as int) =~= variant_names(variants@));
            }
            JsonSchema {
                type_: Some(SchemaTypes::from(SchemaType::String)),
                enum_: Some(values),
                description,
                title: Some(g.shapes[sid].type_identifier.clone()),
                ..JsonSchema::new()
            }
        } else {
            // Complex enum - use oneOf, one object per variant
            let mut one_of: Vec<JsonSchema> = Vec::new();
            let ghost mut done = Seq::<SchemaModel>::empty();
            let mut i: usize = 0;
            while i < variants.len()
                invariant
                    i <= variants.len(),
                    g.well_formed(),
                    n == g.shapes@.len(),
                    sid < n,
                    forall|j: int|
                        0 <= j < variants@.len() ==> fields_within(#[trigger] variants@[j].fields@, n),
                    self.names() == ip,
                    self.in_progress@ == old_in_progress,
                    self.defs == old(self).defs,
                    variants_model(*g, sid as int, variants@, ip, f, variants@.len() as int) is Some,
                    variants_model(*g, sid as int, variants@, ip, f, i as int) == Some(done),
                    done.len() == i,
                    seq_holds(one_of@, done),
                decreases variants.len() - i,
            {
                let v = &variants[i];
                proof {
                    assert(fields_within(v.fields@, n));
                    lemma_variants_prefix(*g, sid as int, variants@, ip, f, i + 1, variants@.len() as int);
                }
                let schema = self.schema_for_variant(g, sid, v, Ghost(f));
                let ghost old_one_of = one_of@;
                one_of.push(schema);
                proof {
                    let vm = variant_model(*g, sid as int, variants@[i as int], ip, f).unwrap();
                    lemma_seq_push(old_one_of, done, schema, vm);
                    done = done.push(vm);
                    assert(variants_model(*g, sid as int, variants@, ip, f, i + 1) == Some(done));
                }
                i = i + 1;
            }
            JsonSchema {
                one_of: Some(one_of),
                description,
                title: Some(g.shapes[sid].type_identifier.clone()),
                ..JsonSchema::new()
            }
        }
    }
}

/// Generate a JSON Schema from a type's shape.
///
/// The shapes must all refer to shapes of the graph, and describing the
/// root must end: every cycle of the graph must pass through a struct with
/// named fields (whose name is then in progress and referred to by `$ref`).
pub fn schema_for(shape: &ShapeGraph) -> (r: JsonSchema)
    requires
        shape.well_formed(),
        shape.terminates(),
    ensures
        r.represents(shape.model()),
{
    let mut ctx = SchemaContext::new();
    proof {
        assert(ctx.names() =~= seq![]);
    }
    let schema = ctx.schema_for_shape(
        shape,
        shape.root,
        Ghost(depth_for(*shape, shape.root as int, seq![])),
    );
    // If we collected any definitions, add them to the root
    if ctx.defs.is_empty() {
        schema
    } else {
        JsonSchema {
            schema: Some("https://json-schema.org/draft/2020-12/schema".to_string()),
            defs: Some(ctx.defs),
            ..schema
        }
    }
}

/// The items of a prefix of the fields can be described when all can.
proof fn lemma_items_prefix(g: ShapeGraph, fields: Seq<Field>, ip: Seq<Seq<char>>, f: nat, m: int, n: int)
    requires
        0 <= m <= n,
        items_described(g, fields, ip, f, n),
    ensures
        items_described(g, fields, ip, f, m),
    decreases n - m,
{
    if m < n {
        lemma_items_prefix(g, fields, ip, f, m, n - 1);
    }
}

/// The schemas of a prefix of the variants are known when those of all are.
proof fn lemma_variants_prefix(
    g: ShapeGraph,
    sid: int,
    variants: Seq<Variant>,
    ip: Seq<Seq<char>>,
    f: nat,
    m: int,
    n: int,
)
    requires
        0 <= m <= n,
        variants_model(g, sid, variants, ip, f, n) is Some,
    ensures
        variants_model(g, sid, variants, ip, f, m) is Some,
    decreases n - m,
{
    if m < n {
        lemma_variants_prefix(g, sid, variants, ip, f, m, n - 1);
    }
}

/// The properties of a prefix of the fields are known when those of all
/// the fields are.
proof fn lemma_props_prefix(g: ShapeGraph, fields: Seq<Field>, ip: Seq<Seq<char>>, f: nat, m: int, n: int)
    requires
        0 <= m <= n,
        props_model(g, fields, ip, f, n) is Some,
    ensures
        props_model(g, fields, ip, f, m) is Some,
    decreases n - m,
{
    if m < n {
        lemma_props_prefix(g, fields, ip, f, m, n - 1);
    }
}

} // verus!
