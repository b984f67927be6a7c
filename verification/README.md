# facet_json_schema

JSON Schema generation from type shapes, verified with Verus.

- `src/shape.rs` — `ShapeGraph`: the shapes of a type and of the types it
  mentions, as plain values that refer to each other by index.
- `src/schema.rs` — `JsonSchema` and its mathematical model `SchemaModel`,
  with the relation `JsonSchema::represents`.
- `src/model.rs` — the model of generation: the schema of each shape, with
  the recursion depth made explicit so that non-terminating descriptions
  have no schema.
- `src/generate.rs` — `schema_for`, verified to produce the model's schema.
- `src/text.rs` — doc-comment descriptions (join and trim) and string tests.
- `src/laws.rs` — laws of generation proved over the model.
- `app/lib.rs` — the facet front end: reads a `Facet` type's shape into a
  `ShapeGraph`, converts schemas to a facet-serializable copy and prints
  them with facet-json.
