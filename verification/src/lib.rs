//! JSON Schema generation from type shape descriptions.
//!
//! A type is described by a `ShapeGraph`: a set of shapes that refer to one
//! another by index, with one of them as the root. `schema_for` turns such a
//! description into a `JsonSchema`. Every function here is verified against
//! a mathematical model of the schema it produces (`SchemaModel`).
pub mod schema;
pub mod shape;
pub mod text;
pub mod model;
mod generate;
pub mod laws;
pub use generate::schema_for;

pub use schema::{AdditionalProperties, JsonSchema, SchemaType, SchemaTypes};
pub use shape::{Field, Shape, ShapeAttr, ShapeDef, ShapeGraph, StructKind, Variant};
