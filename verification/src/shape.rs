//! Descriptions of Rust types, as plain values, from which schemas are made.
//!
//! A [`ShapeGraph`] holds the shapes of a type and of every type it mentions;
//! shapes refer to one another by their index in the graph, so recursive
//! types are graphs with cycles.
use vstd::prelude::*;

verus! {

/// The kind of a struct or of an enum variant.
#[derive(Debug, Clone, Copy, PartialEq, Eq, Structural)]
pub enum StructKind {
    /// No fields: `struct S;`
    Unit,
    /// Unnamed fields: `struct S(A, B);`
    TupleStruct,
    /// Named fields: `struct S { a: A }`
    Struct,
    /// A tuple type: `(A, B)`
    Tuple,
}

/// An attribute attached to a type, with its namespace if it has one.
pub struct ShapeAttr {
    pub ns: Option<String>,
    pub key: String,
}

/// A field of a struct or of an enum variant.
pub struct Field {
    /// The name the field has when serialized (after any renaming).
    pub name: String,
    /// The index of the field's shape in the graph.
    pub shape: usize,
    /// The field's doc-comment lines.
    pub doc: Vec<String>,
    /// The field is skipped when serializing.
    pub skip: bool,
    /// The field has a default value.
    pub has_default: bool,
}

/// A variant of an enum.
pub struct Variant {
    /// The name the variant has when serialized (after any renaming).
    pub name: String,
    pub kind: StructKind,
    pub fields: Vec<Field>,
}

/// What a shape is made of.
pub enum ShapeDef {
    /// A scalar such as an integer, a boolean or a string.
    Scalar,
    /// `Option<T>`, with the shape of `T`.
    OptionOf(usize),
    /// A variable-length list of the given shape.
    ListOf(usize),
    /// A fixed-size array of the given shape.
    ArrayOf(usize),
    /// A set of the given shape.
    SetOf(usize),
    /// A map whose values have the given shape.
    MapOf(usize),
    /// A user-defined struct.
    Struct(StructKind, Vec<Field>),
    /// A user-defined enum.
    Enum(Vec<Variant>),
    /// Anything else (pointers, results, opaque types...).
    Other,
}

/// The description of one type.
pub struct Shape {
    /// The type's name without generic parameters.
    pub type_identifier: String,
    /// The type's doc-comment lines.
    pub doc: Vec<String>,
    /// The attributes applied to the type.
    pub attributes: Vec<ShapeAttr>,
    pub def: ShapeDef,
    /// The shape this one transparently wraps, if any.
    pub inner: Option<usize>,
}

/// The shapes of a type and of the types it refers to; `root` is the
/// index of the type itself.
pub struct ShapeGraph {
    pub shapes: Vec<Shape>,
    pub root: usize,
}

/// Every field refers to a shape below `n`.
pub open spec fn fields_within(fields: Seq<Field>, n: int) -> bool {
    forall|i: int| 0 <= i < fields.len() ==> #[trigger] fields[i].shape < n
}

/// Every shape that `s` refers to lies below `n`.
pub open spec fn shape_within(s: Shape, n: int) -> bool {
    &&& (s.inner matches Some(j) ==> j < n)
    &&& match s.def {
        ShapeDef::OptionOf(t) => t < n,
        ShapeDef::ListOf(t) => t < n,
        ShapeDef::ArrayOf(t) => t < n,
        ShapeDef::SetOf(t) => t < n,
        ShapeDef::MapOf(t) => t < n,
        ShapeDef::Struct(_, fields) => fields_within(fields@, n),
        ShapeDef::Enum(variants) => forall|i: int|
            0 <= i < variants@.len() ==> fields_within(#[trigger] variants@[i].fields@, n),
        _ => true,
    }
}

impl ShapeGraph {
    /// Every index in the graph refers to a shape of the graph.
    pub open spec fn well_formed(self) -> bool {
        &&& self.root < self.shapes@.len()
        &&& forall|i: int|
            0 <= i < self.shapes@.len() ==> shape_within(#[trigger] self.shapes@[i], self.shapes@.len() as int)
    }
}

} // verus!
