//! Target shapes, and the typed values that a document is converted to.

use crate::number::{IntKind, JsonNumber, NumberModel};
use vstd::prelude::*;

verus! {

/// The shape of the value that a document is to be converted to.
#[derive(Debug, PartialEq)]
pub enum Shape {
    /// A boolean.
    Boolean,
    /// An integer of a fixed width.
    Integer(IntKind),
    /// A binary32 number.
    Float32,
    /// A binary64 number.
    Float64,
    /// A string.
    Text,
    /// A sequence of values of one shape.
    Sequence(Box<Shape>),
    /// A mapping from strings to values of one shape.
    Mapping(Box<Shape>),
    /// A record: named fields in their declared order, each with its shape.
    Record(Vec<(String, Shape)>),
    /// Whatever the document holds.
    Any,
}

/// The mathematical model of a shape.
pub enum ShapeModel {
    Boolean,
    Integer(IntKind),
    Float32,
    Float64,
    Text,
    Sequence(Box<ShapeModel>),
    Mapping(Box<ShapeModel>),
    Record(Seq<(Seq<char>, ShapeModel)>),
    Any,
}

/// The models of the fields of a record, in order.
pub open spec fn fields_view(fields: Seq<(String, Shape)>) -> Seq<(Seq<char>, ShapeModel)>
    decreases fields,
{
    Seq::new(
        fields.len(),
        |i: int|
            if 0 <= i < fields.len() {
                (fields[i].0@, fields[i].1@)
            } else {
                (Seq::empty(), ShapeModel::Any)
            },
    )
}

impl View for Shape {
    type V = ShapeModel;

    open spec fn view(&self) -> ShapeModel
        decreases self,
    {
        match self {
            Shape::Boolean => ShapeModel::Boolean,
            Shape::Integer(kind) => ShapeModel::Integer(*kind),
            Shape::Float32 => ShapeModel::Float32,
            Shape::Float64 => ShapeModel::Float64,
            Shape::Text => ShapeModel::Text,
            Shape::Sequence(item) => ShapeModel::Sequence(Box::new((**item).view())),
            Shape::Mapping(item) => ShapeModel::Mapping(Box::new((**item).view())),
            Shape::Record(fields) => ShapeModel::Record(fields_view(fields@)),
            Shape::Any => ShapeModel::Any,
        }
    }
}

/// A converted value.
#[derive(Debug, PartialEq)]
pub enum Typed {
    /// What a null converts to where any value is accepted.
    Unit,
    Bool(bool),
    U8(u8),
    U16(u16),
    U32(u32),
    U64(u64),
    I8(i8),
    I16(i16),
    I32(i32),
    I64(i64),
    /// A number for a binary32 target. The number is kept as the document
    /// gave it; narrowing it is left to the one who reads it.
    Float32(JsonNumber),
    /// A number for a binary64 target, kept as the document gave it.
    Float64(JsonNumber),
    Text(String),
    Sequence(Vec<Typed>),
    /// The entries of a mapping, in the stored order of the object.
    Mapping(Vec<(String, Typed)>),
    /// The fields of a record that the object held, in declared order.
    Record(Vec<(String, Typed)>),
}

/// The mathematical model of a converted value.
pub enum TypedModel {
    Unit,
    Bool(bool),
    U8(u8),
    U16(u16),
    U32(u32),
    U64(u64),
    I8(i8),
    I16(i16),
    I32(i32),
    I64(i64),
    Float32(NumberModel),
    Float64(NumberModel),
    Text(Seq<char>),
    Sequence(Seq<TypedModel>),
    Mapping(Seq<(Seq<char>, TypedModel)>),
    Record(Seq<(Seq<char>, TypedModel)>),
}

/// The models of a list of named values, in order.
pub open spec fn named_view(entries: Seq<(String, Typed)>) -> Seq<(Seq<char>, TypedModel)>
    decreases entries,
{
    Seq::new(
        entries.len(),
        |i: int|
            if 0 <= i < entries.len() {
                (entries[i].0@, entries[i].1@)
            } else {
                (Seq::empty(), TypedModel::Unit)
            },
    )
}

/// The models of a list of values, in order.
pub open spec fn items_view(items: Seq<Typed>) -> Seq<TypedModel>
    decreases items,
{
    Seq::new(
        items.len(),
        |i: int|
            if 0 <= i < items.len() {
                items[i]@
            } else {
                TypedModel::Unit
            },
    )
}

impl View for Typed {
    type V = TypedModel;

    open spec fn view(&self) -> TypedModel
        decreases self,
    {
        match self {
            Typed::Unit => TypedModel::Unit,
            Typed::Bool(b) => TypedModel::Bool(*b),
            Typed::U8(v) => TypedModel::U8(*v),
            Typed::U16(v) => TypedModel::U16(*v),
            Typed::U32(v) => TypedModel::U32(*v),
            Typed::U64(v) => TypedModel::U64(*v),
            Typed::I8(v) => TypedModel::I8(*v),
            Typed::I16(v) => TypedModel::I16(*v),
            Typed::I32(v) => TypedModel::I32(*v),
            Typed::I64(v) => TypedModel::I64(*v),
            Typed::Float32(n) => TypedModel::Float32(n@),
            Typed::Float64(n) => TypedModel::Float64(n@),
            Typed::Text(s) => TypedModel::Text(s@),
            Typed::Sequence(items) => TypedModel::Sequence(items_view(items@)),
            Typed::Mapping(entries) => TypedModel::Mapping(named_view(entries@)),
            Typed::Record(fields) => TypedModel::Record(named_view(fields@)),
        }
    }
}

/// The view of an optional converted value.
pub open spec fn typed_view(value: Option<Typed>) -> Option<TypedModel> {
    match value {
        Some(v) => Some(v@),
        None => None,
    }
}

/// The model of an integer of the given type. `v` lies between the bounds
/// of the type.
pub open spec fn typed_integer(kind: IntKind, v: int) -> TypedModel {
    match kind {
        IntKind::U8 => TypedModel::U8(v as u8),
        IntKind::U16 => TypedModel::U16(v as u16),
        IntKind::U32 => TypedModel::U32(v as u32),
        IntKind::U64 => TypedModel::U64(v as u64),
        IntKind::I8 => TypedModel::I8(v as i8),
        IntKind::I16 => TypedModel::I16(v as i16),
        IntKind::I32 => TypedModel::I32(v as i32),
        IntKind::I64 => TypedModel::I64(v as i64),
    }
}

/// The integer `v` as a value of the given type.
pub fn integer_value(kind: &IntKind, v: i128) -> (t: Typed)
    requires
        kind.min() <= v <= kind.max(),
    ensures
        t@ == typed_integer(*kind, v as int),
{
    match kind {
        IntKind::U8 => Typed::U8(v as u8),
        IntKind::U16 => Typed::U16(v as u16),
        IntKind::U32 => Typed::U32(v as u32),
        IntKind::U64 => Typed::U64(v as u64),
        IntKind::I8 => Typed::I8(v as i8),
        IntKind::I16 => Typed::I16(v as i16),
        IntKind::I32 => Typed::I32(v as i32),
        IntKind::I64 => Typed::I64(v as i64),
    }
}

} // verus!
