//! What the engine computes, as a function: from a JSON value, a target
//! shape and the path to the value, to the converted value and the list of
//! every failure found on the way.
//!
//! A value that does not match is replaced by a placeholder, so that the
//! walk goes on into its siblings. Only a value that was meant to be an
//! array or an object and is neither has no converted value at all.

use crate::collector::{name_at, pointer_of};
use crate::json::JsonModel;
use crate::number::{read_integer, written, zero_number, IntKind, NumberModel};
use crate::problem::{ExpectedOrActualView, InvalidParamView};
use crate::shape::{typed_integer, ShapeModel, TypedModel};
use crate::text::decimal;
use vstd::prelude::*;

verus! {

/// The name of the kind of a JSON value.
pub open spec fn kind_name(node: JsonModel) -> Seq<char> {
    match node {
        JsonModel::Null => "null"@,
        JsonModel::Bool(_) => "boolean"@,
        JsonModel::Number(n) => if n is Float {
            "number"@
        } else {
            "integer"@
        },
        JsonModel::Text(_) => "string"@,
        JsonModel::Array(_) => "array"@,
        JsonModel::Object(_) => "object"@,
    }
}

/// The failure recorded at `path` for a value of the wrong kind: the
/// target type is `target`, which takes a value of the kind `expected`,
/// and `node` is what the document holds.
pub open spec fn type_mismatch(
    path: Seq<Seq<char>>,
    target: Seq<char>,
    expected: Seq<char>,
    node: JsonModel,
) -> InvalidParamView {
    InvalidParamView {
        name: name_at(path),
        reason: Some("Expected "@ + expected + ", got "@ + kind_name(node)),
        expected: ExpectedOrActualView { ty: target, format: expected },
        actual: ExpectedOrActualView { ty: kind_name(node), format: kind_name(node) },
        pointer: pointer_of(path),
    }
}

/// The bounds of an integer type, as they are written in a failure.
pub open spec fn bounds_text(kind: IntKind) -> Seq<char> {
    decimal(kind.min()) + " to "@ + decimal(kind.max())
}

/// The failure recorded at `path` for a number that is no integer of the
/// type `kind`. `named` is what the failure calls the number.
pub open spec fn out_of_range(
    path: Seq<Seq<char>>,
    kind: IntKind,
    named: Seq<char>,
) -> InvalidParamView {
    InvalidParamView {
        name: name_at(path),
        reason: Some(
            "Value "@ + named + " is out of range for type "@ + kind.name()
                + ". Expected range: "@ + bounds_text(kind),
        ),
        expected: ExpectedOrActualView {
            ty: kind.name(),
            format: "integer in range "@ + bounds_text(kind),
        },
        actual: ExpectedOrActualView { ty: "integer"@, format: named },
        pointer: pointer_of(path),
    }
}

/// The failure recorded for a field that a record asks for and the object
/// does not hold. `path` is the path of the object.
pub open spec fn missing_field(path: Seq<Seq<char>>, field: Seq<char>) -> InvalidParamView {
    InvalidParamView {
        name: field,
        reason: Some("missing required field"@),
        expected: ExpectedOrActualView { ty: "required"@, format: "field"@ },
        actual: ExpectedOrActualView { ty: "missing"@, format: "undefined"@ },
        pointer: pointer_of(path),
    }
}

/// The position of the first member at or after `from` with the key `name`,
/// or the number of members if there is none.
pub open spec fn position_from(
    members: Seq<(Seq<char>, JsonModel)>,
    name: Seq<char>,
    from: nat,
) -> nat
    decreases members.len() - from,
{
    if from >= members.len() {
        members.len()
    } else if members[from as int].0 == name {
        from
    } else {
        position_from(members, name, from + 1)
    }
}

/// The position of the first member with the key `name`, or the number of
/// members if the object holds no such member.
pub open spec fn position_of(members: Seq<(Seq<char>, JsonModel)>, name: Seq<char>) -> nat {
    position_from(members, name, 0)
}

/// The object holds a member with the key `name`.
pub open spec fn holds_key(members: Seq<(Seq<char>, JsonModel)>, name: Seq<char>) -> bool {
    position_of(members, name) < members.len()
}

/// A converted value and the failures found while converting it.
pub struct Decoded {
    /// The converted value, with placeholders where values did not match;
    /// `None` where the walk had to give the value up.
    pub value: Option<TypedModel>,
    /// The failures, in the order in which they were found.
    pub errors: Seq<InvalidParamView>,
}

/// The converted elements of an array, or of a part of it.
pub struct DecodedItems {
    /// The values of the elements that have one, in order.
    pub values: Seq<TypedModel>,
    /// Every element has a value.
    pub complete: bool,
    /// The failures found in the elements, in order.
    pub errors: Seq<InvalidParamView>,
}

/// The converted members of an object, or of a part of it.
pub struct DecodedEntries {
    /// The named values of the members that have one, in order.
    pub values: Seq<(Seq<char>, TypedModel)>,
    /// Every member that was looked at has a value.
    pub complete: bool,
    /// The failures found in the members, in order.
    pub errors: Seq<InvalidParamView>,
}

/// What a number converts to where any value is accepted.
pub open spec fn any_number(n: NumberModel) -> TypedModel {
    match n {
        NumberModel::PosInt(u) => if u <= i64::MAX {
            TypedModel::I64(u as i64)
        } else {
            TypedModel::U64(u)
        },
        NumberModel::NegInt(i) => TypedModel::I64(i),
        NumberModel::Float(_, _) => TypedModel::Float64(n),
    }
}

/// A value that matched, or its placeholder with one failure.
pub open spec fn leaf(value: TypedModel, errors: Seq<InvalidParamView>) -> Decoded {
    Decoded { value: Some(value), errors }
}

/// A value that was given up, with the failure that says why.
pub open spec fn abandoned(error: InvalidParamView) -> Decoded {
    Decoded { value: None, errors: seq![error] }
}

/// Converts `node`, which stands at `path` in the document, to `shape`.
pub open spec fn decode(node: JsonModel, shape: ShapeModel, path: Seq<Seq<char>>) -> Decoded
    decreases node, 1nat,
{
    match shape {
        ShapeModel::Boolean => match node {
            JsonModel::Bool(b) => leaf(TypedModel::Bool(b), seq![]),
            _ => leaf(
                TypedModel::Bool(false),
                seq![type_mismatch(path, "bool"@, "boolean"@, node)],
            ),
        },
        ShapeModel::Text => match node {
            JsonModel::Text(s) => leaf(TypedModel::Text(s), seq![]),
            _ => leaf(
                TypedModel::Text(Seq::empty()),
                seq![type_mismatch(path, "String"@, "string"@, node)],
            ),
        },
        ShapeModel::Integer(kind) => match node {
            JsonModel::Number(n) => match read_integer(n, kind) {
                Some(v) => leaf(typed_integer(kind, v), seq![]),
                None => leaf(typed_integer(kind, 0), seq![out_of_range(path, kind, written(n))]),
            },
            _ => leaf(
                typed_integer(kind, 0),
                seq![type_mismatch(path, kind.name(), "integer"@, node)],
            ),
        },
        ShapeModel::Float32 => match node {
            JsonModel::Number(n) => leaf(TypedModel::Float32(n), seq![]),
            _ => leaf(
                TypedModel::Float32(zero_number()),
                seq![type_mismatch(path, "f32"@, "number"@, node)],
            ),
        },
        ShapeModel::Float64 => match node {
            JsonModel::Number(n) => leaf(TypedModel::Float64(n), seq![]),
            _ => leaf(
                TypedModel::Float64(zero_number()),
                seq![type_mismatch(path, "f64"@, "number"@, node)],
            ),
        },
        ShapeModel::Sequence(item) => decode_sequence(node, *item, path),
        ShapeModel::Mapping(item) => decode_mapping(node, *item, path),
        ShapeModel::Record(fields) => match node {
            JsonModel::Object(members) => {
                let present = decode_fields(members, fields, path, fields.len());
                Decoded {
                    value: if present.complete {
                        Some(TypedModel::Record(present.values))
                    } else {
                        None
                    },
                    errors: present.errors + missing_fields(members, fields, path, fields.len()),
                }
            },
            _ => abandoned(type_mismatch(path, "()"@, "object"@, node)),
        },
        ShapeModel::Any => match node {
            JsonModel::Null => leaf(TypedModel::Unit, seq![]),
            JsonModel::Bool(b) => leaf(TypedModel::Bool(b), seq![]),
            JsonModel::Number(n) => leaf(any_number(n), seq![]),
            JsonModel::Text(s) => leaf(TypedModel::Text(s), seq![]),
            JsonModel::Array(_) => decode_sequence(node, ShapeModel::Any, path),
            JsonModel::Object(_) => decode_mapping(node, ShapeModel::Any, path),
        },
    }
}

/// Converts `node` to a sequence of values of the shape `item`.
pub open spec fn decode_sequence(
    node: JsonModel,
    item: ShapeModel,
    path: Seq<Seq<char>>,
) -> Decoded
    decreases node, 0nat,
{
    match node {
        JsonModel::Array(items) => {
            let all = decode_items(items, item, path, items.len());
            Decoded {
                value: if all.complete {
                    Some(TypedModel::Sequence(all.values))
                } else {
                    None
                },
                errors: all.errors,
            }
        },
        _ => abandoned(type_mismatch(path, "()"@, "array"@, node)),
    }
}

/// Converts `node` to a mapping from strings to values of the shape `item`.
pub open spec fn decode_mapping(node: JsonModel, item: ShapeModel, path: Seq<Seq<char>>) -> Decoded
    decreases node, 0nat,
{
    match node {
        JsonModel::Object(members) => {
            let all = decode_members(members, item, path, members.len());
            Decoded {
                value: if all.complete {
                    Some(TypedModel::Mapping(all.values))
                } else {
                    None
                },
                errors: all.errors,
            }
        },
        _ => abandoned(type_mismatch(path, "()"@, "object"@, node)),
    }
}

/// Converts the first `count` elements of an array that stands at `path`,
/// each to the shape `item`. The element at index `i` stands at `path`
/// followed by the decimal notation of `i`.
pub open spec fn decode_items(
    items: Seq<JsonModel>,
    item: ShapeModel,
    path: Seq<Seq<char>>,
    count: nat,
) -> DecodedItems
    decreases items, count,
{
    if count == 0 || count > items.len() {
        DecodedItems { values: seq![], complete: true, errors: seq![] }
    } else {
        let before = decode_items(items, item, path, (count - 1) as nat);
        let this = decode(items[count - 1], item, path.push(decimal(count - 1)));
        DecodedItems {
            values: match this.value {
                Some(v) => before.values.push(v),
                None => before.values,
            },
            complete: before.complete && this.value is Some,
            errors: before.errors + this.errors,
        }
    }
}

/// Converts the first `count` members of an object that stands at `path`,
/// each to the shape `item`. A member stands at `path` followed by its key.
pub open spec fn decode_members(
    members: Seq<(Seq<char>, JsonModel)>,
    item: ShapeModel,
    path: Seq<Seq<char>>,
    count: nat,
) -> DecodedEntries
    decreases members, count,
{
    if count == 0 || count > members.len() {
        DecodedEntries { values: seq![], complete: true, errors: seq![] }
    } else {
        let before = decode_members(members, item, path, (count - 1) as nat);
        let key = members[count - 1].0;
        let this = decode(members[count - 1].1, item, path.push(key));
        DecodedEntries {
            values: match this.value {
                Some(v) => before.values.push((key, v)),
                None => before.values,
            },
            complete: before.complete && this.value is Some,
            errors: before.errors + this.errors,
        }
    }
}

/// Converts the members of an object that the first `count` fields of a
/// record name, in the order of the fields. A field that the object does
/// not hold is passed over.
pub open spec fn decode_fields(
    members: Seq<(Seq<char>, JsonModel)>,
    fields: Seq<(Seq<char>, ShapeModel)>,
    path: Seq<Seq<char>>,
    count: nat,
) -> DecodedEntries
    decreases members, count,
{
    if count == 0 || count > fields.len() {
        DecodedEntries { values: seq![], complete: true, errors: seq![] }
    } else {
        let before = decode_fields(members, fields, path, (count - 1) as nat);
        let name = fields[count - 1].0;
        if holds_key(members, name) {
            let this = decode(
                members[position_of(members, name) as int].1,
                fields[count - 1].1,
                path.push(name),
            );
            DecodedEntries {
                values: match this.value {
                    Some(v) => before.values.push((name, v)),
                    None => before.values,
                },
                complete: before.complete && this.value is Some,
                errors: before.errors + this.errors,
            }
        } else {
            before
        }
    }
}

/// The failures for those of the first `count` fields of a record that the
/// object does not hold, in the order of the fields.
pub open spec fn missing_fields(
    members: Seq<(Seq<char>, JsonModel)>,
    fields: Seq<(Seq<char>, ShapeModel)>,
    path: Seq<Seq<char>>,
    count: nat,
) -> Seq<InvalidParamView>
    decreases count,
{
    if count == 0 || count > fields.len() {
        seq![]
    } else {
        let before = missing_fields(members, fields, path, (count - 1) as nat);
        let name = fields[count - 1].0;
        if holds_key(members, name) {
            before
        } else {
            before.push(missing_field(path, name))
        }
    }
}

} // verus!
