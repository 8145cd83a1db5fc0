//! The collecting deserializer: the walk over a JSON value that converts
//! what matches the target shape and records everything that does not.

use crate::collector::ErrorCollector;
use crate::decode::{
    bounds_text, decode, decode_fields, decode_items, decode_mapping, decode_members,
    decode_sequence, kind_name, missing_fields, out_of_range, position_from,
    position_of, type_mismatch,
};
use crate::json::{elements_view, members_view, JsonModel, JsonValue};
use crate::number::{convert_integer, written_form, zero, IntKind, JsonNumber};
use crate::problem::{ExpectedOrActual, InvalidParamView};
use crate::shape::{
    fields_view, integer_value, items_view, named_view, typed_integer, typed_view, Shape,
    ShapeModel, Typed, TypedModel,
};
use crate::text::{decimal_string, push_decimal};
use vstd::prelude::*;

verus! {

/// The name of the kind of a JSON value.
pub fn kind_label(node: &JsonValue) -> (s: &'static str)
    ensures
        s@ == kind_name(node@),
{
    match node {
        JsonValue::Null => "null",
        JsonValue::Bool(_) => "boolean",
        JsonValue::Number(n) => match n {
            JsonNumber::Float(_, _) => "number",
            _ => "integer",
        },
        JsonValue::Text(_) => "string",
        JsonValue::Array(_) => "array",
        JsonValue::Object(_) => "object",
    }
}

/// The position of the first member with the key `name`, or the number of
/// members if there is none.
pub fn find_member(members: &Vec<(String, JsonValue)>, name: &String) -> (j: usize)
    ensures
        j == position_of(members_view(members@), name@),
        j <= members.len(),
{
    let mut i: usize = 0;
    while i < members.len()
        invariant
            i <= members.len(),
            position_of(members_view(members@), name@) == position_from(
                members_view(members@),
                name@,
                i as nat,
            ),
        decreases members.len() - i,
    {
        if members[i].0 == *name {
            return i;
        }
        i += 1;
    }
    i
}

/// A walk over one JSON value, with the collector that takes its failures.
pub struct CollectingDeserializer<'a> {
    input: &'a JsonValue,
    /// The failures recorded so far, and the path of the value.
    pub collector: ErrorCollector,
}

impl<'a> CollectingDeserializer<'a> {
    /// The value that is walked.
    pub closed spec fn node(&self) -> JsonModel {
        self.input@
    }

    /// The path at which the value stands.
    pub closed spec fn path(&self) -> Seq<Seq<char>> {
        self.collector.path()
    }

    /// The failures recorded so far.
    pub closed spec fn reported(&self) -> Seq<InvalidParamView> {
        self.collector.reported()
    }

    /// `after` is `before` with the failures `found` appended, in their
    /// order. Nothing else has changed.
    pub open spec fn recorded(before: Self, after: Self, found: Seq<InvalidParamView>) -> bool {
        &&& after.node() == before.node()
        &&& after.path() == before.path()
        &&& after.reported() == before.reported() + found
    }

    /// A walk over `input` as the root of a document.
    pub fn new(input: &'a JsonValue) -> (d: Self)
        ensures
            d.node() == input@,
            d.path() == Seq::<Seq<char>>::empty(),
            d.reported() == Seq::<InvalidParamView>::empty(),
    {
        Self { input, collector: ErrorCollector::new() }
    }

    /// A walk over `value` as the root of a document.
    pub fn from_json_value(value: &'a JsonValue) -> (d: Self)
        ensures
            d.node() == value@,
            d.path() == Seq::<Seq<char>>::empty(),
            d.reported() == Seq::<InvalidParamView>::empty(),
    {
        Self::new(value)
    }

    /// A walk over `input` that records into `collector`, at its path.
    pub fn with_collector(input: &'a JsonValue, collector: ErrorCollector) -> (d: Self)
        ensures
            d.node() == input@,
            d.path() == collector.path(),
            d.reported() == collector.reported(),
    {
        Self { input, collector }
    }

    /// Ends the walk and hands out the collector.
    pub fn into_collector(self) -> (c: ErrorCollector)
        ensures
            c.path() == self.path(),
            c.reported() == self.reported(),
    {
        self.collector
    }

    /// Records that the value is not of the kind `expected`, which the
    /// target type `target` takes.
    fn add_type_error(&mut self, target: &str, expected: &str)
        ensures
            Self::recorded(
                *old(self),
                *final(self),
                seq![type_mismatch(old(self).path(), target@, expected@, old(self).node())],
            ),
    {
        let actual = kind_label(self.input);
        let name = self.collector.current_name();
        let mut reason = String::from_str("Expected ");
        reason.append(expected);
        reason.append(", got ");
        reason.append(actual);
        self.collector.add_error(
            name,
            Some(reason),
            ExpectedOrActual { ty: String::from_str(target), format: String::from_str(expected) },
            ExpectedOrActual { ty: String::from_str(actual), format: String::from_str(actual) },
        );
        assert(final(self).reported() =~= old(self).reported() + seq![
            type_mismatch(old(self).path(), target@, expected@, old(self).node()),
        ]);
    }

    /// Records that the number is no integer of the type `kind`; `named` is
    /// what the failure calls the number.
    fn add_range_error(&mut self, kind: &IntKind, named: String)
        ensures
            Self::recorded(
                *old(self),
                *final(self),
                seq![out_of_range(old(self).path(), *kind, named@)],
            ),
    {
        let name = self.collector.current_name();
        let mut bounds = String::new();
        push_decimal(&mut bounds, kind.lower());
        bounds.append(" to ");
        push_decimal(&mut bounds, kind.upper());
        assert(bounds@ =~= bounds_text(*kind));
        let mut reason = String::from_str("Value ");
        reason.append(named.as_str());
        reason.append(" is out of range for type ");
        reason.append(kind.label());
        reason.append(". Expected range: ");
        reason.append(bounds.as_str());
        let mut format = String::from_str("integer in range ");
        format.append(bounds.as_str());
        self.collector.add_error(
            name,
            Some(reason),
            ExpectedOrActual { ty: String::from_str(kind.label()), format },
            ExpectedOrActual { ty: String::from_str("integer"), format: named },
        );
        assert(final(self).reported() =~= old(self).reported() + seq![
            out_of_range(old(self).path(), *kind, named@),
        ]);
    }

    /// Converts the value to a boolean; `false` stands for a value that is
    /// none.
    pub fn deserialize_bool(&mut self) -> (b: bool)
        ensures
            Self::recorded(
                *old(self),
                *final(self),
                decode(old(self).node(), ShapeModel::Boolean, old(self).path()).errors,
            ),
            decode(old(self).node(), ShapeModel::Boolean, old(self).path()).value == Some(
                TypedModel::Bool(b),
            ),
    {
        match self.input {
            JsonValue::Bool(b) => {
                assert(final(self).reported() =~= old(self).reported() + seq![]);
                *b
            },
            _ => {
                self.add_type_error("bool", "boolean");
                false
            },
        }
    }

    /// Converts the value to a string; the empty string stands for a value
    /// that is none.
    pub fn deserialize_str(&mut self) -> (s: &'a str)
        ensures
            Self::recorded(
                *old(self),
                *final(self),
                decode(old(self).node(), ShapeModel::Text, old(self).path()).errors,
            ),
            decode(old(self).node(), ShapeModel::Text, old(self).path()).value == Some(
                TypedModel::Text(s@),
            ),
    {
        match self.input {
            JsonValue::Text(s) => {
                assert(final(self).reported() =~= old(self).reported() + seq![]);
                s.as_str()
            },
            _ => {
                self.add_type_error("String", "string");
                proof {
                    reveal_strlit("");
                }
                assert(""@ =~= Seq::<char>::empty());
                ""
            },
        }
    }

    /// Converts the value to an owned string; the empty string stands for a
    /// value that is none.
    pub fn deserialize_string(&mut self) -> (s: String)
        ensures
            Self::recorded(
                *old(self),
                *final(self),
                decode(old(self).node(), ShapeModel::Text, old(self).path()).errors,
            ),
            decode(old(self).node(), ShapeModel::Text, old(self).path()).value == Some(
                TypedModel::Text(s@),
            ),
    {
        match self.input {
            JsonValue::Text(s) => {
                assert(final(self).reported() =~= old(self).reported() + seq![]);
                s.clone()
            },
            _ => {
                self.add_type_error("String", "string");
                String::new()
            },
        }
    }

    /// Converts the value to an integer of the type `kind`; zero stands for
    /// a value that is none.
    pub fn deserialize_integer(&mut self, kind: &IntKind) -> (v: i128)
        ensures
            Self::recorded(
                *old(self),
                *final(self),
                decode(old(self).node(), ShapeModel::Integer(*kind), old(self).path()).errors,
            ),
            kind.min() <= v <= kind.max(),
            decode(old(self).node(), ShapeModel::Integer(*kind), old(self).path()).value == Some(
                typed_integer(*kind, v as int),
            ),
    {
        match self.input {
            JsonValue::Number(n) => match convert_integer(n, kind) {
                Some(v) => {
                    assert(final(self).reported() =~= old(self).reported() + seq![]);
                    v
                },
                None => {
                    self.add_range_error(kind, written_form(n));
                    0
                },
            },
            _ => {
                self.add_type_error(kind.label(), "integer");
                0
            },
        }
    }

    /// Converts the value to a `u8`; zero stands for a value that is none.
    pub fn deserialize_u8(&mut self) -> (v: u8)
        ensures
            Self::recorded(
                *old(self),
                *final(self),
                decode(
                    old(self).node(),
                    ShapeModel::Integer(IntKind::U8),
                    old(self).path(),
                ).errors,
            ),
            decode(old(self).node(), ShapeModel::Integer(IntKind::U8), old(self).path()).value
                == Some(TypedModel::U8(v)),
    {
        self.deserialize_integer(&IntKind::U8) as u8
    }

    /// Converts the value to a `i8`; zero stands for a value that is none.
    pub fn deserialize_i8(&mut self) -> (v: i8)
        ensures
            Self::recorded(
                *old(self),
                *final(self),
                decode(
                    old(self).node(),
                    ShapeModel::Integer(IntKind::I8),
                    old(self).path(),
                ).errors,
            ),
            decode(old(self).node(), ShapeModel::Integer(IntKind::I8), old(self).path()).value
                == Some(TypedModel::I8(v)),
    {
        self.deserialize_integer(&IntKind::I8) as i8
    }

    /// Converts the value to a `u16`; zero stands for a value that is none.
    pub fn deserialize_u16(&mut self) -> (v: u16)
        ensures
            Self::recorded(
                *old(self),
                *final(self),
                decode(
                    old(self).node(),
                    ShapeModel::Integer(IntKind::U16),
                    old(self).path(),
                ).errors,
            ),
            decode(old(self).node(), ShapeModel::Integer(IntKind::U16), old(self).path()).value
                == Some(TypedModel::U16(v)),
    {
        self.deserialize_integer(&IntKind::U16) as u16
    }

    /// Converts the value to a `i16`; zero stands for a value that is none.
    pub fn deserialize_i16(&mut self) -> (v: i16)
        ensures
            Self::recorded(
                *old(self),
                *final(self),
                decode(
                    old(self).node(),
                    ShapeModel::Integer(IntKind::I16),
                    old(self).path(),
                ).errors,
            ),
            decode(old(self).node(), ShapeModel::Integer(IntKind::I16), old(self).path()).value
                == Some(TypedModel::I16(v)),
    {
        self.deserialize_integer(&IntKind::I16) as i16
    }

    /// Converts the value to a `u32`; zero stands for a value that is none.
    pub fn deserialize_u32(&mut self) -> (v: u32)
        ensures
            Self::recorded(
                *old(self),
                *final(self),
                decode(
                    old(self).node(),
                    ShapeModel::Integer(IntKind::U32),
                    old(self).path(),
                ).errors,
            ),
            decode(old(self).node(), ShapeModel::Integer(IntKind::U32), old(self).path()).value
                == Some(TypedModel::U32(v)),
    {
        self.deserialize_integer(&IntKind::U32) as u32
    }

    /// Converts the value to a `i32`; zero stands for a value that is none.
    pub fn deserialize_i32(&mut self) -> (v: i32)
        ensures
            Self::recorded(
                *old(self),
                *final(self),
                decode(
                    old(self).node(),
                    ShapeModel::Integer(IntKind::I32),
                    old(self).path(),
                ).errors,
            ),
            decode(old(self).node(), ShapeModel::Integer(IntKind::I32), old(self).path()).value
                == Some(TypedModel::I32(v)),
    {
        self.deserialize_integer(&IntKind::I32) as i32
    }

    /// Converts the value to a `i64`; zero stands for a value that is none.
    pub fn deserialize_i64(&mut self) -> (v: i64)
        ensures
            Self::recorded(
                *old(self),
                *final(self),
                decode(
                    old(self).node(),
                    ShapeModel::Integer(IntKind::I64),
                    old(self).path(),
                ).errors,
            ),
            decode(old(self).node(), ShapeModel::Integer(IntKind::I64), old(self).path()).value
                == Some(TypedModel::I64(v)),
    {
        self.deserialize_integer(&IntKind::I64) as i64
    }

    /// Converts the value to a `u64`; zero stands for a value that is none.
    pub fn deserialize_u64(&mut self) -> (v: u64)
        ensures
            Self::recorded(
                *old(self),
                *final(self),
                decode(
                    old(self).node(),
                    ShapeModel::Integer(IntKind::U64),
                    old(self).path(),
                ).errors,
            ),
            decode(old(self).node(), ShapeModel::Integer(IntKind::U64), old(self).path()).value
                == Some(TypedModel::U64(v)),
    {
        self.deserialize_integer(&IntKind::U64) as u64
    }

    /// Accepts a number for a binary32 target and hands on a copy of it, as
    /// the document gave it; zero stands for a value that is no number.
    pub fn deserialize_f32(&mut self) -> (n: JsonNumber)
        ensures
            Self::recorded(
                *old(self),
                *final(self),
                decode(old(self).node(), ShapeModel::Float32, old(self).path()).errors,
            ),
            decode(old(self).node(), ShapeModel::Float32, old(self).path()).value == Some(
                TypedModel::Float32(n@),
            ),
    {
        match self.input {
            JsonValue::Number(n) => {
                assert(final(self).reported() =~= old(self).reported() + seq![]);
                n.clone()
            },
            _ => {
                self.add_type_error("f32", "number");
                zero()
            },
        }
    }

    /// Accepts a number for a binary64 target and hands on a copy of it, as
    /// the document gave it; zero stands for a value that is no number.
    pub fn deserialize_f64(&mut self) -> (n: JsonNumber)
        ensures
            Self::recorded(
                *old(self),
                *final(self),
                decode(old(self).node(), ShapeModel::Float64, old(self).path()).errors,
            ),
            decode(old(self).node(), ShapeModel::Float64, old(self).path()).value == Some(
                TypedModel::Float64(n@),
            ),
    {
        match self.input {
            JsonValue::Number(n) => {
                assert(final(self).reported() =~= old(self).reported() + seq![]);
                n.clone()
            },
            _ => {
                self.add_type_error("f64", "number");
                zero()
            },
        }
    }

    /// Converts the value to `shape`. The result is `None` where the value,
    /// or a value inside it, was meant to be an array or an object and is
    /// neither; every failure is recorded either way.
    ///
    /// The walk calls itself once for each level of nesting, and sets no
    /// limit of its own: a value nested too deep for the stack is the
    /// caller's to refuse. A tree that `parse` built is at most as deep as
    /// the parser allows.
    pub fn deserialize(&mut self, shape: &Shape) -> (r: Option<Typed>)
        ensures
            Self::recorded(
                *old(self),
                *final(self),
                decode(old(self).node(), shape@, old(self).path()).errors,
            ),
            typed_view(r) == decode(old(self).node(), shape@, old(self).path()).value,
        decreases old(self).node(), 2nat,
    {
        match shape {
            Shape::Boolean => Some(Typed::Bool(self.deserialize_bool())),
            Shape::Integer(kind) => {
                let v = self.deserialize_integer(kind);
                Some(integer_value(kind, v))
            },
            Shape::Float32 => Some(Typed::Float32(self.deserialize_f32())),
            Shape::Float64 => Some(Typed::Float64(self.deserialize_f64())),
            Shape::Text => Some(Typed::Text(self.deserialize_string())),
            Shape::Sequence(item) => match self.deserialize_seq(item) {
                Some(values) => Some(Typed::Sequence(values)),
                None => None,
            },
            Shape::Mapping(item) => match self.deserialize_map(item) {
                Some(entries) => Some(Typed::Mapping(entries)),
                None => None,
            },
            Shape::Record(fields) => match self.deserialize_struct(fields) {
                Some(entries) => Some(Typed::Record(entries)),
                None => None,
            },
            Shape::Any => self.deserialize_any(),
        }
    }

    /// Converts the value to whatever its own kind gives: a null to the
    /// unit value, an integer to `i64` where it fits and to `u64` where it
    /// does not, an array to a sequence and an object to a mapping.
    pub fn deserialize_any(&mut self) -> (r: Option<Typed>)
        ensures
            Self::recorded(
                *old(self),
                *final(self),
                decode(old(self).node(), ShapeModel::Any, old(self).path()).errors,
            ),
            typed_view(r) == decode(old(self).node(), ShapeModel::Any, old(self).path()).value,
        decreases old(self).node(), 1nat,
    {
        let input: &'a JsonValue = self.input;
        match input {
            JsonValue::Null => {
                assert(final(self).reported() =~= old(self).reported() + seq![]);
                Some(Typed::Unit)
            },
            JsonValue::Bool(b) => {
                assert(final(self).reported() =~= old(self).reported() + seq![]);
                Some(Typed::Bool(*b))
            },
            JsonValue::Number(n) => {
                assert(final(self).reported() =~= old(self).reported() + seq![]);
                match n {
                    JsonNumber::PosInt(u) => if *u <= 0x7fff_ffff_ffff_ffff {
                        Some(Typed::I64(*u as i64))
                    } else {
                        Some(Typed::U64(*u))
                    },
                    JsonNumber::NegInt(i) => Some(Typed::I64(*i)),
                    JsonNumber::Float(_, _) => Some(Typed::Float64(n.clone())),
                }
            },
            JsonValue::Text(s) => {
                assert(final(self).reported() =~= old(self).reported() + seq![]);
                Some(Typed::Text(s.clone()))
            },
            JsonValue::Array(_) => {
                let any = Shape::Any;
                match self.deserialize_seq(&any) {
                    Some(values) => Some(Typed::Sequence(values)),
                    None => None,
                }
            },
            JsonValue::Object(_) => {
                let any = Shape::Any;
                match self.deserialize_map(&any) {
                    Some(entries) => Some(Typed::Mapping(entries)),
                    None => None,
                }
            },
        }
    }

    /// Converts the elements of an array, each to the shape `item`, at the
    /// path of the array followed by the index of the element. A value that
    /// is no array is recorded and given up.
    pub fn deserialize_seq(&mut self, item: &Shape) -> (r: Option<Vec<Typed>>)
        ensures
            Self::recorded(
                *old(self),
                *final(self),
                decode_sequence(old(self).node(), item@, old(self).path()).errors,
            ),
            match r {
                Some(values) => decode_sequence(old(self).node(), item@, old(self).path()).value
                    == Some(TypedModel::Sequence(items_view(values@))),
                None => decode_sequence(old(self).node(), item@, old(self).path()).value is None,
            },
        decreases old(self).node(), 0nat,
    {
        let input: &'a JsonValue = self.input;
        match input {
            JsonValue::Array(items) => {
                let ghost models = elements_view(items@);
                let ghost path = self.path();
                let ghost before = self.reported();
                let mut values: Vec<Typed> = Vec::new();
                let mut complete = true;
                let mut i: usize = 0;
                assert(self.reported() =~= before + decode_items(models, item@, path, 0).errors);
                assert(items_view(values@) =~= decode_items(models, item@, path, 0).values);
                while i < items.len()
                    invariant
                        i <= items.len(),
                        models == elements_view(items@),
                        old(self).node() == JsonModel::Array(models),
                        self.node() == old(self).node(),
                        self.path() == path,
                        self.reported() == before + decode_items(
                            models,
                            item@,
                            path,
                            i as nat,
                        ).errors,
                        items_view(values@) == decode_items(models, item@, path, i as nat).values,
                        complete == decode_items(models, item@, path, i as nat).complete,
                    decreases items.len() - i,
                {
                    let segment = decimal_string(i as i128);
                    self.collector.push_path(segment.as_str());
                    let nested_collector = ErrorCollector::with_path(
                        self.collector.current_segments(),
                    );
                    let mut nested = CollectingDeserializer::with_collector(
                        &items[i],
                        nested_collector,
                    );
                    assert(nested.node() == models[i as int]);
                    assert(decreases_to!(old(self).node() => old(self).node()->Array_0));
                    assert(decreases_to!(models => models[i as int]));
                    let value = nested.deserialize(item);
                    self.collector.absorb(nested.collector);
                    self.collector.pop_path();
                    assert(self.path() =~= path);
                    assert(self.reported() =~= before + decode_items(
                        models,
                        item@,
                        path,
                        (i + 1) as nat,
                    ).errors);
                    match value {
                        Some(v) => {
                            values.push(v);
                            assert(items_view(values@) =~= decode_items(
                                models,
                                item@,
                                path,
                                (i + 1) as nat,
                            ).values);
                        },
                        None => {
                            complete = false;
                        },
                    }
                    i += 1;
                }
                if complete {
                    Some(values)
                } else {
                    None
                }
            },
            _ => {
                self.add_type_error("()", "array");
                None
            },
        }
    }

    /// Converts the members of an object, each to the shape `item`, at the
    /// path of the object followed by the key of the member. A value that
    /// is no object is recorded and given up.
    pub fn deserialize_map(&mut self, item: &Shape) -> (r: Option<Vec<(String, Typed)>>)
        ensures
            Self::recorded(
                *old(self),
                *final(self),
                decode_mapping(old(self).node(), item@, old(self).path()).errors,
            ),
            match r {
                Some(entries) => decode_mapping(old(self).node(), item@, old(self).path()).value
                    == Some(TypedModel::Mapping(named_view(entries@))),
                None => decode_mapping(old(self).node(), item@, old(self).path()).value is None,
            },
        decreases old(self).node(), 0nat,
    {
        let input: &'a JsonValue = self.input;
        match input {
            JsonValue::Object(members) => {
                let ghost models = members_view(members@);
                let ghost path = self.path();
                let ghost before = self.reported();
                let mut values: Vec<(String, Typed)> = Vec::new();
                let mut complete = true;
                let mut i: usize = 0;
                assert(self.reported() =~= before + decode_members(models, item@, path, 0).errors);
                assert(named_view(values@) =~= decode_members(models, item@, path, 0).values);
                while i < members.len()
                    invariant
                        i <= members.len(),
                        models == members_view(members@),
                        old(self).node() == JsonModel::Object(models),
                        self.node() == old(self).node(),
                        self.path() == path,
                        self.reported() == before + decode_members(
                            models,
                            item@,
                            path,
                            i as nat,
                        ).errors,
                        named_view(values@) == decode_members(models, item@, path, i as nat).values,
                        complete == decode_members(models, item@, path, i as nat).complete,
                    decreases members.len() - i,
                {
                    let key = &members[i].0;
                    self.collector.push_path(key.as_str());
                    let nested_collector = ErrorCollector::with_path(
                        self.collector.current_segments(),
                    );
                    let mut nested = CollectingDeserializer::with_collector(
                        &members[i].1,
                        nested_collector,
                    );
                    assert(nested.node() == models[i as int].1);
                    assert(decreases_to!(old(self).node() => old(self).node()->Object_0));
                    assert(decreases_to!(models => models[i as int]));
                    assert(decreases_to!(models[i as int] => models[i as int].1));
                    let value = nested.deserialize(item);
                    self.collector.absorb(nested.collector);
                    self.collector.pop_path();
                    assert(self.path() =~= path);
                    assert(self.reported() =~= before + decode_members(
                        models,
                        item@,
                        path,
                        (i + 1) as nat,
                    ).errors);
                    match value {
                        Some(v) => {
                            values.push((key.clone(), v));
                            assert(named_view(values@) =~= decode_members(
                                models,
                                item@,
                                path,
                                (i + 1) as nat,
                            ).values);
                        },
                        None => {
                            complete = false;
                        },
                    }
                    i += 1;
                }
                if complete {
                    Some(values)
                } else {
                    None
                }
            },
            _ => {
                self.add_type_error("()", "object");
                None
            },
        }
    }

    /// Converts an object to a record. The fields are taken in their
    /// declared order: each one that the object holds is converted at the
    /// path of the object followed by the field's name. After them, each
    /// field that the object does not hold is recorded as missing, at the
    /// path of the object. Members that no field names are passed over. A
    /// value that is no object is recorded and given up.
    pub fn deserialize_struct(&mut self, fields: &Vec<(String, Shape)>) -> (r: Option<
        Vec<(String, Typed)>,
    >)
        ensures
            Self::recorded(
                *old(self),
                *final(self),
                decode(
                    old(self).node(),
                    ShapeModel::Record(fields_view(fields@)),
                    old(self).path(),
                ).errors,
            ),
            match r {
                Some(entries) => decode(
                    old(self).node(),
                    ShapeModel::Record(fields_view(fields@)),
                    old(self).path(),
                ).value == Some(TypedModel::Record(named_view(entries@))),
                None => decode(
                    old(self).node(),
                    ShapeModel::Record(fields_view(fields@)),
                    old(self).path(),
                ).value is None,
            },
        decreases old(self).node(), 0nat,
    {
        let input: &'a JsonValue = self.input;
        match input {
            JsonValue::Object(members) => {
                let ghost models = members_view(members@);
                let ghost shapes = fields_view(fields@);
                let ghost path = self.path();
                let ghost before = self.reported();
                let mut values: Vec<(String, Typed)> = Vec::new();
                let mut complete = true;
                let mut i: usize = 0;
                assert(self.reported() =~= before + decode_fields(models, shapes, path, 0).errors);
                assert(named_view(values@) =~= decode_fields(models, shapes, path, 0).values);
                while i < fields.len()
                    invariant
                        i <= fields.len(),
                        models == members_view(members@),
                        shapes == fields_view(fields@),
                        old(self).node() == JsonModel::Object(models),
                        self.node() == old(self).node(),
                        self.path() == path,
                        self.reported() == before + decode_fields(
                            models,
                            shapes,
                            path,
                            i as nat,
                        ).errors,
                        named_view(values@) == decode_fields(models, shapes, path, i as nat).values,
                        complete == decode_fields(models, shapes, path, i as nat).complete,
                    decreases fields.len() - i,
                {
                    let name = &fields[i].0;
                    let j = find_member(members, name);
                    assert(shapes[i as int] == (fields@[i as int].0@, fields@[i as int].1@));
                    if j < members.len() {
                        self.collector.push_path(name.as_str());
                        let nested_collector = ErrorCollector::with_path(
                            self.collector.current_segments(),
                        );
                        let mut nested = CollectingDeserializer::with_collector(
                            &members[j].1,
                            nested_collector,
                        );
                        assert(nested.node() == models[j as int].1);
                        assert(decreases_to!(old(self).node() => old(self).node()->Object_0));
                        assert(decreases_to!(models => models[j as int]));
                        assert(decreases_to!(models[j as int] => models[j as int].1));
                        let value = nested.deserialize(&fields[i].1);
                        self.collector.absorb(nested.collector);
                        self.collector.pop_path();
                        assert(self.path() =~= path);
                        assert(self.reported() =~= before + decode_fields(
                            models,
                            shapes,
                            path,
                            (i + 1) as nat,
                        ).errors);
                        match value {
                            Some(v) => {
                                values.push((name.clone(), v));
                                assert(named_view(values@) =~= decode_fields(
                                    models,
                                    shapes,
                                    path,
                                    (i + 1) as nat,
                                ).values);
                            },
                            None => {
                                complete = false;
                            },
                        }
                    }
                    i += 1;
                }
                let ghost present = self.reported();
                let mut i: usize = 0;
                assert(self.reported() =~= present + missing_fields(models, shapes, path, 0));
                while i < fields.len()
                    invariant
                        i <= fields.len(),
                        models == members_view(members@),
                        shapes == fields_view(fields@),
                        self.node() == old(self).node(),
                        self.path() == path,
                        self.reported() == present + missing_fields(models, shapes, path, i as nat),
                    decreases fields.len() - i,
                {
                    let name = &fields[i].0;
                    assert(shapes[i as int] == (fields@[i as int].0@, fields@[i as int].1@));
                    if find_member(members, name) >= members.len() {
                        self.collector.add_error(
                            name.clone(),
                            Some(String::from_str("missing required field")),
                            ExpectedOrActual {
                                ty: String::from_str("required"),
                                format: String::from_str("field"),
                            },
                            ExpectedOrActual {
                                ty: String::from_str("missing"),
                                format: String::from_str("undefined"),
                            },
                        );
                        assert(self.reported() =~= present + missing_fields(
                            models,
                            shapes,
                            path,
                            (i + 1) as nat,
                        ));
                    }
                    i += 1;
                }
                assert(self.reported() =~= before + (decode_fields(
                    models,
                    shapes,
                    path,
                    fields.len() as nat,
                ).errors + missing_fields(models, shapes, path, fields.len() as nat)));
                if complete {
                    Some(values)
                } else {
                    None
                }
            },
            _ => {
                self.add_type_error("()", "object");
                None
            },
        }
    }
}

} // verus!
