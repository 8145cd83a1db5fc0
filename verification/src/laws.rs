//! What holds of every document, every shape and every path: the laws of
//! the engine, each proved from the definitions it speaks of.

use crate::collector::{name_at, pointer_of};
use crate::decode::{
    bounds_text, decode, decode_fields, decode_items, decode_mapping, decode_members,
    decode_sequence, holds_key, leaf, missing_field, missing_fields, out_of_range, position_from,
    position_of,
};
use crate::entry::{outcome_of, outcome_on, position_text, syntax_message, verdict, Outcome};
use crate::json::JsonModel;
use crate::number::{read_integer, written, IntKind, NumberModel};
use crate::parse::{parse_of, DiagnosticModel};
use crate::problem::{InvalidParamView, Result};
use crate::shape::{typed_integer, ShapeModel, Typed};
use crate::text::{contains, decimal, occurs_at, starts_with};
use vstd::prelude::*;

verus! {

/// A value that was given up has left a failure behind: where converting
/// gives no value, at least one failure is recorded.
pub proof fn law_given_up_is_recorded(node: JsonModel, shape: ShapeModel, path: Seq<Seq<char>>)
    ensures
        decode(node, shape, path).value is None ==> decode(node, shape, path).errors.len() > 0,
    decreases node, 1nat,
{
    match shape {
        ShapeModel::Sequence(item) => lemma_sequence_given_up(node, *item, path),
        ShapeModel::Mapping(item) => lemma_mapping_given_up(node, *item, path),
        ShapeModel::Record(fields) => match node {
            JsonModel::Object(members) => lemma_fields_given_up(
                members,
                fields,
                path,
                fields.len(),
            ),
            _ => {},
        },
        ShapeModel::Any => match node {
            JsonModel::Array(_) => lemma_sequence_given_up(node, ShapeModel::Any, path),
            JsonModel::Object(_) => lemma_mapping_given_up(node, ShapeModel::Any, path),
            _ => {},
        },
        _ => {},
    }
}

proof fn lemma_sequence_given_up(node: JsonModel, item: ShapeModel, path: Seq<Seq<char>>)
    ensures
        decode_sequence(node, item, path).value is None ==> decode_sequence(
            node,
            item,
            path,
        ).errors.len() > 0,
    decreases node, 0nat,
{
    match node {
        JsonModel::Array(items) => lemma_items_given_up(items, item, path, items.len()),
        _ => {},
    }
}

proof fn lemma_mapping_given_up(node: JsonModel, item: ShapeModel, path: Seq<Seq<char>>)
    ensures
        decode_mapping(node, item, path).value is None ==> decode_mapping(
            node,
            item,
            path,
        ).errors.len() > 0,
    decreases node, 0nat,
{
    match node {
        JsonModel::Object(members) => lemma_members_given_up(members, item, path, members.len()),
        _ => {},
    }
}

proof fn lemma_items_given_up(
    items: Seq<JsonModel>,
    item: ShapeModel,
    path: Seq<Seq<char>>,
    count: nat,
)
    ensures
        !decode_items(items, item, path, count).complete ==> decode_items(
            items,
            item,
            path,
            count,
        ).errors.len() > 0,
    decreases items, count,
{
    if count == 0 || count > items.len() {
    } else {
        lemma_items_given_up(items, item, path, (count - 1) as nat);
        law_given_up_is_recorded(items[count - 1], item, path.push(decimal(count - 1)));
    }
}

proof fn lemma_members_given_up(
    members: Seq<(Seq<char>, JsonModel)>,
    item: ShapeModel,
    path: Seq<Seq<char>>,
    count: nat,
)
    ensures
        !decode_members(members, item, path, count).complete ==> decode_members(
            members,
            item,
            path,
            count,
        ).errors.len() > 0,
    decreases members, count,
{
    if count == 0 || count > members.len() {
    } else {
        lemma_members_given_up(members, item, path, (count - 1) as nat);
        law_given_up_is_recorded(members[count - 1].1, item, path.push(members[count - 1].0));
    }
}

proof fn lemma_fields_given_up(
    members: Seq<(Seq<char>, JsonModel)>,
    fields: Seq<(Seq<char>, ShapeModel)>,
    path: Seq<Seq<char>>,
    count: nat,
)
    ensures
        !decode_fields(members, fields, path, count).complete ==> decode_fields(
            members,
            fields,
            path,
            count,
        ).errors.len() > 0,
    decreases members, count,
{
    if count == 0 || count > fields.len() {
    } else {
        lemma_fields_given_up(members, fields, path, (count - 1) as nat);
        let name = fields[count - 1].0;
        if holds_key(members, name) {
            law_given_up_is_recorded(
                members[position_of(members, name) as int].1,
                fields[count - 1].1,
                path.push(name),
            );
        }
    }
}

/// A document in which nothing is wrong converts to its value: with no
/// failure found, the outcome is the converted value and never a
/// description.
pub proof fn law_clean_document_converts(tree: JsonModel, shape: ShapeModel)
    requires
        decode(tree, shape, Seq::empty()).errors.len() == 0,
    ensures
        decode(tree, shape, Seq::empty()).value is Some,
        verdict(decode(tree, shape, Seq::empty())) == Outcome::Valid(
            decode(tree, shape, Seq::empty()).value->0,
        ),
{
    law_given_up_is_recorded(tree, shape, Seq::empty());
}

/// A document in which something is wrong is never converted: with a
/// failure found, the outcome is the description that lists every failure,
/// in order, whatever value the walk put together.
pub proof fn law_any_failure_fails_the_call(tree: JsonModel, shape: ShapeModel)
    requires
        decode(tree, shape, Seq::empty()).errors.len() > 0,
    ensures
        verdict(decode(tree, shape, Seq::empty())) matches Outcome::Invalid(e)
            && e.invalid_params == decode(tree, shape, Seq::empty()).errors,
{
}

/// Two calls on the same text and shape have the same outcome.
pub proof fn law_same_input_same_outcome(
    first: Result<Typed>,
    second: Result<Typed>,
    text: Seq<char>,
    shape: ShapeModel,
)
    requires
        outcome_of(first) == outcome_on(parse_of(text), shape),
        outcome_of(second) == outcome_on(parse_of(text), shape),
    ensures
        outcome_of(first) == outcome_of(second),
{
}

/// A syntax error and a validation failure never meet in one description.
/// For a text that is not well-formed JSON the call fails with a sentence
/// in `detail` and no invalid parameters. For a well-formed text, a call
/// that fails has no `detail` and at least one invalid parameter.
pub proof fn law_syntax_or_validation(
    parsed: core::result::Result<JsonModel, DiagnosticModel>,
    shape: ShapeModel,
)
    ensures
        match parsed {
            Err(_) => outcome_on(parsed, shape) matches Outcome::Invalid(e) && e.detail is Some
                && e.detail->0.len() > 0 && e.invalid_params.len() == 0,
            Ok(_) => outcome_on(parsed, shape) matches Outcome::Invalid(e) ==> e.detail is None
                && e.invalid_params.len() > 0,
        },
{
    match parsed {
        Err(diagnostic) => {
            reveal_strlit("JSON syntax error at line ");
            assert(position_text(diagnostic.line, diagnostic.column).len() > 0);
            assert(syntax_message(diagnostic).len() > 0);
        },
        Ok(tree) => {
            law_given_up_is_recorded(tree, shape, Seq::empty());
        },
    }
}

/// The root has the pointer `#`, and each step adds a slash and a segment.
pub proof fn law_pointer_grows_by_segment(path: Seq<Seq<char>>, segment: Seq<char>)
    ensures
        pointer_of(Seq::empty()) == "#"@,
        pointer_of(path.push(segment)) == pointer_of(path) + "/"@ + segment,
{
    reveal_strlit("#");
    reveal_strlit("/");
    assert("#"@ =~= seq!['#']);
    assert("/"@ =~= seq!['/']);
    assert(path.push(segment).drop_last() =~= path);
}

/// The JSON number that writes the integer `v`.
pub open spec fn integer_number(v: int) -> NumberModel {
    if v >= 0 {
        NumberModel::PosInt(v as u64)
    } else {
        NumberModel::NegInt(v as i64)
    }
}

/// What stands between two parts of a text is contained in the text.
proof fn lemma_middle_is_contained(before: Seq<char>, middle: Seq<char>, after: Seq<char>)
    ensures
        contains(before + middle + after, middle),
{
    let whole = before + middle + after;
    let at = before.len() as int;
    assert(whole.subrange(at, at + middle.len()) =~= middle);
    assert(occurs_at(whole, middle, at));
}

/// An integer between the bounds of a type converts to itself, without a
/// failure. The least and the greatest value of the type are among them.
pub proof fn law_integers_in_range_fit(kind: IntKind, v: int, path: Seq<Seq<char>>)
    requires
        kind.min() <= v <= kind.max(),
    ensures
        decode(JsonModel::Number(integer_number(v)), ShapeModel::Integer(kind), path) == leaf(
            typed_integer(kind, v),
            seq![],
        ),
{
}

/// A number that is no integer of a type gives exactly one failure, a
/// range violation at the path of the value. The failure names the number
/// as it is written, and its reason holds that name and both bounds of the
/// type. A number with a fraction is among them, whatever the type.
pub proof fn law_numbers_out_of_range_fail_once(
    kind: IntKind,
    n: NumberModel,
    path: Seq<Seq<char>>,
)
    requires
        read_integer(n, kind) is None,
    ensures
        decode(JsonModel::Number(n), ShapeModel::Integer(kind), path).errors == seq![
            out_of_range(path, kind, written(n)),
        ],
        out_of_range(path, kind, written(n)).pointer == pointer_of(path),
        out_of_range(path, kind, written(n)).actual.format == written(n),
        out_of_range(path, kind, written(n)).reason matches Some(reason) && contains(
            reason,
            written(n),
        ) && contains(reason, decimal(kind.min())) && contains(reason, decimal(kind.max())),
{
    let named = written(n);
    let reason = out_of_range(path, kind, named).reason->0;
    let a = "Value "@;
    let b = " is out of range for type "@ + kind.name() + ". Expected range: "@;
    let to = " to "@;
    let lower = decimal(kind.min());
    let upper = decimal(kind.max());
    assert(bounds_text(kind) == lower + to + upper);
    assert(reason =~= a + named + (b + bounds_text(kind)));
    lemma_middle_is_contained(a, named, b + bounds_text(kind));
    assert(reason =~= (a + named + b) + lower + (to + upper));
    lemma_middle_is_contained(a + named + b, lower, to + upper);
    assert(reason =~= (a + named + b + lower + to) + upper + Seq::<char>::empty());
    lemma_middle_is_contained(a + named + b + lower + to, upper, Seq::<char>::empty());
}

/// An integer outside the bounds of a type gives exactly one failure, a
/// range violation at the path of the value, and its reason holds the
/// integer and both bounds in decimal notation. The integers next to the
/// bounds are among them.
pub proof fn law_integers_out_of_range_fail_once(kind: IntKind, v: int, path: Seq<Seq<char>>)
    requires
        i64::MIN <= v <= u64::MAX,
        v < kind.min() || v > kind.max(),
    ensures
        decode(JsonModel::Number(integer_number(v)), ShapeModel::Integer(kind), path).errors
            == seq![out_of_range(path, kind, decimal(v))],
        out_of_range(path, kind, decimal(v)).pointer == pointer_of(path),
        out_of_range(path, kind, decimal(v)).reason matches Some(reason) && contains(
            reason,
            decimal(v),
        ) && contains(reason, decimal(kind.min())) && contains(reason, decimal(kind.max())),
{
    law_numbers_out_of_range_fail_once(kind, integer_number(v), path);
}

/// The search for a key from the offset `from` stops at the first member
/// that has it, or at the end.
proof fn lemma_position_from(members: Seq<(Seq<char>, JsonModel)>, name: Seq<char>, from: nat)
    ensures
        from <= position_from(members, name, from) || from >= members.len(),
        position_from(members, name, from) <= members.len(),
        position_from(members, name, from) < members.len() ==> members[position_from(
            members,
            name,
            from,
        ) as int].0 == name,
        forall|k: int|
            from <= k < position_from(members, name, from) ==> (#[trigger] members[k]).0 != name,
    decreases members.len() - from,
{
    if from < members.len() && members[from as int].0 != name {
        lemma_position_from(members, name, from + 1);
    }
}

/// An object holds a key exactly if one of its members has it, and the
/// member that is converted for a key is the first that has it.
pub proof fn law_first_member_with_a_key_counts(
    members: Seq<(Seq<char>, JsonModel)>,
    name: Seq<char>,
)
    ensures
        holds_key(members, name) <==> exists|j: int|
            0 <= j < members.len() && (#[trigger] members[j]).0 == name,
        holds_key(members, name) ==> members[position_of(members, name) as int].0 == name,
        forall|k: int| 0 <= k < position_of(members, name) ==> (#[trigger] members[k]).0 != name,
{
    lemma_position_from(members, name, 0);
}

/// A field that the object does not hold is recorded as missing, at the
/// path of the object: for a record at the root, under the pointer `#`.
pub proof fn law_missing_field_is_reported(
    members: Seq<(Seq<char>, JsonModel)>,
    fields: Seq<(Seq<char>, ShapeModel)>,
    path: Seq<Seq<char>>,
    i: int,
)
    requires
        0 <= i < fields.len(),
        !holds_key(members, fields[i].0),
    ensures
        decode(JsonModel::Object(members), ShapeModel::Record(fields), path).errors.contains(
            missing_field(path, fields[i].0),
        ),
        missing_field(path, fields[i].0).name == fields[i].0,
        missing_field(path, fields[i].0).pointer == pointer_of(path),
        path.len() == 0 ==> missing_field(path, fields[i].0).pointer == "#"@,
{
    reveal_strlit("#");
    assert("#"@ =~= seq!['#']);
    lemma_missing_is_listed(members, fields, path, fields.len(), i);
    let missing = missing_fields(members, fields, path, fields.len());
    let present = decode_fields(members, fields, path, fields.len()).errors;
    let j = choose|j: int| 0 <= j < missing.len() && missing[j] == missing_field(path, fields[i].0);
    assert((present + missing)[present.len() + j] == missing_field(path, fields[i].0));
}

proof fn lemma_missing_is_listed(
    members: Seq<(Seq<char>, JsonModel)>,
    fields: Seq<(Seq<char>, ShapeModel)>,
    path: Seq<Seq<char>>,
    count: nat,
    i: int,
)
    requires
        0 <= i < count <= fields.len(),
        !holds_key(members, fields[i].0),
    ensures
        exists|j: int|
            0 <= j < missing_fields(members, fields, path, count).len() && missing_fields(
                members,
                fields,
                path,
                count,
            )[j] == missing_field(path, fields[i].0),
    decreases count,
{
    let listed = missing_fields(members, fields, path, count);
    if i == count - 1 {
        assert(listed[listed.len() - 1] == missing_field(path, fields[i].0));
    } else {
        lemma_missing_is_listed(members, fields, path, (count - 1) as nat, i);
        let before = missing_fields(members, fields, path, (count - 1) as nat);
        let j = choose|j: int| 0 <= j < before.len() && before[j] == missing_field(path, fields[i].0);
        assert(listed[j] == missing_field(path, fields[i].0));
    }
}

/// The shape of a single value: a boolean, an integer, a number or a string.
pub open spec fn is_plain(shape: ShapeModel) -> bool {
    shape is Boolean || shape is Integer || shape is Float32 || shape is Float64 || shape is Text
}

/// The field is violated: the object does not hold it, or holds it with a
/// value that does not convert to the field's shape.
pub open spec fn is_violated(
    members: Seq<(Seq<char>, JsonModel)>,
    field: (Seq<char>, ShapeModel),
    path: Seq<Seq<char>>,
) -> bool {
    !holds_key(members, field.0) || decode(
        members[position_of(members, field.0) as int].1,
        field.1,
        path.push(field.0),
    ).errors.len() > 0
}

/// The number of violated fields among the first `count` fields.
pub open spec fn violations(
    members: Seq<(Seq<char>, JsonModel)>,
    fields: Seq<(Seq<char>, ShapeModel)>,
    path: Seq<Seq<char>>,
    count: nat,
) -> nat
    decreases count,
{
    if count == 0 || count > fields.len() {
        0
    } else {
        violations(members, fields, path, (count - 1) as nat) + if is_violated(
            members,
            fields[count - 1],
            path,
        ) {
            1nat
        } else {
            0nat
        }
    }
}

/// Where a failure of the field with the given name is recorded: at the
/// field's own path if the object holds it, at the object's if not.
pub open spec fn place_of(
    members: Seq<(Seq<char>, JsonModel)>,
    name: Seq<char>,
    path: Seq<Seq<char>>,
) -> Seq<char> {
    if holds_key(members, name) {
        pointer_of(path.push(name))
    } else {
        pointer_of(path)
    }
}

/// A single value gives at most one failure, under the name of the last
/// segment of its path and with the pointer of its path.
pub proof fn law_plain_value_fails_at_most_once(
    node: JsonModel,
    shape: ShapeModel,
    path: Seq<Seq<char>>,
)
    requires
        is_plain(shape),
    ensures
        decode(node, shape, path).errors.len() <= 1,
        decode(node, shape, path).value is Some,
        forall|j: int|
            0 <= j < decode(node, shape, path).errors.len() ==> (#[trigger] decode(
                node,
                shape,
                path,
            ).errors[j]).name == name_at(path) && decode(node, shape, path).errors[j].pointer
                == pointer_of(path),
{
}

proof fn lemma_present_count(
    members: Seq<(Seq<char>, JsonModel)>,
    fields: Seq<(Seq<char>, ShapeModel)>,
    path: Seq<Seq<char>>,
    count: nat,
)
    requires
        count <= fields.len(),
        forall|i: int| 0 <= i < fields.len() ==> is_plain(#[trigger] fields[i].1),
    ensures
        decode_fields(members, fields, path, count).errors.len() + missing_fields(
            members,
            fields,
            path,
            count,
        ).len() == violations(members, fields, path, count),
    decreases count,
{
    if count > 0 {
        lemma_present_count(members, fields, path, (count - 1) as nat);
        let name = fields[count - 1].0;
        assert(is_plain(fields[count - 1].1));
        if holds_key(members, name) {
            law_plain_value_fails_at_most_once(
                members[position_of(members, name) as int].1,
                fields[count - 1].1,
                path.push(name),
            );
        }
    }
}

proof fn lemma_present_is_listed(
    members: Seq<(Seq<char>, JsonModel)>,
    fields: Seq<(Seq<char>, ShapeModel)>,
    path: Seq<Seq<char>>,
    count: nat,
    i: int,
)
    requires
        0 <= i < count <= fields.len(),
        forall|k: int| 0 <= k < fields.len() ==> is_plain(#[trigger] fields[k].1),
        holds_key(members, fields[i].0),
        is_violated(members, fields[i], path),
    ensures
        exists|j: int|
            0 <= j < decode_fields(members, fields, path, count).errors.len() && (
            #[trigger] decode_fields(members, fields, path, count).errors[j]).name == fields[i].0
                && decode_fields(members, fields, path, count).errors[j].pointer == pointer_of(
                path.push(fields[i].0),
            ),
    decreases count,
{
    let listed = decode_fields(members, fields, path, count).errors;
    let before = decode_fields(members, fields, path, (count - 1) as nat).errors;
    if i == count - 1 {
        let name = fields[i].0;
        assert(is_plain(fields[i].1));
        law_plain_value_fails_at_most_once(
            members[position_of(members, name) as int].1,
            fields[i].1,
            path.push(name),
        );
        let this = decode(members[position_of(members, name) as int].1, fields[i].1, path.push(name));
        assert(listed == before + this.errors);
        assert(listed[before.len() as int] == this.errors[0]);
        assert(name_at(path.push(name)) == name);
    } else {
        lemma_present_is_listed(members, fields, path, (count - 1) as nat, i);
        let j = choose|j: int|
            0 <= j < before.len() && (#[trigger] before[j]).name == fields[i].0 && before[j].pointer
                == pointer_of(path.push(fields[i].0));
        assert(listed[j] == before[j]);
    }
}

/// Completeness, counted by fields. Let a record of single values be asked
/// of an object. Then the failures are as many as the violated fields: one
/// for each field that is missing or holds a value of the wrong kind or out
/// of range. And each violated field has a failure under its name, with the
/// pointer of the field if the object holds it and of the object if it
/// does not.
pub proof fn law_every_violation_is_reported_once(
    members: Seq<(Seq<char>, JsonModel)>,
    fields: Seq<(Seq<char>, ShapeModel)>,
    path: Seq<Seq<char>>,
)
    requires
        forall|i: int| 0 <= i < fields.len() ==> is_plain(#[trigger] fields[i].1),
    ensures
        decode(JsonModel::Object(members), ShapeModel::Record(fields), path).errors.len()
            == violations(members, fields, path, fields.len()),
        forall|i: int|
            0 <= i < fields.len() && is_violated(members, #[trigger] fields[i], path) ==> exists|
                j: int,
            |
                0 <= j < decode(
                    JsonModel::Object(members),
                    ShapeModel::Record(fields),
                    path,
                ).errors.len() && (#[trigger] decode(
                    JsonModel::Object(members),
                    ShapeModel::Record(fields),
                    path,
                ).errors[j]).name == fields[i].0 && decode(
                    JsonModel::Object(members),
                    ShapeModel::Record(fields),
                    path,
                ).errors[j].pointer == place_of(members, fields[i].0, path),
{
    let errors = decode(JsonModel::Object(members), ShapeModel::Record(fields), path).errors;
    let present = decode_fields(members, fields, path, fields.len()).errors;
    let missing = missing_fields(members, fields, path, fields.len());
    assert(errors == present + missing);
    lemma_present_count(members, fields, path, fields.len());
    assert forall|i: int|
        0 <= i < fields.len() && is_violated(members, #[trigger] fields[i], path) implies exists|
        j: int,
    |
        0 <= j < errors.len() && (#[trigger] errors[j]).name == fields[i].0 && errors[j].pointer
            == place_of(members, fields[i].0, path) by {
        if holds_key(members, fields[i].0) {
            lemma_present_is_listed(members, fields, path, fields.len(), i);
            let j = choose|j: int|
                0 <= j < present.len() && (#[trigger] present[j]).name == fields[i].0
                    && present[j].pointer == pointer_of(path.push(fields[i].0));
            assert(errors[j] == present[j]);
        } else {
            lemma_missing_is_listed(members, fields, path, fields.len(), i);
            let j = choose|j: int|
                0 <= j < missing.len() && missing[j] == missing_field(path, fields[i].0);
            assert(errors[present.len() + j] == missing[j]);
        }
    }
}

/// A place in a document at which something is wrong: the name under
/// which the failure is recorded, and its pointer.
pub struct Place {
    pub name: Seq<char>,
    pub pointer: Seq<char>,
}

/// The place of the value at `path`.
pub open spec fn place_at(path: Seq<Seq<char>>) -> Place {
    Place { name: name_at(path), pointer: pointer_of(path) }
}

/// The value is one of the shape, where the shape is that of a single
/// value: a boolean for a boolean, a string for a string, a number for a
/// number, and for an integer type a number that is an integer of it.
pub open spec fn fits_plain(node: JsonModel, shape: ShapeModel) -> bool {
    match shape {
        ShapeModel::Boolean => node is Bool,
        ShapeModel::Text => node is Text,
        ShapeModel::Integer(kind) => node matches JsonModel::Number(n) && read_integer(
            n,
            kind,
        ) is Some,
        ShapeModel::Float32 => node is Number,
        ShapeModel::Float64 => node is Number,
        _ => true,
    }
}

/// The violations of a value against a shape, as places, in the order of
/// the walk. A single value of the wrong kind or out of range is violated
/// at its own place, and so is a value that should be an array or an object
/// and is neither. An array and an object are violated where their elements
/// and members are. A record is violated where the members that its fields
/// name are, and then once for each field that the object does not hold:
/// under the name of the field, at the place of the object.
pub open spec fn violated_places(
    node: JsonModel,
    shape: ShapeModel,
    path: Seq<Seq<char>>,
) -> Seq<Place>
    decreases node, 1nat,
{
    match shape {
        ShapeModel::Sequence(item) => places_in_sequence(node, *item, path),
        ShapeModel::Mapping(item) => places_in_mapping(node, *item, path),
        ShapeModel::Record(fields) => match node {
            JsonModel::Object(members) => places_in_fields(members, fields, path, fields.len())
                + missing_places(members, fields, path, fields.len()),
            _ => seq![place_at(path)],
        },
        ShapeModel::Any => match node {
            JsonModel::Array(_) => places_in_sequence(node, ShapeModel::Any, path),
            JsonModel::Object(_) => places_in_mapping(node, ShapeModel::Any, path),
            _ => seq![],
        },
        _ => if fits_plain(node, shape) {
            seq![]
        } else {
            seq![place_at(path)]
        },
    }
}

/// The violations of a value that should be an array of values of the
/// shape `item`.
pub open spec fn places_in_sequence(
    node: JsonModel,
    item: ShapeModel,
    path: Seq<Seq<char>>,
) -> Seq<Place>
    decreases node, 0nat,
{
    match node {
        JsonModel::Array(items) => places_in_items(items, item, path, items.len()),
        _ => seq![place_at(path)],
    }
}

/// The violations of a value that should be an object of values of the
/// shape `item`.
pub open spec fn places_in_mapping(
    node: JsonModel,
    item: ShapeModel,
    path: Seq<Seq<char>>,
) -> Seq<Place>
    decreases node, 0nat,
{
    match node {
        JsonModel::Object(members) => places_in_members(members, item, path, members.len()),
        _ => seq![place_at(path)],
    }
}

/// The violations of the first `count` elements of an array.
pub open spec fn places_in_items(
    items: Seq<JsonModel>,
    item: ShapeModel,
    path: Seq<Seq<char>>,
    count: nat,
) -> Seq<Place>
    decreases items, count,
{
    if count == 0 || count > items.len() {
        seq![]
    } else {
        places_in_items(items, item, path, (count - 1) as nat) + violated_places(
            items[count - 1],
            item,
            path.push(decimal(count - 1)),
        )
    }
}

/// The violations of the first `count` members of an object.
pub open spec fn places_in_members(
    members: Seq<(Seq<char>, JsonModel)>,
    item: ShapeModel,
    path: Seq<Seq<char>>,
    count: nat,
) -> Seq<Place>
    decreases members, count,
{
    if count == 0 || count > members.len() {
        seq![]
    } else {
        places_in_members(members, item, path, (count - 1) as nat) + violated_places(
            members[count - 1].1,
            item,
            path.push(members[count - 1].0),
        )
    }
}

/// The violations of the members that the first `count` fields of a record
/// name.
pub open spec fn places_in_fields(
    members: Seq<(Seq<char>, JsonModel)>,
    fields: Seq<(Seq<char>, ShapeModel)>,
    path: Seq<Seq<char>>,
    count: nat,
) -> Seq<Place>
    decreases members, count,
{
    if count == 0 || count > fields.len() {
        seq![]
    } else {
        let before = places_in_fields(members, fields, path, (count - 1) as nat);
        let name = fields[count - 1].0;
        if holds_key(members, name) {
            before + violated_places(
                members[position_of(members, name) as int].1,
                fields[count - 1].1,
                path.push(name),
            )
        } else {
            before
        }
    }
}

/// The places of those of the first `count` fields of a record that the
/// object does not hold.
pub open spec fn missing_places(
    members: Seq<(Seq<char>, JsonModel)>,
    fields: Seq<(Seq<char>, ShapeModel)>,
    path: Seq<Seq<char>>,
    count: nat,
) -> Seq<Place>
    decreases count,
{
    if count == 0 || count > fields.len() {
        seq![]
    } else {
        let before = missing_places(members, fields, path, (count - 1) as nat);
        let name = fields[count - 1].0;
        if holds_key(members, name) {
            before
        } else {
            before.push(Place { name, pointer: pointer_of(path) })
        }
    }
}

/// The places that a list of failures names, in order.
pub open spec fn places_of(errors: Seq<InvalidParamView>) -> Seq<Place> {
    Seq::new(errors.len(), |j: int| Place { name: errors[j].name, pointer: errors[j].pointer })
}

/// The places of two lists of failures, one after the other.
proof fn lemma_places_of_joined(first: Seq<InvalidParamView>, second: Seq<InvalidParamView>)
    ensures
        places_of(first + second) == places_of(first) + places_of(second),
{
    assert(places_of(first + second) =~= places_of(first) + places_of(second));
}

/// Completeness, for every value and every shape. The failures found are
/// the violations, one for one and in the same order: there are as many
/// failures as violations, and each failure has the name and the pointer of
/// its violation.
pub proof fn law_failures_are_the_violations(
    node: JsonModel,
    shape: ShapeModel,
    path: Seq<Seq<char>>,
)
    ensures
        places_of(decode(node, shape, path).errors) == violated_places(node, shape, path),
        decode(node, shape, path).errors.len() == violated_places(node, shape, path).len(),
    decreases node, 1nat,
{
    let errors = decode(node, shape, path).errors;
    match shape {
        ShapeModel::Sequence(item) => lemma_sequence_places(node, *item, path),
        ShapeModel::Mapping(item) => lemma_mapping_places(node, *item, path),
        ShapeModel::Record(fields) => match node {
            JsonModel::Object(members) => {
                lemma_fields_places(members, fields, path, fields.len());
                lemma_missing_places(members, fields, path, fields.len());
                lemma_places_of_joined(
                    decode_fields(members, fields, path, fields.len()).errors,
                    missing_fields(members, fields, path, fields.len()),
                );
            },
            _ => {
                assert(places_of(errors) =~= seq![place_at(path)]);
            },
        },
        ShapeModel::Any => match node {
            JsonModel::Array(_) => lemma_sequence_places(node, ShapeModel::Any, path),
            JsonModel::Object(_) => lemma_mapping_places(node, ShapeModel::Any, path),
            _ => {
                assert(places_of(errors) =~= Seq::<Place>::empty());
            },
        },
        _ => {
            if fits_plain(node, shape) {
                assert(places_of(errors) =~= Seq::<Place>::empty());
            } else {
                assert(places_of(errors) =~= seq![place_at(path)]);
            }
        },
    }
    assert(places_of(errors).len() == errors.len());
}

proof fn lemma_sequence_places(node: JsonModel, item: ShapeModel, path: Seq<Seq<char>>)
    ensures
        places_of(decode_sequence(node, item, path).errors) == places_in_sequence(
            node,
            item,
            path,
        ),
    decreases node, 0nat,
{
    match node {
        JsonModel::Array(items) => lemma_items_places(items, item, path, items.len()),
        _ => {
            assert(places_of(decode_sequence(node, item, path).errors) =~= seq![place_at(path)]);
        },
    }
}

proof fn lemma_mapping_places(node: JsonModel, item: ShapeModel, path: Seq<Seq<char>>)
    ensures
        places_of(decode_mapping(node, item, path).errors) == places_in_mapping(node, item, path),
    decreases node, 0nat,
{
    match node {
        JsonModel::Object(members) => lemma_members_places(members, item, path, members.len()),
        _ => {
            assert(places_of(decode_mapping(node, item, path).errors) =~= seq![place_at(path)]);
        },
    }
}

proof fn lemma_items_places(
    items: Seq<JsonModel>,
    item: ShapeModel,
    path: Seq<Seq<char>>,
    count: nat,
)
    ensures
        places_of(decode_items(items, item, path, count).errors) == places_in_items(
            items,
            item,
            path,
            count,
        ),
    decreases items, count,
{
    if count == 0 || count > items.len() {
        assert(places_of(decode_items(items, item, path, count).errors) =~= Seq::<Place>::empty());
    } else {
        lemma_items_places(items, item, path, (count - 1) as nat);
        law_failures_are_the_violations(items[count - 1], item, path.push(decimal(count - 1)));
        lemma_places_of_joined(
            decode_items(items, item, path, (count - 1) as nat).errors,
            decode(items[count - 1], item, path.push(decimal(count - 1))).errors,
        );
    }
}

proof fn lemma_members_places(
    members: Seq<(Seq<char>, JsonModel)>,
    item: ShapeModel,
    path: Seq<Seq<char>>,
    count: nat,
)
    ensures
        places_of(decode_members(members, item, path, count).errors) == places_in_members(
            members,
            item,
            path,
            count,
        ),
    decreases members, count,
{
    if count == 0 || count > members.len() {
        assert(places_of(decode_members(members, item, path, count).errors) =~= Seq::<
            Place,
        >::empty());
    } else {
        lemma_members_places(members, item, path, (count - 1) as nat);
        let key = members[count - 1].0;
        law_failures_are_the_violations(members[count - 1].1, item, path.push(key));
        lemma_places_of_joined(
            decode_members(members, item, path, (count - 1) as nat).errors,
            decode(members[count - 1].1, item, path.push(key)).errors,
        );
    }
}

proof fn lemma_fields_places(
    members: Seq<(Seq<char>, JsonModel)>,
    fields: Seq<(Seq<char>, ShapeModel)>,
    path: Seq<Seq<char>>,
    count: nat,
)
    ensures
        places_of(decode_fields(members, fields, path, count).errors) == places_in_fields(
            members,
            fields,
            path,
            count,
        ),
    decreases members, count,
{
    if count == 0 || count > fields.len() {
        assert(places_of(decode_fields(members, fields, path, count).errors) =~= Seq::<
            Place,
        >::empty());
    } else {
        lemma_fields_places(members, fields, path, (count - 1) as nat);
        let name = fields[count - 1].0;
        if holds_key(members, name) {
            let child = members[position_of(members, name) as int].1;
            law_failures_are_the_violations(child, fields[count - 1].1, path.push(name));
            lemma_places_of_joined(
                decode_fields(members, fields, path, (count - 1) as nat).errors,
                decode(child, fields[count - 1].1, path.push(name)).errors,
            );
        }
    }
}

proof fn lemma_missing_places(
    members: Seq<(Seq<char>, JsonModel)>,
    fields: Seq<(Seq<char>, ShapeModel)>,
    path: Seq<Seq<char>>,
    count: nat,
)
    ensures
        places_of(missing_fields(members, fields, path, count)) == missing_places(
            members,
            fields,
            path,
            count,
        ),
    decreases count,
{
    if count == 0 || count > fields.len() {
        assert(places_of(missing_fields(members, fields, path, count)) =~= Seq::<Place>::empty());
    } else {
        lemma_missing_places(members, fields, path, (count - 1) as nat);
        let name = fields[count - 1].0;
        if !holds_key(members, name) {
            let before = missing_fields(members, fields, path, (count - 1) as nat);
            assert(places_of(before.push(missing_field(path, name))) =~= places_of(before).push(
                Place { name, pointer: pointer_of(path) },
            ));
        }
    }
}

/// A document fails exactly if it has a violation, and then its description
/// lists as many invalid parameters as there are violations, each with the
/// name and the pointer of its violation.
pub proof fn law_description_lists_the_violations(tree: JsonModel, shape: ShapeModel)
    ensures
        violated_places(tree, shape, Seq::empty()).len() == 0 ==> verdict(
            decode(tree, shape, Seq::empty()),
        ) is Valid,
        violated_places(tree, shape, Seq::empty()).len() > 0 ==> (verdict(
            decode(tree, shape, Seq::empty()),
        ) matches Outcome::Invalid(e) && places_of(e.invalid_params) == violated_places(
            tree,
            shape,
            Seq::empty(),
        )),
{
    law_failures_are_the_violations(tree, shape, Seq::empty());
    law_given_up_is_recorded(tree, shape, Seq::empty());
}

/// Where any value is accepted, every value converts and nothing fails.
pub proof fn law_anything_is_accepted(node: JsonModel, path: Seq<Seq<char>>)
    ensures
        decode(node, ShapeModel::Any, path).errors.len() == 0,
        decode(node, ShapeModel::Any, path).value is Some,
    decreases node, 1nat,
{
    match node {
        JsonModel::Array(items) => lemma_any_items(items, path, items.len()),
        JsonModel::Object(members) => lemma_any_members(members, path, members.len()),
        _ => {},
    }
}

proof fn lemma_any_items(items: Seq<JsonModel>, path: Seq<Seq<char>>, count: nat)
    ensures
        decode_items(items, ShapeModel::Any, path, count).errors.len() == 0,
        decode_items(items, ShapeModel::Any, path, count).complete,
    decreases items, count,
{
    if count == 0 || count > items.len() {
    } else {
        lemma_any_items(items, path, (count - 1) as nat);
        law_anything_is_accepted(items[count - 1], path.push(decimal(count - 1)));
    }
}

proof fn lemma_any_members(
    members: Seq<(Seq<char>, JsonModel)>,
    path: Seq<Seq<char>>,
    count: nat,
)
    ensures
        decode_members(members, ShapeModel::Any, path, count).errors.len() == 0,
        decode_members(members, ShapeModel::Any, path, count).complete,
    decreases members, count,
{
    if count == 0 || count > members.len() {
    } else {
        lemma_any_members(members, path, (count - 1) as nat);
        law_anything_is_accepted(members[count - 1].1, path.push(members[count - 1].0));
    }
}

/// Every text begins with itself.
proof fn lemma_prefix_of_itself(a: Seq<char>)
    ensures
        starts_with(a, a),
{
    assert(a.subrange(0, a.len() as int) =~= a);
}

/// The beginning of a beginning of a text is a beginning of the text.
proof fn lemma_prefix_of_prefix(a: Seq<char>, b: Seq<char>, c: Seq<char>)
    requires
        starts_with(a, b),
        starts_with(b, c),
    ensures
        starts_with(a, c),
{
    assert(a.subrange(0, c.len() as int) =~= b.subrange(0, c.len() as int));
}

/// The pointer of a place begins with the pointer of the place above it.
proof fn lemma_pointer_extends(path: Seq<Seq<char>>, segment: Seq<char>)
    ensures
        starts_with(pointer_of(path.push(segment)), pointer_of(path)),
{
    assert(path.push(segment).drop_last() =~= path);
    let whole = pointer_of(path.push(segment));
    assert(whole.subrange(0, pointer_of(path).len() as int) =~= pointer_of(path));
}

/// The pointer of each of the failures begins with the pointer of `path`.
pub open spec fn lie_below(errors: Seq<InvalidParamView>, path: Seq<Seq<char>>) -> bool {
    forall|j: int|
        0 <= j < errors.len() ==> starts_with((#[trigger] errors[j]).pointer, pointer_of(path))
}

proof fn lemma_child_lies_below(
    errors: Seq<InvalidParamView>,
    path: Seq<Seq<char>>,
    segment: Seq<char>,
)
    requires
        lie_below(errors, path.push(segment)),
    ensures
        lie_below(errors, path),
{
    assert forall|j: int| 0 <= j < errors.len() implies starts_with(
        (#[trigger] errors[j]).pointer,
        pointer_of(path),
    ) by {
        lemma_pointer_extends(path, segment);
        lemma_prefix_of_prefix(errors[j].pointer, pointer_of(path.push(segment)), pointer_of(path));
    }
}

proof fn lemma_joined_lie_below(
    first: Seq<InvalidParamView>,
    second: Seq<InvalidParamView>,
    path: Seq<Seq<char>>,
)
    requires
        lie_below(first, path),
        lie_below(second, path),
    ensures
        lie_below(first + second, path),
{
    assert forall|j: int| 0 <= j < (first + second).len() implies starts_with(
        (#[trigger] (first + second)[j]).pointer,
        pointer_of(path),
    ) by {
        if j < first.len() {
            assert((first + second)[j] == first[j]);
        } else {
            assert((first + second)[j] == second[j - first.len()]);
        }
    }
}

/// Every failure is recorded in the place of the value or below it: the
/// pointer of each failure found while converting a value begins with the
/// pointer of the value.
pub proof fn law_failures_lie_below_the_value(
    node: JsonModel,
    shape: ShapeModel,
    path: Seq<Seq<char>>,
)
    ensures
        lie_below(decode(node, shape, path).errors, path),
    decreases node, 1nat,
{
    lemma_prefix_of_itself(pointer_of(path));
    match shape {
        ShapeModel::Sequence(item) => lemma_sequence_lies_below(node, *item, path),
        ShapeModel::Mapping(item) => lemma_mapping_lies_below(node, *item, path),
        ShapeModel::Record(fields) => match node {
            JsonModel::Object(members) => {
                lemma_fields_lie_below(members, fields, path, fields.len());
                lemma_missing_lie_below(members, fields, path, fields.len());
                lemma_joined_lie_below(
                    decode_fields(members, fields, path, fields.len()).errors,
                    missing_fields(members, fields, path, fields.len()),
                    path,
                );
            },
            _ => {},
        },
        ShapeModel::Any => match node {
            JsonModel::Array(_) => lemma_sequence_lies_below(node, ShapeModel::Any, path),
            JsonModel::Object(_) => lemma_mapping_lies_below(node, ShapeModel::Any, path),
            _ => {},
        },
        _ => {},
    }
}

proof fn lemma_sequence_lies_below(node: JsonModel, item: ShapeModel, path: Seq<Seq<char>>)
    ensures
        lie_below(decode_sequence(node, item, path).errors, path),
    decreases node, 0nat,
{
    lemma_prefix_of_itself(pointer_of(path));
    match node {
        JsonModel::Array(items) => lemma_items_lie_below(items, item, path, items.len()),
        _ => {},
    }
}

proof fn lemma_mapping_lies_below(node: JsonModel, item: ShapeModel, path: Seq<Seq<char>>)
    ensures
        lie_below(decode_mapping(node, item, path).errors, path),
    decreases node, 0nat,
{
    lemma_prefix_of_itself(pointer_of(path));
    match node {
        JsonModel::Object(members) => lemma_members_lie_below(members, item, path, members.len()),
        _ => {},
    }
}

proof fn lemma_items_lie_below(
    items: Seq<JsonModel>,
    item: ShapeModel,
    path: Seq<Seq<char>>,
    count: nat,
)
    ensures
        lie_below(decode_items(items, item, path, count).errors, path),
    decreases items, count,
{
    if count == 0 || count > items.len() {
    } else {
        lemma_items_lie_below(items, item, path, (count - 1) as nat);
        let segment = decimal(count - 1);
        law_failures_lie_below_the_value(items[count - 1], item, path.push(segment));
        lemma_child_lies_below(
            decode(items[count - 1], item, path.push(segment)).errors,
            path,
            segment,
        );
        lemma_joined_lie_below(
            decode_items(items, item, path, (count - 1) as nat).errors,
            decode(items[count - 1], item, path.push(segment)).errors,
            path,
        );
    }
}

proof fn lemma_members_lie_below(
    members: Seq<(Seq<char>, JsonModel)>,
    item: ShapeModel,
    path: Seq<Seq<char>>,
    count: nat,
)
    ensures
        lie_below(decode_members(members, item, path, count).errors, path),
    decreases members, count,
{
    if count == 0 || count > members.len() {
    } else {
        lemma_members_lie_below(members, item, path, (count - 1) as nat);
        let key = members[count - 1].0;
        law_failures_lie_below_the_value(members[count - 1].1, item, path.push(key));
        lemma_child_lies_below(
            decode(members[count - 1].1, item, path.push(key)).errors,
            path,
            key,
        );
        lemma_joined_lie_below(
            decode_members(members, item, path, (count - 1) as nat).errors,
            decode(members[count - 1].1, item, path.push(key)).errors,
            path,
        );
    }
}

proof fn lemma_fields_lie_below(
    members: Seq<(Seq<char>, JsonModel)>,
    fields: Seq<(Seq<char>, ShapeModel)>,
    path: Seq<Seq<char>>,
    count: nat,
)
    ensures
        lie_below(decode_fields(members, fields, path, count).errors, path),
    decreases members, count,
{
    if count == 0 || count > fields.len() {
    } else {
        lemma_fields_lie_below(members, fields, path, (count - 1) as nat);
        let name = fields[count - 1].0;
        if holds_key(members, name) {
            let child = members[position_of(members, name) as int].1;
            law_failures_lie_below_the_value(child, fields[count - 1].1, path.push(name));
            lemma_child_lies_below(
                decode(child, fields[count - 1].1, path.push(name)).errors,
                path,
                name,
            );
            lemma_joined_lie_below(
                decode_fields(members, fields, path, (count - 1) as nat).errors,
                decode(child, fields[count - 1].1, path.push(name)).errors,
                path,
            );
        }
    }
}

proof fn lemma_missing_lie_below(
    members: Seq<(Seq<char>, JsonModel)>,
    fields: Seq<(Seq<char>, ShapeModel)>,
    path: Seq<Seq<char>>,
    count: nat,
)
    ensures
        lie_below(missing_fields(members, fields, path, count), path),
    decreases count,
{
    lemma_prefix_of_itself(pointer_of(path));
    if count == 0 || count > fields.len() {
    } else {
        lemma_missing_lie_below(members, fields, path, (count - 1) as nat);
    }
}

} // verus!
