//! The JSON text parser. Parsing is the work of `serde_json`; this module
//! states what the library relies on and copies the parsed tree into a
//! `JsonValue`.

use crate::json::{elements_view, members_view, JsonModel, JsonValue};
use crate::number::{JsonNumber, NumberModel};
use vstd::prelude::*;

verus! {

/// `serde_json::Value`, a parsed JSON tree, opaque to the verifier.
#[verifier::external_type_specification]
#[verifier::external_body]
pub struct ExValue(serde_json::Value);

/// `serde_json::Number`, a parsed JSON number, opaque to the verifier.
#[verifier::external_type_specification]
#[verifier::external_body]
pub struct ExNumber(serde_json::Number);

/// What the parser says of a text that is not well-formed JSON.
#[derive(Debug)]
pub struct SyntaxDiagnostic {
    /// The line at which the parser stopped. The first line is line one.
    pub line: usize,
    /// The column at which the parser stopped. The first character of a
    /// line is in column one; the parser may also report column zero.
    pub column: usize,
    /// The parser's own words.
    pub message: String,
}

/// The mathematical model of a diagnostic.
pub struct DiagnosticModel {
    pub line: nat,
    pub column: nat,
    pub message: Seq<char>,
}

impl View for SyntaxDiagnostic {
    type V = DiagnosticModel;

    open spec fn view(&self) -> DiagnosticModel {
        DiagnosticModel {
            line: self.line as nat,
            column: self.column as nat,
            message: self.message@,
        }
    }
}

/// What `serde_json::from_str` makes of a text: the tree, or the diagnostic.
pub uninterp spec fn parse_of(text: Seq<char>) -> core::result::Result<JsonModel, DiagnosticModel>;

/// The tree that a `serde_json::Value` holds.
pub uninterp spec fn value_model(value: serde_json::Value) -> JsonModel;

/// The number that a `serde_json::Number` holds: an integer written without
/// a sign, a negative integer, or a binary64 value, taken as its bits with
/// the text that the number's `Display` writes.
pub uninterp spec fn number_model(number: serde_json::Number) -> NumberModel;

/// The top of a parsed tree: the kind of the value, with what it holds.
enum JsonNode<'a> {
    Null,
    Bool(bool),
    Number(&'a serde_json::Number),
    Text(&'a String),
    Array(&'a Vec<serde_json::Value>),
    Object(Vec<(&'a String, &'a serde_json::Value)>),
}

/// `node` is the top of the tree `model`.
spec fn is_top_of(node: JsonNode, model: JsonModel) -> bool {
    match node {
        JsonNode::Null => model == JsonModel::Null,
        JsonNode::Bool(b) => model == JsonModel::Bool(b),
        JsonNode::Number(n) => model == JsonModel::Number(number_model(*n)),
        JsonNode::Text(s) => model == JsonModel::Text(s@),
        JsonNode::Array(items) => model == JsonModel::Array(
            Seq::new(items@.len(), |i: int| value_model(items@[i])),
        ),
        JsonNode::Object(members) => model == JsonModel::Object(
            Seq::new(members@.len(), |i: int| (members@[i].0@, value_model(*members@[i].1))),
        ),
    }
}

/// Calls `serde_json::from_str` for a `serde_json::Value`, and reads the
/// line, the column and the `Display` text of the error where it fails. The
/// contract claims that the outcome depends on the text alone.
#[verifier::external_body]
fn parse_text(text: &str) -> (r: core::result::Result<serde_json::Value, SyntaxDiagnostic>)
    ensures
        match r {
            Ok(value) => parse_of(text@) == Ok::<JsonModel, DiagnosticModel>(value_model(value)),
            Err(diagnostic) => parse_of(text@) == Err::<JsonModel, DiagnosticModel>(diagnostic@),
        },
{
    match serde_json::from_str::<serde_json::Value>(text) {
        Ok(value) => Ok(value),
        Err(e) => Err(
            SyntaxDiagnostic { line: e.line(), column: e.column(), message: e.to_string() },
        ),
    }
}

/// Tells the variants of a `serde_json::Value` apart. The contract claims
/// that the value holds what the variant carries: a boolean, a number, a
/// string, the elements in order, or the members in the order in which
/// `serde_json::Map::iter` yields them.
#[verifier::external_body]
fn node_of<'a>(value: &'a serde_json::Value) -> (node: JsonNode<'a>)
    ensures
        is_top_of(node, value_model(*value)),
{
    match value {
        serde_json::Value::Null => JsonNode::Null,
        serde_json::Value::Bool(b) => JsonNode::Bool(*b),
        serde_json::Value::Number(n) => JsonNode::Number(n),
        serde_json::Value::String(s) => JsonNode::Text(s),
        serde_json::Value::Array(items) => JsonNode::Array(items),
        serde_json::Value::Object(map) => JsonNode::Object(map.iter().collect()),
    }
}

/// Calls `serde_json::Number::as_u64`. The contract claims what its source
/// shows: it gives the integer of a number written without a sign, and
/// nothing for any other number.
#[verifier::external_body]
fn number_as_u64(number: &serde_json::Number) -> (r: Option<u64>)
    ensures
        r == match number_model(*number) {
            NumberModel::PosInt(u) => Some(u),
            _ => None::<u64>,
        },
{
    number.as_u64()
}

/// Calls `serde_json::Number::as_i64`. The contract claims what its source
/// shows: it gives a negative integer, and an integer written without a
/// sign if that is in the range of `i64`; for any other number nothing.
#[verifier::external_body]
fn number_as_i64(number: &serde_json::Number) -> (r: Option<i64>)
    ensures
        r == match number_model(*number) {
            NumberModel::PosInt(u) => if u <= i64::MAX {
                Some(u as i64)
            } else {
                None::<i64>
            },
            NumberModel::NegInt(i) => Some(i),
            NumberModel::Float(_, _) => None::<i64>,
        },
{
    number.as_i64()
}

/// Calls `serde_json::Number::as_f64` and takes the bits of what it gives.
/// The contract claims that a number that is no integer gives the bits of
/// its binary64 value; of an integer it claims nothing.
#[verifier::external_body]
fn number_bits(number: &serde_json::Number) -> (r: Option<u64>)
    ensures
        number_model(*number) matches NumberModel::Float(bits, _) ==> r == Some(bits),
{
    number.as_f64().map(|x| x.to_bits())
}

/// Writes a `serde_json::Number` out through its `Display`. The contract
/// claims that a number that is no integer gives the text that stands in
/// its model, which is that very text; of an integer it claims nothing.
#[verifier::external_body]
fn number_text(number: &serde_json::Number) -> (r: String)
    ensures
        number_model(*number) matches NumberModel::Float(_, text) ==> r@ == text,
{
    number.to_string()
}

/// Reads a parsed number.
fn number_of(number: &serde_json::Number) -> (n: JsonNumber)
    ensures
        n@ == number_model(*number),
{
    match number_as_u64(number) {
        Some(u) => JsonNumber::PosInt(u),
        None => match number_as_i64(number) {
            Some(i) => JsonNumber::NegInt(i),
            None => match number_bits(number) {
                Some(bits) => JsonNumber::Float(bits, number_text(number)),
                None => unreached(),
            },
        },
    }
}

/// Copies a parsed tree.
pub fn tree_of(value: &serde_json::Value) -> (tree: JsonValue)
    ensures
        tree@ == value_model(*value),
    decreases value_model(*value),
{
    match node_of(value) {
        JsonNode::Null => JsonValue::Null,
        JsonNode::Bool(b) => JsonValue::Bool(b),
        JsonNode::Number(n) => JsonValue::Number(number_of(n)),
        JsonNode::Text(s) => JsonValue::Text(s.clone()),
        JsonNode::Array(items) => {
            let ghost models = value_model(*value)->Array_0;
            let mut copies: Vec<JsonValue> = Vec::new();
            let mut i: usize = 0;
            while i < items.len()
                invariant
                    i <= items.len(),
                    value_model(*value) == JsonModel::Array(models),
                    models == Seq::new(items@.len(), |k: int| value_model(items@[k])),
                    copies@.len() == i,
                    forall|k: int| 0 <= k < i ==> copies@[k]@ == models[k],
                decreases items.len() - i,
            {
                assert(decreases_to!(value_model(*value) => value_model(*value)->Array_0));
                assert(decreases_to!(models => models[i as int]));
                copies.push(tree_of(&items[i]));
                i += 1;
            }
            assert(elements_view(copies@) =~= models);
            JsonValue::Array(copies)
        },
        JsonNode::Object(members) => {
            let ghost models = value_model(*value)->Object_0;
            let mut copies: Vec<(String, JsonValue)> = Vec::new();
            let mut i: usize = 0;
            while i < members.len()
                invariant
                    i <= members.len(),
                    value_model(*value) == JsonModel::Object(models),
                    models == Seq::new(
                        members@.len(),
                        |k: int| (members@[k].0@, value_model(*members@[k].1)),
                    ),
                    copies@.len() == i,
                    forall|k: int|
                        0 <= k < i ==> (#[trigger] copies@[k]).0@ == models[k].0 && copies@[k].1@
                            == models[k].1,
                decreases members.len() - i,
            {
                assert(decreases_to!(value_model(*value) => value_model(*value)->Object_0));
                assert(decreases_to!(models => models[i as int]));
                assert(decreases_to!(models[i as int] => models[i as int].1));
                let key: String = members[i].0.clone();
                let member = tree_of(members[i].1);
                copies.push((key, member));
                i += 1;
            }
            assert(members_view(copies@) =~= models);
            JsonValue::Object(copies)
        },
    }
}

/// Parses a JSON text. The parser refuses a text that is nested deeper than
/// its recursion limit, as it refuses one that is not well-formed.
pub fn parse(text: &str) -> (r: core::result::Result<JsonValue, SyntaxDiagnostic>)
    ensures
        match r {
            Ok(tree) => parse_of(text@) == Ok::<JsonModel, DiagnosticModel>(tree@),
            Err(diagnostic) => parse_of(text@) == Err::<JsonModel, DiagnosticModel>(diagnostic@),
        },
{
    match parse_text(text) {
        Ok(value) => Ok(tree_of(&value)),
        Err(diagnostic) => Err(diagnostic),
    }
}

} // verus!
