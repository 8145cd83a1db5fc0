//! The entry points: from a JSON text, or from a JSON value, to the
//! converted value or the description of everything that is wrong.

use crate::collector::ErrorCollector;
use crate::decode::{decode, Decoded};
use crate::deserializer::CollectingDeserializer;
use crate::json::{JsonModel, JsonValue};
use crate::parse::{parse, parse_of, DiagnosticModel, SyntaxDiagnostic};
use crate::problem::{detail_error, detail_problem, validation_problem, Error, ErrorView, Result};
use crate::shape::{typed_view, Shape, ShapeModel, Typed, TypedModel};
use crate::text::{chars_of, contains, contains_phrase, decimal, push_decimal};
use vstd::prelude::*;

verus! {

/// What a parser's message is about.
#[derive(Clone, Copy, Debug, PartialEq, Eq)]
pub enum SyntaxCategory {
    /// The text ends too early.
    UnexpectedEnd,
    /// A comma stands after the last element.
    TrailingComma,
    /// A string holds a backslash with a character that forms no escape.
    InvalidEscape,
    /// A string holds a control character as it is.
    ControlCharacter,
    /// A string holds half of a surrogate pair.
    SurrogatePair,
    /// The parser expected one token and found another.
    Punctuation,
    /// An object holds a key twice.
    DuplicateField,
    /// A number is not written as JSON asks.
    InvalidNumber,
    /// A value is missing.
    ExpectedValue,
    /// Anything else.
    Other,
}

/// Sorts a parser's message by the phrases it holds. The phrases are tried
/// in the order of the variants, and the first that occurs decides.
pub open spec fn classify(message: Seq<char>) -> SyntaxCategory {
    if contains(message, "EOF while parsing"@) {
        SyntaxCategory::UnexpectedEnd
    } else if contains(message, "trailing comma"@) {
        SyntaxCategory::TrailingComma
    } else if contains(message, "invalid escape"@) {
        SyntaxCategory::InvalidEscape
    } else if contains(message, "control character"@) {
        SyntaxCategory::ControlCharacter
    } else if contains(message, "lone leading surrogate"@) || contains(
        message,
        "lone trailing surrogate"@,
    ) {
        SyntaxCategory::SurrogatePair
    } else if contains(message, "expected"@) && (contains(message, "found"@) || contains(
        message,
        "at"@,
    )) {
        SyntaxCategory::Punctuation
    } else if contains(message, "duplicate field"@) {
        SyntaxCategory::DuplicateField
    } else if contains(message, "invalid number"@) {
        SyntaxCategory::InvalidNumber
    } else if contains(message, "expected value"@) {
        SyntaxCategory::ExpectedValue
    } else {
        SyntaxCategory::Other
    }
}

/// What is said of a message of the given category, after the position.
/// For `Punctuation` this follows the parser's own words; for `Other`
/// nothing does.
pub open spec fn advice(category: SyntaxCategory) -> Seq<char> {
    match category {
        SyntaxCategory::UnexpectedEnd => "Unexpected end of input. The JSON appears to be incomplete. Check for missing closing braces, brackets, or quotes."@,
        SyntaxCategory::TrailingComma => "Trailing comma found. Remove the extra comma after the last element in the object or array."@,
        SyntaxCategory::InvalidEscape => "Invalid escape sequence in string. Use proper JSON escape sequences like \\n, \\t, \\\", \\\\, etc."@,
        SyntaxCategory::ControlCharacter => "Unescaped control character found in string. Control characters (ASCII 0-31) must be escaped using \\uXXXX notation."@,
        SyntaxCategory::SurrogatePair => "Invalid Unicode surrogate pair in string. Ensure Unicode characters are properly encoded."@,
        SyntaxCategory::Punctuation => ". Check for missing commas, quotes, or incorrect punctuation."@,
        SyntaxCategory::DuplicateField => "Duplicate field found in object. JSON objects cannot have duplicate keys."@,
        SyntaxCategory::InvalidNumber => "Invalid number format. Ensure numbers follow JSON specification (no leading zeros, proper decimal notation)."@,
        SyntaxCategory::ExpectedValue => "Expected a JSON value (string, number, boolean, null, object, or array) but found invalid content."@,
        SyntaxCategory::Other => Seq::empty(),
    }
}

/// The position of a syntax error, as every sentence on one begins.
pub open spec fn position_text(line: nat, column: nat) -> Seq<char> {
    "JSON syntax error at line "@ + decimal(line as int) + ", column "@ + decimal(column as int)
        + ": "@
}

/// The sentence that describes a syntax error: its position, then what the
/// category of the parser's message calls for. The parser's own words are
/// kept where they name a token, and where no phrase is recognized.
pub open spec fn syntax_message(diagnostic: DiagnosticModel) -> Seq<char> {
    let head = position_text(diagnostic.line, diagnostic.column);
    match classify(diagnostic.message) {
        SyntaxCategory::Punctuation => head + diagnostic.message + advice(
            SyntaxCategory::Punctuation,
        ),
        SyntaxCategory::Other => head + diagnostic.message,
        category => head + advice(category),
    }
}

/// Sorts a parser's message by the phrases it holds.
pub fn classify_message(message: &str) -> (category: SyntaxCategory)
    ensures
        category == classify(message@),
{
    let m = chars_of(message);
    if contains_phrase(&m, "EOF while parsing") {
        SyntaxCategory::UnexpectedEnd
    } else if contains_phrase(&m, "trailing comma") {
        SyntaxCategory::TrailingComma
    } else if contains_phrase(&m, "invalid escape") {
        SyntaxCategory::InvalidEscape
    } else if contains_phrase(&m, "control character") {
        SyntaxCategory::ControlCharacter
    } else if contains_phrase(&m, "lone leading surrogate") || contains_phrase(
        &m,
        "lone trailing surrogate",
    ) {
        SyntaxCategory::SurrogatePair
    } else if contains_phrase(&m, "expected") && (contains_phrase(&m, "found") || contains_phrase(
        &m,
        "at",
    )) {
        SyntaxCategory::Punctuation
    } else if contains_phrase(&m, "duplicate field") {
        SyntaxCategory::DuplicateField
    } else if contains_phrase(&m, "invalid number") {
        SyntaxCategory::InvalidNumber
    } else if contains_phrase(&m, "expected value") {
        SyntaxCategory::ExpectedValue
    } else {
        SyntaxCategory::Other
    }
}

/// What is said of a message of the given category, after the position.
pub fn advice_text(category: SyntaxCategory) -> (s: &'static str)
    ensures
        s@ == advice(category),
{
    match category {
        SyntaxCategory::UnexpectedEnd => "Unexpected end of input. The JSON appears to be incomplete. Check for missing closing braces, brackets, or quotes.",
        SyntaxCategory::TrailingComma => "Trailing comma found. Remove the extra comma after the last element in the object or array.",
        SyntaxCategory::InvalidEscape => "Invalid escape sequence in string. Use proper JSON escape sequences like \\n, \\t, \\\", \\\\, etc.",
        SyntaxCategory::ControlCharacter => "Unescaped control character found in string. Control characters (ASCII 0-31) must be escaped using \\uXXXX notation.",
        SyntaxCategory::SurrogatePair => "Invalid Unicode surrogate pair in string. Ensure Unicode characters are properly encoded.",
        SyntaxCategory::Punctuation => ". Check for missing commas, quotes, or incorrect punctuation.",
        SyntaxCategory::DuplicateField => "Duplicate field found in object. JSON objects cannot have duplicate keys.",
        SyntaxCategory::InvalidNumber => "Invalid number format. Ensure numbers follow JSON specification (no leading zeros, proper decimal notation).",
        SyntaxCategory::ExpectedValue => "Expected a JSON value (string, number, boolean, null, object, or array) but found invalid content.",
        SyntaxCategory::Other => {
            proof {
                reveal_strlit("");
            }
            assert(""@ =~= Seq::<char>::empty());
            ""
        },
    }
}

/// The sentence that describes a syntax error.
pub fn get_meaningful_json_error_message(diagnostic: &SyntaxDiagnostic) -> (s: String)
    ensures
        s@ == syntax_message(diagnostic@),
{
    let mut s = String::from_str("JSON syntax error at line ");
    push_decimal(&mut s, diagnostic.line as i128);
    s.append(", column ");
    push_decimal(&mut s, diagnostic.column as i128);
    s.append(": ");
    assert(s@ =~= position_text(diagnostic@.line, diagnostic@.column));
    let category = classify_message(diagnostic.message.as_str());
    match category {
        SyntaxCategory::Punctuation => {
            s.append(diagnostic.message.as_str());
            s.append(advice_text(category));
        },
        SyntaxCategory::Other => {
            s.append(diagnostic.message.as_str());
        },
        _ => {
            s.append(advice_text(category));
        },
    }
    s
}

/// The description of a text that is not well-formed JSON. It lists no
/// invalid parameters: the sentence in `detail` says all there is to say.
pub fn syntax_error(diagnostic: &SyntaxDiagnostic) -> (e: Error)
    ensures
        e@ == detail_problem(syntax_message(diagnostic@)),
{
    detail_error(get_meaningful_json_error_message(diagnostic))
}

/// The outcome of a call, over the models of the value and the description.
pub enum Outcome {
    Valid(TypedModel),
    Invalid(ErrorView),
}

/// The model of a result.
pub open spec fn outcome_of(r: Result<Typed>) -> Outcome {
    match r {
        Result::Valid(v) => Outcome::Valid(v@),
        Result::Invalid(e) => Outcome::Invalid(e@),
    }
}

/// What is said where a conversion gave no value and recorded no failure.
pub open spec fn unknown_failure() -> Seq<char> {
    "Deserialization failed with unknown error"@
}

/// The outcome of a walk. With a failure recorded, the outcome is the
/// description that lists every failure, whatever the value. With none, it
/// is the value; and where there is no value either, a description that
/// says no more than that.
pub open spec fn verdict(decoded: Decoded) -> Outcome {
    if decoded.errors.len() > 0 {
        Outcome::Invalid(validation_problem(decoded.errors))
    } else {
        match decoded.value {
            Some(v) => Outcome::Valid(v),
            None => Outcome::Invalid(detail_problem(unknown_failure())),
        }
    }
}

/// The outcome of a call on a text: that of the walk over the parsed tree,
/// from the root; or, for a text that is no JSON, the description of the
/// syntax error.
pub open spec fn outcome_on(
    parsed: core::result::Result<JsonModel, DiagnosticModel>,
    shape: ShapeModel,
) -> Outcome {
    match parsed {
        Ok(tree) => verdict(decode(tree, shape, Seq::empty())),
        Err(diagnostic) => Outcome::Invalid(detail_problem(syntax_message(diagnostic))),
    }
}

/// Ends a walk: hands out the value, or the description of what was found.
pub fn conclude(value: Option<Typed>, collector: ErrorCollector) -> (r: Result<Typed>)
    ensures
        outcome_of(r) == verdict(
            Decoded { value: typed_view(value), errors: collector.reported() },
        ),
{
    if collector.has_errors() {
        Result::Invalid(collector.into_rfc7807_error())
    } else {
        match value {
            Some(v) => Result::Valid(v),
            None => Result::Invalid(
                detail_error(String::from_str("Deserialization failed with unknown error")),
            ),
        }
    }
}

/// Converts a JSON value to `shape` and reports every failure at once.
pub fn from_value(value: &JsonValue, shape: &Shape) -> (r: Result<Typed>)
    ensures
        outcome_of(r) == verdict(decode(value@, shape@, Seq::empty())),
{
    let mut deserializer = CollectingDeserializer::from_json_value(value);
    let converted = deserializer.deserialize(shape);
    let collector = deserializer.into_collector();
    assert(collector.reported() =~= decode(value@, shape@, Seq::empty()).errors);
    conclude(converted, collector)
}

/// Parses a JSON text and converts it to `shape`. A text that is not
/// well-formed JSON gives a description with a sentence in `detail` and no
/// invalid parameters. A well-formed text gives the converted value, or the
/// description that lists every value that did not validate.
pub fn from_str(s: &str, shape: &Shape) -> (r: Result<Typed>)
    ensures
        outcome_of(r) == outcome_on(parse_of(s@), shape@),
{
    match parse(s) {
        Ok(tree) => from_value(&tree, shape),
        Err(diagnostic) => Result::Invalid(syntax_error(&diagnostic)),
    }
}

} // verus!
