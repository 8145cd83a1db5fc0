//! A JSON deserialization layer that reports every validation failure of a
//! document at once, as one structured problem description.

pub mod collector;
pub mod decode;
pub mod deserializer;
pub mod entry;
pub mod json;
pub mod laws;
pub mod number;
pub mod parse;
pub mod problem;
pub mod shape;
pub mod text;
pub mod type_info;

pub use collector::ErrorCollector;
pub use deserializer::CollectingDeserializer;
pub use entry::{
    classify_message, conclude, from_str, from_value, get_meaningful_json_error_message,
    syntax_error, SyntaxCategory,
};
pub use json::JsonValue;
pub use number::{IntKind, JsonNumber};
pub use parse::{parse, tree_of, SyntaxDiagnostic};
pub use problem::{Error, ExpectedOrActual, InvalidParam, Result};
pub use shape::{Shape, Typed};
pub use type_info::{extract_type_info, TypeInfo};
