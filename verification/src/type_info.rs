//! The names of Rust types, and the JSON formats that stand for them in
//! messages.

use crate::text::{
    chars_of, contains, contains_phrase, occurs_at, occurs_at_index, starts_with,
    starts_with_phrase,
};
use vstd::prelude::*;

verus! {

/// The name of a Rust type and the JSON format of its values.
#[derive(Debug)]
pub struct TypeInfo {
    /// The name of the type, without the modules it lives in.
    pub rust_type: String,
    /// The JSON format of a value of the type.
    pub json_format: String,
}

impl Clone for TypeInfo {
    fn clone(&self) -> (r: Self)
        ensures
            r.rust_type@ == self.rust_type@,
            r.json_format@ == self.json_format@,
    {
        TypeInfo { rust_type: self.rust_type.clone(), json_format: self.json_format.clone() }
    }
}

/// `s` with every occurrence of `pattern` taken out. Occurrences are looked
/// for from the left, and none overlaps the one before it.
pub open spec fn without(s: Seq<char>, pattern: Seq<char>) -> Seq<char>
    decreases s.len(),
{
    if pattern.len() == 0 || s.len() < pattern.len() {
        s
    } else if starts_with(s, pattern) {
        without(s.skip(pattern.len() as int), pattern)
    } else {
        seq![s[0]] + without(s.skip(1), pattern)
    }
}

/// The part of `s` that follows the last separator. Separators are looked
/// for from the offset `at` on, from the left, and none overlaps the one
/// before it; `start` is where the part after the last one found begins.
pub open spec fn last_piece_from(
    s: Seq<char>,
    separator: Seq<char>,
    at: nat,
    start: nat,
) -> Seq<char>
    decreases s.len() - at,
{
    if separator.len() == 0 || at + separator.len() > s.len() {
        s.skip(start as int)
    } else if occurs_at(s, separator, at as int) {
        last_piece_from(s, separator, at + separator.len(), at + separator.len())
    } else {
        last_piece_from(s, separator, at + 1, start)
    }
}

/// The last of the pieces into which the separator splits `s`.
pub open spec fn last_piece(s: Seq<char>, separator: Seq<char>) -> Seq<char> {
    last_piece_from(s, separator, 0, 0)
}

/// The name of a type as it is written in messages. The name of a generic
/// type is kept whole, but for the modules of `Option`, of `Vec` and of the
/// standard collections; of any other name only the last segment is kept.
pub open spec fn short_name(full: Seq<char>) -> Seq<char> {
    if contains(full, "<"@) {
        without(
            without(without(full, "core::option::"@), "alloc::vec::"@),
            "std::collections::"@,
        )
    } else {
        last_piece(full, "::"@)
    }
}

/// The JSON format of the values of the type with the given full name.
pub open spec fn format_of(full: Seq<char>) -> Seq<char> {
    if full == "u8"@ || full == "u16"@ || full == "u32"@ || full == "u64"@ || full == "i8"@
        || full == "i16"@ || full == "i32"@ || full == "i64"@ {
        "integer"@
    } else if full == "f32"@ || full == "f64"@ {
        "number"@
    } else if full == "bool"@ {
        "boolean"@
    } else if full == "char"@ || full == "&str"@ {
        "string"@
    } else if contains(full, "core::option::Option<"@) || contains(full, "Option<"@) {
        "nullable"@
    } else if starts_with(full, "alloc::vec::Vec<"@) || starts_with(full, "Vec<"@) {
        "array"@
    } else if contains(full, "HashMap"@) || contains(full, "BTreeMap"@) {
        "object"@
    } else if contains(full, "String"@) {
        "string"@
    } else {
        "object"@
    }
}

/// `s` with every occurrence of `pattern` taken out. With an empty pattern
/// nothing is taken out.
pub fn remove_all(s: &str, pattern: &str) -> (r: String)
    ensures
        r@ == without(s@, pattern@),
{
    let h = chars_of(s);
    let p = chars_of(pattern);
    if p.len() == 0 {
        return String::from_str(s);
    }
    let mut r = String::new();
    let mut start: usize = 0;
    let mut i: usize = 0;
    assert(s@.subrange(0, 0) =~= Seq::<char>::empty());
    assert(s@.skip(0) =~= s@);
    while p.len() <= h.len() && i <= h.len() - p.len()
        invariant
            h@ == s@,
            p@ == pattern@,
            p@.len() > 0,
            start <= i <= h.len(),
            r@ + s@.subrange(start as int, i as int) + without(s@.skip(i as int), pattern@)
                == without(s@, pattern@),
        decreases h.len() - i,
    {
        let ghost rest = s@.skip(i as int);
        if occurs_at_index(&h, &p, i) {
            proof {
                assert(rest.subrange(0, p@.len() as int) =~= s@.subrange(
                    i as int,
                    i + p@.len(),
                ));
                assert(rest.skip(p@.len() as int) =~= s@.skip(i + p@.len()));
                assert(s@.subrange(i + p@.len(), i + p@.len()) =~= Seq::<char>::empty());
            }
            r.append(s.substring_char(start, i));
            i = i + p.len();
            start = i;
            assert(r@ + s@.subrange(start as int, i as int) + without(
                s@.skip(i as int),
                pattern@,
            ) =~= without(s@, pattern@));
        } else {
            proof {
                assert(rest.subrange(0, p@.len() as int) =~= s@.subrange(
                    i as int,
                    i + p@.len(),
                ));
                assert(rest.skip(1) =~= s@.skip(i + 1));
                assert(s@.subrange(start as int, i as int) + seq![rest[0]] =~= s@.subrange(
                    start as int,
                    i + 1,
                ));
                assert(r@ + s@.subrange(start as int, i as int) + (seq![rest[0]] + without(
                    rest.skip(1),
                    pattern@,
                )) =~= r@ + (s@.subrange(start as int, i as int) + seq![rest[0]]) + without(
                    rest.skip(1),
                    pattern@,
                ));
            }
            i = i + 1;
        }
    }
    proof {
        assert(s@.subrange(start as int, i as int) + s@.skip(i as int) =~= s@.subrange(
            start as int,
            s@.len() as int,
        ));
        assert(r@ + s@.subrange(start as int, i as int) + s@.skip(i as int) =~= r@ + (s@.subrange(
            start as int,
            i as int,
        ) + s@.skip(i as int)));
    }
    r.append(s.substring_char(start, h.len()));
    r
}

/// The last of the pieces into which the separator splits `s`. An empty
/// separator splits nothing.
pub fn last_piece_of(s: &str, separator: &str) -> (r: String)
    ensures
        r@ == last_piece(s@, separator@),
{
    let h = chars_of(s);
    let p = chars_of(separator);
    if p.len() == 0 {
        assert(s@.skip(0) =~= s@);
        return String::from_str(s);
    }
    let mut start: usize = 0;
    let mut i: usize = 0;
    while p.len() <= h.len() && i <= h.len() - p.len()
        invariant
            h@ == s@,
            p@ == separator@,
            p@.len() > 0,
            start <= i <= h.len(),
            last_piece_from(s@, separator@, i as nat, start as nat) == last_piece(
                s@,
                separator@,
            ),
        decreases h.len() - i,
    {
        if occurs_at_index(&h, &p, i) {
            i = i + p.len();
            start = i;
        } else {
            i = i + 1;
        }
    }
    let piece = s.substring_char(start, h.len());
    assert(piece@ =~= s@.skip(start as int));
    String::from_str(piece)
}

/// Whether two strings hold the same characters.
fn same(a: &Vec<char>, b: &str) -> (r: bool)
    ensures
        r == (a@ == b@),
{
    let other = chars_of(b);
    if a.len() != other.len() {
        return false;
    }
    let r = occurs_at_index(a, &other, 0);
    proof {
        assert(a@.subrange(0, a@.len() as int) =~= a@);
    }
    r
}

/// The JSON format of the values of the type with the given full name.
pub fn json_format_of(full: &str) -> (s: &'static str)
    ensures
        s@ == format_of(full@),
{
    let name = chars_of(full);
    if same(&name, "u8") || same(&name, "u16") || same(&name, "u32") || same(&name, "u64")
        || same(&name, "i8") || same(&name, "i16") || same(&name, "i32") || same(&name, "i64") {
        "integer"
    } else if same(&name, "f32") || same(&name, "f64") {
        "number"
    } else if same(&name, "bool") {
        "boolean"
    } else if same(&name, "char") || same(&name, "&str") {
        "string"
    } else if contains_phrase(&name, "core::option::Option<") || contains_phrase(&name, "Option<") {
        "nullable"
    } else if starts_with_phrase(&name, "alloc::vec::Vec<") || starts_with_phrase(&name, "Vec<") {
        "array"
    } else if contains_phrase(&name, "HashMap") || contains_phrase(&name, "BTreeMap") {
        "object"
    } else if contains_phrase(&name, "String") {
        "string"
    } else {
        "object"
    }
}

/// The name under which a type is written in messages, and the JSON format
/// of its values, from the full name of the type.
pub fn extract_type_info(full_type_name: &str) -> (info: TypeInfo)
    ensures
        info.rust_type@ == short_name(full_type_name@),
        info.json_format@ == format_of(full_type_name@),
{
    let name = chars_of(full_type_name);
    let rust_type = if contains_phrase(&name, "<") {
        let a = remove_all(full_type_name, "core::option::");
        let b = remove_all(a.as_str(), "alloc::vec::");
        remove_all(b.as_str(), "std::collections::")
    } else {
        last_piece_of(full_type_name, "::")
    };
    TypeInfo { rust_type, json_format: String::from_str(json_format_of(full_type_name)) }
}

} // verus!
