use serdify::extract_type_info;

#[test]
fn test_extract_type_info_primitives() {
    let u8_info = extract_type_info("u8");
    assert_eq!(u8_info.rust_type, "u8");
    assert_eq!(u8_info.json_format, "integer");

    let i32_info = extract_type_info("i32");
    assert_eq!(i32_info.rust_type, "i32");
    assert_eq!(i32_info.json_format, "integer");

    let f64_info = extract_type_info("f64");
    assert_eq!(f64_info.rust_type, "f64");
    assert_eq!(f64_info.json_format, "number");

    let bool_info = extract_type_info("bool");
    assert_eq!(bool_info.rust_type, "bool");
    assert_eq!(bool_info.json_format, "boolean");

    let string_info = extract_type_info("alloc::string::String");
    assert_eq!(string_info.rust_type, "String");
    assert_eq!(string_info.json_format, "string");
}

#[test]
fn test_extract_type_info_complex_types() {
    let vec_info = extract_type_info("alloc::vec::Vec<i32>");
    assert!(vec_info.rust_type.contains("Vec"));
    assert_eq!(vec_info.json_format, "array");

    let option_info = extract_type_info("core::option::Option<alloc::string::String>");
    assert!(option_info.rust_type.contains("Option"));
    assert_eq!(option_info.json_format, "nullable");

    let hashmap_info = extract_type_info("std::collections::hash::map::HashMap<alloc::string::String, i32>");
    assert!(hashmap_info.rust_type.contains("HashMap"));
    assert_eq!(hashmap_info.json_format, "object");
}

#[test]
fn test_extract_type_info_custom_struct() {
    let custom_info = extract_type_info("type_info_tests::CustomStruct");
    assert_eq!(custom_info.rust_type, "CustomStruct");
    assert_eq!(custom_info.json_format, "object");
}

#[test]
fn test_type_info_extraction() {
    let u64_info = extract_type_info("u64");
    assert_eq!(u64_info.rust_type, "u64");
    assert_eq!(u64_info.json_format, "integer");

    let string_info = extract_type_info("alloc::string::String");
    assert_eq!(string_info.rust_type, "String");
    assert_eq!(string_info.json_format, "string");

    let vec_info = extract_type_info("alloc::vec::Vec<i32>");
    assert_eq!(vec_info.rust_type, "Vec<i32>");
    assert_eq!(vec_info.json_format, "array");
}

#[test]
fn type_names_given_as_text() {
    let info = extract_type_info("alloc::vec::Vec<core::option::Option<alloc::string::String>>");
    assert_eq!(info.rust_type, "Vec<Option<alloc::string::String>>");
    assert_eq!(info.json_format, "nullable");

    let info = extract_type_info("std::collections::hash::map::HashMap<u8, u8>");
    assert_eq!(info.rust_type, "hash::map::HashMap<u8, u8>");
    assert_eq!(info.json_format, "object");

    let info = extract_type_info("my_crate::shapes::Point");
    assert_eq!(info.rust_type, "Point");
    assert_eq!(info.json_format, "object");

    let info = extract_type_info("a:::b");
    assert_eq!(info.rust_type, ":b");

    let info = extract_type_info("&str");
    assert_eq!(info.rust_type, "&str");
    assert_eq!(info.json_format, "string");

    let info = extract_type_info("");
    assert_eq!(info.rust_type, "");
    assert_eq!(info.json_format, "object");
}
