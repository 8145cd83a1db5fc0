use serdify::{
    classify_message, conclude, from_str, from_value, get_meaningful_json_error_message, parse,
    syntax_error, tree_of, CollectingDeserializer, ErrorCollector, ExpectedOrActual, IntKind,
    JsonNumber, JsonValue, Result, Shape, SyntaxCategory, SyntaxDiagnostic, Typed,
};

fn record(fields: Vec<(&str, Shape)>) -> Shape {
    Shape::Record(
        fields
            .into_iter()
            .map(|(name, shape)| (name.to_string(), shape))
            .collect(),
    )
}

fn object(members: Vec<(&str, JsonValue)>) -> JsonValue {
    JsonValue::Object(
        members
            .into_iter()
            .map(|(key, value)| (key.to_string(), value))
            .collect(),
    )
}

fn pos(v: u64) -> JsonValue {
    JsonValue::Number(JsonNumber::PosInt(v))
}

fn neg(v: i64) -> JsonValue {
    JsonValue::Number(JsonNumber::NegInt(v))
}

fn float(v: f64, text: &str) -> JsonValue {
    JsonValue::Number(JsonNumber::Float(v.to_bits(), text.to_string()))
}

fn float_number(v: f64, text: &str) -> JsonNumber {
    JsonNumber::Float(v.to_bits(), text.to_string())
}

fn text(s: &str) -> JsonValue {
    JsonValue::Text(s.to_string())
}

fn diagnostic(line: usize, column: usize, message: &str) -> SyntaxDiagnostic {
    SyntaxDiagnostic {
        line,
        column,
        message: message.to_string(),
    }
}

#[test]
fn parsed_tree_holds_what_the_text_says() {
    let tree = parse(r#"{"b": [1, -2, 2.5, "x", true, null], "a": {}}"#).unwrap();
    assert_eq!(
        tree,
        object(vec![
            ("a", object(vec![])),
            (
                "b",
                JsonValue::Array(vec![
                    pos(1),
                    neg(-2),
                    float(2.5, "2.5"),
                    text("x"),
                    JsonValue::Bool(true),
                    JsonValue::Null,
                ])
            ),
        ])
    );
}

#[test]
fn copied_tree_holds_what_the_value_holds() {
    let value: serde_json::Value =
        serde_json::from_str(r#"[18446744073709551615, -9223372036854775808, 0.5, 1e300, {"k": "v"}]"#)
            .unwrap();
    assert_eq!(
        tree_of(&value),
        JsonValue::Array(vec![
            pos(u64::MAX),
            neg(i64::MIN),
            float(0.5, "0.5"),
            float(1e300, "1e+300"),
            object(vec![("k", text("v"))]),
        ])
    );
}

#[test]
fn parse_reports_line_column_and_message() {
    let d = parse("{\n  \"a\": }").unwrap_err();
    assert_eq!(d.line, 2);
    assert_eq!(d.column, 8);
    assert_eq!(d.message, "expected value at line 2 column 8");
}

#[test]
fn syntax_message_for_each_category() {
    let at = "JSON syntax error at line 3, column 14: ";
    let cases: Vec<(&str, SyntaxCategory, String)> = vec![
        (
            "EOF while parsing an object at line 3 column 14",
            SyntaxCategory::UnexpectedEnd,
            format!("{at}Unexpected end of input. The JSON appears to be incomplete. Check for missing closing braces, brackets, or quotes."),
        ),
        (
            "trailing comma at line 3 column 14",
            SyntaxCategory::TrailingComma,
            format!("{at}Trailing comma found. Remove the extra comma after the last element in the object or array."),
        ),
        (
            "invalid escape at line 3 column 14",
            SyntaxCategory::InvalidEscape,
            format!("{at}Invalid escape sequence in string. Use proper JSON escape sequences like \\n, \\t, \\\", \\\\, etc."),
        ),
        (
            "control character (\\u0000-\\u001F) found while parsing a string at line 3 column 14",
            SyntaxCategory::ControlCharacter,
            format!("{at}Unescaped control character found in string. Control characters (ASCII 0-31) must be escaped using \\uXXXX notation."),
        ),
        (
            "lone leading surrogate in hex escape at line 3 column 14",
            SyntaxCategory::SurrogatePair,
            format!("{at}Invalid Unicode surrogate pair in string. Ensure Unicode characters are properly encoded."),
        ),
        (
            "lone trailing surrogate",
            SyntaxCategory::SurrogatePair,
            format!("{at}Invalid Unicode surrogate pair in string. Ensure Unicode characters are properly encoded."),
        ),
        (
            "expected `:` at line 3 column 14",
            SyntaxCategory::Punctuation,
            format!("{at}expected `:` at line 3 column 14. Check for missing commas, quotes, or incorrect punctuation."),
        ),
        (
            "expected one, found another",
            SyntaxCategory::Punctuation,
            format!("{at}expected one, found another. Check for missing commas, quotes, or incorrect punctuation."),
        ),
        (
            "duplicate field `name`",
            SyntaxCategory::DuplicateField,
            format!("{at}Duplicate field found in object. JSON objects cannot have duplicate keys."),
        ),
        (
            "invalid number",
            SyntaxCategory::InvalidNumber,
            format!("{at}Invalid number format. Ensure numbers follow JSON specification (no leading zeros, proper decimal notation)."),
        ),
        (
            "expected value",
            SyntaxCategory::ExpectedValue,
            format!("{at}Expected a JSON value (string, number, boolean, null, object, or array) but found invalid content."),
        ),
        (
            "key must be a string",
            SyntaxCategory::Other,
            format!("{at}key must be a string"),
        ),
        ("", SyntaxCategory::Other, at.to_string()),
    ];
    for (message, category, sentence) in cases {
        assert_eq!(classify_message(message), category, "{message}");
        assert_eq!(
            get_meaningful_json_error_message(&diagnostic(3, 14, message)),
            sentence
        );
    }
}

#[test]
fn syntax_error_has_detail_and_no_parameters() {
    let error = syntax_error(&diagnostic(1, 2, "trailing comma at line 1 column 2"));
    assert_eq!(error.title, "Your request parameters didn't validate.");
    assert_eq!(error.status, Some(400));
    assert_eq!(error.type_uri, None);
    assert_eq!(error.instance, None);
    assert!(error.invalid_params.is_empty());
    assert_eq!(
        error.detail,
        Some("JSON syntax error at line 1, column 2: Trailing comma found. Remove the extra comma after the last element in the object or array.".to_string())
    );
}

#[test]
fn syntax_and_validation_do_not_meet() {
    let shape = record(vec![("a", Shape::Integer(IntKind::U8))]);

    let syntax = from_str(r#"{"a": 1"#, &shape).unwrap_err();
    assert!(!syntax.detail.unwrap().is_empty());
    assert!(syntax.invalid_params.is_empty());

    let validation = from_str(r#"{"a": "one"}"#, &shape).unwrap_err();
    assert_eq!(validation.detail, None);
    assert!(!validation.invalid_params.is_empty());
}

#[test]
fn type_mismatch_is_recorded_in_full() {
    let error = from_value(&object(vec![("flag", pos(1))]), &record(vec![("flag", Shape::Boolean)]))
        .unwrap_err();
    assert_eq!(error.invalid_params.len(), 1);
    let p = &error.invalid_params[0];
    assert_eq!(p.name, "flag");
    assert_eq!(p.reason, Some("Expected boolean, got integer".to_string()));
    assert_eq!(p.expected.ty, "bool");
    assert_eq!(p.expected.format, "boolean");
    assert_eq!(p.actual.ty, "integer");
    assert_eq!(p.actual.format, "integer");
    assert_eq!(p.pointer, "#/flag");
}

#[test]
fn type_mismatch_names_each_kind() {
    let cases: Vec<(JsonValue, &str)> = vec![
        (JsonValue::Null, "null"),
        (JsonValue::Bool(true), "boolean"),
        (pos(1), "integer"),
        (neg(-1), "integer"),
        (float(1.5, "1.5"), "number"),
        (JsonValue::Array(vec![]), "array"),
        (object(vec![]), "object"),
    ];
    for (value, kind) in cases {
        let error = from_value(&value, &Shape::Text).unwrap_err();
        assert_eq!(error.invalid_params.len(), 1);
        let p = &error.invalid_params[0];
        assert_eq!(p.name, "value");
        assert_eq!(p.pointer, "#");
        assert_eq!(p.reason, Some(format!("Expected string, got {kind}")));
        assert_eq!(p.expected.ty, "String");
        assert_eq!(p.expected.format, "string");
        assert_eq!(p.actual.ty, kind);
    }
    let error = from_value(&text("x"), &Shape::Float32).unwrap_err();
    assert_eq!(error.invalid_params[0].expected.ty, "f32");
    assert_eq!(
        error.invalid_params[0].reason,
        Some("Expected number, got string".to_string())
    );
    let error = from_value(&text("x"), &Shape::Float64).unwrap_err();
    assert_eq!(error.invalid_params[0].expected.ty, "f64");
    let error = from_value(&text("x"), &Shape::Integer(IntKind::I16)).unwrap_err();
    assert_eq!(error.invalid_params[0].expected.ty, "i16");
    assert_eq!(error.invalid_params[0].expected.format, "integer");
}

#[test]
fn range_violation_is_recorded_in_full() {
    let error = from_value(
        &object(vec![("age", pos(256))]),
        &record(vec![("age", Shape::Integer(IntKind::U8))]),
    )
    .unwrap_err();
    assert_eq!(error.invalid_params.len(), 1);
    let p = &error.invalid_params[0];
    assert_eq!(p.name, "age");
    assert_eq!(
        p.reason,
        Some("Value 256 is out of range for type u8. Expected range: 0 to 255".to_string())
    );
    assert_eq!(p.expected.ty, "u8");
    assert_eq!(p.expected.format, "integer in range 0 to 255");
    assert_eq!(p.actual.ty, "integer");
    assert_eq!(p.actual.format, "256");
    assert_eq!(p.pointer, "#/age");
}

#[test]
fn bounds_of_each_width() {
    let cases: Vec<(IntKind, i128, i128, &str)> = vec![
        (IntKind::U8, 0, 255, "u8"),
        (IntKind::U16, 0, 65535, "u16"),
        (IntKind::U32, 0, 4294967295, "u32"),
        (IntKind::U64, 0, 18446744073709551615, "u64"),
        (IntKind::I8, -128, 127, "i8"),
        (IntKind::I16, -32768, 32767, "i16"),
        (IntKind::I32, -2147483648, 2147483647, "i32"),
        (IntKind::I64, -9223372036854775808, 9223372036854775807, "i64"),
    ];
    let number = |v: i128| {
        if v >= 0 {
            pos(v as u64)
        } else {
            neg(v as i64)
        }
    };
    for (kind, min, max, name) in cases {
        let shape = Shape::Integer(kind);
        assert!(from_value(&number(min), &shape).is_ok(), "{name} min");
        assert!(from_value(&number(max), &shape).is_ok(), "{name} max");
        for outside in [min - 1, max + 1] {
            if outside < i64::MIN as i128 || outside > u64::MAX as i128 {
                continue;
            }
            let error = from_value(&number(outside), &shape).unwrap_err();
            assert_eq!(error.invalid_params.len(), 1);
            assert_eq!(
                error.invalid_params[0].reason,
                Some(format!(
                    "Value {outside} is out of range for type {name}. Expected range: {min} to {max}"
                ))
            );
            assert_eq!(error.invalid_params[0].actual.format, outside.to_string());
        }
    }
}

#[test]
fn converted_integers_have_their_width() {
    assert_eq!(from_value(&pos(200), &Shape::Integer(IntKind::U8)).unwrap(), Typed::U8(200));
    assert_eq!(from_value(&neg(-5), &Shape::Integer(IntKind::I8)).unwrap(), Typed::I8(-5));
    assert_eq!(from_value(&pos(7), &Shape::Integer(IntKind::I64)).unwrap(), Typed::I64(7));
    assert_eq!(from_value(&neg(7), &Shape::Integer(IntKind::U16)).unwrap(), Typed::U16(7));
    assert_eq!(
        from_value(&pos(u64::MAX), &Shape::Integer(IntKind::U64)).unwrap(),
        Typed::U64(u64::MAX)
    );
}

#[test]
fn whole_floats_convert_to_integers() {
    assert_eq!(from_value(&float(255.0, "255.0"), &Shape::Integer(IntKind::U8)).unwrap(), Typed::U8(255));
    assert_eq!(from_value(&float(-128.0, "-128.0"), &Shape::Integer(IntKind::I8)).unwrap(), Typed::I8(-128));
    assert_eq!(from_value(&float(0.0, "0.0"), &Shape::Integer(IntKind::U8)).unwrap(), Typed::U8(0));
    assert_eq!(from_value(&float(-0.0, "-0.0"), &Shape::Integer(IntKind::U8)).unwrap(), Typed::U8(0));
    assert_eq!(
        from_value(&float(1e19, "1e19"), &Shape::Integer(IntKind::U64)).unwrap(),
        Typed::U64(10000000000000000000)
    );
    assert_eq!(
        from_value(&float(-9223372036854775808.0, "-9.223372036854776e18"), &Shape::Integer(IntKind::I64)).unwrap(),
        Typed::I64(i64::MIN)
    );
    assert_eq!(
        from_value(&float(4503599627370497.0, "4503599627370497.0"), &Shape::Integer(IntKind::I64)).unwrap(),
        Typed::I64(4503599627370497)
    );
    // What a whole number converts to goes by its value, not by its text.
    assert_eq!(from_value(&float(7.0, "seven"), &Shape::Integer(IntKind::U8)).unwrap(), Typed::U8(7));
    assert_eq!(from_str("2.0e2", &Shape::Integer(IntKind::U8)).unwrap(), Typed::U8(200));
}

fn range_failure(value: JsonValue, kind: IntKind) -> (String, String) {
    let error = from_value(&value, &Shape::Integer(kind)).unwrap_err();
    assert_eq!(error.invalid_params.len(), 1);
    let p = &error.invalid_params[0];
    assert_eq!(p.actual.ty, "integer");
    (p.reason.clone().unwrap(), p.actual.format.clone())
}

fn range_reason(value: JsonValue, kind: IntKind) -> String {
    range_failure(value, kind).0
}

#[test]
fn number_with_a_fraction_is_named_as_it_is_written() {
    let value = float(1.5, "1.5");
    let collector = ErrorCollector::with_path(vec!["value".to_string()]);
    let mut d = CollectingDeserializer::with_collector(&value, collector);
    assert_eq!(d.deserialize_u8(), 0);
    assert_eq!(d.collector.errors.len(), 1);
    let p = &d.collector.errors[0];
    assert_eq!(p.name, "value");
    assert_eq!(p.pointer, "#/value");
    assert_eq!(
        p.reason,
        Some("Value 1.5 is out of range for type u8. Expected range: 0 to 255".to_string())
    );
    assert_eq!(p.expected.ty, "u8");
    assert_eq!(p.expected.format, "integer in range 0 to 255");
    assert_eq!(p.actual.ty, "integer");
    assert_eq!(p.actual.format, "1.5");
}

#[test]
fn floats_that_are_no_integers_of_the_type() {
    assert_eq!(
        range_failure(float(1.5, "1.5"), IntKind::U8),
        (
            "Value 1.5 is out of range for type u8. Expected range: 0 to 255".to_string(),
            "1.5".to_string()
        )
    );
    assert_eq!(
        range_reason(float(-1.5, "-1.5"), IntKind::I8),
        "Value -1.5 is out of range for type i8. Expected range: -128 to 127"
    );
    assert_eq!(
        range_reason(float(0.25, "0.25"), IntKind::I32),
        "Value 0.25 is out of range for type i32. Expected range: -2147483648 to 2147483647"
    );
    assert_eq!(
        range_reason(float(5e-324, "5e-324"), IntKind::U8),
        "Value 5e-324 is out of range for type u8. Expected range: 0 to 255"
    );
    assert_eq!(
        range_reason(float(256.0, "256.0"), IntKind::U8),
        "Value 256.0 is out of range for type u8. Expected range: 0 to 255"
    );
    assert_eq!(
        range_reason(float(-1.0, "-1.0"), IntKind::U64),
        "Value -1.0 is out of range for type u64. Expected range: 0 to 18446744073709551615"
    );
    assert_eq!(
        range_reason(float(1e300, "1e300"), IntKind::I64),
        "Value 1e300 is out of range for type i64. Expected range: -9223372036854775808 to 9223372036854775807"
    );
    assert_eq!(
        range_reason(float(-1e300, "-1e300"), IntKind::I16),
        "Value -1e300 is out of range for type i16. Expected range: -32768 to 32767"
    );
    // Two to the power of 63 and of 64 lie one past the greatest values.
    assert_eq!(
        range_reason(float(9223372036854775808.0, "9.223372036854776e18"), IntKind::I64),
        "Value 9.223372036854776e18 is out of range for type i64. Expected range: -9223372036854775808 to 9223372036854775807"
    );
    assert_eq!(
        range_reason(float(18446744073709551616.0, "1.8446744073709552e19"), IntKind::U64),
        "Value 1.8446744073709552e19 is out of range for type u64. Expected range: 0 to 18446744073709551615"
    );
}

#[test]
fn parsed_floats_are_named_as_the_parser_writes_them() {
    for text in [
        "1.5",
        "-1.5",
        "0.25",
        "300.0",
        "300.5",
        "1e300",
        "-1e300",
        "1.50",
        "15e-1",
        "9223372036854775808.0",
        "18446744073709551616",
        "123456789.125",
    ] {
        let written = serde_json::from_str::<serde_json::Number>(text).unwrap().to_string();
        let error = from_str(text, &Shape::Integer(IntKind::U8)).unwrap_err();
        assert_eq!(error.invalid_params.len(), 1, "{text}");
        let p = &error.invalid_params[0];
        assert_eq!(
            p.reason,
            Some(format!(
                "Value {written} is out of range for type u8. Expected range: 0 to 255"
            ))
        );
        assert_eq!(p.actual.format, written);
        assert_eq!(p.pointer, "#");
    }
    let error = from_str("1.5", &Shape::Integer(IntKind::U8)).unwrap_err();
    assert_eq!(error.invalid_params[0].actual.format, "1.5");
    let error = from_str("300.0", &Shape::Integer(IntKind::U8)).unwrap_err();
    assert_eq!(error.invalid_params[0].actual.format, "300.0");
    let error = from_str("1.50", &Shape::Integer(IntKind::I64)).unwrap_err();
    assert_eq!(error.invalid_params[0].actual.format, "1.5");
}

#[test]
fn patterns_that_denote_no_number() {
    let nan = float(f64::NAN, "NaN");
    let inf = float(f64::INFINITY, "inf");
    let neg_inf = float(f64::NEG_INFINITY, "-inf");
    assert!(range_reason(nan, IntKind::U8).starts_with("Value NaN is out of range"));
    assert!(range_reason(inf, IntKind::I64).starts_with("Value inf is out of range"));
    assert!(range_reason(neg_inf, IntKind::I64).starts_with("Value -inf is out of range"));
}

#[test]
fn integers_beyond_sixty_three_bits_are_named_as_they_are() {
    assert_eq!(
        range_reason(pos(18446744073709551615), IntKind::U8),
        "Value 18446744073709551615 is out of range for type u8. Expected range: 0 to 255"
    );
    assert_eq!(
        range_reason(pos(9223372036854775808), IntKind::I64),
        "Value 9223372036854775808 is out of range for type i64. Expected range: -9223372036854775808 to 9223372036854775807"
    );
}

#[test]
fn numbers_for_float_targets_are_kept() {
    assert_eq!(
        from_value(&float(2.5, "2.5"), &Shape::Float64).unwrap(),
        Typed::Float64(float_number(2.5, "2.5"))
    );
    assert_eq!(
        from_value(&pos(3), &Shape::Float32).unwrap(),
        Typed::Float32(JsonNumber::PosInt(3))
    );
    assert_eq!(
        from_value(&neg(-3), &Shape::Float64).unwrap(),
        Typed::Float64(JsonNumber::NegInt(-3))
    );
}

#[test]
fn placeholders_keep_the_walk_alive() {
    let value = object(vec![("a", text("x")), ("b", text("y"))]);
    let mut d = CollectingDeserializer::new(&value);
    let converted = d.deserialize(&record(vec![
        ("a", Shape::Integer(IntKind::U8)),
        ("b", Shape::Boolean),
    ]));
    assert_eq!(
        converted,
        Some(Typed::Record(vec![
            ("a".to_string(), Typed::U8(0)),
            ("b".to_string(), Typed::Bool(false)),
        ]))
    );
    assert_eq!(d.collector.errors.len(), 2);
    assert_eq!(d.collector.errors[0].pointer, "#/a");
    assert_eq!(d.collector.errors[1].pointer, "#/b");
    assert_eq!(d.collector.current_pointer(), "#");

    let mut d = CollectingDeserializer::from_json_value(&value);
    assert_eq!(d.deserialize_string(), "");
    assert_eq!(d.deserialize_str(), "");
    assert_eq!(d.deserialize_bool(), false);
    assert_eq!(d.deserialize_u8(), 0);
    assert_eq!(d.deserialize_i8(), 0);
    assert_eq!(d.deserialize_u16(), 0);
    assert_eq!(d.deserialize_i16(), 0);
    assert_eq!(d.deserialize_u32(), 0);
    assert_eq!(d.deserialize_i32(), 0);
    assert_eq!(d.deserialize_u64(), 0);
    assert_eq!(d.deserialize_i64(), 0);
    assert_eq!(d.deserialize_f32(), float_number(0.0, "0.0"));
    assert_eq!(d.deserialize_f64(), float_number(0.0, "0.0"));
    assert_eq!(d.collector.errors.len(), 13);
    assert!(d.collector.errors.iter().all(|e| e.pointer == "#" && e.name == "value"));
}

#[test]
fn typed_methods_convert_matching_values() {
    let v = pos(200);
    let mut d = CollectingDeserializer::new(&v);
    assert_eq!(d.deserialize_u8(), 200);
    assert_eq!(d.deserialize_i16(), 200);
    assert_eq!(d.deserialize_u64(), 200);
    assert_eq!(d.deserialize_f64(), JsonNumber::PosInt(200));
    assert!(!d.collector.has_errors());
    assert_eq!(d.deserialize_i8(), 0);
    assert_eq!(d.collector.errors.len(), 1);

    let v = text("hello");
    let mut d = CollectingDeserializer::new(&v);
    assert_eq!(d.deserialize_str(), "hello");
    assert_eq!(d.deserialize_string(), "hello");
    let v = JsonValue::Bool(true);
    let mut d = CollectingDeserializer::new(&v);
    assert!(d.deserialize_bool());
    assert!(!d.collector.has_errors());
}

#[test]
fn nested_walk_starts_at_the_path_of_its_collector() {
    let v = pos(300);
    let collector = ErrorCollector::with_path(vec!["items".to_string(), "4".to_string()]);
    let mut d = CollectingDeserializer::with_collector(&v, collector);
    assert_eq!(d.deserialize_u8(), 0);
    let collector = d.into_collector();
    assert_eq!(collector.errors.len(), 1);
    assert_eq!(collector.errors[0].name, "4");
    assert_eq!(collector.errors[0].pointer, "#/items/4");
}

#[test]
fn value_that_is_no_array_is_given_up() {
    let value = object(vec![("list", pos(1)), ("after", text("x"))]);
    let shape = record(vec![
        ("list", Shape::Sequence(Box::new(Shape::Text))),
        ("after", Shape::Boolean),
    ]);
    let mut d = CollectingDeserializer::new(&value);
    assert_eq!(d.deserialize(&shape), None);
    assert_eq!(d.collector.errors.len(), 2);
    let first = &d.collector.errors[0];
    assert_eq!(first.name, "list");
    assert_eq!(first.pointer, "#/list");
    assert_eq!(first.reason, Some("Expected array, got integer".to_string()));
    assert_eq!(first.expected.ty, "()");
    assert_eq!(first.expected.format, "array");
    // The sibling after the value that was given up is still looked at.
    assert_eq!(d.collector.errors[1].pointer, "#/after");
}

#[test]
fn values_that_are_no_objects_are_given_up() {
    for shape in [Shape::Mapping(Box::new(Shape::Any)), record(vec![("a", Shape::Any)])] {
        let error = from_value(&JsonValue::Array(vec![]), &shape).unwrap_err();
        assert_eq!(error.detail, None);
        assert_eq!(error.invalid_params.len(), 1);
        assert_eq!(
            error.invalid_params[0].reason,
            Some("Expected object, got array".to_string())
        );
        assert_eq!(error.invalid_params[0].expected.ty, "()");
        assert_eq!(error.invalid_params[0].expected.format, "object");
        assert_eq!(error.invalid_params[0].pointer, "#");
    }
}

#[test]
fn every_element_is_looked_at() {
    let shape = Shape::Sequence(Box::new(Shape::Sequence(Box::new(Shape::Integer(IntKind::U8)))));
    let error = from_str("[[1, 256], 7, [300], [2]]", &shape).unwrap_err();
    let pointers: Vec<&str> = error.invalid_params.iter().map(|p| p.pointer.as_str()).collect();
    assert_eq!(pointers, vec!["#/0/1", "#/1", "#/2/0"]);
    let names: Vec<&str> = error.invalid_params.iter().map(|p| p.name.as_str()).collect();
    assert_eq!(names, vec!["1", "1", "0"]);
}

#[test]
fn mapping_walks_members_in_stored_order() {
    let shape = Shape::Mapping(Box::new(Shape::Integer(IntKind::U8)));
    let error = from_str(r#"{"z": 256, "a": -1, "m": 5}"#, &shape).unwrap_err();
    let pointers: Vec<&str> = error.invalid_params.iter().map(|p| p.pointer.as_str()).collect();
    assert_eq!(pointers, vec!["#/a", "#/z"]);

    let value = object(vec![("z", pos(1)), ("a", pos(2))]);
    assert_eq!(
        from_value(&value, &shape).unwrap(),
        Typed::Mapping(vec![
            ("z".to_string(), Typed::U8(1)),
            ("a".to_string(), Typed::U8(2)),
        ])
    );
}

#[test]
fn record_reports_present_fields_then_missing_ones() {
    let shape = record(vec![
        ("first", Shape::Text),
        ("second", Shape::Integer(IntKind::U8)),
        ("third", Shape::Boolean),
        ("fourth", Shape::Text),
    ]);
    let error = from_str(r#"{"fourth": 4, "second": 999, "extra": null}"#, &shape).unwrap_err();
    let found: Vec<(&str, &str)> = error
        .invalid_params
        .iter()
        .map(|p| (p.name.as_str(), p.pointer.as_str()))
        .collect();
    assert_eq!(
        found,
        vec![
            ("second", "#/second"),
            ("fourth", "#/fourth"),
            ("first", "#"),
            ("third", "#"),
        ]
    );
}

#[test]
fn unknown_members_are_passed_over() {
    let shape = record(vec![("a", Shape::Integer(IntKind::U8))]);
    let value = from_str(r#"{"a": 1, "b": "ignored", "c": [1, 2]}"#, &shape).unwrap();
    assert_eq!(value, Typed::Record(vec![("a".to_string(), Typed::U8(1))]));
}

#[test]
fn first_member_with_a_key_is_the_one_converted() {
    let value = object(vec![("a", pos(1)), ("a", text("second"))]);
    let shape = record(vec![("a", Shape::Integer(IntKind::U8))]);
    assert_eq!(
        from_value(&value, &shape).unwrap(),
        Typed::Record(vec![("a".to_string(), Typed::U8(1))])
    );
}

#[test]
fn any_shape_follows_the_kind_of_the_value() {
    let value = from_str(
        r#"[null, true, 1, -1, 18446744073709551615, 1.5, "s", [], {}]"#,
        &Shape::Any,
    )
    .unwrap();
    assert_eq!(
        value,
        Typed::Sequence(vec![
            Typed::Unit,
            Typed::Bool(true),
            Typed::I64(1),
            Typed::I64(-1),
            Typed::U64(u64::MAX),
            Typed::Float64(float_number(1.5, "1.5")),
            Typed::Text("s".to_string()),
            Typed::Sequence(vec![]),
            Typed::Mapping(vec![]),
        ])
    );
    let v = pos(5);
    let mut d = CollectingDeserializer::new(&v);
    assert_eq!(d.deserialize_any(), Some(Typed::I64(5)));
    assert_eq!(d.deserialize_seq(&Shape::Any), None);
    assert_eq!(d.deserialize_map(&Shape::Any), None);
    assert_eq!(d.deserialize_struct(&vec![]), None);
    assert_eq!(d.collector.errors.len(), 3);
}

#[test]
fn completeness_on_a_record_of_single_values() {
    let shape = record(vec![
        ("a", Shape::Text),
        ("b", Shape::Integer(IntKind::U8)),
        ("c", Shape::Boolean),
        ("d", Shape::Float64),
        ("e", Shape::Integer(IntKind::I32)),
        ("f", Shape::Text),
    ]);
    // a: wrong kind, b: out of range, c: missing, d: fine, e: missing, f: fine.
    let error = from_str(r#"{"a": 1, "b": 256, "d": 0.5, "f": "x"}"#, &shape).unwrap_err();
    assert_eq!(error.invalid_params.len(), 4);
    for (name, pointer) in [("a", "#/a"), ("b", "#/b"), ("c", "#"), ("e", "#")] {
        let hits: Vec<_> = error.invalid_params.iter().filter(|p| p.name == name).collect();
        assert_eq!(hits.len(), 1, "{name}");
        assert_eq!(hits[0].pointer, pointer);
    }
}

#[test]
fn pointer_through_objects_and_an_array() {
    let c = record(vec![("c", Shape::Integer(IntKind::U8))]);
    let b = record(vec![("b", Shape::Sequence(Box::new(c)))]);
    let shape = record(vec![("a", b)]);
    let error = from_str(r#"{"a": {"b": [{"c": 1}, {"c": 2}, {"c": 256}]}}"#, &shape).unwrap_err();
    assert_eq!(error.invalid_params.len(), 1);
    assert_eq!(error.invalid_params[0].pointer, "#/a/b/2/c");
    assert_eq!(error.invalid_params[0].name, "c");
}

#[test]
fn same_input_same_outcome() {
    let shape = record(vec![("name", Shape::Text), ("age", Shape::Integer(IntKind::U32))]);
    let json = r#"{"name": "John", "age": 30}"#;
    let first = from_str(json, &shape).unwrap();
    let second = from_str(json, &shape).unwrap();
    assert_eq!(first, second);

    let json = r#"{"name": 1}"#;
    let first = from_str(json, &shape).unwrap_err();
    let second = from_str(json, &shape).unwrap_err();
    assert_eq!(format!("{first:?}"), format!("{second:?}"));
}

#[test]
fn conclude_covers_every_case() {
    let done = conclude(Some(Typed::Unit), ErrorCollector::new());
    assert_eq!(done.unwrap(), Typed::Unit);

    let lost = conclude(None, ErrorCollector::new()).unwrap_err();
    assert_eq!(lost.title, "Your request parameters didn't validate.");
    assert_eq!(
        lost.detail,
        Some("Deserialization failed with unknown error".to_string())
    );
    assert!(lost.invalid_params.is_empty());
    assert_eq!(lost.status, Some(400));

    let entry = |s: &str| ExpectedOrActual {
        ty: s.to_string(),
        format: s.to_string(),
    };
    let mut collector = ErrorCollector::new();
    collector.add_error("n".to_string(), None, entry("e"), entry("a"));
    let failed = conclude(Some(Typed::Unit), collector).unwrap_err();
    assert_eq!(failed.detail, None);
    assert_eq!(failed.invalid_params.len(), 1);

    let mut collector = ErrorCollector::new();
    collector.add_error("n".to_string(), None, entry("e"), entry("a"));
    let failed = conclude(None, collector).unwrap_err();
    assert_eq!(failed.detail, None);
    assert_eq!(failed.invalid_params.len(), 1);
}

#[test]
fn absorbed_failures_keep_their_order_and_pointers() {
    let entry = |s: &str| ExpectedOrActual {
        ty: s.to_string(),
        format: s.to_string(),
    };
    let mut parent = ErrorCollector::new();
    parent.add_error("first".to_string(), None, entry("e"), entry("a"));
    parent.push_path("child");
    let mut nested = ErrorCollector::with_path(parent.current_segments());
    nested.add_error("child".to_string(), None, entry("e"), entry("a"));
    parent.absorb(nested);
    parent.pop_path();
    assert_eq!(parent.errors.len(), 2);
    assert_eq!(parent.errors[0].pointer, "#");
    assert_eq!(parent.errors[1].pointer, "#/child");
    assert_eq!(parent.current_pointer(), "#");
}

#[test]
fn result_of_a_failed_call_implements_result_methods() {
    let r: Result<Typed> = from_str("[", &Shape::Any);
    assert!(r.is_err());
    assert!(!r.is_ok());
    assert!(r.as_ref().is_err());
}

#[test]
fn completeness_on_nested_shapes() {
    let item = record(vec![
        ("id", Shape::Integer(IntKind::U8)),
        ("tags", Shape::Sequence(Box::new(Shape::Text))),
    ]);
    let shape = record(vec![
        ("items", Shape::Sequence(Box::new(item))),
        ("limits", Shape::Mapping(Box::new(Shape::Integer(IntKind::I8)))),
        ("owner", record(vec![("name", Shape::Text), ("age", Shape::Integer(IntKind::U8))])),
        ("note", Shape::Text),
    ]);
    let json = r#"{
        "items": [
            {"id": 1, "tags": ["a", 2]},
            {"tags": "none"},
            7
        ],
        "limits": {"high": 128, "low": -128, "mid": 0.5},
        "owner": {"age": "old"}
    }"#;
    let error = from_str(json, &shape).unwrap_err();
    let found: Vec<(&str, &str)> = error
        .invalid_params
        .iter()
        .map(|p| (p.name.as_str(), p.pointer.as_str()))
        .collect();
    assert_eq!(
        found,
        vec![
            ("1", "#/items/0/tags/1"),
            ("tags", "#/items/1/tags"),
            ("id", "#/items/1"),
            ("2", "#/items/2"),
            ("high", "#/limits/high"),
            ("mid", "#/limits/mid"),
            ("age", "#/owner/age"),
            ("name", "#/owner"),
            ("note", "#"),
        ]
    );
}
