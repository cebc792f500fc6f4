use cgo_gen::macros::{parse_macro_value, MacroConstantKind};

fn tokens(values: &[&str]) -> Vec<String> {
    values.iter().map(|value| value.to_string()).collect()
}

#[test]
fn parses_integer_literals() {
    let value = parse_macro_value(&tokens(&["(", "0x01U", ")"])).unwrap();

    assert_eq!(value.kind, MacroConstantKind::Integer);
    assert_eq!(value.value, "0x01U");
}

#[test]
fn parses_float_literals() {
    let cases = [
        ("1.5", "1.5"),
        ("1.", "1.0"),
        (".5", "0.5"),
        ("1e-3", "1e-3"),
        ("+2.0f", "+2.0"),
        ("-3.0L", "-3.0"),
        ("0x1.8p+1F", "0x1.8p+1"),
    ];

    for (input, expected) in cases {
        let value = parse_macro_value(&tokens(&[input])).unwrap();

        assert_eq!(value.kind, MacroConstantKind::Float);
        assert_eq!(value.value, expected);
    }
}

#[test]
fn parses_string_literals() {
    let value = parse_macro_value(&tokens(&["(", "\"hello\\n\"", ")"])).unwrap();

    assert_eq!(value.kind, MacroConstantKind::String);
    assert_eq!(value.value, "\"hello\\n\"");
}

#[test]
fn parses_c_string_escapes_as_go_byte_strings() {
    let value = parse_macro_value(&tokens(&["\"a\\?\\x7f\""])).unwrap();

    assert_eq!(value.kind, MacroConstantKind::String);
    assert_eq!(value.value, "\"a?\\x7f\"");
}

#[test]
fn parses_universal_character_names() {
    let value = parse_macro_value(&tokens(&["\"caf\\u00e9 \\U0001f680\""])).unwrap();

    assert_eq!(value.kind, MacroConstantKind::String);
    assert_eq!(value.value, "\"caf\\xc3\\xa9 \\xf0\\x9f\\x9a\\x80\"");
}

#[test]
fn parses_adjacent_string_literals() {
    let value = parse_macro_value(&tokens(&["\"hello\"", "\" world\""])).unwrap();

    assert_eq!(value.kind, MacroConstantKind::String);
    assert_eq!(value.value, "\"hello\" + \" world\"");
}

#[test]
fn rejects_unsupported_macro_values() {
    assert!(parse_macro_value(&tokens(&["MAKE_FLAG", "(", "1", ")"])).is_none());
    assert!(parse_macro_value(&tokens(&["u8\"hello\""])).is_none());
    assert!(parse_macro_value(&tokens(&["R\"(hello)\""])).is_none());
    assert!(parse_macro_value(&tokens(&["'x'"])).is_none());
    assert!(parse_macro_value(&tokens(&["1f"])).is_none());
    assert!(parse_macro_value(&tokens(&["1e"])).is_none());
    assert!(parse_macro_value(&tokens(&["0x1.2"])).is_none());
    assert!(parse_macro_value(&tokens(&["\"a\"", "+", "\"b\""])).is_none());
}

#[test]
fn extra_parentheses_around_balanced_tokens_keep_the_value() {
    let inner = tokens(&["(", "7", ")"]);
    let wrapped = tokens(&["(", "(", "7", ")", ")"]);
    let a = parse_macro_value(&inner).unwrap();
    let b = parse_macro_value(&wrapped).unwrap();
    assert_eq!(a.kind, b.kind);
    assert_eq!(a.value, b.value);
    assert_eq!(b.value, "7");
    let strings = tokens(&["\"a\"", "\"b\""]);
    let wrapped = tokens(&["(", "\"a\"", "\"b\"", ")"]);
    assert_eq!(
        parse_macro_value(&strings).unwrap().value,
        parse_macro_value(&wrapped).unwrap().value
    );
}
