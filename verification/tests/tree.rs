use derive_from_ext::reader::MAX_TOKENS;
use derive_from_ext::tree::{parse_list, read_list, Entry, Value};
use std::str::FromStr;

fn bare(path: &str) -> Entry {
    Entry::Bare(path.to_string())
}

fn pair(path: &str, value: Value) -> Entry {
    Entry::Pair(path.to_string(), value)
}

fn text(value: &str) -> Value {
    Value::Str(value.to_string())
}

fn stream(text: &str) -> proc_macro2::TokenStream {
    proc_macro2::TokenStream::from_str(text).unwrap()
}

#[test]
fn empty_text_is_an_empty_list() {
    assert_eq!(parse_list(""), Some(vec![]));
}

#[test]
fn bare_path_is_read() {
    assert_eq!(parse_list("skip"), Some(vec![bare("skip")]));
}

#[test]
fn string_is_read_without_quotes_and_escapes() {
    assert_eq!(
        parse_list("default = \"String::from(\\\"x\\\")\""),
        Some(vec![pair("default", text("String::from(\"x\")"))])
    );
}

#[test]
fn string_with_each_simple_escape_is_read() {
    assert_eq!(
        parse_list(r#"map = "a\n\r\t\\\0\'\"b""#),
        Some(vec![pair("map", text("a\n\r\t\\\0'\"b"))])
    );
}

#[test]
fn raw_string_is_read() {
    assert_eq!(parse_list(r##"map = r#"a"b"#"##), Some(vec![pair("map", text("a\"b"))]));
    assert_eq!(parse_list(r#"map = r"a\b""#), Some(vec![pair("map", text("a\\b"))]));
}

#[test]
fn literals_that_are_not_looked_through_are_not_read() {
    assert_eq!(parse_list(r#"map = "\x41""#), None);
    assert_eq!(parse_list(r#"map = "\u{41}""#), None);
    assert_eq!(parse_list(r#"map = b"a""#), None);
    assert_eq!(parse_list("map = b'a'"), None);
    assert_eq!(parse_list("map = 1e-5"), None);
    assert_eq!(parse_list(r"map = '\x41'"), None);
}

#[test]
fn booleans_are_read() {
    assert_eq!(
        parse_list("skip = true, skip = false"),
        Some(vec![pair("skip", Value::Bool(true)), pair("skip", Value::Bool(false))])
    );
}

#[test]
fn trailing_comma_is_accepted() {
    assert_eq!(parse_list("skip,"), Some(vec![bare("skip")]));
}

#[test]
fn numbers_and_characters_are_other_values() {
    assert_eq!(
        parse_list(r"map = 1, rename = 'c', default = 2.5, skip = -1, a = 0xff, b = 1_000u32, c = '\n'"),
        Some(vec![
            pair("map", Value::Other),
            pair("rename", Value::Other),
            pair("default", Value::Other),
            pair("skip", Value::Other),
            pair("a", Value::Other),
            pair("b", Value::Other),
            pair("c", Value::Other),
        ])
    );
}

#[test]
fn numbers_that_are_let_through_are_read_with_and_without_a_sign() {
    let numbers = [
        "0", "9", "42", "1_000", "1__", "0xff", "0xFF_ff", "0b1010", "0o17", "1u8", "1abc",
        "2.5", "1.0f32", "1_0.0_1", "0.5_f64", "0X1", "0_x1", "340282366920938463463374607431768211456",
    ];
    for number in numbers {
        assert_eq!(
            parse_list(&format!("x = {}", number)),
            Some(vec![pair("x", Value::Other)]),
            "{}",
            number
        );
        assert_eq!(
            parse_list(&format!("x = -{}", number)),
            Some(vec![pair("x", Value::Other)]),
            "-{}",
            number
        );
    }
}

#[test]
fn paths_are_spelled_without_spaces() {
    assert_eq!(
        parse_list("other :: B = true, ::a::b"),
        Some(vec![pair("other::B", Value::Bool(true)), bare("::a::b")])
    );
}

#[test]
fn nested_lists_are_read_as_deep_as_they_go() {
    assert_eq!(
        parse_list("overrides = (A = (rename = \"first_name\"), other::B = (skip))"),
        Some(vec![pair(
            "overrides",
            Value::List(vec![
                pair("A", Value::List(vec![pair("rename", text("first_name"))])),
                pair("other::B", Value::List(vec![bare("skip")])),
            ])
        )])
    );
    assert_eq!(
        parse_list("a = (b = (c = (d = (e))))"),
        Some(vec![pair(
            "a",
            Value::List(vec![pair(
                "b",
                Value::List(vec![pair("c", Value::List(vec![pair("d", Value::List(vec![bare("e")]))]))])
            )])
        )])
    );
}

#[test]
fn lists_are_read_to_the_given_depth_only() {
    assert_eq!(
        read_list(stream("a = (b, c)"), 1),
        Some(vec![pair("a", Value::List(vec![bare("b"), bare("c")]))])
    );
    assert_eq!(read_list(stream("a = (b, c)"), 0), Some(vec![pair("a", Value::Other)]));
    assert_eq!(
        read_list(stream("a = (b = (c))"), 1),
        Some(vec![pair("a", Value::List(vec![pair("b", Value::Other)]))])
    );
}

#[test]
fn list_of_literals_is_no_list_of_entries() {
    assert_eq!(
        parse_list("overrides = (\"a\", \"b\")"),
        Some(vec![pair("overrides", Value::Other)])
    );
}

#[test]
fn named_and_unnamed_groups_are_other_entries() {
    assert_eq!(
        parse_list("more(one = 1), (two = 2)"),
        Some(vec![Entry::Other("more(..)".to_string()), Entry::Other("(..)".to_string())])
    );
}

#[test]
fn lists_deeper_than_the_stack_allows_are_not_read() {
    let deep = |levels: usize| format!("{}a{}", "x = (".repeat(levels), ")".repeat(levels));
    assert!(parse_list(&deep(MAX_TOKENS)).is_some());
    assert_eq!(parse_list(&deep(MAX_TOKENS + 1)), None);
    assert_eq!(parse_list(&deep(200000)), None);
}

#[test]
fn record_in_braces_is_not_read() {
    assert_eq!(parse_list("other = { name }"), None);
    assert_eq!(parse_list("other = { name: \"ok\" }"), None);
    assert_eq!(parse_list("overrides = (A = { name })"), None);
}

#[test]
fn brackets_are_not_read() {
    assert_eq!(parse_list("a = [1, 2]"), None);
}

#[test]
fn unknown_kind_of_literal_is_not_read() {
    assert_eq!(parse_list("map = c\"lowercase\""), None);
}

#[test]
fn long_list_is_read() {
    let list = format!("a{}", ", a".repeat(5000));
    assert_eq!(parse_list(&list).map(|entries| entries.len()), Some(5001));
}

#[test]
fn text_that_is_no_list_is_not_read() {
    assert_eq!(parse_list("map ="), None);
    assert_eq!(parse_list("map = \"a\" rename"), None);
    assert_eq!(parse_list("\"a\""), None);
    assert_eq!(parse_list("map = (a"), None);
    assert_eq!(parse_list("= 1"), None);
}
