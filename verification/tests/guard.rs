use derive_from_ext::guard::{
    bare, character, digit, escape, is_callable_path, is_callable_path_text, is_expression,
    is_expression_text, is_identifier, is_identifier_text, known_literal, light, number, plain,
    raw, read_type_paths, spell, spell_all, string, type_paths_in, weigh, word,
};
use derive_from_ext::reader::{FRAME, MAX_TOKENS, STACK};
use std::str::FromStr;

fn stream(text: &str) -> proc_macro2::TokenStream {
    proc_macro2::TokenStream::from_str(text).unwrap()
}

#[test]
fn limit_follows_from_the_stack() {
    assert_eq!(STACK, 2 * 1024 * 1024);
    assert_eq!(FRAME, 32 * 1024);
    assert_eq!(MAX_TOKENS, 64);
}

#[test]
fn characters_are_told_apart() {
    assert!(digit('0'));
    assert!(digit('9'));
    assert!(!digit('a'));
    assert!(!digit('/'));
    assert!(!digit(':'));
    assert!(word('a') && word('z') && word('A') && word('Z') && word('_') && word('5'));
    assert!(!word('.') && !word('-') && !word(' ') && !word('\u{e9}') && !word('{'));
    assert!(!word('`') && !word('@') && !word('[') && !word('/'));
    for c in ['n', 'r', 't', '\\', '0', '\'', '"'] {
        assert!(escape(c));
    }
    assert!(!escape('x') && !escape('u') && !escape('\n') && !escape('a'));
}

#[test]
fn numbers_are_looked_through() {
    let fine = [
        "0", "9", "42", "1_000", "1__", "0xff", "0xFF_ff", "0b1010", "0o17", "1u8", "1abc",
        "2.5", "1.0f32", "1_0.0_1", "0.5_f64", "0X1", "0_x1",
    ];
    for text in fine {
        assert!(number(text), "{}", text);
    }
    let refused = [
        "", "a1", "_1", ".5", "-1", "1e5", "1E5", "1e", "1e-5", "1e+5", "2.", "1.e5", "1._5",
        "1.2.3", "1..2", "0x", "0x_1", "0x1.8", "0xffu8", "0x1g", "0b2", "0o8", "0b", "1a.5",
        "1 0", "1\u{e9}", "1,0",
    ];
    for text in refused {
        assert!(!number(text), "{}", text);
    }
}

#[test]
fn strings_are_looked_through() {
    let fine = [
        r#""""#, r#""a""#, r#""a b""#, r#""a\nb""#, r#""\"""#, r#""\\""#, r#""a"suffix"#,
        "\"\u{e9}\"", "\"a\nb\"", r#""{ ( [""#, r#""\0\t\r\'""#,
    ];
    for text in fine {
        assert!(string(text), "{}", text);
    }
    let refused = [
        "", r#"""#, r#""a"#, r#"a""#, r#""\""#, r#""\x41""#, r#""\u{41}""#, "\"a\rb\"", r#""\"#,
        r#"r"a""#, r#"b"a""#, "'a'",
    ];
    for text in refused {
        assert!(!string(text), "{}", text);
    }
}

#[test]
fn raw_strings_are_looked_through() {
    let fine = [
        "r\"\"", "r\"a\"", "r#\"a\"#", "r##\"a\"b\"##", "r#\"a\"#suffix", "r\"\\\"", "r#\"\u{e9}\"#",
        "r#\"a\"##",
    ];
    for text in fine {
        assert!(raw(text), "{}", text);
    }
    let refused = [
        "", "r", "r\"", "r#", "r#\"", "r#\"a\"", "r##\"a\"#", "r#a\"#", "ra\"\"", "\"a\"", "r#\"a\"x#",
        "br\"a\"",
    ];
    for text in refused {
        assert!(!raw(text), "{}", text);
    }
}

#[test]
fn character_literals_are_looked_through() {
    let fine = ["'a'", "'\u{e9}'", r"'\n'", r"'\''", "'\"'", "'a'suffix", "'''"];
    for text in fine {
        assert!(character(text), "{}", text);
    }
    let refused = ["", "'", "''", "'a", "'ab'", r"'\x41'", r"'\'", "a'b'", r"'\u{41}'", "b'a'"];
    for text in refused {
        assert!(!character(text), "{}", text);
    }
}

#[test]
fn literals_are_known_by_their_whole_text() {
    assert!(known_literal("\"text\""));
    assert!(known_literal("'c'"));
    assert!(known_literal("0xff"));
    assert!(known_literal("9"));
    assert!(known_literal("r#\"raw\"#"));
    assert!(!known_literal("b'x'"));
    assert!(!known_literal("c\"text\""));
    assert!(!known_literal("\"open"));
    assert!(!known_literal("1.2.3"));
    assert!(!known_literal(""));
}

#[test]
fn tokens_are_spelled_one_after_the_other() {
    assert_eq!(spell(&stream("other :: B")), "other::B");
    assert_eq!(spell(&stream(" :: a :: b ")), "::a::b");
    assert_eq!(spell(&stream("")), "");
    assert_eq!(
        spell(&stream("more (one = 1) , [2] {3} \"x\" 'c' 1.5")),
        "more(..),[..]{..}\"x\"'c'1.5"
    );
    assert_eq!(
        spell_all(&vec![stream("a :: b"), stream("c")]),
        vec!["a::b".to_string(), "c".to_string()]
    );
}

#[test]
fn words_colons_and_commas_are_bare() {
    assert!(bare(&stream("A, other::B")));
    assert!(bare(&stream("::a::b,")));
    assert!(bare(&stream("")));
}

#[test]
fn anything_else_is_not_bare() {
    assert!(!bare(&stream("Wrapper<T>")));
    assert!(!bare(&stream("&A")));
    assert!(!bare(&stream("A = B")));
    assert!(!bare(&stream("Fn(A) -> B")));
    assert!(!bare(&stream("[u8; 4]")));
    assert!(!bare(&stream("A, 1")));
    assert!(!bare(&stream("\"A\"")));
}

#[test]
fn plain_counts_the_depth_of_groups() {
    assert!(plain(&stream("a = 1, b"), 0, true));
    assert!(!plain(&stream("a = (b)"), 0, true));
    assert!(plain(&stream("a = (b)"), 1, true));
    assert!(!plain(&stream("a = (b = (c))"), 1, true));
    assert!(plain(&stream("a = (b = (c))"), 2, true));
}

#[test]
fn plain_with_parentheses_only_refuses_other_brackets() {
    assert!(!plain(&stream("a = {b}"), 2, true));
    assert!(!plain(&stream("a = [b]"), 2, true));
    assert!(!plain(&stream("a = ({b})"), 2, true));
    assert!(plain(&stream("a = {b}"), 2, false));
    assert!(plain(&stream("a = ([b])"), 2, false));
}

#[test]
fn plain_refuses_unknown_literals_at_any_depth() {
    assert!(!plain(&stream("c\"text\""), 2, false));
    assert!(!plain(&stream("f(c\"text\")"), 2, false));
    assert!(!plain(&stream("f(b'x')"), 2, false));
    assert!(!plain(&stream("f(br\"raw\")"), 2, false));
    assert!(!plain(&stream("[1e-5]"), 2, false));
    assert!(plain(&stream("f(\"text\", r\"raw\", 'c', 1u8, 2.5, 0xff)"), 2, false));
}

#[test]
fn tokens_are_counted_with_those_in_groups() {
    assert_eq!(weigh(&stream(""), 2, 64), 0);
    assert_eq!(weigh(&stream("a"), 2, 64), 1);
    assert_eq!(weigh(&stream("a::b"), 2, 64), 4);
    assert_eq!(weigh(&stream("f(a, b)"), 2, 64), 5);
    assert_eq!(weigh(&stream("f(g(a), [b])"), 2, 64), 8);
    assert_eq!(weigh(&stream("f(g(a), [b])"), 1, 64), 6);
    assert_eq!(weigh(&stream("f(g(a), [b])"), 0, 64), 2);
}

#[test]
fn count_of_tokens_stops_one_past_the_limit() {
    assert_eq!(weigh(&stream("a b c d e"), 0, 5), 5);
    assert_eq!(weigh(&stream("a b c d e"), 0, 4), 5);
    assert_eq!(weigh(&stream("a b c d e"), 0, 3), 4);
    assert_eq!(weigh(&stream("a b c d e"), 0, 0), 1);
    assert_eq!(weigh(&stream("(a b c) (d e f)"), 1, 3), 4);
}

#[test]
fn light_stream_holds_few_tokens() {
    let most = format!("a{}", " + a".repeat(31));
    assert!(light(&stream(&most)));
    assert!(is_expression_text(&most));
    let more = format!("{} + a", most);
    assert!(!light(&stream(&more)));
    assert!(!is_expression_text(&more));
    assert!(light(&stream(&format!("f({})", "a ".repeat(62)))));
    assert!(!light(&stream(&format!("f({})", "a ".repeat(63)))));
    assert!(!light(&stream("c\"text\"")));
}

#[test]
fn long_string_is_one_token() {
    let text = format!("String::from(\"{}\")", "many words ".repeat(500));
    assert!(is_expression_text(&text));
}

#[test]
fn streams_are_read_as_texts_are() {
    assert_eq!(
        type_paths_in(stream("A, other :: B")),
        Some(vec!["A".to_string(), "other::B".to_string()])
    );
    assert_eq!(type_paths_in(stream("Wrapper<T>")), None);
    assert_eq!(type_paths_in(stream("A B")), None);
    assert!(is_expression(stream("1 + 2")));
    assert!(!is_expression(stream("1 +")));
    assert!(!is_expression(stream("c\"text\"")));
    assert!(is_callable_path(stream("a::b")));
    assert!(!is_callable_path(stream("a()")));
    assert!(is_identifier(stream("a")));
    assert!(!is_identifier(stream("a b")));
    assert!(!is_identifier(stream(&format!("{}a{}", "(".repeat(200000), ")".repeat(200000)))));
}

#[test]
fn type_paths_are_spelled_without_spaces() {
    assert_eq!(
        read_type_paths("A, other :: B, ::c::D"),
        Some(vec!["A".to_string(), "other::B".to_string(), "::c::D".to_string()])
    );
    assert_eq!(read_type_paths(""), Some(vec![]));
    assert_eq!(read_type_paths("A,"), Some(vec!["A".to_string()]));
}

#[test]
fn long_list_of_type_paths_is_read() {
    let list = format!("A{}", ", a::B".repeat(5000));
    assert_eq!(read_type_paths(&list).map(|paths| paths.len()), Some(5001));
}

#[test]
fn what_is_no_type_path_is_not_read() {
    assert_eq!(read_type_paths("A B"), None);
    assert_eq!(read_type_paths("A:B"), None);
    assert_eq!(read_type_paths("A::"), None);
    assert_eq!(read_type_paths("Wrapper<T>"), None);
    assert_eq!(read_type_paths("&A"), None);
    assert_eq!(read_type_paths("A, 1"), None);
    assert_eq!(read_type_paths("(A, B)"), None);
    assert_eq!(read_type_paths("A = B"), None);
    assert_eq!(read_type_paths("(unclosed"), None);
}

#[test]
fn expressions_are_told_from_other_text() {
    assert!(is_expression_text("core::default::Default::default()"));
    assert!(is_expression_text("String::from(\"Something else\")"));
    assert!(is_expression_text("Point { x: 0, y: vec![1, 2] }"));
    assert!(is_expression_text("1 + 2"));
    assert!(!is_expression_text("1 +"));
    assert!(!is_expression_text(""));
    assert!(!is_expression_text("a, b"));
    assert!(!is_expression_text("f("));
    assert!(!is_expression_text("c\"text\""));
}

#[test]
fn texts_that_go_deep_are_refused_unread() {
    assert!(!is_expression_text(&format!("{}1", "-".repeat(20000))));
    assert!(!is_expression_text(&format!("{}1", "return ".repeat(20000))));
    assert!(!is_expression_text(&format!("{}x", "|| ".repeat(20000))));
    assert!(!is_expression_text(&format!("{}1{}", "(".repeat(200000), ")".repeat(200000))));
    assert!(!is_expression_text(&format!("{}1{}", "(".repeat(65), ")".repeat(65))));
    assert!(!is_callable_path_text(&format!(
        "{}u8{}::f",
        "A::<".repeat(20000),
        ">".repeat(20000)
    )));
    assert_eq!(
        read_type_paths(&format!("{}u8{}", "A<".repeat(20000), ">".repeat(20000))),
        None
    );
    assert!(!is_identifier_text(&format!("{}a{}", "(".repeat(200000), ")".repeat(200000))));
}

#[test]
fn texts_at_the_limit_are_read() {
    assert!(is_expression_text(&format!("{}1", "return ".repeat(63))));
    assert!(is_expression_text(&format!("{}1", "-".repeat(63))));
    assert!(is_expression_text(&format!("{}x", "|| ".repeat(21))));
    assert!(is_expression_text(&format!("{}1{}", "(".repeat(63), ")".repeat(63))));
    assert!(is_callable_path_text(&format!("{}u8{}::f", "A::<".repeat(10), ">".repeat(10))));
}

#[test]
fn paths_to_functions_are_told_from_other_text() {
    assert!(is_callable_path_text("lowercase"));
    assert!(is_callable_path_text("core::convert::Into::into"));
    assert!(is_callable_path_text("Vec::<u8>::from"));
    assert!(is_callable_path_text("<String as From<&str>>::from"));
    assert!(!is_callable_path_text("lowercase()"));
    assert!(!is_callable_path_text("|x| x"));
    assert!(!is_callable_path_text("a b"));
    assert!(!is_callable_path_text(""));
}

#[test]
fn identifiers_are_told_from_other_text() {
    assert!(is_identifier_text("first_name"));
    assert!(is_identifier_text("r#type"));
    assert!(!is_identifier_text("type"));
    assert!(!is_identifier_text("a b"));
    assert!(!is_identifier_text("a.b"));
    assert!(!is_identifier_text("1a"));
    assert!(!is_identifier_text(""));
}
