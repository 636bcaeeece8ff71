use shared_lib::classes::{ARRAY_DELIMITERS, OBJECT_DELIMITERS, WHITESPACE};
use shared_lib::{
    parse, parse_array, parse_number, parse_object, parse_pair, parse_string, parse_value,
    ValueToken,
};

fn root(text: &str) -> ValueToken {
    match parse(text) {
        Ok(json) => *json.token,
        Err(e) => panic!("{:?}: {}", text, e.message()),
    }
}

fn string_of(token: &ValueToken) -> (usize, String) {
    match token {
        ValueToken::StringToken { skip, token } => (*skip, token.clone()),
        _ => panic!("Expected StringToken"),
    }
}

fn number_of(token: &ValueToken) -> (usize, String) {
    match token {
        ValueToken::NumberToken { skip, token } => (*skip, token.value_as_string.clone()),
        _ => panic!("Expected NumberToken"),
    }
}

#[test]
fn unicode_escape_gives_the_character() {
    assert_eq!(string_of(&root("\"\\u0041\"")), (8, "A".to_string()));
    assert_eq!(string_of(&root("\"\\u00e9\\u00E9\"")), (14, "\u{e9}\u{e9}".to_string()));
    assert_eq!(string_of(&root("\"\\uFFFF\"")), (8, "\u{ffff}".to_string()));
    assert_eq!(string_of(&root("\"\\u0000\"")), (8, "\u{0}".to_string()));
    assert_eq!(string_of(&root("\"x\\u20ACy\"")), (10, "x\u{20ac}y".to_string()));
}

#[test]
fn newline_escape_gives_a_real_newline() {
    let (skip, text) = string_of(&root("\"a\\nb\""));
    assert_eq!(skip, 6);
    assert_eq!(text, "a\nb");
    assert!(text.contains('\n'));
}

#[test]
fn one_letter_escapes_are_resolved() {
    assert_eq!(
        string_of(&root("\"\\\"\\\\\\/\\b\\f\\n\\r\\t\"")),
        (18, "\"\\/\u{8}\u{c}\n\r\t".to_string())
    );
}

#[test]
fn skip_counts_characters_not_bytes() {
    assert_eq!(string_of(&root("\"\u{e9}\"")), (3, "\u{e9}".to_string()));
    assert_eq!(string_of(&root(" \"\u{1f600}\u{4e2d}\" ")), (4, "\u{1f600}\u{4e2d}".to_string()));
    match parse(" \"\u{1f600}\u{4e2d}\" ") {
        Ok(json) => assert_eq!(json.skip, 5),
        Err(e) => panic!("{}", e.message()),
    }
}

#[test]
fn blanks_at_boundaries_change_only_skip() {
    let spaced = root(" [ 1 , 2 ] ");
    let tight = root("[1,2]");
    match (spaced, tight) {
        (
            ValueToken::ArrayToken { skip: spaced_skip, token: spaced },
            ValueToken::ArrayToken { skip: tight_skip, token: tight },
        ) => {
            assert_eq!(spaced_skip, 9);
            assert_eq!(tight_skip, 5);
            assert_eq!(spaced.values.len(), 2);
            assert_eq!(tight.values.len(), 2);
            assert_eq!(number_of(&spaced.values[0]), (1, "1".to_string()));
            assert_eq!(number_of(&spaced.values[1]), (1, "2".to_string()));
            assert_eq!(number_of(&tight.values[0]), (1, "1".to_string()));
            assert_eq!(number_of(&tight.values[1]), (1, "2".to_string()));
        }
        _ => panic!("Expected ArrayToken"),
    }
    match parse(" [ 1 , 2 ] ") {
        Ok(json) => assert_eq!(json.skip, 10),
        Err(e) => panic!("{}", e.message()),
    }
}

#[test]
fn all_four_blanks_are_skipped() {
    match parse("\t\n\r {\n\t\"a\"\r:\n[\t1\n,\r2 ]\n}\n") {
        Ok(json) => {
            assert_eq!(json.skip, 24);
            match *json.token {
                ValueToken::ObjectToken { skip, token } => {
                    assert_eq!(skip, 20);
                    assert_eq!(token.members.len(), 1);
                    assert_eq!(token.members[0].key, "a");
                    match &*token.members[0].value {
                        ValueToken::ArrayToken { skip, token } => {
                            assert_eq!(*skip, 10);
                            assert_eq!(token.values.len(), 2);
                        }
                        _ => panic!("Expected ArrayToken"),
                    }
                }
                _ => panic!("Expected ObjectToken"),
            }
        }
        Err(e) => panic!("{}", e.message()),
    }
}

#[test]
fn nested_composite_keeps_each_kind_in_place() {
    match root("{\"arr\":[null,true,false,0,\"s\",{}]}") {
        ValueToken::ObjectToken { skip, token } => {
            assert_eq!(skip, 34);
            assert_eq!(token.members.len(), 1);
            assert_eq!(token.members[0].key, "arr");
            match &*token.members[0].value {
                ValueToken::ArrayToken { skip, token } => {
                    assert_eq!(*skip, 26);
                    assert_eq!(token.values.len(), 6);
                    assert!(matches!(*token.values[0], ValueToken::NullToken { skip: 4 }));
                    assert!(matches!(
                        *token.values[1],
                        ValueToken::TrueToken { skip: 4, token: true }
                    ));
                    assert!(matches!(
                        *token.values[2],
                        ValueToken::FalseToken { skip: 5, token: false }
                    ));
                    assert_eq!(number_of(&token.values[3]), (1, "0".to_string()));
                    assert_eq!(string_of(&token.values[4]), (3, "s".to_string()));
                    match &*token.values[5] {
                        ValueToken::ObjectToken { skip, token } => {
                            assert_eq!(*skip, 2);
                            assert_eq!(token.members.len(), 0);
                        }
                        _ => panic!("Expected ObjectToken"),
                    }
                }
                _ => panic!("Expected ArrayToken"),
            }
        }
        _ => panic!("Expected ObjectToken"),
    }
}

#[test]
fn duplicate_keys_stay_in_order() {
    match root("{\"a\":1,\"a\":2}") {
        ValueToken::ObjectToken { skip, token } => {
            assert_eq!(skip, 13);
            assert_eq!(token.members.len(), 2);
            assert_eq!(token.members[0].key, "a");
            assert_eq!(token.members[1].key, "a");
            assert_eq!(number_of(&token.members[0].value), (1, "1".to_string()));
            assert_eq!(number_of(&token.members[1].value), (1, "2".to_string()));
        }
        _ => panic!("Expected ObjectToken"),
    }
}

#[test]
fn what_follows_the_value_is_not_looked_at() {
    match parse("true garbage") {
        Ok(json) => {
            assert_eq!(json.skip, 4);
            assert!(matches!(*json.token, ValueToken::TrueToken { skip: 4, token: true }));
        }
        Err(e) => panic!("{}", e.message()),
    }
    match parse("true)))") {
        Ok(json) => assert_eq!(json.skip, 4),
        Err(e) => panic!("{}", e.message()),
    }
    match parse(" [] ]") {
        Ok(json) => assert_eq!(json.skip, 3),
        Err(e) => panic!("{}", e.message()),
    }
    match parse("12 13") {
        Ok(json) => assert_eq!(json.skip, 2),
        Err(e) => panic!("{}", e.message()),
    }
}

#[test]
fn number_text_is_kept_as_written() {
    assert_eq!(number_of(&root("2.")), (2, "2.".to_string()));
    assert_eq!(number_of(&root("1E5")), (3, "1E5".to_string()));
    assert_eq!(number_of(&root("1.e5")), (4, "1.e5".to_string()));
    assert_eq!(number_of(&root("-0.25e-10")), (9, "-0.25e-10".to_string()));
    assert_eq!(number_of(&root("0e0")), (3, "0e0".to_string()));
    assert_eq!(number_of(&root("  -12.50E+3\n")), (9, "-12.50E+3".to_string()));
    assert_eq!(number_of(&root("1234567890")), (10, "1234567890".to_string()));
}

#[test]
fn number_text_reads_as_a_float() {
    for &(text, value) in [
        ("0", 0.0),
        ("-0", -0.0),
        ("2.", 2.0),
        ("1.e2", 100.0),
        ("0.5", 0.5),
        ("-12.50E+3", -12500.0),
        ("1e-2", 0.01),
    ]
    .iter()
    {
        let (_, raw) = number_of(&root(text));
        let read: f64 = raw.parse().unwrap();
        assert_eq!(read, value);
    }
}

#[test]
fn number_stops_at_its_delimiter() {
    match parse_number("12]", ARRAY_DELIMITERS) {
        Ok(token) => assert_eq!(number_of(&token), (2, "12".to_string())),
        Err(e) => panic!("{}", e.message()),
    }
    match parse_number(" 0,", OBJECT_DELIMITERS) {
        Ok(token) => assert_eq!(number_of(&token), (2, "0".to_string())),
        Err(e) => panic!("{}", e.message()),
    }
    match parse_number("1.5}", OBJECT_DELIMITERS) {
        Ok(token) => assert_eq!(number_of(&token), (3, "1.5".to_string())),
        Err(e) => panic!("{}", e.message()),
    }
    match parse_number("3e2\t", WHITESPACE) {
        Ok(token) => assert_eq!(number_of(&token), (3, "3e2".to_string())),
        Err(e) => panic!("{}", e.message()),
    }
    assert!(parse_number("12}", ARRAY_DELIMITERS).is_err());
    assert!(parse_number("12]", OBJECT_DELIMITERS).is_err());
    assert!(parse_number("12,", WHITESPACE).is_err());
}

#[test]
fn number_stops_at_a_delimiter_of_any_pattern() {
    match parse_number("12;13", "[;|]") {
        Ok(token) => assert_eq!(number_of(&token), (2, "12".to_string())),
        Err(e) => panic!("{}", e.message()),
    }
    match parse_value(" 1.5|", "[;|]") {
        Ok(token) => assert_eq!(number_of(&token), (4, "1.5".to_string())),
        Err(e) => panic!("{}", e.message()),
    }
    assert!(parse_number("12,", "[;|]").is_err());
    assert!(parse_number("12", "[").is_ok());
    assert!(parse_number("12 ", "[").is_err());
}

#[test]
fn class_patterns_are_as_written() {
    assert_eq!(WHITESPACE, "[ \\n\\r\\t]");
    assert_eq!(ARRAY_DELIMITERS, "[ \\n\\r\\t\\],]");
    assert_eq!(OBJECT_DELIMITERS, "[ \\n\\r\\t\\},]");
}

#[test]
fn value_counts_the_blanks_before_it() {
    match parse_value("  null", "") {
        Ok(token) => assert!(matches!(token, ValueToken::NullToken { skip: 6 })),
        Err(e) => panic!("{}", e.message()),
    }
    match parse_value(" \t[ ]", ARRAY_DELIMITERS) {
        Ok(ValueToken::ArrayToken { skip, token }) => {
            assert_eq!(skip, 5);
            assert_eq!(token.values.len(), 0);
        }
        Ok(_) => panic!("Expected ArrayToken"),
        Err(e) => panic!("{}", e.message()),
    }
    match parse_value(" 7,", ARRAY_DELIMITERS) {
        Ok(token) => assert_eq!(number_of(&token), (2, "7".to_string())),
        Err(e) => panic!("{}", e.message()),
    }
    match parse_value("\n\"k\"x", "") {
        Ok(token) => assert_eq!(string_of(&token), (4, "k".to_string())),
        Err(e) => panic!("{}", e.message()),
    }
    match parse_value("falsehood", "") {
        Ok(token) => assert!(matches!(token, ValueToken::FalseToken { skip: 5, token: false })),
        Err(e) => panic!("{}", e.message()),
    }
}

#[test]
fn pair_ends_with_its_value() {
    match parse_pair(" \"key\" : [1, 2] ,") {
        Ok(ValueToken::PairToken { skip, token }) => {
            assert_eq!(skip, 15);
            assert_eq!(token.key, "key");
            match *token.value {
                ValueToken::ArrayToken { skip, token } => {
                    assert_eq!(skip, 7);
                    assert_eq!(token.values.len(), 2);
                }
                _ => panic!("Expected ArrayToken"),
            }
        }
        Ok(_) => panic!("Expected PairToken"),
        Err(e) => panic!("{}", e.message()),
    }
    match parse_pair("\"n\":42}") {
        Ok(ValueToken::PairToken { skip, token }) => {
            assert_eq!(skip, 6);
            assert_eq!(number_of(&token.value), (2, "42".to_string()));
        }
        Ok(_) => panic!("Expected PairToken"),
        Err(e) => panic!("{}", e.message()),
    }
}

#[test]
fn string_scanner_counts_blanks_and_quotes() {
    match parse_string("  \"a\\tb\" tail") {
        Ok(token) => assert_eq!(string_of(&token), (8, "a\tb".to_string())),
        Err(e) => panic!("{}", e.message()),
    }
}

#[test]
fn array_and_object_scanners_count_their_brackets() {
    match parse_array(" [ [ ] , { } ] x") {
        Ok(ValueToken::ArrayToken { skip, token }) => {
            assert_eq!(skip, 14);
            assert_eq!(token.values.len(), 2);
            assert!(matches!(*token.values[0], ValueToken::ArrayToken { skip: 3, .. }));
            assert!(matches!(*token.values[1], ValueToken::ObjectToken { skip: 3, .. }));
        }
        Ok(_) => panic!("Expected ArrayToken"),
        Err(e) => panic!("{}", e.message()),
    }
    match parse_object("{ \"a\" : 1 , \"b\" : \"}\" }") {
        Ok(ValueToken::ObjectToken { skip, token }) => {
            assert_eq!(skip, 23);
            assert_eq!(token.members.len(), 2);
            assert_eq!(token.members[0].key, "a");
            assert_eq!(token.members[1].key, "b");
            assert_eq!(string_of(&token.members[1].value), (4, "}".to_string()));
        }
        Ok(_) => panic!("Expected ObjectToken"),
        Err(e) => panic!("{}", e.message()),
    }
}

#[test]
fn written_value_is_scanned_back() {
    let text = "{\"a\":[1,-2.5e3,\"x\\\"y\\\\\",null],\"a\":{\"b\":[[],{}]},\"\":false}";
    match root(text) {
        ValueToken::ObjectToken { skip, token } => {
            assert_eq!(skip, text.chars().count());
            assert_eq!(token.members.len(), 3);
            assert_eq!(token.members[0].key, "a");
            assert_eq!(token.members[1].key, "a");
            assert_eq!(token.members[2].key, "");
            match &*token.members[0].value {
                ValueToken::ArrayToken { token, .. } => {
                    assert_eq!(token.values.len(), 4);
                    assert_eq!(number_of(&token.values[1]), (6, "-2.5e3".to_string()));
                    assert_eq!(string_of(&token.values[2]), (8, "x\"y\\".to_string()));
                }
                _ => panic!("Expected ArrayToken"),
            }
        }
        _ => panic!("Expected ObjectToken"),
    }
}
