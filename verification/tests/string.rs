use shared_lib::{parse, Json, ValueToken};

#[test]
fn test_hello_world() {
    let input = "\"Hello, world!\"";
    let expected_json_skip = 15;
    let expected_token_skip = 15;
    let expected_token = "Hello, world!";
    match parse(input) {
        Ok(Json { skip, token }) => {
            assert_eq!(expected_json_skip, skip);

            let unboxed = *token;
            match unboxed {
                ValueToken::StringToken { skip, token } => {
                    assert_eq!(expected_token_skip, skip);
                    assert_eq!(expected_token, token);
                }
                _ => {
                    panic!("Expected StringToken");
                }
            }
        }
        Err(e) => {
            panic!("{}", e.message());
        }
    }
}

#[test]
fn test_escaped_quote() {
    let input = r#""\"""#;
    let expected_json_skip = 4;
    let expected_token_skip = 4;
    let expected_token = "\"";
    match parse(input) {
        Ok(Json { skip, token }) => {
            assert_eq!(expected_json_skip, skip);

            let unboxed = *token;
            match unboxed {
                ValueToken::StringToken { skip, token } => {
                    assert_eq!(expected_token_skip, skip);
                    assert_eq!(expected_token, token);
                }
                _ => {
                    panic!("Expected StringToken");
                }
            }
        }
        Err(e) => {
            panic!("{}", e.message());
        }
    }
}

#[test]
fn test_empty_string() {
    let input = r#""""#;
    let expected_json_skip = 2;
    let expected_token_skip = 2;
    let expected_token = "";
    match parse(input) {
        Ok(Json { skip, token }) => {
            assert_eq!(expected_json_skip, skip);

            let unboxed = *token;
            match unboxed {
                ValueToken::StringToken { skip, token } => {
                    assert_eq!(expected_token_skip, skip);
                    assert_eq!(expected_token, token);
                }
                _ => {
                    panic!("Expected StringToken");
                }
            }
        }
        Err(e) => {
            panic!("{}", e.message());
        }
    }
}

#[test]
fn test_empty_string_with_spaces() {
    let input = r#" "" "#;
    let expected_json_skip = 3;
    let expected_token_skip = 2;
    let expected_token = "";
    match parse(input) {
        Ok(Json { skip, token }) => {
            assert_eq!(expected_json_skip, skip);

            let unboxed = *token;
            match unboxed {
                ValueToken::StringToken { skip, token } => {
                    assert_eq!(expected_token_skip, skip);
                    assert_eq!(expected_token, token);
                }
                _ => {
                    panic!("Expected StringToken");
                }
            }
        }
        Err(e) => {
            panic!("{}", e.message());
        }
    }
}

#[test]
fn test_unicode_escape() {
    let input = "\"\\u0041\"";
    let expected_token = "A";
    match parse(input) {
        Ok(Json { token, .. }) => {
            let unboxed = *token;
            match unboxed {
                ValueToken::StringToken { token, .. } => {
                    assert_eq!(expected_token, token);
                }
                _ => panic!("Expected StringToken"),
            }
        }
        Err(e) => panic!("{}", e.message()),
    }
}

#[test]
fn test_invalid_missing_quotes() {
    let input = "foo";
    match parse(input) {
        Ok(_) => panic!("Should have failed"),
        Err(_) => {}
    }
}

#[test]
fn test_unterminated_string() {
    let input = r#""unterminated"#;
    match parse(input) {
        Ok(_) => panic!("Should have failed"),
        Err(_) => {}
    }
}

#[test]
fn test_invalid_escape() {
    let input = r#""bad\q""#;
    match parse(input) {
        Ok(_) => panic!("Should have failed"),
        Err(_) => {}
    }
}
