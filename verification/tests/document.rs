use shared_lib::{parse, Json, ValueToken};

#[test]
fn json_false_test() {
    match parse("false") {
        Ok(Json { skip, token }) => {
            assert_eq!(skip, 5);

            match *token {
                ValueToken::FalseToken { skip, token } => {
                    assert_eq!(skip, 5);
                    assert!(!token);
                }
                _ => {
                    panic!("Expected FalseToken");
                }
            }
        }
        Err(e) => {
            panic!("{}", e.message());
        }
    }
}

#[test]
fn json_null_test() {
    match parse("null") {
        Ok(Json { skip, token }) => {
            assert_eq!(skip, 4);

            match *token {
                ValueToken::NullToken { skip } => {
                    assert_eq!(skip, 4);
                }
                _ => {
                    panic!("Expected NullToken");
                }
            }
        }
        Err(e) => {
            panic!("{}", e.message());
        }
    }
}

#[test]
fn json_true_test() {
    match parse("true") {
        Ok(Json { skip, token }) => {
            assert_eq!(skip, 4);

            match *token {
                ValueToken::TrueToken { skip, token } => {
                    assert_eq!(skip, 4);
                    assert!(token);
                }
                _ => {
                    panic!("Expected TrueToken");
                }
            }
        }
        Err(e) => {
            panic!("{}", e.message());
        }
    }
}
