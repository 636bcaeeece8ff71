use shared_lib::{parse, parse_endpoint, parse_pair, pretty_print_token, rocket, Reply};

fn rendered(text: &str, indent: usize) -> String {
    match parse(text) {
        Ok(json) => pretty_print_token(&json.token, indent),
        Err(e) => panic!("{:?}: {}", text, e.message()),
    }
}

#[test]
fn scalars_render_on_one_line() {
    assert_eq!(rendered("null", 0), "NullToken (skip: 4)");
    assert_eq!(rendered("true", 0), "TrueToken (skip: 4) true");
    assert_eq!(rendered("false", 3), "FalseToken (skip: 5) false");
    assert_eq!(rendered(" -1.5e3 ", 0), "NumberToken (skip: 6) -1.5e3");
    assert_eq!(rendered("\"a\\nb\\\"\"", 0), "StringToken (skip: 8) \"a\nb\"\"");
}

#[test]
fn skip_renders_in_decimal() {
    assert_eq!(rendered("\"Hello, world!\"", 0), "StringToken (skip: 15) \"Hello, world!\"");
    assert_eq!(rendered("1234567890", 0), "NumberToken (skip: 10) 1234567890");
    let long = format!("\"{}\"", "x".repeat(1005));
    assert_eq!(rendered(&long, 0), format!("StringToken (skip: 1007) \"{}\"", "x".repeat(1005)));
}

#[test]
fn empty_array_and_object_render_open_and_close() {
    assert_eq!(rendered("[]", 0), "ArrayToken (skip: 2) [\n]");
    assert_eq!(rendered("{ }", 0), "ObjectToken (skip: 3) {\n}");
    assert_eq!(rendered("[]", 2), "ArrayToken (skip: 2) [\n    ]");
}

#[test]
fn array_renders_one_element_to_a_line() {
    assert_eq!(
        rendered("[1, [true], \"s\"]", 0),
        "ArrayToken (skip: 16) [\n  NumberToken (skip: 1) 1,\n  ArrayToken (skip: 6) [\n    \
         TrueToken (skip: 4) true\n  ],\n  StringToken (skip: 3) \"s\"\n]"
    );
}

#[test]
fn object_renders_one_member_to_a_line() {
    assert_eq!(
        rendered("{\"a\":1,\"b\":{\"c\":null}}", 0),
        "ObjectToken (skip: 22) {\n  \"a\": NumberToken (skip: 1) 1,\n  \"b\": ObjectToken \
         (skip: 10) {\n    \"c\": NullToken (skip: 4)\n  }\n}"
    );
}

#[test]
fn indent_moves_every_line_but_the_first() {
    assert_eq!(
        rendered("[[0]]", 1),
        "ArrayToken (skip: 5) [\n    ArrayToken (skip: 3) [\n      NumberToken (skip: 1) \
         0\n    ]\n  ]"
    );
}

#[test]
fn pair_renders_key_and_value() {
    match parse_pair("\"k\": [1]") {
        Ok(token) => assert_eq!(
            pretty_print_token(&token, 0),
            "PairToken (skip: 8) \"k\": ArrayToken (skip: 4) [\n    NumberToken (skip: 1) 1\n  ]"
        ),
        Err(e) => panic!("{}", e.message()),
    }
}

#[test]
fn rendering_twice_gives_the_same_text() {
    match parse("{\"arr\":[null,true,false,0,\"s\",{}], \"n\": -1e9}") {
        Ok(json) => {
            let first = pretty_print_token(&json.token, 0);
            let second = pretty_print_token(&json.token, 0);
            assert_eq!(first, second);
            assert_eq!(first.as_bytes(), second.as_bytes());
        }
        Err(e) => panic!("{}", e.message()),
    }
}

#[test]
fn endpoint_refuses_what_is_not_plain_text() {
    match parse_endpoint(false, "[1]") {
        Reply::Refused { code, message } => {
            assert_eq!(code, 415);
            assert_eq!(message, "Unsupported Media Type");
        }
        Reply::Rendered { .. } => panic!("Expected a refusal"),
    }
}

#[test]
fn endpoint_renders_a_document() {
    match parse_endpoint(true, " [1, 2] ") {
        Reply::Rendered { body } => assert_eq!(
            body,
            "ArrayToken (skip: 6) [\n  NumberToken (skip: 1) 1,\n  NumberToken (skip: 1) 2\n]"
        ),
        Reply::Refused { .. } => panic!("Expected a rendering"),
    }
}

#[test]
fn endpoint_reports_a_bad_document() {
    match parse_endpoint(true, "[1,]") {
        Reply::Refused { code, message } => {
            assert_eq!(code, 400);
            assert_eq!(message, "Unexpected ',' at offset 3");
        }
        Reply::Rendered { .. } => panic!("Expected a refusal"),
    }
    match parse_endpoint(true, "") {
        Reply::Refused { code, message } => {
            assert_eq!(code, 400);
            assert_eq!(message, "Expected value at offset 0");
        }
        Reply::Rendered { .. } => panic!("Expected a refusal"),
    }
}

#[test]
fn parser_is_mounted_at_its_route() {
    let mount = rocket();
    assert_eq!(mount.base, "/");
    assert_eq!(mount.route, "/api/v1/parse");
}
