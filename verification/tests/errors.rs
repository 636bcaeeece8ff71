use shared_lib::{
    parse, parse_array, parse_number, parse_object, parse_pair, parse_string, parse_value,
    ErrorKind, ParseError,
};

fn at(kind: ErrorKind, offset: usize) -> ParseError {
    ParseError { kind, offset }
}

fn failure(text: &str) -> ParseError {
    match parse(text) {
        Ok(_) => panic!("{:?} should not parse", text),
        Err(e) => e,
    }
}

#[test]
fn empty_text_expects_a_value() {
    assert_eq!(failure(""), at(ErrorKind::ExpectedValue, 0));
}

#[test]
fn blank_text_expects_a_value() {
    assert_eq!(failure(" \n\t\r"), at(ErrorKind::ExpectedValue, 4));
}

#[test]
fn leading_zero_is_refused() {
    assert_eq!(failure("012"), at(ErrorKind::LeadingZero, 1));
    assert_eq!(failure("-01"), at(ErrorKind::LeadingZero, 2));
    assert_eq!(failure("[00]"), at(ErrorKind::LeadingZero, 2));
}

#[test]
fn zero_forms_are_accepted() {
    assert!(parse("0").is_ok());
    assert!(parse("0.5").is_ok());
    assert!(parse("-0").is_ok());
}

#[test]
fn trailing_comma_is_refused() {
    assert_eq!(failure("[1,]"), at(ErrorKind::TrailingOrUnexpectedComma, 3));
    assert_eq!(failure("{\"a\":1,}"), at(ErrorKind::TrailingOrUnexpectedComma, 7));
}

#[test]
fn stray_comma_is_refused() {
    assert_eq!(failure("[,1]"), at(ErrorKind::TrailingOrUnexpectedComma, 1));
    assert_eq!(failure("[1,,2]"), at(ErrorKind::TrailingOrUnexpectedComma, 3));
    assert_eq!(failure("{,}"), at(ErrorKind::TrailingOrUnexpectedComma, 1));
}

#[test]
fn unexpected_character_is_refused() {
    assert_eq!(failure("x"), at(ErrorKind::UnexpectedCharacter, 0));
    assert_eq!(failure("  +42"), at(ErrorKind::UnexpectedCharacter, 2));
    assert_eq!(failure("tru"), at(ErrorKind::UnexpectedCharacter, 0));
    assert_eq!(failure("nul!"), at(ErrorKind::UnexpectedCharacter, 0));
    assert_eq!(failure("[falsy]"), at(ErrorKind::UnexpectedCharacter, 1));
    assert_eq!(failure("1.5x"), at(ErrorKind::UnexpectedCharacter, 3));
    assert_eq!(failure("1e5x"), at(ErrorKind::UnexpectedCharacter, 3));
    assert_eq!(failure("12x"), at(ErrorKind::UnexpectedCharacter, 2));
    assert_eq!(failure("0x10"), at(ErrorKind::UnexpectedCharacter, 1));
}

#[test]
fn raw_line_break_in_a_string_is_refused() {
    assert_eq!(failure("\"a\nb\""), at(ErrorKind::UnexpectedCharacter, 2));
    assert_eq!(failure("\"a\rb\""), at(ErrorKind::UnexpectedCharacter, 2));
    assert!(parse("\"a\tb\"").is_ok());
}

#[test]
fn unterminated_string_is_refused() {
    assert_eq!(failure("\"abc"), at(ErrorKind::UnterminatedString, 4));
    assert_eq!(failure("\"abc\\"), at(ErrorKind::UnterminatedString, 5));
    assert_eq!(failure("\"abc\\u"), at(ErrorKind::UnterminatedString, 6));
    assert_eq!(failure("\"abc\\\""), at(ErrorKind::UnterminatedString, 6));
}

#[test]
fn unknown_escape_is_refused() {
    assert_eq!(failure("\"bad\\q\""), at(ErrorKind::InvalidEscape, 5));
    assert_eq!(failure("\"\\U0041\""), at(ErrorKind::InvalidEscape, 2));
}

#[test]
fn bad_unicode_escape_is_refused() {
    assert_eq!(failure("\"\\u12\""), at(ErrorKind::InvalidUnicodeEscape, 3));
    assert_eq!(failure("\"\\u12"), at(ErrorKind::InvalidUnicodeEscape, 3));
    assert_eq!(failure("\"\\u00zz\""), at(ErrorKind::InvalidUnicodeEscape, 3));
    assert_eq!(failure("\"\\u+041\""), at(ErrorKind::InvalidUnicodeEscape, 3));
}

#[test]
fn surrogate_escape_is_refused() {
    assert_eq!(failure("\"\\uD800\""), at(ErrorKind::InvalidUnicodeEscape, 3));
    assert_eq!(failure("\"\\udfff\""), at(ErrorKind::InvalidUnicodeEscape, 3));
    assert!(parse("\"\\ud7ff\"").is_ok());
    assert!(parse("\"\\ue000\"").is_ok());
}

#[test]
fn incomplete_number_is_refused() {
    assert_eq!(failure("-"), at(ErrorKind::IncompleteNumber, 1));
    assert_eq!(failure("-x"), at(ErrorKind::IncompleteNumber, 1));
    assert_eq!(failure("1e"), at(ErrorKind::IncompleteNumber, 2));
    assert_eq!(failure("1e+"), at(ErrorKind::IncompleteNumber, 3));
    assert_eq!(failure("1e-x"), at(ErrorKind::IncompleteNumber, 3));
    assert_eq!(failure("[1E]"), at(ErrorKind::IncompleteNumber, 3));
    assert_eq!(failure("2.e"), at(ErrorKind::IncompleteNumber, 3));
}

#[test]
fn key_must_be_a_string() {
    assert_eq!(failure("{1:2}"), at(ErrorKind::ExpectedStringKey, 1));
    assert_eq!(failure("{ a:2}"), at(ErrorKind::ExpectedStringKey, 2));
    assert_eq!(parse_pair("  ").err(), Some(at(ErrorKind::ExpectedStringKey, 2)));
}

#[test]
fn missing_delimiter_is_refused() {
    assert_eq!(failure("[1 2]"), at(ErrorKind::ExpectedDelimiter, 3));
    assert_eq!(failure("[1"), at(ErrorKind::ExpectedDelimiter, 2));
    assert_eq!(failure("["), at(ErrorKind::ExpectedDelimiter, 1));
    assert_eq!(failure("[1, "), at(ErrorKind::ExpectedDelimiter, 4));
    assert_eq!(failure("[true}"), at(ErrorKind::ExpectedDelimiter, 5));
    assert_eq!(failure("{\"a\" 1}"), at(ErrorKind::ExpectedDelimiter, 5));
    assert_eq!(failure("{\"a\""), at(ErrorKind::ExpectedDelimiter, 4));
    assert_eq!(failure("{\"a\":1"), at(ErrorKind::ExpectedDelimiter, 6));
    assert_eq!(failure("{\"a\":1 \"b\":2}"), at(ErrorKind::ExpectedDelimiter, 7));
    assert_eq!(failure("{"), at(ErrorKind::ExpectedDelimiter, 1));
}

#[test]
fn missing_value_is_refused() {
    assert_eq!(failure("{\"a\":}"), at(ErrorKind::ExpectedValue, 5));
    assert_eq!(failure("{\"a\": ,"), at(ErrorKind::ExpectedValue, 6));
    assert_eq!(failure("{\"a\":"), at(ErrorKind::UnexpectedCharacter, 5));
    assert_eq!(failure("{\"a\":]"), at(ErrorKind::UnexpectedCharacter, 5));
}

#[test]
fn inner_failure_comes_out_unchanged() {
    assert_eq!(failure("[[\"a\\q\"]]"), at(ErrorKind::InvalidEscape, 5));
    assert_eq!(failure("{\"k\":[1,{\"x\":01}]}"), at(ErrorKind::LeadingZero, 14));
    assert_eq!(failure("{\"k"), at(ErrorKind::UnterminatedString, 3));
}

#[test]
fn scanners_refuse_what_does_not_open_their_construct() {
    assert_eq!(parse_array("{}").err(), Some(at(ErrorKind::UnexpectedCharacter, 0)));
    assert_eq!(parse_array(" ").err(), Some(at(ErrorKind::ExpectedDelimiter, 1)));
    assert_eq!(parse_object(" []").err(), Some(at(ErrorKind::UnexpectedCharacter, 1)));
    assert_eq!(parse_object("").err(), Some(at(ErrorKind::ExpectedDelimiter, 0)));
    assert_eq!(parse_string("foo").err(), Some(at(ErrorKind::UnexpectedCharacter, 0)));
    assert_eq!(parse_string("  ").err(), Some(at(ErrorKind::UnterminatedString, 2)));
    assert_eq!(parse_number("", "").err(), Some(at(ErrorKind::IncompleteNumber, 0)));
    assert_eq!(parse_number("   ", "[ \\n\\r\\t]").err(), Some(at(ErrorKind::IncompleteNumber, 3)));
    assert_eq!(parse_number("+42", "").err(), Some(at(ErrorKind::IncompleteNumber, 0)));
    assert_eq!(parse_value("", "").err(), Some(at(ErrorKind::UnexpectedCharacter, 0)));
}

#[test]
fn number_without_delimiters_runs_to_the_end() {
    assert!(parse_number("12", "").is_ok());
    assert_eq!(parse_number("12 ", "").err(), Some(at(ErrorKind::UnexpectedCharacter, 2)));
    assert_eq!(parse_number("1.5,", "").err(), Some(at(ErrorKind::UnexpectedCharacter, 3)));
    assert_eq!(parse_value("7]", "").err(), Some(at(ErrorKind::UnexpectedCharacter, 1)));
}

#[test]
fn delimiter_in_place_of_a_value() {
    assert_eq!(parse_value(" ,", "[ \\n\\r\\t\\],]").err(), Some(at(ErrorKind::ExpectedValue, 1)));
    assert_eq!(parse_value("]", "[ \\n\\r\\t\\],]").err(), Some(at(ErrorKind::ExpectedValue, 0)));
    assert_eq!(
        parse_value("]", "[ \\n\\r\\t\\},]").err(),
        Some(at(ErrorKind::UnexpectedCharacter, 0))
    );
    assert_eq!(parse_value(",", "").err(), Some(at(ErrorKind::UnexpectedCharacter, 0)));
}

#[test]
fn digits_of_other_scripts_are_no_digits() {
    assert_eq!(failure("1\u{0663}"), at(ErrorKind::UnexpectedCharacter, 1));
    assert_eq!(failure("\u{0663}"), at(ErrorKind::UnexpectedCharacter, 0));
    assert_eq!(failure("\u{00a0}1"), at(ErrorKind::UnexpectedCharacter, 0));
}

#[test]
fn message_names_kind_and_offset() {
    assert_eq!(failure("").message(), "Expected value at offset 0");
    assert_eq!(failure("x").message(), "Unexpected character at offset 0");
    assert_eq!(failure("\"abc").message(), "Unterminated string at offset 4");
    assert_eq!(failure("\"\\q\"").message(), "Invalid escape at offset 2");
    assert_eq!(failure("\"\\u1\"").message(), "Invalid unicode escape at offset 3");
    assert_eq!(failure("[1, 2, 3, 4, 05]").message(), "Leading zero at offset 14");
    assert_eq!(failure("-").message(), "Incomplete number at offset 1");
    assert_eq!(failure("{1}").message(), "Expected string key at offset 1");
    assert_eq!(failure("[1").message(), "Expected delimiter at offset 2");
    assert_eq!(failure("[1,]").message(), "Unexpected ',' at offset 3");
    assert_eq!(ErrorKind::LeadingZero.describe(), "Leading zero");
}
