use rlox::result::Error;
use rlox::text::chars_of;
use rlox::text::decimal;
use rlox::text::spells;
use rlox::text::string_of;

#[test]
fn lexical_error_message() {
    let e = Error::Lexical(3, 7, String::from("unexpected character"), String::from("@"));
    assert_eq!(e.to_string(), "Lexical Error [line 3 7] unexpected character: \"@\"");
    assert_eq!(e.description(), "lexical error");
    assert_eq!(e.line(), Some(3));
}

#[test]
fn lexical_error_quotes_its_context() {
    let e = Error::Lexical(1, 1, String::from("unterminated string"), String::from("\"a\nb"));
    assert_eq!(e.to_string(), "Lexical Error [line 1 1] unterminated string: \"\\\"a\\nb\"");
}

#[test]
fn parse_error_message() {
    let e = Error::Parse(1, 7, String::from("expected ')' after expression"), String::from("3"));
    assert_eq!(e.to_string(), "Parse Error [line 1 7] expected ')' after expression: near 3");
    assert_eq!(e.description(), "parse error");
    assert_eq!(e.line(), Some(1));
}

#[test]
fn other_error_messages() {
    assert_eq!(Error::Usage.to_string(), "Usage: rlox [script]");
    assert_eq!(Error::Usage.description(), "usage error");
    assert_eq!(Error::Usage.line(), None);
    let e = Error::Runtime(12, String::from("operands must be numbers"), String::from("+"));
    assert_eq!(e.to_string(), "Runtime Error [line 12] operands must be numbers: near +");
    assert_eq!(e.description(), "runtime error");
    assert_eq!(e.line(), Some(12));
    let e = Error::Break(40);
    assert_eq!(e.to_string(), "Runtime Error [line 40] unexpected break statement");
    assert_eq!(e.description(), "break error");
    assert_eq!(e.line(), Some(40));
}

#[test]
fn input_output_error() {
    let inner = std::io::Error::new(std::io::ErrorKind::NotFound, "no such script");
    let e = Error::from(inner);
    assert!(matches!(e, Error::IO(_)));
    assert_eq!(e.to_string(), "no such script");
    assert_eq!(e.description(), "input/output error");
    assert_eq!(e.line(), None);
}

#[test]
fn decimal_numbers() {
    assert_eq!(decimal(0), "0");
    assert_eq!(decimal(7), "7");
    assert_eq!(decimal(10), "10");
    assert_eq!(decimal(1234567890), "1234567890");
    assert_eq!(decimal(u64::MAX), "18446744073709551615");
}

#[test]
fn strings_and_characters() {
    assert_eq!(chars_of("a\u{e9}\n"), vec!['a', '\u{e9}', '\n']);
    assert_eq!(chars_of(""), Vec::<char>::new());
    let chars = chars_of("hello");
    assert_eq!(string_of(&chars, 1, 4), "ell");
    assert_eq!(string_of(&chars, 2, 2), "");
    assert!(spells(&chars, 0, 5, "hello"));
    assert!(spells(&chars, 1, 3, "el"));
    assert!(!spells(&chars, 1, 3, "le"));
    assert!(!spells(&chars, 0, 4, "hello"));
    assert!(spells(&chars, 3, 3, ""));
}
