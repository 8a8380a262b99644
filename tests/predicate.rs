use jsonq::operators::{deny, eq, ne};
use jsonq::parsers::{literal_of, parse_args_str, split_args_str, ParseError, Predicate};
use jsonq::path::parse_key;
use jsonq::value::Value;
use std::str::FromStr;

fn parse(s: &str) -> Result<Predicate, ParseError> {
    let parts = split_args_str(s)?;
    let number = f64::from_str(&parts.text).ok().map(f64::to_bits);
    parse_args_str(s, number)
}

#[test]
fn parse_key_dotted_path() {
    assert_eq!(parse_key("user.age"), "/user/age");
    assert_eq!(parse_key("a"), "/a");
    assert_eq!(parse_key("a..b"), "/a//b");
    assert_eq!(parse_key(""), "/");
}

#[test]
fn parse_key_self_is_kept() {
    assert_eq!(parse_key("$self"), "$self");
    assert_eq!(parse_key("$self.a"), "/$self/a");
}

#[test]
fn split_gives_the_four_fields() {
    let parts = split_args_str("user.age,==,n:42").unwrap();
    assert_eq!(parts.path, "user.age");
    assert_eq!(parts.operator, "==");
    assert_eq!(parts.tag, "n");
    assert_eq!(parts.text, "42");
}

#[test]
fn split_ignores_extra_fields_and_colons() {
    let parts = split_args_str("a,!=,s:x:y,z").unwrap();
    assert_eq!(parts.path, "a");
    assert_eq!(parts.operator, "!=");
    assert_eq!(parts.tag, "s");
    assert_eq!(parts.text, "x");
}

#[test]
fn parse_number_literal() {
    let p = parse("a,==,n:1").unwrap();
    assert_eq!(p.path, "/a");
    assert_eq!(p.operator, "==");
    assert!(matches!(p.value, Value::Num(b) if b == 1.0f64.to_bits()));
}

#[test]
fn parse_string_literal_is_raw() {
    let p = parse("name,==,s: Bob ").unwrap();
    assert!(matches!(p.value, Value::Str(ref s) if s == " Bob "));
    let p = parse("name,==,s:").unwrap();
    assert!(matches!(p.value, Value::Str(ref s) if s.is_empty()));
}

#[test]
fn parse_bool_literal() {
    let p = parse("user.active,==,b:true").unwrap();
    assert_eq!(p.path, "/user/active");
    assert!(matches!(p.value, Value::Bool(true)));
    let p = parse("user.active,==,b:false").unwrap();
    assert!(matches!(p.value, Value::Bool(false)));
}

#[test]
fn parse_unknown_tag_gives_unknown_literal() {
    let p = parse("a,==,x:1").unwrap();
    assert!(matches!(p.value, Value::Unknown));
}

#[test]
fn parse_unknown_operator_is_kept() {
    let p = parse("a,<,n:1").unwrap();
    assert_eq!(p.operator, "<");
}

#[test]
fn malformed_predicate_missing_commas() {
    assert_eq!(parse("a==n:1").err(), Some(ParseError::MissingField));
    assert_eq!(parse("a,==").err(), Some(ParseError::MissingField));
}

#[test]
fn malformed_predicate_missing_colon() {
    assert_eq!(parse("a,==,n1").err(), Some(ParseError::MissingTypeSeparator));
}

#[test]
fn malformed_number_literal() {
    assert_eq!(parse("a,==,n:abc").err(), Some(ParseError::BadNumber));
}

#[test]
fn malformed_bool_literal() {
    assert_eq!(parse("a,==,b:True").err(), Some(ParseError::BadBool));
    assert_eq!(parse("a,==,b:1").err(), Some(ParseError::BadBool));
}

#[test]
fn literal_of_number_needs_a_reading() {
    assert_eq!(literal_of("n", "x", None).err(), Some(ParseError::BadNumber));
    assert!(matches!(literal_of("n", "2", Some(7)), Ok(Value::Num(7))));
    assert!(matches!(literal_of("s", "2", None), Ok(Value::Str(ref s)) if s == "2"));
}

#[test]
fn round_trip_of_fields() {
    let p = parse("user.name,!=,s:alice").unwrap();
    assert_eq!(p.path, parse_key("user.name"));
    assert_eq!(p.operator, "!=");
    assert!(matches!(p.value, Value::Str(ref s) if s == "alice"));
}

#[test]
fn operators_on_plain_values() {
    assert!(eq(1, 1));
    assert!(!eq(1, 2));
    assert!(ne("a", "b"));
    assert!(!ne(true, true));
    assert!(!deny(3, 3));
    assert!(!deny(3, 4));
}

#[test]
fn value_equality_follows_floats() {
    let nan = f64::NAN.to_bits();
    assert!(Value::Num(nan) != Value::Num(nan));
    assert!(Value::Num(0.0f64.to_bits()) == Value::Num((-0.0f64).to_bits()));
    assert!(Value::Num(1.5f64.to_bits()) == Value::Num(1.5f64.to_bits()));
    assert!(Value::Num(1.0f64.to_bits()) != Value::Str(String::from("1")));
    assert!(Value::Unknown != Value::Unknown);
}
