use bdmg::introspection::{extract_optional, ParseOptionalError};

#[test]
fn simple_integer() {
    assert_eq!(Ok(Some(32)), extract_optional("(32)"));
}

#[test]
fn negative_integer() {
    assert_eq!(Ok(Some(-32)), extract_optional("(-32)"));
}

#[test]
fn simple_string() {
    assert_eq!(Ok(Some(String::from("hello"))), extract_optional("(hello)"));
}

#[test]
fn no_value() {
    assert_eq!(Ok(None), extract_optional::<i64>(""));
}

#[test]
fn empty_optional() {
    assert!(extract_optional::<i64>("()").is_err());
}

#[test]
fn missing_open() {
    assert!(extract_optional::<i64>("32)").is_err());
}

#[test]
fn missing_close() {
    assert!(extract_optional::<i64>("(32").is_err());
}

#[test]
fn missing_both() {
    assert!(extract_optional::<i64>("32").is_err());
}

#[test]
fn optional_encoding_examples() {
    assert_eq!(Ok(None), extract_optional::<i64>(""));
    assert_eq!(Ok(Some(5i64)), extract_optional::<i64>("(5)"));
    assert_eq!(Ok(Some(-3i64)), extract_optional::<i64>("(-3)"));
    assert!(matches!(extract_optional::<i64>("()"), Err(ParseOptionalError::ParsingError(_))));
    assert_eq!(Err(ParseOptionalError::MissingCloseParenthesis), extract_optional::<i64>("(5"));
    assert_eq!(Err(ParseOptionalError::MissingOpenParenthesis), extract_optional::<i64>("5)"));
    assert_eq!(Err(ParseOptionalError::MissingOpenParenthesis), extract_optional::<i64>("5"));
}

#[test]
fn optional_edge_cases() {
    assert_eq!(Err(ParseOptionalError::MissingCloseParenthesis), extract_optional::<i64>("("));
    assert_eq!(Err(ParseOptionalError::MissingOpenParenthesis), extract_optional::<i64>(")"));
    assert_eq!(Ok(Some(String::new())), extract_optional::<String>("()"));
    assert_eq!(Ok(Some(String::from("(a)"))), extract_optional::<String>("((a))"));
    assert_eq!(Ok(Some(7i64)), extract_optional::<i64>("(+7)"));
    assert!(extract_optional::<i64>("(9223372036854775808)").is_err());
    assert_eq!(Ok(Some(i64::MAX)), extract_optional::<i64>("(9223372036854775807)"));
    assert!(extract_optional::<i32>("(2147483648)").is_err());
    assert!(extract_optional::<i64>("(-)").is_err());
    assert!(extract_optional::<i64>("( 5)").is_err());
}
