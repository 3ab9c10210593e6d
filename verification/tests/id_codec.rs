use post_pipeline::{PostId, PostIdError};

#[test]
fn parse_number_only() {
    let id = PostId::from_str("42").unwrap();
    assert_eq!(id.number, 42);
    assert_eq!(id.slug, "");
}

#[test]
fn parse_number_and_slug() {
    let id = PostId::from_str("7-hello_world-2").unwrap();
    assert_eq!(id.number, 7);
    assert_eq!(id.slug, "hello_world-2");
}

#[test]
fn parse_rejects_letters() {
    assert_eq!(PostId::from_str("abc").unwrap_err(), PostIdError::InvalidFormat);
}

#[test]
fn parse_rejects_empty() {
    assert_eq!(PostId::from_str("").unwrap_err(), PostIdError::InvalidFormat);
}

#[test]
fn missing_parameter() {
    assert_eq!(PostId::from_param(None).unwrap_err(), PostIdError::Missing);
}

#[test]
fn parse_rejects_huge_number() {
    assert_eq!(
        PostId::from_str("99999999999999999999999999").unwrap_err(),
        PostIdError::ParseNumberFailed
    );
}

#[test]
fn parse_zero_and_leading_zeros() {
    assert_eq!(PostId::from_str("0").unwrap().number, 0);
    assert_eq!(PostId::from_str("007").unwrap().number, 7);
}

#[test]
fn parse_empty_slug_after_dash() {
    let id = PostId::from_str("7-").unwrap();
    assert_eq!(id.number, 7);
    assert_eq!(id.slug, "");
}

#[test]
fn parse_rejects_uppercase_slug() {
    assert_eq!(PostId::from_str("7-Abc").unwrap_err(), PostIdError::InvalidFormat);
}

#[test]
fn format_zero() {
    let id = PostId { number: 0, slug: String::new() };
    assert_eq!(id.format(), "0");
}

#[test]
fn format_round_trip() {
    let id = PostId { number: 42, slug: String::from("haha") };
    let text = id.format();
    assert_eq!(text, "42-haha");
    let back = PostId::from_str(&text).unwrap();
    assert!(back == id);

    let plain = PostId { number: 6, slug: String::new() };
    let text = plain.format();
    assert_eq!(text, "6");
    let back = PostId::from_str(&text).unwrap();
    assert!(back == plain);
}
