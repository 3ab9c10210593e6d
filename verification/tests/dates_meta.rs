use post_pipeline::DateYmd;
use post_pipeline::date::parse_date;
use post_pipeline::meta::{metadata_from_toml, metadata_from_yaml};

#[test]
fn parse_valid_date() {
    assert_eq!(
        parse_date("2024-01-15"),
        Some(DateYmd { year: 2024, month: 1, day: 15 })
    );
}

#[test]
fn parse_leap_day() {
    assert_eq!(
        parse_date("2024-02-29"),
        Some(DateYmd { year: 2024, month: 2, day: 29 })
    );
    assert_eq!(parse_date("2023-02-29"), None);
    assert_eq!(parse_date("1900-02-29"), None);
    assert_eq!(
        parse_date("2000-02-29"),
        Some(DateYmd { year: 2000, month: 2, day: 29 })
    );
}

#[test]
fn parse_rejects_bad_shapes() {
    assert_eq!(parse_date(""), None);
    assert_eq!(parse_date("2024-1-15"), None);
    assert_eq!(parse_date("2024/01/15"), None);
    assert_eq!(parse_date("2024-13-01"), None);
    assert_eq!(parse_date("2024-00-10"), None);
    assert_eq!(parse_date("2024-04-31"), None);
    assert_eq!(parse_date("2024-01-00"), None);
    assert_eq!(parse_date("2024-01-15x"), None);
}

#[test]
fn yaml_metadata_complete() {
    let m = metadata_from_yaml(
        "title: Hello\nauthor: ada\ndescription: a post\ndate: 2024-01-15\n",
    )
    .unwrap();
    assert_eq!(m.title, "Hello");
    assert_eq!(m.author, "ada");
    assert_eq!(m.description, "a post");
    assert_eq!(m.date, DateYmd { year: 2024, month: 1, day: 15 });
}

#[test]
fn yaml_metadata_missing_field() {
    let e = metadata_from_yaml("title: Hello\nauthor: ada\ndate: 2024-01-15\n").unwrap_err();
    assert_eq!(e, "missing field `description`");
}

#[test]
fn yaml_metadata_bad_date() {
    let e = metadata_from_yaml(
        "title: t\nauthor: a\ndescription: d\ndate: yesterday\n",
    )
    .unwrap_err();
    assert_eq!(e, "invalid date (expected YYYY-MM-DD)");
}

#[test]
fn toml_metadata_complete() {
    let m = metadata_from_toml(
        "title = \"Hello\"\nauthor = \"ada\"\ndescription = \"a post\"\ndate = \"2024-01-15\"\n",
    )
    .unwrap();
    assert_eq!(m.title, "Hello");
    assert_eq!(m.date, DateYmd { year: 2024, month: 1, day: 15 });
}

#[test]
fn yaml_metadata_not_a_mapping() {
    assert!(metadata_from_yaml("- just\n- a\n- list\n").is_err());
}
