use post_pipeline::footnotes::{DefError, FootnoteTable};

#[test]
fn numbers_in_first_seen_order() {
    let mut t = FootnoteTable::new();
    assert_eq!(t.reference(&String::from("a")), 1);
    assert_eq!(t.reference(&String::from("b")), 2);
    assert_eq!(t.reference(&String::from("c")), 3);
    assert_eq!(t.count(), 3);
}

#[test]
fn second_reference_keeps_number() {
    let mut t = FootnoteTable::new();
    assert_eq!(t.reference(&String::from("x")), 1);
    assert_eq!(t.reference(&String::from("y")), 2);
    assert_eq!(t.reference(&String::from("x")), 1);
    assert_eq!(t.count(), 2);
}

#[test]
fn define_unreferenced_fails() {
    let mut t = FootnoteTable::new();
    assert_eq!(t.define(&String::from("nope")), Err(DefError::NotReferenced));
}

#[test]
fn define_twice_fails() {
    let mut t = FootnoteTable::new();
    t.reference(&String::from("x"));
    assert_eq!(t.define(&String::from("x")), Ok(1));
    assert_eq!(t.define(&String::from("x")), Err(DefError::AlreadyResolved));
}
