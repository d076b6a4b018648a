use symbol_intern::SharedInterner;

#[test]
fn shared_identity_and_round_trip() {
    let t = SharedInterner::new();
    let a = t.intern("hello").unwrap();
    let b = t.intern("hello").unwrap();
    assert_eq!(a, b);
    assert_eq!(t.text_of(a), Some("hello".to_string()));
    assert_eq!(t.len(), 1);
}

#[test]
fn shared_distinct_texts_and_order() {
    let t = SharedInterner::new();
    let first = t.intern("first").unwrap();
    let second = t.intern("second").unwrap();
    assert_ne!(first, second);
    assert!(first < second);
    assert_eq!(t.text_of(first), Some("first".to_string()));
    assert_eq!(t.text_of(second), Some("second".to_string()));
    assert_eq!(t.len(), 2);
}

#[test]
fn shared_text_of_foreign_handle_is_none() {
    let big = SharedInterner::new();
    big.intern("one").unwrap();
    let foreign = big.intern("two").unwrap();
    let small = SharedInterner::new();
    small.intern("only").unwrap();
    assert_eq!(small.text_of(foreign), None);
}

#[test]
fn shared_parse_scenario() {
    let t = SharedInterner::new();
    let a = t.intern("foo").unwrap();
    let b = t.intern("bar").unwrap();
    let c = t.intern("foo").unwrap();
    assert_eq!(a, c);
    assert_ne!(a, b);
    assert!(a < b);
    assert_eq!(t.text_of(a), Some("foo".to_string()));
    assert_eq!(t.text_of(b), Some("bar".to_string()));
}
