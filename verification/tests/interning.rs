use symbol_intern::Interner;
use symbol_intern::Symbol;

#[test]
fn identity_same_text_same_handle() {
    let mut t = Interner::new();
    let a = t.intern("hello");
    let b = t.intern("hello");
    assert_eq!(a, b);
    assert_eq!(t.len(), 1);
}

#[test]
fn distinct_texts_distinct_handles() {
    let mut t = Interner::new();
    let a = t.intern("alpha");
    let b = t.intern("beta");
    assert_ne!(a, b);
    assert_eq!(t.len(), 2);
}

#[test]
fn round_trip_returns_exact_text() {
    let mut t = Interner::new();
    let cases = ["", "x", "hello world", "snowman \u{2603}", "a\"b\\c", "line\nbreak"];
    let mut handles: Vec<Symbol> = Vec::new();
    for s in cases.iter() {
        handles.push(t.intern(s));
    }
    for (s, h) in cases.iter().zip(handles.iter()) {
        assert_eq!(t.text_at(*h), *s);
        assert_eq!(h.as_str(&t), *s);
    }
}

#[test]
fn stability_under_later_interning() {
    let mut t = Interner::new();
    let a = t.intern("stable");
    let text_before = t.text_at(a).to_string();
    let b_before = t.intern("later-one");
    for i in 0..100 {
        t.intern(&format!("filler-{}", i));
    }
    let a_again = t.intern("stable");
    assert_eq!(a, a_again);
    assert_eq!(t.text_at(a), text_before);
    assert!(a < b_before);
    let late = t.intern("the-latest");
    assert!(a < late);
}

#[test]
fn insertion_order_not_lexicographic() {
    let mut t = Interner::new();
    let z = t.intern("zebra");
    let a = t.intern("aardvark");
    // "zebra" was interned first, so its handle orders first even though
    // "aardvark" is lexicographically smaller.
    assert!(z < a);
    assert!(a > z);
    let z2 = t.intern("zebra");
    assert!(z2 < a);
}

#[test]
fn scenario_foo_bar_foo() {
    let mut t = Interner::new();
    let a = t.intern("foo");
    let b = t.intern("bar");
    let c = t.intern("foo");
    assert_eq!(a, c);
    assert_ne!(a, b);
    assert_eq!(t.text_at(a), "foo");
    assert_eq!(t.text_at(b), "bar");
    assert!(a < b);
}

#[test]
fn parse_equals_construct() {
    let mut t = Interner::new();
    let parsed = t.parse_symbol("x");
    let constructed = t.intern("x");
    assert_eq!(parsed, constructed);
    assert_eq!(t.len(), 1);
}

#[test]
fn lookup_only_finds_interned_text() {
    let mut t = Interner::new();
    assert!(t.lookup("missing").is_none());
    let h = t.intern("present");
    assert_eq!(t.lookup("present"), Some(h));
    assert!(t.lookup("missing").is_none());
    // A lookup never inserts.
    assert_eq!(t.len(), 1);
}

#[test]
fn try_text_at_rejects_foreign_handle() {
    let mut big = Interner::new();
    big.intern("one");
    let foreign = big.intern("two");
    let mut small = Interner::new();
    let own = small.intern("only");
    assert_eq!(small.try_text_at(own), Some("only"));
    // `foreign` indexes the second slot of `big`; `small` never issued it.
    assert_eq!(small.try_text_at(foreign), None);
}

#[test]
fn display_and_debug_renderings() {
    let mut t = Interner::new();
    let plain = t.intern("foo");
    assert_eq!(plain.display_text(&t), "foo");
    assert_eq!(plain.debug_text(&t), "\"foo\"");
    let tricky = t.intern("a\"b\\c");
    assert_eq!(tricky.display_text(&t), "a\"b\\c");
    assert_eq!(tricky.debug_text(&t), "\"a\\\"b\\\\c\"");
    let empty = t.intern("");
    assert_eq!(empty.display_text(&t), "");
    assert_eq!(empty.debug_text(&t), "\"\"");
}

#[test]
fn debug_rendering_escapes_control_characters() {
    let mut t = Interner::new();
    let newline = t.intern("a\nb");
    assert_eq!(newline.display_text(&t), "a\nb");
    assert_eq!(newline.debug_text(&t), "\"a\\nb\"");
    let tab = t.intern("col1\tcol2");
    assert_eq!(tab.debug_text(&t), "\"col1\\tcol2\"");
    let nul = t.intern("\u{0}");
    assert_eq!(nul.debug_text(&t), format!("{:?}", "\u{0}"));
}

#[test]
fn handles_work_as_map_keys_and_sort_by_interning_order() {
    let mut t = Interner::new();
    let c = t.intern("c");
    let b = t.intern("b");
    let a = t.intern("a");

    let mut by_handle = std::collections::HashMap::new();
    by_handle.insert(a, "a");
    by_handle.insert(b, "b");
    by_handle.insert(c, "c");
    assert_eq!(by_handle[&t.intern("b")], "b");

    let mut sorted = vec![a, b, c];
    sorted.sort();
    assert_eq!(sorted, vec![c, b, a]);

    let mut ordered = std::collections::BTreeMap::new();
    ordered.insert(b, ());
    ordered.insert(a, ());
    ordered.insert(c, ());
    let keys: Vec<Symbol> = ordered.keys().copied().collect();
    assert_eq!(keys, vec![c, b, a]);
}

#[test]
fn copies_of_a_handle_are_interchangeable() {
    let mut t = Interner::new();
    let a = t.intern("shared");
    let copy = a;
    let clone = a.clone();
    assert_eq!(a, copy);
    assert_eq!(a, clone);
    assert_eq!(t.text_at(copy), t.text_at(clone));
}
