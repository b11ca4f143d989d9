//! Tests of the lexicographic text order underlying the roster sort.

use chat_state::order::{str_eq, str_le};

#[test]
fn str_le_on_prefixes_and_siblings() {
    assert!(str_le("", ""));
    assert!(str_le("", "a"));
    assert!(!str_le("a", ""));
    assert!(str_le("a", "ab"));
    assert!(!str_le("ab", "a"));
    assert!(str_le("ab", "b"));
    assert!(!str_le("b", "ab"));
    assert!(str_le("ann@example.com", "bob@example.com"));
    assert!(!str_le("bob@example.com", "ann@example.com"));
}

#[test]
fn str_le_is_reflexive_and_total() {
    for s in ["", "a", "zz@x", "same@x"] {
        assert!(str_le(s, s));
    }
    for (a, b) in [("a@x", "b@x"), ("x", "xy"), ("q", "q")] {
        assert!(str_le(a, b) || str_le(b, a));
    }
}

#[test]
fn str_le_orders_by_scalar_value_beyond_ascii() {
    // 'é' (U+00E9) comes after every ASCII letter.
    assert!(str_le("z", "é"));
    assert!(!str_le("é", "z"));
    assert!(str_le("é", "😀"));
}

#[test]
fn str_eq_compares_contents() {
    assert!(str_eq("", ""));
    assert!(str_eq("a@x", "a@x"));
    assert!(!str_eq("a@x", "a@y"));
    assert!(!str_eq("a", "ab"));
    assert!(!str_eq("ab", "a"));
    assert!(str_eq("😀", "😀"));
}
