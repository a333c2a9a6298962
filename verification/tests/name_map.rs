use nimi::digest::hex_lower;
use nimi::name_map::NameMap;
use nimi::text::{bytes_eq, chars_of, decimal, order_bytes, order_text, str_eq, Order};

#[test]
fn map_keeps_entries_in_byte_order() {
    let mut map = NameMap::new();
    assert!(map.is_empty());
    assert_eq!(map.insert("pear".to_string(), 1), None);
    assert_eq!(map.insert("apple".to_string(), 2), None);
    assert_eq!(map.insert("zebra".to_string(), 3), None);
    assert_eq!(map.insert("Apple".to_string(), 4), None);
    assert_eq!(map.len(), 4);
    assert_eq!(map.name_at(0), "Apple");
    assert_eq!(map.name_at(1), "apple");
    assert_eq!(map.name_at(2), "pear");
    assert_eq!(map.name_at(3), "zebra");
    assert_eq!(*map.value_at(2), 1);
}

#[test]
fn map_insert_replaces_and_hands_back() {
    let mut map = NameMap::new();
    assert_eq!(map.insert("k".to_string(), 1), None);
    assert_eq!(map.insert("k".to_string(), 2), Some(1));
    assert_eq!(map.len(), 1);
    assert_eq!(map.get("k"), Some(&2));
    assert_eq!(map.get("other"), None);
    assert!(map.contains_key("k"));
    assert!(!map.contains_key(""));
}

#[test]
fn map_pop_last_takes_the_greatest_name() {
    let mut map = NameMap::new();
    map.insert("b".to_string(), 2);
    map.insert("a".to_string(), 1);
    map.insert("c".to_string(), 3);
    assert_eq!(map.pop_last(), Some(("c".to_string(), 3)));
    assert_eq!(map.pop_last(), Some(("b".to_string(), 2)));
    assert_eq!(map.pop_last(), Some(("a".to_string(), 1)));
    assert_eq!(map.pop_last(), None);
    assert!(map.is_empty());
}

#[test]
fn maps_with_the_same_contents_are_equal() {
    let mut one = NameMap::new();
    one.insert("x".to_string(), 1);
    one.insert("y".to_string(), 2);
    let mut other = NameMap::new();
    other.insert("y".to_string(), 2);
    other.insert("x".to_string(), 1);
    assert_eq!(one, other);
}

#[test]
fn byte_order_is_lexicographic() {
    assert_eq!(order_bytes(b"", b""), Order::Same);
    assert_eq!(order_bytes(b"", b"a"), Order::Before);
    assert_eq!(order_bytes(b"a", b""), Order::After);
    assert_eq!(order_bytes(b"ab", b"b"), Order::Before);
    assert_eq!(order_bytes(b"abc", b"abd"), Order::Before);
    assert_eq!(order_bytes(b"abd", b"abc"), Order::After);
    assert_eq!(order_bytes(b"abc", b"abc"), Order::Same);
    assert_eq!(order_text("a", "ab"), Order::Before);
    assert_eq!(order_text("é", "z"), Order::After);
    assert_eq!(order_text("same", "same"), Order::Same);
}

#[test]
fn byte_order_agrees_with_the_standard_library() {
    let words = ["", "a", "ab", "b", "Z", "é", "zz", "a\u{10000}"];
    for a in words {
        for b in words {
            let expected = if a < b {
                Order::Before
            } else if a == b {
                Order::Same
            } else {
                Order::After
            };
            assert_eq!(order_text(a, b), expected);
        }
    }
}

#[test]
fn text_equality() {
    assert!(str_eq("never", "never"));
    assert!(!str_eq("never", "neve"));
    assert!(!str_eq("a", "b"));
    assert!(bytes_eq(b"", b""));
    assert!(!bytes_eq(b"a", b""));
}

#[test]
fn chars_of_gives_every_character() {
    assert_eq!(chars_of(""), Vec::<char>::new());
    assert_eq!(chars_of("aé\u{2003}z"), vec!['a', 'é', '\u{2003}', 'z']);
}

#[test]
fn decimal_writes_numbers_without_leading_zeros() {
    assert_eq!(decimal(0), "0");
    assert_eq!(decimal(7), "7");
    assert_eq!(decimal(10), "10");
    assert_eq!(decimal(4096), "4096");
    assert_eq!(decimal(usize::MAX), format!("{}", usize::MAX));
}

#[test]
fn hex_is_lowercase_with_two_digits_a_byte() {
    assert_eq!(hex_lower(&[]), "");
    assert_eq!(hex_lower(&[0]), "00");
    assert_eq!(hex_lower(&[0x0a, 0xb0, 0xff, 0x12, 0x9c]), "0ab0ff129c");
}
