use lake_berg::keyed::KeyedMap;
use lake_berg::text::{decimal_text, precedes, same_text, zero_filled_text};

#[test]
fn texts_are_compared_by_their_characters() {
    assert!(same_text("", ""));
    assert!(same_text("zoë", "zoë"));
    assert!(!same_text("zoë", "zoe"));
    assert!(!same_text("zo", "zoe"));
}

#[test]
fn strings_are_ordered_by_their_bytes() {
    let texts = ["", "A", "Z", "a", "aa", "b", "é", "漢", "\u{10000}"];
    for a in texts {
        for b in texts {
            assert_eq!(a < b, precedes(a, b), "{a} {b}");
        }
    }
}

#[test]
fn numerals() {
    for n in [0, 1, 9, 10, 80, 8181, 65535, -1, -10, i64::MAX, i64::MIN] {
        assert_eq!(n.to_string(), decimal_text(n));
    }
}

#[test]
fn zeros_fill_up_on_the_left() {
    assert_eq!("007", zero_filled_text("7", 3));
    assert_eq!("0-7", zero_filled_text("-7", 3));
    assert_eq!("1234", zero_filled_text("1234", 3));
    assert_eq!("", zero_filled_text("", 0));
}

#[test]
fn entries_of_a_map() {
    let mut map: KeyedMap<String, u8> = KeyedMap::new();
    assert_eq!(None, map.insert("a".to_string(), 1));
    assert_eq!(None, map.insert("b".to_string(), 2));
    assert_eq!(Some(1), map.insert("a".to_string(), 3));
    assert_eq!(Some(&3), map.get(&"a".to_string()));
    assert!(map.contains_key(&"b".to_string()));
    assert_eq!(Some(2), map.remove(&"b".to_string()));
    assert_eq!(None, map.remove(&"b".to_string()));
    assert_eq!(vec![("a".to_string(), 3)], *map.entries());
}
