use kanata_keymap::strmap::{compare_str, Rel, StrMap};

#[test]
fn strings_compare_like_std() {
    let words = ["", "a", "A", "ab", "b", "é", "z", "aa", "Ω", "a\u{0}"];
    for x in words.iter() {
        for y in words.iter() {
            let expected = if x < y { Rel::Less } else if x == y { Rel::Equal } else { Rel::Greater };
            assert_eq!(compare_str(x, y), expected, "{x:?} vs {y:?}");
        }
    }
}

#[test]
fn insert_keeps_keys_sorted_and_unique() {
    let mut m: StrMap<String> = StrMap::new();
    for (k, v) in [("m", "1"), ("c", "2"), ("x", "3"), ("c", "4"), ("a", "5")] {
        m.insert(k.to_string(), v.to_string());
    }
    let keys: Vec<&str> = (0..m.len()).map(|i| m.key_at(i).as_str()).collect();
    assert_eq!(keys, vec!["a", "c", "m", "x"]);
    assert_eq!(m.get("c").map(|s| s.as_str()), Some("4"));
    assert_eq!(m.value_at(0), "5");
    assert!(m.get("b").is_none());
    assert!(m.contains_key("x"));
    assert!(!m.contains_key("y"));
}
