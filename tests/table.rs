use fixed_hash_table::HashTable;

fn s(k: &str) -> String {
    String::from(k)
}

fn keys(t: &HashTable) -> Vec<String> {
    t.occupied_keys()
}

/// Twenty-six distinct keys, all ending in `last`.
fn same_bucket_keys(last: char) -> Vec<String> {
    (0..26).map(|i| format!("k{}{}", i, last)).collect()
}

#[test]
fn fresh_table_misses_hello() {
    let t = HashTable::new();
    assert_eq!(t.search(s("hello")), None);
}

#[test]
fn colliding_keys_probe_forward() {
    let mut t = HashTable::new();
    t.insert(s("hello"));
    t.insert(s("hellp"));
    t.insert(s("hollo"));
    assert_eq!(t.search(s("hello")), Some(14));
    assert_eq!(t.search(s("hellp")), Some(15));
    assert_eq!(t.search(s("hollo")), Some(16));
    assert_eq!(keys(&t), vec![s("hello"), s("hellp"), s("hollo")]);
}

#[test]
fn full_probe_cycle_drops_insert() {
    let mut t = HashTable::new();
    let ks = same_bucket_keys('a');
    for k in &ks {
        t.insert(k.clone());
    }
    for (i, k) in ks.iter().enumerate() {
        assert_eq!(t.search(k.clone()), Some(i));
    }
    let before = keys(&t);
    assert_eq!(before.len(), 26);
    t.insert(s("extraa"));
    assert_eq!(t.search(s("extraa")), None);
    assert_eq!(keys(&t), before);
}

#[test]
fn full_table_drops_key_of_any_bucket() {
    let mut t = HashTable::new();
    for k in same_bucket_keys('a') {
        t.insert(k);
    }
    t.insert(s("zebra"));
    t.insert(s("fox"));
    assert_eq!(t.search(s("fox")), None);
    assert_eq!(keys(&t).len(), 26);
}

#[test]
fn fresh_table_finds_no_key() {
    let t = HashTable::new();
    for k in ["a", "z", "hello", "abcdefghij", "mmmmmmmmmm"] {
        assert_eq!(t.search(s(k)), None);
    }
    assert!(keys(&t).is_empty());
}

#[test]
fn insert_then_find_returns_written_slot() {
    let mut t = HashTable::new();
    t.insert(s("cat"));
    assert_eq!(t.search(s("cat")), Some(19));
    assert_eq!(keys(&t), vec![s("cat")]);
}

#[test]
fn insert_twice_consumes_one_slot() {
    let mut t = HashTable::new();
    t.insert(s("dog"));
    t.insert(s("dog"));
    assert_eq!(keys(&t), vec![s("dog")]);
    assert_eq!(t.search(s("dog")), Some(6));
}

#[test]
fn delete_then_miss() {
    let mut t = HashTable::new();
    t.insert(s("bird"));
    assert_eq!(t.search(s("bird")), Some(3));
    t.delete(s("bird"));
    assert_eq!(t.search(s("bird")), None);
    assert!(keys(&t).is_empty());
}

#[test]
fn delete_missing_key_changes_nothing() {
    let mut t = HashTable::new();
    t.insert(s("bird"));
    t.delete(s("word"));
    t.delete(s("fish"));
    assert_eq!(t.search(s("bird")), Some(3));
    assert_eq!(keys(&t), vec![s("bird")]);
}

#[test]
fn tombstone_does_not_hide_later_key() {
    let mut t = HashTable::new();
    t.insert(s("hello"));
    t.insert(s("hollo"));
    assert_eq!(t.search(s("hollo")), Some(15));
    t.delete(s("hello"));
    assert_eq!(t.search(s("hello")), None);
    assert_eq!(t.search(s("hollo")), Some(15));
}

#[test]
fn insert_reuses_tombstone() {
    let mut t = HashTable::new();
    t.insert(s("hello"));
    t.insert(s("hollo"));
    t.delete(s("hello"));
    t.insert(s("jello"));
    assert_eq!(t.search(s("jello")), Some(14));
    assert_eq!(keys(&t), vec![s("jello"), s("hollo")]);
}

#[test]
fn full_table_reuses_tombstone() {
    let mut t = HashTable::new();
    let ks = same_bucket_keys('q');
    for k in &ks {
        t.insert(k.clone());
    }
    t.delete(ks[3].clone());
    t.insert(s("newq"));
    assert_eq!(t.search(s("newq")), Some((16 + 3) % 26));
    assert_eq!(keys(&t).len(), 26);
}

#[test]
fn probe_wraps_past_last_slot() {
    let mut t = HashTable::new();
    t.insert(s("az"));
    t.insert(s("bz"));
    t.insert(s("a"));
    assert_eq!(t.search(s("az")), Some(25));
    assert_eq!(t.search(s("bz")), Some(0));
    assert_eq!(t.search(s("a")), Some(1));
}

#[test]
fn search_rejects_over_length_key() {
    let mut t = HashTable::new();
    let long = s("abcdefghijk");
    assert_eq!(t.search(long.clone()), None);
    t.insert(long.clone());
    assert_eq!(t.search(long.clone()), None);
    assert_eq!(keys(&t), vec![long.clone()]);
}

#[test]
fn over_length_key_is_stored_again_on_each_insert() {
    let mut t = HashTable::new();
    let long = s("abcdefghijk");
    t.insert(long.clone());
    t.insert(long.clone());
    assert_eq!(keys(&t), vec![long.clone(), long.clone()]);
    t.delete(long.clone());
    assert_eq!(keys(&t).len(), 2);
}

#[test]
fn ten_character_key_is_found() {
    let mut t = HashTable::new();
    t.insert(s("abcdefghij"));
    assert_eq!(t.search(s("abcdefghij")), Some(9));
}

#[test]
fn valid_key_length_limit() {
    assert!(HashTable::is_valid_key(s("")));
    assert!(HashTable::is_valid_key(s("abcdefghij")));
    assert!(!HashTable::is_valid_key(s("abcdefghijk")));
}

#[test]
fn key_without_lowercase_last_letter_is_rejected() {
    let mut t = HashTable::new();
    for k in ["", "Hello!", "abc1", "HELLO", "café"] {
        t.insert(s(k));
        assert_eq!(t.search(s(k)), None);
        t.delete(s(k));
    }
    assert!(keys(&t).is_empty());
}

#[test]
fn keys_listed_in_slot_order() {
    let mut t = HashTable::new();
    t.insert(s("zoo"));
    t.insert(s("bee"));
    t.insert(s("ant"));
    assert_eq!(keys(&t), vec![s("bee"), s("zoo"), s("ant")]);
}
