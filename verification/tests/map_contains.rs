use spawn_harness::map_check::{check_map_contains, KeyValueMap, MapCheckOutcome};

/// Fails the test loudly, as the original assertion helper does, naming the
/// missing key or the mismatched pair.
fn expect_pairs(m: &KeyValueMap, pairs: Vec<(String, i64)>) {
    match check_map_contains(m, &pairs) {
        MapCheckOutcome::Satisfied => {}
        MapCheckOutcome::MissingKey { key } => {
            panic!("mapping missing key `{:?}`", key)
        }
        MapCheckOutcome::WrongValue { key, expected, actual } => {
            panic!(
                "mapping key `{:?}` doesn't match expected! (expected `{:?}` != actual `{:?}`)",
                key, expected, actual
            )
        }
    }
}

#[test]
fn test_map_contains_ok() {
    let mut m = KeyValueMap::new();
    m.insert("a".to_string(), 1);
    m.insert("b".to_string(), 2);
    expect_pairs(&m, vec![("a".to_string(), 1), ("b".to_string(), 2)]);
}

#[test]
#[should_panic]
fn test_map_contains_missing_key() {
    let mut m = KeyValueMap::new();
    m.insert("a".to_string(), 1);
    expect_pairs(&m, vec![("a".to_string(), 1), ("b".to_string(), 2)]);
}

#[test]
#[should_panic]
fn test_map_contains_wrong_value() {
    let mut m = KeyValueMap::new();
    m.insert("a".to_string(), 1);
    m.insert("b".to_string(), 3);
    expect_pairs(&m, vec![("a".to_string(), 1), ("b".to_string(), 2)]);
}

#[test]
fn test_map_check_reports_first_failure() {
    let mut m = KeyValueMap::new();
    m.insert("a".to_string(), 1);
    m.insert("b".to_string(), 3);
    let r = check_map_contains(&m, &vec![("a".to_string(), 1), ("b".to_string(), 2)]);
    assert_eq!(
        r,
        MapCheckOutcome::WrongValue { key: "b".to_string(), expected: 2, actual: 3 }
    );
    let r = check_map_contains(&m, &vec![("c".to_string(), 7)]);
    assert_eq!(r, MapCheckOutcome::MissingKey { key: "c".to_string() });
}

#[test]
fn test_map_insert_replaces() {
    let mut m = KeyValueMap::new();
    m.insert("a".to_string(), 1);
    m.insert("a".to_string(), 5);
    assert_eq!(m.get(&"a".to_string()), Some(5));
    assert_eq!(m.get(&"b".to_string()), None);
}
