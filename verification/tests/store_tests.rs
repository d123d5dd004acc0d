use order_relay::store::OrderStore;

#[test]
fn empty_store_dumps_empty_object() {
    let store = OrderStore::new();
    assert_eq!(store.dump_json(), "{}");
}

#[test]
fn upsert_then_lookup() {
    let mut store = OrderStore::new();
    store.upsert("abc".to_string(), "created".to_string());
    assert_eq!(store.lookup(&"abc".to_string()), Some("created".to_string()));
    assert_eq!(store.lookup(&"xyz".to_string()), None);
}

#[test]
fn upsert_overwrites_status() {
    let mut store = OrderStore::new();
    store.upsert("abc".to_string(), "created".to_string());
    store.upsert("abc".to_string(), "received".to_string());
    assert_eq!(store.lookup(&"abc".to_string()), Some("received".to_string()));
    assert_eq!(
        store.dump_json(),
        "{\"abc\":{\"uuid\":\"abc\",\"status\":\"received\"}}"
    );
}

#[test]
fn dump_two_entries_in_insertion_order() {
    let mut store = OrderStore::new();
    store.upsert("a".to_string(), "one".to_string());
    store.upsert("b".to_string(), "two".to_string());
    assert_eq!(
        store.dump_json(),
        "{\"a\":{\"uuid\":\"a\",\"status\":\"one\"},\"b\":{\"uuid\":\"b\",\"status\":\"two\"}}"
    );
}

#[test]
fn dump_escapes_special_characters() {
    let mut store = OrderStore::new();
    store.upsert("a\"b".to_string(), "c\\d\ne".to_string());
    assert_eq!(
        store.dump_json(),
        "{\"a\\\"b\":{\"uuid\":\"a\\\"b\",\"status\":\"c\\\\d\\u000ae\"}}"
    );
}

#[test]
fn dump_keys_equal_store_ids() {
    let mut store = OrderStore::new();
    let inserted = ["abc", "def", "g\"h", "abc", "ijk"];
    for (n, id) in inserted.iter().enumerate() {
        store.upsert(id.to_string(), format!("status-{}", n));
    }
    let dumped = store.dump_json();
    let value: serde_json::Value = serde_json::from_str(&dumped).unwrap();
    let object = value.as_object().unwrap();
    let mut keys: Vec<String> = object.keys().cloned().collect();
    keys.sort();
    let mut expected: Vec<String> = vec![
        "abc".to_string(),
        "def".to_string(),
        "g\"h".to_string(),
        "ijk".to_string(),
    ];
    expected.sort();
    assert_eq!(keys, expected);
    for (key, record) in object {
        assert_eq!(record.get("uuid").unwrap().as_str().unwrap(), key);
    }
}

#[test]
fn escape_json_exact() {
    assert_eq!(
        order_relay::jsontext::escape_json("a\"b\\c\nd\te"),
        "a\\\"b\\\\c\\u000ad\\u0009e"
    );
    assert_eq!(order_relay::jsontext::escape_json(""), "");
    assert_eq!(order_relay::jsontext::escape_json("plain"), "plain");
}

#[test]
fn record_json_exact() {
    assert_eq!(
        order_relay::jsontext::record_json("abc", "created"),
        "{\"uuid\":\"abc\",\"status\":\"created\"}"
    );
}
