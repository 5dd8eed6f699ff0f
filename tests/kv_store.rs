use loadgen::http::{failure_publication, metric_command, publish_commands, Publication};
use loadgen::kv::{expect_array, expect_text, Command, KvError, KvStore, KvValue, Reply};
use serde_json::Value;

fn key(s: &str) -> String {
    s.to_string()
}

fn scalar(store: &KvStore, k: &str) -> Option<Value> {
    match store.get(&key(k)) {
        Some(KvValue::Scalar(v)) => Some(v.clone()),
        _ => None,
    }
}

fn array_len(store: &KvStore, k: &str) -> Option<usize> {
    match store.get(&key(k)) {
        Some(KvValue::Array(a)) => Some(a.len()),
        _ => None,
    }
}

#[test]
fn set_get_and_overwrite() {
    let mut store = KvStore::new();
    assert!(store.get(&key("a")).is_none());
    store.set(key("a"), KvValue::Scalar(Value::from(1i64)));
    assert_eq!(scalar(&store, "a"), Some(Value::from(1i64)));
    store.set(key("a"), KvValue::Scalar(Value::from("two".to_string())));
    assert_eq!(scalar(&store, "a"), Some(Value::from("two".to_string())));
    assert_eq!(store.list_keys(), vec![key("a")]);
}

#[test]
fn contains_key_and_delete() {
    let mut store = KvStore::new();
    store.set(key("a"), KvValue::Scalar(Value::from(1i64)));
    store.set(key("b"), KvValue::Scalar(Value::from(2i64)));
    assert!(store.contains_key(&key("a")));
    store.delete(&key("a"));
    assert!(!store.contains_key(&key("a")));
    assert!(store.contains_key(&key("b")));
    store.delete(&key("missing"));
    assert_eq!(store.list_keys(), vec![key("b")]);
}

#[test]
fn append_only_grows_arrays() {
    let mut store = KvStore::new();
    store.set(key("list"), KvValue::Array(Vec::new()));
    store.set(key("one"), KvValue::Scalar(Value::from(1i64)));
    store.append(&key("list"), Value::from(10i64));
    store.append(&key("list"), Value::from(11i64));
    store.append(&key("one"), Value::from(12i64));
    store.append(&key("missing"), Value::from(13i64));
    match store.get(&key("list")) {
        Some(KvValue::Array(a)) => assert_eq!(a, &vec![Value::from(10i64), Value::from(11i64)]),
        other => panic!("unexpected {:?}", other),
    }
    assert_eq!(scalar(&store, "one"), Some(Value::from(1i64)));
    assert!(!store.contains_key(&key("missing")));
}

#[test]
fn clear_empties_the_store() {
    let mut store = KvStore::new();
    store.set(key("a"), KvValue::Scalar(Value::from(1i64)));
    store.clear();
    assert!(store.list_keys().is_empty());
}

#[test]
fn list_keys_lists_each_key_once() {
    let mut store = KvStore::new();
    for k in ["x", "y", "x", "z"] {
        store.set(key(k), KvValue::Scalar(Value::Null));
    }
    let mut keys = store.list_keys();
    keys.sort();
    assert_eq!(keys, vec![key("x"), key("y"), key("z")]);
}

#[test]
fn commands_get_their_replies() {
    let mut store = KvStore::new();
    assert!(matches!(
        store.apply(Command::Put { key: key("a"), value: Value::from(5i64) }),
        Reply::Done
    ));
    assert!(matches!(store.apply(Command::Exists { key: key("a") }), Reply::Exists(true)));
    assert!(matches!(store.apply(Command::Exists { key: key("b") }), Reply::Exists(false)));
    match store.apply(Command::Get { key: key("a") }) {
        Reply::Value(Some(KvValue::Scalar(v))) => assert_eq!(v, Value::from(5i64)),
        other => panic!("unexpected {:?}", other),
    }
    assert!(matches!(store.apply(Command::Get { key: key("b") }), Reply::Value(None)));
    match store.apply(Command::ListKeys) {
        Reply::Keys(keys) => assert_eq!(keys, vec![key("a")]),
        other => panic!("unexpected {:?}", other),
    }
    assert!(matches!(store.apply(Command::Delete { key: key("a") }), Reply::Done));
    assert!(matches!(store.apply(Command::Get { key: key("a") }), Reply::Value(None)));
}

#[test]
fn metrics_array_counts_appends() {
    let mut global = KvStore::new();
    global.apply(Command::PutArray { key: key("load_gen_metrics"), values: Vec::new() });
    for i in 0..3i64 {
        global.apply(metric_command(Value::from(i)));
    }
    assert_eq!(array_len(&global, "load_gen_metrics"), Some(3));
}

#[test]
fn metrics_array_stays_empty_without_http_steps() {
    let mut global = KvStore::new();
    global.apply(Command::PutArray { key: key("load_gen_metrics"), values: Vec::new() });
    let read = match global.apply(Command::Get { key: key("load_gen_metrics") }) {
        Reply::Value(v) => v,
        other => panic!("unexpected {:?}", other),
    };
    let metrics = expect_array(&key("load_gen_metrics"), read).unwrap();
    assert!(metrics.is_empty());
}

#[test]
fn local_stores_are_independent() {
    let mut first = KvStore::new();
    let mut second = KvStore::new();
    first.apply_each(publish_commands(Publication {
        response: "one".to_string(),
        status_code: 200,
        headers_json: "{}".to_string(),
    }));
    second.apply_each(publish_commands(Publication {
        response: "two".to_string(),
        status_code: 500,
        headers_json: "{}".to_string(),
    }));
    assert_eq!(scalar(&first, "http_response"), Some(Value::from("one".to_string())));
    assert_eq!(scalar(&second, "http_response"), Some(Value::from("two".to_string())));
    assert_eq!(scalar(&first, "http_status_code"), Some(Value::from(200i64)));
    assert_eq!(scalar(&second, "http_status_code"), Some(Value::from(500i64)));
}

#[test]
fn failure_is_published_with_zero_status() {
    let mut local = KvStore::new();
    let p = failure_publication("Request failed: refused".to_string(), None, None);
    local.apply_each(publish_commands(p));
    assert_eq!(
        scalar(&local, "http_response"),
        Some(Value::from("Request failed: refused".to_string()))
    );
    assert_eq!(scalar(&local, "http_status_code"), Some(Value::from(0i64)));
    assert_eq!(scalar(&local, "http_response_headers"), Some(Value::from("{}".to_string())));
}

#[test]
fn reading_required_values() {
    let k = key("metrics_output_path");
    assert!(matches!(expect_text(&k, None), Err(KvError::NoDataFound { key }) if key == k));
    assert!(matches!(
        expect_text(&k, Some(KvValue::Array(Vec::new()))),
        Err(KvError::DeserializeError)
    ));
    assert!(matches!(
        expect_text(&k, Some(KvValue::Scalar(Value::from(3i64)))),
        Err(KvError::DeserializeError)
    ));
    assert_eq!(
        expect_text(&k, Some(KvValue::Scalar(Value::from("out.json".to_string())))).unwrap(),
        "out.json"
    );
    assert!(matches!(
        expect_array(&k, Some(KvValue::Scalar(Value::Null))),
        Err(KvError::DeserializeError)
    ));
    assert!(matches!(expect_array(&k, None), Err(KvError::NoDataFound { .. })));
}
