use loadgen::flow::{parse_seconds, sleep_millis, SleepParam};
use loadgen::http::{
    effective_timeout_ms, failure_publication, headers_json, http_effects, is_success, metric_body,
    metric_commands, redirect_limit, HttpOutcome,
};
use loadgen::executor::runs_in_user;
use loadgen::flow::StepKind;
use loadgen::kv::{Command, KvStore, KvValue};
use loadgen::status::FunctionStatus;
use serde_json::Value;

fn published(commands: Vec<Command>, key: &str) -> Option<Value> {
    let mut store = KvStore::new();
    store.apply_each(commands);
    match store.get(&key.to_string()) {
        Some(KvValue::Scalar(v)) => Some(v.clone()),
        _ => None,
    }
}

#[test]
fn sleep_duration_parses_whole_seconds() {
    assert_eq!(parse_seconds("0"), Some(0));
    assert_eq!(parse_seconds("12"), Some(12));
    assert_eq!(parse_seconds("+5"), Some(5));
    assert_eq!(parse_seconds("007"), Some(7));
    assert_eq!(parse_seconds("18446744073709551615"), Some(u64::MAX));
}

#[test]
fn sleep_duration_rejects_other_text() {
    for s in ["", "+", "-1", "1.5", "abc", " 1", "1 ", "18446744073709551616", "99999999999999999999"] {
        assert_eq!(parse_seconds(s), None, "{s:?}");
    }
}

#[test]
fn sleep_param_seconds() {
    assert_eq!(SleepParam { duration: "3".to_string() }.seconds(), Some(3));
    assert_eq!(SleepParam { duration: "three".to_string() }.seconds(), None);
}

#[test]
fn sleep_is_cut_at_the_deadline() {
    assert_eq!(sleep_millis(3, None), 3000);
    assert_eq!(sleep_millis(3, Some(1200)), 1200);
    assert_eq!(sleep_millis(1, Some(5000)), 1000);
    assert_eq!(sleep_millis(0, Some(5000)), 0);
}

#[test]
fn http_timeout_defaults_and_cuts() {
    assert_eq!(effective_timeout_ms(None, None), 60_000);
    assert_eq!(effective_timeout_ms(Some(10), None), 10_000);
    assert_eq!(effective_timeout_ms(Some(10), Some(4_000)), 4_000);
    assert_eq!(effective_timeout_ms(Some(10), Some(40_000)), 10_000);
    assert_eq!(effective_timeout_ms(None, Some(90_000)), 60_000);
}

#[test]
fn redirects_default_to_five() {
    assert_eq!(redirect_limit(None), 5);
    assert_eq!(redirect_limit(Some(0)), 0);
    assert_eq!(redirect_limit(Some(9)), 9);
}

#[test]
fn metric_keeps_body_only_on_failure() {
    assert!(is_success(200) && is_success(299));
    assert!(!is_success(199) && !is_success(300) && !is_success(0));
    assert_eq!(metric_body(200, &"hi".to_string()), "");
    assert_eq!(metric_body(204, &"x".to_string()), "");
    assert_eq!(metric_body(404, &"not found".to_string()), "not found");
    assert_eq!(metric_body(0, &"Request failed: x".to_string()), "Request failed: x");
}

#[test]
fn failure_publication_keeps_real_status() {
    let p = failure_publication(
        "Failed to read response body: eof".to_string(),
        Some(502),
        Some(r#"{"a":"b"}"#.to_string()),
    );
    assert_eq!(p.status_code, 502);
    assert_eq!(p.headers_json, r#"{"a":"b"}"#);
    assert_eq!(p.response, "Failed to read response body: eof");
}

#[test]
fn received_response_passes() {
    let e = http_effects(HttpOutcome::Received {
        status: 200,
        headers_json: "{}".to_string(),
        body: "hi".to_string(),
    });
    assert_eq!(e.status, FunctionStatus::Passed);
    assert_eq!(e.metric_status, 200);
    assert_eq!(e.metric_body, "");
    assert_eq!(published(e.local, "http_response"), Some(Value::from("hi".to_string())));
}

#[test]
fn error_status_keeps_the_body() {
    let e = http_effects(HttpOutcome::Received {
        status: 503,
        headers_json: r#"{"retry-after":"1"}"#.to_string(),
        body: "busy".to_string(),
    });
    assert_eq!(e.status, FunctionStatus::Passed);
    assert_eq!(e.metric_status, 503);
    assert_eq!(e.metric_body, "busy");
    assert_eq!(
        published(e.local, "http_response_headers"),
        Some(Value::from(r#"{"retry-after":"1"}"#.to_string()))
    );
}

#[test]
fn unreachable_server_fails_with_zero_status() {
    let e = http_effects(HttpOutcome::SendFailed { message: "Request failed: refused".to_string() });
    assert_eq!(e.status, FunctionStatus::Failed);
    assert_eq!(e.metric_status, 0);
    assert!(e.metric_body.starts_with("Request failed:"));
    let mut store = KvStore::new();
    store.apply_each(e.local);
    assert!(matches!(store.get(&"http_status_code".to_string()), Some(KvValue::Scalar(v)) if *v == Value::from(0i64)));
    assert!(matches!(store.get(&"http_response_headers".to_string()), Some(KvValue::Scalar(v)) if *v == Value::from("{}".to_string())));
}

#[test]
fn unreadable_body_fails_with_real_status() {
    let e = http_effects(HttpOutcome::ReadFailed {
        status: 200,
        headers_json: r#"{"a":"b"}"#.to_string(),
        message: "Failed to read response body: eof".to_string(),
    });
    assert_eq!(e.status, FunctionStatus::Failed);
    assert_eq!(e.metric_status, 200);
    assert_eq!(e.metric_body, "Failed to read response body: eof");
    assert_eq!(published(e.local, "http_status_code"), Some(Value::from(200i64)));
}

fn pairs(v: &[(&str, &str)]) -> Vec<(String, String)> {
    v.iter().map(|(k, v)| (k.to_string(), v.to_string())).collect()
}

#[test]
fn headers_encode_as_a_json_object() {
    assert_eq!(headers_json(&Vec::new()), "{}");
    assert_eq!(
        headers_json(&pairs(&[("content-type", "text/plain"), ("a", "1")])),
        r#"{"a":"1","content-type":"text/plain"}"#
    );
    assert_eq!(headers_json(&pairs(&[("q", "say \"hi\"")])), r#"{"q":"say \"hi\""}"#);
}

#[test]
fn repeated_header_keeps_last_value() {
    assert_eq!(
        headers_json(&pairs(&[("set-cookie", "a=1"), ("x", "y"), ("set-cookie", "b=2")])),
        r#"{"set-cookie":"b=2","x":"y"}"#
    );
}

#[test]
fn metric_is_appended_only_when_collecting() {
    let cmds = metric_commands(true, Value::from(1i64));
    assert_eq!(cmds.len(), 1);
    assert!(matches!(&cmds[0], Command::Append { key, value } if key == "load_gen_metrics" && *value == Value::from(1i64)));
    assert!(metric_commands(false, Value::from(1i64)).is_empty());
}

#[test]
fn nested_load_generators_are_refused() {
    assert!(!runs_in_user(StepKind::LoadGen));
    assert!(runs_in_user(StepKind::HttpRequest));
    assert!(runs_in_user(StepKind::Sleep));
    assert!(runs_in_user(StepKind::RunScript));
}
