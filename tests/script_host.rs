use loadgen::flow::RhaiCodeParam;
use loadgen::kv::{Command, KvStore, KvValue};
use loadgen::ramp::clamp_rate;
use loadgen::script::{
    int_value, is_hidden, ramp_env, scope_json, script_commands, visible_variables, ScriptHost,
};
use serde_json::Value;

fn env(pairs: &[(&str, Value)]) -> Vec<(String, KvValue)> {
    pairs.iter().map(|(k, v)| (k.to_string(), KvValue::Scalar(v.clone()))).collect()
}

fn text(s: &str) -> Value {
    Value::from(s.to_string())
}

#[test]
fn evaluates_expressions_as_text() {
    let host = ScriptHost::new();
    assert_eq!(host.eval_text("1 + 2", &Vec::new()).unwrap(), "3");
    assert_eq!(host.eval_text("x * 2", &env(&[("x", Value::from(21i64))])).unwrap(), "42");
    assert_eq!(host.eval_text("max(3, 8)", &Vec::new()).unwrap(), "8");
    assert_eq!(host.eval_text("min(3, 8)", &Vec::new()).unwrap(), "3");
    assert!(host.eval_text("undefined_name", &Vec::new()).is_err());
}

#[test]
fn json_text_variables_become_structures() {
    let host = ScriptHost::new();
    let e = env(&[("h", text(r#"{"id": 7, "tags": ["a", "b"]}"#)), ("plain", text("42"))]);
    assert_eq!(host.eval_text("h.id", &e).unwrap(), "7");
    assert_eq!(host.eval_text("h.tags[1]", &e).unwrap(), "b");
    assert_eq!(host.eval_text("plain", &e).unwrap(), "42");
    assert_eq!(host.eval_text("plain + \"!\"", &e).unwrap(), "42!");
}

#[test]
fn ramp_value_binds_tick() {
    let host = ScriptHost::new();
    assert_eq!(host.ramp_value("TICK", 3).unwrap(), 3);
    assert_eq!(host.ramp_value("TICK", 0).unwrap(), 0);
    assert_eq!(host.ramp_value("2", 9).unwrap(), 2);
    assert_eq!(host.ramp_value("max(TICK, 4)", 1).unwrap(), 4);
    assert_eq!(host.ramp_value("min(TICK * 2, 5)", 4).unwrap(), 5);
    assert_eq!(clamp_rate(host.ramp_value("TICK - 10", 2).unwrap()), 1);
    assert!(host.ramp_value("\"fast\"", 0).is_err());
    assert!(host.ramp_value("(", 0).is_err());
}

#[test]
fn interpolation_reads_variables() {
    let host = ScriptHost::new();
    let e = env(&[("http_response", text("42"))]);
    let out = host.interpolate("http://127.0.0.1:9000/user/%|http_response|%", &e);
    assert_eq!(out, "http://127.0.0.1:9000/user/42");
    let out = host.interpolate("http://h/%|nothing_here|%", &e);
    assert_eq!(out, "http://h/NO_SUCH_VARIABLE:nothing_here");
    let plain = r#"{"Sleep":{"duration":"1"}}"#;
    assert_eq!(host.interpolate(plain, &e), plain);
}

#[test]
fn script_results_replace_the_variables() {
    let host = ScriptHost::new();
    let mut local = KvStore::new();
    local.set("__private".to_string(), KvValue::Scalar(Value::from(1i64)));
    local.set("old".to_string(), KvValue::Scalar(Value::from(2i64)));
    let snapshot: Vec<(String, KvValue)> = local
        .list_keys()
        .into_iter()
        .map(|k| {
            let v = local.get(&k).unwrap().duplicate();
            (k, v)
        })
        .collect();
    let param = RhaiCodeParam { code: "let x = 1; old += 1;".to_string() };
    let commands = host.run_step(&param, snapshot).unwrap();
    local.apply_each(commands);
    let mut keys = local.list_keys();
    keys.sort();
    assert_eq!(keys, vec!["old".to_string(), "x".to_string()]);
    match local.get(&"x".to_string()) {
        Some(KvValue::Scalar(v)) => assert_eq!(v, &Value::from(1i64)),
        other => panic!("unexpected {:?}", other),
    }
    match local.get(&"old".to_string()) {
        Some(KvValue::Scalar(v)) => assert_eq!(v, &Value::from(3i64)),
        other => panic!("unexpected {:?}", other),
    }
    let out = host.interpolate("http://h/%|x|%", &vec![("x".to_string(), KvValue::Scalar(Value::from(1i64)))]);
    assert_eq!(out, "http://h/1");
}

#[test]
fn script_errors_are_reported() {
    let host = ScriptHost::new();
    let param = RhaiCodeParam { code: "let = ;".to_string() };
    assert!(host.run_step(&param, Vec::new()).is_err());
}

#[test]
fn script_commands_delete_then_put() {
    let before = vec!["a".to_string(), "b".to_string()];
    let after = vec![("b".to_string(), Value::from(1i64)), ("c".to_string(), Value::from(2i64))];
    let commands = script_commands(before, after);
    assert_eq!(commands.len(), 3);
    assert!(matches!(&commands[0], Command::Delete { key } if key == "a"));
    assert!(matches!(&commands[1], Command::Put { key, .. } if key == "b"));
    assert!(matches!(&commands[2], Command::Put { key, .. } if key == "c"));
}

#[test]
fn hidden_names() {
    assert!(is_hidden(&"__x".to_string()));
    assert!(!is_hidden(&"_x".to_string()));
    assert!(!is_hidden(&"x__".to_string()));
    assert!(!is_hidden(&"".to_string()));
}

#[test]
fn runaway_scripts_stop_with_an_error() {
    let host = ScriptHost::new();
    assert!(host.eval_text("loop {}", &Vec::new()).is_err());
    let param = RhaiCodeParam { code: "let x = 0; loop { x += 1; }".to_string() };
    assert!(host.run_step(&param, Vec::new()).is_err());
}

#[test]
fn ramp_env_binds_tick() {
    let env = ramp_env(7);
    assert_eq!(env.len(), 1);
    assert_eq!(env[0].0, "TICK");
    assert!(matches!(&env[0].1, KvValue::Scalar(v) if *v == Value::from(7u64)));
}

#[test]
fn int_value_requires_an_integer() {
    assert_eq!(int_value("TICK", Some(3)).unwrap(), 3);
    let err = int_value("\"x\"", None).unwrap_err();
    assert_eq!(err.message, "expression '\"x\"' produced a non-integer value");
}

#[test]
fn json_text_upgrade() {
    assert_eq!(scope_json(&text(r#"{"a":1}"#)), serde_json::from_str::<Value>(r#"{"a":1}"#).unwrap());
    assert_eq!(scope_json(&text("[1,2]")), serde_json::from_str::<Value>("[1,2]").unwrap());
    assert_eq!(scope_json(&text("42")), text("42"));
    assert_eq!(scope_json(&text("not json")), text("not json"));
    assert_eq!(scope_json(&Value::from(5i64)), Value::from(5i64));
}

#[test]
fn visible_variables_keep_named_json_values() {
    let vars = vec![
        ("a".to_string(), Some(Value::from(1i64))),
        ("__b".to_string(), Some(Value::from(2i64))),
        ("c".to_string(), None),
        ("d".to_string(), Some(text("x"))),
    ];
    let kept = visible_variables(vars);
    assert_eq!(kept, vec![("a".to_string(), Value::from(1i64)), ("d".to_string(), text("x"))]);
}
