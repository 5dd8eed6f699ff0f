use loadgen::interpolate::{expressions, interpolate_with, lookup};

fn values(v: &[Option<&str>]) -> Vec<Option<String>> {
    v.iter().map(|x| x.map(|s| s.to_string())).collect()
}

fn names(v: &[&str]) -> Vec<String> {
    v.iter().map(|s| s.to_string()).collect()
}

#[test]
fn finds_each_expression_once() {
    let input = r#"{"url":"http://h/%|a|%/%|b|%/%|a|%"}"#;
    assert_eq!(expressions(input), names(&["a", "b"]));
}

#[test]
fn expression_match_is_shortest() {
    assert_eq!(expressions("%|a|%|b|%"), names(&["a"]));
    assert_eq!(expressions("x %|a + b|% y %|c|%"), names(&["a + b", "c"]));
}

#[test]
fn empty_and_broken_tokens_are_text() {
    assert!(expressions("%||%").is_empty());
    assert!(expressions("%|a\nb|%").is_empty());
    assert!(expressions("%|abc").is_empty());
    assert!(expressions("").is_empty());
}

#[test]
fn substitutes_values() {
    let out = interpolate_with(
        "http://127.0.0.1:8080/user/%|http_response|%",
        &names(&["http_response"]),
        &values(&[Some("42")]),
    );
    assert_eq!(out, "http://127.0.0.1:8080/user/42");
}

#[test]
fn substitutes_every_occurrence() {
    let out = interpolate_with("%|x|%-%|y|%-%|x|%", &names(&["x", "y"]), &values(&[Some("1"), Some("2")]));
    assert_eq!(out, "1-2-1");
}

#[test]
fn missing_value_is_marked() {
    let out = interpolate_with("http://h/%|nope|%", &names(&["nope"]), &values(&[None]));
    assert_eq!(out, "http://h/NO_SUCH_VARIABLE:nope");
    assert_eq!(lookup(&Vec::new(), &Vec::new(), "q"), "NO_SUCH_VARIABLE:q");
}

#[test]
fn text_without_tokens_is_unchanged() {
    let input = r#"{"HttpRequest":{"url":"http://h/100%|","method":"GET"}}"#;
    assert_eq!(interpolate_with(input, &names(&["x"]), &values(&[Some("1")])), input);
    assert_eq!(interpolate_with("", &Vec::new(), &Vec::new()), "");
}

#[test]
fn non_ascii_text_is_kept() {
    let out = interpolate_with("é%|x|%ü", &names(&["x"]), &values(&[Some("ß")]));
    assert_eq!(out, "éßü");
}
