use http_server::http::{QueryString, Value};

#[test]
fn query_single_binding() {
    let q = QueryString::from("a=1");
    assert_eq!(q.get("a"), Some(&Value::Single("1")));
    assert_eq!(q.get("b"), None);
}

#[test]
fn query_repeated_key_keeps_order() {
    let q = QueryString::from("a=1&a=2&b=3");
    assert_eq!(q.get("a"), Some(&Value::Multiple(vec!["1", "2"])));
    assert_eq!(q.get("b"), Some(&Value::Single("3")));
}

#[test]
fn query_key_three_times() {
    let q = QueryString::from("x=c&y=1&x=a&x=b");
    assert_eq!(q.get("x"), Some(&Value::Multiple(vec!["c", "a", "b"])));
    assert_eq!(q.get("y"), Some(&Value::Single("1")));
}

#[test]
fn query_key_without_equals_has_empty_value() {
    let q = QueryString::from("flag");
    assert_eq!(q.get("flag"), Some(&Value::Single("")));
}

#[test]
fn query_bare_key_among_bindings() {
    let q = QueryString::from("a=1&flag&b=2");
    assert_eq!(q.get("a"), Some(&Value::Single("1")));
    assert_eq!(q.get("flag"), Some(&Value::Single("")));
    assert_eq!(q.get("b"), Some(&Value::Single("2")));
}

#[test]
fn query_value_is_cut_at_first_equals() {
    let q = QueryString::from("a=b=c");
    assert_eq!(q.get("a"), Some(&Value::Single("b=c")));
    assert_eq!(q.get("a=b"), None);
}

#[test]
fn query_empty_value_and_empty_key() {
    let q = QueryString::from("a=&=v");
    assert_eq!(q.get("a"), Some(&Value::Single("")));
    assert_eq!(q.get(""), Some(&Value::Single("v")));
}

#[test]
fn query_empty_text_binds_the_empty_key() {
    let q = QueryString::from("");
    assert_eq!(q.get(""), Some(&Value::Single("")));
    assert_eq!(q.get("a"), None);
}

#[test]
fn query_empty_fragments_repeat_the_empty_key() {
    let q = QueryString::from("&&");
    assert_eq!(q.get(""), Some(&Value::Multiple(vec!["", "", ""])));
}

#[test]
fn query_bare_key_repeated_with_value() {
    let q = QueryString::from("k&k=1");
    assert_eq!(q.get("k"), Some(&Value::Multiple(vec!["", "1"])));
}

#[test]
fn query_is_taken_verbatim() {
    let q = QueryString::from("a%20b=c+d&caf\u{e9}=\u{2713}");
    assert_eq!(q.get("a%20b"), Some(&Value::Single("c+d")));
    assert_eq!(q.get("a b"), None);
    assert_eq!(q.get("caf\u{e9}"), Some(&Value::Single("\u{2713}")));
}

#[test]
fn query_keys_are_case_sensitive() {
    let q = QueryString::from("Key=1&key=2");
    assert_eq!(q.get("Key"), Some(&Value::Single("1")));
    assert_eq!(q.get("key"), Some(&Value::Single("2")));
    assert_eq!(q.get("KEY"), None);
}
