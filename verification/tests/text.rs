use http_server::http::text::{decimal_string, str_eq};

#[test]
fn str_eq_compares_text() {
    assert!(str_eq("", ""));
    assert!(str_eq("HTTP/1.1", "HTTP/1.1"));
    assert!(!str_eq("HTTP/1.1", "HTTP/1.0"));
    assert!(!str_eq("HTTP/1.1", "HTTP/1.10"));
    assert!(!str_eq("HTTP/1.1", "HTTP/1."));
    assert!(!str_eq("a", "A"));
    assert!(str_eq("caf\u{e9}", "caf\u{e9}"));
    assert!(!str_eq("caf\u{e9}", "cafe"));
}

#[test]
fn decimal_string_writes_numerals() {
    assert_eq!(decimal_string(0), "0");
    assert_eq!(decimal_string(7), "7");
    assert_eq!(decimal_string(10), "10");
    assert_eq!(decimal_string(99), "99");
    assert_eq!(decimal_string(100), "100");
    assert_eq!(decimal_string(200), "200");
    assert_eq!(decimal_string(404), "404");
    assert_eq!(decimal_string(1009), "1009");
    assert_eq!(decimal_string(65535), "65535");
}
