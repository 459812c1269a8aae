use bf_sharedmutex::text::sanitize_str;

#[test]
fn sanitize_escapes_underscores() {
    assert_eq!(sanitize_str(String::from("a_b")), "a\\_b");
    assert_eq!(sanitize_str(String::from("bf_shared_mutex")), "bf\\_shared\\_mutex");
}

#[test]
fn sanitize_keeps_plain_text() {
    assert_eq!(sanitize_str(String::from("")), "");
    assert_eq!(sanitize_str(String::from("plain")), "plain");
    assert_eq!(sanitize_str(String::from("a b-c.d")), "a b-c.d");
}

#[test]
fn sanitize_edges() {
    assert_eq!(sanitize_str(String::from("_")), "\\_");
    assert_eq!(sanitize_str(String::from("__")), "\\_\\_");
    assert_eq!(sanitize_str(String::from("_x_")), "\\_x\\_");
}
