use convergio_cli::query::{append_query_param, encode_query_value};

#[test]
fn encode_query_value_keeps_unreserved_and_escapes_others() {
    assert_eq!(encode_query_value("abc-123_~."), "abc-123_~.");
    assert_eq!(encode_query_value("a b"), "a%20b");
    assert_eq!(encode_query_value("a/b"), "a%2Fb");
}

#[test]
fn append_query_param_skips_none() {
    let mut path = String::from("/x?");
    append_query_param(&mut path, "k", None);
    assert_eq!(path, "/x?");
}

#[test]
fn append_query_param_writes_some() {
    let mut path = String::from("/x?");
    append_query_param(&mut path, "k", Some("v "));
    assert_eq!(path, "/x?k=v%20&");
}

#[test]
fn encode_query_value_escapes_utf8_bytes() {
    assert_eq!(encode_query_value("é"), "%C3%A9");
}

#[test]
fn encoding_writes_only_unreserved_characters_and_percent() {
    let e = encode_query_value("é ü/?&=#%");
    assert_eq!(e, "%C3%A9%20%C3%BC%2F%3F%26%3D%23%25");
    assert!(e
        .chars()
        .all(|c| c.is_ascii_alphanumeric() || "-._~%".contains(c)));
}
