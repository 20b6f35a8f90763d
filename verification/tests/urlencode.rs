use nexo_poller_google_calendar::urlencode::urlencode;

#[test]
fn urlencode_preserves_safe_chars_and_pcts_the_rest() {
    assert_eq!(urlencode("primary"), "primary");
    assert_eq!(urlencode("a b"), "a%20b");
    assert_eq!(urlencode("name@host.com"), "name%40host.com");
    assert_eq!(urlencode("AB-_.~12"), "AB-_.~12");
}

#[test]
fn urlencode_encodes_each_utf8_byte_in_upper_case_hex() {
    assert_eq!(urlencode("é"), "%C3%A9");
    assert_eq!(urlencode("📅"), "%F0%9F%93%85");
    assert_eq!(urlencode("€"), "%E2%82%AC");
    assert_eq!(urlencode("\u{7f}"), "%7F");
}

#[test]
fn urlencode_empty_string() {
    assert_eq!(urlencode(""), "");
}

#[test]
fn urlencode_reserved_ascii() {
    assert_eq!(urlencode("a+b/c?d=e&f#g%"), "a%2Bb%2Fc%3Fd%3De%26f%23g%25");
    assert_eq!(urlencode("2026-05-17T10:00:00+00:00"), "2026-05-17T10%3A00%3A00%2B00%3A00");
}

#[test]
fn urlencode_output_is_url_safe() {
    let out = urlencode("x y/é☃\u{1}\"");
    assert!(out
        .chars()
        .all(|c| c.is_ascii_alphanumeric() || "-_.~%".contains(c)));
}

#[test]
fn urlencode_distinguishes_inputs() {
    assert_ne!(urlencode("a b"), urlencode("a%20b"));
    assert_eq!(urlencode("a%20b"), "a%2520b");
}
