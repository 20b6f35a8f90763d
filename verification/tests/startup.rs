use nexo_poller_google_calendar::startup::{
    broker_transport, uses_configured_broker, wants_manifest, BrokerTransport,
};
use nexo_poller_google_calendar::text::{contains, replace, same_text, starts_with, trim};

#[test]
fn broker_transport_by_scheme() {
    assert_eq!(broker_transport("nats://localhost:4222"), BrokerTransport::Nats);
    assert_eq!(broker_transport("nats:/x"), BrokerTransport::Local);
    assert_eq!(broker_transport("local"), BrokerTransport::Local);
    assert_eq!(broker_transport(""), BrokerTransport::Local);
}

#[test]
fn configured_broker_needs_non_empty_url() {
    assert!(uses_configured_broker(Some("nats://h")));
    assert!(!uses_configured_broker(Some("")));
    assert!(!uses_configured_broker(None));
}

#[test]
fn manifest_flag() {
    let args = vec!["poller".to_string(), "--print-manifest".to_string()];
    assert!(wants_manifest(&args));
    let args = vec!["poller".to_string(), "--print-manifest=1".to_string()];
    assert!(!wants_manifest(&args));
    assert!(!wants_manifest(&vec![]));
}

#[test]
fn trim_strips_unicode_white_space() {
    assert_eq!(trim("  client-id\n"), "client-id");
    assert_eq!(trim("\u{3000}\t secret \u{a0}\u{2009}"), "secret");
    assert_eq!(trim("   "), "");
    assert_eq!(trim("a b"), "a b");
    for s in ["", " x ", "\n\r\tx y\u{85}", "\u{200b}x"] {
        assert_eq!(trim(s), s.trim());
    }
}

#[test]
fn text_helpers_match_std() {
    for (s, p) in [("abcabc", "cab"), ("abc", "abcd"), ("", "a"), ("aaa", "aa"), ("xyz", "")] {
        assert_eq!(contains(s, p), s.contains(p));
        assert_eq!(starts_with(s, p), s.starts_with(p));
        assert_eq!(same_text(s, p), s == p);
    }
    for (s, p, r) in [("aaaa", "aa", "b"), ("{x}{x}", "{x}", "{x}{x}"), ("abc", "d", "e"), ("", "a", "b")] {
        assert_eq!(replace(s, p, r), s.replace(p, r));
    }
}

#[test]
fn replace_with_empty_pattern_matches_std() {
    for (s, r) in [("abc", "-"), ("", "-"), ("é", "")] {
        assert_eq!(replace(s, "", r), s.replace("", r));
    }
}
