use nexo_poller_google_calendar::config::{CalendarJobConfig, DeliverCfg};
use nexo_poller_google_calendar::event::{CalendarEvent, EventField, EventTime};
use nexo_poller_google_calendar::tick::{
    build_events_url, cursor_from_token, events_url, outbound_payload, outbound_topic, plan_tick,
    sync_token_from_cursor, CalendarPage,
};

const BASE: &str = "https://www.googleapis.com/calendar/v3/calendars/";

fn cfg(skip_cancelled: bool) -> CalendarJobConfig {
    CalendarJobConfig {
        calendar_id: "primary".to_string(),
        message_template: "{summary}".to_string(),
        skip_cancelled,
        deliver: DeliverCfg { channel: "whatsapp".to_string(), to: "+573001234567".to_string() },
    }
}

fn event(summary: &str, status: Option<&str>) -> CalendarEvent {
    let none = EventTime { date_time: EventField::Missing, date: EventField::Missing };
    CalendarEvent {
        summary: Some(summary.to_string()),
        start: none.clone(),
        end: none,
        location: None,
        status: status.map(|s| s.to_string()),
        html_link: None,
    }
}

fn page(items: Vec<CalendarEvent>) -> CalendarPage {
    CalendarPage { next_sync_token: Some("tok-2".to_string()), items }
}

#[test]
fn events_url_with_sync_token() {
    let url = events_url("primary", Some("a b"), "ignored");
    assert_eq!(
        url,
        format!("{}primary/events?singleEvents=true&maxResults=250&syncToken=a%20b", BASE)
    );
}

#[test]
fn events_url_first_tick_uses_time_min() {
    let url = events_url("me@x.com", None, "2026-05-17T10:00:00+00:00");
    assert_eq!(
        url,
        format!(
            "{}me%40x.com/events?singleEvents=true&maxResults=250&timeMin=2026-05-17T10%3A00%3A00%2B00%3A00",
            BASE
        )
    );
}

#[test]
fn build_events_url_reads_clock_only_on_first_tick() {
    let resumed = build_events_url("primary", Some("t"));
    assert_eq!(
        resumed,
        Some(format!("{}primary/events?singleEvents=true&maxResults=250&syncToken=t", BASE))
    );
    let first = build_events_url("primary", None).expect("clock readable");
    let prefix = format!("{}primary/events?singleEvents=true&maxResults=250&timeMin=", BASE);
    assert!(first.starts_with(&prefix));
    let stamp = &first[prefix.len()..];
    assert!(stamp.len() > 10);
    assert!(stamp.contains("%3A"));
    assert!(!first.contains("syncToken"));
}

#[test]
fn cursor_roundtrip() {
    let cursor = cursor_from_token(Some("CPDAlvWDx70CEPDAlvWDx70CGAU=".to_string()));
    assert_eq!(cursor, Some(b"CPDAlvWDx70CEPDAlvWDx70CGAU=".to_vec()));
    assert_eq!(sync_token_from_cursor(cursor), Some("CPDAlvWDx70CEPDAlvWDx70CGAU=".to_string()));
    let unicode = cursor_from_token(Some("é☃".to_string()));
    assert_eq!(sync_token_from_cursor(unicode), Some("é☃".to_string()));
    assert_eq!(cursor_from_token(None), None);
}

#[test]
fn cursor_without_valid_utf8_is_no_token() {
    assert_eq!(sync_token_from_cursor(None), None);
    assert_eq!(sync_token_from_cursor(Some(vec![0xff, 0xfe])), None);
    assert_eq!(sync_token_from_cursor(Some(vec![0xc3])), None);
    assert_eq!(sync_token_from_cursor(Some(vec![])), Some(String::new()));
}

#[test]
fn outbound_topic_from_account() {
    assert_eq!(
        outbound_topic("whatsapp", Some("acc-1")),
        Some("plugin.outbound.whatsapp.acc-1".to_string())
    );
    assert_eq!(outbound_topic("telegram", None), None);
}

#[test]
fn outbound_payload_is_json() {
    let bytes = outbound_payload("+57300", "Standup");
    assert_eq!(String::from_utf8(bytes).unwrap(), r#"{"text":"Standup","to":"+57300"}"#);
}

#[test]
fn outbound_payload_escapes_text() {
    let bytes = outbound_payload("a\"b", "line1\nline2\t\\ \u{1}\u{8}\u{c}\r/é");
    assert_eq!(
        String::from_utf8(bytes).unwrap(),
        "{\"text\":\"line1\\nline2\\t\\\\ \\u0001\\b\\f\\r/é\",\"to\":\"a\\\"b\"}"
    );
}

#[test]
fn outbound_payload_parses_back() {
    let bytes = outbound_payload("+1 \"x\"", "📅 {x} \u{1f}");
    let v: serde_json::Value = serde_json::from_slice(&bytes).unwrap();
    assert_eq!(v["to"], "+1 \"x\"");
    assert_eq!(v["text"], "📅 {x} \u{1f}");
}

#[test]
fn first_tick_dispatches_nothing() {
    let plan = plan_tick(&cfg(true), None, page(vec![event("a", None), event("b", None)]));
    assert!(plan.payloads.is_empty());
    assert_eq!(plan.items_seen, 2);
    assert_eq!(plan.items_dispatched, 0);
    assert_eq!(plan.next_cursor, Some(b"tok-2".to_vec()));
}

#[test]
fn later_tick_dispatches_in_order_skipping_cancelled() {
    let items = vec![
        event("a", Some("confirmed")),
        event("b", Some("cancelled")),
        event("c", None),
    ];
    let plan = plan_tick(&cfg(true), Some("tok-1"), page(items));
    let texts: Vec<String> = plan.payloads.into_iter().map(|p| String::from_utf8(p).unwrap()).collect();
    assert_eq!(
        texts,
        vec![
            r#"{"text":"a","to":"+573001234567"}"#.to_string(),
            r#"{"text":"c","to":"+573001234567"}"#.to_string(),
        ]
    );
    assert_eq!(plan.items_seen, 3);
    assert_eq!(plan.items_dispatched, 2);
}

#[test]
fn cancelled_dispatched_when_not_skipping() {
    let items = vec![event("a", Some("cancelled")), event("b", Some("CANCELLED"))];
    let plan = plan_tick(&cfg(false), Some("tok-1"), page(items));
    assert_eq!(plan.payloads.len(), 2);
    assert_eq!(plan.items_dispatched, 2);
    let plan = plan_tick(&cfg(true), Some("tok-1"), page(vec![event("b", Some("CANCELLED"))]));
    assert_eq!(plan.items_dispatched, 1);
}

#[test]
fn empty_page_without_next_token() {
    let plan = plan_tick(&cfg(true), Some("t"), CalendarPage { next_sync_token: None, items: vec![] });
    assert!(plan.payloads.is_empty());
    assert_eq!(plan.items_seen, 0);
    assert_eq!(plan.items_dispatched, 0);
    assert_eq!(plan.next_cursor, None);
}

fn is_rfc3339_utc(s: &str) -> bool {
    let b = s.as_bytes();
    let digits = |r: std::ops::Range<usize>| r.clone().all(|i| i < b.len() && b[i].is_ascii_digit());
    if b.len() < 25 || !s.ends_with("+00:00") || !digits(0..4) {
        return false;
    }
    let fixed = b[4] == b'-' && digits(5..7) && b[7] == b'-' && digits(8..10) && b[10] == b'T'
        && digits(11..13) && b[13] == b':' && digits(14..16) && b[16] == b':' && digits(17..19);
    let frac = &s[19..s.len() - 6];
    fixed
        && (frac.is_empty()
            || (frac.starts_with('.')
                && [4, 7, 10].contains(&frac.len())
                && frac[1..].bytes().all(|c| c.is_ascii_digit())))
}

#[test]
fn first_tick_time_min_is_rfc3339_utc() {
    let first = build_events_url("primary", None).expect("clock readable");
    let prefix = format!("{}primary/events?singleEvents=true&maxResults=250&timeMin=", BASE);
    let encoded = &first[prefix.len()..];
    let decoded = encoded.replace("%3A", ":").replace("%2B", "+");
    assert!(is_rfc3339_utc(&decoded), "{decoded}");
    assert!(decoded.as_str() >= "2024");
}

#[test]
fn outbound_payload_matches_serde_json_map() {
    let (to, text) = ("+57 \"x\"", "📅 a\nb");
    let mut map = serde_json::Map::new();
    map.insert("to".to_string(), serde_json::Value::String(to.to_string()));
    map.insert("text".to_string(), serde_json::Value::String(text.to_string()));
    let expected = serde_json::to_vec(&serde_json::Value::Object(map)).unwrap();
    assert_eq!(outbound_payload(to, text), expected);
}
