use nexo_poller_google_calendar::config::{
    default_calendar_id, default_skip_cancelled, default_template,
};

#[test]
fn config_defaults() {
    assert_eq!(default_calendar_id(), "primary");
    assert!(default_skip_cancelled());
    assert_eq!(default_template(), "📅 {summary} — {start}\n{html_link}");
}
