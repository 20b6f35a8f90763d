use nexo_poller_google_calendar::event::{
    render_event_template, CalendarEvent, EventField, EventTime,
};

fn text(s: &str) -> EventField {
    EventField::Text(s.to_string())
}

fn no_time() -> EventTime {
    EventTime { date_time: EventField::Missing, date: EventField::Missing }
}

fn bare_event() -> CalendarEvent {
    CalendarEvent {
        summary: None,
        start: no_time(),
        end: no_time(),
        location: None,
        status: None,
        html_link: None,
    }
}

#[test]
fn render_substitutes_event_fields() {
    let ev = CalendarEvent {
        summary: Some("Standup".to_string()),
        start: EventTime { date_time: text("2026-05-17T10:00:00Z"), date: EventField::Missing },
        end: EventTime { date_time: text("2026-05-17T10:30:00Z"), date: EventField::Missing },
        location: Some("Zoom".to_string()),
        status: Some("confirmed".to_string()),
        html_link: Some("https://cal.google/event/abc".to_string()),
    };
    let text = render_event_template("{summary} @ {start} ({location}) — {html_link}", &ev);
    assert_eq!(
        text,
        "Standup @ 2026-05-17T10:00:00Z (Zoom) — https://cal.google/event/abc"
    );
}

#[test]
fn render_falls_back_to_date_field_for_all_day_events() {
    let ev = CalendarEvent {
        summary: Some("Holiday".to_string()),
        start: EventTime { date_time: EventField::Missing, date: text("2026-12-25") },
        end: EventTime { date_time: EventField::Missing, date: text("2026-12-26") },
        ..bare_event()
    };
    let text = render_event_template("{summary} on {start}", &ev);
    assert_eq!(text, "Holiday on 2026-12-25");
}

#[test]
fn render_missing_fields() {
    let text = render_event_template("[{summary}|{start}|{end}|{location}|{status}|{html_link}]", &bare_event());
    assert_eq!(text, "[(no title)|||||]");
}

#[test]
fn render_non_string_date_time_does_not_fall_back() {
    let ev = CalendarEvent {
        start: EventTime { date_time: EventField::NotText, date: text("2026-12-25") },
        ..bare_event()
    };
    assert_eq!(render_event_template("<{start}>", &ev), "<>");
}

#[test]
fn render_date_time_wins_over_date() {
    let ev = CalendarEvent {
        end: EventTime { date_time: text("T"), date: text("D") },
        ..bare_event()
    };
    assert_eq!(render_event_template("{end}", &ev), "T");
}

#[test]
fn render_plain_template_unchanged() {
    let ev = CalendarEvent { summary: Some("x".to_string()), ..bare_event() };
    assert_eq!(render_event_template("no {placeholders} here {summary", &ev), "no {placeholders} here {summary");
}

#[test]
fn render_replaces_every_occurrence_in_order() {
    let ev = CalendarEvent {
        summary: Some("{start}".to_string()),
        start: EventTime { date_time: text("9am"), date: EventField::Missing },
        ..bare_event()
    };
    assert_eq!(render_event_template("{summary}/{summary}", &ev), "9am/9am");
    assert_eq!(render_event_template("{{summary}}", &ev), "{9am}");
}

#[test]
fn render_default_template() {
    let ev = CalendarEvent {
        summary: Some("Standup".to_string()),
        start: EventTime { date_time: text("10:00"), date: EventField::Missing },
        html_link: Some("L".to_string()),
        ..bare_event()
    };
    let t = nexo_poller_google_calendar::config::default_template();
    assert_eq!(render_event_template(&t, &ev), "📅 Standup — 10:00\nL");
}
