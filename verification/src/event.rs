//! Calendar events as the poller reads them, and their rendering into messages.

use vstd::prelude::*;

use crate::text::{
    contains_text, free_of, lemma_absent_beside, lemma_replace_absent, lemma_replace_at_front,
    lemma_replace_brace_free, lemma_replace_skips_prefix, replace, replace_all,
};

verus! {

/// A field of a JSON object as the poller reads it: absent, a string, or
/// present with a value that is not a string.
#[derive(Debug, Clone)]
pub enum EventField {
    Missing,
    Text(String),
    NotText,
}

/// An event's `start` or `end` object: its `dateTime` field (timed events)
/// and its `date` field (all-day events). Both are `Missing` when the object
/// itself is absent or not an object.
#[derive(Debug, Clone)]
pub struct EventTime {
    pub date_time: EventField,
    pub date: EventField,
}

/// The fields of a Calendar v3 event that the poller reads. A string field
/// is `None` when it is absent or not a string.
#[derive(Debug, Clone)]
pub struct CalendarEvent {
    pub summary: Option<String>,
    pub start: EventTime,
    pub end: EventTime,
    pub location: Option<String>,
    pub status: Option<String>,
    pub html_link: Option<String>,
}

/// The text of an optional string field, or `fallback`.
pub open spec fn text_or(field: Option<String>, fallback: Seq<char>) -> Seq<char> {
    match field {
        Some(s) => s@,
        None => fallback,
    }
}

/// The time shown for `start`/`end`: `dateTime` when present (empty when it is
/// not a string), otherwise `date` when it is a string, otherwise empty.
pub open spec fn time_text(t: EventTime) -> Seq<char> {
    match t.date_time {
        EventField::Text(s) => s@,
        EventField::NotText => Seq::empty(),
        EventField::Missing => match t.date {
            EventField::Text(s) => s@,
            _ => Seq::empty(),
        },
    }
}

/// `template` with each placeholder replaced, in the order `{summary}`,
/// `{start}`, `{end}`, `{location}`, `{status}`, `{html_link}`.
pub open spec fn rendered(template: Seq<char>, ev: CalendarEvent) -> Seq<char> {
    let t1 = replace_all(template, "{summary}"@, text_or(ev.summary, "(no title)"@));
    let t2 = replace_all(t1, "{start}"@, time_text(ev.start));
    let t3 = replace_all(t2, "{end}"@, time_text(ev.end));
    let t4 = replace_all(t3, "{location}"@, text_or(ev.location, Seq::empty()));
    let t5 = replace_all(t4, "{status}"@, text_or(ev.status, Seq::empty()));
    replace_all(t5, "{html_link}"@, text_or(ev.html_link, Seq::empty()))
}

fn text_or_default<'a>(field: &'a Option<String>, fallback: &'a str) -> (r: &'a str)
    ensures
        r@ == text_or(*field, fallback@),
{
    match field {
        Some(s) => s.as_str(),
        None => fallback,
    }
}

fn event_time_text(t: &EventTime) -> (r: &str)
    ensures
        r@ == time_text(*t),
{
    proof {
        reveal_strlit("");
        assert(""@ =~= Seq::<char>::empty());
    }
    match &t.date_time {
        EventField::Text(s) => s.as_str(),
        EventField::NotText => "",
        EventField::Missing => match &t.date {
            EventField::Text(s) => s.as_str(),
            _ => "",
        },
    }
}

/// Renders `template` for `ev`: `{summary}` (or `(no title)`), `{start}` and
/// `{end}` (the `dateTime`, else the `date` of all-day events), `{location}`,
/// `{status}` and `{html_link}` are replaced in that order.
pub fn render_event_template(template: &str, ev: &CalendarEvent) -> (r: String)
    ensures
        r@ == rendered(template@, *ev),
{
    proof {
        reveal_strlit("");
        assert(""@ =~= Seq::<char>::empty());
    }
    let t1 = replace(template, "{summary}", text_or_default(&ev.summary, "(no title)"));
    let t2 = replace(t1.as_str(), "{start}", event_time_text(&ev.start));
    let t3 = replace(t2.as_str(), "{end}", event_time_text(&ev.end));
    let t4 = replace(t3.as_str(), "{location}", text_or_default(&ev.location, ""));
    let t5 = replace(t4.as_str(), "{status}", text_or_default(&ev.status, ""));
    replace(t5.as_str(), "{html_link}", text_or_default(&ev.html_link, ""))
}


/// A template in which no placeholder occurs is rendered as it stands, for every event.
pub proof fn lemma_plain_template_unchanged(template: Seq<char>, ev: CalendarEvent)
    requires
        !contains_text(template, "{summary}"@),
        !contains_text(template, "{start}"@),
        !contains_text(template, "{end}"@),
        !contains_text(template, "{location}"@),
        !contains_text(template, "{status}"@),
        !contains_text(template, "{html_link}"@),
    ensures
        rendered(template, ev) == template,
{
    lemma_replace_absent(template, "{summary}"@, text_or(ev.summary, "(no title)"@));
    lemma_replace_absent(template, "{start}"@, time_text(ev.start));
    lemma_replace_absent(template, "{end}"@, time_text(ev.end));
    lemma_replace_absent(template, "{location}"@, text_or(ev.location, Seq::empty()));
    lemma_replace_absent(template, "{status}"@, text_or(ev.status, Seq::empty()));
    lemma_replace_absent(template, "{html_link}"@, text_or(ev.html_link, Seq::empty()));
}


proof fn lemma_free_concat(p: Seq<char>, e: Seq<char>, q: Seq<char>)
    requires
        free_of(p, '{'),
        free_of(e, '{'),
        free_of(q, '{'),
    ensures
        free_of(p + e + q, '{'),
{
    let s = p + e + q;
    assert forall|i: int| 0 <= i < s.len() implies s[i] != '{' by {
        if i < p.len() {
            assert(s[i] == p[i]);
        } else if i < p.len() + e.len() {
            assert(s[i] == e[i - p.len()]);
        } else {
            assert(s[i] == q[i - p.len() - e.len()]);
        }
    }
}

/// `{end}` stands for the end time: the end's `dateTime` when it is present
/// (nothing when it is not a string), otherwise its `date` when that is a
/// string, otherwise nothing. Stated for any surrounding text and event whose
/// texts hold no `{`, so that no other placeholder is involved.
pub proof fn lemma_end_placeholder(p: Seq<char>, q: Seq<char>, ev: CalendarEvent)
    requires
        free_of(p, '{'),
        free_of(q, '{'),
        free_of(
            match ev.end.date_time {
                EventField::Text(s) => s@,
                EventField::NotText => Seq::empty(),
                EventField::Missing => match ev.end.date {
                    EventField::Text(s) => s@,
                    _ => Seq::empty(),
                },
            },
            '{',
        ),
    ensures
        rendered(p + "{end}"@ + q, ev) == p + match ev.end.date_time {
            EventField::Text(s) => s@,
            EventField::NotText => Seq::empty(),
            EventField::Missing => match ev.end.date {
                EventField::Text(s) => s@,
                _ => Seq::empty(),
            },
        } + q,
{
    reveal_strlit("{end}");
    reveal_strlit("{summary}");
    reveal_strlit("{start}");
    reveal_strlit("{location}");
    reveal_strlit("{status}");
    reveal_strlit("{html_link}");
    let mid = "{end}"@;
    let e = time_text(ev.end);
    let t0 = p + mid + q;
    assert(free_of(mid.drop_first(), '{'));
    lemma_absent_beside(p, mid, q, "{summary}"@, 1);
    lemma_replace_absent(t0, "{summary}"@, text_or(ev.summary, "(no title)"@));
    lemma_absent_beside(p, mid, q, "{start}"@, 1);
    lemma_replace_absent(t0, "{start}"@, time_text(ev.start));
    assert(t0 =~= p + (mid + q));
    lemma_replace_skips_prefix(p, mid + q, mid, e);
    lemma_replace_at_front(q, mid, e);
    lemma_replace_brace_free(q, mid, e);
    let t3 = p + e + q;
    assert(replace_all(t0, mid, e) =~= t3);
    lemma_free_concat(p, e, q);
    lemma_replace_brace_free(t3, "{location}"@, text_or(ev.location, Seq::empty()));
    lemma_replace_brace_free(t3, "{status}"@, text_or(ev.status, Seq::empty()));
    lemma_replace_brace_free(t3, "{html_link}"@, text_or(ev.html_link, Seq::empty()));
}

/// `{start}` stands for the start time: the start's `dateTime` when it is present
/// (nothing when it is not a string), otherwise its `date` when that is a
/// string, otherwise nothing. Stated for any surrounding text and event whose
/// texts hold no `{`, so that no other placeholder is involved.
pub proof fn lemma_start_placeholder(p: Seq<char>, q: Seq<char>, ev: CalendarEvent)
    requires
        free_of(p, '{'),
        free_of(q, '{'),
        free_of(
            match ev.start.date_time {
                EventField::Text(s) => s@,
                EventField::NotText => Seq::empty(),
                EventField::Missing => match ev.start.date {
                    EventField::Text(s) => s@,
                    _ => Seq::empty(),
                },
            },
            '{',
        ),
    ensures
        rendered(p + "{start}"@ + q, ev) == p + match ev.start.date_time {
            EventField::Text(s) => s@,
            EventField::NotText => Seq::empty(),
            EventField::Missing => match ev.start.date {
                EventField::Text(s) => s@,
                _ => Seq::empty(),
            },
        } + q,
{
    reveal_strlit("{end}");
    reveal_strlit("{summary}");
    reveal_strlit("{start}");
    reveal_strlit("{location}");
    reveal_strlit("{status}");
    reveal_strlit("{html_link}");
    let mid = "{start}"@;
    let e = time_text(ev.start);
    let t0 = p + mid + q;
    assert(free_of(mid.drop_first(), '{'));
    lemma_absent_beside(p, mid, q, "{summary}"@, 2);
    lemma_replace_absent(t0, "{summary}"@, text_or(ev.summary, "(no title)"@));
    assert(t0 =~= p + (mid + q));
    lemma_replace_skips_prefix(p, mid + q, mid, e);
    lemma_replace_at_front(q, mid, e);
    lemma_replace_brace_free(q, mid, e);
    let t2 = p + e + q;
    assert(replace_all(t0, mid, e) =~= t2);
    lemma_free_concat(p, e, q);
    lemma_replace_brace_free(t2, "{end}"@, time_text(ev.end));
    lemma_replace_brace_free(t2, "{location}"@, text_or(ev.location, Seq::empty()));
    lemma_replace_brace_free(t2, "{status}"@, text_or(ev.status, Seq::empty()));
    lemma_replace_brace_free(t2, "{html_link}"@, text_or(ev.html_link, Seq::empty()));
}


proof fn lemma_other_kept(p: Seq<char>, mid: Seq<char>, q: Seq<char>, pat: Seq<char>, k: int, rep: Seq<char>)
    requires
        free_of(p, '{'),
        free_of(q, '{'),
        mid.len() > 0,
        mid[0] == '{',
        free_of(mid.drop_first(), '{'),
        pat.len() > 0,
        pat[0] == '{',
        0 < k < pat.len(),
        k < mid.len(),
        pat[k] != mid[k],
    ensures
        replace_all(p + mid + q, pat, rep) == p + mid + q,
{
    lemma_absent_beside(p, mid, q, pat, k);
    lemma_replace_absent(p + mid + q, pat, rep);
}

proof fn lemma_slot_filled(p: Seq<char>, mid: Seq<char>, q: Seq<char>, rep: Seq<char>)
    requires
        free_of(p, '{'),
        free_of(q, '{'),
        mid.len() > 0,
        mid[0] == '{',
    ensures
        replace_all(p + mid + q, mid, rep) == p + rep + q,
{
    assert(p + mid + q =~= p + (mid + q));
    lemma_replace_skips_prefix(p, mid + q, mid, rep);
    lemma_replace_at_front(q, mid, rep);
    lemma_replace_brace_free(q, mid, rep);
    assert(p + (rep + q) =~= p + rep + q);
}

/// `{summary}` stands for the event's summary, or `(no title)` when it has
/// none. Stated for any surrounding text and event whose texts hold no `{`.
pub proof fn lemma_summary_placeholder(p: Seq<char>, q: Seq<char>, ev: CalendarEvent)
    requires
        free_of(p, '{'),
        free_of(q, '{'),
        free_of(
            match ev.summary {
                Some(s) => s@,
                None => "(no title)"@,
            },
            '{',
        ),
    ensures
        rendered(p + "{summary}"@ + q, ev) == p + match ev.summary {
            Some(s) => s@,
            None => "(no title)"@,
        } + q,
{
    reveal_strlit("{end}");
    reveal_strlit("{summary}");
    reveal_strlit("{start}");
    reveal_strlit("{location}");
    reveal_strlit("{status}");
    reveal_strlit("{html_link}");
    let e = text_or(ev.summary, "(no title)"@);
    lemma_slot_filled(p, "{summary}"@, q, e);
    let t = p + e + q;
    lemma_free_concat(p, e, q);
    lemma_replace_brace_free(t, "{start}"@, time_text(ev.start));
    lemma_replace_brace_free(t, "{end}"@, time_text(ev.end));
    lemma_replace_brace_free(t, "{location}"@, text_or(ev.location, Seq::empty()));
    lemma_replace_brace_free(t, "{status}"@, text_or(ev.status, Seq::empty()));
    lemma_replace_brace_free(t, "{html_link}"@, text_or(ev.html_link, Seq::empty()));
}

/// `{location}` stands for the event's location, or nothing when it has none.
/// Stated for any surrounding text and event whose texts hold no `{`.
pub proof fn lemma_location_placeholder(p: Seq<char>, q: Seq<char>, ev: CalendarEvent)
    requires
        free_of(p, '{'),
        free_of(q, '{'),
        free_of(
            match ev.location {
                Some(s) => s@,
                None => Seq::empty(),
            },
            '{',
        ),
    ensures
        rendered(p + "{location}"@ + q, ev) == p + match ev.location {
            Some(s) => s@,
            None => Seq::empty(),
        } + q,
{
    reveal_strlit("{end}");
    reveal_strlit("{summary}");
    reveal_strlit("{start}");
    reveal_strlit("{location}");
    reveal_strlit("{status}");
    reveal_strlit("{html_link}");
    let mid = "{location}"@;
    assert(free_of(mid.drop_first(), '{'));
    lemma_other_kept(p, mid, q, "{summary}"@, 1, text_or(ev.summary, "(no title)"@));
    lemma_other_kept(p, mid, q, "{start}"@, 1, time_text(ev.start));
    lemma_other_kept(p, mid, q, "{end}"@, 1, time_text(ev.end));
    let e = text_or(ev.location, Seq::empty());
    lemma_slot_filled(p, mid, q, e);
    let t = p + e + q;
    lemma_free_concat(p, e, q);
    lemma_replace_brace_free(t, "{status}"@, text_or(ev.status, Seq::empty()));
    lemma_replace_brace_free(t, "{html_link}"@, text_or(ev.html_link, Seq::empty()));
}

/// `{status}` stands for the event's status, or nothing when it has none.
/// Stated for any surrounding text and event whose texts hold no `{`.
pub proof fn lemma_status_placeholder(p: Seq<char>, q: Seq<char>, ev: CalendarEvent)
    requires
        free_of(p, '{'),
        free_of(q, '{'),
        free_of(
            match ev.status {
                Some(s) => s@,
                None => Seq::empty(),
            },
            '{',
        ),
    ensures
        rendered(p + "{status}"@ + q, ev) == p + match ev.status {
            Some(s) => s@,
            None => Seq::empty(),
        } + q,
{
    reveal_strlit("{end}");
    reveal_strlit("{summary}");
    reveal_strlit("{start}");
    reveal_strlit("{location}");
    reveal_strlit("{status}");
    reveal_strlit("{html_link}");
    let mid = "{status}"@;
    assert(free_of(mid.drop_first(), '{'));
    lemma_other_kept(p, mid, q, "{summary}"@, 2, text_or(ev.summary, "(no title)"@));
    lemma_other_kept(p, mid, q, "{start}"@, 4, time_text(ev.start));
    lemma_other_kept(p, mid, q, "{end}"@, 1, time_text(ev.end));
    lemma_other_kept(p, mid, q, "{location}"@, 1, text_or(ev.location, Seq::empty()));
    let e = text_or(ev.status, Seq::empty());
    lemma_slot_filled(p, mid, q, e);
    let t = p + e + q;
    lemma_free_concat(p, e, q);
    lemma_replace_brace_free(t, "{html_link}"@, text_or(ev.html_link, Seq::empty()));
}

/// `{html_link}` stands for the event's `htmlLink`, or nothing when it has none.
/// Stated for any surrounding text and event whose texts hold no `{`.
pub proof fn lemma_html_link_placeholder(p: Seq<char>, q: Seq<char>, ev: CalendarEvent)
    requires
        free_of(p, '{'),
        free_of(q, '{'),
        free_of(
            match ev.html_link {
                Some(s) => s@,
                None => Seq::empty(),
            },
            '{',
        ),
    ensures
        rendered(p + "{html_link}"@ + q, ev) == p + match ev.html_link {
            Some(s) => s@,
            None => Seq::empty(),
        } + q,
{
    reveal_strlit("{end}");
    reveal_strlit("{summary}");
    reveal_strlit("{start}");
    reveal_strlit("{location}");
    reveal_strlit("{status}");
    reveal_strlit("{html_link}");
    let mid = "{html_link}"@;
    assert(free_of(mid.drop_first(), '{'));
    lemma_other_kept(p, mid, q, "{summary}"@, 1, text_or(ev.summary, "(no title)"@));
    lemma_other_kept(p, mid, q, "{start}"@, 1, time_text(ev.start));
    lemma_other_kept(p, mid, q, "{end}"@, 1, time_text(ev.end));
    lemma_other_kept(p, mid, q, "{location}"@, 1, text_or(ev.location, Seq::empty()));
    lemma_other_kept(p, mid, q, "{status}"@, 1, text_or(ev.status, Seq::empty()));
    lemma_slot_filled(p, mid, q, text_or(ev.html_link, Seq::empty()));
}

} // verus!
