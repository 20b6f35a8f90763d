//! One poll tick: the events URL, the sync cursor, the outbound topic and the
//! messages dispatched for the events of a page.

use vstd::prelude::*;
use vstd::utf8::*;

use crate::clock::{is_rfc3339_utc, now_rfc3339};
use crate::config::CalendarJobConfig;
use crate::event::{render_event_template, rendered, CalendarEvent};
use crate::text::same_text;
use crate::urlencode::{url_encoded, urlencode};

verus! {

/// `serde_json::Error`, carried as an opaque value.
#[verifier::external_type_specification]
#[verifier::external_body]
pub struct ExJsonError(serde_json::Error);

/* ---- Events URL ---- */

/// The Calendar v3 events URL of a tick. With a sync token only the changes
/// since that token are requested; without one (the first tick) only events
/// from `time_min` on, so that nothing older is back-filled.
pub open spec fn events_url_text(
    calendar_id: Seq<char>,
    sync_token: Option<Seq<char>>,
    time_min: Seq<char>,
) -> Seq<char> {
    "https://www.googleapis.com/calendar/v3/calendars/"@ + url_encoded(calendar_id)
        + "/events?singleEvents=true&maxResults=250"@ + match sync_token {
        Some(t) => "&syncToken="@ + url_encoded(t),
        None => "&timeMin="@ + url_encoded(time_min),
    }
}

/// The events URL for `calendar_id`; `time_min` is used only when there is no
/// sync token.
pub fn events_url(calendar_id: &str, sync_token: Option<&str>, time_min: &str) -> (url: String)
    ensures
        url@ == events_url_text(
            calendar_id@,
            match sync_token {
                Some(t) => Some(t@),
                None => None,
            },
            time_min@,
        ),
{
    let mut url = String::from_str("https://www.googleapis.com/calendar/v3/calendars/");
    let id = urlencode(calendar_id);
    url.append(id.as_str());
    url.append("/events?singleEvents=true&maxResults=250");
    match sync_token {
        Some(t) => {
            url.append("&syncToken=");
            let te = urlencode(t);
            url.append(te.as_str());
        },
        None => {
            url.append("&timeMin=");
            let now = urlencode(time_min);
            url.append(now.as_str());
        },
    }
    url
}

/// The events URL of a tick, reading the clock only on the first tick. On the
/// first tick the URL asks for events from the current time, written as RFC 3339
/// UTC text; none comes back when the clock cannot be read that way.
pub fn build_events_url(calendar_id: &str, sync_token: Option<&str>) -> (url: Option<String>)
    ensures
        sync_token matches Some(t) ==> url matches Some(u) && u@ == events_url_text(
            calendar_id@,
            Some(t@),
            Seq::empty(),
        ),
        sync_token is None ==> (url matches Some(u) ==> exists|now: Seq<char>|
            is_rfc3339_utc(now) && u@ == events_url_text(calendar_id@, None, now)),
        url is None ==> sync_token is None,
{
    match sync_token {
        Some(t) => Some(events_url(calendar_id, Some(t), "")),
        None => match now_rfc3339() {
            Some(now) => {
                let u = events_url(calendar_id, None, now.as_str());
                assert(is_rfc3339_utc(now@) && u@ == events_url_text(calendar_id@, None, now@));
                Some(u)
            },
            None => None,
        },
    }
}

/// A later tick asks Calendar v3 for single events of the percent-encoded
/// calendar, at most 250 a page, since the percent-encoded sync token; the first
/// tick asks for those from the percent-encoded time instead.
pub proof fn lemma_events_url_parts(calendar_id: Seq<char>, token: Seq<char>, time_min: Seq<char>)
    ensures
        events_url_text(calendar_id, Some(token), time_min)
            == "https://www.googleapis.com/calendar/v3/calendars/"@ + url_encoded(calendar_id)
            + "/events?singleEvents=true&maxResults=250&syncToken="@ + url_encoded(token),
        events_url_text(calendar_id, None, time_min)
            == "https://www.googleapis.com/calendar/v3/calendars/"@ + url_encoded(calendar_id)
            + "/events?singleEvents=true&maxResults=250&timeMin="@ + url_encoded(time_min),
{
    reveal_strlit("/events?singleEvents=true&maxResults=250");
    reveal_strlit("&syncToken=");
    reveal_strlit("&timeMin=");
    reveal_strlit("/events?singleEvents=true&maxResults=250&syncToken=");
    reveal_strlit("/events?singleEvents=true&maxResults=250&timeMin=");
    let base = "https://www.googleapis.com/calendar/v3/calendars/"@ + url_encoded(calendar_id);
    let q = "/events?singleEvents=true&maxResults=250"@;
    assert("/events?singleEvents=true&maxResults=250&syncToken="@ =~= q + "&syncToken="@);
    assert("/events?singleEvents=true&maxResults=250&timeMin="@ =~= q + "&timeMin="@);
    assert(base + q + ("&syncToken="@ + url_encoded(token)) =~= base + (q + "&syncToken="@)
        + url_encoded(token));
    assert(base + q + ("&timeMin="@ + url_encoded(time_min)) =~= base + (q + "&timeMin="@)
        + url_encoded(time_min));
}

/* ---- Sync cursor ---- */

/// The sync token stored in a cursor: its bytes decoded as UTF-8, or none when
/// there is no cursor or its bytes are not UTF-8.
pub open spec fn cursor_token(cursor: Option<Seq<u8>>) -> Option<Seq<char>> {
    match cursor {
        Some(b) => if valid_utf8(b) {
            Some(decode_utf8(b))
        } else {
            None
        },
        None => None,
    }
}

/// The cursor that stores a sync token: its UTF-8 bytes.
pub open spec fn token_cursor(token: Option<Seq<char>>) -> Option<Seq<u8>> {
    match token {
        Some(t) => Some(encode_utf8(t)),
        None => None,
    }
}

/// `String::from_utf8(bytes).ok()`: the string whose UTF-8 encoding `bytes` is,
/// or none when `bytes` is not valid UTF-8.
#[verifier::external_body]
fn string_from_utf8(bytes: Vec<u8>) -> (r: Option<String>)
    ensures
        r is Some <==> valid_utf8(bytes@),
        r matches Some(s) ==> s@ == decode_utf8(bytes@),
{
    String::from_utf8(bytes).ok()
}

/// The sync token held by a tick's cursor.
pub fn sync_token_from_cursor(cursor: Option<Vec<u8>>) -> (t: Option<String>)
    ensures
        match t {
            Some(s) => cursor_token(match cursor {
                Some(b) => Some(b@),
                None => None,
            }) == Some(s@),
            None => cursor_token(match cursor {
                Some(b) => Some(b@),
                None => None,
            }) is None,
        },
{
    match cursor {
        Some(b) => string_from_utf8(b),
        None => None,
    }
}

/// The cursor that carries `token` to the next tick.
pub fn cursor_from_token(token: Option<String>) -> (c: Option<Vec<u8>>)
    ensures
        match c {
            Some(b) => token_cursor(match token {
                Some(s) => Some(s@),
                None => None,
            }) == Some(b@),
            None => token is None,
        },
{
    match token {
        Some(t) => Some(t.as_str().as_bytes_vec()),
        None => None,
    }
}

/// What one tick stores is what the next tick reads: the sync token a cursor is
/// made from is the token read back from it.
pub proof fn lemma_cursor_roundtrip(token: Option<Seq<char>>)
    ensures
        cursor_token(token_cursor(token)) == token,
{
    if let Some(t) = token {
        encode_utf8_valid_utf8(t);
        encode_utf8_decode_utf8(t);
    }
}

/// The tick after a page resumes from that page's sync token: the cursor stored
/// with the page's `nextSyncToken` makes the next events URL an incremental
/// request for exactly that token.
pub proof fn lemma_next_tick_resumes(calendar_id: Seq<char>, next_sync_token: Seq<char>, time_min: Seq<char>)
    ensures
        events_url_text(calendar_id, cursor_token(token_cursor(Some(next_sync_token))), time_min)
            == events_url_text(calendar_id, Some(next_sync_token), Seq::empty()),
{
    lemma_cursor_roundtrip(Some(next_sync_token));
}

/* ---- Outbound topic ---- */

/// The broker topic of an outbound channel account.
pub open spec fn topic_text(channel: Seq<char>, account_id: Seq<char>) -> Seq<char> {
    "plugin.outbound."@ + channel + "."@ + account_id
}

/// The topic messages are published to, or none when the outbound credentials
/// carry no account id.
pub fn outbound_topic(channel: &str, account_id: Option<&str>) -> (topic: Option<String>)
    ensures
        match topic {
            Some(tp) => account_id matches Some(a) && tp@ == topic_text(channel@, a@),
            None => account_id is None,
        },
{
    match account_id {
        Some(a) => {
            let mut topic = String::from_str("plugin.outbound.");
            topic.append(channel);
            topic.append(".");
            topic.append(a);
            Some(topic)
        },
        None => None,
    }
}

/* ---- Outbound payload ---- */

/// Lower-case hexadecimal digit for `n` (`0 <= n < 16`).
pub open spec fn lower_hex_digit(n: int) -> char {
    if n < 10 {
        (n + 48) as char
    } else {
        (n + 87) as char
    }
}

/// How one character is written inside a JSON string: `"` and `\` and the
/// control characters below U+0020 are escaped (`\b \t \n \f \r`, else
/// `\u00xx`), every other character stands for itself.
pub open spec fn json_escape(c: char) -> Seq<char> {
    if c == '"' {
        seq!['\\', '"']
    } else if c == '\\' {
        seq!['\\', '\\']
    } else if c == '\u{8}' {
        seq!['\\', 'b']
    } else if c == '\u{9}' {
        seq!['\\', 't']
    } else if c == '\u{a}' {
        seq!['\\', 'n']
    } else if c == '\u{c}' {
        seq!['\\', 'f']
    } else if c == '\u{d}' {
        seq!['\\', 'r']
    } else if (c as u32) < 0x20 {
        seq!['\\', 'u', '0', '0', lower_hex_digit(c as int / 16), lower_hex_digit(c as int % 16)]
    } else {
        seq![c]
    }
}

/// The escaped characters of `s`.
pub open spec fn json_escaped(s: Seq<char>) -> Seq<char>
    decreases s.len(),
{
    if s.len() == 0 {
        seq![]
    } else {
        json_escape(s[0]) + json_escaped(s.drop_first())
    }
}

/// `s` as a JSON string literal.
pub open spec fn json_string(s: Seq<char>) -> Seq<char> {
    seq!['"'] + json_escaped(s) + seq!['"']
}

/// `serde_json::to_string(s)`: the JSON string literal of `s`. Serialising a
/// `str` into memory does not fail.
#[verifier::external_body]
fn json_quote(s: &str) -> (r: Result<String, serde_json::Error>)
    ensures
        r is Ok,
        r matches Ok(q) ==> q@ == json_string(s@),
{
    serde_json::to_string(s)
}

/// A text with no `"`, `\` or control character below U+0020 is quoted as it stands.
pub proof fn lemma_plain_json_string(s: Seq<char>)
    requires
        forall|i: int|
            0 <= i < s.len() ==> s[i] != '"' && s[i] != '\\' && (s[i] as u32) >= 0x20,
    ensures
        json_string(s) == seq!['"'] + s + seq!['"'],
{
    lemma_plain_json_escaped(s);
}

proof fn lemma_plain_json_escaped(s: Seq<char>)
    requires
        forall|i: int|
            0 <= i < s.len() ==> s[i] != '"' && s[i] != '\\' && (s[i] as u32) >= 0x20,
    ensures
        json_escaped(s) == s,
    decreases s.len(),
{
    if s.len() > 0 {
        assert(s[0] != '\u{8}' && s[0] != '\u{9}' && s[0] != '\u{a}' && s[0] != '\u{c}' && s[0]
            != '\u{d}');
        lemma_plain_json_escaped(s.drop_first());
        assert(s =~= seq![s[0]] + s.drop_first());
    }
}

/// The text of an outbound message: a compact JSON object with the rendered
/// `text` and the recipient `to`. The keys come in sorted order, which is the
/// order in which `serde_json` writes a `Map` built without its `preserve_order`
/// feature (a `BTreeMap`); this crate does not enable that feature.
pub open spec fn payload_text(to: Seq<char>, text: Seq<char>) -> Seq<char> {
    "{\"text\":"@ + json_string(text) + ",\"to\":"@ + json_string(to) + "}"@
}

/// The bytes published for one message.
pub open spec fn payload_bytes(to: Seq<char>, text: Seq<char>) -> Seq<u8> {
    encode_utf8(payload_text(to, text))
}

/// The bytes of the outbound message carrying `text` to `to`.
pub fn outbound_payload(to: &str, text: &str) -> (bytes: Vec<u8>)
    ensures
        bytes@ == payload_bytes(to@, text@),
{
    let mut body = String::from_str("{\"text\":");
    match json_quote(text) {
        Ok(q) => body.append(q.as_str()),
        Err(_) => {},
    }
    body.append(",\"to\":");
    match json_quote(to) {
        Ok(q) => body.append(q.as_str()),
        Err(_) => {},
    }
    body.append("}");
    body.as_str().as_bytes_vec()
}


/* ---- Dispatch ---- */

/// One page of the events list: the token for the next incremental sync and
/// the events (missing `items` read as no events).
#[derive(Debug, Clone)]
pub struct CalendarPage {
    pub next_sync_token: Option<String>,
    pub items: Vec<CalendarEvent>,
}

/// The contents of a list of byte buffers.
pub open spec fn byte_views(v: Seq<Vec<u8>>) -> Seq<Seq<u8>> {
    v.map_values(|b: Vec<u8>| b@)
}

/// Whether an event's `status` is `cancelled`.
pub open spec fn is_cancelled(ev: CalendarEvent) -> bool {
    ev.status matches Some(s) && s@ == "cancelled"@
}

/// Whether a job dispatches an event: cancelled events are skipped when the
/// job says so.
pub open spec fn is_dispatched(cfg: CalendarJobConfig, ev: CalendarEvent) -> bool {
    !(cfg.skip_cancelled && is_cancelled(ev))
}

/// The events of a page that a job dispatches, in page order.
pub open spec fn dispatched_events(cfg: CalendarJobConfig, events: Seq<CalendarEvent>) -> Seq<
    CalendarEvent,
> {
    events.filter(|ev: CalendarEvent| is_dispatched(cfg, ev))
}

/// The message bytes a job publishes for an event.
pub open spec fn event_payload(cfg: CalendarJobConfig, ev: CalendarEvent) -> Seq<u8> {
    payload_bytes(cfg.deliver.to@, rendered(cfg.message_template@, ev))
}

/// The messages of a tick: none on the first tick (no sync token), whose only
/// purpose is to capture the next sync token; afterwards one per dispatched
/// event, in page order.
pub open spec fn planned_payloads(
    cfg: CalendarJobConfig,
    resumed: bool,
    events: Seq<CalendarEvent>,
) -> Seq<Seq<u8>> {
    if resumed {
        dispatched_events(cfg, events).map_values(|ev: CalendarEvent| event_payload(cfg, ev))
    } else {
        Seq::empty()
    }
}

/// What a tick publishes and acknowledges.
#[derive(Debug)]
pub struct TickPlan {
    /// Message bytes to publish on the outbound topic, in order.
    pub payloads: Vec<Vec<u8>>,
    /// The cursor for the next tick.
    pub next_cursor: Option<Vec<u8>>,
    /// Number of events on the page (as a `u32`, wrapping).
    pub items_seen: u32,
    /// Number of messages published.
    pub items_dispatched: u32,
}

/// Whether the job dispatches `ev`.
pub fn dispatches(cfg: &CalendarJobConfig, ev: &CalendarEvent) -> (r: bool)
    ensures
        r == is_dispatched(*cfg, *ev),
{
    let cancelled = match &ev.status {
        Some(s) => same_text(s.as_str(), "cancelled"),
        None => false,
    };
    !(cfg.skip_cancelled && cancelled)
}

/// Plans a tick over a fetched page: the messages to publish (none on the first
/// tick, when there is no sync token), the cursor that stores the page's next
/// sync token, and the tick's metrics.
pub fn plan_tick(cfg: &CalendarJobConfig, sync_token: Option<&str>, page: CalendarPage) -> (plan:
    TickPlan)
    requires
        sync_token is Some ==> dispatched_events(*cfg, page.items@).len() <= u32::MAX,
    ensures
        byte_views(plan.payloads@) == planned_payloads(*cfg, sync_token is Some, page.items@),
        sync_token is None ==> plan.payloads@.len() == 0,
        match plan.next_cursor {
            Some(b) => token_cursor(match page.next_sync_token {
                Some(t) => Some(t@),
                None => None,
            }) == Some(b@),
            None => page.next_sync_token is None,
        },
        plan.items_seen as int == page.items@.len() % 0x1_0000_0000,
        plan.items_dispatched as int == plan.payloads@.len(),
        page.items@.len() <= u32::MAX ==> plan.items_dispatched <= plan.items_seen,
{
    let n = page.items.len();
    let mut payloads: Vec<Vec<u8>> = Vec::new();
    if sync_token.is_some() {
        let ghost pred = |ev: CalendarEvent| is_dispatched(*cfg, ev);
        let ghost f = |ev: CalendarEvent| event_payload(*cfg, ev);
        let mut i: usize = 0;
        assert(page.items@.take(0) =~= Seq::<CalendarEvent>::empty());
        assert(byte_views(payloads@) =~= Seq::<Seq<u8>>::empty());
        while i < n
            invariant
                n == page.items@.len(),
                i <= n,
                pred == (|ev: CalendarEvent| is_dispatched(*cfg, ev)),
                f == (|ev: CalendarEvent| event_payload(*cfg, ev)),
                byte_views(payloads@) == page.items@.take(i as int).filter(pred).map_values(f),
            decreases n - i,
        {
            reveal_with_fuel(Seq::<_>::filter, 1);
            let ev = &page.items[i];
            let ghost prefix = page.items@.take(i as int);
            assert(page.items@.take(i + 1).drop_last() =~= prefix);
            assert(page.items@.take(i + 1).last() == *ev);
            if dispatches(cfg, ev) {
                let text = render_event_template(cfg.message_template.as_str(), ev);
                let bytes = outbound_payload(cfg.deliver.to.as_str(), text.as_str());
                assert(bytes@ == f(*ev));
                let ghost before = byte_views(payloads@);
                payloads.push(bytes);
                assert(byte_views(payloads@) =~= before.push(bytes@));
                assert(prefix.filter(pred).push(*ev).map_values(f) =~= prefix.filter(pred).map_values(
                    f,
                ).push(f(*ev)));
            }
            i = i + 1;
        }
        assert(page.items@.take(n as int) =~= page.items@);
    } else {
        assert(byte_views(payloads@) =~= Seq::<Seq<u8>>::empty());
    }
    let items_seen = #[verifier::truncate] (n as u32);
    assert(items_seen as int == n as int % 0x1_0000_0000) by (bit_vector)
        requires
            items_seen == n as u32,
    ;
    let items_dispatched = payloads.len() as u32;
    proof {
        page.items@.lemma_filter_len(|ev: CalendarEvent| is_dispatched(*cfg, ev));
    }
    let next_cursor = cursor_from_token(page.next_sync_token);
    TickPlan { payloads, next_cursor, items_seen, items_dispatched }
}

/// With `skip_cancelled` set, no cancelled event is ever dispatched.
pub proof fn lemma_cancelled_skipped(cfg: CalendarJobConfig, events: Seq<CalendarEvent>)
    requires
        cfg.skip_cancelled,
    ensures
        forall|i: int|
            0 <= i < dispatched_events(cfg, events).len() ==> !is_cancelled(
                #[trigger] dispatched_events(cfg, events)[i],
            ),
{
    let pred = |ev: CalendarEvent| is_dispatched(cfg, ev);
    assert forall|i: int| 0 <= i < events.filter(pred).len() implies !is_cancelled(
        #[trigger] events.filter(pred)[i],
    ) by {
        events.lemma_filter_pred(pred, i);
    }
}

/// With `skip_cancelled` unset, every event is dispatched, in page order.
pub proof fn lemma_all_dispatched(cfg: CalendarJobConfig, events: Seq<CalendarEvent>)
    requires
        !cfg.skip_cancelled,
    ensures
        dispatched_events(cfg, events) == events,
    decreases events.len(),
{
    reveal_with_fuel(Seq::<_>::filter, 1);
    if events.len() > 0 {
        lemma_all_dispatched(cfg, events.drop_last());
        assert(events.drop_last().push(events.last()) =~= events);
    }
}

/// Only the status text `cancelled` is skipped, and only when the job says so:
/// with `skip_cancelled` an event is dispatched exactly when its status is not
/// `cancelled`; without it every event is.
pub proof fn lemma_only_cancelled_skipped(cfg: CalendarJobConfig, ev: CalendarEvent)
    ensures
        cfg.skip_cancelled ==> (is_dispatched(cfg, ev) <==> !(ev.status matches Some(s) && s@
            == "cancelled"@)),
        !cfg.skip_cancelled ==> is_dispatched(cfg, ev),
{
}

/// On a later tick, every event of the page whose status is not `cancelled` is
/// dispatched, and its message is among the tick's messages.
pub proof fn lemma_uncancelled_dispatched(cfg: CalendarJobConfig, events: Seq<CalendarEvent>, i: int)
    requires
        0 <= i < events.len(),
        !(events[i].status matches Some(s) && s@ == "cancelled"@),
    ensures
        dispatched_events(cfg, events).contains(events[i]),
        planned_payloads(cfg, true, events).contains(event_payload(cfg, events[i])),
{
    let pred = |ev: CalendarEvent| is_dispatched(cfg, ev);
    events.lemma_filter_contains(pred, i);
    let d = events.filter(pred);
    let j = choose|j: int| 0 <= j < d.len() && d[j] == events[i];
    let m = d.map_values(|ev: CalendarEvent| event_payload(cfg, ev));
    assert(m[j] == event_payload(cfg, events[i]));
}

/// The first tick of a job (no sync token) publishes nothing.
pub proof fn lemma_first_tick_silent(cfg: CalendarJobConfig, events: Seq<CalendarEvent>)
    ensures
        planned_payloads(cfg, false, events).len() == 0,
{
}

} // verus!
