//! Per-job configuration of the calendar poller.

use vstd::prelude::*;

verus! {

/// Where rendered event messages are delivered.
#[derive(Debug, Clone)]
pub struct DeliverCfg {
    /// Outbound channel, e.g. `whatsapp` or `telegram`.
    pub channel: String,
    /// Recipient on that channel (also accepted under the key `recipient`).
    pub to: String,
}

/// Configuration of one calendar polling job.
#[derive(Debug, Clone)]
pub struct CalendarJobConfig {
    /// Calendar id. `"primary"` resolves to the agent's primary calendar.
    pub calendar_id: String,
    /// Mustache-light template. Fields: `{summary}`, `{start}`, `{end}`,
    /// `{location}`, `{status}`, `{html_link}`.
    pub message_template: String,
    /// Skip events whose `status` is `"cancelled"`. Default true.
    pub skip_cancelled: bool,
    /// Delivery target.
    pub deliver: DeliverCfg,
}

/// The calendar used when a job names none.
pub open spec fn spec_default_calendar_id() -> Seq<char> {
    "primary"@
}

/// The message template used when a job gives none.
pub open spec fn spec_default_template() -> Seq<char> {
    "📅 {summary} — {start}\n{html_link}"@
}

/// The calendar used when a job names none: `primary`.
pub fn default_calendar_id() -> (s: String)
    ensures
        s@ == spec_default_calendar_id(),
{
    String::from_str("primary")
}

/// Cancelled events are skipped unless a job says otherwise.
pub fn default_skip_cancelled() -> (b: bool)
    ensures
        b,
{
    true
}

/// The message template used when a job gives none.
pub fn default_template() -> (s: String)
    ensures
        s@ == spec_default_template(),
{
    String::from_str("📅 {summary} — {start}\n{html_link}")
}

} // verus!
