//! Classification of Calendar API failures into permanent and transient errors.

use vstd::prelude::*;

use crate::text::{contains, contains_text};

verus! {

/// How a failed Calendar call is reported to the poller runner.
#[derive(Debug, Clone, Copy, PartialEq, Eq)]
pub enum CalendarErrorClass {
    /// The sync token expired or the grant is invalid: the job pauses until reset.
    Permanent,
    /// Authentication or authorization failed.
    PermanentAuth,
    /// Anything else: the runner retries.
    Transient,
}

/// The class of a failure, from its message: HTTP 410, `Gone` or `invalid_grant`
/// are permanent; otherwise 401 or 403 are permanent authentication failures;
/// anything else is transient.
pub open spec fn classification(message: Seq<char>) -> CalendarErrorClass {
    if contains_text(message, "410"@) || contains_text(message, "Gone"@) || contains_text(
        message,
        "invalid_grant"@,
    ) {
        CalendarErrorClass::Permanent
    } else if contains_text(message, "401"@) || contains_text(message, "403"@) {
        CalendarErrorClass::PermanentAuth
    } else {
        CalendarErrorClass::Transient
    }
}

/// Only the five markers decide: a failure whose message shows `410`, `Gone` or
/// `invalid_grant` is permanent; otherwise one that shows `401` or `403` is a
/// permanent authentication failure; a message with none of them is transient,
/// so the runner retries it.
pub proof fn lemma_classification_markers(message: Seq<char>)
    ensures
        contains_text(message, "410"@) || contains_text(message, "Gone"@) || contains_text(
            message,
            "invalid_grant"@,
        ) ==> classification(message) == CalendarErrorClass::Permanent,
        !contains_text(message, "410"@) && !contains_text(message, "Gone"@) && !contains_text(
            message,
            "invalid_grant"@,
        ) && (contains_text(message, "401"@) || contains_text(message, "403"@))
            ==> classification(message) == CalendarErrorClass::PermanentAuth,
        !contains_text(message, "410"@) && !contains_text(message, "Gone"@) && !contains_text(
            message,
            "invalid_grant"@,
        ) && !contains_text(message, "401"@) && !contains_text(message, "403"@)
            ==> classification(message) == CalendarErrorClass::Transient,
{
}

impl CalendarErrorClass {
    /// Whether the runner should pause the job rather than retry.
    pub fn is_permanent(&self) -> (r: bool)
        ensures
            r == !(*self is Transient),
    {
        match self {
            CalendarErrorClass::Transient => false,
            _ => true,
        }
    }

    /// The context attached to the error: `calendar: auth` for authentication
    /// failures, `calendar` otherwise.
    pub fn context(&self) -> (r: &'static str)
        ensures
            r@ == (if *self is PermanentAuth {
                "calendar: auth"@
            } else {
                "calendar"@
            }),
    {
        match self {
            CalendarErrorClass::PermanentAuth => "calendar: auth",
            _ => "calendar",
        }
    }
}

/// Classifies a failed Calendar call by the text of its error.
pub fn classify_calendar_err(message: &str) -> (c: CalendarErrorClass)
    ensures
        c == classification(message@),
{
    if contains(message, "410") || contains(message, "Gone") || contains(message, "invalid_grant") {
        CalendarErrorClass::Permanent
    } else if contains(message, "401") || contains(message, "403") {
        CalendarErrorClass::PermanentAuth
    } else {
        CalendarErrorClass::Transient
    }
}

} // verus!
