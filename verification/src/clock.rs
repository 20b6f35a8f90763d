//! Reading the system clock as an RFC 3339 UTC timestamp, with failures as values.

use vstd::prelude::*;

use std::time::{Duration, SystemTime};

verus! {

/// `std::time::SystemTime`, carried as an opaque value.
#[verifier::external_type_specification]
#[verifier::external_body]
pub struct ExSystemTime(SystemTime);

/// An ASCII decimal digit.
pub open spec fn is_digit(c: char) -> bool {
    '0' <= c <= '9'
}

/// `s` is exactly `n` decimal digits.
pub open spec fn digits(s: Seq<char>, n: nat) -> bool {
    s.len() == n && forall|i: int| 0 <= i < n ==> is_digit(#[trigger] s[i])
}

/// A year as RFC 3339 writes it: four digits, or (past 9999) `+` and five or six digits.
pub open spec fn is_year(s: Seq<char>) -> bool {
    ||| digits(s, 4)
    ||| (s.len() == 6 || s.len() == 7) && s[0] == '+' && digits(s.drop_first(), (s.len() - 1) as nat)
}

/// An optional fraction of a second: empty, or `.` and 3, 6 or 9 digits.
pub open spec fn is_fraction(s: Seq<char>) -> bool {
    ||| s.len() == 0
    ||| s.len() > 0 && s[0] == '.' && (digits(s.drop_first(), 3) || digits(s.drop_first(), 6)
        || digits(s.drop_first(), 9))
}

/// `YYYY-MM-DDTHH:MM:SS`, an optional fraction of 3, 6 or 9 digits, then `+00:00`.
pub open spec fn is_rfc3339_utc(s: Seq<char>) -> bool {
    exists|ylen: int|
        4 <= ylen <= 7 && ylen + 21 <= s.len() && #[trigger] is_year(s.take(ylen)) && {
            let r = s.skip(ylen);
            &&& r[0] == '-'
            &&& digits(r.subrange(1, 3), 2)
            &&& r[3] == '-'
            &&& digits(r.subrange(4, 6), 2)
            &&& r[6] == 'T'
            &&& digits(r.subrange(7, 9), 2)
            &&& r[9] == ':'
            &&& digits(r.subrange(10, 12), 2)
            &&& r[12] == ':'
            &&& digits(r.subrange(13, 15), 2)
            &&& is_fraction(r.subrange(15, r.len() - 6))
            &&& r.skip(r.len() - 6) == "+00:00"@
        }
}

/// The RFC 3339 text chrono writes for the UTC time `secs` seconds and `nanos`
/// nanoseconds after the Unix epoch.
pub uninterp spec fn rfc3339_utc_text(secs: int, nanos: int) -> Seq<char>;

/// `SystemTime::now()`: the current system time. It depends on the clock, so
/// nothing is stated of it.
#[verifier::external_body]
fn system_now() -> SystemTime {
    SystemTime::now()
}

/// `SystemTime::duration_since(UNIX_EPOCH).ok()`: the time elapsed since the
/// Unix epoch, or none when `t` is before it.
#[verifier::external_body]
fn since_unix_epoch(t: &SystemTime) -> Option<Duration> {
    t.duration_since(SystemTime::UNIX_EPOCH).ok()
}

/// `Duration::as_secs()`: the whole seconds of a duration.
#[verifier::external_body]
fn whole_secs(d: &Duration) -> u64 {
    d.as_secs()
}

/// `Duration::subsec_nanos()`: the fractional part in nanoseconds, always below
/// one billion.
#[verifier::external_body]
fn subsec_nanos(d: &Duration) -> (n: u32)
    ensures
        n < 1_000_000_000,
{
    d.subsec_nanos()
}

/// `DateTime::from_timestamp(secs, nanos)` written by `DateTime::to_rfc3339()`:
/// the UTC time as RFC 3339 text with offset `+00:00`, or none when chrono
/// cannot represent it. Every time up to the end of year 9999 can be.
#[verifier::external_body]
fn rfc3339_of(secs: i64, nanos: u32) -> (r: Option<String>)
    requires
        secs >= 0,
        nanos < 1_000_000_000,
    ensures
        secs <= 253_402_300_799 ==> r is Some,
        r matches Some(s) ==> s@ == rfc3339_utc_text(secs as int, nanos as int) && is_rfc3339_utc(
            s@,
        ),
{
    chrono::DateTime::from_timestamp(secs, nanos).map(|d| d.to_rfc3339())
}

/// The UTC time `secs` seconds and `nanos` nanoseconds after the Unix epoch as
/// RFC 3339 text, or none when chrono cannot represent it (always some up to the
/// end of year 9999; none past the largest `i64` second).
pub fn rfc3339_from_unix(secs: u64, nanos: u32) -> (r: Option<String>)
    requires
        nanos < 1_000_000_000,
    ensures
        secs <= 253_402_300_799 ==> r is Some,
        secs > 9_223_372_036_854_775_807 ==> r is None,
        r matches Some(s) ==> s@ == rfc3339_utc_text(secs as int, nanos as int) && is_rfc3339_utc(
            s@,
        ),
{
    if secs > 9_223_372_036_854_775_807u64 {
        None
    } else {
        rfc3339_of(secs as i64, nanos)
    }
}

/// The current UTC time as RFC 3339 text: the clock's reading since the Unix
/// epoch, formatted by `rfc3339_from_unix`. None when the clock reads before the
/// epoch or beyond what chrono can represent.
pub fn now_rfc3339() -> (r: Option<String>)
    ensures
        r matches Some(s) ==> is_rfc3339_utc(s@),
        r matches Some(s) ==> exists|secs: int, nanos: int|
            0 <= secs && 0 <= nanos < 1_000_000_000 && s@ == rfc3339_utc_text(secs, nanos),
{
    let now = system_now();
    match since_unix_epoch(&now) {
        Some(d) => {
            let secs = whole_secs(&d);
            let nanos = subsec_nanos(&d);
            let r = rfc3339_from_unix(secs, nanos);
            assert(r matches Some(s) ==> s@ == rfc3339_utc_text(secs as int, nanos as int));
            r
        },
        None => None,
    }
}

} // verus!
