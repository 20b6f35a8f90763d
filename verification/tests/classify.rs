use nexo_poller_google_calendar::classify::{classify_calendar_err, CalendarErrorClass};

#[test]
fn classify_410_as_permanent() {
    let err = "HTTP 410 Gone";
    assert!(classify_calendar_err(err).is_permanent());
}

#[test]
fn classify_invalid_grant_as_permanent() {
    let err = "invalid_grant: token expired";
    assert!(classify_calendar_err(err).is_permanent());
}

#[test]
fn classify_500_as_transient() {
    let err = "HTTP 500 server error";
    assert!(matches!(classify_calendar_err(err), CalendarErrorClass::Transient));
}

#[test]
fn classify_401_as_permanent_auth() {
    let err = "HTTP 401 unauthorized";
    assert!(classify_calendar_err(err).is_permanent());
}

#[test]
fn classify_classes_and_contexts() {
    assert_eq!(classify_calendar_err("Gone"), CalendarErrorClass::Permanent);
    assert_eq!(classify_calendar_err("HTTP 403 forbidden"), CalendarErrorClass::PermanentAuth);
    assert_eq!(classify_calendar_err("HTTP 401"), CalendarErrorClass::PermanentAuth);
    assert_eq!(classify_calendar_err("401 then 410"), CalendarErrorClass::Permanent);
    assert_eq!(classify_calendar_err("gone"), CalendarErrorClass::Transient);
    assert_eq!(classify_calendar_err(""), CalendarErrorClass::Transient);
    assert_eq!(CalendarErrorClass::Permanent.context(), "calendar");
    assert_eq!(CalendarErrorClass::PermanentAuth.context(), "calendar: auth");
    assert_eq!(CalendarErrorClass::Transient.context(), "calendar");
    assert!(!CalendarErrorClass::Transient.is_permanent());
}
