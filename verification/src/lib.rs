//! Google Calendar v3 incremental-sync poller: the decisions and text
//! transformations of one poll tick, verified.

pub mod text;
pub mod urlencode;
pub mod config;
pub mod event;
pub mod classify;
pub mod clock;
pub mod tick;
pub mod startup;
