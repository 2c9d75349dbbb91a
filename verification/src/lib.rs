//! Verified core of a local-first mail, calendar and reminders client.
use vstd::prelude::*;

pub mod text;
pub mod time;
pub mod model;
pub mod ids;
pub mod pattern;
pub mod markup;
pub mod numbers;
pub mod ical;
pub mod ical_round_trip;
pub mod todo_round_trip;
pub mod tasks;
pub mod natural;
pub mod sync;
pub mod sync_run;
pub mod security;
pub mod config;
pub mod mail;
pub mod ews;
pub mod json;
pub mod jmap;
pub mod ai;
pub mod notify;
pub mod calendar;
pub mod oauth;
pub mod desktop;
pub mod native;
pub mod threads;
pub mod mime;
pub mod fetch;
pub mod cloud_calendar;
pub mod cloud_tasks;
pub mod jmap_requests;
pub mod texts;
pub mod ai_cloud;
pub mod account_setup;
pub mod compose;
pub mod settings_secrets;
pub mod html_view;

verus! {
}
