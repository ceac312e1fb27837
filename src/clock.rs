use chrono::Timelike;
use vstd::prelude::*;

verus! {

/// The hour and minute that a "HH:MM" text denotes, if it denotes one.
pub uninterp spec fn clock_reading(text: Seq<char>) -> Option<(u32, u32)>;

/// Relies on chrono::NaiveTime::parse_from_str with the format "%H:%M", read
/// back through Timelike::hour (0 to 23) and Timelike::minute (0 to 59).
#[verifier::external_body]
fn parse_clock(text: &str) -> (r: Option<(u32, u32)>)
    ensures
        r == clock_reading(text@),
        r matches Some(hm) ==> hm.0 < 24 && hm.1 < 60,
{
    match chrono::NaiveTime::parse_from_str(text, "%H:%M") {
        Ok(t) => Some((t.hour(), t.minute())),
        Err(_) => None,
    }
}

/// Relies on chrono::Local::now, read through Timelike::hour and Timelike::minute.
#[verifier::external_body]
fn wall_clock() -> (r: (u32, u32))
    ensures
        r.0 < 24,
        r.1 < 60,
{
    let t = chrono::Local::now();
    (t.hour(), t.minute())
}

/// Minutes since midnight of a text such as "09:30", if it is one.
pub open spec fn minute_of(text: Seq<char>) -> Option<int> {
    match clock_reading(text) {
        Some(hm) => Some(hm.0 * 60 + hm.1),
        None => None,
    }
}

/// Minutes since midnight of an optional time-of-day field; absent or malformed
/// text gives nothing.
pub open spec fn field_minute(field: Option<String>) -> Option<int> {
    match field {
        Some(t) => minute_of(t@),
        None => None,
    }
}

/// Reads an optional time-of-day field as minutes since midnight.
pub fn read_minute(field: &Option<String>) -> (r: Option<u32>)
    ensures
        r is Some <==> field_minute(*field) is Some,
        r is Some ==> r->0 == field_minute(*field)->0 && r->0 < 1440,
{
    match field {
        Some(t) => match parse_clock(t.as_str()) {
            Some(hm) => Some(hm.0 * 60 + hm.1),
            None => None,
        },
        None => None,
    }
}

/// The current wall-clock time of day, in minutes since midnight.
pub fn minute_now() -> (r: u32)
    ensures
        r < 1440,
{
    let hm = wall_clock();
    hm.0 * 60 + hm.1
}

} // verus!
