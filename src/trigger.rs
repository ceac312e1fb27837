use crate::clock::{field_minute, read_minute};
use crate::models::Reminder;
use vstd::prelude::*;

verus! {

/// The daily window has closed: the end time is readable and `now` lies after it.
pub open spec fn after_end(r: Reminder, now: int) -> bool {
    field_minute(r.end_at) is Some && now > field_minute(r.end_at)->0
}

/// The daily window has not opened: the start time is readable and `now` lies before it.
pub open spec fn before_start(r: Reminder, now: int) -> bool {
    field_minute(r.start_at) is Some && now < field_minute(r.start_at)->0
}

/// Whether a job body, finding `current` in the store at minute `now` of the day, fires.
pub open spec fn fires(current: Option<Reminder>, now: int) -> bool {
    match current {
        Some(r) => r.active() && !after_end(r, now) && !before_start(r, now),
        None => false,
    }
}

/// The daily window has closed at minute `now`: the end time is readable and
/// `now` lies strictly after it (the window includes its end minute). Recovery
/// leaves such a reminder unscheduled.
pub open spec fn ended_by(r: Reminder, now: int) -> bool {
    field_minute(r.end_at) is Some && field_minute(r.end_at)->0 < now
}

/// Decides whether a due job fires, given the reminder as it is stored now
/// (`None` when it is gone) and the minute of the day.
pub fn should_fire(current: &Option<Reminder>, now: u32) -> (r: bool)
    ensures
        r == fires(*current, now as int),
{
    match current {
        None => false,
        Some(reminder) => {
            if !reminder.is_active() {
                return false;
            }
            if let Some(end) = read_minute(&reminder.end_at) {
                if now > end {
                    return false;
                }
            }
            if let Some(start) = read_minute(&reminder.start_at) {
                if now < start {
                    return false;
                }
            }
            true
        },
    }
}

/// Whether minute `now` of the day lies strictly after the reminder's end time.
pub fn has_ended(reminder: &Reminder, now: u32) -> (r: bool)
    ensures
        r == ended_by(*reminder, now as int),
{
    match read_minute(&reminder.end_at) {
        Some(end) => end < now,
        None => false,
    }
}

} // verus!
