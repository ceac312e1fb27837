use reminders::clock::read_minute;
use reminders::models::Reminder;
use reminders::trigger::{has_ended, should_fire};

fn windowed(start: Option<&str>, end: Option<&str>) -> Reminder {
    Reminder::new(
        "Standup".to_string(),
        "#ff0000".to_string(),
        "g1".to_string(),
        Some("every minute".to_string()),
        None,
        start.map(|s| s.to_string()),
        end.map(|s| s.to_string()),
    )
}

#[test]
fn window_nine_to_five_fires_at_noon() {
    let r = windowed(Some("09:00"), Some("17:00"));
    assert!(should_fire(&Some(r), 12 * 60));
}

#[test]
fn window_nine_to_five_skips_at_eight_and_eighteen() {
    let r = windowed(Some("09:00"), Some("17:00"));
    assert!(!should_fire(&Some(r.clone()), 8 * 60));
    assert!(!should_fire(&Some(r), 18 * 60));
}

#[test]
fn window_skips_outside_hours_when_inactive_too() {
    let mut r = windowed(Some("09:00"), Some("17:00"));
    r.pause();
    assert!(!should_fire(&Some(r.clone()), 8 * 60));
    assert!(!should_fire(&Some(r.clone()), 18 * 60));
    assert!(!should_fire(&Some(r), 12 * 60));
}

#[test]
fn window_bounds_are_inclusive() {
    let r = windowed(Some("09:00"), Some("17:00"));
    assert!(should_fire(&Some(r.clone()), 9 * 60));
    assert!(should_fire(&Some(r.clone()), 17 * 60));
    assert!(!should_fire(&Some(r.clone()), 17 * 60 + 1));
    assert!(!should_fire(&Some(r), 9 * 60 - 1));
}

#[test]
fn malformed_window_does_not_block() {
    let r = windowed(Some("nine"), Some("later"));
    assert!(should_fire(&Some(r.clone()), 3 * 60));
    assert!(should_fire(&Some(r), 23 * 60));
}

#[test]
fn paused_reminder_never_fires() {
    let mut r = windowed(None, None);
    r.pause();
    for minute in [0u32, 9 * 60, 12 * 60, 23 * 60 + 59] {
        assert!(!should_fire(&Some(r.clone()), minute));
    }
}

#[test]
fn cancelled_or_deleted_reminder_never_fires() {
    let mut c = windowed(None, None);
    c.cancel();
    assert!(!should_fire(&Some(c), 12 * 60));
    let mut d = windowed(None, None);
    d.delete();
    assert!(!should_fire(&Some(d), 12 * 60));
}

#[test]
fn absent_reminder_never_fires() {
    assert!(!should_fire(&None, 12 * 60));
}

#[test]
fn end_passed_only_after_the_end_minute() {
    let r = windowed(None, Some("17:00"));
    assert!(!has_ended(&r, 17 * 60));
    assert!(has_ended(&r, 17 * 60 + 1));
    assert!(has_ended(&r, 20 * 60));
    assert!(!has_ended(&r, 16 * 60 + 59));
    let open = windowed(None, None);
    assert!(!has_ended(&open, 23 * 60 + 59));
}

#[test]
fn clock_text_reads_as_minutes() {
    assert_eq!(read_minute(&Some("09:30".to_string())), Some(570));
    assert_eq!(read_minute(&Some("23:59".to_string())), Some(1439));
    assert_eq!(read_minute(&Some("00:00".to_string())), Some(0));
    assert_eq!(read_minute(&Some("25:00".to_string())), None);
    assert_eq!(read_minute(&Some("soon".to_string())), None);
    assert_eq!(read_minute(&None), None);
}
