use reminders::error::{join_text, AppError};
use reminders::models::{Reminder, ReminderGroup};
use reminders::schedule::{field_count_of, to_cron_expression};

fn sample() -> Reminder {
    Reminder::new(
        "Water".to_string(),
        "blue".to_string(),
        "g".to_string(),
        None,
        Some("plants".to_string()),
        None,
        None,
    )
}

#[test]
fn new_reminder_is_active_and_unfired() {
    let r = sample();
    assert!(r.is_active());
    assert!(!r.is_cancelled && !r.is_deleted && !r.is_paused);
    assert_eq!(r.last_triggered, None);
    assert_eq!(r.created_at, None);
    assert_eq!(r.title, "Water");
    assert_eq!(r.description.as_deref(), Some("plants"));
    assert_eq!(r.id.len(), 36);
}

#[test]
fn fresh_identifiers_differ() {
    assert_ne!(sample().id, sample().id);
    let g1 = ReminderGroup::new("Work".to_string(), "red".to_string());
    let g2 = ReminderGroup::new("Work".to_string(), "red".to_string());
    assert_ne!(g1.id, g2.id);
    assert_eq!(g1.name, "Work");
    assert!(g1.start_at > 1_500_000_000);
}

#[test]
fn flags_are_independent() {
    let mut r = sample();
    r.pause();
    assert!(r.is_paused && !r.is_active());
    r.cancel();
    r.resume();
    assert!(!r.is_paused && r.is_cancelled && !r.is_active());
    r.delete();
    assert!(r.is_deleted);
}

#[test]
fn update_reports_schedule_change() {
    let mut r = sample();
    let changed = r.update(Some("Tea".to_string()), Some("green".to_string()), None, Some("hot".to_string()), None, None);
    assert!(!changed);
    assert_eq!(r.title, "Tea");
    assert_eq!(r.color, "green");
    assert_eq!(r.description.as_deref(), Some("hot"));
    assert!(r.update(None, None, Some("every minute".to_string()), None, None, None));
    assert_eq!(r.cron_expression.as_deref(), Some("every minute"));
    assert!(r.update(None, None, None, None, Some("08:00".to_string()), None));
    assert!(r.update(None, None, None, None, None, Some("18:00".to_string())));
    assert_eq!(r.start_at.as_deref(), Some("08:00"));
    assert_eq!(r.end_at.as_deref(), Some("18:00"));
    assert_eq!(r.title, "Tea");
}

#[test]
fn triggering_stamps_the_time() {
    let mut r = sample();
    r.mark_triggered(1234);
    assert_eq!(r.last_triggered, Some(1234));
    r.update_last_triggered();
    assert!(r.last_triggered.unwrap() > 1_500_000_000);
}

#[test]
fn error_messages_name_the_kind() {
    assert_eq!(AppError::NotFound("x".to_string()).message(), "Not found: x");
    assert_eq!(AppError::Validation("v".to_string()).message(), "Validation error: v");
    assert_eq!(AppError::Scheduler("s".to_string()).message(), "Scheduler error: s");
    assert_eq!(AppError::DataAccess("d".to_string()).message(), "Data access error: d");
    assert_eq!(AppError::Persistence("p".to_string()).message(), "Persistence error: p");
    assert_eq!(AppError::Internal("i".to_string()).message(), "Internal error: i");
    assert_eq!(join_text("ab", "cd"), "abcd");
}

#[test]
fn phrases_translate_to_cron() {
    assert_eq!(to_cron_expression("every minute").unwrap(), "0 * * * * ? *");
    assert_eq!(to_cron_expression("every day at 4:00 pm").unwrap(), "0 0 16 */1 * ? *");
}

#[test]
fn untranslatable_phrase_is_a_validation_error_quoting_it() {
    match to_cron_expression("") {
        Err(AppError::Validation(m)) => assert_eq!(m, "Cannot read the schedule \"\""),
        other => panic!("unexpected {:?}", other),
    }
}

#[test]
fn cron_expressions_are_kept_and_given_seconds() {
    assert_eq!(to_cron_expression("0 9 * * MON-FRI").unwrap(), "0 0 9 * * MON-FRI");
    assert_eq!(to_cron_expression("0 30 9 * * Mon *").unwrap(), "0 30 9 * * Mon *");
    assert_eq!(to_cron_expression("0 * * * * ? *").unwrap(), "0 * * * * ? *");
}

#[test]
fn fields_are_counted_between_blanks() {
    assert_eq!(field_count_of("0 9 * * MON-FRI"), 5);
    assert_eq!(field_count_of("  a\tb  c "), 3);
    assert_eq!(field_count_of(""), 0);
}
