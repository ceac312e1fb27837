use reminders::error::AppError;
use reminders::models::{
    CreateGroupRequest, CreateReminderRequest, Reminder, ReminderGroup, UpdateReminderRequest,
};
use reminders::repository::{DataRepository, InMemoryRepository};
use reminders::scheduler::ReminderScheduler;
use reminders::service::ReminderService;

const WEEKDAYS: &str = "0 9 * * MON-FRI";

fn empty_service() -> ReminderService<InMemoryRepository> {
    ReminderService::new(InMemoryRepository::new(vec![], vec![]), ReminderScheduler::new())
}

fn group(s: &mut ReminderService<InMemoryRepository>, name: &str) -> ReminderGroup {
    s.create_group(CreateGroupRequest { name: name.to_string(), color: "blue".to_string() }).unwrap()
}

fn request(title: &str, group_id: &str, cron: Option<&str>) -> CreateReminderRequest {
    CreateReminderRequest {
        title: title.to_string(),
        color: "red".to_string(),
        group_id: group_id.to_string(),
        cron_expression: cron.map(|c| c.to_string()),
        description: None,
        start_at: None,
        end_at: None,
    }
}

fn no_change() -> UpdateReminderRequest {
    UpdateReminderRequest {
        title: None,
        color: None,
        cron_expression: None,
        description: None,
        start_at: None,
        end_at: None,
    }
}

fn stored(s: &ReminderService<InMemoryRepository>, id: &str) -> Reminder {
    s.get_reminders().unwrap().into_iter().find(|r| r.id == id).unwrap()
}

#[test]
fn standup_scenario_create_then_cancel() {
    let mut s = empty_service();
    let work = group(&mut s, "Work");
    assert_eq!(work.name, "Work");
    let standup = s.create_reminder(request("Standup", &work.id, Some(WEEKDAYS))).unwrap();
    assert!(s.has_job(&standup.id));
    s.cancel_reminder(&standup.id).unwrap();
    assert!(!s.has_job(&standup.id));
    let all = s.get_reminders().unwrap();
    assert_eq!(all.len(), 1);
    assert!(all[0].is_cancelled);
    assert_eq!(all[0].id, standup.id);
}

#[test]
fn recovery_registers_only_the_active_reminder() {
    let mut paused = Reminder::new("A".into(), "c".into(), "g".into(), Some("every minute".into()), None, None, Some("23:59".into()));
    paused.pause();
    let active = Reminder::new("B".into(), "c".into(), "g".into(), Some("every minute".into()), None, None, Some("23:59".into()));
    let g = ReminderGroup::new("G".into(), "c".into());
    let repo = InMemoryRepository::new(vec![g], vec![paused.clone(), active.clone()]);
    let mut s = ReminderService::new(repo, ReminderScheduler::new());
    s.restore_jobs_at(10 * 60).unwrap();
    assert!(s.has_job(&active.id));
    assert!(!s.has_job(&paused.id));
}

#[test]
fn recovery_at_current_time_skips_paused() {
    let mut paused = Reminder::new("A".into(), "c".into(), "g".into(), Some("every minute".into()), None, None, None);
    paused.pause();
    let active = Reminder::new("B".into(), "c".into(), "g".into(), Some("every minute".into()), None, None, None);
    let repo = InMemoryRepository::new(vec![], vec![paused.clone(), active.clone()]);
    let mut s = ReminderService::new(repo, ReminderScheduler::new());
    s.restore_reminder_jobs().unwrap();
    assert!(s.has_job(&active.id));
    assert!(!s.has_job(&paused.id));
}

#[test]
fn recovery_skips_reminders_past_their_end() {
    let ended = Reminder::new("A".into(), "c".into(), "g".into(), Some("every minute".into()), None, None, Some("08:00".into()));
    let no_cron = Reminder::new("B".into(), "c".into(), "g".into(), None, None, None, None);
    let repo = InMemoryRepository::new(vec![], vec![ended.clone(), no_cron.clone()]);
    let mut s = ReminderService::new(repo, ReminderScheduler::new());
    s.restore_jobs_at(8 * 60 + 1).unwrap();
    assert!(!s.has_job(&ended.id));
    assert!(!s.has_job(&no_cron.id));
}

#[test]
fn pause_then_resume_restores_the_job() {
    let mut s = empty_service();
    let g = group(&mut s, "Home");
    let r = s.create_reminder(request("Plants", &g.id, Some("every minute"))).unwrap();
    let before = stored(&s, &r.id);
    s.pause_reminder(&r.id).unwrap();
    assert!(!s.has_job(&r.id));
    assert!(stored(&s, &r.id).is_paused);
    s.resume_reminder(&r.id).unwrap();
    assert!(s.has_job(&r.id));
    let after = stored(&s, &r.id);
    assert_eq!(after.is_paused, before.is_paused);
    assert_eq!(after.cron_expression, before.cron_expression);
}

#[test]
fn resume_of_cancelled_reminder_adds_no_job() {
    let mut s = empty_service();
    let g = group(&mut s, "Home");
    let r = s.create_reminder(request("Plants", &g.id, Some("every minute"))).unwrap();
    s.cancel_reminder(&r.id).unwrap();
    s.resume_reminder(&r.id).unwrap();
    assert!(!s.has_job(&r.id));
}

#[test]
fn deleting_a_group_removes_its_reminders_and_jobs() {
    let mut s = empty_service();
    let work = group(&mut s, "Work");
    let home = group(&mut s, "Home");
    let a = s.create_reminder(request("A", &work.id, Some("every minute"))).unwrap();
    let b = s.create_reminder(request("B", &work.id, Some("every minute"))).unwrap();
    let c = s.create_reminder(request("C", &home.id, Some("every minute"))).unwrap();
    s.delete_group(&work.id).unwrap();
    assert!(!s.has_job(&a.id));
    assert!(!s.has_job(&b.id));
    assert!(s.has_job(&c.id));
    let left = s.get_reminders().unwrap();
    assert_eq!(left.len(), 1);
    assert_eq!(left[0].id, c.id);
    assert!(left.iter().all(|r| r.group_id != work.id));
    let groups = s.get_groups().unwrap();
    assert_eq!(groups.len(), 1);
    assert_eq!(groups[0].id, home.id);
}

#[test]
fn deleting_a_missing_group_is_not_found() {
    let mut s = empty_service();
    group(&mut s, "Work");
    assert!(matches!(s.delete_group("nope"), Err(AppError::NotFound(_))));
    assert_eq!(s.get_groups().unwrap().len(), 1);
}

#[test]
fn creating_in_a_missing_group_is_not_found() {
    let mut s = empty_service();
    assert!(matches!(s.create_reminder(request("A", "nope", None)), Err(AppError::NotFound(_))));
    assert!(s.get_reminders().unwrap().is_empty());
}

#[test]
fn reminder_without_cron_gets_no_job() {
    let mut s = empty_service();
    let g = group(&mut s, "G");
    let r = s.create_reminder(request("A", &g.id, None)).unwrap();
    assert!(!s.has_job(&r.id));
    assert_eq!(s.get_reminders().unwrap().len(), 1);
}

#[test]
fn updating_only_labels_keeps_the_job() {
    let mut s = empty_service();
    let g = group(&mut s, "G");
    let r = s.create_reminder(request("A", &g.id, Some("every minute"))).unwrap();
    let mut req = no_change();
    req.title = Some("B".to_string());
    req.color = Some("green".to_string());
    req.description = Some("d".to_string());
    let updated = s.update_reminder(&r.id, req).unwrap();
    assert_eq!(updated.title, "B");
    assert_eq!(updated.color, "green");
    assert_eq!(updated.description.as_deref(), Some("d"));
    assert!(s.has_job(&r.id));
    assert_eq!(stored(&s, &r.id).title, "B");
}

#[test]
fn updating_the_cron_expression_reschedules() {
    let mut s = empty_service();
    let g = group(&mut s, "G");
    let r = s.create_reminder(request("A", &g.id, None)).unwrap();
    assert!(!s.has_job(&r.id));
    let mut req = no_change();
    req.cron_expression = Some("every minute".to_string());
    let updated = s.update_reminder(&r.id, req).unwrap();
    assert_eq!(updated.cron_expression.as_deref(), Some("every minute"));
    assert!(s.has_job(&r.id));
}

#[test]
fn updating_a_paused_reminder_schedule_adds_no_job() {
    let mut s = empty_service();
    let g = group(&mut s, "G");
    let r = s.create_reminder(request("A", &g.id, Some("every minute"))).unwrap();
    s.pause_reminder(&r.id).unwrap();
    let mut req = no_change();
    req.start_at = Some("08:00".to_string());
    s.update_reminder(&r.id, req).unwrap();
    assert!(!s.has_job(&r.id));
}

#[test]
fn operations_on_a_missing_reminder_are_not_found() {
    let mut s = empty_service();
    assert!(matches!(s.update_reminder("x", no_change()), Err(AppError::NotFound(_))));
    assert!(matches!(s.pause_reminder("x"), Err(AppError::NotFound(_))));
    assert!(matches!(s.resume_reminder("x"), Err(AppError::NotFound(_))));
    assert!(matches!(s.cancel_reminder("x"), Err(AppError::NotFound(_))));
    assert!(matches!(s.delete_reminder("x"), Err(AppError::NotFound(_))));
}

#[test]
fn soft_delete_keeps_the_record_and_drops_the_job() {
    let mut s = empty_service();
    let g = group(&mut s, "G");
    let r = s.create_reminder(request("A", &g.id, Some("every minute"))).unwrap();
    s.delete_reminder(&r.id).unwrap();
    assert!(!s.has_job(&r.id));
    assert!(stored(&s, &r.id).is_deleted);
}

#[test]
fn firing_stamps_and_returns_titles() {
    let mut s = empty_service();
    let g = group(&mut s, "G");
    let mut req = request("Stretch", &g.id, Some("every minute"));
    req.start_at = Some("09:00".to_string());
    req.end_at = Some("17:00".to_string());
    let r = s.create_reminder(req).unwrap();
    let titles = s.fire_due(&vec![r.id.clone()], 12 * 60, 777);
    assert_eq!(titles, vec!["Stretch".to_string()]);
    assert_eq!(stored(&s, &r.id).last_triggered, Some(777));
    let later = s.fire_due(&vec![r.id.clone()], 18 * 60, 999);
    assert!(later.is_empty());
    assert_eq!(stored(&s, &r.id).last_triggered, Some(777));
    assert!(s.fire_due(&vec!["gone".to_string()], 12 * 60, 1).is_empty());
}

#[test]
fn paused_reminder_due_job_does_not_fire() {
    let mut s = empty_service();
    let g = group(&mut s, "G");
    let r = s.create_reminder(request("A", &g.id, Some("every minute"))).unwrap();
    s.pause_reminder(&r.id).unwrap();
    assert!(s.fire_due(&vec![r.id.clone()], 12 * 60, 5).is_empty());
    assert_eq!(stored(&s, &r.id).last_triggered, None);
}

#[test]
fn a_tick_right_after_scheduling_fires_nothing() {
    let mut s = empty_service();
    let g = group(&mut s, "G");
    s.create_reminder(request("A", &g.id, Some("every minute"))).unwrap();
    assert!(s.tick().is_empty());
}

#[test]
fn registry_add_and_remove() {
    let mut reg = ReminderScheduler::new();
    let r = Reminder::new("A".into(), "c".into(), "g".into(), Some("every minute".into()), None, None, None);
    assert!(!reg.has_job(&r.id));
    reg.add_reminder_job(&r).unwrap();
    assert!(reg.has_job(&r.id));
    reg.add_reminder_job(&r).unwrap();
    assert!(reg.has_job(&r.id));
    reg.remove_reminder_job(&r.id).unwrap();
    assert!(!reg.has_job(&r.id));
    reg.remove_reminder_job(&r.id).unwrap();
    assert!(!reg.has_job(&r.id));
    assert!(reg.due_reminders().is_empty());
}

#[test]
fn registry_rejects_missing_or_bad_cron() {
    let mut reg = ReminderScheduler::new();
    let none = Reminder::new("A".into(), "c".into(), "g".into(), None, None, None, None);
    assert!(matches!(reg.add_reminder_job(&none), Err(AppError::Validation(_))));
    let bad = Reminder::new("B".into(), "c".into(), "g".into(), Some("".into()), None, None, None);
    assert!(matches!(reg.add_reminder_job(&bad), Err(AppError::Scheduler(_))));
    assert!(!reg.has_job(&none.id));
    assert!(!reg.has_job(&bad.id));
}

#[test]
fn store_operations() {
    let a = Reminder::new("A".into(), "c".into(), "g1".into(), None, None, None, None);
    let b = Reminder::new("B".into(), "c".into(), "g2".into(), None, None, None, None);
    let mut repo = InMemoryRepository::new(vec![], vec![a.clone()]);
    assert!(matches!(repo.add_reminder(a.clone()), Err(AppError::Validation(_))));
    repo.add_reminder(b.clone()).unwrap();
    assert_eq!(repo.get_reminders().unwrap().len(), 2);
    assert_eq!(repo.find_reminders_by_group("g2").unwrap().len(), 1);
    assert_eq!(repo.find_reminder(&b.id).unwrap().unwrap().title, "B");
    assert!(repo.find_reminder("zz").unwrap().is_none());
    let mut changed = b.clone();
    changed.title = "BB".to_string();
    repo.update_reminder(&changed).unwrap();
    assert_eq!(repo.find_reminder(&b.id).unwrap().unwrap().title, "BB");
    let stranger = Reminder::new("C".into(), "c".into(), "g".into(), None, None, None, None);
    assert!(matches!(repo.update_reminder(&stranger), Err(AppError::NotFound(_))));
    assert!(matches!(repo.remove_reminder("zz"), Err(AppError::NotFound(_))));
    repo.remove_reminder(&a.id).unwrap();
    assert_eq!(repo.get_reminders().unwrap().len(), 1);
    let g = ReminderGroup::new("G".into(), "c".into());
    repo.add_group(g.clone()).unwrap();
    assert_eq!(repo.get_groups().unwrap().len(), 1);
    repo.remove_group(&g.id).unwrap();
    assert!(repo.get_groups().unwrap().is_empty());
}

/// Ticks until something fires or the time runs out; returns what fired.
fn tick_for(s: &mut ReminderService<InMemoryRepository>, millis: u64) -> Vec<String> {
    let start = std::time::Instant::now();
    while start.elapsed() < std::time::Duration::from_millis(millis) {
        let titles = s.tick();
        if !titles.is_empty() {
            return titles;
        }
    }
    Vec::new()
}

#[test]
fn a_due_job_fires_through_the_tick() {
    let mut s = empty_service();
    let g = group(&mut s, "G");
    let r = s.create_reminder(request("Blink", &g.id, Some("every 1 second"))).unwrap();
    assert!(s.has_job(&r.id));
    let titles = tick_for(&mut s, 5000);
    assert_eq!(titles, vec!["Blink".to_string()]);
    assert!(stored(&s, &r.id).last_triggered.is_some());
}

#[test]
fn a_paused_reminder_is_never_fired_by_the_tick() {
    let mut s = empty_service();
    let g = group(&mut s, "G");
    let r = s.create_reminder(request("Blink", &g.id, Some("every 1 second"))).unwrap();
    s.pause_reminder(&r.id).unwrap();
    assert!(tick_for(&mut s, 2500).is_empty());
    assert_eq!(stored(&s, &r.id).last_triggered, None);
}

#[test]
fn recovery_at_the_end_minute_still_schedules() {
    let closing = Reminder::new("A".into(), "c".into(), "g".into(), Some("every minute".into()), None, None, Some("08:00".into()));
    let repo = InMemoryRepository::new(vec![], vec![closing.clone()]);
    let mut s = ReminderService::new(repo, ReminderScheduler::new());
    s.restore_jobs_at(8 * 60).unwrap();
    assert!(s.has_job(&closing.id));
}

#[test]
fn unreadable_cron_on_create_is_a_validation_error_and_stores_nothing() {
    let mut s = empty_service();
    let g = group(&mut s, "G");
    match s.create_reminder(request("A", &g.id, Some("whenever"))) {
        Err(AppError::Validation(m)) => assert_eq!(m, "Cannot read the schedule \"whenever\""),
        other => panic!("unexpected {:?}", other),
    }
    assert!(s.get_reminders().unwrap().is_empty());
}

#[test]
fn unreadable_cron_on_update_is_a_validation_error_and_changes_nothing() {
    let mut s = empty_service();
    let g = group(&mut s, "G");
    let r = s.create_reminder(request("A", &g.id, Some("every minute"))).unwrap();
    let mut req = no_change();
    req.title = Some("B".to_string());
    req.cron_expression = Some("whenever".to_string());
    match s.update_reminder(&r.id, req) {
        Err(AppError::Validation(m)) => assert_eq!(m, "Cannot read the schedule \"whenever\""),
        other => panic!("unexpected {:?}", other),
    }
    let kept = stored(&s, &r.id);
    assert_eq!(kept.title, "A");
    assert_eq!(kept.cron_expression.as_deref(), Some("every minute"));
    assert!(s.has_job(&r.id));
}

#[test]
fn not_found_messages_name_the_identifier() {
    let mut s = empty_service();
    match s.pause_reminder("abc") {
        Err(AppError::NotFound(m)) => assert_eq!(m, "Reminder with id abc not found"),
        other => panic!("unexpected {:?}", other),
    }
    match s.delete_group("g9") {
        Err(AppError::NotFound(m)) => assert_eq!(m, "Group with id g9 not found"),
        other => panic!("unexpected {:?}", other),
    }
    match s.create_reminder(request("A", "g9", None)) {
        Err(AppError::NotFound(m)) => assert_eq!(m, "Group with id g9 not found"),
        other => panic!("unexpected {:?}", other),
    }
}

#[test]
fn creating_under_a_taken_identifier_is_refused() {
    let mut s = empty_service();
    let g = s
        .create_group_with_id(CreateGroupRequest { name: "G".into(), color: "c".into() }, "g1".to_string())
        .unwrap();
    assert_eq!(g.id, "g1");
    assert!(matches!(
        s.create_group_with_id(CreateGroupRequest { name: "H".into(), color: "c".into() }, "g1".to_string()),
        Err(AppError::Validation(_))
    ));
    assert_eq!(s.get_groups().unwrap().len(), 1);
    let r = s.create_reminder_with_id(request("A", "g1", Some(WEEKDAYS)), "r1".to_string()).unwrap();
    assert_eq!(r.id, "r1");
    assert!(s.has_job("r1"));
    assert!(matches!(
        s.create_reminder_with_id(request("B", "g1", None), "r1".to_string()),
        Err(AppError::Validation(_))
    ));
    assert_eq!(s.get_reminders().unwrap().len(), 1);
    assert_eq!(stored(&s, "r1").title, "A");
}

#[test]
fn created_group_ids_are_new() {
    let mut s = empty_service();
    let a = group(&mut s, "A");
    let b = group(&mut s, "B");
    assert_ne!(a.id, b.id);
}
