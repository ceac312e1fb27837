use vstd::prelude::*;

verus! {

/// Relies on uuid::Uuid::new_v4 and its hyphenated text form: a random identifier.
#[verifier::external_body]
pub(crate) fn fresh_id() -> (r: String) {
    uuid::Uuid::new_v4().to_string()
}

/// Relies on chrono::Utc::now and DateTime::timestamp: seconds since the Unix epoch.
#[verifier::external_body]
pub(crate) fn unix_now() -> (r: i64) {
    chrono::Utc::now().timestamp()
}

/// A named, coloured collection of reminders.
#[derive(Debug, Clone)]
pub struct ReminderGroup {
    pub id: String,
    pub name: String,
    pub color: String,
    pub start_at: i64,
}

impl ReminderGroup {
    /// A group with a fresh identifier, stamped with the current time.
    pub fn new(name: String, color: String) -> (r: Self)
        ensures
            r.name == name,
            r.color == color,
    {
        ReminderGroup { id: fresh_id(), name, color, start_at: unix_now() }
    }

    /// An exact copy of this group.
    pub fn duplicate(&self) -> (r: Self)
        ensures
            r == *self,
    {
        ReminderGroup {
            id: self.id.clone(),
            name: self.name.clone(),
            color: self.color.clone(),
            start_at: self.start_at,
        }
    }
}

/// A recurring reminder. Its three flags are independent; it fires only while
/// none of them is set.
#[derive(Debug, Clone)]
pub struct Reminder {
    pub id: String,
    pub title: String,
    pub color: String,
    pub group_id: String,
    pub cron_expression: Option<String>,
    pub start_at: Option<String>,
    pub last_triggered: Option<i64>,
    pub is_cancelled: bool,
    pub is_deleted: bool,
    pub is_paused: bool,
    pub description: Option<String>,
    pub created_at: Option<String>,
    pub end_at: Option<String>,
}

/// An exact copy of an optional string.
fn copy_text(s: &Option<String>) -> (r: Option<String>)
    ensures
        r == *s,
{
    match s {
        Some(t) => Some(t.clone()),
        None => None,
    }
}

impl Reminder {
    /// Neither cancelled, deleted nor paused.
    pub open spec fn active(&self) -> bool {
        !self.is_cancelled && !self.is_deleted && !self.is_paused
    }

    /// The reminder with the fields that an update provides overwritten.
    pub open spec fn updated(
        self,
        title: Option<String>,
        color: Option<String>,
        cron_expression: Option<String>,
        description: Option<String>,
        start_at: Option<String>,
        end_at: Option<String>,
    ) -> Reminder {
        Reminder {
            title: if title is Some { title->0 } else { self.title },
            color: if color is Some { color->0 } else { self.color },
            cron_expression: if cron_expression is Some { cron_expression } else { self.cron_expression },
            description: if description is Some { description } else { self.description },
            start_at: if start_at is Some { start_at } else { self.start_at },
            end_at: if end_at is Some { end_at } else { self.end_at },
            ..self
        }
    }

    /// A new, active reminder with a fresh identifier that has never fired.
    pub fn new(
        title: String,
        color: String,
        group_id: String,
        cron_expression: Option<String>,
        description: Option<String>,
        start_at: Option<String>,
        end_at: Option<String>,
    ) -> (r: Self)
        ensures
            r.title == title,
            r.color == color,
            r.group_id == group_id,
            r.cron_expression == cron_expression,
            r.description == description,
            r.start_at == start_at,
            r.end_at == end_at,
            r.last_triggered is None,
            r.created_at is None,
            !r.is_cancelled && !r.is_deleted && !r.is_paused,
    {
        Reminder {
            id: fresh_id(),
            title,
            color,
            group_id,
            start_at,
            last_triggered: None,
            is_cancelled: false,
            is_deleted: false,
            is_paused: false,
            cron_expression,
            description,
            created_at: None,
            end_at,
        }
    }

    /// An exact copy of this reminder.
    pub fn duplicate(&self) -> (r: Self)
        ensures
            r == *self,
    {
        Reminder {
            id: self.id.clone(),
            title: self.title.clone(),
            color: self.color.clone(),
            group_id: self.group_id.clone(),
            cron_expression: copy_text(&self.cron_expression),
            start_at: copy_text(&self.start_at),
            last_triggered: self.last_triggered,
            is_cancelled: self.is_cancelled,
            is_deleted: self.is_deleted,
            is_paused: self.is_paused,
            description: copy_text(&self.description),
            created_at: copy_text(&self.created_at),
            end_at: copy_text(&self.end_at),
        }
    }

    pub fn is_active(&self) -> (r: bool)
        ensures
            r == self.active(),
    {
        !self.is_cancelled && !self.is_deleted && !self.is_paused
    }

    pub fn cancel(&mut self)
        ensures
            *final(self) == (Reminder { is_cancelled: true, ..*old(self) }),
    {
        self.is_cancelled = true;
    }

    pub fn delete(&mut self)
        ensures
            *final(self) == (Reminder { is_deleted: true, ..*old(self) }),
    {
        self.is_deleted = true;
    }

    pub fn pause(&mut self)
        ensures
            *final(self) == (Reminder { is_paused: true, ..*old(self) }),
    {
        self.is_paused = true;
    }

    pub fn resume(&mut self)
        ensures
            *final(self) == (Reminder { is_paused: false, ..*old(self) }),
    {
        self.is_paused = false;
    }

    /// Records that the reminder fired at the given time (seconds since the epoch).
    pub fn mark_triggered(&mut self, at: i64)
        ensures
            *final(self) == (Reminder { last_triggered: Some(at), ..*old(self) }),
    {
        self.last_triggered = Some(at);
    }

    /// Records that the reminder fired now.
    pub fn update_last_triggered(&mut self)
        ensures
            final(self).last_triggered is Some,
            *final(self) == (Reminder { last_triggered: final(self).last_triggered, ..*old(self) }),
    {
        let now = unix_now();
        self.mark_triggered(now);
    }

    /// Overwrites the fields that are provided and says whether the schedule
    /// (cron expression, start or end of the daily window) was among them.
    pub fn update(
        &mut self,
        title: Option<String>,
        color: Option<String>,
        cron_expression: Option<String>,
        description: Option<String>,
        start_at: Option<String>,
        end_at: Option<String>,
    ) -> (schedule_changed: bool)
        ensures
            *final(self) == old(self).updated(title, color, cron_expression, description, start_at, end_at),
            schedule_changed == (cron_expression is Some || start_at is Some || end_at is Some),
    {
        let mut schedule_changed = false;
        if let Some(title) = title {
            self.title = title;
        }
        if let Some(color) = color {
            self.color = color;
        }
        if let Some(cron_expression) = cron_expression {
            self.cron_expression = Some(cron_expression);
            schedule_changed = true;
        }
        if let Some(description) = description {
            self.description = Some(description);
        }
        if let Some(start_at) = start_at {
            self.start_at = Some(start_at);
            schedule_changed = true;
        }
        if let Some(end_at) = end_at {
            self.end_at = Some(end_at);
            schedule_changed = true;
        }
        schedule_changed
    }
}

/// The fields of a reminder to be created.
#[derive(Debug, Clone)]
pub struct CreateReminderRequest {
    pub title: String,
    pub color: String,
    pub group_id: String,
    pub cron_expression: Option<String>,
    pub description: Option<String>,
    pub start_at: Option<String>,
    pub end_at: Option<String>,
}

/// The fields of a reminder to overwrite; absent ones are kept.
#[derive(Debug, Clone)]
pub struct UpdateReminderRequest {
    pub title: Option<String>,
    pub color: Option<String>,
    pub cron_expression: Option<String>,
    pub description: Option<String>,
    pub start_at: Option<String>,
    pub end_at: Option<String>,
}

impl UpdateReminderRequest {
    /// Whether the request touches the cron expression or the daily window.
    pub open spec fn touches_schedule(&self) -> bool {
        self.cron_expression is Some || self.start_at is Some || self.end_at is Some
    }
}

/// The fields of a group to be created.
#[derive(Debug, Clone)]
pub struct CreateGroupRequest {
    pub name: String,
    pub color: String,
}

} // verus!
