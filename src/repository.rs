use crate::error::{join_text, AppError, AppResult};
use crate::models::{Reminder, ReminderGroup};
use vstd::prelude::*;

verus! {

/// Some reminder in `rs` carries the identifier `id`.
pub open spec fn holds_id(rs: Seq<Reminder>, id: Seq<char>) -> bool {
    exists|i: int| 0 <= i < rs.len() && (#[trigger] rs[i]).id@ == id
}

/// The position of the reminder that carries `id` (meaningful when one does).
pub open spec fn index_of_id(rs: Seq<Reminder>, id: Seq<char>) -> int {
    choose|i: int| 0 <= i < rs.len() && (#[trigger] rs[i]).id@ == id
}

/// The reminder that carries `id`, if any.
pub open spec fn reminder_with_id(rs: Seq<Reminder>, id: Seq<char>) -> Option<Reminder> {
    if holds_id(rs, id) {
        Some(rs[index_of_id(rs, id)])
    } else {
        None
    }
}

/// No two reminders share an identifier.
pub open spec fn ids_unique(rs: Seq<Reminder>) -> bool {
    forall|i: int, j: int|
        0 <= i < rs.len() && 0 <= j < rs.len() && i != j ==> (#[trigger] rs[i]).id@ != (
        #[trigger] rs[j]).id@
}

/// The reminders of `rs` that belong to the group `group_id`, in order.
pub open spec fn in_group(rs: Seq<Reminder>, group_id: Seq<char>) -> Seq<Reminder> {
    rs.filter(group_member(group_id))
}

/// Holds of a reminder in the group `group_id`.
pub open spec fn group_member(group_id: Seq<char>) -> spec_fn(Reminder) -> bool {
    |r: Reminder| r.group_id@ == group_id
}

/// The groups of `gs` other than `group_id`, in order.
pub open spec fn other_groups(gs: Seq<ReminderGroup>, group_id: Seq<char>) -> Seq<ReminderGroup> {
    gs.filter(|g: ReminderGroup| g.id@ != group_id)
}

pub proof fn lemma_index_of_id(rs: Seq<Reminder>, id: Seq<char>, i: int)
    requires
        ids_unique(rs),
        0 <= i < rs.len(),
        rs[i].id@ == id,
    ensures
        holds_id(rs, id),
        index_of_id(rs, id) == i,
        reminder_with_id(rs, id) == Some(rs[i]),
{
    assert(holds_id(rs, id));
    let j = index_of_id(rs, id);
    assert(rs[j].id@ == rs[i].id@);
}

/// Replacing a reminder by one with the same identifier changes the lookup of
/// that identifier only.
pub proof fn lemma_lookup_after_update(rs: Seq<Reminder>, i: int, r: Reminder)
    requires
        ids_unique(rs),
        0 <= i < rs.len(),
        r.id@ == rs[i].id@,
    ensures
        ids_unique(rs.update(i, r)),
        reminder_with_id(rs.update(i, r), r.id@) == Some(r),
        forall|k: Seq<char>|
            k != r.id@ ==> #[trigger] reminder_with_id(rs.update(i, r), k) == reminder_with_id(rs, k),
{
    let rs2 = rs.update(i, r);
    assert forall|a: int, b: int|
        0 <= a < rs2.len() && 0 <= b < rs2.len() && a != b implies (#[trigger] rs2[a]).id@ != (
        #[trigger] rs2[b]).id@ by {
        assert(rs2[a].id@ == rs[a].id@ && rs2[b].id@ == rs[b].id@);
    }
    lemma_index_of_id(rs2, r.id@, i);
    assert forall|k: Seq<char>| k != r.id@ implies #[trigger] reminder_with_id(rs2, k)
        == reminder_with_id(rs, k) by {
        if holds_id(rs, k) {
            let j = index_of_id(rs, k);
            assert(rs2[j] == rs[j]);
            lemma_index_of_id(rs2, k, j);
        }
        if holds_id(rs2, k) {
            let j = index_of_id(rs2, k);
            assert(rs2[j] == rs[j]);
            lemma_index_of_id(rs, k, j);
        }
    }
}

/// Appending a reminder with a new identifier adds the lookup of that
/// identifier only.
pub proof fn lemma_lookup_after_push(rs: Seq<Reminder>, r: Reminder)
    requires
        ids_unique(rs),
        !holds_id(rs, r.id@),
    ensures
        ids_unique(rs.push(r)),
        reminder_with_id(rs.push(r), r.id@) == Some(r),
        forall|k: Seq<char>|
            k != r.id@ ==> #[trigger] reminder_with_id(rs.push(r), k) == reminder_with_id(rs, k),
{
    let rs2 = rs.push(r);
    assert forall|a: int, b: int|
        0 <= a < rs2.len() && 0 <= b < rs2.len() && a != b implies (#[trigger] rs2[a]).id@ != (
        #[trigger] rs2[b]).id@ by {
        if a < rs.len() {
            assert(rs2[a] == rs[a]);
        }
        if b < rs.len() {
            assert(rs2[b] == rs[b]);
        }
    }
    lemma_index_of_id(rs2, r.id@, rs.len() as int);
    assert forall|k: Seq<char>| k != r.id@ implies #[trigger] reminder_with_id(rs2, k)
        == reminder_with_id(rs, k) by {
        if holds_id(rs, k) {
            let j = index_of_id(rs, k);
            assert(rs2[j] == rs[j]);
            lemma_index_of_id(rs2, k, j);
        }
        if holds_id(rs2, k) {
            let j = index_of_id(rs2, k);
            if j == rs.len() as int {
                assert(rs2[j] == r);
            } else {
                assert(rs2[j] == rs[j]);
                lemma_index_of_id(rs, k, j);
            }
        }
    }
}

/// Removing a reminder removes the lookup of its identifier only.
pub proof fn lemma_lookup_after_remove(rs: Seq<Reminder>, i: int)
    requires
        ids_unique(rs),
        0 <= i < rs.len(),
    ensures
        ids_unique(rs.remove(i)),
        reminder_with_id(rs.remove(i), rs[i].id@) is None,
        forall|k: Seq<char>|
            k != rs[i].id@ ==> #[trigger] reminder_with_id(rs.remove(i), k) == reminder_with_id(rs, k),
{
    let rs2 = rs.remove(i);
    assert forall|a: int, b: int|
        0 <= a < rs2.len() && 0 <= b < rs2.len() && a != b implies (#[trigger] rs2[a]).id@ != (
        #[trigger] rs2[b]).id@ by {
        let a0 = if a < i { a } else { a + 1 };
        let b0 = if b < i { b } else { b + 1 };
        assert(rs2[a] == rs[a0] && rs2[b] == rs[b0]);
    }
    if holds_id(rs2, rs[i].id@) {
        let j = index_of_id(rs2, rs[i].id@);
        let j0 = if j < i { j } else { j + 1 };
        assert(rs2[j] == rs[j0]);
    }
    assert forall|k: Seq<char>| k != rs[i].id@ implies #[trigger] reminder_with_id(rs2, k)
        == reminder_with_id(rs, k) by {
        if holds_id(rs, k) {
            let j0 = index_of_id(rs, k);
            let j = if j0 < i { j0 } else { j0 - 1 };
            assert(rs2[j] == rs[j0]);
            lemma_index_of_id(rs2, k, j);
        }
        if holds_id(rs2, k) {
            let j = index_of_id(rs2, k);
            let j0 = if j < i { j } else { j + 1 };
            assert(rs2[j] == rs[j0]);
            lemma_index_of_id(rs, k, j0);
        }
    }
}

/// Keyed storage of groups and reminders. Reminder identifiers are unique.
pub trait DataRepository {
    spec fn groups_view(&self) -> Seq<ReminderGroup>;

    spec fn reminders_view(&self) -> Seq<Reminder>;

    fn get_groups(&self) -> (r: AppResult<Vec<ReminderGroup>>)
        ensures
            r matches Ok(v) && v@ == self.groups_view(),
    ;

    fn add_group(&mut self, group: ReminderGroup) -> (r: AppResult<()>)
        ensures
            r is Ok,
            final(self).groups_view() == old(self).groups_view().push(group),
            final(self).reminders_view() == old(self).reminders_view(),
    ;

    fn remove_group(&mut self, group_id: &str) -> (r: AppResult<()>)
        ensures
            r is Ok,
            final(self).groups_view() == other_groups(old(self).groups_view(), group_id@),
            final(self).reminders_view() == old(self).reminders_view(),
    ;

    fn get_reminders(&self) -> (r: AppResult<Vec<Reminder>>)
        ensures
            r matches Ok(v) && v@ == self.reminders_view(),
    ;

    fn add_reminder(&mut self, reminder: Reminder) -> (r: AppResult<()>)
        requires
            ids_unique(old(self).reminders_view()),
        ensures
            ids_unique(final(self).reminders_view()),
            final(self).groups_view() == old(self).groups_view(),
            r is Ok <==> !holds_id(old(self).reminders_view(), reminder.id@),
            r is Ok ==> final(self).reminders_view() == old(self).reminders_view().push(reminder),
            r is Err ==> r->Err_0 is Validation && final(self).reminders_view()
                == old(self).reminders_view(),
    ;

    fn update_reminder(&mut self, reminder: &Reminder) -> (r: AppResult<()>)
        requires
            ids_unique(old(self).reminders_view()),
        ensures
            ids_unique(final(self).reminders_view()),
            final(self).groups_view() == old(self).groups_view(),
            r is Ok <==> holds_id(old(self).reminders_view(), reminder.id@),
            r is Ok ==> final(self).reminders_view() == old(self).reminders_view().update(
                index_of_id(old(self).reminders_view(), reminder.id@),
                *reminder,
            ),
            r is Err ==> (r matches Err(AppError::NotFound(m)) && m@ == missing_reminder_text(
                reminder.id@,
            )) && final(self).reminders_view() == old(self).reminders_view(),
    ;

    fn remove_reminder(&mut self, reminder_id: &str) -> (r: AppResult<()>)
        requires
            ids_unique(old(self).reminders_view()),
        ensures
            ids_unique(final(self).reminders_view()),
            final(self).groups_view() == old(self).groups_view(),
            r is Ok <==> holds_id(old(self).reminders_view(), reminder_id@),
            r is Ok ==> final(self).reminders_view() == old(self).reminders_view().remove(
                index_of_id(old(self).reminders_view(), reminder_id@),
            ),
            r is Err ==> (r matches Err(AppError::NotFound(m)) && m@ == missing_reminder_text(
                reminder_id@,
            )) && final(self).reminders_view() == old(self).reminders_view(),
    ;

    fn find_reminder(&self, reminder_id: &str) -> (r: AppResult<Option<Reminder>>)
        requires
            ids_unique(self.reminders_view()),
        ensures
            r matches Ok(found) && found == reminder_with_id(self.reminders_view(), reminder_id@),
    ;

    fn find_reminders_by_group(&self, group_id: &str) -> (r: AppResult<Vec<Reminder>>)
        ensures
            r matches Ok(v) && v@ == in_group(self.reminders_view(), group_id@),
    ;
}

/// Groups and reminders held in memory, in insertion order.
pub struct InMemoryRepository {
    groups: Vec<ReminderGroup>,
    reminders: Vec<Reminder>,
}

impl InMemoryRepository {
    /// A store that starts from the given groups and reminders.
    pub fn new(groups: Vec<ReminderGroup>, reminders: Vec<Reminder>) -> (r: Self)
        requires
            ids_unique(reminders@),
        ensures
            r.groups_view() == groups@,
            r.reminders_view() == reminders@,
            ids_unique(r.reminders_view()),
    {
        InMemoryRepository { groups, reminders }
    }

    /// The position of the reminder with the given identifier.
    fn position(&self, reminder_id: &str) -> (r: Option<usize>)
        requires
            ids_unique(self.reminders@),
        ensures
            r is Some <==> holds_id(self.reminders@, reminder_id@),
            r matches Some(i) ==> i == index_of_id(self.reminders@, reminder_id@) && i
                < self.reminders.len(),
    {
        let key = reminder_id.to_owned();
        let mut i: usize = 0;
        while i < self.reminders.len()
            invariant
                i <= self.reminders.len(),
                key@ == reminder_id@,
                ids_unique(self.reminders@),
                forall|k: int| 0 <= k < i ==> (#[trigger] self.reminders@[k]).id@ != reminder_id@,
            decreases self.reminders.len() - i,
        {
            if self.reminders[i].id == key {
                proof {
                    lemma_index_of_id(self.reminders@, reminder_id@, i as int);
                }
                return Some(i);
            }
            i = i + 1;
        }
        None
    }
}

/// The detail of the failure for a reminder identifier that is not stored.
pub open spec fn missing_reminder_text(id: Seq<char>) -> Seq<char> {
    "Reminder with id "@ + id + " not found"@
}

/// The failure for a reminder identifier that is not stored.
pub fn missing_reminder(reminder_id: &str) -> (r: AppError)
    ensures
        r matches AppError::NotFound(m) && m@ == missing_reminder_text(reminder_id@),
{
    let m = join_text("Reminder with id ", reminder_id);
    AppError::NotFound(join_text(m.as_str(), " not found"))
}

impl DataRepository for InMemoryRepository {
    closed spec fn groups_view(&self) -> Seq<ReminderGroup> {
        self.groups@
    }

    closed spec fn reminders_view(&self) -> Seq<Reminder> {
        self.reminders@
    }

    fn get_groups(&self) -> (r: AppResult<Vec<ReminderGroup>>) {
        let mut out: Vec<ReminderGroup> = Vec::new();
        let mut i: usize = 0;
        while i < self.groups.len()
            invariant
                i <= self.groups.len(),
                out@ == self.groups@.take(i as int),
            decreases self.groups.len() - i,
        {
            out.push(self.groups[i].duplicate());
            i = i + 1;
            assert(out@ =~= self.groups@.take(i as int));
        }
        assert(out@ =~= self.groups@);
        Ok(out)
    }

    fn add_group(&mut self, group: ReminderGroup) -> (r: AppResult<()>) {
        self.groups.push(group);
        Ok(())
    }

    fn remove_group(&mut self, group_id: &str) -> (r: AppResult<()>) {
        let key = group_id.to_owned();
        let ghost keep = |g: ReminderGroup| g.id@ != group_id@;
        let mut kept: Vec<ReminderGroup> = Vec::new();
        let mut i: usize = 0;
        while i < self.groups.len()
            invariant
                i <= self.groups.len(),
                key@ == group_id@,
                keep == (|g: ReminderGroup| g.id@ != group_id@),
                kept@ == self.groups@.take(i as int).filter(keep),
            decreases self.groups.len() - i,
        {
            proof {
                assert(self.groups@.take(i + 1) =~= self.groups@.take(i as int).push(self.groups@[i as int]));
                self.groups@.take(i as int).lemma_filter_push(self.groups@[i as int], keep);
            }
            if self.groups[i].id != key {
                kept.push(self.groups[i].duplicate());
            }
            i = i + 1;
        }
        assert(self.groups@.take(i as int) =~= self.groups@);
        self.groups = kept;
        Ok(())
    }

    fn get_reminders(&self) -> (r: AppResult<Vec<Reminder>>) {
        let mut out: Vec<Reminder> = Vec::new();
        let mut i: usize = 0;
        while i < self.reminders.len()
            invariant
                i <= self.reminders.len(),
                out@ == self.reminders@.take(i as int),
            decreases self.reminders.len() - i,
        {
            out.push(self.reminders[i].duplicate());
            i = i + 1;
            assert(out@ =~= self.reminders@.take(i as int));
        }
        assert(out@ =~= self.reminders@);
        Ok(out)
    }

    fn add_reminder(&mut self, reminder: Reminder) -> (r: AppResult<()>) {
        match self.position(reminder.id.as_str()) {
            Some(_) => {
                let m = join_text("Reminder with id ", reminder.id.as_str());
                Err(AppError::Validation(join_text(m.as_str(), " already exists")))
            },
            None => {
                let ghost before = self.reminders@;
                self.reminders.push(reminder);
                proof {
                    assert forall|i: int, j: int|
                        0 <= i < self.reminders@.len() && 0 <= j < self.reminders@.len() && i
                            != j implies (#[trigger] self.reminders@[i]).id@ != (
                        #[trigger] self.reminders@[j]).id@ by {
                        if i == before.len() as int {
                            assert(before[j] == self.reminders@[j]);
                        } else if j == before.len() as int {
                            assert(before[i] == self.reminders@[i]);
                        } else {
                            assert(before[i] == self.reminders@[i]);
                            assert(before[j] == self.reminders@[j]);
                        }
                    }
                }
                Ok(())
            },
        }
    }

    fn update_reminder(&mut self, reminder: &Reminder) -> (r: AppResult<()>) {
        match self.position(reminder.id.as_str()) {
            Some(i) => {
                let ghost before = self.reminders@;
                self.reminders.set(i, reminder.duplicate());
                proof {
                    assert forall|a: int, b: int|
                        0 <= a < self.reminders@.len() && 0 <= b < self.reminders@.len() && a
                            != b implies (#[trigger] self.reminders@[a]).id@ != (
                        #[trigger] self.reminders@[b]).id@ by {
                        assert(self.reminders@[a].id@ == before[a].id@);
                        assert(self.reminders@[b].id@ == before[b].id@);
                    }
                }
                Ok(())
            },
            None => Err(missing_reminder(reminder.id.as_str())),
        }
    }

    fn remove_reminder(&mut self, reminder_id: &str) -> (r: AppResult<()>) {
        match self.position(reminder_id) {
            Some(i) => {
                let ghost before = self.reminders@;
                self.reminders.remove(i);
                proof {
                    assert forall|a: int, b: int|
                        0 <= a < self.reminders@.len() && 0 <= b < self.reminders@.len() && a
                            != b implies (#[trigger] self.reminders@[a]).id@ != (
                        #[trigger] self.reminders@[b]).id@ by {
                        let a0 = if a < i { a } else { a + 1 };
                        let b0 = if b < i { b } else { b + 1 };
                        assert(self.reminders@[a] == before[a0]);
                        assert(self.reminders@[b] == before[b0]);
                    }
                }
                Ok(())
            },
            None => Err(missing_reminder(reminder_id)),
        }
    }

    fn find_reminder(&self, reminder_id: &str) -> (r: AppResult<Option<Reminder>>) {
        match self.position(reminder_id) {
            Some(i) => Ok(Some(self.reminders[i].duplicate())),
            None => Ok(None),
        }
    }

    fn find_reminders_by_group(&self, group_id: &str) -> (r: AppResult<Vec<Reminder>>) {
        let key = group_id.to_owned();
        let ghost keep = group_member(group_id@);
        let mut found: Vec<Reminder> = Vec::new();
        let mut i: usize = 0;
        while i < self.reminders.len()
            invariant
                i <= self.reminders.len(),
                key@ == group_id@,
                keep == group_member(group_id@),
                found@ == self.reminders@.take(i as int).filter(keep),
            decreases self.reminders.len() - i,
        {
            proof {
                assert(self.reminders@.take(i + 1) =~= self.reminders@.take(i as int).push(
                    self.reminders@[i as int],
                ));
                self.reminders@.take(i as int).lemma_filter_push(self.reminders@[i as int], keep);
            }
            if self.reminders[i].group_id == key {
                found.push(self.reminders[i].duplicate());
            }
            i = i + 1;
        }
        assert(self.reminders@.take(i as int) =~= self.reminders@);
        Ok(found)
    }
}

} // verus!
