use crate::error::{join_text, AppError, AppResult};
use crate::models::{
    CreateGroupRequest,
    CreateReminderRequest,
    Reminder,
    ReminderGroup,
    UpdateReminderRequest,
};
use crate::repository::{
    holds_id,
    ids_unique,
    index_of_id,
    lemma_lookup_after_push,
    lemma_lookup_after_remove,
    lemma_lookup_after_update,
    lemma_index_of_id,
    missing_reminder,
    missing_reminder_text,
    other_groups,
    reminder_with_id,
    DataRepository,
};
use crate::schedule::{cron_of, runnable, to_cron_expression, unreadable_text};
use crate::scheduler::{restorable, restored, ReminderScheduler};
use crate::clock::minute_now;
use crate::models::{fresh_id, unix_now};
use crate::trigger::{ended_by, fires, should_fire};
use vstd::prelude::*;

verus! {

/// Active, and holding a cron expression that the engine can run.
pub open spec fn schedulable(r: Reminder) -> bool {
    r.active() && r.cron_expression is Some && runnable(r.cron_expression->0@)
}

/// The detail of the failure for a group identifier that is not stored.
pub open spec fn missing_group_text(id: Seq<char>) -> Seq<char> {
    "Group with id "@ + id + " not found"@
}

/// The cron expression of a request, if any, parses or translates.
pub open spec fn cron_readable(cron_expression: Option<String>) -> bool {
    cron_expression is None || cron_of(cron_expression->0@) is Some
}

/// The reminder that a creation request makes under the identifier `id`:
/// active, never fired, with the request's fields.
pub open spec fn new_reminder(request: CreateReminderRequest, id: String) -> Reminder {
    Reminder {
        id,
        title: request.title,
        color: request.color,
        group_id: request.group_id,
        cron_expression: request.cron_expression,
        start_at: request.start_at,
        last_triggered: None,
        is_cancelled: false,
        is_deleted: false,
        is_paused: false,
        description: request.description,
        created_at: None,
        end_at: request.end_at,
    }
}

/// Some group in `gs` carries the identifier `id`.
pub open spec fn holds_group(gs: Seq<ReminderGroup>, id: Seq<char>) -> bool {
    exists|i: int| 0 <= i < gs.len() && (#[trigger] gs[i]).id@ == id
}

/// The registry agrees with the store about the identifier `k`: there is a job
/// for `k` exactly when the reminder stored under `k` is schedulable, and the
/// job runs that reminder's cron expression.
pub open spec fn job_matches(rs: Seq<Reminder>, jobs: Map<Seq<char>, Seq<char>>, k: Seq<char>) -> bool {
    &&& jobs.contains_key(k) <==> (reminder_with_id(rs, k) is Some && schedulable(
        reminder_with_id(rs, k)->0,
    ))
    &&& jobs.contains_key(k) ==> jobs[k] == reminder_with_id(rs, k)->0.cron_expression->0@
}

/// The registry agrees with the store about every identifier.
pub open spec fn consistent(rs: Seq<Reminder>, jobs: Map<Seq<char>, Seq<char>>) -> bool {
    forall|k: Seq<char>| #[trigger] job_matches(rs, jobs, k)
}

/// The registry after the job of `r` has been brought in line with `r`.
pub open spec fn synced(jobs: Map<Seq<char>, Seq<char>>, r: Reminder) -> Map<Seq<char>, Seq<char>> {
    if schedulable(r) {
        jobs.insert(r.id@, r.cron_expression->0@)
    } else {
        jobs.remove(r.id@)
    }
}

/// Re-synchronising the job of the one reminder that changed keeps the registry
/// and the store in agreement.
pub proof fn lemma_sync_keeps_consistency(
    rs: Seq<Reminder>,
    jobs: Map<Seq<char>, Seq<char>>,
    rs2: Seq<Reminder>,
    r: Reminder,
)
    requires
        consistent(rs, jobs),
        reminder_with_id(rs2, r.id@) == Some(r),
        forall|k: Seq<char>|
            k != r.id@ ==> #[trigger] reminder_with_id(rs2, k) == reminder_with_id(rs, k),
    ensures
        consistent(rs2, synced(jobs, r)),
{
    let jobs2 = synced(jobs, r);
    assert forall|k: Seq<char>| #[trigger] job_matches(rs2, jobs2, k) by {
        if k != r.id@ {
            assert(reminder_with_id(rs2, k) == reminder_with_id(rs, k));
            assert(job_matches(rs, jobs, k));
        }
    }
}

/// A change that keeps a reminder's flags and cron expression keeps the
/// registry and the store in agreement.
pub proof fn lemma_same_schedule_keeps_consistency(
    rs: Seq<Reminder>,
    jobs: Map<Seq<char>, Seq<char>>,
    rs2: Seq<Reminder>,
    before: Reminder,
    after: Reminder,
)
    requires
        consistent(rs, jobs),
        reminder_with_id(rs, before.id@) == Some(before),
        reminder_with_id(rs2, after.id@) == Some(after),
        after.id@ == before.id@,
        after.active() == before.active(),
        after.cron_expression == before.cron_expression,
        forall|k: Seq<char>|
            k != after.id@ ==> #[trigger] reminder_with_id(rs2, k) == reminder_with_id(rs, k),
    ensures
        consistent(rs2, jobs),
{
    assert forall|k: Seq<char>| #[trigger] job_matches(rs2, jobs, k) by {
        assert(job_matches(rs, jobs, k));
        if k != after.id@ {
            assert(reminder_with_id(rs2, k) == reminder_with_id(rs, k));
        }
    }
}

/// Removing a reminder together with its job keeps the registry and the store
/// in agreement.
pub proof fn lemma_removal_keeps_consistency(
    rs: Seq<Reminder>,
    jobs: Map<Seq<char>, Seq<char>>,
    i: int,
)
    requires
        consistent(rs, jobs),
        ids_unique(rs),
        0 <= i < rs.len(),
    ensures
        consistent(rs.remove(i), jobs.remove(rs[i].id@)),
{
    lemma_lookup_after_remove(rs, i);
    let rs2 = rs.remove(i);
    let jobs2 = jobs.remove(rs[i].id@);
    assert forall|k: Seq<char>| #[trigger] job_matches(rs2, jobs2, k) by {
        assert(job_matches(rs, jobs, k));
        if k != rs[i].id@ {
            assert(reminder_with_id(rs2, k) == reminder_with_id(rs, k));
        }
    }
}

/// The reminders of `rs` outside the group `group_id`, in order.
pub open spec fn outside_group(rs: Seq<Reminder>, group_id: Seq<char>) -> Seq<Reminder> {
    rs.filter(not_in_group(group_id))
}

/// Holds of a reminder outside the group `group_id`.
pub open spec fn not_in_group(group_id: Seq<char>) -> spec_fn(Reminder) -> bool {
    |r: Reminder| r.group_id@ != group_id
}

/// The identifiers of the reminders of `rs` in the group `group_id`.
pub open spec fn member_ids(rs: Seq<Reminder>, group_id: Seq<char>) -> Set<Seq<char>> {
    Set::new(
        |k: Seq<char>|
            exists|j: int| 0 <= j < rs.len() && (#[trigger] rs[j]).id@ == k && rs[j].group_id@ == group_id,
    )
}

/// The store after a due job for `id` has been handled at minute `now`, the
/// firing stamped with `at`.
pub open spec fn fire_one(rs: Seq<Reminder>, id: Seq<char>, now: int, at: i64) -> Seq<Reminder> {
    if fires(reminder_with_id(rs, id), now) {
        let i = index_of_id(rs, id);
        rs.update(i, Reminder { last_triggered: Some(at), ..rs[i] })
    } else {
        rs
    }
}

/// The store after the due jobs for `ids` have been handled in order.
pub open spec fn fired_state(rs: Seq<Reminder>, ids: Seq<Seq<char>>, now: int, at: i64) -> Seq<
    Reminder,
>
    decreases ids.len(),
{
    if ids.len() == 0 {
        rs
    } else {
        fire_one(fired_state(rs, ids.drop_last(), now, at), ids.last(), now, at)
    }
}

/// The titles to notify, in order, when the due jobs for `ids` are handled.
pub open spec fn fired_titles(rs: Seq<Reminder>, ids: Seq<Seq<char>>, now: int, at: i64) -> Seq<
    Seq<char>,
>
    decreases ids.len(),
{
    if ids.len() == 0 {
        Seq::empty()
    } else {
        let prev = fired_state(rs, ids.drop_last(), now, at);
        let titles = fired_titles(rs, ids.drop_last(), now, at);
        if fires(reminder_with_id(prev, ids.last()), now) {
            titles.push(reminder_with_id(prev, ids.last())->0.title@)
        } else {
            titles
        }
    }
}

pub open spec fn text_views(v: Seq<String>) -> Seq<Seq<char>> {
    v.map_values(|s: String| s@)
}

/// The store with the pause flag of the reminder `id` set to `flag`.
pub open spec fn with_pause(rs: Seq<Reminder>, id: Seq<char>, flag: bool) -> Seq<Reminder> {
    let i = index_of_id(rs, id);
    rs.update(i, Reminder { is_paused: flag, ..rs[i] })
}

/// Every element of a filtered sequence comes from the sequence.
proof fn lemma_filtered_from(rs: Seq<Reminder>, p: spec_fn(Reminder) -> bool, j: int)
    requires
        0 <= j < rs.filter(p).len(),
    ensures
        exists|m: int| 0 <= m < rs.len() && rs[m] == rs.filter(p)[j],
    decreases rs.len(),
{
    let d = rs.drop_last();
    assert(rs =~= d.push(rs.last()));
    d.lemma_filter_push(rs.last(), p);
    if p(rs.last()) && j == d.filter(p).len() {
        assert(rs[rs.len() - 1] == rs.filter(p)[j]);
    } else {
        lemma_filtered_from(d, p, j);
        let m = choose|m: int| 0 <= m < d.len() && d[m] == d.filter(p)[j];
        assert(rs[m] == d[m]);
    }
}

/// Pausing a reminder that is not paused and then resuming it gives back the
/// store and the registry exactly as they were, when they agreed before: the
/// reminder has its job again, on the same cron expression, and no other job
/// appears or goes.
pub proof fn lemma_pause_then_resume(rs: Seq<Reminder>, jobs: Map<Seq<char>, Seq<char>>, id: Seq<char>)
    requires
        ids_unique(rs),
        consistent(rs, jobs),
        holds_id(rs, id),
        !reminder_with_id(rs, id)->0.is_paused,
    ensures
        with_pause(with_pause(rs, id, true), id, false) == rs,
        synced(
            jobs.remove(id),
            with_pause(with_pause(rs, id, true), id, false)[index_of_id(with_pause(rs, id, true), id)],
        ) == jobs,
{
    let i = index_of_id(rs, id);
    let rs1 = with_pause(rs, id, true);
    lemma_index_of_id(rs, id, i);
    lemma_lookup_after_update(rs, i, rs1[i]);
    lemma_index_of_id(rs1, id, i);
    let rs2 = with_pause(rs1, id, false);
    assert(rs2 =~= rs);
    assert(job_matches(rs, jobs, id));
    if schedulable(rs[i]) {
        assert(jobs.remove(id).insert(id, rs[i].cron_expression->0@) =~= jobs);
    } else {
        assert(jobs.remove(id) =~= jobs);
    }
}

/// After a group is deleted, no reminder of it is left in the store or in the
/// registry, and looking the group's reminders up finds none.
pub proof fn lemma_deleted_group_is_gone(rs: Seq<Reminder>, jobs: Map<Seq<char>, Seq<char>>, group_id: Seq<char>)
    requires
        ids_unique(rs),
    ensures
        crate::repository::in_group(outside_group(rs, group_id), group_id).len() == 0,
        forall|i: int|
            0 <= i < rs.len() && (#[trigger] rs[i]).group_id@ == group_id ==> !jobs.remove_keys(
                member_ids(rs, group_id),
            ).contains_key(rs[i].id@) && !holds_id(outside_group(rs, group_id), rs[i].id@),
{
    broadcast use vstd::seq_lib::group_filter_ensures;

    let keep = not_in_group(group_id);
    let out = outside_group(rs, group_id);
    let back = crate::repository::group_member(group_id);
    if out.filter(back).len() > 0 {
        assert(back(out.filter(back)[0]));
        lemma_filtered_from(out, back, 0);
        let m = choose|m: int| 0 <= m < out.len() && out[m] == out.filter(back)[0];
        assert(keep(out[m]));
    }
    assert forall|i: int|
        0 <= i < rs.len() && (#[trigger] rs[i]).group_id@ == group_id implies !jobs.remove_keys(
            member_ids(rs, group_id),
        ).contains_key(rs[i].id@) && !holds_id(out, rs[i].id@) by {
        assert(member_ids(rs, group_id).contains(rs[i].id@));
        if holds_id(out, rs[i].id@) {
            let j = choose|j: int| 0 <= j < out.len() && (#[trigger] out[j]).id@ == rs[i].id@;
            assert(keep(out[j]));
            lemma_filtered_from(rs, keep, j);
            let m = choose|m: int| 0 <= m < rs.len() && rs[m] == out[j];
            assert(rs[m].id@ == rs[i].id@);
        }
    }
}

/// Recovery into an empty registry schedules exactly the stored reminders that
/// are schedulable and not past their end time, each on its own cron
/// expression. So, where no stored reminder has reached its end time, the
/// registry afterwards agrees with the store.
pub proof fn lemma_recovery_from_empty(rs: Seq<Reminder>, now: int)
    requires
        ids_unique(rs),
    ensures
        forall|k: Seq<char>|
            #[trigger] restored(Map::empty(), rs, now).contains_key(k) <==> (reminder_with_id(rs, k) is Some
                && restorable(reminder_with_id(rs, k)->0, now)),
        forall|k: Seq<char>|
            #[trigger] restored(Map::empty(), rs, now).contains_key(k) ==> restored(Map::empty(), rs, now)[k]
                == reminder_with_id(rs, k)->0.cron_expression->0@,
        (forall|i: int| 0 <= i < rs.len() ==> !ended_by(#[trigger] rs[i], now)) ==> consistent(
            rs,
            restored(Map::empty(), rs, now),
        ),
    decreases rs.len(),
{
    let jobs = restored(Map::<Seq<char>, Seq<char>>::empty(), rs, now);
    if rs.len() == 0 {
        assert forall|k: Seq<char>| !holds_id(rs, k) by {}
    } else {
        let d = rs.drop_last();
        let last = rs.last();
        let before = restored(Map::<Seq<char>, Seq<char>>::empty(), d, now);
        assert(rs =~= d.push(last));
        assert(ids_unique(d)) by {
            assert forall|a: int, b: int|
                0 <= a < d.len() && 0 <= b < d.len() && a != b implies (#[trigger] d[a]).id@ != (
                #[trigger] d[b]).id@ by {
                assert(d[a] == rs[a] && d[b] == rs[b]);
            }
        }
        lemma_recovery_from_empty(d, now);
        assert(!holds_id(d, last.id@)) by {
            if holds_id(d, last.id@) {
                let j = choose|j: int| 0 <= j < d.len() && (#[trigger] d[j]).id@ == last.id@;
                assert(rs[j] == d[j]);
                assert(rs[rs.len() - 1] == last);
            }
        }
        lemma_lookup_after_push(d, last);
        assert forall|k: Seq<char>|
            #[trigger] jobs.contains_key(k) == (reminder_with_id(rs, k) is Some && restorable(
                reminder_with_id(rs, k)->0,
                now,
            )) && (jobs.contains_key(k) ==> jobs[k] == reminder_with_id(rs, k)->0.cron_expression->0@) by {
            if k == last.id@ {
                assert(!before.contains_key(k));
            } else {
                assert(reminder_with_id(rs, k) == reminder_with_id(d, k));
                assert(before.contains_key(k) == jobs.contains_key(k));
            }
        }
    }
    if forall|i: int| 0 <= i < rs.len() ==> !ended_by(#[trigger] rs[i], now) {
        assert forall|k: Seq<char>| #[trigger] job_matches(rs, jobs, k) by {
            if reminder_with_id(rs, k) is Some {
                let i = index_of_id(rs, k);
                assert(!ended_by(rs[i], now));
            }
        }
    }
}

/// When the registry already agrees with the store, recovery over the stored
/// reminders changes nothing.
pub proof fn lemma_recovery_keeps_agreement(
    rs: Seq<Reminder>,
    jobs: Map<Seq<char>, Seq<char>>,
    now: int,
    n: int,
)
    requires
        ids_unique(rs),
        consistent(rs, jobs),
        0 <= n <= rs.len(),
    ensures
        restored(jobs, rs.take(n), now) == jobs,
    decreases n,
{
    if n > 0 {
        let p = rs.take(n);
        assert(p.drop_last() =~= rs.take(n - 1));
        assert(p.last() == rs[n - 1]);
        lemma_recovery_keeps_agreement(rs, jobs, now, n - 1);
        let r = rs[n - 1];
        if restorable(r, now) {
            lemma_index_of_id(rs, r.id@, n - 1);
            assert(job_matches(rs, jobs, r.id@));
            assert(jobs.insert(r.id@, r.cron_expression->0@) =~= jobs);
        }
    }
}

/// A paused reminder is never fired by a tick: whatever jobs come due, in
/// whatever order and at whatever time, it stays exactly as it was stored, its
/// last firing time included. `tick` and `fire_due` change the store only as
/// `fired_state` says, so this holds over any number of ticks.
pub proof fn lemma_paused_stays_unfired(
    rs: Seq<Reminder>,
    ids: Seq<Seq<char>>,
    now: int,
    at: i64,
    id: Seq<char>,
)
    requires
        ids_unique(rs),
        reminder_with_id(rs, id) matches Some(r) && r.is_paused,
    ensures
        ids_unique(fired_state(rs, ids, now, at)),
        reminder_with_id(fired_state(rs, ids, now, at), id) == reminder_with_id(rs, id),
    decreases ids.len(),
{
    if ids.len() > 0 {
        let prev = fired_state(rs, ids.drop_last(), now, at);
        lemma_paused_stays_unfired(rs, ids.drop_last(), now, at, id);
        let due = ids.last();
        if fires(reminder_with_id(prev, due), now) {
            let i = index_of_id(prev, due);
            lemma_lookup_after_update(prev, i, Reminder { last_triggered: Some(at), ..prev[i] });
        }
    }
}

/// A paused reminder never fires, whatever the time.
pub proof fn lemma_paused_never_fires(rs: Seq<Reminder>, id: Seq<char>, now: int, at: i64)
    requires
        reminder_with_id(rs, id) matches Some(r) && r.is_paused,
    ensures
        !fires(reminder_with_id(rs, id), now),
        fire_one(rs, id, now, at) == rs,
{
}

/// The scheduling coordinator: every operation on reminders and groups goes
/// through the store and brings the job registry in line with it.
pub struct ReminderService<R: DataRepository> {
    repository: R,
    scheduler: ReminderScheduler,
}

impl<R: DataRepository> ReminderService<R> {
    pub closed spec fn groups(&self) -> Seq<ReminderGroup> {
        self.repository.groups_view()
    }

    pub closed spec fn reminders(&self) -> Seq<Reminder> {
        self.repository.reminders_view()
    }

    /// Each reminder with a job, mapped to the cron expression its job runs.
    pub open spec fn jobs(&self) -> Map<Seq<char>, Seq<char>> {
        self.registry()@
    }

    /// The job registry itself, handles included.
    pub closed spec fn registry(&self) -> ReminderScheduler {
        self.scheduler
    }

    pub closed spec fn wf(&self) -> bool {
        &&& ids_unique(self.repository.reminders_view())
        &&& self.scheduler.wf()
    }

    /// The registry holds a job for exactly the schedulable reminders.
    pub open spec fn in_sync(&self) -> bool {
        consistent(self.reminders(), self.jobs())
    }

    /// A well-formed coordinator has a well-formed registry whose entries are
    /// the jobs it reports.
    pub proof fn lemma_registry_shape(&self)
        requires
            self.wf(),
        ensures
            self.registry().wf(),
            self.registry()@ == self.jobs(),
    {
    }

    pub fn new(repository: R, scheduler: ReminderScheduler) -> (r: Self)
        requires
            ids_unique(repository.reminders_view()),
            scheduler.wf(),
        ensures
            r.wf(),
            r.groups() == repository.groups_view(),
            r.reminders() == repository.reminders_view(),
            r.jobs() == scheduler@,
    {
        ReminderService { repository, scheduler }
    }

    pub fn get_groups(&self) -> (r: AppResult<Vec<ReminderGroup>>)
        ensures
            r matches Ok(v) && v@ == self.groups(),
    {
        self.repository.get_groups()
    }

    pub fn get_reminders(&self) -> (r: AppResult<Vec<Reminder>>)
        ensures
            r matches Ok(v) && v@ == self.reminders(),
    {
        self.repository.get_reminders()
    }

    /// Whether a job is registered for the reminder.
    pub fn has_job(&self, reminder_id: &str) -> (r: bool)
        requires
            self.wf(),
        ensures
            r == self.jobs().contains_key(reminder_id@),
    {
        self.scheduler.has_job(reminder_id)
    }

    fn group_exists(&self, group_id: &str) -> (r: bool)
        ensures
            r == holds_group(self.groups(), group_id@),
    {
        let groups = match self.repository.get_groups() {
            Ok(g) => g,
            Err(_) => {
                return false;
            },
        };
        let key = group_id.to_owned();
        let mut i: usize = 0;
        while i < groups.len()
            invariant
                i <= groups.len(),
                groups@ == self.groups(),
                key@ == group_id@,
                forall|k: int| 0 <= k < i ==> (#[trigger] groups@[k]).id@ != group_id@,
            decreases groups.len() - i,
        {
            if groups[i].id == key {
                return true;
            }
            i = i + 1;
        }
        false
    }

    /// The stored reminder with the identifier, or a not-found failure.
    fn fetch(&self, reminder_id: &str) -> (r: AppResult<Reminder>)
        requires
            self.wf(),
        ensures
            r is Ok <==> holds_id(self.reminders(), reminder_id@),
            r is Ok ==> reminder_with_id(self.reminders(), reminder_id@) == Some(r->Ok_0),
            r is Err ==> (r matches Err(AppError::NotFound(m)) && m@ == missing_reminder_text(
                reminder_id@,
            )),
    {
        match self.repository.find_reminder(reminder_id) {
            Ok(Some(found)) => Ok(found),
            _ => Err(missing_reminder(reminder_id)),
        }
    }

    /// Creates a group under the identifier `id`. An identifier that a stored
    /// group already has is a validation failure, and nothing changes.
    pub fn create_group_with_id(&mut self, request: CreateGroupRequest, id: String) -> (r: AppResult<
        ReminderGroup,
    >)
        requires
            old(self).wf(),
        ensures
            final(self).wf(),
            old(self).in_sync() ==> final(self).in_sync(),
            final(self).reminders() == old(self).reminders(),
            final(self).registry() == old(self).registry(),
            r is Ok <==> !holds_group(old(self).groups(), id@),
            r is Err ==> r->Err_0 is Validation && final(self).groups() == old(self).groups(),
            r matches Ok(g) ==> {
                &&& g.id == id && g.name == request.name && g.color == request.color
                &&& final(self).groups() == old(self).groups().push(g)
            },
    {
        if self.group_exists(id.as_str()) {
            let m = join_text("Group with id ", id.as_str());
            return Err(AppError::Validation(join_text(m.as_str(), " already exists")));
        }
        let group = ReminderGroup { id, name: request.name, color: request.color, start_at: unix_now() };
        let stored = group.duplicate();
        match self.repository.add_group(stored) {
            Ok(()) => Ok(group),
            Err(e) => Err(e),
        }
    }

    /// Creates a group under a fresh identifier, distinct from every stored
    /// group's; should the random identifier be taken, the call fails with a
    /// validation error and nothing changes.
    pub fn create_group(&mut self, request: CreateGroupRequest) -> (r: AppResult<ReminderGroup>)
        requires
            old(self).wf(),
        ensures
            final(self).wf(),
            old(self).in_sync() ==> final(self).in_sync(),
            final(self).reminders() == old(self).reminders(),
            final(self).registry() == old(self).registry(),
            r is Err ==> r->Err_0 is Validation && final(self).groups() == old(self).groups(),
            r matches Ok(g) ==> {
                &&& !holds_group(old(self).groups(), g.id@)
                &&& g.name == request.name && g.color == request.color
                &&& final(self).groups() == old(self).groups().push(g)
            },
    {
        let id = fresh_id();
        self.create_group_with_id(request, id)
    }

    /// Creates an active reminder under the identifier `id` in an existing
    /// group, and brings its job in line with it: a job on its cron expression
    /// when the engine can run that, none otherwise (a failed registration is
    /// not a failure of the call). Failures, each leaving everything as it was:
    /// a group that does not exist (not found); a cron expression that neither
    /// parses nor translates (validation, quoting it); an identifier that a
    /// stored reminder already has (validation).
    pub fn create_reminder_with_id(&mut self, request: CreateReminderRequest, id: String) -> (r:
        AppResult<Reminder>)
        requires
            old(self).wf(),
        ensures
            final(self).wf(),
            old(self).in_sync() ==> final(self).in_sync(),
            final(self).groups() == old(self).groups(),
            r is Ok <==> holds_group(old(self).groups(), request.group_id@) && cron_readable(
                request.cron_expression,
            ) && !holds_id(old(self).reminders(), id@),
            !holds_group(old(self).groups(), request.group_id@) ==> (r matches Err(
                AppError::NotFound(m),
            ) && m@ == missing_group_text(request.group_id@)),
            holds_group(old(self).groups(), request.group_id@) && !cron_readable(
                request.cron_expression,
            ) ==> (r matches Err(AppError::Validation(m)) && m@ == unreadable_text(
                request.cron_expression->0@,
            )),
            holds_group(old(self).groups(), request.group_id@) && cron_readable(
                request.cron_expression,
            ) && holds_id(old(self).reminders(), id@) ==> r matches Err(AppError::Validation(_)),
            r is Err ==> final(self).reminders() == old(self).reminders() && final(self).registry()
                == old(self).registry(),
            r matches Ok(n) ==> {
                &&& n == new_reminder(request, id)
                &&& final(self).reminders() == old(self).reminders().push(n)
                &&& reminder_with_id(final(self).reminders(), id@) == Some(n)
                &&& final(self).jobs() == synced(old(self).jobs(), n)
            },
    {
        if !self.group_exists(request.group_id.as_str()) {
            let m = join_text("Group with id ", request.group_id.as_str());
            return Err(AppError::NotFound(join_text(m.as_str(), " not found")));
        }
        if let Some(c) = &request.cron_expression {
            match to_cron_expression(c.as_str()) {
                Ok(_) => {},
                Err(e) => {
                    return Err(e);
                },
            }
        }
        let reminder = Reminder {
            id,
            title: request.title,
            color: request.color,
            group_id: request.group_id,
            cron_expression: request.cron_expression,
            start_at: request.start_at,
            last_triggered: None,
            is_cancelled: false,
            is_deleted: false,
            is_paused: false,
            description: request.description,
            created_at: None,
            end_at: request.end_at,
        };
        let ghost rs = self.reminders();
        let ghost jobs = self.jobs();
        match self.repository.add_reminder(reminder.duplicate()) {
            Ok(()) => {},
            Err(e) => {
                return Err(e);
            },
        }
        let _ = self.scheduler.remove_reminder_job(reminder.id.as_str());
        let _ = self.scheduler.add_reminder_job(&reminder);
        assert(self.jobs() =~= synced(jobs, reminder));
        proof {
            lemma_lookup_after_push(rs, reminder);
            if consistent(rs, jobs) {
                lemma_sync_keeps_consistency(rs, jobs, self.reminders(), reminder);
            }
        }
        Ok(reminder)
    }

    /// Creates an active reminder under a fresh identifier; see
    /// `create_reminder_with_id`. Should the random identifier be taken, the
    /// call fails with a validation error and nothing changes.
    pub fn create_reminder(&mut self, request: CreateReminderRequest) -> (r: AppResult<Reminder>)
        requires
            old(self).wf(),
        ensures
            final(self).wf(),
            old(self).in_sync() ==> final(self).in_sync(),
            final(self).groups() == old(self).groups(),
            r is Ok ==> holds_group(old(self).groups(), request.group_id@) && cron_readable(
                request.cron_expression,
            ),
            !holds_group(old(self).groups(), request.group_id@) ==> (r matches Err(
                AppError::NotFound(m),
            ) && m@ == missing_group_text(request.group_id@)),
            holds_group(old(self).groups(), request.group_id@) && !cron_readable(
                request.cron_expression,
            ) ==> (r matches Err(AppError::Validation(m)) && m@ == unreadable_text(
                request.cron_expression->0@,
            )),
            holds_group(old(self).groups(), request.group_id@) && cron_readable(
                request.cron_expression,
            ) && r is Err ==> r->Err_0 is Validation,
            r is Err ==> final(self).reminders() == old(self).reminders() && final(self).registry()
                == old(self).registry(),
            r matches Ok(n) ==> {
                &&& !holds_id(old(self).reminders(), n.id@)
                &&& n == new_reminder(request, n.id)
                &&& final(self).reminders() == old(self).reminders().push(n)
                &&& reminder_with_id(final(self).reminders(), n.id@) == Some(n)
                &&& final(self).jobs() == synced(old(self).jobs(), n)
            },
    {
        let id = fresh_id();
        self.create_reminder_with_id(request, id)
    }

    /// Overwrites the provided fields. A new cron expression that neither
    /// parses nor translates is a validation failure quoting it, and nothing
    /// changes. When the cron expression or the window is among the fields, the reminder's job is removed and, if the reminder is
    /// schedulable, added again on the current expression; otherwise the
    /// registry is not touched.
    pub fn update_reminder(&mut self, reminder_id: &str, request: UpdateReminderRequest) -> (r:
        AppResult<Reminder>)
        requires
            old(self).wf(),
        ensures
            final(self).wf(),
            old(self).in_sync() ==> final(self).in_sync(),
            final(self).groups() == old(self).groups(),
            r is Ok <==> holds_id(old(self).reminders(), reminder_id@) && cron_readable(
                request.cron_expression,
            ),
            !holds_id(old(self).reminders(), reminder_id@) ==> (r matches Err(AppError::NotFound(m))
                && m@ == missing_reminder_text(reminder_id@)),
            holds_id(old(self).reminders(), reminder_id@) && !cron_readable(request.cron_expression)
                ==> (r matches Err(AppError::Validation(m)) && m@ == unreadable_text(
                request.cron_expression->0@,
            )),
            r is Err ==> final(self).reminders() == old(self).reminders() && final(self).registry()
                == old(self).registry(),
            r matches Ok(n) ==> {
                let before = reminder_with_id(old(self).reminders(), reminder_id@)->0;
                &&& n == before.updated(
                    request.title,
                    request.color,
                    request.cron_expression,
                    request.description,
                    request.start_at,
                    request.end_at,
                )
                &&& final(self).reminders() == old(self).reminders().update(
                    index_of_id(old(self).reminders(), reminder_id@),
                    n,
                )
                &&& request.touches_schedule() ==> final(self).jobs() == synced(old(self).jobs(), n)
                &&& !request.touches_schedule() ==> final(self).registry() == old(self).registry()
            },
    {
        let mut reminder = match self.fetch(reminder_id) {
            Ok(found) => found,
            Err(e) => {
                return Err(e);
            },
        };
        if let Some(c) = &request.cron_expression {
            match to_cron_expression(c.as_str()) {
                Ok(_) => {},
                Err(e) => {
                    return Err(e);
                },
            }
        }
        let ghost rs = self.reminders();
        let ghost jobs = self.jobs();
        let ghost before = reminder;
        let changed = reminder.update(
            request.title,
            request.color,
            request.cron_expression,
            request.description,
            request.start_at,
            request.end_at,
        );
        match self.repository.update_reminder(&reminder) {
            Ok(()) => {},
            Err(e) => {
                return Err(e);
            },
        }
        proof {
            lemma_lookup_after_update(rs, index_of_id(rs, reminder_id@), reminder);
        }
        if changed {
            let _ = self.scheduler.remove_reminder_job(reminder.id.as_str());
            if reminder.is_active() {
                let _ = self.scheduler.add_reminder_job(&reminder);
            }
            assert(self.jobs() =~= synced(jobs, reminder));
            proof {
                if consistent(rs, jobs) {
                    lemma_sync_keeps_consistency(rs, jobs, self.reminders(), reminder);
                }
            }
        } else {
            proof {
                if consistent(rs, jobs) {
                    lemma_same_schedule_keeps_consistency(rs, jobs, self.reminders(), before, reminder);
                }
            }
        }
        Ok(reminder)
    }

    /// Pauses the reminder and removes its job.
    pub fn pause_reminder(&mut self, reminder_id: &str) -> (r: AppResult<()>)
        requires
            old(self).wf(),
        ensures
            final(self).wf(),
            old(self).in_sync() ==> final(self).in_sync(),
            final(self).groups() == old(self).groups(),
            r is Ok <==> holds_id(old(self).reminders(), reminder_id@),
            r is Err ==> (r matches Err(AppError::NotFound(m)) && m@ == missing_reminder_text(
                reminder_id@,
            )) && final(self).reminders() == old(self).reminders()
                && final(self).registry() == old(self).registry(),
            r is Ok ==> final(self).reminders() == with_pause(old(self).reminders(), reminder_id@, true)
                && final(self).jobs() == old(self).jobs().remove(reminder_id@),
    {
        let mut reminder = match self.fetch(reminder_id) {
            Ok(found) => found,
            Err(e) => {
                return Err(e);
            },
        };
        let ghost rs = self.reminders();
        let ghost jobs = self.jobs();
        reminder.pause();
        match self.repository.update_reminder(&reminder) {
            Ok(()) => {},
            Err(e) => {
                return Err(e);
            },
        }
        let _ = self.scheduler.remove_reminder_job(reminder_id);
        proof {
            lemma_lookup_after_update(rs, index_of_id(rs, reminder_id@), reminder);
            if consistent(rs, jobs) {
                lemma_sync_keeps_consistency(rs, jobs, self.reminders(), reminder);
            }
        }
        Ok(())
    }

    /// Clears the pause flag and schedules the reminder again when it is
    /// schedulable; any job it had is replaced, so it never has two.
    pub fn resume_reminder(&mut self, reminder_id: &str) -> (r: AppResult<()>)
        requires
            old(self).wf(),
        ensures
            final(self).wf(),
            old(self).in_sync() ==> final(self).in_sync(),
            final(self).groups() == old(self).groups(),
            r is Ok <==> holds_id(old(self).reminders(), reminder_id@),
            r is Err ==> (r matches Err(AppError::NotFound(m)) && m@ == missing_reminder_text(
                reminder_id@,
            )) && final(self).reminders() == old(self).reminders()
                && final(self).registry() == old(self).registry(),
            r is Ok ==> {
                let rs2 = with_pause(old(self).reminders(), reminder_id@, false);
                &&& final(self).reminders() == rs2
                &&& final(self).jobs() == synced(
                    old(self).jobs(),
                    rs2[index_of_id(old(self).reminders(), reminder_id@)],
                )
            },
    {
        let mut reminder = match self.fetch(reminder_id) {
            Ok(found) => found,
            Err(e) => {
                return Err(e);
            },
        };
        let ghost rs = self.reminders();
        let ghost jobs = self.jobs();
        reminder.resume();
        match self.repository.update_reminder(&reminder) {
            Ok(()) => {},
            Err(e) => {
                return Err(e);
            },
        }
        let _ = self.scheduler.remove_reminder_job(reminder_id);
        if reminder.is_active() {
            let _ = self.scheduler.add_reminder_job(&reminder);
        }
        assert(self.jobs() =~= synced(jobs, reminder));
        proof {
            lemma_lookup_after_update(rs, index_of_id(rs, reminder_id@), reminder);
            if consistent(rs, jobs) {
                lemma_sync_keeps_consistency(rs, jobs, self.reminders(), reminder);
            }
        }
        Ok(())
    }

    /// Cancels the reminder and removes its job.
    pub fn cancel_reminder(&mut self, reminder_id: &str) -> (r: AppResult<()>)
        requires
            old(self).wf(),
        ensures
            final(self).wf(),
            old(self).in_sync() ==> final(self).in_sync(),
            final(self).groups() == old(self).groups(),
            r is Ok <==> holds_id(old(self).reminders(), reminder_id@),
            r is Err ==> (r matches Err(AppError::NotFound(m)) && m@ == missing_reminder_text(
                reminder_id@,
            )) && final(self).reminders() == old(self).reminders()
                && final(self).registry() == old(self).registry(),
            r is Ok ==> {
                let i = index_of_id(old(self).reminders(), reminder_id@);
                &&& final(self).reminders() == old(self).reminders().update(
                    i,
                    Reminder { is_cancelled: true, ..old(self).reminders()[i] },
                )
                &&& final(self).jobs() == old(self).jobs().remove(reminder_id@)
            },
    {
        let mut reminder = match self.fetch(reminder_id) {
            Ok(found) => found,
            Err(e) => {
                return Err(e);
            },
        };
        let ghost rs = self.reminders();
        let ghost jobs = self.jobs();
        reminder.cancel();
        match self.repository.update_reminder(&reminder) {
            Ok(()) => {},
            Err(e) => {
                return Err(e);
            },
        }
        let _ = self.scheduler.remove_reminder_job(reminder_id);
        proof {
            lemma_lookup_after_update(rs, index_of_id(rs, reminder_id@), reminder);
            if consistent(rs, jobs) {
                lemma_sync_keeps_consistency(rs, jobs, self.reminders(), reminder);
            }
        }
        Ok(())
    }

    /// Marks the reminder deleted (it stays in the store) and removes its job.
    pub fn delete_reminder(&mut self, reminder_id: &str) -> (r: AppResult<()>)
        requires
            old(self).wf(),
        ensures
            final(self).wf(),
            old(self).in_sync() ==> final(self).in_sync(),
            final(self).groups() == old(self).groups(),
            r is Ok <==> holds_id(old(self).reminders(), reminder_id@),
            r is Err ==> (r matches Err(AppError::NotFound(m)) && m@ == missing_reminder_text(
                reminder_id@,
            )) && final(self).reminders() == old(self).reminders()
                && final(self).registry() == old(self).registry(),
            r is Ok ==> {
                let i = index_of_id(old(self).reminders(), reminder_id@);
                &&& final(self).reminders() == old(self).reminders().update(
                    i,
                    Reminder { is_deleted: true, ..old(self).reminders()[i] },
                )
                &&& final(self).jobs() == old(self).jobs().remove(reminder_id@)
            },
    {
        let mut reminder = match self.fetch(reminder_id) {
            Ok(found) => found,
            Err(e) => {
                return Err(e);
            },
        };
        let ghost rs = self.reminders();
        let ghost jobs = self.jobs();
        reminder.delete();
        match self.repository.update_reminder(&reminder) {
            Ok(()) => {},
            Err(e) => {
                return Err(e);
            },
        }
        let _ = self.scheduler.remove_reminder_job(reminder_id);
        proof {
            lemma_lookup_after_update(rs, index_of_id(rs, reminder_id@), reminder);
            if consistent(rs, jobs) {
                lemma_sync_keeps_consistency(rs, jobs, self.reminders(), reminder);
            }
        }
        Ok(())
    }

    /// Deletes the group, every reminder in it and their jobs. A group that
    /// does not exist is a not-found failure, and nothing changes.
    pub fn delete_group(&mut self, group_id: &str) -> (r: AppResult<()>)
        requires
            old(self).wf(),
        ensures
            final(self).wf(),
            old(self).in_sync() ==> final(self).in_sync(),
            r is Ok <==> holds_group(old(self).groups(), group_id@),
            r is Err ==> (r matches Err(AppError::NotFound(m)) && m@ == missing_group_text(
                group_id@,
            )) && final(self).groups() == old(self).groups()
                && final(self).reminders() == old(self).reminders() && final(self).registry()
                == old(self).registry(),
            r is Ok ==> {
                &&& final(self).groups() == other_groups(old(self).groups(), group_id@)
                &&& final(self).reminders() == outside_group(old(self).reminders(), group_id@)
                &&& final(self).jobs() == old(self).jobs().remove_keys(
                    member_ids(old(self).reminders(), group_id@),
                )
            },
    {
        if !self.group_exists(group_id) {
            let m = join_text("Group with id ", group_id);
            return Err(AppError::NotFound(join_text(m.as_str(), " not found")));
        }
        let all = match self.repository.get_reminders() {
            Ok(v) => v,
            Err(e) => {
                return Err(e);
            },
        };
        let key = group_id.to_owned();
        let ghost rs0 = self.reminders();
        let ghost jobs0 = self.jobs();
        let ghost groups0 = self.groups();
        let ghost keep = not_in_group(group_id@);
        let mut i: usize = 0;
        while i < all.len()
            invariant
                i <= all.len(),
                all@ == rs0,
                key@ == group_id@,
                keep == not_in_group(group_id@),
                self.wf(),
                ids_unique(rs0),
                self.groups() == groups0,
                self.reminders() == rs0.take(i as int).filter(keep) + rs0.skip(i as int),
                self.jobs() == jobs0.remove_keys(member_ids(rs0.take(i as int), group_id@)),
                consistent(rs0, jobs0) ==> consistent(self.reminders(), self.jobs()),
            decreases all.len() - i,
        {
            let ghost cur = self.reminders();
            let ghost front = rs0.take(i as int).filter(keep);
            proof {
                assert(rs0.take(i + 1) =~= rs0.take(i as int).push(rs0[i as int]));
                rs0.take(i as int).lemma_filter_push(rs0[i as int], keep);
                assert(cur[front.len() as int] == rs0[i as int]);
            }
            if all[i].group_id == key {
                let ghost p = front.len() as int;
                proof {
                    lemma_index_of_id(cur, rs0[i as int].id@, p);
                    assert(cur.remove(p) =~= rs0.take(i + 1).filter(keep) + rs0.skip(i + 1));
                    if consistent(rs0, jobs0) {
                        lemma_removal_keeps_consistency(cur, self.jobs(), p);
                    }
                }
                let _ = self.scheduler.remove_reminder_job(all[i].id.as_str());
                match self.repository.remove_reminder(all[i].id.as_str()) {
                    Ok(()) => {},
                    Err(e) => {
                        return Err(e);
                    },
                }
                assert(member_ids(rs0.take(i + 1), group_id@) =~= member_ids(
                    rs0.take(i as int),
                    group_id@,
                ).insert(rs0[i as int].id@)) by {
                    assert(rs0.take(i + 1)[i as int] == rs0[i as int]);
                    assert forall|k: Seq<char>| #[trigger]
                        member_ids(rs0.take(i as int), group_id@).contains(k) implies member_ids(
                        rs0.take(i + 1),
                        group_id@,
                    ).contains(k) by {
                        let j = choose|j: int|
                            0 <= j < rs0.take(i as int).len() && (#[trigger] rs0.take(
                                i as int,
                            )[j]).id@ == k && rs0.take(i as int)[j].group_id@ == group_id@;
                        assert(rs0.take(i + 1)[j] == rs0.take(i as int)[j]);
                    }
                    assert forall|k: Seq<char>| #[trigger]
                        member_ids(rs0.take(i + 1), group_id@).contains(k) && k != rs0[i as int].id@
                        implies member_ids(rs0.take(i as int), group_id@).contains(k) by {
                        let j = choose|j: int|
                            0 <= j < rs0.take(i + 1).len() && (#[trigger] rs0.take(i + 1)[j]).id@
                                == k && rs0.take(i + 1)[j].group_id@ == group_id@;
                        assert(rs0.take(i as int)[j] == rs0.take(i + 1)[j]);
                    }
                }
                assert(self.jobs() =~= jobs0.remove_keys(member_ids(rs0.take(i + 1), group_id@)));
            } else {
                proof {
                    assert(cur =~= rs0.take(i + 1).filter(keep) + rs0.skip(i + 1));
                    assert(member_ids(rs0.take(i + 1), group_id@) =~= member_ids(
                        rs0.take(i as int),
                        group_id@,
                    )) by {
                        assert forall|k: Seq<char>| #[trigger]
                            member_ids(rs0.take(i + 1), group_id@).contains(k) implies member_ids(
                            rs0.take(i as int),
                            group_id@,
                        ).contains(k) by {
                            let j = choose|j: int|
                                0 <= j < rs0.take(i + 1).len() && (#[trigger] rs0.take(
                                    i + 1,
                                )[j]).id@ == k && rs0.take(i + 1)[j].group_id@ == group_id@;
                            assert(j != i as int);
                            assert(rs0.take(i as int)[j] == rs0.take(i + 1)[j]);
                        }
                        assert forall|k: Seq<char>| #[trigger]
                            member_ids(rs0.take(i as int), group_id@).contains(k) implies member_ids(
                            rs0.take(i + 1),
                            group_id@,
                        ).contains(k) by {
                            let j = choose|j: int|
                                0 <= j < rs0.take(i as int).len() && (#[trigger] rs0.take(
                                    i as int,
                                )[j]).id@ == k && rs0.take(i as int)[j].group_id@ == group_id@;
                            assert(rs0.take(i + 1)[j] == rs0.take(i as int)[j]);
                        }
                    }
                }
            }
            i = i + 1;
        }
        proof {
            assert(rs0.take(i as int) =~= rs0);
            assert(rs0.skip(i as int) =~= Seq::<Reminder>::empty());
            assert(self.reminders() =~= outside_group(rs0, group_id@));
        }
        match self.repository.remove_group(group_id) {
            Ok(()) => {},
            Err(e) => {
                return Err(e);
            },
        }
        Ok(())
    }

    /// Handles the due jobs for `due`, in order, at minute `now` of the day:
    /// each re-reads its reminder and, when it fires, stamps it with `at`. The
    /// titles of the reminders that fired are returned for notification. The
    /// registry is not touched.
    pub fn fire_due(&mut self, due: &Vec<String>, now: u32, at: i64) -> (r: Vec<String>)
        requires
            old(self).wf(),
        ensures
            final(self).wf(),
            old(self).in_sync() ==> final(self).in_sync(),
            final(self).groups() == old(self).groups(),
            final(self).registry() == old(self).registry(),
            final(self).reminders() == fired_state(old(self).reminders(), text_views(due@), now as int, at),
            text_views(r@) == fired_titles(old(self).reminders(), text_views(due@), now as int, at),
    {
        let ghost rs0 = self.reminders();
        let ghost jobs0 = self.jobs();
        let ghost ids = text_views(due@);
        let mut titles: Vec<String> = Vec::new();
        let mut i: usize = 0;
        while i < due.len()
            invariant
                i <= due.len(),
                ids == text_views(due@),
                self.wf(),
                self.groups() == old(self).groups(),
                self.registry() == old(self).registry(),
                self.jobs() == jobs0,
                rs0 == old(self).reminders(),
                self.reminders() == fired_state(rs0, ids.take(i as int), now as int, at),
                text_views(titles@) == fired_titles(rs0, ids.take(i as int), now as int, at),
                consistent(rs0, jobs0) ==> consistent(self.reminders(), self.jobs()),
            decreases due.len() - i,
        {
            let ghost cur = self.reminders();
            proof {
                assert(ids.take(i + 1).drop_last() =~= ids.take(i as int));
                assert(ids.take(i + 1).last() == due@[i as int]@);
            }
            let current = match self.repository.find_reminder(due[i].as_str()) {
                Ok(found) => found,
                Err(_) => None,
            };
            if should_fire(&current, now) {
                let mut reminder = match current {
                    Some(found) => found,
                    None => {
                        return titles;
                    },
                };
                let ghost before = reminder;
                titles.push(reminder.title.clone());
                reminder.mark_triggered(at);
                let ghost idx = index_of_id(cur, due@[i as int]@);
                proof {
                    lemma_index_of_id(cur, due@[i as int]@, idx);
                    lemma_lookup_after_update(cur, idx, reminder);
                    if consistent(rs0, jobs0) {
                        lemma_same_schedule_keeps_consistency(cur, jobs0, cur.update(idx, reminder), before, reminder);
                    }
                }
                match self.repository.update_reminder(&reminder) {
                    Ok(()) => {},
                    Err(_) => {
                        return titles;
                    },
                }
                assert(text_views(titles@) =~= fired_titles(rs0, ids.take(i + 1), now as int, at));
            } else {
                assert(text_views(titles@) =~= fired_titles(rs0, ids.take(i + 1), now as int, at));
            }
            i = i + 1;
        }
        assert(ids.take(i as int) =~= ids);
        titles
    }

    /// One pass of the tick engine: runs the jobs that are due and handles
    /// them against the current store at the current time; returns the titles
    /// to notify.
    pub fn tick(&mut self) -> (r: Vec<String>)
        requires
            old(self).wf(),
        ensures
            final(self).wf(),
            old(self).in_sync() ==> final(self).in_sync(),
            final(self).groups() == old(self).groups(),
            final(self).jobs() == old(self).jobs(),
            exists|ids: Seq<Seq<char>>, now: int, at: i64|
                0 <= now < 1440 && final(self).reminders() == fired_state(
                    old(self).reminders(),
                    ids,
                    now,
                    at,
                ) && text_views(r@) == fired_titles(old(self).reminders(), ids, now, at),
    {
        let due = self.scheduler.due_reminders();
        let now = minute_now();
        let at = unix_now();
        let titles = self.fire_due(&due, now, at);
        proof {
            let ids = text_views(due@);
            let n = now as int;
            assert(0 <= n < 1440 && self.reminders() == fired_state(old(self).reminders(), ids, n, at)
                && text_views(titles@) == fired_titles(old(self).reminders(), ids, n, at));
        }
        titles
    }

    /// Recovery at minute `now` of the day: schedules each stored reminder that
    /// is active and not past its end time.
    pub fn restore_jobs_at(&mut self, now: u32) -> (r: AppResult<()>)
        requires
            old(self).wf(),
        ensures
            r is Ok,
            final(self).wf(),
            final(self).groups() == old(self).groups(),
            final(self).reminders() == old(self).reminders(),
            final(self).jobs() == restored(old(self).jobs(), old(self).reminders(), now as int),
            old(self).in_sync() ==> final(self).in_sync(),
    {
        let reminders = match self.repository.get_reminders() {
            Ok(v) => v,
            Err(e) => {
                return Err(e);
            },
        };
        let r = self.scheduler.restore_jobs_at(reminders.as_slice(), now);
        proof {
            if consistent(self.reminders(), old(self).jobs()) {
                lemma_recovery_keeps_agreement(
                    self.reminders(),
                    old(self).jobs(),
                    now as int,
                    self.reminders().len() as int,
                );
                assert(self.reminders().take(self.reminders().len() as int) =~= self.reminders());
            }
        }
        r
    }

    /// Recovery at the current time of day.
    pub fn restore_reminder_jobs(&mut self) -> (r: AppResult<()>)
        requires
            old(self).wf(),
        ensures
            r is Ok,
            final(self).wf(),
            final(self).groups() == old(self).groups(),
            final(self).reminders() == old(self).reminders(),
            exists|now: int|
                0 <= now < 1440 && final(self).jobs() == restored(
                    old(self).jobs(),
                    old(self).reminders(),
                    now,
                ),
            old(self).in_sync() ==> final(self).in_sync(),
    {
        let now = minute_now();
        self.restore_jobs_at(now)
    }
}

} // verus!
