use crate::error::{join_text, AppError, AppResult};
use crate::models::Reminder;
use crate::trigger::{ended_by, has_ended};
use crate::clock::minute_now;
use crate::schedule::{cron_translation, engine_accepts, parse_schedule, runnable, to_cron_expression};
use job_scheduler_ng::{Job, JobScheduler, Schedule};
use std::sync::mpsc::{Receiver, Sender};
use uuid::Uuid;
use vstd::multiset::Multiset;
use vstd::prelude::*;

verus! {

#[verifier::external_type_specification]
#[verifier::external_body]
pub struct ExJobScheduler<'a>(JobScheduler<'a>);

#[verifier::external_type_specification]
#[verifier::external_body]
pub struct ExJob<'a>(Job<'a>);

#[verifier::external_type_specification]
#[verifier::external_body]
pub struct ExUuid(Uuid);

#[verifier::external_type_specification]
#[verifier::external_body]
#[verifier::reject_recursive_types(T)]
pub struct ExSender<T>(Sender<T>);

#[verifier::external_type_specification]
#[verifier::external_body]
#[verifier::reject_recursive_types(T)]
pub struct ExReceiver<T>(Receiver<T>);

/// The handles of the jobs that a job scheduler holds.
pub uninterp spec fn scheduled_jobs(s: JobScheduler<'static>) -> Multiset<Uuid>;

/// Relies on job_scheduler_ng::JobScheduler::new: a scheduler without jobs.
#[verifier::external_body]
fn empty_scheduler() -> (r: JobScheduler<'static>)
    ensures
        scheduled_jobs(r) == Multiset::<Uuid>::empty(),
{
    JobScheduler::new()
}

/// Relies on job_scheduler_ng::JobScheduler::add: the job joins the scheduler
/// under the handle that is returned.
#[verifier::external_body]
fn schedule_job(s: &mut JobScheduler<'static>, job: Job<'static>) -> (r: Uuid)
    ensures
        scheduled_jobs(*final(s)) == scheduled_jobs(*old(s)).insert(r),
{
    s.add(job)
}

/// Relies on job_scheduler_ng::JobScheduler::remove: one job with the handle
/// leaves, and the result says whether there was one.
#[verifier::external_body]
fn unschedule_job(s: &mut JobScheduler<'static>, handle: Uuid) -> (r: bool)
    ensures
        r == scheduled_jobs(*old(s)).contains(handle),
        scheduled_jobs(*final(s)) == scheduled_jobs(*old(s)).remove(handle),
{
    s.remove(handle)
}

/// Relies on job_scheduler_ng::JobScheduler::tick: runs the bodies of the jobs
/// that are due; the set of jobs stays as it is.
#[verifier::external_body]
fn run_due_jobs(s: &mut JobScheduler<'static>)
    ensures
        scheduled_jobs(*final(s)) == scheduled_jobs(*old(s)),
{
    s.tick()
}

/// Relies on std::sync::mpsc::Sender::send: queues the identifier for the
/// receiving end (dropped if that end is gone).
#[verifier::external_body]
fn send_signal(signal: &Sender<String>, reminder_id: String) {
    let _ = signal.send(reminder_id);
}

/// The body of every job: it reports its reminder as due. Whether the reminder
/// fires is decided afterwards, against the store as it is then.
fn report_due(signal: &Sender<String>, reminder_id: &String) {
    send_signal(signal, reminder_id.clone());
}

/// Relies on job_scheduler_ng::Job::new: a job on the schedule whose body runs
/// `report_due` for the reminder each time it is due.
#[verifier::external_body]
fn signalling_job(schedule: Schedule, signal: &Sender<String>, reminder_id: &String) -> (r: Job<
    'static,
>) {
    let signal = signal.clone();
    let reminder_id = reminder_id.clone();
    Job::new(schedule, move || report_due(&signal, &reminder_id))
}

/// Relies on std::sync::mpsc::channel: a connected sender and receiver.
#[verifier::external_body]
fn signal_channel() -> (r: (Sender<String>, Receiver<String>)) {
    std::sync::mpsc::channel()
}

/// Relies on std::sync::mpsc::Receiver::try_iter: what has been sent and not
/// yet received, without waiting.
#[verifier::external_body]
fn take_signals(due: &Receiver<String>) -> (r: Vec<String>) {
    due.try_iter().collect()
}

/// One registered job: the reminder it serves, the cron source it was built
/// from, and the scheduler's handle for it.
struct JobEntry {
    reminder_id: String,
    cron_source: String,
    handle: Uuid,
}

spec fn handles(es: Seq<JobEntry>) -> Multiset<Uuid> {
    es.map_values(|e: JobEntry| e.handle).to_multiset()
}

spec fn keys_unique(es: Seq<JobEntry>) -> bool {
    forall|i: int, j: int|
        0 <= i < es.len() && 0 <= j < es.len() && i != j ==> (#[trigger] es[i]).reminder_id@ != (
        #[trigger] es[j]).reminder_id@
}

spec fn has_key(es: Seq<JobEntry>, k: Seq<char>) -> bool {
    exists|i: int| 0 <= i < es.len() && (#[trigger] es[i]).reminder_id@ == k
}

spec fn key_index(es: Seq<JobEntry>, k: Seq<char>) -> int {
    choose|i: int| 0 <= i < es.len() && (#[trigger] es[i]).reminder_id@ == k
}

spec fn entries_view(es: Seq<JobEntry>) -> Map<Seq<char>, Seq<char>> {
    Map::new(|k: Seq<char>| has_key(es, k), |k: Seq<char>| es[key_index(es, k)].cron_source@)
}

proof fn lemma_key_index(es: Seq<JobEntry>, i: int)
    requires
        keys_unique(es),
        0 <= i < es.len(),
    ensures
        has_key(es, es[i].reminder_id@),
        key_index(es, es[i].reminder_id@) == i,
{
    let k = es[i].reminder_id@;
    assert(has_key(es, k));
    let j = key_index(es, k);
    assert(es[j].reminder_id@ == es[i].reminder_id@);
}

proof fn lemma_push_entry(es: Seq<JobEntry>, e: JobEntry)
    requires
        keys_unique(es),
        !has_key(es, e.reminder_id@),
    ensures
        keys_unique(es.push(e)),
        entries_view(es.push(e)) == entries_view(es).insert(e.reminder_id@, e.cron_source@),
        handles(es.push(e)) == handles(es).insert(e.handle),
{
    let es2 = es.push(e);
    assert forall|i: int, j: int|
        0 <= i < es2.len() && 0 <= j < es2.len() && i != j implies (#[trigger] es2[i]).reminder_id@
        != (#[trigger] es2[j]).reminder_id@ by {
        if i < es.len() && j < es.len() {
            assert(es2[i] == es[i] && es2[j] == es[j]);
        } else if i < es.len() {
            assert(es2[i] == es[i]);
        } else {
            assert(es2[j] == es[j]);
        }
    }
    assert forall|k: Seq<char>| #[trigger] has_key(es2, k) == (has_key(es, k) || k
        == e.reminder_id@) by {
        if has_key(es, k) {
            let i = choose|i: int| 0 <= i < es.len() && (#[trigger] es[i]).reminder_id@ == k;
            assert(es2[i] == es[i]);
        }
        if has_key(es2, k) {
            let i = choose|i: int| 0 <= i < es2.len() && (#[trigger] es2[i]).reminder_id@ == k;
            if i < es.len() {
                assert(es2[i] == es[i]);
            }
        }
        assert(es2[es.len() as int] == e);
    }
    assert forall|k: Seq<char>| has_key(es2, k) implies es2[key_index(es2, k)].cron_source@ == (
    if k == e.reminder_id@ {
        e.cron_source@
    } else {
        es[key_index(es, k)].cron_source@
    }) by {
        let i = key_index(es2, k);
        lemma_key_index(es2, i);
        if k == e.reminder_id@ {
            lemma_key_index(es2, es.len() as int);
        } else {
            assert(i < es.len()) by {
                if i == es.len() as int {
                    assert(es2[i] == e);
                }
            }
            assert(es2[i] == es[i]);
            lemma_key_index(es, i);
        }
    }
    assert(entries_view(es2) =~= entries_view(es).insert(e.reminder_id@, e.cron_source@));
    let f = |x: JobEntry| x.handle;
    assert(es2.map_values(f) =~= es.map_values(f).push(e.handle));
    es.map_values(f).to_multiset_ensures();
}

proof fn lemma_remove_entry(es: Seq<JobEntry>, i: int)
    requires
        keys_unique(es),
        0 <= i < es.len(),
    ensures
        keys_unique(es.remove(i)),
        entries_view(es.remove(i)) == entries_view(es).remove(es[i].reminder_id@),
        handles(es.remove(i)) == handles(es).remove(es[i].handle),
        handles(es).contains(es[i].handle),
{
    let es2 = es.remove(i);
    let gone = es[i].reminder_id@;
    assert forall|a: int, b: int|
        0 <= a < es2.len() && 0 <= b < es2.len() && a != b implies (#[trigger] es2[a]).reminder_id@
        != (#[trigger] es2[b]).reminder_id@ by {
        let a0 = if a < i { a } else { a + 1 };
        let b0 = if b < i { b } else { b + 1 };
        assert(es2[a] == es[a0] && es2[b] == es[b0]);
    }
    assert forall|k: Seq<char>| #[trigger] has_key(es2, k) == (has_key(es, k) && k != gone) by {
        if has_key(es2, k) {
            let a = choose|a: int| 0 <= a < es2.len() && (#[trigger] es2[a]).reminder_id@ == k;
            let a0 = if a < i { a } else { a + 1 };
            assert(es2[a] == es[a0]);
        }
        if has_key(es, k) && k != gone {
            let a0 = choose|a: int| 0 <= a < es.len() && (#[trigger] es[a]).reminder_id@ == k;
            let a = if a0 < i { a0 } else { a0 - 1 };
            assert(es2[a] == es[a0]);
        }
    }
    assert forall|k: Seq<char>| has_key(es2, k) implies es2[key_index(es2, k)].cron_source@
        == es[key_index(es, k)].cron_source@ by {
        let a = key_index(es2, k);
        lemma_key_index(es2, a);
        let a0 = if a < i { a } else { a + 1 };
        assert(es2[a] == es[a0]);
        lemma_key_index(es, a0);
    }
    assert(entries_view(es2) =~= entries_view(es).remove(gone));
    let f = |x: JobEntry| x.handle;
    assert(es2.map_values(f) =~= es.map_values(f).remove(i));
    es.map_values(f).to_multiset_ensures();
    assert(es.map_values(f)[i] == es[i].handle);
    assert(handles(es).count(es[i].handle) > 0) by {
        vstd::seq_lib::to_multiset_contains(es.map_values(f), es[i].handle);
        assert(es.map_values(f).contains(es[i].handle));
    }
}

proof fn lemma_view_size(es: Seq<JobEntry>)
    requires
        keys_unique(es),
    ensures
        entries_view(es).dom().finite(),
        entries_view(es).len() == es.len(),
        handles(es).len() == es.len(),
    decreases es.len(),
{
    let f = |x: JobEntry| x.handle;
    vstd::seq_lib::to_multiset_len(es.map_values(f));
    if es.len() == 0 {
        assert(entries_view(es) =~= Map::<Seq<char>, Seq<char>>::empty());
    } else {
        let d = es.drop_last();
        let last = es.last();
        assert(es =~= d.push(last));
        assert(keys_unique(d)) by {
            assert forall|a: int, b: int|
                0 <= a < d.len() && 0 <= b < d.len() && a != b implies (#[trigger] d[a]).reminder_id@
                != (#[trigger] d[b]).reminder_id@ by {
                assert(d[a] == es[a] && d[b] == es[b]);
            }
        }
        assert(!has_key(d, last.reminder_id@)) by {
            if has_key(d, last.reminder_id@) {
                let j = choose|j: int| 0 <= j < d.len() && (#[trigger] d[j]).reminder_id@ == last.reminder_id@;
                assert(es[j] == d[j]);
                assert(es[es.len() - 1] == last);
            }
        }
        lemma_view_size(d);
        lemma_push_entry(d, last);
    }
}

/// A reminder that recovery schedules at minute `now` of the day: active, not
/// past its end time, and holding a cron expression the engine can run. One
/// that is past its end time stays unscheduled until the next recovery; it is
/// not re-armed when its window opens again the next day, and whether daily
/// windows should re-arm is an open product question.
pub open spec fn restorable(r: Reminder, now: int) -> bool {
    r.active() && !ended_by(r, now) && r.cron_expression is Some && runnable(
        r.cron_expression->0@,
    )
}

/// The registry after recovery has gone through `rs` in order at minute `now`.
pub open spec fn restored(jobs: Map<Seq<char>, Seq<char>>, rs: Seq<Reminder>, now: int) -> Map<
    Seq<char>,
    Seq<char>,
>
    decreases rs.len(),
{
    if rs.len() == 0 {
        jobs
    } else {
        let before = restored(jobs, rs.drop_last(), now);
        let r = rs.last();
        if restorable(r, now) {
            before.insert(r.id@, r.cron_expression->0@)
        } else {
            before
        }
    }
}

/// The job registry: one scheduled job per registered reminder, keyed by the
/// reminder's identifier, on a job scheduler that a background loop ticks.
pub struct ReminderScheduler {
    scheduler: JobScheduler<'static>,
    job_ids: Vec<JobEntry>,
    signal: Sender<String>,
    due: Receiver<String>,
}

impl View for ReminderScheduler {
    /// Each registered reminder's identifier, mapped to the cron source its job runs.
    type V = Map<Seq<char>, Seq<char>>;

    closed spec fn view(&self) -> Map<Seq<char>, Seq<char>> {
        entries_view(self.job_ids@)
    }
}

impl ReminderScheduler {
    /// The registry's internal invariant: identifiers are unique and the
    /// scheduler holds exactly one job for each entry, and no other.
    pub closed spec fn wf(&self) -> bool {
        &&& keys_unique(self.job_ids@)
        &&& scheduled_jobs(self.scheduler) == handles(self.job_ids@)
    }

    /// The number of jobs on the underlying scheduler.
    pub closed spec fn job_count(&self) -> nat {
        scheduled_jobs(self.scheduler).len()
    }

    /// The scheduler holds exactly one job for each registered reminder: no
    /// reminder has two, and no job is left over from one that was removed.
    pub proof fn lemma_one_job_each(&self)
        requires
            self.wf(),
        ensures
            self@.dom().finite(),
            self.job_count() == self@.len(),
    {
        lemma_view_size(self.job_ids@);
    }

    pub fn new() -> (r: Self)
        ensures
            r.wf(),
            r@ == Map::<Seq<char>, Seq<char>>::empty(),
            r.job_count() == 0,
    {
        let (signal, due) = signal_channel();
        let r = ReminderScheduler { scheduler: empty_scheduler(), job_ids: Vec::new(), signal, due };
        proof {
            assert(r.job_ids@.map_values(|e: JobEntry| e.handle) =~= Seq::<Uuid>::empty());
            assert forall|u: Uuid| Seq::<Uuid>::empty().to_multiset().count(u) == 0 by {
                vstd::seq_lib::to_multiset_contains(Seq::<Uuid>::empty(), u);
            }
            assert(Seq::<Uuid>::empty().to_multiset() =~= Multiset::<Uuid>::empty());
            assert(r@ =~= Map::<Seq<char>, Seq<char>>::empty());
        }
        r
    }

    fn position(&self, reminder_id: &str) -> (r: Option<usize>)
        requires
            self.wf(),
        ensures
            r is Some <==> self@.contains_key(reminder_id@),
            r matches Some(i) ==> i < self.job_ids.len() && self.job_ids@[i as int].reminder_id@
                == reminder_id@,
    {
        let key = reminder_id.to_owned();
        let mut i: usize = 0;
        while i < self.job_ids.len()
            invariant
                i <= self.job_ids.len(),
                key@ == reminder_id@,
                forall|k: int| 0 <= k < i ==> (#[trigger] self.job_ids@[k]).reminder_id@ != reminder_id@,
            decreases self.job_ids.len() - i,
        {
            if self.job_ids[i].reminder_id == key {
                return Some(i);
            }
            i = i + 1;
        }
        None
    }

    /// Whether a job is registered for the reminder.
    pub fn has_job(&self, reminder_id: &str) -> (r: bool)
        requires
            self.wf(),
        ensures
            r == self@.contains_key(reminder_id@),
    {
        self.position(reminder_id).is_some()
    }

    /// Removes and cancels the reminder's job; an absent job is no error.
    pub fn remove_reminder_job(&mut self, reminder_id: &str) -> (r: AppResult<()>)
        requires
            old(self).wf(),
        ensures
            r is Ok,
            final(self).wf(),
            final(self)@ == old(self)@.remove(reminder_id@),
    {
        match self.position(reminder_id) {
            Some(i) => {
                let ghost before = self.job_ids@;
                let entry = self.job_ids.remove(i);
                proof {
                    lemma_remove_entry(before, i as int);
                }
                unschedule_job(&mut self.scheduler, entry.handle);
            },
            None => {
                assert(self@.remove(reminder_id@) =~= self@);
            },
        }
        Ok(())
    }

    /// Schedules a job for the reminder on its cron expression, in place of any
    /// job the reminder had. Fails, and leaves the registry as it was, when the
    /// reminder has no cron expression (validation) or the expression cannot be
    /// scheduled (scheduler).
    pub fn add_reminder_job(&mut self, reminder: &Reminder) -> (r: AppResult<()>)
        requires
            old(self).wf(),
        ensures
            final(self).wf(),
            r is Ok <==> (reminder.cron_expression matches Some(c) && runnable(c@)),
            r is Ok ==> final(self)@ == old(self)@.insert(
                reminder.id@,
                reminder.cron_expression->0@,
            ),
            r is Err ==> final(self)@ == old(self)@,
            reminder.cron_expression is None ==> r matches Err(AppError::Validation(_)),
            reminder.cron_expression is Some && r is Err ==> r matches Err(AppError::Scheduler(_)),
    {
        let source = match &reminder.cron_expression {
            Some(c) => c,
            None => {
                return Err(AppError::Validation(String::from_str("Cron expression is required")));
            },
        };
        let translated = match to_cron_expression(source.as_str()) {
            Ok(t) => t,
            Err(e) => {
                return Err(AppError::Scheduler(join_text("Invalid cron expression: ", e.message().as_str())));
            },
        };
        let schedule = match parse_schedule(translated.as_str()) {
            Ok(s) => s,
            Err(why) => {
                return Err(AppError::Scheduler(join_text("Invalid cron expression: ", why.as_str())));
            },
        };
        let _ = self.remove_reminder_job(reminder.id.as_str());
        assert(!self@.contains_key(reminder.id@));
        assert(!has_key(self.job_ids@, reminder.id@));
        let job = signalling_job(schedule, &self.signal, &reminder.id);
        let handle = schedule_job(&mut self.scheduler, job);
        let entry = JobEntry { reminder_id: reminder.id.clone(), cron_source: source.clone(), handle };
        proof {
            lemma_push_entry(self.job_ids@, entry);
        }
        self.job_ids.push(entry);
        Ok(())
    }

    /// Schedules, at minute `now` of the day, every reminder of `reminders`
    /// that is active and not past its end time; one that cannot be scheduled
    /// is passed over.
    pub fn restore_jobs_at(&mut self, reminders: &[Reminder], now: u32) -> (r: AppResult<()>)
        requires
            old(self).wf(),
        ensures
            r is Ok,
            final(self).wf(),
            final(self)@ == restored(old(self)@, reminders@, now as int),
    {
        let mut i: usize = 0;
        while i < reminders.len()
            invariant
                i <= reminders.len(),
                self.wf(),
                self@ == restored(old(self)@, reminders@.take(i as int), now as int),
            decreases reminders.len() - i,
        {
            let reminder = &reminders[i];
            assert(reminders@.take(i + 1).drop_last() =~= reminders@.take(i as int));
            assert(reminders@.take(i + 1).last() == reminders@[i as int]);
            if reminder.is_active() && !has_ended(reminder, now) {
                let _ = self.add_reminder_job(reminder);
            }
            i = i + 1;
        }
        assert(reminders@.take(i as int) =~= reminders@);
        Ok(())
    }

    /// Schedules every reminder of `reminders` that is active and not past its
    /// end time at the current time of day.
    pub fn restore_reminder_jobs(&mut self, reminders: &[Reminder]) -> (r: AppResult<()>)
        requires
            old(self).wf(),
        ensures
            r is Ok,
            final(self).wf(),
            exists|now: int| 0 <= now < 1440 && final(self)@ == restored(old(self)@, reminders@, now),
    {
        let now = minute_now();
        self.restore_jobs_at(reminders, now)
    }

    /// Runs the jobs that are due and returns the identifiers of the reminders
    /// whose jobs ran, in the order they ran. The registry is unchanged.
    pub fn due_reminders(&mut self) -> (r: Vec<String>)
        requires
            old(self).wf(),
        ensures
            final(self).wf(),
            final(self)@ == old(self)@,
    {
        run_due_jobs(&mut self.scheduler);
        take_signals(&self.due)
    }
}

} // verus!
