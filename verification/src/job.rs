//! The part of a job that status tracking and the API read, and the
//! operations on a set of loaded jobs.
use vstd::prelude::*;
use crate::status::{
    after_set, is_first_with_id, lemma_position_absent, position_of, status_of, unique_ids,
    JobStatusEnum, StatusEntry, StatusLog,
};
use crate::status_laws::{
    law_set_keeps_ids_unique, law_set_leaves_other_ids, law_set_shape, law_set_then_get,
    lemma_position_preserved, lemma_set_position,
};

verus! {

/// A loaded job: its id, name and description, and whether the scheduler
/// has taken it up.
pub struct Job {
    pub id: String,
    pub name: String,
    pub description: String,
    pub loaded: bool,
}

/// The abstract value of a job.
pub struct JobView {
    pub id: Seq<char>,
    pub name: Seq<char>,
    pub description: Seq<char>,
    pub loaded: bool,
}

impl View for Job {
    type V = JobView;

    open spec fn view(&self) -> JobView {
        JobView {
            id: self.id@,
            name: self.name@,
            description: self.description@,
            loaded: self.loaded,
        }
    }
}

impl Clone for Job {
    fn clone(&self) -> (r: Self)
        ensures
            r == *self,
    {
        Job {
            id: self.id.clone(),
            name: self.name.clone(),
            description: self.description.clone(),
            loaded: self.loaded,
        }
    }
}

/// The jobs of a list, as abstract values.
pub open spec fn jobs_view(jobs: Seq<Job>) -> Seq<JobView> {
    jobs.map_values(|j: Job| j@)
}

/// The entries after registering each job, in order, with the status
/// `Unknown` under its own name.
pub open spec fn register_all(entries: Seq<StatusEntry>, jobs: Seq<JobView>) -> Seq<StatusEntry>
    decreases jobs.len(),
{
    if jobs.len() == 0 {
        entries
    } else {
        after_set(
            register_all(entries, jobs.drop_last()),
            jobs.last().id,
            Some(jobs.last().name),
            JobStatusEnum::Unknown,
        )
    }
}

/// A status log started at `time` that holds an `Unknown` entry for every
/// job, under the job's name.
pub fn init_status(time: String, jobs: &Vec<Job>) -> (r: StatusLog)
    ensures
        r.time == time,
        r.entries() == register_all(Seq::empty(), jobs_view(jobs@)),
        forall|k: int|
            #![trigger jobs@[k]]
            0 <= k < jobs@.len() && (forall|j: int|
                0 <= j < k ==> #[trigger] jobs@[j].id@ != jobs@[k].id@) ==> (position_of(
                r.entries(),
                jobs@[k].id@,
            ) matches Some(i) && r.entries()[i].name == jobs@[k].name@ && r.entries()[i].status
                == JobStatusEnum::Unknown),
{
    let mut log = StatusLog::new(time);
    let n = jobs.len();
    for k in 0..n
        invariant
            n == jobs@.len(),
            log.time == time,
            log.entries() == register_all(Seq::empty(), jobs_view(jobs@).take(k as int)),
    {
        let job = &jobs[k];
        log.set(job.id.clone(), Some(job.name.clone()), JobStatusEnum::Unknown);
        assert(jobs_view(jobs@).take(k + 1).drop_last() =~= jobs_view(jobs@).take(k as int));
    }
    assert(jobs_view(jobs@).take(n as int) =~= jobs_view(jobs@));
    proof {
        let jv = jobs_view(jobs@);
        assert forall|k: int|
            #![trigger jobs@[k]]
            0 <= k < jobs@.len() && (forall|j: int|
                0 <= j < k ==> #[trigger] jobs@[j].id@ != jobs@[k].id@) implies (position_of(
            log.entries(),
            jobs@[k].id@,
        ) matches Some(i) && log.entries()[i].name == jobs@[k].name@ && log.entries()[i].status
            == JobStatusEnum::Unknown) by {
            assert(jv[k] == jobs@[k]@);
            assert forall|j: int| 0 <= j < k implies #[trigger] jv[j].id != jv[k].id by {
                assert(jv[j] == jobs@[j]@);
                assert(jobs@[j].id@ != jobs@[k].id@);
            }
            law_registered_jobs_keep_first_name(Seq::empty(), jv, k);
        }
    }
    log
}

/// Marks every job as taken up by the scheduler.
pub fn mark_loaded(jobs: &mut Vec<Job>)
    ensures
        final(jobs)@.len() == old(jobs)@.len(),
        forall|i: int|
            0 <= i < old(jobs)@.len() ==> #[trigger] final(jobs)@[i]@ == (JobView {
                loaded: true,
                ..old(jobs)@[i]@
            }),
{
    let n = jobs.len();
    for k in 0..n
        invariant
            n == old(jobs)@.len(),
            jobs@.len() == n,
            forall|i: int|
                0 <= i < k ==> #[trigger] jobs@[i]@ == (JobView { loaded: true, ..old(jobs)@[i]@ }),
            forall|i: int| k <= i < n ==> #[trigger] jobs@[i] == old(jobs)@[i],
    {
        let mut job = jobs[k].clone();
        job.loaded = true;
        jobs.set(k, job);
    }
}

/// How the interactive list shows a job: `id - name`.
pub fn list_label(job: &Job) -> (r: String)
    ensures
        r@ == job.id@ + " - "@ + job.name@,
{
    job.id.clone().concat(" - ").concat(job.name.as_str())
}

/// What can be done with a job picked from the interactive list.
#[derive(Debug, Clone, Copy, PartialEq, Eq, Structural)]
pub enum ListAction {
    ViewDetails,
    Delete,
}

/// The actions offered for a picked job, in the order they are offered.
pub fn list_actions() -> (r: Vec<String>)
    ensures
        r@.len() == 2,
        r@[0]@ == "View Details"@,
        r@[1]@ == "Delete"@,
{
    let mut r = Vec::new();
    r.push(String::from_str("View Details"));
    r.push(String::from_str("Delete"));
    r
}

/// The action at a position of the offered actions.
pub fn list_action_at(index: usize) -> (r: ListAction)
    requires
        index < 2,
    ensures
        index == 0 ==> r == ListAction::ViewDetails,
        index == 1 ==> r == ListAction::Delete,
{
    if index == 0 {
        ListAction::ViewDetails
    } else {
        ListAction::Delete
    }
}

/// What happens in the interactive list, one step at a time.
#[derive(Debug, Clone, Copy, PartialEq, Eq, Structural)]
pub enum ListEvent {
    /// the jobs were read again; this many were found
    JobsLoaded(usize),
    /// the user left the job prompt with Esc instead of picking a job
    JobPickCancelled,
    /// an action was picked, by position, for the job at a position
    ActionPicked(usize, usize),
    /// the user answered whether to delete the job at a position
    DeleteAnswered(usize, bool),
}

/// What the interactive list does next.
#[derive(Debug, Clone, Copy, PartialEq, Eq, Structural)]
pub enum ListCommand {
    /// leave the list (saying first that there are no jobs, when there are
    /// none), acting on no job
    Leave,
    /// let the user pick a job and then an action
    PickJobAndAction,
    /// show the job's id and name, then read the jobs again
    ShowDetails(usize),
    /// ask whether the job is to be deleted
    ConfirmDelete(usize),
    /// remove the job, then read the jobs again
    RemoveJob(usize),
    /// read the jobs again
    Reload,
}

/// The next thing the interactive list does after an event.
pub fn list_step(event: ListEvent) -> (r: ListCommand)
    requires
        event matches ListEvent::ActionPicked(_, action) ==> action < 2,
    ensures
        r == match event {
            ListEvent::JobsLoaded(count) => if count == 0 {
                ListCommand::Leave
            } else {
                ListCommand::PickJobAndAction
            },
            ListEvent::JobPickCancelled => ListCommand::Leave,
            ListEvent::ActionPicked(job, action) => if action == 0 {
                ListCommand::ShowDetails(job)
            } else {
                ListCommand::ConfirmDelete(job)
            },
            ListEvent::DeleteAnswered(job, confirmed) => if confirmed {
                ListCommand::RemoveJob(job)
            } else {
                ListCommand::Reload
            },
        },
{
    match event {
        ListEvent::JobsLoaded(count) => {
            if count == 0 {
                ListCommand::Leave
            } else {
                ListCommand::PickJobAndAction
            }
        },
        ListEvent::JobPickCancelled => ListCommand::Leave,
        ListEvent::ActionPicked(job, action) => match list_action_at(action) {
            ListAction::ViewDetails => ListCommand::ShowDetails(job),
            ListAction::Delete => ListCommand::ConfirmDelete(job),
        },
        ListEvent::DeleteAnswered(job, confirmed) => {
            if confirmed {
                ListCommand::RemoveJob(job)
            } else {
                ListCommand::Reload
            }
        },
    }
}

/// The jobs that parsed, in the order of their files.
pub open spec fn kept_jobs(parsed: Seq<Option<Job>>) -> Seq<JobView>
    decreases parsed.len(),
{
    if parsed.len() == 0 {
        Seq::empty()
    } else {
        match parsed.last() {
            Some(j) => kept_jobs(parsed.drop_last()).push(j@),
            None => kept_jobs(parsed.drop_last()),
        }
    }
}

/// `kept` are the parsed jobs taken at the positions `idx`: every position
/// holds a parsed job, the positions rise, every parsed job's position is
/// among them, and each kept job is, field for field, the job parsed there.
pub open spec fn taken_in_order(parsed: Seq<Option<Job>>, kept: Seq<JobView>, idx: Seq<int>) -> bool {
    &&& idx.len() == kept.len()
    &&& forall|i: int|
        0 <= i < idx.len() ==> 0 <= #[trigger] idx[i] < parsed.len() && parsed[idx[i]] is Some
            && kept[i] == parsed[idx[i]]->0@
    &&& forall|i: int, j: int| 0 <= i < j < idx.len() ==> idx[i] < idx[j]
    &&& forall|q: int|
        0 <= q < parsed.len() && (#[trigger] parsed[q]) is Some ==> exists|i: int|
            0 <= i < idx.len() && idx[i] == q
}

proof fn lemma_kept_positions(parsed: Seq<Option<Job>>) -> (idx: Seq<int>)
    ensures
        taken_in_order(parsed, kept_jobs(parsed), idx),
    decreases parsed.len(),
{
    if parsed.len() == 0 {
        Seq::empty()
    } else {
        let p = parsed.drop_last();
        let ip = lemma_kept_positions(p);
        let n = p.len() as int;
        let kept = kept_jobs(parsed);
        assert forall|i: int| 0 <= i < ip.len() implies parsed[ip[i]] == p[ip[i]] by {}
        match parsed.last() {
            Some(j) => {
                let idx = ip.push(n);
                assert forall|q: int|
                    0 <= q < parsed.len() && (#[trigger] parsed[q]) is Some implies exists|i: int|
                        0 <= i < idx.len() && idx[i] == q by {
                    if q < n {
                        assert(p[q] == parsed[q]);
                        let i = choose|i: int| 0 <= i < ip.len() && ip[i] == q;
                        assert(idx[i] == q);
                    } else {
                        assert(idx[ip.len() as int] == q);
                    }
                }
                assert forall|i: int|
                    0 <= i < idx.len() implies 0 <= #[trigger] idx[i] < parsed.len()
                    && parsed[idx[i]] is Some && kept[i] == parsed[idx[i]]->0@ by {
                    if i < ip.len() {
                        assert(idx[i] == ip[i]);
                        assert(parsed[ip[i]] == p[ip[i]]);
                    }
                }
                idx
            },
            None => {
                assert forall|q: int|
                    0 <= q < parsed.len() && (#[trigger] parsed[q]) is Some implies exists|i: int|
                        0 <= i < ip.len() && ip[i] == q by {
                    assert(q < n);
                    assert(p[q] == parsed[q]);
                }
                assert forall|i: int|
                    0 <= i < ip.len() implies 0 <= #[trigger] ip[i] < parsed.len()
                    && parsed[ip[i]] is Some && kept[i] == parsed[ip[i]]->0@ by {
                    assert(parsed[ip[i]] == p[ip[i]]);
                }
                ip
            },
        }
    }
}

/// The gathered jobs are exactly the jobs that parsed, each unchanged and
/// in the order of their files.
pub proof fn law_gathered_jobs_are_the_parsed_ones(parsed: Seq<Option<Job>>)
    ensures
        exists|idx: Seq<int>| taken_in_order(parsed, kept_jobs(parsed), idx),
{
    let idx = lemma_kept_positions(parsed);
    assert(taken_in_order(parsed, kept_jobs(parsed), idx));
}

/// Gathers the jobs of the files that parsed, in order, skipping the
/// others, together with their ids in the same order.
pub fn gather_jobs(parsed: Vec<Option<Job>>) -> (r: (Vec<Job>, Vec<String>))
    ensures
        jobs_view(r.0@) == kept_jobs(parsed@),
        exists|idx: Seq<int>| taken_in_order(parsed@, jobs_view(r.0@), idx),
        r.1@.len() == r.0@.len(),
        forall|i: int| 0 <= i < r.1@.len() ==> #[trigger] r.1@[i]@ == r.0@[i].id@,
{
    let mut jobs: Vec<Job> = Vec::new();
    let mut ids: Vec<String> = Vec::new();
    let n = parsed.len();
    for k in 0..n
        invariant
            n == parsed@.len(),
            jobs_view(jobs@) == kept_jobs(parsed@.take(k as int)),
            ids@.len() == jobs@.len(),
            forall|i: int| 0 <= i < ids@.len() ==> #[trigger] ids@[i]@ == jobs@[i].id@,
    {
        assert(parsed@.take(k + 1).drop_last() =~= parsed@.take(k as int));
        assert(parsed@.take(k + 1).last() == parsed@[k as int]);
        match &parsed[k] {
            Some(job) => {
                let ghost before = jobs_view(jobs@);
                ids.push(job.id.clone());
                jobs.push(job.clone());
                assert(jobs_view(jobs@) =~= before.push(job@));
            },
            None => {},
        }
    }
    assert(parsed@.take(n as int) =~= parsed@);
    proof {
        law_gathered_jobs_are_the_parsed_ones(parsed@);
    }
    (jobs, ids)
}

/// After registering the jobs, every job's id reads `Unknown`.
pub proof fn law_registered_jobs_are_unknown(entries: Seq<StatusEntry>, jobs: Seq<JobView>, k: int)
    requires
        0 <= k < jobs.len(),
    ensures
        status_of(register_all(entries, jobs), jobs[k].id) == Some(JobStatusEnum::Unknown),
    decreases jobs.len(),
{
    let prefix = jobs.drop_last();
    let last = jobs.last();
    law_set_then_get(register_all(entries, prefix), last.id, Some(last.name), JobStatusEnum::Unknown);
    if k < jobs.len() - 1 {
        assert(prefix[k] == jobs[k]);
        law_registered_jobs_are_unknown(entries, prefix, k);
        if jobs[k].id != last.id {
            law_set_leaves_other_ids(
                register_all(entries, prefix),
                last.id,
                jobs[k].id,
                Some(last.name),
                JobStatusEnum::Unknown,
            );
        }
    }
}

/// An id that neither the starting log nor any job has is held by no entry
/// after registering.
proof fn lemma_registered_absent_id(entries: Seq<StatusEntry>, jobs: Seq<JobView>, x: Seq<char>)
    requires
        forall|e: int| 0 <= e < entries.len() ==> #[trigger] entries[e].id != x,
        forall|j: int| 0 <= j < jobs.len() ==> #[trigger] jobs[j].id != x,
    ensures
        forall|i: int|
            0 <= i < register_all(entries, jobs).len() ==> #[trigger] register_all(
                entries,
                jobs,
            )[i].id != x,
    decreases jobs.len(),
{
    if jobs.len() > 0 {
        let p = jobs.drop_last();
        let last = jobs.last();
        assert forall|j: int| 0 <= j < p.len() implies #[trigger] p[j].id != x by {
            assert(p[j] == jobs[j]);
        }
        lemma_registered_absent_id(entries, p, x);
        let rp = register_all(entries, p);
        law_set_shape(rp, last.id, Some(last.name), JobStatusEnum::Unknown);
        let r = register_all(entries, jobs);
        assert forall|i: int| 0 <= i < r.len() implies #[trigger] r[i].id != x by {
            if i < rp.len() {
                assert(r[i].id == rp[i].id);
            } else {
                assert(r[i] == r.last());
                assert(jobs[jobs.len() - 1] == last);
            }
        }
    }
}

/// After registering the jobs into a log that did not hold a job's id, the
/// entry for that id is named after the first job with that id, and reads
/// `Unknown`.
pub proof fn law_registered_jobs_keep_first_name(
    entries: Seq<StatusEntry>,
    jobs: Seq<JobView>,
    k: int,
)
    requires
        0 <= k < jobs.len(),
        forall|j: int| 0 <= j < k ==> #[trigger] jobs[j].id != jobs[k].id,
        forall|e: int| 0 <= e < entries.len() ==> #[trigger] entries[e].id != jobs[k].id,
    ensures
        position_of(register_all(entries, jobs), jobs[k].id) is Some,
        register_all(entries, jobs)[position_of(register_all(entries, jobs), jobs[k].id)->0].name
            == jobs[k].name,
        register_all(entries, jobs)[position_of(register_all(entries, jobs), jobs[k].id)->0].status
            == JobStatusEnum::Unknown,
    decreases jobs.len(),
{
    let id = jobs[k].id;
    let p = jobs.drop_last();
    let last = jobs.last();
    let rp = register_all(entries, p);
    let r = register_all(entries, jobs);
    law_set_shape(rp, last.id, Some(last.name), JobStatusEnum::Unknown);
    lemma_set_position(rp, last.id, Some(last.name), JobStatusEnum::Unknown);
    if k == jobs.len() - 1 {
        assert forall|j: int| 0 <= j < p.len() implies #[trigger] p[j].id != id by {
            assert(p[j] == jobs[j]);
        }
        lemma_registered_absent_id(entries, p, id);
        lemma_position_absent(rp, id);
    } else {
        assert(p[k] == jobs[k]);
        assert forall|j: int| 0 <= j < k implies #[trigger] p[j].id != p[k].id by {
            assert(p[j] == jobs[j]);
        }
        law_registered_jobs_keep_first_name(entries, p, k);
        let i = position_of(rp, id)->0;
        assert(is_first_with_id(rp, id, i)) by {
            let c = choose|c: int| is_first_with_id(rp, id, c);
            assert(is_first_with_id(rp, id, c));
        }
        if last.id != id {
            lemma_position_preserved(rp, r, id);
            match position_of(rp, last.id) {
                Some(q) => {
                    let c = choose|c: int| is_first_with_id(rp, last.id, c);
                    assert(is_first_with_id(rp, last.id, c));
                    assert(q != i);
                },
                None => {},
            }
        }
    }
}

/// Registering jobs into a log with unique ids keeps the ids unique.
pub proof fn law_registering_keeps_ids_unique(entries: Seq<StatusEntry>, jobs: Seq<JobView>)
    requires
        unique_ids(entries),
    ensures
        unique_ids(register_all(entries, jobs)),
    decreases jobs.len(),
{
    if jobs.len() > 0 {
        law_registering_keeps_ids_unique(entries, jobs.drop_last());
        law_set_keeps_ids_unique(
            register_all(entries, jobs.drop_last()),
            jobs.last().id,
            Some(jobs.last().name),
            JobStatusEnum::Unknown,
        );
    }
}

} // verus!
