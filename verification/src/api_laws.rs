//! What the job listing promises: which jobs it holds and which source
//! decides each one.
use vstd::prelude::*;
use crate::api::{
    keyed, listing_sources, option_status_name, response_of_job, response_of_status, ResponseView,
};
use crate::job::JobView;
use crate::status::{
    lemma_position_absent, status_name, status_of, unique_ids, JobStatusEnum, StatusEntry,
};

verus! {

/// The last element with a given id decides what `keyed` holds for it.
proof fn lemma_keyed_last(s: Seq<ResponseView>, i: int)
    requires
        0 <= i < s.len(),
        forall|j: int| i < j < s.len() ==> s[j].id != s[i].id,
    ensures
        keyed(s).contains_key(s[i].id),
        keyed(s)[s[i].id] == s[i],
    decreases s.len(),
{
    if i < s.len() - 1 {
        lemma_keyed_last(s.drop_last(), i);
    }
}

/// `keyed` holds exactly the ids that occur.
proof fn lemma_keyed_domain(s: Seq<ResponseView>, id: Seq<char>)
    ensures
        keyed(s).contains_key(id) <==> exists|j: int| 0 <= j < s.len() && #[trigger] s[j].id == id,
    decreases s.len(),
{
    if s.len() > 0 {
        lemma_keyed_domain(s.drop_last(), id);
        if exists|j: int| 0 <= j < s.len() - 1 && #[trigger] s.drop_last()[j].id == id {
            let j = choose|j: int| 0 <= j < s.len() - 1 && #[trigger] s.drop_last()[j].id == id;
            assert(s[j].id == id);
        }
        if exists|j: int| 0 <= j < s.len() && #[trigger] s[j].id == id {
            let j = choose|j: int| 0 <= j < s.len() && #[trigger] s[j].id == id;
            if j < s.len() - 1 {
                assert(s.drop_last()[j].id == id);
            }
        }
    }
}

/// What `keyed` holds for an id that occurs: the element with that id that
/// comes last.
proof fn lemma_keyed_witness(s: Seq<ResponseView>, id: Seq<char>, j: int) -> (i: int)
    requires
        0 <= j < s.len(),
        s[j].id == id,
    ensures
        j <= i < s.len(),
        s[i].id == id,
        keyed(s).contains_key(id),
        keyed(s)[id] == s[i],
    decreases s.len(),
{
    if s.last().id == id {
        (s.len() - 1) as int
    } else {
        assert(s.drop_last()[j] == s[j]);
        let i = lemma_keyed_witness(s.drop_last(), id, j);
        assert(s[i] == s.drop_last()[i]);
        i
    }
}

/// A job's status text is the debug rendering of what the log holds for
/// it: `None` exactly when nothing, and `Some(<status>)` otherwise.
pub proof fn law_status_text(o: Option<JobStatusEnum>)
    ensures
        option_status_name(o) == "None"@ <==> o is None,
        o matches Some(st) ==> option_status_name(o) == "Some("@ + status_name(st) + ")"@,
{
    reveal_strlit("None");
    reveal_strlit("Some(");
    if let Some(st) = o {
        let t = "Some("@ + status_name(st) + ")"@;
        assert(t[0] == 'S');
        assert("None"@[0] == 'N');
    }
}

/// Every listed job whose id the status log holds comes from the log: it is
/// listed as loaded, under the log entry's name (also as description), with
/// that entry's status, whatever the loaded jobs say and whatever the status.
pub proof fn law_live_entries_listed_loaded(jobs: Seq<JobView>, entries: Seq<StatusEntry>, e: int)
    requires
        0 <= e < entries.len(),
    ensures
        keyed(listing_sources(jobs, entries)).contains_key(entries[e].id),
        keyed(listing_sources(jobs, entries))[entries[e].id].loaded,
        exists|f: int|
            0 <= f < entries.len() && #[trigger] entries[f].id == entries[e].id && keyed(
                listing_sources(jobs, entries),
            )[entries[e].id].name == entries[f].name && keyed(listing_sources(jobs, entries))[
            entries[e].id].description == entries[f].name && keyed(
                listing_sources(jobs, entries),
            )[entries[e].id].status == status_name(entries[f].status),
{
    let s = listing_sources(jobs, entries);
    let jl = jobs.len() as int;
    assert(s[jl + e] == response_of_status(entries[e]));
    let i = lemma_keyed_witness(s, entries[e].id, jl + e);
    let f = i - jl;
    assert(s[i] == response_of_status(entries[f]));
    assert(entries[f].id == entries[e].id);
}

/// A job that the status log holds is listed as the log has it, whatever
/// the loaded jobs say (the log's ids being unique).
pub proof fn law_live_status_wins(jobs: Seq<JobView>, entries: Seq<StatusEntry>, k: int)
    requires
        unique_ids(entries),
        0 <= k < entries.len(),
    ensures
        keyed(listing_sources(jobs, entries)).contains_key(entries[k].id),
        keyed(listing_sources(jobs, entries))[entries[k].id] == response_of_status(entries[k]),
        keyed(listing_sources(jobs, entries))[entries[k].id].loaded,
        keyed(listing_sources(jobs, entries))[entries[k].id].name == entries[k].name,
        keyed(listing_sources(jobs, entries))[entries[k].id].description == entries[k].name,
        keyed(listing_sources(jobs, entries))[entries[k].id].status == status_name(
            entries[k].status,
        ),
{
    let s = listing_sources(jobs, entries);
    let i = jobs.len() + k;
    assert(s[i] == response_of_status(entries[k]));
    assert forall|j: int| i < j < s.len() implies s[j].id != s[i].id by {
        assert(s[j] == response_of_status(entries[j - jobs.len()]));
        assert(entries[j - jobs.len()].id != entries[k].id);
    }
    lemma_keyed_last(s, i);
}

/// A loaded job that the status log does not hold is listed as loaded, with
/// the last loaded job of that id deciding.
pub proof fn law_job_listed_without_live_entry(jobs: Seq<JobView>, entries: Seq<StatusEntry>, k: int)
    requires
        0 <= k < jobs.len(),
        forall|j: int| k < j < jobs.len() ==> jobs[j].id != jobs[k].id,
        forall|e: int| 0 <= e < entries.len() ==> entries[e].id != jobs[k].id,
    ensures
        keyed(listing_sources(jobs, entries)).contains_key(jobs[k].id),
        keyed(listing_sources(jobs, entries))[jobs[k].id] == response_of_job(jobs[k], entries),
        keyed(listing_sources(jobs, entries))[jobs[k].id].name == jobs[k].name,
        keyed(listing_sources(jobs, entries))[jobs[k].id].description == jobs[k].description,
        keyed(listing_sources(jobs, entries))[jobs[k].id].loaded == jobs[k].loaded,
        keyed(listing_sources(jobs, entries))[jobs[k].id].status == "None"@,
{
    lemma_position_absent(entries, jobs[k].id);
    assert(status_of(entries, jobs[k].id) is None);
    let s = listing_sources(jobs, entries);
    assert(s[k] == response_of_job(jobs[k], entries));
    assert forall|j: int| k < j < s.len() implies s[j].id != s[k].id by {
        if j < jobs.len() {
            assert(s[j] == response_of_job(jobs[j], entries));
        } else {
            assert(s[j] == response_of_status(entries[j - jobs.len()]));
        }
    }
    lemma_keyed_last(s, k);
}

/// The listing holds an id exactly when a loaded job or a status entry has
/// it.
pub proof fn law_listing_ids(jobs: Seq<JobView>, entries: Seq<StatusEntry>, id: Seq<char>)
    ensures
        keyed(listing_sources(jobs, entries)).contains_key(id) <==> (exists|j: int|
            0 <= j < jobs.len() && #[trigger] jobs[j].id == id) || (exists|e: int|
            0 <= e < entries.len() && #[trigger] entries[e].id == id),
{
    let s = listing_sources(jobs, entries);
    lemma_keyed_domain(s, id);
    if exists|j: int| 0 <= j < jobs.len() && #[trigger] jobs[j].id == id {
        let j = choose|j: int| 0 <= j < jobs.len() && #[trigger] jobs[j].id == id;
        assert(s[j] == response_of_job(jobs[j], entries));
        assert(s[j].id == id);
    }
    if exists|e: int| 0 <= e < entries.len() && #[trigger] entries[e].id == id {
        let e = choose|e: int| 0 <= e < entries.len() && #[trigger] entries[e].id == id;
        assert(s[jobs.len() + e] == response_of_status(entries[e]));
        assert(s[jobs.len() + e].id == id);
    }
    if exists|i: int| 0 <= i < s.len() && #[trigger] s[i].id == id {
        let i = choose|i: int| 0 <= i < s.len() && #[trigger] s[i].id == id;
        if i < jobs.len() {
            assert(s[i] == response_of_job(jobs[i], entries));
            assert(jobs[i].id == id);
        } else {
            assert(s[i] == response_of_status(entries[i - jobs.len()]));
            assert(entries[i - jobs.len()].id == id);
        }
    }
}

} // verus!
