//! What the HTTP API answers: health, job listings and the replies of the
//! job handlers.
use vstd::prelude::*;
use crate::job::{Job, JobView};
use crate::status::{status_name, status_of, JobStatusEnum, JobStatusStruct, StatusEntry, StatusLog};

verus! {

/// The name under which the API introduces itself.
pub const API_SERVICE_NAME: &'static str = "autopilot-api";

/// The answer to a health request.
pub struct HealthResponse {
    pub status: String,
    pub service: String,
}

/// Options of a start request.
pub struct StartConfig {
    pub verbose: Option<bool>,
}

/// The answer of a healthy service.
pub fn health() -> (r: HealthResponse)
    ensures
        r.status@ == "ok"@,
        r.service@ == API_SERVICE_NAME@,
{
    HealthResponse { status: String::from_str("ok"), service: String::from_str(API_SERVICE_NAME) }
}

/// Whether a health answer comes from a healthy autopilot service.
pub fn is_healthy(h: &HealthResponse) -> (r: bool)
    ensures
        r == (h.status@ == "ok"@ && h.service@ == API_SERVICE_NAME@),
{
    let ok = String::from_str("ok");
    let service = String::from_str(API_SERVICE_NAME);
    h.status == ok && h.service == service
}

/// A refused request, by the HTTP status it is answered with.
#[derive(Debug, Clone, Copy, PartialEq, Eq, Structural)]
pub enum ApiError {
    Conflict,
    NotFound,
    BadRequest,
    InternalServerError,
}

impl ApiError {
    /// The HTTP status code of the refusal.
    pub fn status_code(&self) -> (r: u16)
        ensures
            r == match *self {
                ApiError::Conflict => 409u16,
                ApiError::NotFound => 404u16,
                ApiError::BadRequest => 400u16,
                ApiError::InternalServerError => 500u16,
            },
    {
        match self {
            ApiError::Conflict => 409,
            ApiError::NotFound => 404,
            ApiError::BadRequest => 400,
            ApiError::InternalServerError => 500,
        }
    }
}

/// The body of a successful action: a flag, a message and, for the
/// actions that write a job file, its path.
pub struct ActionReply {
    pub success: bool,
    pub message: String,
    pub path: Option<String>,
}

/// The reply `{ success: true, message, path }`.
pub open spec fn reply_is(r: ActionReply, message: Seq<char>, path: Option<Seq<char>>) -> bool {
    &&& r.success
    &&& r.message@ == message
    &&& match (r.path, path) {
        (Some(p), Some(q)) => p@ == q,
        (None, None) => true,
        _ => false,
    }
}

fn success_reply(message: &str, path: Option<String>) -> (r: ActionReply)
    ensures
        r.success,
        r.message@ == message@,
        r.path == path,
{
    ActionReply { success: true, message: String::from_str(message), path }
}

/// The view of an optional path.
pub open spec fn opt_view(p: Option<String>) -> Option<Seq<char>> {
    match p {
        Some(s) => Some(s@),
        None => None,
    }
}

/// Reply to a job creation: the created file's path, or a bad request.
pub fn create_reply(created: Option<String>) -> (r: Result<ActionReply, ApiError>)
    ensures
        created is None ==> r == Err::<ActionReply, ApiError>(ApiError::BadRequest),
        created is Some ==> (r matches Ok(a) && reply_is(a, "Job created"@, opt_view(created))),
{
    match created {
        Some(p) => Ok(success_reply("Job created", Some(p))),
        None => Err(ApiError::BadRequest),
    }
}

/// Reply to a job deletion.
pub fn delete_reply(deleted: bool) -> (r: Result<ActionReply, ApiError>)
    ensures
        !deleted ==> r == Err::<ActionReply, ApiError>(ApiError::NotFound),
        deleted ==> (r matches Ok(a) && reply_is(a, "Job deleted"@, None)),
{
    if deleted {
        Ok(success_reply("Job deleted", None))
    } else {
        Err(ApiError::NotFound)
    }
}

/// The name under which an updated job is written again.
pub fn updated_job_name(id: &String) -> (r: String)
    ensures
        r@ == id@ + "_updated"@,
{
    id.clone().concat("_updated")
}

/// Reply to a job update, which removes the job and then writes it again:
/// not found when the removal failed, an internal error when the new file
/// could not be written.
pub fn update_reply(removed: bool, added: Option<String>) -> (r: Result<ActionReply, ApiError>)
    ensures
        !removed ==> r == Err::<ActionReply, ApiError>(ApiError::NotFound),
        removed && added is None ==> r == Err::<ActionReply, ApiError>(
            ApiError::InternalServerError,
        ),
        removed && added is Some ==> (r matches Ok(a) && reply_is(
            a,
            "Job updated"@,
            opt_view(added),
        )),
{
    if !removed {
        return Err(ApiError::NotFound);
    }
    match added {
        Some(p) => Ok(success_reply("Job updated", Some(p))),
        None => Err(ApiError::InternalServerError),
    }
}

/// A job as the API lists it.
pub struct JobResponse {
    pub id: String,
    pub name: String,
    pub description: String,
    pub loaded: bool,
    pub status: String,
}

/// The abstract value of a listed job.
pub struct ResponseView {
    pub id: Seq<char>,
    pub name: Seq<char>,
    pub description: Seq<char>,
    pub loaded: bool,
    pub status: Seq<char>,
}

impl View for JobResponse {
    type V = ResponseView;

    open spec fn view(&self) -> ResponseView {
        ResponseView {
            id: self.id@,
            name: self.name@,
            description: self.description@,
            loaded: self.loaded,
            status: self.status@,
        }
    }
}

impl Clone for JobResponse {
    fn clone(&self) -> (r: Self)
        ensures
            r == *self,
    {
        JobResponse {
            id: self.id.clone(),
            name: self.name.clone(),
            description: self.description.clone(),
            loaded: self.loaded,
            status: self.status.clone(),
        }
    }
}

/// An optional status as its debug rendering spells it: `Some(Running)`,
/// or `None`.
pub open spec fn option_status_name(s: Option<JobStatusEnum>) -> Seq<char> {
    match s {
        Some(st) => "Some("@ + status_name(st) + ")"@,
        None => "None"@,
    }
}

/// A live status entry as listed: loaded, described by its name.
pub open spec fn response_of_status(e: StatusEntry) -> ResponseView {
    ResponseView {
        id: e.id,
        name: e.name,
        description: e.name,
        loaded: true,
        status: status_name(e.status),
    }
}

/// A loaded job as listed, with the status the log holds for it.
pub open spec fn response_of_job(j: JobView, entries: Seq<StatusEntry>) -> ResponseView {
    ResponseView {
        id: j.id,
        name: j.name,
        description: j.description,
        loaded: j.loaded,
        status: option_status_name(status_of(entries, j.id)),
    }
}

/// The listed jobs, as abstract values.
pub open spec fn responses_view(s: Seq<JobResponse>) -> Seq<ResponseView> {
    s.map_values(|r: JobResponse| r@)
}

/// The listing keyed by id, a later entry replacing an earlier one with the
/// same id.
pub open spec fn keyed(s: Seq<ResponseView>) -> Map<Seq<char>, ResponseView>
    decreases s.len(),
{
    if s.len() == 0 {
        Map::empty()
    } else {
        keyed(s.drop_last()).insert(s.last().id, s.last())
    }
}

/// Everything the listing draws on: the loaded jobs first, then the live
/// status entries, which take precedence.
pub open spec fn listing_sources(jobs: Seq<JobView>, entries: Seq<StatusEntry>) -> Seq<ResponseView> {
    jobs.map_values(|j: JobView| response_of_job(j, entries)) + entries.map_values(
        |e: StatusEntry| response_of_status(e),
    )
}

/// No two listed jobs share an id.
pub open spec fn unique_response_ids(s: Seq<ResponseView>) -> bool {
    forall|i: int, j: int| 0 <= i < s.len() && 0 <= j < s.len() && i != j ==> s[i].id != s[j].id
}

/// `s` lists exactly the entries of `m`, one per key.
pub open spec fn lists_exactly(s: Seq<ResponseView>, m: Map<Seq<char>, ResponseView>) -> bool {
    &&& unique_response_ids(s)
    &&& forall|i: int|
        0 <= i < s.len() ==> m.contains_key(#[trigger] s[i].id) && m[s[i].id] == s[i]
    &&& forall|id: Seq<char>|
        #[trigger] m.contains_key(id) ==> exists|i: int| 0 <= i < s.len() && #[trigger] s[i].id == id
}

impl JobResponse {
    /// A live status entry as listed.
    pub fn from_status(s: &JobStatusStruct) -> (r: JobResponse)
        ensures
            r@ == response_of_status(s@),
            r.id@ == s.id@,
            r.name@ == s.name@,
            r.description@ == s.name@,
            r.loaded,
            r.status@ == status_name(s.status),
    {
        JobResponse {
            id: s.id.clone(),
            name: s.name.clone(),
            loaded: true,
            description: s.name.clone(),
            status: s.status.debug_name(),
        }
    }

    /// A loaded job as listed, with the status that `log` holds for it.
    pub fn from_job_and_sm(job: &Job, log: &StatusLog) -> (r: JobResponse)
        ensures
            r@ == response_of_job(job@, log.entries()),
            r.id@ == job.id@,
            r.name@ == job.name@,
            r.description@ == job.description@,
            r.loaded == job.loaded,
            status_of(log.entries(), job.id@) is None ==> r.status@ == "None"@,
            status_of(log.entries(), job.id@) matches Some(s) ==> r.status@ == "Some("@
                + status_name(s) + ")"@,
    {
        let status = match log.get_state_by_id(job.id.clone()) {
            Some(s) => {
                let mut text = String::from_str("Some(");
                let name = s.debug_name();
                text.append(name.as_str());
                text.append(")");
                text
            },
            None => String::from_str("None"),
        };
        JobResponse {
            id: job.id.clone(),
            loaded: job.loaded,
            name: job.name.clone(),
            description: job.description.clone(),
            status,
        }
    }
}

/// The position of the listed job with the id `id`, if there is one.
fn find_response(list: &Vec<JobResponse>, id: &String) -> (r: Option<usize>)
    ensures
        match r {
            Some(i) => i < list@.len() && list@[i as int].id@ == id@,
            None => forall|k: int| 0 <= k < list@.len() ==> list@[k].id@ != id@,
        },
{
    let n = list.len();
    for j in 0..n
        invariant
            n == list@.len(),
            forall|k: int| 0 <= k < j ==> list@[k].id@ != id@,
    {
        if list[j].id == *id {
            return Some(j);
        }
    }
    None
}

/// Replaces the listed job with the id of `x`, or appends `x`.
fn upsert_response(list: &mut Vec<JobResponse>, x: JobResponse, Ghost(m): Ghost<
    Map<Seq<char>, ResponseView>,
>)
    requires
        lists_exactly(responses_view(old(list)@), m),
    ensures
        lists_exactly(responses_view(final(list)@), m.insert(x@.id, x@)),
{
    let ghost xv = x@;
    let ghost m2 = m.insert(xv.id, xv);
    let ghost before = responses_view(list@);
    let n = list.len();
    let found = find_response(list, &x.id);
    match found {
        Some(i) => {
            list.set(i, x);
            let ghost after = responses_view(list@);
            assert(after =~= before.update(i as int, xv));
            assert forall|a: int| 0 <= a < after.len() && a != i implies after[a].id != xv.id by {
                assert(before[a].id != before[i as int].id);
            }
            assert forall|a: int, b: int|
                0 <= a < after.len() && 0 <= b < after.len() && a != b implies after[a].id
                != after[b].id by {
                if a != i && b != i {
                    assert(before[a].id != before[b].id);
                }
            }
            assert forall|a: int| 0 <= a < after.len() implies m2.contains_key(
                #[trigger] after[a].id,
            ) && m2[after[a].id] == after[a] by {
                if a != i {
                    assert(m.contains_key(before[a].id) && m[before[a].id] == before[a]);
                }
            }
            assert forall|id: Seq<char>| #[trigger] m2.contains_key(id) implies exists|k: int|
                0 <= k < after.len() && #[trigger] after[k].id == id by {
                if id == xv.id {
                    assert(after[i as int].id == id);
                } else {
                    let k = choose|k: int| 0 <= k < before.len() && #[trigger] before[k].id == id;
                    assert(after[k].id == id);
                }
            }
        },
        None => {
            list.push(x);
            let ghost after = responses_view(list@);
            assert(after =~= before.push(xv));
            assert forall|id: Seq<char>| #[trigger] m2.contains_key(id) implies exists|k: int|
                0 <= k < after.len() && #[trigger] after[k].id == id by {
                if id == xv.id {
                    assert(after[n as int].id == id);
                } else {
                    let k = choose|k: int| 0 <= k < before.len() && #[trigger] before[k].id == id;
                    assert(after[k].id == id);
                }
            }
        },
    }
}

/// The job listing: every loaded job with the status the log holds for it,
/// overridden by the live status entries; one entry per id. The order of
/// the listing is not part of its meaning.
pub fn merged_job_list(jobs: &Vec<Job>, log: &StatusLog) -> (r: Vec<JobResponse>)
    ensures
        lists_exactly(
            responses_view(r@),
            keyed(listing_sources(jobs@.map_values(|j: Job| j@), log.entries())),
        ),
{
    let ghost entries = log.entries();
    let ghost sources = listing_sources(jobs@.map_values(|j: Job| j@), entries);
    let mut all: Vec<JobResponse> = Vec::new();
    let nj = jobs.len();
    for k in 0..nj
        invariant
            nj == jobs@.len(),
            entries == log.entries(),
            sources == listing_sources(jobs@.map_values(|j: Job| j@), entries),
            responses_view(all@) =~= sources.take(k as int),
    {
        let resp = JobResponse::from_job_and_sm(&jobs[k], log);
        let ghost prev = responses_view(all@);
        all.push(resp);
        assert(responses_view(all@) =~= prev.push(sources[k as int]));
        assert(sources.take(k + 1) =~= sources.take(k as int).push(sources[k as int]));
    }
    let ns = log.statuses.len();
    for k in 0..ns
        invariant
            nj == jobs@.len(),
            ns == log.statuses@.len(),
            entries == log.entries(),
            sources == listing_sources(jobs@.map_values(|j: Job| j@), entries),
            responses_view(all@) =~= sources.take(nj + k),
    {
        let resp = JobResponse::from_status(&log.statuses[k]);
        let ghost prev = responses_view(all@);
        all.push(resp);
        assert(sources[nj + k] == response_of_status(entries[k as int]));
        assert(responses_view(all@) =~= prev.push(sources[nj + k]));
        assert(sources.take(nj + k + 1) =~= sources.take(nj + k).push(sources[nj + k]));
    }
    assert(responses_view(all@) =~= sources);
    let mut merged: Vec<JobResponse> = Vec::new();
    let na = all.len();
    assert(keyed(sources.take(0)) =~= Map::<Seq<char>, ResponseView>::empty());
    for k in 0..na
        invariant
            na == all@.len(),
            responses_view(all@) == sources,
            lists_exactly(responses_view(merged@), keyed(sources.take(k as int))),
    {
        let x = all[k].clone();
        assert(sources.take(k + 1).drop_last() =~= sources.take(k as int));
        upsert_response(&mut merged, x, Ghost(keyed(sources.take(k as int))));
    }
    assert(sources.take(na as int) =~= sources);
    merged
}

/// `i` is the first position of a job with the id `id`.
pub open spec fn is_first_job(jobs: Seq<JobView>, id: Seq<char>, i: int) -> bool {
    &&& 0 <= i < jobs.len()
    &&& jobs[i].id == id
    &&& forall|j: int| 0 <= j < i ==> jobs[j].id != id
}

/// The first loaded job with the id `id`, as listed, or not found.
pub fn job_by_id(jobs: &Vec<Job>, id: &String, log: &StatusLog) -> (r: Result<JobResponse, ApiError>)
    ensures
        r is Err <==> forall|j: int| 0 <= j < jobs@.len() ==> jobs@[j].id@ != id@,
        r matches Err(e) ==> e == ApiError::NotFound,
        r matches Ok(resp) ==> exists|i: int|
            is_first_job(jobs@.map_values(|j: Job| j@), id@, i) && resp@ == response_of_job(
                jobs@[i]@,
                log.entries(),
            ),
{
    let ghost views = jobs@.map_values(|j: Job| j@);
    let n = jobs.len();
    for i in 0..n
        invariant
            n == jobs@.len(),
            views == jobs@.map_values(|j: Job| j@),
            forall|j: int| 0 <= j < i ==> jobs@[j].id@ != id@,
    {
        if jobs[i].id == *id {
            let resp = JobResponse::from_job_and_sm(&jobs[i], log);
            assert(is_first_job(views, id@, i as int));
            return Ok(resp);
        }
    }
    Err(ApiError::NotFound)
}

} // verus!
