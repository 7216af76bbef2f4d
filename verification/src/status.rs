//! The status log: one entry per job id, each holding the job's name and
//! its current status.
use vstd::prelude::*;

verus! {

/// Where a job is in its life.
#[derive(Debug, Clone, Copy, PartialEq, Eq, Structural)]
pub enum JobStatusEnum {
    /// Job is queued but not yet started
    Pending,
    /// Job is actively executing
    Running,
    /// Job completed successfully
    Completed,
    /// Job failed during execution
    Failed,
    /// Job was intentionally stopped
    Cancelled,
    /// Job is waiting for dependencies or conditions
    Waiting,
    /// Job didnt run due to conditions not being met
    Unsatisfied,
    /// Status cannot be determined (default state)
    Unknown,
    /// Job is scheduled but not yet started
    Scheduled,
}

/// The name of a status as its debug rendering spells it.
pub open spec fn status_name(s: JobStatusEnum) -> Seq<char> {
    match s {
        JobStatusEnum::Pending => "Pending"@,
        JobStatusEnum::Running => "Running"@,
        JobStatusEnum::Completed => "Completed"@,
        JobStatusEnum::Failed => "Failed"@,
        JobStatusEnum::Cancelled => "Cancelled"@,
        JobStatusEnum::Waiting => "Waiting"@,
        JobStatusEnum::Unsatisfied => "Unsatisfied"@,
        JobStatusEnum::Unknown => "Unknown"@,
        JobStatusEnum::Scheduled => "Scheduled"@,
    }
}

impl JobStatusEnum {
    /// The status rendered as its variant's name ("Running", "Failed", ...).
    pub fn debug_name(&self) -> (s: String)
        ensures
            s@ == status_name(*self),
    {
        match self {
            JobStatusEnum::Pending => String::from_str("Pending"),
            JobStatusEnum::Running => String::from_str("Running"),
            JobStatusEnum::Completed => String::from_str("Completed"),
            JobStatusEnum::Failed => String::from_str("Failed"),
            JobStatusEnum::Cancelled => String::from_str("Cancelled"),
            JobStatusEnum::Waiting => String::from_str("Waiting"),
            JobStatusEnum::Unsatisfied => String::from_str("Unsatisfied"),
            JobStatusEnum::Unknown => String::from_str("Unknown"),
            JobStatusEnum::Scheduled => String::from_str("Scheduled"),
        }
    }
}

/// The abstract value of a status entry.
pub struct StatusEntry {
    pub id: Seq<char>,
    pub name: Seq<char>,
    pub status: JobStatusEnum,
}

/// One job's entry in the status log.
pub struct JobStatusStruct {
    pub id: String,
    pub name: String,
    pub status: JobStatusEnum,
}

impl View for JobStatusStruct {
    type V = StatusEntry;

    open spec fn view(&self) -> StatusEntry {
        StatusEntry { id: self.id@, name: self.name@, status: self.status }
    }
}

impl Clone for JobStatusStruct {
    fn clone(&self) -> (r: Self)
        ensures
            r == *self,
    {
        JobStatusStruct { id: self.id.clone(), name: self.name.clone(), status: self.status }
    }
}

impl JobStatusStruct {
    pub fn new(id: String, name: String, status: JobStatusEnum) -> (r: Self)
        ensures
            r.id == id,
            r.name == name,
            r.status == status,
    {
        JobStatusStruct { id, name, status }
    }
}

/// The status log: the time it was started and the entries in the order in
/// which their ids were first seen.
pub struct StatusLog {
    pub time: String,
    pub statuses: Vec<JobStatusStruct>,
}

impl Clone for StatusLog {
    fn clone(&self) -> (r: Self)
        ensures
            r.time@ == self.time@,
            r.statuses@ == self.statuses@,
    {
        let statuses = self.statuses.clone();
        assert(statuses@ =~= self.statuses@);
        StatusLog { time: self.time.clone(), statuses }
    }
}

/// The entries of a list of status structs, as abstract values.
pub open spec fn entries_of(statuses: Seq<JobStatusStruct>) -> Seq<StatusEntry> {
    statuses.map_values(|e: JobStatusStruct| e@)
}

/// `i` is the first position whose entry has the id `id`.
pub open spec fn is_first_with_id(entries: Seq<StatusEntry>, id: Seq<char>, i: int) -> bool {
    &&& 0 <= i < entries.len()
    &&& entries[i].id == id
    &&& forall|j: int| 0 <= j < i ==> entries[j].id != id
}

/// The first position holding `id`, if any entry holds it.
pub open spec fn position_of(entries: Seq<StatusEntry>, id: Seq<char>) -> Option<int> {
    if exists|i: int| is_first_with_id(entries, id, i) {
        Some(choose|i: int| is_first_with_id(entries, id, i))
    } else {
        None
    }
}

/// The status recorded for `id`: that of its first entry.
pub open spec fn status_of(entries: Seq<StatusEntry>, id: Seq<char>) -> Option<JobStatusEnum> {
    match position_of(entries, id) {
        Some(i) => Some(entries[i].status),
        None => None,
    }
}

/// The name given to a new entry: the one supplied, or the empty name.
pub open spec fn name_or_empty(name: Option<Seq<char>>) -> Seq<char> {
    match name {
        Some(n) => n,
        None => Seq::empty(),
    }
}

/// The entries after recording `status` for `id`: the first entry with that
/// id takes the new status and keeps its name; without one, a new entry is
/// appended.
pub open spec fn after_set(
    entries: Seq<StatusEntry>,
    id: Seq<char>,
    name: Option<Seq<char>>,
    status: JobStatusEnum,
) -> Seq<StatusEntry> {
    match position_of(entries, id) {
        Some(i) => entries.update(i, StatusEntry { id: entries[i].id, name: entries[i].name, status }),
        None => entries.push(StatusEntry { id, name: name_or_empty(name), status }),
    }
}

/// No two entries share an id.
pub open spec fn unique_ids(entries: Seq<StatusEntry>) -> bool {
    forall|i: int, j: int|
        0 <= i < entries.len() && 0 <= j < entries.len() && i != j ==> entries[i].id
            != entries[j].id
}

pub proof fn lemma_position_is_first(entries: Seq<StatusEntry>, id: Seq<char>, i: int)
    requires
        is_first_with_id(entries, id, i),
    ensures
        position_of(entries, id) == Some(i),
{
    let k = choose|k: int| is_first_with_id(entries, id, k);
    assert(is_first_with_id(entries, id, k));
    if k < i {
        assert(entries[k].id != id);
    }
    if i < k {
        assert(entries[i].id != id);
    }
}

pub proof fn lemma_position_absent(entries: Seq<StatusEntry>, id: Seq<char>)
    requires
        forall|j: int| 0 <= j < entries.len() ==> entries[j].id != id,
    ensures
        position_of(entries, id) is None,
{
    if exists|i: int| is_first_with_id(entries, id, i) {
        let k = choose|k: int| is_first_with_id(entries, id, k);
        assert(entries[k].id == id);
    }
}

pub proof fn lemma_first_exists(entries: Seq<StatusEntry>, id: Seq<char>, k: int)
    requires
        0 <= k < entries.len(),
        entries[k].id == id,
    ensures
        exists|i: int| is_first_with_id(entries, id, i),
        position_of(entries, id) is Some,
    decreases k,
{
    if forall|j: int| 0 <= j < k ==> entries[j].id != id {
        assert(is_first_with_id(entries, id, k));
    } else {
        let j = choose|j: int| 0 <= j < k && entries[j].id == id;
        lemma_first_exists(entries, id, j);
    }
}

/// Finds the first position of `id` among `statuses`.
fn find_position(statuses: &Vec<JobStatusStruct>, id: &String) -> (r: Option<usize>)
    ensures
        match r {
            Some(i) => i < statuses@.len() && position_of(entries_of(statuses@), id@) == Some(
                i as int,
            ),
            None => position_of(entries_of(statuses@), id@) is None,
        },
{
    let ghost entries = entries_of(statuses@);
    let n = statuses.len();
    for i in 0..n
        invariant
            n == statuses@.len(),
            entries == entries_of(statuses@),
            forall|j: int| 0 <= j < i ==> entries[j].id != id@,
    {
        if statuses[i].id == *id {
            proof {
                assert(entries[i as int].id == id@);
                lemma_position_is_first(entries, id@, i as int);
            }
            return Some(i);
        }
    }
    proof {
        lemma_position_absent(entries, id@);
    }
    None
}

impl StatusLog {
    /// The log's entries as abstract values.
    pub open spec fn entries(&self) -> Seq<StatusEntry> {
        entries_of(self.statuses@)
    }

    /// An empty log started at `time`.
    pub fn new(time: String) -> (r: Self)
        ensures
            r.time == time,
            r.entries() == Seq::<StatusEntry>::empty(),
    {
        let r = StatusLog { time, statuses: Vec::new() };
        assert(r.entries() =~= Seq::<StatusEntry>::empty());
        r
    }

    /// Records `status` for `id`. An entry that already holds the id keeps
    /// its name; a new entry takes `name`, or the empty name.
    pub fn set(&mut self, id: String, name: Option<String>, status: JobStatusEnum)
        ensures
            final(self).time == old(self).time,
            final(self).entries() == after_set(
                old(self).entries(),
                id@,
                match name {
                    Some(n) => Some(n@),
                    None => None,
                },
                status,
            ),
    {
        let ghost old_entries = self.entries();
        match find_position(&self.statuses, &id) {
            Some(i) => {
                let mut entry = self.statuses[i].clone();
                entry.status = status;
                self.statuses.set(i, entry);
                assert(self.entries() =~= old_entries.update(
                    i as int,
                    StatusEntry {
                        id: old_entries[i as int].id,
                        name: old_entries[i as int].name,
                        status,
                    },
                ));
            },
            None => {
                let new_name = match name {
                    Some(n) => n,
                    None => String::new(),
                };
                self.statuses.push(JobStatusStruct { id, name: new_name, status });
                assert(self.entries() =~= old_entries.push(self.statuses@.last()@));
            },
        }
    }

    /// A copy of every entry.
    pub fn get_all(&self) -> (r: Vec<JobStatusStruct>)
        ensures
            r@ == self.statuses@,
    {
        let r = self.statuses.clone();
        assert(r@ =~= self.statuses@);
        r
    }

    /// A copy of the whole log.
    pub fn get_status_log(&self) -> (r: StatusLog)
        ensures
            r.time@ == self.time@,
            r.statuses@ == self.statuses@,
    {
        self.clone()
    }

    /// The status recorded for `id`, if any.
    pub fn get_state_by_id(&self, id: String) -> (r: Option<JobStatusEnum>)
        ensures
            r == status_of(self.entries(), id@),
    {
        match find_position(&self.statuses, &id) {
            Some(i) => Some(self.statuses[i].status),
            None => None,
        }
    }

    /// A copy of the entry recorded for `id`, if any.
    pub fn get_state_struct_by_id(&self, id: String) -> (r: Option<JobStatusStruct>)
        ensures
            match position_of(self.entries(), id@) {
                Some(i) => r == Some(self.statuses@[i]),
                None => r is None,
            },
    {
        match find_position(&self.statuses, &id) {
            Some(i) => Some(self.statuses[i].clone()),
            None => None,
        }
    }
}

} // verus!
