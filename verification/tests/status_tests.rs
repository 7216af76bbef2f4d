use autopilot::job::{
    gather_jobs, init_status, list_action_at, list_actions, list_label, list_step, mark_loaded, Job,
    ListAction, ListCommand, ListEvent,
};
use autopilot::status::{JobStatusEnum, JobStatusStruct, StatusLog};

fn job(id: &str, name: &str) -> Job {
    Job { id: id.to_string(), name: name.to_string(), description: format!("{} job", name), loaded: false }
}

#[test]
fn debug_name_matches_debug_rendering() {
    let all = [
        JobStatusEnum::Pending,
        JobStatusEnum::Running,
        JobStatusEnum::Completed,
        JobStatusEnum::Failed,
        JobStatusEnum::Cancelled,
        JobStatusEnum::Waiting,
        JobStatusEnum::Unsatisfied,
        JobStatusEnum::Unknown,
        JobStatusEnum::Scheduled,
    ];
    for s in all {
        assert_eq!(s.debug_name(), format!("{:?}", s));
    }
}

#[test]
fn new_status_struct_keeps_fields() {
    let s = JobStatusStruct::new("a".to_string(), "Alpha".to_string(), JobStatusEnum::Waiting);
    assert_eq!(s.id, "a");
    assert_eq!(s.name, "Alpha");
    assert_eq!(s.status, JobStatusEnum::Waiting);
}

#[test]
fn new_log_is_empty() {
    let log = StatusLog::new("t0".to_string());
    assert_eq!(log.time, "t0");
    assert!(log.statuses.is_empty());
    assert_eq!(log.get_state_by_id("x".to_string()), None);
}

#[test]
fn set_then_get_reads_back_status() {
    let mut log = StatusLog::new("t".to_string());
    log.set("a".to_string(), Some("Alpha".to_string()), JobStatusEnum::Running);
    assert_eq!(log.get_state_by_id("a".to_string()), Some(JobStatusEnum::Running));
    log.set("a".to_string(), Some("Other".to_string()), JobStatusEnum::Failed);
    assert_eq!(log.get_state_by_id("a".to_string()), Some(JobStatusEnum::Failed));
    // the existing entry keeps its name, and no entry is added
    assert_eq!(log.statuses.len(), 1);
    assert_eq!(log.statuses[0].name, "Alpha");
}

#[test]
fn set_without_name_uses_empty_name() {
    let mut log = StatusLog::new("t".to_string());
    log.set("b".to_string(), None, JobStatusEnum::Pending);
    assert_eq!(log.statuses[0].name, "");
    assert_eq!(log.statuses[0].id, "b");
}

#[test]
fn set_leaves_other_ids_alone() {
    let mut log = StatusLog::new("t".to_string());
    log.set("a".to_string(), Some("A".to_string()), JobStatusEnum::Running);
    log.set("b".to_string(), Some("B".to_string()), JobStatusEnum::Waiting);
    log.set("a".to_string(), None, JobStatusEnum::Completed);
    assert_eq!(log.get_state_by_id("b".to_string()), Some(JobStatusEnum::Waiting));
    assert_eq!(log.get_state_by_id("a".to_string()), Some(JobStatusEnum::Completed));
    assert_eq!(log.statuses.len(), 2);
}

#[test]
fn set_twice_is_set_once() {
    let mut once = StatusLog::new("t".to_string());
    once.set("a".to_string(), Some("A".to_string()), JobStatusEnum::Scheduled);
    let mut twice = StatusLog::new("t".to_string());
    twice.set("a".to_string(), Some("A".to_string()), JobStatusEnum::Scheduled);
    twice.set("a".to_string(), Some("A".to_string()), JobStatusEnum::Scheduled);
    assert_eq!(once.statuses.len(), twice.statuses.len());
    assert_eq!(once.statuses[0].status, twice.statuses[0].status);
    assert_eq!(once.statuses[0].name, twice.statuses[0].name);
}

#[test]
fn get_state_struct_by_id_copies_entry() {
    let mut log = StatusLog::new("t".to_string());
    log.set("a".to_string(), Some("A".to_string()), JobStatusEnum::Cancelled);
    let e = log.get_state_struct_by_id("a".to_string()).unwrap();
    assert_eq!(e.id, "a");
    assert_eq!(e.name, "A");
    assert_eq!(e.status, JobStatusEnum::Cancelled);
    assert!(log.get_state_struct_by_id("zz".to_string()).is_none());
}

#[test]
fn get_all_and_get_status_log_copy_everything() {
    let mut log = StatusLog::new("t9".to_string());
    log.set("a".to_string(), Some("A".to_string()), JobStatusEnum::Running);
    log.set("b".to_string(), Some("B".to_string()), JobStatusEnum::Failed);
    let all = log.get_all();
    assert_eq!(all.len(), 2);
    assert_eq!(all[1].id, "b");
    let copy = log.get_status_log();
    assert_eq!(copy.time, "t9");
    assert_eq!(copy.statuses.len(), 2);
    assert_eq!(copy.statuses[0].status, JobStatusEnum::Running);
}

#[test]
fn init_status_registers_every_job_as_unknown() {
    let jobs = vec![job("a", "A"), job("b", "B"), job("a", "A2")];
    let log = init_status("now".to_string(), &jobs);
    assert_eq!(log.time, "now");
    assert_eq!(log.statuses.len(), 2);
    assert_eq!(log.get_state_by_id("a".to_string()), Some(JobStatusEnum::Unknown));
    assert_eq!(log.get_state_by_id("b".to_string()), Some(JobStatusEnum::Unknown));
    assert_eq!(log.statuses[0].name, "A");
}

#[test]
fn mark_loaded_sets_every_flag() {
    let mut jobs = vec![job("a", "A"), job("b", "B")];
    mark_loaded(&mut jobs);
    assert!(jobs.iter().all(|j| j.loaded));
    assert_eq!(jobs[1].id, "b");
    assert_eq!(jobs[1].description, "B job");
}

#[test]
fn list_labels_and_actions() {
    assert_eq!(list_label(&job("j1", "Backup")), "j1 - Backup");
    assert_eq!(list_actions(), vec!["View Details".to_string(), "Delete".to_string()]);
    assert_eq!(list_action_at(0), ListAction::ViewDetails);
    assert_eq!(list_action_at(1), ListAction::Delete);
}

#[test]
fn repeated_sets_keep_one_entry_with_last_status() {
    let mut log = StatusLog::new("t".to_string());
    log.set("z".to_string(), Some("Zed".to_string()), JobStatusEnum::Pending);
    log.set("x".to_string(), Some("First".to_string()), JobStatusEnum::Pending);
    log.set("x".to_string(), Some("Second".to_string()), JobStatusEnum::Running);
    log.set("x".to_string(), None, JobStatusEnum::Completed);
    assert_eq!(log.statuses.len(), 2);
    assert_eq!(log.statuses.iter().filter(|e| e.id == "x").count(), 1);
    assert_eq!(log.statuses[1].name, "First");
    assert_eq!(log.get_state_by_id("x".to_string()), Some(JobStatusEnum::Completed));
    assert_eq!(log.statuses[0].status, JobStatusEnum::Pending);
}

#[test]
fn list_steps() {
    assert_eq!(list_step(ListEvent::JobsLoaded(0)), ListCommand::Leave);
    assert_eq!(list_step(ListEvent::JobsLoaded(3)), ListCommand::PickJobAndAction);
    assert_eq!(list_step(ListEvent::ActionPicked(2, 0)), ListCommand::ShowDetails(2));
    assert_eq!(list_step(ListEvent::ActionPicked(1, 1)), ListCommand::ConfirmDelete(1));
    assert_eq!(list_step(ListEvent::DeleteAnswered(1, true)), ListCommand::RemoveJob(1));
    assert_eq!(list_step(ListEvent::DeleteAnswered(1, false)), ListCommand::Reload);
}

#[test]
fn gather_jobs_skips_failures_and_keeps_order() {
    let parsed = vec![Some(job("a", "A")), None, Some(job("c", "C")), None, Some(job("a", "A2"))];
    let (jobs, ids) = gather_jobs(parsed);
    let names: Vec<&str> = jobs.iter().map(|j| j.name.as_str()).collect();
    assert_eq!(names, vec!["A", "C", "A2"]);
    assert_eq!(ids, vec!["a".to_string(), "c".to_string(), "a".to_string()]);
    let (none, no_ids) = gather_jobs(vec![None, None]);
    assert!(none.is_empty() && no_ids.is_empty());
}

#[test]
fn esc_at_job_prompt_leaves_the_list() {
    assert_eq!(list_step(ListEvent::JobPickCancelled), ListCommand::Leave);
}
