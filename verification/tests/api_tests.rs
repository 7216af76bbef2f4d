use autopilot::api::{
    create_reply, delete_reply, health, is_healthy, job_by_id, merged_job_list, update_reply,
    updated_job_name, ApiError, HealthResponse, JobResponse, StartConfig, API_SERVICE_NAME,
};
use autopilot::job::Job;
use autopilot::lifecycle::{command_reply, handle_command, instance_check, Command, Effect};
use autopilot::status::{JobStatusEnum, JobStatusStruct, StatusLog};

fn job(id: &str, name: &str, loaded: bool) -> Job {
    Job {
        id: id.to_string(),
        name: name.to_string(),
        description: format!("does {}", name),
        loaded,
    }
}

fn find<'a>(list: &'a [JobResponse], id: &str) -> &'a JobResponse {
    list.iter().find(|r| r.id == id).unwrap()
}

#[test]
fn health_is_ok_and_named() {
    let h = health();
    assert_eq!(h.status, "ok");
    assert_eq!(h.service, "autopilot-api");
    assert_eq!(API_SERVICE_NAME, "autopilot-api");
    assert!(is_healthy(&h));
}

#[test]
fn unhealthy_answers_are_recognised() {
    let wrong_status = HealthResponse { status: "down".to_string(), service: API_SERVICE_NAME.to_string() };
    assert!(!is_healthy(&wrong_status));
    let wrong_service = HealthResponse { status: "ok".to_string(), service: "other".to_string() };
    assert!(!is_healthy(&wrong_service));
}

#[test]
fn start_config_holds_verbosity() {
    let c = StartConfig { verbose: Some(true) };
    assert_eq!(c.verbose, Some(true));
}

#[test]
fn status_codes() {
    assert_eq!(ApiError::Conflict.status_code(), 409);
    assert_eq!(ApiError::NotFound.status_code(), 404);
    assert_eq!(ApiError::BadRequest.status_code(), 400);
    assert_eq!(ApiError::InternalServerError.status_code(), 500);
}

#[test]
fn response_from_status_entry() {
    let s = JobStatusStruct::new("a".to_string(), "Alpha".to_string(), JobStatusEnum::Running);
    let r = JobResponse::from_status(&s);
    assert_eq!(r.id, "a");
    assert_eq!(r.name, "Alpha");
    assert_eq!(r.description, "Alpha");
    assert!(r.loaded);
    assert_eq!(r.status, "Running");
}

#[test]
fn response_from_job_renders_optional_status() {
    let mut log = StatusLog::new("t".to_string());
    log.set("a".to_string(), Some("A".to_string()), JobStatusEnum::Failed);
    let known = JobResponse::from_job_and_sm(&job("a", "A", true), &log);
    assert_eq!(known.status, format!("{:?}", Some(JobStatusEnum::Failed)));
    assert_eq!(known.status, "Some(Failed)");
    assert_eq!(known.description, "does A");
    let unknown = JobResponse::from_job_and_sm(&job("b", "B", false), &log);
    assert_eq!(unknown.status, "None");
    assert!(!unknown.loaded);
}

#[test]
fn listing_prefers_live_entries_and_has_one_entry_per_id() {
    let mut log = StatusLog::new("t".to_string());
    log.set("a".to_string(), Some("Live A".to_string()), JobStatusEnum::Running);
    log.set("c".to_string(), Some("Live C".to_string()), JobStatusEnum::Waiting);
    let jobs = vec![job("a", "A", false), job("b", "B", false), job("b", "B2", true)];
    let list = merged_job_list(&jobs, &log);
    assert_eq!(list.len(), 3);
    let a = find(&list, "a");
    assert_eq!(a.name, "Live A");
    assert_eq!(a.status, "Running");
    assert!(a.loaded);
    let b = find(&list, "b");
    assert_eq!(b.name, "B2");
    assert_eq!(b.status, "None");
    let c = find(&list, "c");
    assert_eq!(c.description, "Live C");
}

#[test]
fn empty_listing() {
    let log = StatusLog::new("t".to_string());
    assert!(merged_job_list(&Vec::new(), &log).is_empty());
}

#[test]
fn job_by_id_finds_first_or_not_found() {
    let log = StatusLog::new("t".to_string());
    let jobs = vec![job("a", "first", false), job("a", "second", false)];
    let r = job_by_id(&jobs, &"a".to_string(), &log).ok().unwrap();
    assert_eq!(r.name, "first");
    assert_eq!(job_by_id(&jobs, &"x".to_string(), &log).err(), Some(ApiError::NotFound));
}

#[test]
fn crud_replies() {
    let created = create_reply(Some("/jobs/a.jsonc".to_string())).ok().unwrap();
    assert!(created.success);
    assert_eq!(created.message, "Job created");
    assert_eq!(created.path.as_deref(), Some("/jobs/a.jsonc"));
    assert_eq!(create_reply(None).err(), Some(ApiError::BadRequest));

    let deleted = delete_reply(true).ok().unwrap();
    assert_eq!(deleted.message, "Job deleted");
    assert!(deleted.path.is_none());
    assert_eq!(delete_reply(false).err(), Some(ApiError::NotFound));

    assert_eq!(update_reply(false, Some("p".to_string())).err(), Some(ApiError::NotFound));
    assert_eq!(update_reply(true, None).err(), Some(ApiError::InternalServerError));
    let updated = update_reply(true, Some("p".to_string())).ok().unwrap();
    assert_eq!(updated.message, "Job updated");
    assert_eq!(updated.path.as_deref(), Some("p"));
}

#[test]
fn updated_name_has_suffix() {
    assert_eq!(updated_job_name(&"backup".to_string()), "backup_updated");
    assert_eq!(updated_job_name(&String::new()), "_updated");
}

#[test]
fn start_and_stop_flags() {
    let (started, r) = handle_command(false, Command::Start);
    assert!(started);
    assert_eq!(r, Ok(Effect::RunJobs));
    let (started, r) = handle_command(started, Command::Start);
    assert!(started);
    assert_eq!(r, Err(ApiError::Conflict));
    let (started, r) = handle_command(started, Command::Stop);
    assert!(!started);
    assert_eq!(r, Ok(Effect::StopJobs));
    let (started, r) = handle_command(started, Command::Stop);
    assert!(!started);
    assert_eq!(r, Err(ApiError::Conflict));
}

#[test]
fn reload_and_shutdown_flags() {
    assert_eq!(handle_command(false, Command::Reload), (true, Ok(Effect::ReloadJobs)));
    assert_eq!(handle_command(true, Command::Reload), (true, Ok(Effect::ReloadJobs)));
    assert_eq!(handle_command(false, Command::Shutdown), (false, Ok(Effect::ShutdownJobs)));
    assert_eq!(handle_command(true, Command::Shutdown), (false, Ok(Effect::Nothing)));
}

#[test]
fn command_replies() {
    assert_eq!(command_reply(Command::Start, true).ok().unwrap().unwrap().message, "Jobs started");
    assert_eq!(command_reply(Command::Reload, true).ok().unwrap().unwrap().message, "Config reloaded.");
    assert_eq!(command_reply(Command::Stop, true).ok().unwrap().unwrap().message, "Jobs stopped");
    assert_eq!(command_reply(Command::Stop, false).err(), Some(ApiError::InternalServerError));
    assert_eq!(command_reply(Command::Shutdown, false).err(), Some(ApiError::InternalServerError));
    // a successful shutdown ends the process without an answer
    assert!(command_reply(Command::Shutdown, true).ok().unwrap().is_none());
}

#[test]
fn second_instance_is_refused() {
    assert_eq!(instance_check(true), Err("Instance already running".to_string()));
    assert_eq!(instance_check(false), Ok(()));
}
