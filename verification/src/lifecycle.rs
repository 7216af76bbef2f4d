//! The service's running flag and what the start, stop, reload and
//! shutdown requests do with it.
use vstd::prelude::*;
use crate::api::{reply_is, ActionReply, ApiError};

verus! {

/// A request that changes whether the jobs run.
#[derive(Debug, Clone, Copy, PartialEq, Eq, Structural)]
pub enum Command {
    Start,
    Stop,
    Reload,
    Shutdown,
}

/// The work a request asks of the service.
#[derive(Debug, Clone, Copy, PartialEq, Eq, Structural)]
pub enum Effect {
    /// load the jobs and run them
    RunJobs,
    /// stop every running job
    StopJobs,
    /// stop, reload and run the jobs again
    ReloadJobs,
    /// shut the jobs' scheduler down
    ShutdownJobs,
    /// nothing
    Nothing,
}

/// The running flag after a command, and what the command does: a start
/// while running and a stop while stopped are refused as conflicts; a
/// shutdown shuts the jobs down only when the flag was already clear.
pub open spec fn command_outcome(started: bool, cmd: Command) -> (bool, Result<Effect, ApiError>) {
    match cmd {
        Command::Start => (true, if started { Err(ApiError::Conflict) } else { Ok(Effect::RunJobs) }),
        Command::Stop => (false, if started { Ok(Effect::StopJobs) } else { Err(ApiError::Conflict) }),
        Command::Reload => (true, Ok(Effect::ReloadJobs)),
        Command::Shutdown => (false, if started { Ok(Effect::Nothing) } else { Ok(Effect::ShutdownJobs) }),
    }
}

/// Decides a command given the running flag as it was before it.
pub fn handle_command(started: bool, cmd: Command) -> (r: (bool, Result<Effect, ApiError>))
    ensures
        r == command_outcome(started, cmd),
{
    match cmd {
        Command::Start => (true, if started { Err(ApiError::Conflict) } else { Ok(Effect::RunJobs) }),
        Command::Stop => (false, if started { Ok(Effect::StopJobs) } else { Err(ApiError::Conflict) }),
        Command::Reload => (true, Ok(Effect::ReloadJobs)),
        Command::Shutdown => (false, if started { Ok(Effect::Nothing) } else { Ok(Effect::ShutdownJobs) }),
    }
}

/// The answer to an accepted command once its work is done. Stopping fails
/// with an internal error when the work failed; so does a shutdown, which
/// otherwise sends no answer at all (`Ok(None)`): the process ends. A reload
/// whose work failed is not answered (the service panics), so it is left
/// out.
pub fn command_reply(cmd: Command, work_succeeded: bool) -> (r: Result<Option<ActionReply>, ApiError>)
    requires
        cmd == Command::Reload ==> work_succeeded,
    ensures
        cmd == Command::Start ==> (r matches Ok(Some(a)) && reply_is(a, "Jobs started"@, None)),
        cmd == Command::Reload ==> (r matches Ok(Some(a)) && reply_is(
            a,
            "Config reloaded."@,
            None,
        )),
        cmd == Command::Stop && work_succeeded ==> (r matches Ok(Some(a)) && reply_is(
            a,
            "Jobs stopped"@,
            None,
        )),
        cmd == Command::Shutdown && work_succeeded ==> r is Ok && r->Ok_0 is None,
        (cmd == Command::Stop || cmd == Command::Shutdown) && !work_succeeded ==> r == Err::<
            Option<ActionReply>,
            ApiError,
        >(ApiError::InternalServerError),
{
    match cmd {
        Command::Start => Ok(
            Some(
                ActionReply {
                    success: true,
                    message: String::from_str("Jobs started"),
                    path: None,
                },
            ),
        ),
        Command::Reload => Ok(
            Some(
                ActionReply {
                    success: true,
                    message: String::from_str("Config reloaded."),
                    path: None,
                },
            ),
        ),
        Command::Stop => {
            if work_succeeded {
                Ok(
                    Some(
                        ActionReply {
                            success: true,
                            message: String::from_str("Jobs stopped"),
                            path: None,
                        },
                    ),
                )
            } else {
                Err(ApiError::InternalServerError)
            }
        },
        Command::Shutdown => {
            if work_succeeded {
                Ok(None)
            } else {
                Err(ApiError::InternalServerError)
            }
        },
    }
}

/// Whether the service may start: refused with "Instance already running"
/// when another instance already answers.
pub fn instance_check(instance_running: bool) -> (r: Result<(), String>)
    ensures
        r is Ok <==> !instance_running,
        r matches Err(m) ==> m@ == "Instance already running"@,
{
    if instance_running {
        Err(String::from_str("Instance already running"))
    } else {
        Ok(())
    }
}

/// A second start, with nothing in between, is refused as a conflict.
pub proof fn law_start_twice_conflicts(started: bool)
    ensures
        command_outcome(command_outcome(started, Command::Start).0, Command::Start).1 == Err::<
            Effect,
            ApiError,
        >(ApiError::Conflict),
{
}

/// A stop right after a start is accepted, whatever the flag was.
pub proof fn law_stop_after_start(started: bool)
    ensures
        command_outcome(command_outcome(started, Command::Start).0, Command::Stop).1 == Ok::<
            Effect,
            ApiError,
        >(Effect::StopJobs),
{
}

/// A second stop, with nothing in between, is refused as a conflict.
pub proof fn law_stop_twice_conflicts(started: bool)
    ensures
        command_outcome(command_outcome(started, Command::Stop).0, Command::Stop).1 == Err::<
            Effect,
            ApiError,
        >(ApiError::Conflict),
{
}

/// A start is accepted exactly when a stop would be refused, and the flag
/// after any command does not depend on the flag before it.
pub proof fn law_start_and_stop_are_opposite(started: bool, cmd: Command)
    ensures
        (command_outcome(started, Command::Start).1 is Ok) == (command_outcome(
            started,
            Command::Stop,
        ).1 is Err),
        command_outcome(started, cmd).0 == command_outcome(!started, cmd).0,
{
}

} // verus!
