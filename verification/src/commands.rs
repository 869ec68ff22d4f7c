//! The decisions of the desktop commands that launch, probe and restore the
//! managed Codex instance; the process and network work is done by the
//! caller.
use vstd::prelude::*;

use crate::codex::DevtoolsTarget;
use crate::error::{validation, AppError};

verus! {

/// How many times the DevTools target list is requested after launch.
pub const LAUNCH_PROBE_ATTEMPTS: u32 = 30;

/// The pause after each failed request, in milliseconds.
pub const LAUNCH_PROBE_DELAY_MS: u64 = 100;

/// A new instance is launched only when none is running.
pub fn check_no_running_instance(running: bool) -> (r: Result<(), AppError>)
    ensures
        r is Ok <==> !running,
        r matches Err(e) ==> e.is_validation("a managed Codex instance is already running"@),
{
    if running {
        return Err(validation("a managed Codex instance is already running"));
    }
    Ok(())
}

/// The DevTools port of the managed instance, which must exist.
pub fn require_managed_port(port: Option<u16>) -> (r: Result<u16, AppError>)
    ensures
        match port {
            Some(p) => r == Ok::<u16, AppError>(p),
            None => r matches Err(e) && e.is_validation("no managed Codex instance"@),
        },
{
    match port {
        Some(p) => Ok(p),
        None => Err(validation("no managed Codex instance")),
    }
}

/// What to do after a request for the target list.
#[derive(Debug)]
pub enum ProbeStep {
    /// The targets are listed: the launch succeeded.
    Ready(Vec<DevtoolsTarget>),
    /// Wait this many milliseconds, then request again.
    RetryAfter(u64),
    /// Wait this many milliseconds, then stop the instance and fail.
    StopAfter(u64, AppError),
}

/// The step after request number `attempt` (counted from 1) gave `result`:
/// a list ends the probe; an error waits and retries until the last
/// attempt, whose error is the launch's.
pub fn probe_step(attempt: u32, result: Result<Vec<DevtoolsTarget>, AppError>) -> (step: ProbeStep)
    requires
        1 <= attempt <= LAUNCH_PROBE_ATTEMPTS,
    ensures
        match result {
            Ok(t) => step == ProbeStep::Ready(t),
            Err(e) => if attempt < LAUNCH_PROBE_ATTEMPTS {
                step == ProbeStep::RetryAfter(LAUNCH_PROBE_DELAY_MS)
            } else {
                step == ProbeStep::StopAfter(LAUNCH_PROBE_DELAY_MS, e)
            },
        },
{
    match result {
        Ok(t) => ProbeStep::Ready(t),
        Err(e) => if attempt < LAUNCH_PROBE_ATTEMPTS {
            ProbeStep::RetryAfter(LAUNCH_PROBE_DELAY_MS)
        } else {
            ProbeStep::StopAfter(LAUNCH_PROBE_DELAY_MS, e)
        },
    }
}

/// The result of restoring Codex: the restore is tried and the process is
/// stopped either way; a restore error is reported first, else the stop's
/// result.
pub fn combine_restore_results(restore: Result<(), AppError>, stop: Result<(), AppError>) -> (r: Result<
    (),
    AppError,
>)
    ensures
        match restore {
            Err(e) => r == Err::<(), AppError>(e),
            Ok(_) => r == stop,
        },
{
    match (restore, stop) {
        (Err(error), _) => Err(error),
        (Ok(()), result) => result,
    }
}

} // verus!
