//! What a launch reports, and the decisions of the timeout watchdog that
//! watches a running job's process.
use vstd::prelude::*;

verus! {

/// How often the watchdog checks whether a timed job's process is still alive.
pub const LIVENESS_POLL_MS: u64 = 100;

/// Why a run ended.
#[derive(Clone, Copy, Debug, PartialEq, Eq, Structural)]
pub enum TerminationReason {
    /// The process exited by itself, or never started.
    NaturalExit,
    /// The watchdog killed the process when its timeout had passed.
    TimeoutKilled,
    /// The process was killed because the shutdown grace period ran out.
    ShutdownForced,
}

/// The report of one run of a job.
#[derive(Clone, Debug)]
pub struct RunOutcome {
    pub name: String,
    /// When the run started, in milliseconds since the Unix epoch.
    pub start_ms: u64,
    pub duration_ms: u64,
    /// The exit code; absent if the process was killed or never started.
    pub exit_code: Option<i32>,
    pub success: bool,
    pub reason: TerminationReason,
    /// Why the process could not be started, if it could not.
    pub cause: Option<String>,
}

/// Milliseconds from `start` to `end`; zero if the clock went backwards.
pub open spec fn elapsed_between(start: u64, end: u64) -> u64 {
    if end >= start {
        (end - start) as u64
    } else {
        0
    }
}

/// The milliseconds from `start` to `end`, or zero if `end` comes first.
pub fn elapsed_ms(start: u64, end: u64) -> (r: u64)
    ensures
        r == elapsed_between(start, end),
{
    if end >= start {
        end - start
    } else {
        0
    }
}

impl RunOutcome {
    /// The outcome of a process that exited by itself; it succeeded when its
    /// exit code is zero.
    pub fn exited(name: String, start_ms: u64, end_ms: u64, exit_code: Option<i32>) -> (r: Self)
        ensures
            r.name == name,
            r.start_ms == start_ms,
            r.duration_ms == elapsed_between(start_ms, end_ms),
            r.exit_code == exit_code,
            r.success == (exit_code == Some(0i32)),
            r.reason == TerminationReason::NaturalExit,
            r.cause is None,
    {
        let success = match exit_code {
            Some(c) => c == 0,
            None => false,
        };
        RunOutcome {
            name,
            start_ms,
            duration_ms: elapsed_ms(start_ms, end_ms),
            exit_code,
            success,
            reason: TerminationReason::NaturalExit,
            cause: None,
        }
    }

    /// The outcome of a process that the watchdog killed at its timeout.
    pub fn timed_out(name: String, start_ms: u64, end_ms: u64) -> (r: Self)
        ensures
            r.name == name,
            r.start_ms == start_ms,
            r.duration_ms == elapsed_between(start_ms, end_ms),
            r.exit_code is None,
            !r.success,
            r.reason == TerminationReason::TimeoutKilled,
            r.cause is None,
    {
        RunOutcome {
            name,
            start_ms,
            duration_ms: elapsed_ms(start_ms, end_ms),
            exit_code: None,
            success: false,
            reason: TerminationReason::TimeoutKilled,
            cause: None,
        }
    }

    /// The outcome of a process killed when the shutdown grace period ran out.
    pub fn forced(name: String, start_ms: u64, end_ms: u64) -> (r: Self)
        ensures
            r.name == name,
            r.start_ms == start_ms,
            r.duration_ms == elapsed_between(start_ms, end_ms),
            r.exit_code is None,
            !r.success,
            r.reason == TerminationReason::ShutdownForced,
            r.cause is None,
    {
        RunOutcome {
            name,
            start_ms,
            duration_ms: elapsed_ms(start_ms, end_ms),
            exit_code: None,
            success: false,
            reason: TerminationReason::ShutdownForced,
            cause: None,
        }
    }

    /// The outcome of a launch whose process could not be started.
    pub fn spawn_failed(name: String, start_ms: u64, cause: String) -> (r: Self)
        ensures
            r.name == name,
            r.start_ms == start_ms,
            r.duration_ms == 0,
            r.exit_code is None,
            !r.success,
            r.reason == TerminationReason::NaturalExit,
            r.cause == Some(cause),
    {
        RunOutcome {
            name,
            start_ms,
            duration_ms: 0,
            exit_code: None,
            success: false,
            reason: TerminationReason::NaturalExit,
            cause: Some(cause),
        }
    }
}

/// What the watchdog does at one liveness check.
#[derive(Clone, Copy, Debug, PartialEq, Eq, Structural)]
pub enum WatchDecision {
    /// The process is still within its time: check again later.
    KeepWaiting,
    /// The process has run longer than its timeout: kill it.
    Kill,
    /// The process has exited: report its exit.
    Finished,
}

/// The watchdog's decision for a process started at `start` and checked at
/// `now`: a process that has exited is finished; one that has run longer than
/// its timeout is killed; otherwise it is left to run.
pub open spec fn watch_decision(start: u64, now: u64, timeout_seconds: Option<u64>, exited: bool) -> WatchDecision {
    if exited {
        WatchDecision::Finished
    } else {
        match timeout_seconds {
            Some(t) => if elapsed_between(start, now) > t * 1000 {
                WatchDecision::Kill
            } else {
                WatchDecision::KeepWaiting
            },
            None => WatchDecision::KeepWaiting,
        }
    }
}

/// Decides, at one liveness check, what happens to a launched process.
pub fn watchdog_step(start_ms: u64, now_ms: u64, timeout_seconds: Option<u64>, exited: bool) -> (r: WatchDecision)
    ensures
        r == watch_decision(start_ms, now_ms, timeout_seconds, exited),
{
    if exited {
        return WatchDecision::Finished;
    }
    match timeout_seconds {
        Some(t) => {
            let elapsed = elapsed_ms(start_ms, now_ms);
            match t.checked_mul(1000) {
                Some(limit) => if elapsed > limit {
                    WatchDecision::Kill
                } else {
                    WatchDecision::KeepWaiting
                },
                None => WatchDecision::KeepWaiting,
            }
        },
        None => WatchDecision::KeepWaiting,
    }
}

} // verus!
