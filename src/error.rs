//! Errors of the single-script runner.
use vstd::prelude::*;

verus! {

/// What can go wrong when the runner checks, guards or runs its script.
/// Paths and messages are held as text; a timeout in milliseconds.
#[derive(Debug)]
pub enum CronRunnerError {
    ScriptNotFound(String),
    NotAFile(String),
    NoExecutePermission(String),
    ExecutionFailed,
    InvalidInterval,
    InvalidEnvVarFormat(String),
    AlreadyRunning(u32),
    Timeout(u64),
    ConfigError(String),
    PidFileError(String),
    IoError(String),
    SignalError(String),
}

} // verus!
