//! The single-script runner's own checks: its `KEY=VALUE` arguments, the
//! execute permission of its script, and its configuration file's values.
use vstd::prelude::*;

use crate::error::CronRunnerError;
use crate::text::{split_first, split_once_char};

verus! {

/// Settings read from the runner's configuration file; every one is optional.
#[derive(Debug)]
pub struct Config {
    pub default_interval: Option<String>,
    pub default_log_file: Option<String>,
    pub environment: Option<Vec<(String, String)>>,
    pub max_history_entries: Option<usize>,
}

impl Default for Config {
    fn default() -> (r: Self)
        ensures
            r.default_interval is None,
            r.default_log_file is None,
            r.environment is None,
            r.max_history_entries is None,
    {
        Config { default_interval: None, default_log_file: None, environment: None, max_history_entries: None }
    }
}

/// Parses one `KEY=VALUE` argument, split at its first `=`.
pub fn parse_key_val(s: &str) -> (r: Result<(String, String), CronRunnerError>)
    ensures
        match split_first(s@, '=') {
            Some(p) => r matches Ok(q) && q.0@ == p.0 && q.1@ == p.1,
            None => r matches Err(CronRunnerError::InvalidEnvVarFormat(m)) && m@ == s@,
        },
{
    match split_once_char(s, '=') {
        Some(p) => Ok(p),
        None => Err(CronRunnerError::InvalidEnvVarFormat(String::from_str(s))),
    }
}

/// The execute bit that applies to the runner: the owner's if it owns the
/// file, else the group's if it is in the file's group, else everyone's.
pub open spec fn may_execute(mode: u32, file_uid: u32, file_gid: u32, uid: u32, gid: u32) -> bool {
    if file_uid == uid {
        mode & 0o100u32 != 0
    } else if file_gid == gid {
        mode & 0o010u32 != 0
    } else {
        mode & 0o001u32 != 0
    }
}

/// Whether the script at `path`, with the given metadata, may be run: it
/// must exist, be a regular file, have some execute bit, and the bit that
/// applies to the runner's user and group.
pub fn check_script_metadata(
    path: &str,
    exists: bool,
    is_file: bool,
    mode: u32,
    file_uid: u32,
    file_gid: u32,
    uid: u32,
    gid: u32,
) -> (r: Result<(), CronRunnerError>)
    ensures
        !exists ==> (r matches Err(CronRunnerError::ScriptNotFound(m)) && m@ == path@),
        exists && !is_file ==> (r matches Err(CronRunnerError::NotAFile(m)) && m@ == path@),
        exists && is_file ==> if mode & 0o111u32 != 0 && may_execute(mode, file_uid, file_gid, uid, gid) {
            r is Ok
        } else {
            r matches Err(CronRunnerError::NoExecutePermission(m)) && m@ == path@
        },
{
    if !exists {
        return Err(CronRunnerError::ScriptNotFound(String::from_str(path)));
    }
    if !is_file {
        return Err(CronRunnerError::NotAFile(String::from_str(path)));
    }
    let allowed = if file_uid == uid {
        mode & 0o100u32 != 0
    } else if file_gid == gid {
        mode & 0o010u32 != 0
    } else {
        mode & 0o001u32 != 0
    };
    if mode & 0o111u32 == 0 || !allowed {
        return Err(CronRunnerError::NoExecutePermission(String::from_str(path)));
    }
    Ok(())
}

} // verus!
