//! The advisory marker that keeps two runners of one script from running at
//! once: a file named after the script that holds the owner's process id.
use vstd::prelude::*;

use crate::error::CronRunnerError;
use crate::text::{file_name_of, path_file_name};

verus! {

/// Where the marker of a script named `name` lives.
pub open spec fn pid_path_for(name: Seq<char>) -> Seq<char> {
    "/tmp/cronn_"@ + name + ".pid"@
}

/// The marker file of one script.
pub struct PidFile {
    path: String,
}

impl PidFile {
    pub closed spec fn spec_path(&self) -> Seq<char> {
        self.path@
    }

    /// The marker of the script at `script_path`, named after the path's
    /// final component; a path without one is rejected.
    pub fn new(script_path: &str) -> (r: Result<PidFile, CronRunnerError>)
        ensures
            match file_name_of(script_path@) {
                Some(n) => r matches Ok(p) && p.spec_path() == pid_path_for(n),
                None => r matches Err(CronRunnerError::PidFileError(m)) && m@ == script_path@,
            },
    {
        match path_file_name(script_path) {
            Some(name) => {
                let mut path = String::from_str("/tmp/cronn_");
                path.append(name.as_str());
                path.append(".pid");
                Ok(PidFile { path })
            },
            None => Err(CronRunnerError::PidFileError(String::from_str(script_path))),
        }
    }

    /// The marker's path.
    pub fn path(&self) -> (r: &str)
        ensures
            r@ == self.spec_path(),
    {
        self.path.as_str()
    }
}

} // verus!
