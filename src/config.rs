//! One schedulable job: its configuration and its run-time state.
use vstd::prelude::*;

use crate::interpreter::{detect_interpreter, detected_for_path};
use crate::launcher::RunOutcome;

verus! {

/// Relies on `std::time::SystemTime::now`: the wall clock, in milliseconds
/// since the Unix epoch (zero for a clock set before the epoch). Nothing is
/// promised of its value.
#[verifier::external_body]
pub(crate) fn current_time_ms() -> (r: u64) {
    match std::time::SystemTime::now().duration_since(std::time::UNIX_EPOCH) {
        Ok(d) => d.as_millis() as u64,
        Err(_) => 0,
    }
}

/// A job: the script it runs, how often and how, and whether it is running.
///
/// Times are milliseconds since the Unix epoch; intervals and timeouts are
/// whole seconds. The `running` flag is the job's single-instance guard: it is
/// set by `start_execution`, which fails while it is set, and cleared by
/// `finish_execution` or `force_terminate`.
#[derive(Clone, Debug)]
pub struct ScriptConfig {
    pub path: String,
    pub interpreter: Option<String>,
    pub interval_seconds: u64,
    pub last_run: Option<u64>,
    pub enabled: bool,
    pub working_directory: Option<String>,
    pub environment: Vec<(String, String)>,
    pub timeout_seconds: Option<u64>,
    pub last_outcome: Option<RunOutcome>,
    pub running: bool,
}

impl ScriptConfig {
    /// A job with a positive interval, and a positive timeout if it has one.
    pub open spec fn wf(&self) -> bool {
        &&& self.interval_seconds > 0
        &&& match self.timeout_seconds {
            Some(t) => t > 0,
            None => true,
        }
    }

    /// The job is due at `now`: enabled, not running, and either never run or
    /// last run at least one interval ago.
    pub open spec fn due_at(&self, now: u64) -> bool {
        &&& self.enabled
        &&& !self.running
        &&& match self.last_run {
            None => true,
            Some(t) => now - t >= self.interval_seconds * 1000,
        }
    }

    /// This job with its running flag set.
    pub open spec fn started(self) -> Self {
        ScriptConfig { running: true, ..self }
    }

    /// This job after a run that ended at `now` and reported `outcome`.
    pub open spec fn finished(self, now: u64, outcome: RunOutcome) -> Self {
        ScriptConfig { running: false, last_run: Some(now), last_outcome: Some(outcome), ..self }
    }

    /// This job with its running flag cleared.
    pub open spec fn stopped(self) -> Self {
        ScriptConfig { running: false, ..self }
    }

    /// This job with its enabled flag set to `enabled`.
    pub open spec fn with_enabled(self, enabled: bool) -> Self {
        ScriptConfig { enabled, ..self }
    }

    /// A new enabled job that has never run.
    pub fn new(path: String, interpreter: Option<String>, interval_seconds: u64) -> (r: Self)
        requires
            interval_seconds > 0,
        ensures
            r.wf(),
            r.path == path,
            r.interpreter == interpreter,
            r.interval_seconds == interval_seconds,
            r.last_run is None,
            r.enabled,
            r.working_directory is None,
            r.environment@.len() == 0,
            r.timeout_seconds is None,
            r.last_outcome is None,
            !r.running,
    {
        ScriptConfig {
            path,
            interpreter,
            interval_seconds,
            last_run: None,
            enabled: true,
            working_directory: None,
            environment: Vec::new(),
            timeout_seconds: None,
            last_outcome: None,
            running: false,
        }
    }

    /// Whether the job is due at `now_ms`.
    pub fn should_run_at(&self, now_ms: u64) -> (r: bool)
        ensures
            r == self.due_at(now_ms),
    {
        if !self.enabled || self.running {
            return false;
        }
        match self.last_run {
            None => true,
            Some(last) => {
                if now_ms < last {
                    return false;
                }
                match self.interval_seconds.checked_mul(1000) {
                    Some(interval_ms) => now_ms - last >= interval_ms,
                    None => false,
                }
            },
        }
    }

    /// Whether the job is due now, by the wall clock.
    pub fn should_run(&self) -> (r: bool)
        ensures
            r ==> self.enabled && !self.running,
            self.enabled && !self.running && self.last_run is None ==> r,
            r ==> exists|now: u64| self.due_at(now),
    {
        let now = current_time_ms();
        self.should_run_at(now)
    }

    pub fn is_running(&self) -> (r: bool)
        ensures
            r == self.running,
    {
        self.running
    }

    /// Claims the job for one run: sets the running flag and returns true, or
    /// returns false and changes nothing when the job is already running.
    pub fn start_execution(&mut self) -> (r: bool)
        ensures
            r == !old(self).running,
            *final(self) == old(self).started(),
    {
        if self.running {
            return false;
        }
        self.running = true;
        true
    }

    /// Records the end of a run at `now_ms`: clears the running flag and
    /// stamps the last run time and outcome.
    pub fn finish_execution(&mut self, now_ms: u64, outcome: RunOutcome)
        ensures
            *final(self) == old(self).finished(now_ms, outcome),
    {
        self.running = false;
        self.last_run = Some(now_ms);
        self.last_outcome = Some(outcome);
    }

    /// Releases a job whose process is being killed: clears the running flag.
    pub fn force_terminate(&mut self)
        ensures
            *final(self) == old(self).stopped(),
    {
        if !self.running {
            return;
        }
        self.running = false;
    }

    pub fn enable(&mut self)
        ensures
            *final(self) == old(self).with_enabled(true),
    {
        self.enabled = true;
    }

    pub fn disable(&mut self)
        ensures
            *final(self) == old(self).with_enabled(false),
    {
        self.enabled = false;
    }

    /// The program to spawn and its arguments: the job's interpreter with the
    /// script path as its argument, else the interpreter detected from the
    /// path's extension, else the script itself.
    pub fn command_line(&self) -> (r: (String, Vec<String>))
        ensures
            match (self.interpreter, detected_for_path(self.path@)) {
                (Some(i), _) => r.0@ == i@ && r.1@.len() == 1 && r.1@[0]@ == self.path@,
                (None, Some(d)) => r.0@ == d && r.1@.len() == 1 && r.1@[0]@ == self.path@,
                (None, None) => r.0@ == self.path@ && r.1@.len() == 0,
            },
    {
        let program = match &self.interpreter {
            Some(i) => Some(i.clone()),
            None => detect_interpreter(self.path.as_str()),
        };
        match program {
            Some(p) => {
                let mut args: Vec<String> = Vec::new();
                args.push(self.path.clone());
                (p, args)
            },
            None => (self.path.clone(), Vec::new()),
        }
    }

    pub fn set_working_directory(&mut self, dir: Option<String>)
        ensures
            *final(self) == (ScriptConfig { working_directory: dir, ..*old(self) }),
    {
        self.working_directory = dir;
    }

    /// Sets the variables laid over the inherited environment; a later pair
    /// wins over an earlier one with the same name.
    pub fn set_environment_vars(&mut self, vars: Vec<(String, String)>)
        ensures
            *final(self) == (ScriptConfig { environment: vars, ..*old(self) }),
    {
        self.environment = vars;
    }

    pub fn set_timeout(&mut self, seconds: u64)
        requires
            seconds > 0,
        ensures
            *final(self) == (ScriptConfig { timeout_seconds: Some(seconds), ..*old(self) }),
    {
        self.timeout_seconds = Some(seconds);
    }

    pub fn is_enabled(&self) -> (r: bool)
        ensures
            r == self.enabled,
    {
        self.enabled
    }
}

} // verus!
