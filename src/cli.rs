//! The command line's values, and the checks and defaults that the program
//! applies to them. Paths are held as text.
use vstd::prelude::*;

use crate::text::{file_name_of, opt_view, path_file_name, split_first, split_once_char};

verus! {

/// The parsed command line.
pub struct Args {
    pub command: Commands,
    /// Enable verbose logging.
    pub verbose: bool,
    /// Configuration file path.
    pub config: Option<String>,
}

/// The commands of the program.
#[allow(inconsistent_fields)]
pub enum Commands {
    /// Run a single script, once or continuously.
    Run {
        script: String,
        interval: u64,
        interpreter: Option<String>,
        name: Option<String>,
        once: bool,
        workdir: Option<String>,
        env: Vec<String>,
        timeout: Option<u64>,
    },
    /// Add a script to the configuration.
    Add {
        script: String,
        name: Option<String>,
        interval: u64,
        interpreter: Option<String>,
        disabled: bool,
        workdir: Option<String>,
        env: Vec<String>,
        timeout: Option<u64>,
        priority: i32,
        depends_on: Vec<String>,
    },
    /// Remove a script from the configuration.
    Remove { name: String, force: bool },
    /// List the configured scripts.
    List { enabled: bool, disabled: bool, format: ListFormat, verbose: bool },
    /// Enable scripts by name (or `all`).
    Enable { names: Vec<String> },
    /// Disable scripts by name (or `all`).
    Disable { names: Vec<String> },
    /// Show the status of the scheduler and its scripts.
    Status { detailed: bool, refresh: u64 },
    /// Start the scheduler.
    Start { foreground: bool, pid_file: Option<String>, log_file: Option<String> },
    /// Stop a running scheduler.
    Stop { pid_file: Option<String>, force: bool },
    /// Restart the scheduler.
    Restart { pid_file: Option<String>, force: bool },
    /// Manage scripts interactively.
    Interactive,
    /// Show logs.
    Logs { script: Option<String>, lines: usize, follow: bool, since: Option<String> },
    /// Check a script's configuration without running it.
    Test { script: String, dry_run: bool },
    /// Export the configuration.
    Export { output: Option<String>, format: ExportFormat, include_disabled: bool },
    /// Import a configuration.
    Import { input: String, format: Option<ExportFormat>, merge: bool, force: bool },
}

/// Output formats of the list command.
#[derive(Clone, Copy, Debug, PartialEq, Eq, Structural)]
pub enum ListFormat {
    Table,
    Json,
    Yaml,
    Csv,
}

/// Formats of an exported configuration.
#[derive(Clone, Copy, Debug, PartialEq, Eq, Structural)]
pub enum ExportFormat {
    Json,
    Yaml,
    Toml,
}

/// The message of a command line that `validate` rejects, or `None` when it
/// accepts it; `path_exists` tells whether the file that the command names
/// exists.
pub open spec fn validation_error(command: Commands, path_exists: bool) -> Option<Seq<char>> {
    match command {
        Commands::Run { script, interval, timeout, .. } => job_args_error(script@, interval, timeout, path_exists),
        Commands::Add { script, interval, timeout, .. } => job_args_error(script@, interval, timeout, path_exists),
        Commands::Remove { name, .. } => if name@.len() == 0 {
            Some("Script name cannot be empty"@)
        } else {
            None
        },
        Commands::Enable { names } => if names@.len() == 0 {
            Some("Must specify at least one script name"@)
        } else {
            None
        },
        Commands::Disable { names } => if names@.len() == 0 {
            Some("Must specify at least one script name"@)
        } else {
            None
        },
        Commands::Import { input, .. } => if !path_exists {
            Some("Import file '"@ + input@ + "' does not exist"@)
        } else {
            None
        },
        _ => None,
    }
}

/// The message for a job's script, interval and timeout, if they are rejected.
pub open spec fn job_args_error(script: Seq<char>, interval: u64, timeout: Option<u64>, path_exists: bool) -> Option<Seq<char>> {
    if !path_exists {
        Some("Script file '"@ + script + "' does not exist"@)
    } else if interval == 0 {
        Some("Interval must be greater than 0"@)
    } else if timeout == Some(0u64) {
        Some("Timeout must be greater than 0"@)
    } else {
        None
    }
}

/// The name a job gets from its script path: the path's final component, or
/// the whole path if it has none.
pub open spec fn default_job_name(script: Seq<char>) -> Seq<char> {
    match file_name_of(script) {
        Some(n) => n,
        None => script,
    }
}

/// The job name of a run or add command: the name given, else the default.
pub open spec fn chosen_name(name: Option<String>, script: Seq<char>) -> Seq<char> {
    match name {
        Some(n) => n@,
        None => default_job_name(script),
    }
}

/// The message for a variable that is not written `KEY=VALUE`.
pub open spec fn env_format_error(var: Seq<char>) -> Seq<char> {
    "Invalid environment variable format: '"@ + var + "'. Use KEY=VALUE"@
}

/// "<prefix><middle><suffix>" as a new string.
fn framed(prefix: &str, middle: &str, suffix: &str) -> (r: String)
    ensures
        r@ == prefix@ + middle@ + suffix@,
{
    let mut s = String::from_str(prefix);
    s.append(middle);
    s.append(suffix);
    s
}

/// The message for a job's script, interval and timeout, if they are rejected.
fn check_job_args(script: &String, interval: u64, timeout: Option<u64>, path_exists: bool) -> (r: Result<(), String>)
    ensures
        match r {
            Ok(()) => job_args_error(script@, interval, timeout, path_exists) is None,
            Err(m) => job_args_error(script@, interval, timeout, path_exists) == Some(m@),
        },
{
    if !path_exists {
        return Err(framed("Script file '", script.as_str(), "' does not exist"));
    }
    if interval == 0 {
        return Err(String::from_str("Interval must be greater than 0"));
    }
    if let Some(t) = timeout {
        if t == 0 {
            return Err(String::from_str("Timeout must be greater than 0"));
        }
    }
    Ok(())
}

/// A job's name: the name given, else the script path's final component, else
/// the whole path.
pub fn job_name(name: &Option<String>, script: &String) -> (r: String)
    ensures
        r@ == chosen_name(*name, script@),
{
    match name {
        Some(n) => n.clone(),
        None => match path_file_name(script.as_str()) {
            Some(f) => f,
            None => script.clone(),
        },
    }
}

impl Args {
    /// Checks the command line; `path_exists` tells whether the file that the
    /// command names (a run or add command's script, an import's input)
    /// exists.
    pub fn validate(&self, path_exists: bool) -> (r: Result<(), String>)
        ensures
            match r {
                Ok(()) => validation_error(self.command, path_exists) is None,
                Err(m) => validation_error(self.command, path_exists) == Some(m@),
            },
    {
        match &self.command {
            Commands::Run { script, interval, timeout, .. } => check_job_args(script, *interval, *timeout, path_exists),
            Commands::Add { script, interval, timeout, .. } => check_job_args(script, *interval, *timeout, path_exists),
            Commands::Remove { name, .. } => {
                if name.as_str().unicode_len() == 0 {
                    Err(String::from_str("Script name cannot be empty"))
                } else {
                    Ok(())
                }
            },
            Commands::Enable { names } => {
                if names.len() == 0 {
                    Err(String::from_str("Must specify at least one script name"))
                } else {
                    Ok(())
                }
            },
            Commands::Disable { names } => {
                if names.len() == 0 {
                    Err(String::from_str("Must specify at least one script name"))
                } else {
                    Ok(())
                }
            },
            Commands::Import { input, .. } => {
                if !path_exists {
                    Err(framed("Import file '", input.as_str(), "' does not exist"))
                } else {
                    Ok(())
                }
            },
            _ => Ok(()),
        }
    }

    /// The job name of a run command; `None` for any other command.
    pub fn get_script_name_from_run(&self) -> (r: Option<String>)
        ensures
            opt_view(r) == match self.command {
                Commands::Run { name, script, .. } => Some(chosen_name(name, script@)),
                _ => None,
            },
    {
        match &self.command {
            Commands::Run { name, script, .. } => Some(job_name(name, script)),
            _ => None,
        }
    }

    /// The job name of an add command; `None` for any other command.
    pub fn get_script_name_from_add(&self) -> (r: Option<String>)
        ensures
            opt_view(r) == match self.command {
                Commands::Add { name, script, .. } => Some(chosen_name(name, script@)),
                _ => None,
            },
    {
        match &self.command {
            Commands::Add { name, script, .. } => Some(job_name(name, script)),
            _ => None,
        }
    }

    /// Parses `KEY=VALUE` variables, each split at its first `=`, in order;
    /// the first variable without `=` is rejected.
    pub fn parse_env_vars(env_vars: &[String]) -> (r: Result<Vec<(String, String)>, String>)
        ensures
            match r {
                Ok(v) => {
                    &&& v@.len() == env_vars@.len()
                    &&& forall|i: int| 0 <= i < v@.len() ==> split_first(env_vars@[i]@, '=') == Some(((#[trigger] v@[i]).0@, v@[i].1@))
                },
                Err(m) => exists|f: int| {
                    &&& 0 <= f < env_vars@.len()
                    &&& split_first(#[trigger] env_vars@[f]@, '=') is None
                    &&& forall|j: int| 0 <= j < f ==> split_first(#[trigger] env_vars@[j]@, '=') is Some
                    &&& m@ == env_format_error(env_vars@[f]@)
                },
            },
    {
        let mut vars: Vec<(String, String)> = Vec::new();
        let mut i: usize = 0;
        while i < env_vars.len()
            invariant
                0 <= i <= env_vars@.len(),
                vars@.len() == i,
                forall|j: int| 0 <= j < i ==> split_first(env_vars@[j]@, '=') == Some(((#[trigger] vars@[j]).0@, vars@[j].1@)),
            decreases env_vars@.len() - i,
        {
            match split_once_char(env_vars[i].as_str(), '=') {
                Some(p) => {
                    vars.push(p);
                },
                None => {
                    proof {
                        assert forall|j: int| 0 <= j < i implies split_first(#[trigger] env_vars@[j]@, '=') is Some by {
                            assert(split_first(env_vars@[j]@, '=') == Some((vars@[j].0@, vars@[j].1@)));
                        }
                    }
                    return Err(framed("Invalid environment variable format: '", env_vars[i].as_str(), "'. Use KEY=VALUE"));
                },
            }
            i = i + 1;
        }
        Ok(vars)
    }
}

} // verus!
