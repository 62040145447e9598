use synk::error::CronRunnerError;
use synk::pid::PidFile;
use synk::runner::{check_script_metadata, parse_key_val, Config};
use synk::{Args, Commands, ListFormat};

fn run_args(script: &str, interval: u64, timeout: Option<u64>, name: Option<&str>) -> Args {
    Args {
        command: Commands::Run {
            script: script.to_string(),
            interval,
            interpreter: None,
            name: name.map(|n| n.to_string()),
            once: false,
            workdir: None,
            env: Vec::new(),
            timeout,
        },
        verbose: false,
        config: None,
    }
}

#[test]
fn validate_rejects_zero_interval_and_timeout() {
    assert_eq!(run_args("a.py", 60, None, None).validate(true), Ok(()));
    assert_eq!(
        run_args("a.py", 0, None, None).validate(true),
        Err("Interval must be greater than 0".to_string())
    );
    assert_eq!(
        run_args("a.py", 5, Some(0), None).validate(true),
        Err("Timeout must be greater than 0".to_string())
    );
    assert_eq!(
        run_args("a.py", 0, None, None).validate(false),
        Err("Script file 'a.py' does not exist".to_string())
    );
}

#[test]
fn validate_other_commands() {
    let remove = Args { command: Commands::Remove { name: String::new(), force: true }, verbose: false, config: None };
    assert_eq!(remove.validate(true), Err("Script name cannot be empty".to_string()));
    let enable = Args { command: Commands::Enable { names: Vec::new() }, verbose: false, config: None };
    assert_eq!(enable.validate(true), Err("Must specify at least one script name".to_string()));
    let import = Args {
        command: Commands::Import { input: "cfg.json".to_string(), format: None, merge: false, force: false },
        verbose: false,
        config: None,
    };
    assert_eq!(import.validate(false), Err("Import file 'cfg.json' does not exist".to_string()));
    let list = Args {
        command: Commands::List { enabled: false, disabled: false, format: ListFormat::Table, verbose: false },
        verbose: false,
        config: None,
    };
    assert_eq!(list.validate(false), Ok(()));
}

#[test]
fn script_name_defaults_to_file_name() {
    assert_eq!(run_args("/opt/jobs/backup.sh", 1, None, None).get_script_name_from_run(), Some("backup.sh".to_string()));
    assert_eq!(run_args("/opt/jobs/backup.sh", 1, None, Some("nightly")).get_script_name_from_run(), Some("nightly".to_string()));
    assert_eq!(run_args("/", 1, None, None).get_script_name_from_run(), Some("/".to_string()));
    assert_eq!(run_args("a.py", 1, None, None).get_script_name_from_add(), None);
}

#[test]
fn parse_env_vars_splits_at_first_equals() {
    let vars = vec!["A=1".to_string(), "B=x=y".to_string(), "C=".to_string()];
    let parsed = Args::parse_env_vars(&vars).unwrap();
    assert_eq!(
        parsed,
        vec![
            ("A".to_string(), "1".to_string()),
            ("B".to_string(), "x=y".to_string()),
            ("C".to_string(), String::new()),
        ]
    );
    let bad = vec!["A=1".to_string(), "NOPE".to_string(), "ALSO".to_string()];
    assert_eq!(
        Args::parse_env_vars(&bad),
        Err("Invalid environment variable format: 'NOPE'. Use KEY=VALUE".to_string())
    );
    assert_eq!(Args::parse_env_vars(&[]), Ok(Vec::new()));
}

#[test]
fn key_val_arguments() {
    let (k, v) = parse_key_val("PATH=/bin:/usr/bin").unwrap();
    assert_eq!((k.as_str(), v.as_str()), ("PATH", "/bin:/usr/bin"));
    match parse_key_val("broken") {
        Err(CronRunnerError::InvalidEnvVarFormat(s)) => assert_eq!(s, "broken"),
        other => panic!("unexpected {:?}", other),
    }
}

#[test]
fn pid_file_named_after_script() {
    let p = PidFile::new("/home/me/jobs/sync.sh").unwrap();
    assert_eq!(p.path(), "/tmp/cronn_sync.sh.pid");
    assert!(matches!(PidFile::new("/"), Err(CronRunnerError::PidFileError(_))));
}

#[test]
fn script_metadata_checks() {
    assert!(matches!(check_script_metadata("s", false, true, 0o755, 1, 1, 1, 1), Err(CronRunnerError::ScriptNotFound(_))));
    assert!(matches!(check_script_metadata("s", true, false, 0o755, 1, 1, 1, 1), Err(CronRunnerError::NotAFile(_))));
    assert!(matches!(check_script_metadata("s", true, true, 0o644, 1, 1, 1, 1), Err(CronRunnerError::NoExecutePermission(_))));
    assert!(check_script_metadata("s", true, true, 0o700, 1, 1, 1, 1).is_ok());
    assert!(matches!(check_script_metadata("s", true, true, 0o070, 1, 1, 1, 1), Err(CronRunnerError::NoExecutePermission(_))));
    assert!(check_script_metadata("s", true, true, 0o010, 1, 2, 3, 2).is_ok());
    assert!(matches!(check_script_metadata("s", true, true, 0o110, 1, 2, 3, 4), Err(CronRunnerError::NoExecutePermission(_))));
    assert!(check_script_metadata("s", true, true, 0o001, 1, 2, 3, 4).is_ok());
}

#[test]
fn runner_config_defaults_to_nothing() {
    let c = Config::default();
    assert!(c.default_interval.is_none());
    assert!(c.environment.is_none());
    assert!(c.max_history_entries.is_none());
}
