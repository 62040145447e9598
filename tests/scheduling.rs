use synk::config::ScriptConfig;
use synk::launcher::{watchdog_step, RunOutcome, TerminationReason, WatchDecision, LIVENESS_POLL_MS};
use synk::syncer::{DrainAction, SchedulerState, ScriptSyncer, GRACE_PERIOD_MS};

fn job(path: &str, interval: u64) -> ScriptConfig {
    ScriptConfig::new(path.to_string(), None, interval)
}

#[test]
fn backup_job_is_due_every_five_seconds() {
    let mut c = job("backup.sh", 5);
    assert!(c.should_run_at(0));
    assert!(c.start_execution());
    let outcome = RunOutcome::exited("backup".to_string(), 0, 0, Some(0));
    c.finish_execution(0, outcome);
    assert_eq!(c.last_run, Some(0));
    assert!(!c.is_running());
    assert!(!c.should_run_at(4000));
    assert!(c.should_run_at(5000));
}

#[test]
fn due_threshold_is_one_interval_after_last_run() {
    let mut c = job("a.py", 3);
    c.last_run = Some(10_000);
    assert!(!c.should_run_at(10_000));
    assert!(!c.should_run_at(12_999));
    assert!(c.should_run_at(13_000));
    assert!(c.should_run_at(1_000_000));
    assert!(!c.should_run_at(9_000));
}

#[test]
fn huge_interval_never_overflows() {
    let mut c = job("a.py", u64::MAX);
    c.last_run = Some(0);
    assert!(!c.should_run_at(u64::MAX));
}

#[test]
fn second_launch_attempt_is_a_no_op() {
    let mut c = job("long.sh", 1);
    assert!(c.start_execution());
    assert!(!c.start_execution());
    assert!(c.is_running());
    assert!(!c.should_run_at(1_000_000));
    c.force_terminate();
    assert!(!c.is_running());
}

#[test]
fn disabled_job_is_never_due() {
    let mut c = job("a.py", 1);
    c.disable();
    assert!(!c.is_enabled());
    assert!(!c.should_run_at(0));
    assert!(!c.should_run_at(u64::MAX));
    assert!(!c.should_run());
    c.enable();
    assert!(c.should_run_at(0));
    assert!(c.should_run());
}

#[test]
fn flaky_job_is_killed_at_its_timeout() {
    let start = 1_000;
    let mut now = start;
    let mut decision = watchdog_step(start, now, Some(2), false);
    while decision == WatchDecision::KeepWaiting {
        now += LIVENESS_POLL_MS;
        decision = watchdog_step(start, now, Some(2), false);
    }
    assert_eq!(decision, WatchDecision::Kill);
    assert_eq!(now - start, 2_100);
    let outcome = RunOutcome::timed_out("flaky".to_string(), start, now);
    assert_eq!(outcome.reason, TerminationReason::TimeoutKilled);
    assert!(!outcome.success);
    assert_eq!(outcome.exit_code, None);
    assert_eq!(outcome.duration_ms, 2_100);
}

#[test]
fn watchdog_edges() {
    assert_eq!(watchdog_step(0, 2_000, Some(2), false), WatchDecision::KeepWaiting);
    assert_eq!(watchdog_step(0, 2_001, Some(2), false), WatchDecision::Kill);
    assert_eq!(watchdog_step(0, 2_001, Some(2), true), WatchDecision::Finished);
    assert_eq!(watchdog_step(0, u64::MAX, None, false), WatchDecision::KeepWaiting);
    assert_eq!(watchdog_step(5_000, 0, Some(1), false), WatchDecision::KeepWaiting);
    assert_eq!(watchdog_step(0, u64::MAX, Some(u64::MAX), false), WatchDecision::KeepWaiting);
}

#[test]
fn outcomes_report_success_by_exit_code() {
    let ok = RunOutcome::exited("a".to_string(), 10, 25, Some(0));
    assert!(ok.success);
    assert_eq!(ok.duration_ms, 15);
    assert_eq!(ok.reason, TerminationReason::NaturalExit);
    let bad = RunOutcome::exited("a".to_string(), 10, 5, Some(3));
    assert!(!bad.success);
    assert_eq!(bad.duration_ms, 0);
    let signalled = RunOutcome::exited("a".to_string(), 0, 1, None);
    assert!(!signalled.success);
    let forced = RunOutcome::forced("a".to_string(), 0, 30_000);
    assert_eq!(forced.reason, TerminationReason::ShutdownForced);
    assert_eq!(forced.exit_code, None);
    let failed = RunOutcome::spawn_failed("a".to_string(), 7, "not found".to_string());
    assert!(!failed.success);
    assert_eq!(failed.cause, Some("not found".to_string()));
    assert_eq!(failed.duration_ms, 0);
}

#[test]
fn command_line_prefers_given_then_detected_interpreter() {
    let c = ScriptConfig::new("x.py".to_string(), Some("pypy".to_string()), 1);
    assert_eq!(c.command_line(), ("pypy".to_string(), vec!["x.py".to_string()]));
    let d = job("dir/x.PY", 1);
    assert_eq!(d.command_line(), ("python3".to_string(), vec!["dir/x.PY".to_string()]));
    let e = job("./tool", 1);
    assert_eq!(e.command_line(), ("./tool".to_string(), Vec::<String>::new()));
}

#[test]
fn setters_change_one_field() {
    let mut c = job("x.sh", 2);
    c.set_timeout(9);
    c.set_working_directory(Some("/srv".to_string()));
    c.set_environment_vars(vec![("A".to_string(), "1".to_string())]);
    assert_eq!(c.timeout_seconds, Some(9));
    assert_eq!(c.working_directory, Some("/srv".to_string()));
    assert_eq!(c.environment.len(), 1);
    assert_eq!(c.interval_seconds, 2);
    assert!(c.is_enabled());
}

#[test]
fn registry_add_replace_remove() {
    let mut s = ScriptSyncer::new();
    assert_eq!(s.script_count(), 0);
    s.add_script("a".to_string(), job("a.py", 1));
    s.add_script("b".to_string(), job("b.py", 2));
    assert_eq!(s.script_count(), 2);
    s.add_script("a".to_string(), job("a2.py", 3));
    assert_eq!(s.script_count(), 2);
    assert_eq!(s.get_script("a").unwrap().path, "a2.py");
    assert!(s.remove_script("a"));
    assert!(!s.remove_script("a"));
    assert!(s.get_script("a").is_none());
    assert_eq!(s.script_count(), 1);
    let listed = s.list_scripts();
    assert_eq!(listed.len(), 1);
    assert_eq!(listed[0].0, "b");
}

#[test]
fn enable_round_trip_restores_state() {
    let mut s = ScriptSyncer::new();
    s.add_script("a".to_string(), job("a.py", 1));
    s.add_script("b".to_string(), job("b.py", 1));
    assert_eq!(s.enabled_script_count(), 2);
    assert!(s.enable_script("a", false));
    assert_eq!(s.enabled_script_count(), 1);
    assert!(s.due_scripts(0) == vec!["b".to_string()]);
    assert!(s.enable_script("a", true));
    assert_eq!(s.enabled_script_count(), 2);
    assert!(s.get_script("a").unwrap().is_enabled());
    assert!(!s.enable_script("missing", true));
}

#[test]
fn tick_claims_due_jobs_once() {
    let mut s = ScriptSyncer::new();
    s.add_script("a".to_string(), job("a.py", 5));
    s.add_script("b".to_string(), job("b.py", 5));
    assert!(s.run_cycle(0).is_empty());
    assert!(s.start());
    assert!(!s.start());
    assert!(s.is_running());
    let mut names = s.run_cycle(0);
    names.sort();
    assert_eq!(names, vec!["a".to_string(), "b".to_string()]);
    assert!(s.run_cycle(1_000_000).is_empty());
    assert!(!s.start_script("a"));
    assert!(s.finish_script("a", 2_000, RunOutcome::exited("a".to_string(), 0, 2_000, Some(0))));
    assert!(s.run_cycle(6_999).is_empty());
    assert_eq!(s.run_cycle(7_000), vec!["a".to_string()]);
    assert!(!s.finish_script("zzz", 0, RunOutcome::exited("zzz".to_string(), 0, 0, Some(0))));
}

#[test]
fn etl_job_drains_without_forced_kill() {
    let mut s = ScriptSyncer::new();
    s.add_script("etl".to_string(), job("etl.py", 60));
    s.start();
    assert_eq!(s.run_cycle(0), vec!["etl".to_string()]);
    s.shutdown();
    assert_eq!(s.phase(), SchedulerState::Draining);
    assert!(s.run_cycle(100_000).is_empty());
    let mut now = 0;
    loop {
        if now == 10_000 {
            s.finish_script("etl", now, RunOutcome::exited("etl".to_string(), 0, now, Some(0)));
        }
        match s.drain_step(0, now, GRACE_PERIOD_MS) {
            DrainAction::Wait => now += 500,
            DrainAction::Stop => break,
            DrainAction::ForceKill(_) => panic!("no job should be killed"),
        }
    }
    assert_eq!(now, 10_000);
    assert_eq!(s.phase(), SchedulerState::Stopped);
}

#[test]
fn drain_force_kills_at_grace_expiry() {
    let mut s = ScriptSyncer::new();
    s.add_script("hung".to_string(), job("hung.sh", 1));
    s.add_script("idle".to_string(), job("idle.sh", 1));
    s.enable_script("idle", false);
    s.start();
    assert_eq!(s.run_cycle(0), vec!["hung".to_string()]);
    s.shutdown();
    assert!(matches!(s.drain_step(0, 29_999, 30_000), DrainAction::Wait));
    match s.drain_step(0, 30_000, 30_000) {
        DrainAction::ForceKill(names) => assert_eq!(names, vec!["hung".to_string()]),
        other => panic!("expected a forced kill, got {:?}", other),
    }
    assert_eq!(s.phase(), SchedulerState::Stopped);
    assert!(!s.get_script("hung").unwrap().is_running());
    assert!(matches!(s.drain_step(0, 40_000, 30_000), DrainAction::Stop));
}

#[test]
fn shutdown_of_idle_scheduler_stops_it() {
    let mut s = ScriptSyncer::new();
    assert_eq!(s.phase(), SchedulerState::Idle);
    assert!(matches!(s.drain_step(0, 0, 0), DrainAction::Wait));
    s.shutdown();
    assert_eq!(s.phase(), SchedulerState::Stopped);
    assert!(!s.start());
    assert!(!s.any_running());
}
