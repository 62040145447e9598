//! Properties that relate the scheduler's operations, stated over the spec
//! functions that their contracts use, and proved.
use vstd::prelude::*;

use crate::config::ScriptConfig;
use crate::launcher::{elapsed_between, watch_decision, WatchDecision};
use crate::syncer::{
    after_kill, after_tick, drain_decision, due_set, with_job_enabled, DrainDecision,
};

verus! {

/// A job last run at `t0` is not due at any time from `t0` until one interval
/// has passed, and, when enabled and not running, is due once exactly one
/// interval has passed.
pub proof fn lemma_due_threshold(c: ScriptConfig, t0: u64, now: u64)
    requires
        c.last_run == Some(t0),
    ensures
        t0 <= now < t0 + c.interval_seconds * 1000 ==> !c.due_at(now),
        now == t0 + c.interval_seconds * 1000 && c.enabled && !c.running ==> c.due_at(now),
{
}

/// Of two launch attempts on one job, only the first can claim it: once
/// claimed, the job is running, a second claim changes nothing, and the job
/// is due at no time until its run is finished.
pub proof fn lemma_single_instance(c: ScriptConfig, now: u64)
    ensures
        c.started().running,
        c.started().started() == c.started(),
        !c.started().due_at(now),
{
}

/// A job that one tick claims is not claimed again by any later tick while
/// its run has not finished.
pub proof fn lemma_tick_claims_once(jobs: Map<Seq<char>, ScriptConfig>, t1: u64, t2: u64, k: Seq<char>)
    requires
        due_set(jobs, t1).contains(k),
    ensures
        after_tick(jobs, t1).contains_key(k),
        after_tick(jobs, t1)[k].running,
        !due_set(after_tick(jobs, t1), t2).contains(k),
{
}

/// The watchdog kills a job's process exactly when the process has not
/// exited and has run longer than its timeout.
pub proof fn lemma_timeout_kills(start: u64, now: u64, t: u64)
    ensures
        watch_decision(start, now, Some(t), false) == WatchDecision::Kill <==> elapsed_between(start, now) > t * 1000,
        watch_decision(start, now, Some(t), true) == WatchDecision::Finished,
        watch_decision(start, now, None, false) == WatchDecision::KeepWaiting,
{
}

/// With liveness checks at most `poll` milliseconds apart, the kill comes no
/// later than one poll interval after the timeout has passed.
pub proof fn lemma_timeout_overshoot(start: u64, prev: u64, now: u64, t: u64, poll: u64)
    requires
        start <= prev <= now,
        now - prev <= poll,
        watch_decision(start, prev, Some(t), false) == WatchDecision::KeepWaiting,
        watch_decision(start, now, Some(t), false) == WatchDecision::Kill,
    ensures
        t * 1000 < now - start <= t * 1000 + poll,
{
}

/// A drain stops as soon as no job is running, waits while jobs run within
/// the grace period, and kills the remaining jobs once the grace period is
/// over; after the kill no job is running.
pub proof fn lemma_drain(started: u64, now: u64, grace_ms: u64, jobs: Map<Seq<char>, ScriptConfig>)
    ensures
        drain_decision(started, now, grace_ms, false) == DrainDecision::Stop,
        elapsed_between(started, now) < grace_ms ==> drain_decision(started, now, grace_ms, true) == DrainDecision::Wait,
        elapsed_between(started, now) >= grace_ms ==> drain_decision(started, now, grace_ms, true) == DrainDecision::ForceKill,
        forall|k: Seq<char>| #[trigger] after_kill(jobs).contains_key(k) ==> !after_kill(jobs)[k].running,
        after_kill(jobs).dom() == jobs.dom(),
{
    assert(after_kill(jobs).dom() =~= jobs.dom());
}

/// A job after `n` flips of its enabled flag, each to the opposite of its
/// current value.
pub open spec fn toggled(c: ScriptConfig, n: nat) -> ScriptConfig
    decreases n,
{
    if n == 0 {
        c
    } else {
        toggled(c.with_enabled(!c.enabled), (n - 1) as nat)
    }
}

/// Flipping a job's enabled flag an even number of times restores the job.
pub proof fn lemma_toggle_round_trip(c: ScriptConfig, n: nat)
    ensures
        toggled(c, 2 * n) == c,
    decreases n,
{
    if n > 0 {
        let c1 = c.with_enabled(!c.enabled);
        let c2 = c1.with_enabled(!c1.enabled);
        assert(c2 == c);
        assert(toggled(c, 2 * n) == toggled(c1, (2 * n - 1) as nat));
        assert(toggled(c1, (2 * n - 1) as nat) == toggled(c2, (2 * (n - 1)) as nat));
        lemma_toggle_round_trip(c, (n - 1) as nat);
    }
}

/// Enabling then disabling a job in the registry (or the reverse), starting
/// from its current state, restores the registry.
pub proof fn lemma_enable_round_trip(jobs: Map<Seq<char>, ScriptConfig>, name: Seq<char>)
    ensures
        jobs.contains_key(name) ==> {
            let e = jobs[name].enabled;
            with_job_enabled(with_job_enabled(jobs, name, !e), name, e) == jobs
        },
        !jobs.contains_key(name) ==> with_job_enabled(jobs, name, true) == jobs
            && with_job_enabled(jobs, name, false) == jobs,
{
    if jobs.contains_key(name) {
        let e = jobs[name].enabled;
        let j1 = with_job_enabled(jobs, name, !e);
        assert(j1[name].with_enabled(e) == jobs[name]);
        assert(with_job_enabled(j1, name, e) =~= jobs);
    }
}

/// A disabled job is never due, whatever the time.
pub proof fn lemma_disabled_never_due(c: ScriptConfig, now: u64)
    requires
        !c.enabled,
    ensures
        !c.due_at(now),
{
}

} // verus!
