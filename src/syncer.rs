//! The job registry and the scheduler's state machine: which jobs are due at
//! a tick, which are claimed for launch, and how the scheduler drains and
//! stops.
use vstd::prelude::*;

use crate::config::ScriptConfig;
use crate::launcher::{elapsed_between, elapsed_ms, RunOutcome};
use crate::text::chars_equal;

verus! {

/// How often the scheduler ticks.
pub const TICK_MS: u64 = 1000;

/// How often a draining scheduler checks whether its jobs have finished.
pub const DRAIN_POLL_MS: u64 = 500;

/// How long a draining scheduler waits for running jobs before killing them.
pub const GRACE_PERIOD_MS: u64 = 30000;

/// The phases of a scheduler's life.
#[derive(Clone, Copy, Debug, PartialEq, Eq, Structural)]
pub enum SchedulerState {
    /// Constructed, not started.
    Idle,
    /// Ticking: due jobs are launched.
    Running,
    /// Shutdown requested: no new launches, waiting for running jobs.
    Draining,
    /// Terminal.
    Stopped,
}

/// What a draining scheduler does at one poll.
#[derive(Clone, Copy, Debug, PartialEq, Eq, Structural)]
pub enum DrainDecision {
    /// Jobs are still running within the grace period: poll again later.
    Wait,
    /// No job is running: stop.
    Stop,
    /// The grace period is over with jobs still running: kill them and stop.
    ForceKill,
}

/// The drain decision for a drain that began at `started` and is polled at
/// `now` with the given grace period.
pub open spec fn drain_decision(started: u64, now: u64, grace_ms: u64, any_running: bool) -> DrainDecision {
    if !any_running {
        DrainDecision::Stop
    } else if elapsed_between(started, now) >= grace_ms {
        DrainDecision::ForceKill
    } else {
        DrainDecision::Wait
    }
}

/// What `drain_step` asks of its caller.
#[derive(Debug)]
pub enum DrainAction {
    /// Poll again later.
    Wait,
    /// The scheduler has stopped; nothing is left running.
    Stop,
    /// The scheduler has stopped; kill the processes of these jobs.
    ForceKill(Vec<String>),
}

/// `names` lists, each once, exactly the names in `s`.
pub open spec fn lists_exactly(names: Seq<String>, s: Set<Seq<char>>) -> bool {
    &&& forall|m: int| 0 <= m < names.len() ==> s.contains(#[trigger] names[m]@)
    &&& forall|k: Seq<char>| s.contains(k) ==> exists|m: int| 0 <= m < names.len() && #[trigger] names[m]@ == k
    &&& forall|m1: int, m2: int|
        0 <= m1 < names.len() && 0 <= m2 < names.len() && m1 != m2 ==> #[trigger] names[m1]@ != #[trigger] names[m2]@
}

/// The names of the jobs of `jobs` that are due at `now`.
pub open spec fn due_set(jobs: Map<Seq<char>, ScriptConfig>, now: u64) -> Set<Seq<char>> {
    Set::new(|k: Seq<char>| jobs.contains_key(k) && jobs[k].due_at(now))
}

/// The names of the jobs of `jobs` that are running.
pub open spec fn running_set(jobs: Map<Seq<char>, ScriptConfig>) -> Set<Seq<char>> {
    Set::new(|k: Seq<char>| jobs.contains_key(k) && jobs[k].running)
}

/// A job as a tick at `now` leaves it: claimed if it was due.
pub open spec fn claimed(c: ScriptConfig, now: u64) -> ScriptConfig {
    if c.due_at(now) {
        c.started()
    } else {
        c
    }
}

/// A job as a forced kill leaves it: released if it was running.
pub open spec fn released(c: ScriptConfig) -> ScriptConfig {
    if c.running {
        c.stopped()
    } else {
        c
    }
}

/// The jobs after a tick at `now`: every due job is claimed.
pub open spec fn after_tick(jobs: Map<Seq<char>, ScriptConfig>, now: u64) -> Map<Seq<char>, ScriptConfig> {
    jobs.map_values(|c: ScriptConfig| claimed(c, now))
}

/// The jobs after a forced kill: no job is running.
pub open spec fn after_kill(jobs: Map<Seq<char>, ScriptConfig>) -> Map<Seq<char>, ScriptConfig> {
    jobs.map_values(|c: ScriptConfig| released(c))
}

/// The jobs after the enabled flag of the job `name`, if there is one, is set
/// to `enabled`.
pub open spec fn with_job_enabled(jobs: Map<Seq<char>, ScriptConfig>, name: Seq<char>, enabled: bool) -> Map<Seq<char>, ScriptConfig> {
    if jobs.contains_key(name) {
        jobs.insert(name, jobs[name].with_enabled(enabled))
    } else {
        jobs
    }
}

/// The names of the enabled jobs of `jobs`.
pub open spec fn enabled_set(jobs: Map<Seq<char>, ScriptConfig>) -> Set<Seq<char>> {
    Set::new(|k: Seq<char>| jobs.contains_key(k) && jobs[k].enabled)
}

/// Whether a pass over the jobs picks `c`: a running job when killing, a due
/// job otherwise.
spec fn mark_pick(c: ScriptConfig, now: u64, kill: bool) -> bool {
    if kill {
        c.running
    } else {
        c.due_at(now)
    }
}

/// What a pass over the jobs makes of `c`.
spec fn mark_apply(c: ScriptConfig, now: u64, kill: bool) -> ScriptConfig {
    if kill {
        released(c)
    } else {
        claimed(c, now)
    }
}

/// The names of the enabled jobs among the first `i` entries.
spec fn enabled_prefix(e: Seq<(String, ScriptConfig)>, i: int) -> Set<Seq<char>> {
    Set::new(|k: Seq<char>| exists|j: int| 0 <= j < i && #[trigger] e[j].0@ == k && e[j].1.enabled)
}

/// The entries hold each name once, and they are the jobs of `m`.
pub closed spec fn entries_hold(e: Seq<(String, ScriptConfig)>, m: Map<Seq<char>, ScriptConfig>) -> bool {
    &&& forall|i: int, j: int| 0 <= i < e.len() && 0 <= j < e.len() && i != j ==> #[trigger] e[i].0@ != #[trigger] e[j].0@
    &&& forall|i: int| 0 <= i < e.len() ==> m.contains_key(#[trigger] e[i].0@) && m[e[i].0@] == e[i].1
    &&& forall|k: Seq<char>| m.contains_key(k) ==> exists|i: int| 0 <= i < e.len() && #[trigger] e[i].0@ == k
    &&& m.dom().finite()
    &&& m.dom().len() == e.len()
    &&& forall|k: Seq<char>| m.contains_key(k) ==> (#[trigger] m[k]).wf()
}

/// Replacing the job at one position by a well-formed job of the same name
/// keeps the entries in step with the map.
proof fn lemma_entries_update(
    e: Seq<(String, ScriptConfig)>,
    m: Map<Seq<char>, ScriptConfig>,
    i: int,
    p: (String, ScriptConfig),
)
    requires
        entries_hold(e, m),
        0 <= i < e.len(),
        p.0@ == e[i].0@,
        p.1.wf(),
    ensures
        entries_hold(e.update(i, p), m.insert(p.0@, p.1)),
{
    let e2 = e.update(i, p);
    let m2 = m.insert(p.0@, p.1);
    assert forall|j: int| 0 <= j < e2.len() implies #[trigger] e2[j].0@ == e[j].0@ by {}
    assert forall|j: int| 0 <= j < e2.len() implies m2.contains_key(#[trigger] e2[j].0@) && m2[e2[j].0@] == e2[j].1 by {
        if j != i {
            assert(e[j].0@ != e[i].0@);
        }
    }
    assert forall|k: Seq<char>| m2.contains_key(k) implies exists|j: int| 0 <= j < e2.len() && #[trigger] e2[j].0@ == k by {
        if k == p.0@ {
            assert(e2[i].0@ == k);
        } else {
            let j = choose|j: int| 0 <= j < e.len() && #[trigger] e[j].0@ == k;
            assert(e2[j].0@ == k);
        }
    }
    assert(m2.dom() =~= m.dom());
}

/// Appending a well-formed job under a new name keeps the entries in step
/// with the map.
proof fn lemma_entries_push(
    e: Seq<(String, ScriptConfig)>,
    m: Map<Seq<char>, ScriptConfig>,
    p: (String, ScriptConfig),
)
    requires
        entries_hold(e, m),
        !m.contains_key(p.0@),
        p.1.wf(),
    ensures
        entries_hold(e.push(p), m.insert(p.0@, p.1)),
{
    let e2 = e.push(p);
    let m2 = m.insert(p.0@, p.1);
    let n = e.len() as int;
    assert forall|j: int| 0 <= j < n implies #[trigger] e[j].0@ != p.0@ by {
        assert(m.contains_key(e[j].0@));
    }
    assert forall|j: int| 0 <= j < e2.len() implies m2.contains_key(#[trigger] e2[j].0@) && m2[e2[j].0@] == e2[j].1 by {
        if j < n {
            assert(e2[j] == e[j]);
        }
    }
    assert forall|i: int, j: int| 0 <= i < e2.len() && 0 <= j < e2.len() && i != j implies #[trigger] e2[i].0@ != #[trigger] e2[j].0@ by {
        if i < n && j < n {
            assert(e2[i] == e[i] && e2[j] == e[j]);
        } else if i < n {
            assert(e2[i] == e[i]);
            assert(e2[j] == p);
            assert(e[i].0@ != p.0@);
        } else {
            assert(e2[j] == e[j]);
            assert(e2[i] == p);
            assert(e[j].0@ != p.0@);
        }
    }
    assert forall|k: Seq<char>| m2.contains_key(k) implies exists|j: int| 0 <= j < e2.len() && #[trigger] e2[j].0@ == k by {
        if k == p.0@ {
            assert(e2[n].0@ == k);
        } else {
            let j = choose|j: int| 0 <= j < e.len() && #[trigger] e[j].0@ == k;
            assert(e2[j] == e[j]);
        }
    }
    assert(m2.dom() =~= m.dom().insert(p.0@));
}

/// Removing the entry at one position removes its name from the map.
proof fn lemma_entries_remove(e: Seq<(String, ScriptConfig)>, m: Map<Seq<char>, ScriptConfig>, i: int)
    requires
        entries_hold(e, m),
        0 <= i < e.len(),
    ensures
        entries_hold(e.remove(i), m.remove(e[i].0@)),
{
    let e2 = e.remove(i);
    let k0 = e[i].0@;
    let m2 = m.remove(k0);
    assert forall|j: int| 0 <= j < e2.len() implies #[trigger] e2[j] == (if j < i { e[j] } else { e[j + 1] }) by {}
    assert forall|j: int| 0 <= j < e2.len() implies m2.contains_key(#[trigger] e2[j].0@) && m2[e2[j].0@] == e2[j].1 by {
        if j < i {
            assert(e2[j] == e[j]);
            assert(e[j].0@ != e[i].0@);
        } else {
            assert(e2[j] == e[j + 1]);
            assert(e[j + 1].0@ != e[i].0@);
        }
    }
    assert forall|a: int, b: int| 0 <= a < e2.len() && 0 <= b < e2.len() && a != b implies #[trigger] e2[a].0@ != #[trigger] e2[b].0@ by {
        let a1 = if a < i { a } else { a + 1 };
        let b1 = if b < i { b } else { b + 1 };
        assert(e2[a] == e[a1]);
        assert(e2[b] == e[b1]);
    }
    assert forall|k: Seq<char>| m2.contains_key(k) implies exists|j: int| 0 <= j < e2.len() && #[trigger] e2[j].0@ == k by {
        let j = choose|j: int| 0 <= j < e.len() && #[trigger] e[j].0@ == k;
        assert(j != i);
        if j < i {
            assert(e2[j] == e[j]);
            assert(e2[j].0@ == k);
        } else {
            assert(e2[j - 1] == e[j]);
            assert(e2[j - 1].0@ == k);
        }
    }
    assert(m2.dom() =~= m.dom().remove(k0));
}

/// Applying a map of jobs that keeps well-formedness to every entry keeps the
/// entries in step with the map so transformed.
proof fn lemma_entries_map(
    e: Seq<(String, ScriptConfig)>,
    m: Map<Seq<char>, ScriptConfig>,
    e2: Seq<(String, ScriptConfig)>,
    f: spec_fn(ScriptConfig) -> ScriptConfig,
)
    requires
        entries_hold(e, m),
        e2.len() == e.len(),
        forall|j: int| 0 <= j < e.len() ==> (#[trigger] e2[j]).0@ == e[j].0@ && e2[j].1 == f(e[j].1),
        forall|c: ScriptConfig| c.wf() ==> (#[trigger] f(c)).wf(),
    ensures
        entries_hold(e2, m.map_values(f)),
{
    let m2 = m.map_values(f);
    assert(m2.dom() =~= m.dom());
    assert forall|j: int| 0 <= j < e2.len() implies m2.contains_key(#[trigger] e2[j].0@) && m2[e2[j].0@] == e2[j].1 by {
        assert(e2[j].0@ == e[j].0@);
        assert(m.contains_key(e[j].0@));
    }
    assert forall|a: int, b: int| 0 <= a < e2.len() && 0 <= b < e2.len() && a != b implies #[trigger] e2[a].0@ != #[trigger] e2[b].0@ by {
        assert(e2[a].0@ == e[a].0@ && e2[b].0@ == e[b].0@);
    }
    assert forall|k: Seq<char>| m2.contains_key(k) implies exists|j: int| 0 <= j < e2.len() && #[trigger] e2[j].0@ == k by {
        let j = choose|j: int| 0 <= j < e.len() && #[trigger] e[j].0@ == k;
        assert(e2[j].0@ == e[j].0@);
    }
    assert forall|k: Seq<char>| m2.contains_key(k) implies (#[trigger] m2[k]).wf() by {
        assert(m[k].wf());
    }
}

/// The registry of jobs by name, with the scheduler's phase.
pub struct ScriptSyncer {
    entries: Vec<(String, ScriptConfig)>,
    state: SchedulerState,
    jobs: Ghost<Map<Seq<char>, ScriptConfig>>,
}

impl View for ScriptSyncer {
    type V = Map<Seq<char>, ScriptConfig>;

    closed spec fn view(&self) -> Map<Seq<char>, ScriptConfig> {
        self.jobs@
    }
}

impl ScriptSyncer {
    /// Names are unique and every job is well formed.
    pub closed spec fn wf(&self) -> bool {
        entries_hold(self.entries@, self.jobs@)
    }

    /// The scheduler's phase.
    pub closed spec fn state(&self) -> SchedulerState {
        self.state
    }

    /// An idle scheduler with no jobs.
    pub fn new() -> (r: Self)
        ensures
            r.wf(),
            r@ == Map::<Seq<char>, ScriptConfig>::empty(),
            r.state() == SchedulerState::Idle,
    {
        let r = ScriptSyncer { entries: Vec::new(), state: SchedulerState::Idle, jobs: Ghost(Map::empty()) };
        proof {
            assert(r.jobs@.dom() =~= Set::<Seq<char>>::empty());
        }
        r
    }

    /// Adds a job, replacing any job of the same name. A replaced job's
    /// in-flight process is left alone; the new job applies to later launches.
    pub fn add_script(&mut self, name: String, config: ScriptConfig)
        requires
            old(self).wf(),
            config.wf(),
        ensures
            final(self).wf(),
            final(self)@ == old(self)@.insert(name@, config),
            final(self).state() == old(self).state(),
    {
        let ghost k = name@;
        let ghost c = config;
        match self.find(name.as_str()) {
            Some(i) => {
                proof {
                    lemma_entries_update(self.entries@, self.jobs@, i as int, (name, config));
                }
                self.entries.set(i, (name, config));
                self.jobs = Ghost(self.jobs@.insert(k, c));
            },
            None => {
                proof {
                    lemma_entries_push(self.entries@, self.jobs@, (name, config));
                }
                self.entries.push((name, config));
                self.jobs = Ghost(self.jobs@.insert(k, c));
            },
        }
    }

    /// Removes the job named `name`; false if there is none. A running
    /// instance is not killed.
    pub fn remove_script(&mut self, name: &str) -> (r: bool)
        requires
            old(self).wf(),
        ensures
            final(self).wf(),
            r == old(self)@.contains_key(name@),
            final(self)@ == old(self)@.remove(name@),
            final(self).state() == old(self).state(),
    {
        match self.find(name) {
            Some(i) => {
                proof {
                    lemma_entries_remove(self.entries@, self.jobs@, i as int);
                }
                self.entries.remove(i);
                self.jobs = Ghost(self.jobs@.remove(name@));
                true
            },
            None => {
                assert(self.jobs@.remove(name@) =~= self.jobs@);
                false
            },
        }
    }

    /// The job named `name`, if there is one.
    pub fn get_script(&self, name: &str) -> (r: Option<&ScriptConfig>)
        requires
            self.wf(),
        ensures
            match r {
                Some(c) => self@.contains_key(name@) && *c == self@[name@],
                None => !self@.contains_key(name@),
            },
    {
        match self.find(name) {
            Some(i) => Some(&self.entries[i].1),
            None => None,
        }
    }

    /// Every job with its name, each once.
    pub fn list_scripts(&self) -> (r: Vec<(&String, &ScriptConfig)>)
        requires
            self.wf(),
        ensures
            r@.len() == self@.len(),
            forall|i: int| 0 <= i < r@.len() ==> self@.contains_key((#[trigger] r@[i]).0@) && *r@[i].1 == self@[r@[i].0@],
            forall|k: Seq<char>| self@.contains_key(k) ==> exists|i: int| 0 <= i < r@.len() && (#[trigger] r@[i]).0@ == k,
            forall|i: int, j: int| 0 <= i < r@.len() && 0 <= j < r@.len() && i != j ==> (#[trigger] r@[i]).0@ != (#[trigger] r@[j]).0@,
    {
        let mut r: Vec<(&String, &ScriptConfig)> = Vec::new();
        let mut i: usize = 0;
        while i < self.entries.len()
            invariant
                self.wf(),
                0 <= i <= self.entries@.len(),
                r@.len() == i,
                forall|j: int| 0 <= j < i ==> (#[trigger] r@[j]).0@ == self.entries@[j].0@ && *r@[j].1 == self.entries@[j].1,
            decreases self.entries@.len() - i,
        {
            r.push((&self.entries[i].0, &self.entries[i].1));
            i = i + 1;
        }
        proof {
            let e = self.entries@;
            assert forall|k: Seq<char>| self@.contains_key(k) implies exists|i: int| 0 <= i < r@.len() && (#[trigger] r@[i]).0@ == k by {
                let j = choose|j: int| 0 <= j < e.len() && #[trigger] e[j].0@ == k;
                assert(r@[j].0@ == k);
            }
            assert forall|a: int, b: int| 0 <= a < r@.len() && 0 <= b < r@.len() && a != b implies (#[trigger] r@[a]).0@ != (#[trigger] r@[b]).0@ by {
                assert(e[a].0@ != e[b].0@);
            }
            assert forall|a: int| 0 <= a < r@.len() implies self@.contains_key((#[trigger] r@[a]).0@) && *r@[a].1 == self@[r@[a].0@] by {
                assert(self@.contains_key(e[a].0@));
            }
        }
        r
    }

    /// Sets the enabled flag of the job named `name`; false if there is none.
    pub fn enable_script(&mut self, name: &str, enabled: bool) -> (r: bool)
        requires
            old(self).wf(),
        ensures
            final(self).wf(),
            r == old(self)@.contains_key(name@),
            final(self)@ == with_job_enabled(old(self)@, name@, enabled),
            final(self).state() == old(self).state(),
    {
        match self.find(name) {
            Some(i) => {
                let ghost c = self.entries@[i as int].1.with_enabled(enabled);
                proof {
                    lemma_entries_update(self.entries@, self.jobs@, i as int, (self.entries@[i as int].0, c));
                }
                if enabled {
                    self.entries[i].1.enable();
                } else {
                    self.entries[i].1.disable();
                }
                self.jobs = Ghost(self.jobs@.insert(name@, c));
                assert(self.entries@ =~= old(self).entries@.update(i as int, (old(self).entries@[i as int].0, c)));
                true
            },
            None => false,
        }
    }

    /// The number of jobs.
    pub fn script_count(&self) -> (r: usize)
        requires
            self.wf(),
        ensures
            r == self@.len(),
    {
        self.entries.len()
    }

    /// The number of enabled jobs.
    pub fn enabled_script_count(&self) -> (r: usize)
        requires
            self.wf(),
        ensures
            r == enabled_set(self@).len(),
    {
        let ghost e = self.entries@;
        let mut count: usize = 0;
        let mut i: usize = 0;
        proof {
            assert(enabled_prefix(e, 0) =~= Set::<Seq<char>>::empty());
        }
        while i < self.entries.len()
            invariant
                self.wf(),
                e == self.entries@,
                0 <= i <= e.len(),
                enabled_prefix(e, i as int).finite(),
                count == enabled_prefix(e, i as int).len(),
                count <= i,
            decreases e.len() - i,
        {
            let ghost before = enabled_prefix(e, i as int);
            let ghost k = e[i as int].0@;
            proof {
                assert(!before.contains(k)) by {
                    if before.contains(k) {
                        let j = choose|j: int| 0 <= j < i && #[trigger] e[j].0@ == k && e[j].1.enabled;
                        assert(e[j].0@ != e[i as int].0@);
                    }
                }
            }
            if self.entries[i].1.enabled {
                assert(enabled_prefix(e, i + 1) =~= before.insert(k));
                count = count + 1;
            } else {
                assert(enabled_prefix(e, i + 1) =~= before);
            }
            i = i + 1;
        }
        proof {
            assert forall|k: Seq<char>| #[trigger] enabled_set(self@).contains(k) implies enabled_prefix(e, i as int).contains(k) by {
                let j = choose|j: int| 0 <= j < e.len() && #[trigger] e[j].0@ == k;
                assert(e[j].1.enabled);
            }
            assert forall|k: Seq<char>| #[trigger] enabled_prefix(e, i as int).contains(k) implies enabled_set(self@).contains(k) by {
                let j = choose|j: int| 0 <= j < i && #[trigger] e[j].0@ == k && e[j].1.enabled;
                assert(self@.contains_key(e[j].0@));
            }
            assert(enabled_set(self@) =~= enabled_prefix(e, i as int));
        }
        count
    }

    /// The names of the jobs that are due at `now_ms`, each once.
    pub fn due_scripts(&self, now_ms: u64) -> (r: Vec<String>)
        requires
            self.wf(),
        ensures
            lists_exactly(r@, due_set(self@, now_ms)),
    {
        let ghost e = self.entries@;
        let mut names: Vec<String> = Vec::new();
        let ghost mut idx: Seq<int> = Seq::empty();
        let mut i: usize = 0;
        while i < self.entries.len()
            invariant
                self.wf(),
                e == self.entries@,
                0 <= i <= e.len(),
                idx.len() == names@.len(),
                forall|m: int| 0 <= m < idx.len() ==> 0 <= #[trigger] idx[m] < i && names@[m]@ == e[idx[m]].0@ && e[idx[m]].1.due_at(now_ms),
                forall|a: int, b: int| 0 <= a < b < idx.len() ==> #[trigger] idx[a] < #[trigger] idx[b],
                forall|j: int| 0 <= j < i && (#[trigger] e[j]).1.due_at(now_ms) ==> exists|m: int| 0 <= m < idx.len() && idx[m] == j,
            decreases e.len() - i,
        {
            if self.entries[i].1.should_run_at(now_ms) {
                names.push(self.entries[i].0.clone());
                proof {
                    let old_idx = idx;
                    idx = idx.push(i as int);
                    assert forall|j: int| 0 <= j < i + 1 && (#[trigger] e[j]).1.due_at(now_ms) implies exists|m: int| 0 <= m < idx.len() && idx[m] == j by {
                        if j < i {
                            let m = choose|m: int| 0 <= m < old_idx.len() && old_idx[m] == j;
                            assert(idx[m] == j);
                        } else {
                            assert(idx[old_idx.len() as int] == j);
                        }
                    }
                }
            }
            i = i + 1;
        }
        proof {
            let s = due_set(self@, now_ms);
            assert forall|m: int| 0 <= m < names@.len() implies s.contains(#[trigger] names@[m]@) by {
                assert(idx[m] < e.len());
                assert(self@.contains_key(e[idx[m]].0@));
            }
            assert forall|k: Seq<char>| s.contains(k) implies exists|m: int| 0 <= m < names@.len() && #[trigger] names@[m]@ == k by {
                let j = choose|j: int| 0 <= j < e.len() && #[trigger] e[j].0@ == k;
                assert(self@[k] == e[j].1);
                assert(e[j].1.due_at(now_ms));
                let m = choose|m: int| 0 <= m < idx.len() && idx[m] == j;
                assert(names@[m]@ == k);
            }
            assert forall|m1: int, m2: int| 0 <= m1 < names@.len() && 0 <= m2 < names@.len() && m1 != m2 implies #[trigger] names@[m1]@ != #[trigger] names@[m2]@ by {
                if m1 < m2 {
                    assert(idx[m1] < idx[m2]);
                } else {
                    assert(idx[m2] < idx[m1]);
                }
            }
        }
        names
    }

    /// One pass over the jobs: claims every due job (or, when `kill`, releases
    /// every running job) and lists the names of the jobs it changed.
    fn mark(&mut self, now_ms: u64, kill: bool) -> (r: Vec<String>)
        requires
            old(self).wf(),
        ensures
            final(self).wf(),
            final(self).state == old(self).state,
            final(self)@ == old(self)@.map_values(|c: ScriptConfig| mark_apply(c, now_ms, kill)),
            lists_exactly(
                r@,
                Set::new(|k: Seq<char>| old(self)@.contains_key(k) && mark_pick(old(self)@[k], now_ms, kill)),
            ),
    {
        let ghost e = self.entries@;
        let ghost jobs = self.jobs@;
        let mut names: Vec<String> = Vec::new();
        let ghost mut idx: Seq<int> = Seq::empty();
        let mut i: usize = 0;
        while i < self.entries.len()
            invariant
                entries_hold(e, jobs),
                jobs == self.jobs@,
                self.state == old(self).state,
                self.entries@.len() == e.len(),
                0 <= i <= e.len(),
                forall|j: int| 0 <= j < i ==> (#[trigger] self.entries@[j]).0 == e[j].0 && self.entries@[j].1 == mark_apply(e[j].1, now_ms, kill),
                forall|j: int| i <= j < e.len() ==> #[trigger] self.entries@[j] == e[j],
                idx.len() == names@.len(),
                forall|m: int| 0 <= m < idx.len() ==> 0 <= #[trigger] idx[m] < i && names@[m]@ == e[idx[m]].0@ && mark_pick(e[idx[m]].1, now_ms, kill),
                forall|a: int, b: int| 0 <= a < b < idx.len() ==> #[trigger] idx[a] < #[trigger] idx[b],
                forall|j: int| 0 <= j < i && mark_pick((#[trigger] e[j]).1, now_ms, kill) ==> exists|m: int| 0 <= m < idx.len() && idx[m] == j,
            decreases e.len() - i,
        {
            assert(self.entries@[i as int] == e[i as int]);
            let picked = if kill {
                self.entries[i].1.is_running()
            } else {
                self.entries[i].1.should_run_at(now_ms)
            };
            if picked {
                names.push(self.entries[i].0.clone());
                if kill {
                    self.entries[i].1.force_terminate();
                } else {
                    self.entries[i].1.start_execution();
                }
                proof {
                    let old_idx = idx;
                    idx = idx.push(i as int);
                    assert forall|j: int| 0 <= j < i + 1 && mark_pick((#[trigger] e[j]).1, now_ms, kill) implies exists|m: int| 0 <= m < idx.len() && idx[m] == j by {
                        if j < i {
                            let m = choose|m: int| 0 <= m < old_idx.len() && old_idx[m] == j;
                            assert(idx[m] == j);
                        } else {
                            assert(idx[old_idx.len() as int] == j);
                        }
                    }
                }
            }
            assert(self.entries@[i as int].1 == mark_apply(e[i as int].1, now_ms, kill));
            i = i + 1;
        }
        let ghost f = |c: ScriptConfig| mark_apply(c, now_ms, kill);
        proof {
            lemma_entries_map(e, jobs, self.entries@, f);
            let s = Set::new(|k: Seq<char>| jobs.contains_key(k) && mark_pick(jobs[k], now_ms, kill));
            assert forall|m: int| 0 <= m < names@.len() implies s.contains(#[trigger] names@[m]@) by {
                assert(idx[m] < e.len());
                assert(jobs.contains_key(e[idx[m]].0@));
            }
            assert forall|k: Seq<char>| s.contains(k) implies exists|m: int| 0 <= m < names@.len() && #[trigger] names@[m]@ == k by {
                let j = choose|j: int| 0 <= j < e.len() && #[trigger] e[j].0@ == k;
                assert(jobs[k] == e[j].1);
                assert(mark_pick(e[j].1, now_ms, kill));
                let m = choose|m: int| 0 <= m < idx.len() && idx[m] == j;
                assert(names@[m]@ == k);
            }
            assert forall|m1: int, m2: int| 0 <= m1 < names@.len() && 0 <= m2 < names@.len() && m1 != m2 implies #[trigger] names@[m1]@ != #[trigger] names@[m2]@ by {
                if m1 < m2 {
                    assert(idx[m1] < idx[m2]);
                } else {
                    assert(idx[m2] < idx[m1]);
                }
            }
        }
        self.jobs = Ghost(jobs.map_values(f));
        names
    }

    /// One tick at `now_ms`. A running scheduler claims every due job, sets
    /// its running flag, and returns the names to launch; in any other phase
    /// nothing is launched.
    pub fn run_cycle(&mut self, now_ms: u64) -> (r: Vec<String>)
        requires
            old(self).wf(),
        ensures
            final(self).wf(),
            final(self).state() == old(self).state(),
            old(self).state() == SchedulerState::Running ==> {
                &&& final(self)@ == after_tick(old(self)@, now_ms)
                &&& lists_exactly(r@, due_set(old(self)@, now_ms))
            },
            old(self).state() != SchedulerState::Running ==> final(self)@ == old(self)@ && r@.len() == 0,
    {
        if self.state != SchedulerState::Running {
            return Vec::new();
        }
        let ghost before = self@;
        let r = self.mark(now_ms, false);
        proof {
            assert(after_tick(before, now_ms) =~= before.map_values(|c: ScriptConfig| mark_apply(c, now_ms, false)));
            assert(due_set(before, now_ms) =~= Set::new(|k: Seq<char>| before.contains_key(k) && mark_pick(before[k], now_ms, false)));
        }
        r
    }

    /// Whether any job is running.
    pub fn any_running(&self) -> (r: bool)
        requires
            self.wf(),
        ensures
            r == exists|k: Seq<char>| #[trigger] self@.contains_key(k) && self@[k].running,
    {
        let mut i: usize = 0;
        while i < self.entries.len()
            invariant
                self.wf(),
                0 <= i <= self.entries@.len(),
                forall|j: int| 0 <= j < i ==> !(#[trigger] self.entries@[j]).1.running,
            decreases self.entries@.len() - i,
        {
            if self.entries[i].1.is_running() {
                assert(self@.contains_key(self.entries@[i as int].0@));
                return true;
            }
            i = i + 1;
        }
        proof {
            assert forall|k: Seq<char>| #[trigger] self@.contains_key(k) implies !self@[k].running by {
                let j = choose|j: int| 0 <= j < self.entries@.len() && #[trigger] self.entries@[j].0@ == k;
                assert(!self.entries@[j].1.running);
            }
        }
        false
    }

    /// Claims the job named `name` for a launch outside the tick (a run
    /// requested by hand): false, with nothing changed, if there is no such
    /// job or it is already running.
    pub fn start_script(&mut self, name: &str) -> (r: bool)
        requires
            old(self).wf(),
        ensures
            final(self).wf(),
            final(self).state() == old(self).state(),
            r == (old(self)@.contains_key(name@) && !old(self)@[name@].running),
            final(self)@ == if old(self)@.contains_key(name@) {
                old(self)@.insert(name@, old(self)@[name@].started())
            } else {
                old(self)@
            },
    {
        match self.find(name) {
            Some(i) => {
                let ghost c = self.entries@[i as int].1.started();
                proof {
                    lemma_entries_update(self.entries@, self.jobs@, i as int, (self.entries@[i as int].0, c));
                }
                let r = self.entries[i].1.start_execution();
                self.jobs = Ghost(self.jobs@.insert(name@, c));
                assert(self.entries@ =~= old(self).entries@.update(i as int, (old(self).entries@[i as int].0, c)));
                r
            },
            None => false,
        }
    }

    /// Records the end of a run of the job named `name` at `now_ms`: clears
    /// its running flag and stamps its last run and outcome. False if the job
    /// has been removed meanwhile.
    pub fn finish_script(&mut self, name: &str, now_ms: u64, outcome: RunOutcome) -> (r: bool)
        requires
            old(self).wf(),
        ensures
            final(self).wf(),
            final(self).state() == old(self).state(),
            r == old(self)@.contains_key(name@),
            final(self)@ == if r {
                old(self)@.insert(name@, old(self)@[name@].finished(now_ms, outcome))
            } else {
                old(self)@
            },
    {
        match self.find(name) {
            Some(i) => {
                let ghost c = self.entries@[i as int].1.finished(now_ms, outcome);
                proof {
                    lemma_entries_update(self.entries@, self.jobs@, i as int, (self.entries@[i as int].0, c));
                }
                self.entries[i].1.finish_execution(now_ms, outcome);
                self.jobs = Ghost(self.jobs@.insert(name@, c));
                assert(self.entries@ =~= old(self).entries@.update(i as int, (old(self).entries@[i as int].0, c)));
                true
            },
            None => false,
        }
    }

    /// Starts the tick loop: an idle scheduler starts running; in any other
    /// phase nothing changes.
    pub fn start(&mut self) -> (r: bool)
        requires
            old(self).wf(),
        ensures
            final(self).wf(),
            final(self)@ == old(self)@,
            r == (old(self).state() == SchedulerState::Idle),
            final(self).state() == if r { SchedulerState::Running } else { old(self).state() },
    {
        if self.state == SchedulerState::Idle {
            self.state = SchedulerState::Running;
            true
        } else {
            false
        }
    }

    /// Whether the tick loop is active.
    pub fn is_running(&self) -> (r: bool)
        ensures
            r == (self.state() == SchedulerState::Running),
    {
        self.state == SchedulerState::Running
    }

    /// The scheduler's phase.
    pub fn phase(&self) -> (r: SchedulerState)
        ensures
            r == self.state(),
    {
        self.state
    }

    /// Requests shutdown: a running scheduler starts draining, an idle one
    /// stops at once; a draining or stopped one is left as it is.
    pub fn shutdown(&mut self)
        requires
            old(self).wf(),
        ensures
            final(self).wf(),
            final(self)@ == old(self)@,
            final(self).state() == match old(self).state() {
                SchedulerState::Idle => SchedulerState::Stopped,
                SchedulerState::Running => SchedulerState::Draining,
                s => s,
            },
    {
        match self.state {
            SchedulerState::Idle => {
                self.state = SchedulerState::Stopped;
            },
            SchedulerState::Running => {
                self.state = SchedulerState::Draining;
            },
            _ => {},
        }
    }

    /// One poll of a drain that began at `started_ms`, at `now_ms`. With no
    /// job running the scheduler stops; with jobs still running once the grace
    /// period has passed, it releases them, stops, and names them to be killed;
    /// otherwise it waits. Outside the draining phase nothing changes: a
    /// stopped scheduler answers `Stop`, any other `Wait`.
    pub fn drain_step(&mut self, started_ms: u64, now_ms: u64, grace_ms: u64) -> (r: DrainAction)
        requires
            old(self).wf(),
        ensures
            final(self).wf(),
            old(self).state() != SchedulerState::Draining ==> {
                &&& *final(self) == *old(self)
                &&& if old(self).state() == SchedulerState::Stopped { r is Stop } else { r is Wait }
            },
            old(self).state() == SchedulerState::Draining ==> {
                let any = exists|k: Seq<char>| #[trigger] old(self)@.contains_key(k) && old(self)@[k].running;
                match drain_decision(started_ms, now_ms, grace_ms, any) {
                    DrainDecision::Stop => r is Stop && final(self)@ == old(self)@
                        && final(self).state() == SchedulerState::Stopped,
                    DrainDecision::Wait => r is Wait && *final(self) == *old(self),
                    DrainDecision::ForceKill => match r {
                        DrainAction::ForceKill(names) => {
                            &&& lists_exactly(names@, running_set(old(self)@))
                            &&& final(self)@ == after_kill(old(self)@)
                            &&& final(self).state() == SchedulerState::Stopped
                        },
                        _ => false,
                    },
                }
            },
    {
        match self.state {
            SchedulerState::Draining => {},
            SchedulerState::Stopped => {
                return DrainAction::Stop;
            },
            _ => {
                return DrainAction::Wait;
            },
        }
        if !self.any_running() {
            self.state = SchedulerState::Stopped;
            return DrainAction::Stop;
        }
        if elapsed_ms(started_ms, now_ms) < grace_ms {
            return DrainAction::Wait;
        }
        let ghost before = self@;
        let names = self.mark(now_ms, true);
        proof {
            assert(after_kill(before) =~= before.map_values(|c: ScriptConfig| mark_apply(c, now_ms, true)));
            assert(running_set(before) =~= Set::new(|k: Seq<char>| before.contains_key(k) && mark_pick(before[k], now_ms, true)));
        }
        self.state = SchedulerState::Stopped;
        DrainAction::ForceKill(names)
    }

    /// The position of the entry named `name`.
    fn find(&self, name: &str) -> (r: Option<usize>)
        requires
            self.wf(),
        ensures
            match r {
                Some(i) => i < self.entries@.len() && self.entries@[i as int].0@ == name@
                    && self@.contains_key(name@) && self@[name@] == self.entries@[i as int].1,
                None => !self@.contains_key(name@),
            },
    {
        let mut i: usize = 0;
        while i < self.entries.len()
            invariant
                self.wf(),
                0 <= i <= self.entries@.len(),
                forall|j: int| 0 <= j < i ==> #[trigger] self.entries@[j].0@ != name@,
            decreases self.entries@.len() - i,
        {
            if chars_equal(self.entries[i].0.as_str(), name) {
                return Some(i);
            }
            i = i + 1;
        }
        None
    }
}

} // verus!
