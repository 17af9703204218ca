//! Cadences of the background work: the per-rule poll interval and the
//! hourly safety sweep.

use vstd::prelude::*;

use crate::album_sync::id_views;
use crate::text::{parse_unsigned, parse_unsigned_at_most, str_eq, trim_text, trimmed};

verus! {

broadcast use vstd::std_specs::vec::group_vec_axioms;

/// A span of time, as `std::time::Duration` holds it.
#[derive(Debug, Clone, Copy, PartialEq, Eq, Structural)]
pub struct TickInterval {
    pub secs: u64,
    pub nanos: u32,
}

/// Scheduler configuration.
#[derive(Debug, Clone, Copy, PartialEq, Eq)]
pub struct SchedulerConfig {
    /// When set, every per-rule task uses this cadence instead of the rule's
    /// own `poll_interval_seconds` (a seam for tests).
    pub tick_interval_override: Option<TickInterval>,
}

impl Default for SchedulerConfig {
    /// No override: each rule runs at its own interval.
    fn default() -> (c: Self)
        ensures
            c.tick_interval_override is None,
    {
        SchedulerConfig { tick_interval_override: None }
    }
}

/// The cadence of a rule's poll task: the configured override if any, else
/// the rule's interval, at least one second.
pub fn interval_for(config: &SchedulerConfig, rule_seconds: i64) -> (t: TickInterval)
    ensures
        t == (match config.tick_interval_override {
            Some(o) => o,
            None => TickInterval { secs: if rule_seconds < 1 { 1 } else { rule_seconds as u64 }, nanos: 0 },
        }),
{
    if let Some(o) = config.tick_interval_override {
        return o;
    }
    let secs: u64 = if rule_seconds < 1 {
        1
    } else {
        rule_seconds as u64
    };
    TickInterval { secs, nanos: 0 }
}

/// Seconds between two safety sweeps unless overridden.
pub const DEFAULT_SAFETY_SWEEP_INTERVAL_SECONDS: u64 = 3600;

/// Seconds between safety sweeps given the raw override: a positive whole
/// number of seconds (white space around it allowed); anything else, or no
/// override, gives the default.
pub open spec fn safety_sweep_seconds(raw: Option<Seq<char>>) -> u64 {
    match raw {
        Some(s) => match parse_unsigned(trimmed(s), u64::MAX as int) {
            Some(v) => if v > 0 {
                v as u64
            } else {
                DEFAULT_SAFETY_SWEEP_INTERVAL_SECONDS
            },
            None => DEFAULT_SAFETY_SWEEP_INTERVAL_SECONDS,
        },
        None => DEFAULT_SAFETY_SWEEP_INTERVAL_SECONDS,
    }
}

/// Reads the safety-sweep cadence override, in seconds: a missing,
/// unreadable or zero value gives [`DEFAULT_SAFETY_SWEEP_INTERVAL_SECONDS`]
/// (a zero interval would busy-spin).
pub fn parse_safety_sweep_interval(raw: Option<&str>) -> (secs: u64)
    ensures
        secs == safety_sweep_seconds(match raw {
            Some(s) => Some(s@),
            None => None,
        }),
        secs > 0,
{
    match raw {
        Some(s) => {
            let t = trim_text(s);
            proof {
                crate::text::lemma_parse_unsigned_bounds(t@, u64::MAX as int);
            }
            match parse_unsigned_at_most(t, 0xffff_ffff_ffff_ffff) {
                Some(v) => {
                    if v > 0 {
                        v
                    } else {
                        DEFAULT_SAFETY_SWEEP_INTERVAL_SECONDS
                    }
                },
                None => DEFAULT_SAFETY_SWEEP_INTERVAL_SECONDS,
            }
        },
        None => DEFAULT_SAFETY_SWEEP_INTERVAL_SECONDS,
    }
}

// ---------------------------------------------------------------------------
// The per-rule poll tasks.
// ---------------------------------------------------------------------------

/// What becomes of a rule's poll task after the rule was written.
#[derive(Debug, Clone, Copy, PartialEq, Eq, Structural)]
pub enum TaskAction {
    /// Start a task: the rule is active and none runs.
    Spawn,
    /// Stop the running task: the rule was paused, archived or deleted.
    Cancel,
    /// Nothing to do.
    Keep,
}

/// A rule is polled exactly while its stored status is `active`; a deleted
/// rule (no status) is not.
pub open spec fn is_polled(status: Option<Seq<char>>) -> bool {
    status == Some("active"@)
}

/// The view of an optional text.
pub open spec fn opt_text(o: Option<&str>) -> Option<Seq<char>> {
    match o {
        Some(s) => Some(s@),
        None => None,
    }
}

/// The action for a rule that should (`polled`) or should not be polled,
/// given whether its task runs.
pub open spec fn action_for(polled: bool, running: bool) -> TaskAction {
    if polled {
        if running {
            TaskAction::Keep
        } else {
            TaskAction::Spawn
        }
    } else if running {
        TaskAction::Cancel
    } else {
        TaskAction::Keep
    }
}

/// Removing the element at `i` of a sequence without duplicates removes
/// exactly that value from its set, and leaves no duplicates.
proof fn lemma_remove_unique(s: Seq<Seq<char>>, i: int)
    requires
        s.no_duplicates(),
        0 <= i < s.len(),
    ensures
        s.remove(i).no_duplicates(),
        s.remove(i).to_set() =~= s.to_set().remove(s[i]),
{
    s.remove_ensures(i);
    let r = s.remove(i);
    assert forall|a: int, b: int| 0 <= a < r.len() && 0 <= b < r.len() && a != b implies r[a] != r[b] by {
        let a2 = if a < i { a } else { a + 1 };
        let b2 = if b < i { b } else { b + 1 };
        assert(r[a] == s[a2] && r[b] == s[b2]);
    }
    assert forall|x: Seq<char>| #[trigger] r.to_set().contains(x) <==> s.to_set().remove(s[i]).contains(x) by {
        if r.contains(x) {
            let k = choose|k: int| 0 <= k < r.len() && r[k] == x;
            let k2 = if k < i { k } else { k + 1 };
            assert(s[k2] == x && k2 != i);
            assert(s.contains(x));
        }
        if s.contains(x) && x != s[i] {
            let k = choose|k: int| 0 <= k < s.len() && s[k] == x;
            assert(k != i);
            let k2 = if k < i { k } else { k - 1 };
            assert(r[k2] == x);
        }
    }
}

/// Appending `x` adds exactly `x` to a sequence's set.
proof fn lemma_push_to_set(before: Seq<Seq<char>>, x: Seq<char>)
    ensures
        before.push(x).to_set() =~= before.to_set().insert(x),
{
    let after = before.push(x);
    assert forall|y: Seq<char>| #[trigger] after.to_set().contains(y) <==> before.to_set().insert(x).contains(y) by {
        if before.contains(y) {
            let k = choose|k: int| 0 <= k < before.len() && before[k] == y;
            assert(after[k] == y);
        }
        if y == x {
            assert(after[before.len() as int] == y);
        }
        if after.contains(y) {
            let k = choose|k: int| 0 <= k < after.len() && after[k] == y;
            if k < before.len() {
                assert(before[k] == y);
            }
        }
    }
}

/// The rules that have a running poll task, each at most once.
#[derive(Debug)]
pub struct TaskRegistry {
    ids: Vec<String>,
}

impl TaskRegistry {
    /// The ids of the rules with a running task.
    pub closed spec fn running(&self) -> Set<Seq<char>> {
        id_views(self.ids@).to_set()
    }

    /// No rule is listed twice.
    pub closed spec fn wf(&self) -> bool {
        id_views(self.ids@).no_duplicates()
    }

    /// No task runs.
    pub fn new() -> (r: Self)
        ensures
            r.wf(),
            r.running() == Set::<Seq<char>>::empty(),
    {
        let r = TaskRegistry { ids: Vec::new() };
        assert(r.running() =~= Set::<Seq<char>>::empty());
        r
    }

    fn position(&self, id: &str) -> (r: Option<usize>)
        ensures
            match r {
                Some(i) => i < self.ids@.len() && self.ids@[i as int]@ == id@,
                None => !id_views(self.ids@).contains(id@),
            },
    {
        let mut i: usize = 0;
        while i < self.ids.len()
            invariant
                i <= self.ids@.len(),
                forall|j: int| 0 <= j < i ==> self.ids@[j]@ != id@,
            decreases self.ids@.len() - i,
        {
            if str_eq(self.ids[i].as_str(), id) {
                return Some(i);
            }
            i += 1;
        }
        proof {
            if id_views(self.ids@).contains(id@) {
                let k = choose|k: int| 0 <= k < id_views(self.ids@).len() && id_views(self.ids@)[k] == id@;
                assert(self.ids@[k]@ == id@);
            }
        }
        None
    }

    /// Whether the rule `id` has a running task.
    pub fn is_running(&self, id: &str) -> (r: bool)
        ensures
            r == self.running().contains(id@),
    {
        match self.position(id) {
            Some(i) => {
                assert(id_views(self.ids@)[i as int] == id@);
                true
            },
            None => false,
        }
    }

    /// The number of running tasks.
    pub fn running_count(&self) -> (n: usize)
        requires
            self.wf(),
        ensures
            n == self.running().len(),
    {
        proof {
            id_views(self.ids@).unique_seq_to_set();
        }
        self.ids.len()
    }

    /// Reconciles the tasks after rule `id` was written or deleted:
    /// `status` is its stored status, none when it no longer exists. An
    /// active rule gets a task unless one runs; any other loses its task.
    pub fn rule_changed(&mut self, id: &str, status: Option<&str>) -> (a: TaskAction)
        requires
            old(self).wf(),
        ensures
            final(self).wf(),
            a == action_for(is_polled(opt_text(status)), old(self).running().contains(id@)),
            final(self).running() == (if is_polled(opt_text(status)) {
                old(self).running().insert(id@)
            } else {
                old(self).running().remove(id@)
            }),
    {
        let polled = match status {
            Some(s) => str_eq(s, "active"),
            None => false,
        };
        proof {
            reveal_strlit("active");
        }
        let pos = self.position(id);
        let ghost before = id_views(self.ids@);
        match pos {
            Some(i) => {
                assert(before[i as int] == id@);
                assert(before.to_set().contains(id@));
                if polled {
                    assert(self.running() =~= self.running().insert(id@));
                    TaskAction::Keep
                } else {
                    self.ids.remove(i);
                    proof {
                        lemma_remove_unique(before, i as int);
                        assert(id_views(self.ids@) =~= before.remove(i as int));
                    }
                    TaskAction::Cancel
                }
            },
            None => {
                assert(!before.to_set().contains(id@));
                if polled {
                    self.ids.push(id.to_owned());
                    proof {
                        assert(id_views(self.ids@) =~= before.push(id@));
                        lemma_push_to_set(before, id@);
                    }
                    TaskAction::Spawn
                } else {
                    assert(self.running() =~= self.running().remove(id@));
                    TaskAction::Keep
                }
            },
        }
    }

    /// Starts a task for every active rule that has none (start-up); the
    /// ids started, each once.
    pub fn start(&mut self, active: &Vec<String>) -> (spawned: Vec<String>)
        requires
            old(self).wf(),
        ensures
            final(self).wf(),
            final(self).running() == old(self).running().union(id_views(active@).to_set()),
            id_views(spawned@).to_set() == id_views(active@).to_set().difference(old(self).running()),
            id_views(spawned@).no_duplicates(),
    {
        let ghost start = self.running();
        let mut spawned: Vec<String> = Vec::new();
        let mut i: usize = 0;
        proof {
            assert(id_views(active@.take(0)).to_set() =~= Set::<Seq<char>>::empty());
            assert(self.running() =~= start.union(Set::<Seq<char>>::empty()));
            assert(id_views(spawned@).to_set() =~= Set::<Seq<char>>::empty().difference(start));
        }
        while i < active.len()
            invariant
                self.wf(),
                i <= active@.len(),
                self.running() == start.union(id_views(active@.take(i as int)).to_set()),
                id_views(spawned@).to_set() == id_views(active@.take(i as int)).to_set().difference(start),
                id_views(spawned@).no_duplicates(),
            decreases active@.len() - i,
        {
            let ghost prefix = id_views(active@.take(i as int));
            let ghost x = active@[i as int]@;
            proof {
                assert(active@.take(i + 1) =~= active@.take(i as int).push(active@[i as int]));
                assert(id_views(active@.take(i + 1)) =~= prefix.push(x));
                lemma_push_to_set(prefix, x);
            }
            if !self.is_running(active[i].as_str()) {
                let ghost spawned_before = id_views(spawned@);
                proof {
                    assert(!spawned_before.contains(x)) by {
                        if spawned_before.contains(x) {
                            assert(spawned_before.to_set().contains(x));
                        }
                    }
                }
                self.rule_changed(active[i].as_str(), Some("active"));
                spawned.push(active[i].clone());
                proof {
                    reveal_strlit("active");
                    assert(id_views(spawned@) =~= spawned_before.push(x));
                    assert(spawned_before.push(x).no_duplicates()) by {
                        assert forall|a: int, b: int| 0 <= a < b < spawned_before.len() + 1 implies
                            spawned_before.push(x)[a] != spawned_before.push(x)[b] by {
                            if b == spawned_before.len() {
                                assert(spawned_before.contains(spawned_before[a]));
                            }
                        }
                    }
                    lemma_push_to_set(spawned_before, x);
                    assert(id_views(spawned@).to_set() =~= prefix.push(x).to_set().difference(start));
                }
            } else {
                proof {
                    assert(id_views(spawned@).to_set() =~= prefix.push(x).to_set().difference(start));
                }
            }
            i += 1;
            proof {
                assert(self.running() =~= start.union(id_views(active@.take(i as int)).to_set()));
            }
        }
        proof {
            assert(active@.take(active@.len() as int) =~= active@);
        }
        spawned
    }

    /// Takes every running task out (shutdown); the ids taken, each once.
    pub fn drain(&mut self) -> (out: Vec<String>)
        requires
            old(self).wf(),
        ensures
            final(self).wf(),
            final(self).running() == Set::<Seq<char>>::empty(),
            id_views(out@).to_set() == old(self).running(),
            id_views(out@).no_duplicates(),
    {
        let mut out: Vec<String> = Vec::new();
        std::mem::swap(&mut out, &mut self.ids);
        assert(self.running() =~= Set::<Seq<char>>::empty());
        out
    }
}

/// A rule has a running poll task right after it was written exactly when
/// its stored status is `active`, whatever ran before.
pub proof fn lemma_task_follows_status(before: Set<Seq<char>>, id: Seq<char>, status: Option<Seq<char>>)
    ensures
        (if is_polled(status) {
            before.insert(id)
        } else {
            before.remove(id)
        }).contains(id) == is_polled(status),
{
}

} // verus!
