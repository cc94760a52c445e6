//! Dynamic worker scaling: when to spawn workers, which idle workers to stop,
//! and the backoff between spawn attempts.
//!
//! The processes themselves are started and stopped by the caller; the scaler
//! keeps the ids of the workers it spawned and decides.

use vstd::prelude::*;
use crate::types::{WorkerInfo, WorkerRegistry, WorkerState, get_timestamp};

verus! {

/// Settings of the worker scaler.
#[derive(Debug, Clone)]
pub struct WorkerScalingConfig {
    /// Whether dynamic scaling is on.
    pub enabled: bool,
    /// Fewest workers to keep.
    pub min_workers: usize,
    /// Most workers to run.
    pub max_workers: usize,
    /// Queued tasks that one worker is meant to absorb.
    pub target_queue_size_per_worker: usize,
    /// Seconds of idleness after which a worker may be stopped.
    pub idle_shutdown_timeout: u64,
    /// Seconds between scaling checks.
    pub scale_check_interval: u64,
    /// First spawn backoff, in seconds.
    pub spawn_backoff_initial: u64,
    /// Largest spawn backoff, in seconds.
    pub spawn_backoff_max: u64,
    /// Factor by which the backoff grows after a failed spawn, as the bit
    /// pattern of an IEEE 754 double.
    pub spawn_backoff_multiplier_bits: u64,
}

/// What the scaler decided.
#[derive(Debug, Clone, PartialEq, Eq)]
pub enum ScalingAction {
    /// Nothing to do.
    NoChange,
    /// Spawn `count` workers.
    ScaleUp { count: usize },
    /// Stop these idle workers.
    ScaleDown { worker_ids: Vec<String> },
}

impl View for ScalingAction {
    /// The number of workers to spawn and the ids of the workers to stop
    /// (both empty for `NoChange`; the scaler never returns a `ScaleUp` of none
    /// or a `ScaleDown` of none).
    type V = (nat, Seq<Seq<char>>);

    open spec fn view(&self) -> (nat, Seq<Seq<char>>) {
        match self {
            ScalingAction::NoChange => (0, Seq::empty()),
            ScalingAction::ScaleUp { count } => (*count as nat, Seq::empty()),
            ScalingAction::ScaleDown { worker_ids } => (0, worker_ids@.map_values(|s: String| s@)),
        }
    }
}

/// Errors of scaling operations.
#[derive(Debug, Clone, PartialEq, Eq)]
pub enum ScalingError {
    /// A worker process could not be started.
    SpawnFailed(String),
    /// A worker process could not be stopped.
    ShutdownFailed(String),
}

impl ScalingError {
    /// The error's text.
    pub fn message(&self) -> (s: String)
        ensures
            s@ == match self {
                ScalingError::SpawnFailed(m) => "Failed to spawn worker: "@ + m@,
                ScalingError::ShutdownFailed(m) => "Failed to shutdown worker: "@ + m@,
            },
    {
        let mut s = String::new();
        match self {
            ScalingError::SpawnFailed(m) => {
                crate::text::push_str(&mut s, "Failed to spawn worker: ");
                crate::text::push_str(&mut s, m.as_str());
            },
            ScalingError::ShutdownFailed(m) => {
                crate::text::push_str(&mut s, "Failed to shutdown worker: ");
                crate::text::push_str(&mut s, m.as_str());
            },
        }
        s
    }
}

// ============================================================================
// The rules, as spec functions
// ============================================================================

/// The smaller of two integers.
pub open spec fn min_int(a: int, b: int) -> int {
    if a <= b { a } else { b }
}

/// The larger of two integers.
pub open spec fn max_int(a: int, b: int) -> int {
    if a >= b { a } else { b }
}

/// Workers needed for `queue_size` tasks at `per_worker` tasks each, rounded up.
pub open spec fn workers_for_queue(queue_size: int, per_worker: int) -> int {
    (queue_size + per_worker - 1) / per_worker
}

/// The number of workers to aim for: enough for the queue, at least one more
/// than now and at least the minimum, but at most the configured maximum.
pub open spec fn target_workers(cfg: WorkerScalingConfig, queue_size: int, current: int) -> int {
    min_int(
        max_int(cfg.min_workers as int, max_int(current + 1, workers_for_queue(queue_size, cfg.target_queue_size_per_worker as int))),
        cfg.max_workers as int,
    )
}

/// The number of workers in a given state.
pub open spec fn count_in_state(infos: Seq<WorkerInfo>, state: WorkerState) -> nat {
    infos.filter(|w: WorkerInfo| w.state == state).len()
}

/// The ceiling on workers: the scaler's own maximum and the orchestrator's.
pub open spec fn effective_max(cfg: WorkerScalingConfig, max_workers: int) -> int {
    min_int(cfg.max_workers as int, max_workers)
}

/// Whether scaling up is considered at all (this is where the target is computed).
pub open spec fn growth_considered(cfg: WorkerScalingConfig, queue_size: int, infos: Seq<WorkerInfo>, max_workers: int) -> bool {
    cfg.enabled && queue_size > 0 && count_in_state(infos, WorkerState::Working) < effective_max(cfg, max_workers)
}

/// How many workers to spawn, if scaling up is called for (0 if not).
pub open spec fn growth(cfg: WorkerScalingConfig, queue_size: int, infos: Seq<WorkerInfo>, max_workers: int) -> int {
    let current = infos.len() as int;
    let target = target_workers(cfg, queue_size, current);
    if growth_considered(cfg, queue_size, infos, max_workers) && target > current && target <= effective_max(cfg, max_workers) {
        target - current
    } else {
        0
    }
}

/// Whether the last spawn attempt, at `last_ms`, is less than `backoff_secs` ago at `now_ms`.
pub open spec fn in_backoff(last_ms: Option<u64>, backoff_secs: u64, now_ms: u64) -> bool {
    match last_ms {
        Some(last) => (if now_ms >= last { now_ms - last } else { 0 }) < backoff_secs * 1000,
        None => false,
    }
}

/// Seconds since the worker was last seen (0 if the clock reads earlier).
pub open spec fn idle_secs(w: WorkerInfo, now_secs: u64) -> int {
    if now_secs >= w.last_seen { now_secs - w.last_seen } else { 0 }
}

/// Among the first `n` registered workers, the first `limit` idle workers that
/// have been idle for at least `timeout` seconds, in registration order.
pub open spec fn excess_idle(infos: Seq<WorkerInfo>, n: int, now_secs: u64, timeout: u64, limit: int) -> Seq<Seq<char>>
    decreases n,
{
    if n <= 0 {
        Seq::empty()
    } else {
        let prev = excess_idle(infos, n - 1, now_secs, timeout, limit);
        let w = infos[n - 1];
        if prev.len() < limit && w.state == WorkerState::Idle && idle_secs(w, now_secs) >= timeout {
            prev.push(w.worker_id@)
        } else {
            prev
        }
    }
}

/// The idle workers to stop: never below the minimum, only those idle long enough.
pub open spec fn shrink(cfg: WorkerScalingConfig, infos: Seq<WorkerInfo>, now_secs: u64) -> Seq<Seq<char>> {
    let current = infos.len() as int;
    if count_in_state(infos, WorkerState::Idle) > 0 && current > cfg.min_workers {
        excess_idle(infos, current, now_secs, cfg.idle_shutdown_timeout, current - cfg.min_workers)
    } else {
        Seq::empty()
    }
}

/// The scaling decision: spawn when the queue calls for it (unless the last
/// attempt is too recent), else stop excess idle workers, else nothing.
pub open spec fn decision(
    cfg: WorkerScalingConfig,
    last_attempt_ms: Option<u64>,
    backoff_secs: u64,
    queue_size: int,
    infos: Seq<WorkerInfo>,
    max_workers: int,
    now_ms: u64,
) -> (nat, Seq<Seq<char>>) {
    if !cfg.enabled {
        (0, Seq::empty())
    } else if growth(cfg, queue_size, infos, max_workers) > 0 {
        if in_backoff(last_attempt_ms, backoff_secs, now_ms) {
            (0, Seq::empty())
        } else {
            (growth(cfg, queue_size, infos, max_workers) as nat, Seq::empty())
        }
    } else {
        (0, shrink(cfg, infos, now_ms / 1000))
    }
}

proof fn lemma_excess_idle_len(infos: Seq<WorkerInfo>, n: int, now_secs: u64, timeout: u64, limit: int)
    requires
        0 <= n <= infos.len(),
        limit >= 0,
    ensures
        excess_idle(infos, n, now_secs, timeout, limit).len() <= n,
        excess_idle(infos, n, now_secs, timeout, limit).len() <= limit,
    decreases n,
{
    if n > 0 {
        lemma_excess_idle_len(infos, n - 1, now_secs, timeout, limit);
    }
}

proof fn lemma_filter_len_bound(infos: Seq<WorkerInfo>, state: WorkerState)
    ensures
        count_in_state(infos, state) <= infos.len(),
{
    infos.lemma_filter_len(|w: WorkerInfo| w.state == state);
}

// ============================================================================
// The scaler
// ============================================================================

/// Decides when to add or remove worker processes, and tracks those it spawned.
#[derive(Debug)]
pub struct WorkerScaler {
    config: WorkerScalingConfig,
    spawned_workers: Vec<String>,
    last_spawn_attempt_ms: Option<u64>,
    current_spawn_backoff_secs: u64,
    socket_path: String,
}

impl WorkerScaler {
    /// The scaler's settings.
    pub closed spec fn spec_config(&self) -> WorkerScalingConfig {
        self.config
    }

    /// The ids of the workers this scaler spawned and still tracks, in spawn order.
    pub closed spec fn spawned(&self) -> Seq<Seq<char>> {
        self.spawned_workers@.map_values(|s: String| s@)
    }

    /// When the last spawn round happened (Unix milliseconds), if any.
    pub closed spec fn last_attempt(&self) -> Option<u64> {
        self.last_spawn_attempt_ms
    }

    /// The current spawn backoff, in seconds.
    pub closed spec fn backoff(&self) -> u64 {
        self.current_spawn_backoff_secs
    }

    /// The socket path that spawned workers connect to.
    pub closed spec fn spec_socket_path(&self) -> Seq<char> {
        self.socket_path@
    }

    /// The scaler's invariant: a spawned id is tracked once.
    pub closed spec fn wf(&self) -> bool {
        self.spawned().no_duplicates()
    }

    /// A scaler with nothing spawned and the initial backoff.
    pub fn new(config: WorkerScalingConfig, socket_path: String) -> (s: Self)
        ensures
            s.wf(),
            s.spec_config() == config,
            s.spawned() == Seq::<Seq<char>>::empty(),
            s.last_attempt() is None,
            s.backoff() == config.spawn_backoff_initial,
            s.spec_socket_path() == socket_path@,
    {
        let initial = config.spawn_backoff_initial;
        let s = WorkerScaler {
            config,
            spawned_workers: Vec::new(),
            last_spawn_attempt_ms: None,
            current_spawn_backoff_secs: initial,
            socket_path,
        };
        assert(s.spawned() =~= Seq::<Seq<char>>::empty());
        s
    }

    /// Whether dynamic scaling is on.
    pub fn is_enabled(&self) -> (r: bool)
        ensures
            r == self.spec_config().enabled,
    {
        self.config.enabled
    }

    /// The socket path that spawned workers connect to.
    pub fn socket_path(&self) -> (r: &str)
        ensures
            r@ == self.spec_socket_path(),
    {
        self.socket_path.as_str()
    }

    /// The current spawn backoff, in seconds.
    pub fn current_backoff_secs(&self) -> (r: u64)
        ensures
            r == self.backoff(),
    {
        self.current_spawn_backoff_secs
    }

    /// The number of workers to aim for with `queue_size` queued tasks and
    /// `current_workers` running.
    pub fn calculate_target_workers(&self, queue_size: usize, current_workers: usize) -> (r: usize)
        requires
            self.spec_config().target_queue_size_per_worker > 0,
        ensures
            r == target_workers(self.spec_config(), queue_size as int, current_workers as int),
            r <= self.spec_config().max_workers,
            r >= self.spec_config().min_workers || r == self.spec_config().max_workers,
            r >= current_workers + 1 || r == self.spec_config().max_workers,
            r * self.spec_config().target_queue_size_per_worker >= queue_size || r == self.spec_config().max_workers,
            r == self.spec_config().max_workers || r == self.spec_config().min_workers || r == current_workers + 1
                || (r * self.spec_config().target_queue_size_per_worker >= queue_size
                    && (r - 1) * self.spec_config().target_queue_size_per_worker < queue_size),
    {
        let per = self.config.target_queue_size_per_worker;
        let rem = queue_size % per;
        let quot = queue_size / per;
        proof { lemma_ceil_div(queue_size as int, per as int); }
        let from_queue = quot + if rem == 0 { 0 } else { 1 };
        proof { lemma_ceil_covers(queue_size as int, per as int); }
        let grown = current_workers.saturating_add(1);
        let at_least = if grown >= from_queue { grown } else { from_queue };
        let target = if self.config.min_workers >= at_least { self.config.min_workers } else { at_least };
        let r = if target <= self.config.max_workers { target } else { self.config.max_workers };
        proof {
            let c = from_queue as int;
            if r != self.config.max_workers {
                assert(r >= c);
                assert(r * per >= c * per) by (nonlinear_arith) requires r >= c, per > 0;
            }
        }
        r
    }

    /// The first `limit` idle workers that have been idle for at least
    /// `timeout` seconds at `now_secs`, in registration order.
    fn find_excess_idle_workers(registry: &WorkerRegistry, now_secs: u64, timeout: u64, limit: usize) -> (r: Vec<String>)
        requires
            registry.wf(),
        ensures
            r@.map_values(|s: String| s@) == excess_idle(registry.infos(), registry.infos().len() as int, now_secs, timeout, limit as int),
    {
        let n = registry.count();
        proof { registry.lemma_ids_infos_len(); }
        let mut excess: Vec<String> = Vec::new();
        let mut i: usize = 0;
        while i < n
            invariant
                n == registry.infos().len(),
                i <= n,
                excess@.map_values(|s: String| s@) == excess_idle(registry.infos(), i as int, now_secs, timeout, limit as int),
            decreases n - i,
        {
            let w = registry.info_at(i);
            proof { lemma_excess_idle_len(registry.infos(), i as int, now_secs, timeout, limit as int); }
            let idle_for: u64 = if now_secs >= w.last_seen { now_secs - w.last_seen } else { 0 };
            if excess.len() < limit && w.state == WorkerState::Idle && idle_for >= timeout {
                let id = w.worker_id.clone();
                let ghost before = excess@;
                excess.push(id);
                assert(excess@.map_values(|s: String| s@) =~= before.map_values(|s: String| s@).push(w.worker_id@));
            }
            i += 1;
        }
        excess
    }

    /// The scaling decision at `now_ms` (Unix milliseconds) for `queue_size`
    /// queued tasks, the workers in `registry` and the orchestrator's
    /// `max_workers`.
    pub fn should_scale_at(&self, queue_size: usize, registry: &WorkerRegistry, max_workers: usize, now_ms: u64) -> (r: ScalingAction)
        requires
            registry.wf(),
            growth_considered(self.spec_config(), queue_size as int, registry.infos(), max_workers as int)
                ==> self.spec_config().target_queue_size_per_worker > 0,
        ensures
            r@ == decision(
                self.spec_config(),
                self.last_attempt(),
                self.backoff(),
                queue_size as int,
                registry.infos(),
                max_workers as int,
                now_ms,
            ),
            r is ScaleUp ==> r->count > 0,
            r is ScaleDown ==> r->worker_ids@.len() > 0,
            !self.spec_config().enabled ==> r is NoChange,
    {
        if !self.config.enabled {
            return ScalingAction::NoChange;
        }
        let ghost infos = registry.infos();
        proof {
            registry.lemma_ids_infos_len();
            lemma_filter_len_bound(infos, WorkerState::Idle);
            lemma_filter_len_bound(infos, WorkerState::Working);
        }
        let current = registry.count();
        let idle_list = registry.idle_workers();
        let idle = idle_list.len();
        let working_list = registry.working_workers();
        let working = working_list.len();
        assert(idle_list@.map_values(|w: &WorkerInfo| *w).len() == idle_list@.len());
        assert(working_list@.map_values(|w: &WorkerInfo| *w).len() == working_list@.len());
        let effective = if self.config.max_workers <= max_workers { self.config.max_workers } else { max_workers };
        if queue_size > 0 && working < effective {
            let target = self.calculate_target_workers(queue_size, current);
            if target > current && target <= effective {
                if let Some(last) = self.last_spawn_attempt_ms {
                    let elapsed = now_ms.saturating_sub(last);
                    let backoff = self.current_spawn_backoff_secs;
                    assert(elapsed < backoff * 1000 <==> elapsed / 1000 < backoff) by (nonlinear_arith)
                        requires elapsed >= 0, backoff >= 0;
                    if elapsed / 1000 < backoff {
                        return ScalingAction::NoChange;
                    }
                }
                return ScalingAction::ScaleUp { count: target - current };
            }
        }
        if idle > 0 && current > self.config.min_workers {
            let excess = Self::find_excess_idle_workers(
                registry,
                now_ms / 1000,
                self.config.idle_shutdown_timeout,
                current - self.config.min_workers,
            );
            if excess.len() > 0 {
                return ScalingAction::ScaleDown { worker_ids: excess };
            }
            assert(excess@.map_values(|s: String| s@) =~= Seq::<Seq<char>>::empty());
        }
        ScalingAction::NoChange
    }

    /// The scaling decision now, reading the system clock.
    pub fn should_scale(&self, queue_size: usize, registry: &WorkerRegistry, max_workers: usize) -> (r: ScalingAction)
        requires
            registry.wf(),
            growth_considered(self.spec_config(), queue_size as int, registry.infos(), max_workers as int)
                ==> self.spec_config().target_queue_size_per_worker > 0,
        ensures
            exists|now_ms: u64| r@ == decision(
                self.spec_config(),
                self.last_attempt(),
                self.backoff(),
                queue_size as int,
                registry.infos(),
                max_workers as int,
                now_ms,
            ),
            r is ScaleUp ==> r->count > 0,
            r is ScaleDown ==> r->worker_ids@.len() > 0,
            !self.spec_config().enabled ==> r is NoChange,
    {
        let now = get_timestamp();
        self.should_scale_at(queue_size, registry, max_workers, now)
    }

    /// Starts tracking a worker process that was spawned under `worker_id`.
    pub fn record_spawned(&mut self, worker_id: String)
        requires
            old(self).wf(),
        ensures
            final(self).wf(),
            final(self).spawned() == if old(self).spawned().contains(worker_id@) {
                old(self).spawned()
            } else {
                old(self).spawned().push(worker_id@)
            },
            final(self).spec_config() == old(self).spec_config(),
            final(self).last_attempt() == old(self).last_attempt(),
            final(self).backoff() == old(self).backoff(),
            final(self).spec_socket_path() == old(self).spec_socket_path(),
    {
        let mut i: usize = 0;
        while i < self.spawned_workers.len()
            invariant
                *self == *old(self),
                self.wf(),
                i <= self.spawned_workers.len(),
                forall|j: int| 0 <= j < i ==> self.spawned()[j] != worker_id@,
            decreases self.spawned_workers.len() - i,
        {
            if crate::text::str_eq(self.spawned_workers[i].as_str(), worker_id.as_str()) {
                assert(self.spawned()[i as int] == worker_id@);
                return;
            }
            i += 1;
        }
        let ghost before = self.spawned();
        self.spawned_workers.push(worker_id);
        assert(self.spawned() =~= before.push(worker_id@));
        assert(!before.contains(worker_id@));
    }

    /// Stops tracking `worker_id`; says whether this scaler had spawned it.
    pub fn release_spawned(&mut self, worker_id: &str) -> (was_spawned: bool)
        requires
            old(self).wf(),
        ensures
            final(self).wf(),
            was_spawned == old(self).spawned().contains(worker_id@),
            final(self).spawned() == old(self).spawned().filter(other_than(worker_id@)),
            final(self).spec_config() == old(self).spec_config(),
            final(self).last_attempt() == old(self).last_attempt(),
            final(self).backoff() == old(self).backoff(),
            final(self).spec_socket_path() == old(self).spec_socket_path(),
    {
        let ghost before = self.spawned();
        let ghost keep = other_than(worker_id@);
        let mut i: usize = 0;
        while i < self.spawned_workers.len()
            invariant
                *self == *old(self),
                self.spawned() == before,
                before.no_duplicates(),
                i <= self.spawned_workers.len(),
                forall|j: int| 0 <= j < i ==> self.spawned()[j] != worker_id@,
            decreases self.spawned_workers.len() - i,
        {
            if crate::text::str_eq(self.spawned_workers[i].as_str(), worker_id) {
                self.spawned_workers.remove(i);
                proof {
                    let k = i as int;
                    assert(self.spawned() =~= before.remove(k));
                    assert(before[k] == worker_id@);
                    lemma_filter_drops_one(before, k, worker_id@);
                    assert(before.contains(worker_id@)) by { assert(before[k] == worker_id@); }
                    assert(self.spawned().no_duplicates()) by {
                        assert forall|a: int, b: int| 0 <= a < b < self.spawned().len() implies self.spawned()[a] != self.spawned()[b] by {
                            let a0 = if a < k { a } else { a + 1 };
                            let b0 = if b < k { b } else { b + 1 };
                            assert(before[a0] != before[b0]);
                        }
                    }
                }
                return true;
            }
            i += 1;
        }
        proof {
            assert(!before.contains(worker_id@));
            assert(before.filter(keep) =~= before) by {
                lemma_filter_keeps_all(before, worker_id@);
            }
        }
        false
    }

    /// The number of spawned workers being tracked.
    pub fn spawned_count(&self) -> (n: usize)
        ensures
            n == self.spawned().len(),
    {
        self.spawned_workers.len()
    }

    /// After a failed spawn: the backoff becomes `scaled_secs` (the current
    /// backoff times the multiplier), capped at the configured maximum.
    pub fn increase_backoff_to(&mut self, scaled_secs: u64)
        ensures
            final(self).backoff() == if scaled_secs <= old(self).spec_config().spawn_backoff_max {
                scaled_secs
            } else {
                old(self).spec_config().spawn_backoff_max
            },
            final(self).spec_config() == old(self).spec_config(),
            final(self).spawned() == old(self).spawned(),
            final(self).last_attempt() == old(self).last_attempt(),
            final(self).spec_socket_path() == old(self).spec_socket_path(),
    {
        let max = self.config.spawn_backoff_max;
        self.current_spawn_backoff_secs = if scaled_secs <= max { scaled_secs } else { max };
    }

    /// Puts the backoff back to its initial value.
    pub fn reset_backoff(&mut self)
        ensures
            final(self).backoff() == old(self).spec_config().spawn_backoff_initial,
            final(self).spec_config() == old(self).spec_config(),
            final(self).spawned() == old(self).spawned(),
            final(self).last_attempt() == old(self).last_attempt(),
            final(self).spec_socket_path() == old(self).spec_socket_path(),
    {
        self.current_spawn_backoff_secs = self.config.spawn_backoff_initial;
    }

    /// Closes a spawn round at `now_ms` in which `spawned` workers started:
    /// the round's time is remembered, and a round that started any worker
    /// resets the backoff.
    pub fn finish_spawn_round_at(&mut self, spawned: usize, now_ms: u64)
        ensures
            final(self).last_attempt() == Some(now_ms),
            final(self).backoff() == if spawned > 0 {
                old(self).spec_config().spawn_backoff_initial
            } else {
                old(self).backoff()
            },
            final(self).spec_config() == old(self).spec_config(),
            final(self).spawned() == old(self).spawned(),
            final(self).spec_socket_path() == old(self).spec_socket_path(),
    {
        self.last_spawn_attempt_ms = Some(now_ms);
        if spawned > 0 {
            self.reset_backoff();
        }
    }

    /// Closes a spawn round now, reading the system clock.
    pub fn finish_spawn_round(&mut self, spawned: usize)
        ensures
            final(self).last_attempt() is Some,
            final(self).backoff() == if spawned > 0 {
                old(self).spec_config().spawn_backoff_initial
            } else {
                old(self).backoff()
            },
            final(self).spec_config() == old(self).spec_config(),
            final(self).spawned() == old(self).spawned(),
            final(self).spec_socket_path() == old(self).spec_socket_path(),
    {
        let now = get_timestamp();
        self.finish_spawn_round_at(spawned, now);
    }
}

/// Rounding a quotient up, computed without overflow.
/// The rounded-up quotient `c` of `q` by `p` covers `q`, and one less does not.
proof fn lemma_ceil_covers(q: int, p: int)
    requires
        p > 0,
        q >= 0,
    ensures
        ({
            let c = q / p + if q % p == 0 { 0int } else { 1int };
            c * p >= q && (c - 1) * p < q || q == 0 && c == 0
        }),
{
    vstd::arithmetic::div_mod::lemma_fundamental_div_mod(q, p);
    let d = q / p;
    let m = q % p;
    assert(0 <= m < p);
    if m == 0 {
        if q > 0 {
            assert((d - 1) * p < q) by (nonlinear_arith) requires q == p * d, p > 0;
        } else {
            assert(d == 0) by (nonlinear_arith) requires 0 == p * d, p > 0;
        }
        assert(d * p >= q) by (nonlinear_arith) requires q == p * d;
    } else {
        assert((d + 1) * p >= q) by (nonlinear_arith) requires q == p * d + m, m < p;
        assert(d * p < q) by (nonlinear_arith) requires q == p * d + m, m > 0;
    }
}

proof fn lemma_ceil_div(q: int, p: int)
    requires
        p > 0,
        q >= 0,
    ensures
        (q + p - 1) / p == q / p + if q % p == 0 { 0int } else { 1int },
        q % p != 0 ==> q / p < q,
        q / p <= q,
{
    vstd::arithmetic::div_mod::lemma_fundamental_div_mod(q, p);
    let d = q / p;
    let m = q % p;
    assert(0 <= m < p);
    assert(d >= 0) by (nonlinear_arith) requires q == p * d + m, 0 <= m < p, p > 0, q >= 0;
    assert(d <= q) by (nonlinear_arith) requires q == p * d + m, 0 <= m, p > 0, d >= 0;
    if m == 0 {
        assert(q + p - 1 == d * p + (p - 1)) by (nonlinear_arith) requires q == p * d + m, m == 0;
        vstd::arithmetic::div_mod::lemma_fundamental_div_mod_converse(q + p - 1, p, d, p - 1);
    } else {
        assert(q + p - 1 == (d + 1) * p + (m - 1)) by (nonlinear_arith) requires q == p * d + m;
        vstd::arithmetic::div_mod::lemma_fundamental_div_mod_converse(q + p - 1, p, d + 1, m - 1);
        assert(d < q) by (nonlinear_arith) requires q == p * d + m, 0 < m, p > 0, d >= 0;
    }
}

/// A scale-up never takes the workers beyond the scaler's maximum nor the
/// orchestrator's.
pub proof fn lemma_scale_up_within_max(
    cfg: WorkerScalingConfig,
    last_attempt_ms: Option<u64>,
    backoff_secs: u64,
    queue_size: int,
    infos: Seq<WorkerInfo>,
    max_workers: int,
    now_ms: u64,
)
    ensures
        infos.len() + decision(cfg, last_attempt_ms, backoff_secs, queue_size, infos, max_workers, now_ms).0
            <= if decision(cfg, last_attempt_ms, backoff_secs, queue_size, infos, max_workers, now_ms).0 > 0 {
                effective_max(cfg, max_workers)
            } else {
                infos.len() as int
            },
{
}

/// A scale-up brings the workers up to the configured minimum and to enough
/// workers for the queue, unless the configured maximum caps them.
pub proof fn lemma_scale_up_reaches_min(
    cfg: WorkerScalingConfig,
    last_attempt_ms: Option<u64>,
    backoff_secs: u64,
    queue_size: int,
    infos: Seq<WorkerInfo>,
    max_workers: int,
    now_ms: u64,
)
    requires
        cfg.target_queue_size_per_worker > 0,
        queue_size >= 0,
        decision(cfg, last_attempt_ms, backoff_secs, queue_size, infos, max_workers, now_ms).0 > 0,
    ensures
        ({
            let after = infos.len() + decision(cfg, last_attempt_ms, backoff_secs, queue_size, infos, max_workers, now_ms).0;
            &&& after >= cfg.min_workers || after == cfg.max_workers
            &&& after * cfg.target_queue_size_per_worker >= queue_size || after == cfg.max_workers
        }),
{
    let per = cfg.target_queue_size_per_worker as int;
    lemma_ceil_div(queue_size, per);
    lemma_ceil_covers(queue_size, per);
    let c = workers_for_queue(queue_size, per);
    let target = target_workers(cfg, queue_size, infos.len() as int);
    if target != cfg.max_workers {
        assert(target >= c);
        assert(target * per >= c * per) by (nonlinear_arith) requires target >= c, per > 0;
    }
}

/// A scale-down only stops idle workers that have been idle for at least the
/// timeout, and never leaves fewer workers than the minimum; a decision never
/// both spawns and stops.
pub proof fn lemma_scale_down_keeps_min(
    cfg: WorkerScalingConfig,
    last_attempt_ms: Option<u64>,
    backoff_secs: u64,
    queue_size: int,
    infos: Seq<WorkerInfo>,
    max_workers: int,
    now_ms: u64,
)
    ensures
        ({
            let d = decision(cfg, last_attempt_ms, backoff_secs, queue_size, infos, max_workers, now_ms);
            &&& d.1.len() > 0 ==> d.0 == 0
            &&& d.1.len() > 0 ==> infos.len() - d.1.len() >= cfg.min_workers
            &&& forall|j: int| 0 <= j < d.1.len() ==> exists|i: int| 0 <= i < infos.len()
                && #[trigger] d.1[j] == infos[i].worker_id@
                && infos[i].state == WorkerState::Idle
                && idle_secs(infos[i], now_ms / 1000) >= cfg.idle_shutdown_timeout
        }),
{
    let d = decision(cfg, last_attempt_ms, backoff_secs, queue_size, infos, max_workers, now_ms);
    let n = infos.len() as int;
    if d.1.len() > 0 {
        lemma_excess_idle_len(infos, n, now_ms / 1000, cfg.idle_shutdown_timeout, n - cfg.min_workers);
    }
    assert forall|j: int| 0 <= j < d.1.len() implies exists|i: int| 0 <= i < infos.len()
        && #[trigger] d.1[j] == infos[i].worker_id@
        && infos[i].state == WorkerState::Idle
        && idle_secs(infos[i], now_ms / 1000) >= cfg.idle_shutdown_timeout by {
        lemma_excess_idle_members(infos, n, now_ms / 1000, cfg.idle_shutdown_timeout, n - cfg.min_workers, j);
    }
}

proof fn lemma_excess_idle_members(infos: Seq<WorkerInfo>, n: int, now_secs: u64, timeout: u64, limit: int, j: int)
    requires
        0 <= n <= infos.len(),
        0 <= j < excess_idle(infos, n, now_secs, timeout, limit).len(),
    ensures
        exists|i: int| 0 <= i < n
            && #[trigger] excess_idle(infos, n, now_secs, timeout, limit)[j] == infos[i].worker_id@
            && infos[i].state == WorkerState::Idle
            && idle_secs(infos[i], now_secs) >= timeout,
    decreases n,
{
    let prev = excess_idle(infos, n - 1, now_secs, timeout, limit);
    let w = infos[n - 1];
    if j < prev.len() {
        lemma_excess_idle_members(infos, n - 1, now_secs, timeout, limit, j);
        let i = choose|i: int| 0 <= i < n - 1
            && #[trigger] prev[j] == infos[i].worker_id@
            && infos[i].state == WorkerState::Idle
            && idle_secs(infos[i], now_secs) >= timeout;
        assert(excess_idle(infos, n, now_secs, timeout, limit)[j] == prev[j]);
    } else {
        assert(excess_idle(infos, n, now_secs, timeout, limit)[j] == infos[n - 1].worker_id@);
    }
}

/// The predicate "differs from `x`".
pub open spec fn other_than(x: Seq<char>) -> spec_fn(Seq<char>) -> bool {
    |e: Seq<char>| e != x
}

proof fn lemma_filter_drops_one(s: Seq<Seq<char>>, k: int, x: Seq<char>)
    requires
        0 <= k < s.len(),
        s[k] == x,
        s.no_duplicates(),
    ensures
        s.filter(other_than(x)) == s.remove(k),
    decreases s.len(),
{
    reveal(Seq::filter);
    if k == s.len() - 1 {
        assert(s.drop_last() =~= s.remove(k));
        lemma_filter_keeps_all(s.drop_last(), x);
    } else {
        let t = s.drop_last();
        assert(t.no_duplicates());
        lemma_filter_drops_one(t, k, x);
        assert(s.last() != x);
        assert(s.remove(k) =~= t.remove(k).push(s.last()));
    }
}

proof fn lemma_filter_keeps_all(s: Seq<Seq<char>>, x: Seq<char>)
    requires
        !s.contains(x),
    ensures
        s.filter(other_than(x)) == s,
    decreases s.len(),
{
    reveal(Seq::filter);
    if s.len() > 0 {
        let t = s.drop_last();
        assert(!t.contains(x)) by {
            if t.contains(x) {
                let j = choose|j: int| 0 <= j < t.len() && t[j] == x;
                assert(s[j] == x);
            }
        }
        lemma_filter_keeps_all(t, x);
        assert(s.last() != x) by { assert(s[s.len() - 1] == s.last()); }
        assert(t.push(s.last()) =~= s);
    }
}

} // verus!
