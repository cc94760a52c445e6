//! Metrics of the worker system: per-worker and system-wide task counts and
//! durations, the task history, error tracking, where metrics are kept on
//! disk, and their human-readable report.
//!
//! Fractional figures (rates, averages) are kept as exact fractions; times are
//! whole seconds since the Unix epoch unless a name says otherwise.

use vstd::prelude::*;
use crate::text::{decimal, fixed_text, path_join, path_join_exec, push_char, push_decimal, push_fixed, push_str, str_eq, FIXED_LIMIT};
use crate::types::unix_seconds;
use crate::ranking::{first_best, ranked, lemma_first_best_range, lemma_ranked_step, lemma_ranked_members};

verus! {

/// Task records kept in memory before the oldest are dropped.
pub const MAX_TASK_HISTORY: usize = 1000;

/// Task records dropped at once when the history is full.
pub const TASK_HISTORY_TRIM: usize = 100;

/// Error records kept before the oldest are dropped.
pub const MAX_RECENT_ERRORS: usize = 100;

/// Error records dropped at once when the list is full.
pub const RECENT_ERRORS_TRIM: usize = 10;

/// Entries shown in each list of the detailed report.
pub const REPORT_LIST_LEN: usize = 5;

/// A non-negative fraction `numerator / denominator`.
#[derive(Debug, Clone, Copy, PartialEq, Eq, Structural)]
pub struct Ratio {
    /// The numerator.
    pub numerator: u128,
    /// The denominator (positive).
    pub denominator: u128,
}

impl Ratio {
    /// A usable fraction: positive denominator, both parts below `FIXED_LIMIT`.
    pub open spec fn wf(self) -> bool {
        0 < self.denominator < FIXED_LIMIT && self.numerator < FIXED_LIMIT
    }

    /// Zero.
    pub fn zero() -> (r: Ratio)
        ensures
            r == (Ratio { numerator: 0, denominator: 1 }),
            r.wf(),
    {
        Ratio { numerator: 0, denominator: 1 }
    }
}

/// Whether `r` is a usable fraction.
fn ratio_usable(r: &Ratio) -> (b: bool)
    ensures
        b == r.wf(),
{
    0 < r.denominator && r.denominator < FIXED_LIMIT && r.numerator < FIXED_LIMIT
}

/// Whether no two of `names` are equal.
fn all_distinct(names: &Vec<String>) -> (r: bool)
    ensures
        r == names@.map_values(|s: String| s@).no_duplicates(),
{
    let ghost v = names@.map_values(|s: String| s@);
    let mut i: usize = 0;
    while i < names.len()
        invariant
            i <= names@.len(),
            v == names@.map_values(|s: String| s@),
            forall|a: int, b: int| 0 <= a < i && 0 <= b < i && a != b ==> v[a] != v[b],
        decreases names.len() - i,
    {
        let mut j: usize = 0;
        while j < i
            invariant
                i < names@.len(),
                j <= i,
                v == names@.map_values(|s: String| s@),
                forall|b: int| 0 <= b < j ==> v[i as int] != v[b],
            decreases i - j,
        {
            if str_eq(names[i].as_str(), names[j].as_str()) {
                assert(v[i as int] == v[j as int]);
                return false;
            }
            j += 1;
        }
        i += 1;
    }
    true
}

/// `a / b`, or zero when `b` is zero.
pub open spec fn ratio_of(a: int, b: int) -> Ratio {
    if b > 0 {
        Ratio { numerator: a as u128, denominator: b as u128 }
    } else {
        Ratio { numerator: 0, denominator: 1 }
    }
}

/// `a / b`, or zero when `b` is zero.
pub fn make_ratio(a: u64, b: u64) -> (r: Ratio)
    ensures
        r == ratio_of(a as int, b as int),
        r.wf(),
{
    if b > 0 {
        Ratio { numerator: a as u128, denominator: b as u128 }
    } else {
        Ratio::zero()
    }
}

/// System-wide figures.
#[derive(Debug, Clone, Copy, PartialEq, Eq, Structural)]
pub struct SystemMetrics {
    /// Tasks completed by all workers.
    pub total_tasks_completed: u64,
    /// Tasks failed by all workers.
    pub total_tasks_failed: u64,
    /// Tasks running now.
    pub total_tasks_in_progress: u64,
    /// Mean duration of the recorded tasks, in milliseconds.
    pub avg_task_duration_ms: Ratio,
    /// Median duration of the recorded tasks, in milliseconds.
    pub median_task_duration_ms: Ratio,
    /// Seconds since the system started.
    pub uptime_seconds: u64,
    /// Tasks (completed and failed) per hour of uptime.
    pub tasks_per_hour: Ratio,
    /// The most tasks that ran at once.
    pub peak_concurrent_tasks: u64,
}

impl SystemMetrics {
    /// All fractions are usable.
    pub open spec fn wf(self) -> bool {
        self.avg_task_duration_ms.wf() && self.median_task_duration_ms.wf() && self.tasks_per_hour.wf()
    }

    /// Share of finished tasks that succeeded (zero before any finished).
    pub open spec fn spec_success_rate(self) -> Ratio {
        ratio_of(self.total_tasks_completed as int, self.total_tasks_completed + self.total_tasks_failed)
    }

    /// Share of finished tasks that succeeded (zero before any finished).
    pub fn success_rate(&self) -> (r: Ratio)
        requires
            self.total_tasks_completed + self.total_tasks_failed <= u64::MAX,
        ensures
            r == self.spec_success_rate(),
    {
        make_ratio(self.total_tasks_completed, self.total_tasks_completed + self.total_tasks_failed)
    }
}

/// The system figures before anything happened: all zero.
pub open spec fn zero_system() -> SystemMetrics {
    SystemMetrics {
        total_tasks_completed: 0,
        total_tasks_failed: 0,
        total_tasks_in_progress: 0,
        avg_task_duration_ms: Ratio { numerator: 0, denominator: 1 },
        median_task_duration_ms: Ratio { numerator: 0, denominator: 1 },
        uptime_seconds: 0,
        tasks_per_hour: Ratio { numerator: 0, denominator: 1 },
        peak_concurrent_tasks: 0,
    }
}

impl Default for SystemMetrics {
    fn default() -> (m: Self)
        ensures
            m == zero_system(),
    {
        SystemMetrics {
            total_tasks_completed: 0,
            total_tasks_failed: 0,
            total_tasks_in_progress: 0,
            avg_task_duration_ms: Ratio::zero(),
            median_task_duration_ms: Ratio::zero(),
            uptime_seconds: 0,
            tasks_per_hour: Ratio::zero(),
            peak_concurrent_tasks: 0,
        }
    }
}

/// Per-worker figures.
#[derive(Debug, Clone, PartialEq, Eq)]
pub struct WorkerPerformanceMetrics {
    /// Worker id.
    pub worker_id: String,
    /// Tasks completed by this worker.
    pub tasks_completed: u64,
    /// Tasks failed by this worker.
    pub tasks_failed: u64,
    /// Shortest completed task, in milliseconds (0 before the first).
    pub min_duration_ms: u64,
    /// Longest completed task, in milliseconds.
    pub max_duration_ms: u64,
    /// Time spent on tasks, in milliseconds.
    pub total_work_time_ms: u64,
    /// Time spent idle, in milliseconds.
    pub total_idle_time_ms: u64,
    /// Work time counted when the efficiency was last measured, in milliseconds.
    pub efficiency_work_ms: u64,
    /// Time since registration when the efficiency was last measured, in
    /// milliseconds (0 while it has not been measured).
    pub efficiency_span_ms: u64,
    /// When the worker last finished a task.
    pub last_task_timestamp: Option<u64>,
    /// When the worker was registered.
    pub registered_at: u64,
}

impl WorkerPerformanceMetrics {
    /// Tasks finished (completed and failed).
    pub open spec fn spec_total_tasks(&self) -> int {
        self.tasks_completed + self.tasks_failed
    }

    /// Share of finished tasks that succeeded (zero before any finished).
    pub open spec fn spec_success_rate(&self) -> Ratio {
        ratio_of(self.tasks_completed as int, self.spec_total_tasks())
    }

    /// Mean time per finished task, in milliseconds (zero before any finished).
    pub open spec fn spec_avg_duration(&self) -> Ratio {
        ratio_of(self.total_work_time_ms as int, self.spec_total_tasks())
    }

    /// Work time over time since registration, as last measured.
    pub open spec fn spec_efficiency(&self) -> Ratio {
        ratio_of(self.efficiency_work_ms as int, self.efficiency_span_ms as int)
    }

    /// Share of finished tasks that succeeded (zero before any finished).
    pub fn success_rate(&self) -> (r: Ratio)
        requires
            self.spec_total_tasks() <= u64::MAX,
        ensures
            r == self.spec_success_rate(),
            r.wf(),
    {
        make_ratio(self.tasks_completed, self.tasks_completed + self.tasks_failed)
    }

    /// Mean time per finished task, in milliseconds.
    pub fn avg_duration_ms(&self) -> (r: Ratio)
        requires
            self.spec_total_tasks() <= u64::MAX,
        ensures
            r == self.spec_avg_duration(),
            r.wf(),
    {
        make_ratio(self.total_work_time_ms, self.tasks_completed + self.tasks_failed)
    }

    /// Work time over time since registration, as last measured.
    pub fn efficiency(&self) -> (r: Ratio)
        ensures
            r == self.spec_efficiency(),
            r.wf(),
    {
        make_ratio(self.efficiency_work_ms, self.efficiency_span_ms)
    }
}

/// `w` holds the figures of a worker `worker_id` registered at `now`: all zero.
pub open spec fn is_fresh_worker(w: WorkerPerformanceMetrics, worker_id: Seq<char>, now: u64) -> bool {
    &&& w.worker_id@ == worker_id
    &&& w.tasks_completed == 0
    &&& w.tasks_failed == 0
    &&& w.min_duration_ms == 0
    &&& w.max_duration_ms == 0
    &&& w.total_work_time_ms == 0
    &&& w.total_idle_time_ms == 0
    &&& w.efficiency_work_ms == 0
    &&& w.efficiency_span_ms == 0
    &&& w.last_task_timestamp is None
    &&& w.registered_at == now
}

/// A finished task.
#[derive(Debug, Clone, PartialEq, Eq)]
pub struct TaskCompletionRecord {
    /// The task's issue id.
    pub issue_id: String,
    /// The worker that ran it.
    pub worker_id: String,
    /// Whether it succeeded.
    pub success: bool,
    /// How long it took, in milliseconds.
    pub duration_ms: u64,
    /// When it finished.
    pub completed_at: u64,
    /// The error, for a failed task.
    pub error: Option<String>,
    /// The task's priority, if known.
    pub priority: Option<u8>,
}

/// A recorded error.
#[derive(Debug, Clone, PartialEq, Eq)]
pub struct ErrorRecord {
    /// The error message.
    pub message: String,
    /// The error's category.
    pub error_type: String,
    /// The worker concerned, if any.
    pub worker_id: Option<String>,
    /// The task concerned, if any.
    pub issue_id: Option<String>,
    /// When it happened.
    pub timestamp: u64,
}

/// Error tracking.
#[derive(Debug, Clone, PartialEq, Eq)]
pub struct ErrorMetrics {
    /// Errors recorded in all.
    pub total_errors: u64,
    /// Errors per category, in the order the categories first appeared.
    pub errors_by_type: Vec<(String, u64)>,
    /// The latest errors, oldest first.
    pub recent_errors: Vec<ErrorRecord>,
}

impl ErrorMetrics {
    /// The categories, in order.
    pub open spec fn types(&self) -> Seq<Seq<char>> {
        self.errors_by_type@.map_values(|e: (String, u64)| e.0@)
    }

    /// Errors per category, as a map.
    pub open spec fn counts(&self) -> Map<Seq<char>, u64> {
        Map::new(
            |t: Seq<char>| self.types().contains(t),
            |t: Seq<char>| self.errors_by_type@[self.types().index_of(t)].1,
        )
    }

    /// Each category is listed once.
    pub open spec fn wf(&self) -> bool {
        self.types().no_duplicates()
    }
}

impl Default for ErrorMetrics {
    fn default() -> (m: Self)
        ensures
            m.total_errors == 0,
            m.errors_by_type@ == Seq::<(String, u64)>::empty(),
            m.recent_errors@ == Seq::<ErrorRecord>::empty(),
    {
        ErrorMetrics { total_errors: 0, errors_by_type: Vec::new(), recent_errors: Vec::new() }
    }
}

/// All metrics of the worker system.
#[derive(Debug, Clone)]
pub struct WorkerMetrics {
    /// System-wide figures.
    pub system: SystemMetrics,
    /// Per-worker figures, in registration order.
    pub workers: Vec<WorkerPerformanceMetrics>,
    /// The latest finished tasks, oldest first.
    pub task_history: Vec<TaskCompletionRecord>,
    /// Error tracking.
    pub errors: ErrorMetrics,
    /// When the metrics last changed.
    pub last_updated: u64,
}

/// The worker ids of per-worker figures, in order.
pub open spec fn ids_of(ws: Seq<WorkerPerformanceMetrics>) -> Seq<Seq<char>> {
    ws.map_values(|w: WorkerPerformanceMetrics| w.worker_id@)
}

impl WorkerMetrics {
    /// The registered worker ids, in order.
    pub open spec fn worker_ids(&self) -> Seq<Seq<char>> {
        ids_of(self.workers@)
    }

    /// Per-worker figures by worker id.
    pub open spec fn worker_map(&self) -> Map<Seq<char>, WorkerPerformanceMetrics> {
        Map::new(
            |id: Seq<char>| self.worker_ids().contains(id),
            |id: Seq<char>| self.workers@[self.worker_ids().index_of(id)],
        )
    }

    /// The metrics are consistent and the task history is within its bound.
    pub open spec fn wf(&self) -> bool {
        &&& self.reportable()
        &&& self.task_history@.len() <= MAX_TASK_HISTORY
    }

    /// Worker ids and error categories are listed once, fractions are usable and
    /// the totals fit: what the report needs.
    pub open spec fn reportable(&self) -> bool {
        &&& self.worker_ids().no_duplicates()
        &&& self.errors.wf()
        &&& self.system.wf()
        &&& forall|i: int| 0 <= i < self.workers@.len() ==> #[trigger] self.workers@[i].spec_total_tasks() <= u64::MAX
        &&& self.system.total_tasks_completed + self.system.total_tasks_failed <= u64::MAX
    }

    /// Empty metrics at `now`.
    pub fn new_at(now: u64) -> (m: Self)
        ensures
            m.wf(),
            m.system == zero_system(),
            m.workers@ == Seq::<WorkerPerformanceMetrics>::empty(),
            m.task_history@ == Seq::<TaskCompletionRecord>::empty(),
            m.errors.total_errors == 0,
            m.errors.errors_by_type@ == Seq::<(String, u64)>::empty(),
            m.errors.recent_errors@ == Seq::<ErrorRecord>::empty(),
            m.last_updated == now,
    {
        let m = WorkerMetrics {
            system: SystemMetrics::default(),
            workers: Vec::new(),
            task_history: Vec::new(),
            errors: ErrorMetrics::default(),
            last_updated: now,
        };
        assert(m.worker_ids() =~= Seq::<Seq<char>>::empty());
        assert(m.errors.types() =~= Seq::<Seq<char>>::empty());
        m
    }

    /// Empty metrics, stamped with the current time.
    pub fn new() -> (m: Self)
        ensures
            m.wf(),
            m.system == zero_system(),
            m.workers@ == Seq::<WorkerPerformanceMetrics>::empty(),
            m.task_history@ == Seq::<TaskCompletionRecord>::empty(),
            m.errors.total_errors == 0,
            m.errors.errors_by_type@ == Seq::<(String, u64)>::empty(),
            m.errors.recent_errors@ == Seq::<ErrorRecord>::empty(),
    {
        Self::new_at(unix_seconds())
    }

    /// Whether the metrics are consistent (`wf`): worker ids and error categories
    /// listed once, usable fractions, a bounded history and totals that fit.
    pub fn is_consistent(&self) -> (r: bool)
        ensures
            r == self.wf(),
    {
        self.is_reportable() && self.task_history.len() <= MAX_TASK_HISTORY
    }

    /// Whether the metrics can be reported (`reportable`): worker ids and error
    /// categories listed once, usable fractions and totals that fit.
    pub fn is_reportable(&self) -> (r: bool)
        ensures
            r == self.reportable(),
    {
        let mut ids: Vec<String> = Vec::new();
        let mut i: usize = 0;
        while i < self.workers.len()
            invariant
                i <= self.workers@.len(),
                ids@.len() == i,
                self.worker_ids().len() == self.workers@.len(),
                ids@.map_values(|s: String| s@) == self.worker_ids().take(i as int),
            decreases self.workers.len() - i,
        {
            let id = self.workers[i].worker_id.as_str().to_owned();
            let ghost prev = ids@;
            ids.push(id);
            proof {
                assert(ids@ == prev.push(id));
                assert(id@ == self.worker_ids()[i as int]);
                assert(ids@.map_values(|s: String| s@) =~= self.worker_ids().take(i as int + 1));
            }
            i += 1;
        }
        assert(self.worker_ids().take(i as int) =~= self.worker_ids());
        let mut types: Vec<String> = Vec::new();
        let mut k: usize = 0;
        while k < self.errors.errors_by_type.len()
            invariant
                k <= self.errors.errors_by_type@.len(),
                types@.len() == k,
                self.errors.types().len() == self.errors.errors_by_type@.len(),
                types@.map_values(|s: String| s@) == self.errors.types().take(k as int),
            decreases self.errors.errors_by_type.len() - k,
        {
            let t = self.errors.errors_by_type[k].0.as_str().to_owned();
            let ghost prev = types@;
            types.push(t);
            proof {
                assert(types@ == prev.push(t));
                assert(t@ == self.errors.types()[k as int]);
                assert(types@.map_values(|s: String| s@) =~= self.errors.types().take(k as int + 1));
            }
            k += 1;
        }
        assert(self.errors.types().take(k as int) =~= self.errors.types());
        let mut w: usize = 0;
        while w < self.workers.len()
            invariant
                w <= self.workers@.len(),
                forall|j: int| 0 <= j < w ==> #[trigger] self.workers@[j].spec_total_tasks() <= u64::MAX,
            decreases self.workers.len() - w,
        {
            if self.workers[w].tasks_completed > u64::MAX - self.workers[w].tasks_failed {
                assert(!(self.workers@[w as int].spec_total_tasks() <= u64::MAX));
                return false;
            }
            w += 1;
        }
        let s = &self.system;
        all_distinct(&ids) && all_distinct(&types) && ratio_usable(&s.avg_task_duration_ms)
            && ratio_usable(&s.median_task_duration_ms) && ratio_usable(&s.tasks_per_hour)
            && s.total_tasks_completed <= u64::MAX - s.total_tasks_failed
    }

    /// The position of `worker_id` among the registered workers.
    fn find_worker(&self, worker_id: &str) -> (r: Option<usize>)
        ensures
            match r {
                Some(i) => i < self.workers@.len() && self.worker_ids()[i as int] == worker_id@,
                None => !self.worker_ids().contains(worker_id@),
            },
    {
        let mut i: usize = 0;
        while i < self.workers.len()
            invariant
                i <= self.workers@.len(),
                forall|j: int| 0 <= j < i ==> self.worker_ids()[j] != worker_id@,
            decreases self.workers.len() - i,
        {
            if str_eq(self.workers[i].worker_id.as_str(), worker_id) {
                return Some(i);
            }
            i += 1;
        }
        None
    }

    /// The figures of `worker_id`, if it is registered.
    pub fn get_worker_metrics(&self, worker_id: &str) -> (r: Option<&WorkerPerformanceMetrics>)
        requires
            self.wf(),
        ensures
            match r {
                Some(w) => self.worker_map().contains_key(worker_id@) && *w == self.worker_map()[worker_id@],
                None => !self.worker_map().contains_key(worker_id@),
            },
    {
        match self.find_worker(worker_id) {
            Some(i) => {
                proof { lemma_index_of_distinct(self.worker_ids(), i as int); }
                Some(&self.workers[i])
            },
            None => None,
        }
    }

    /// Registers `worker_id` at `now` with all figures zero; a worker
    /// registered again starts over in its place.
    pub fn register_worker_at(&mut self, worker_id: String, now: u64)
        requires
            old(self).wf(),
        ensures
            final(self).wf(),
            final(self).worker_ids() == if old(self).worker_ids().contains(worker_id@) {
                old(self).worker_ids()
            } else {
                old(self).worker_ids().push(worker_id@)
            },
            final(self).worker_map().contains_key(worker_id@),
            is_fresh_worker(final(self).worker_map()[worker_id@], worker_id@, now),
            forall|id: Seq<char>| id != worker_id@ && #[trigger] old(self).worker_map().contains_key(id)
                ==> final(self).worker_map()[id] == old(self).worker_map()[id],
            final(self).system == old(self).system,
            final(self).task_history == old(self).task_history,
            final(self).errors == old(self).errors,
            final(self).last_updated == now,
    {
        let ghost id = worker_id@;
        let pos = self.find_worker(worker_id.as_str());
        let fresh = WorkerPerformanceMetrics {
            worker_id,
            tasks_completed: 0,
            tasks_failed: 0,
            min_duration_ms: 0,
            max_duration_ms: 0,
            total_work_time_ms: 0,
            total_idle_time_ms: 0,
            efficiency_work_ms: 0,
            efficiency_span_ms: 0,
            last_task_timestamp: None,
            registered_at: now,
        };
        let ghost before = self.workers@;
        match pos {
            Some(i) => {
                self.workers.set(i, fresh);
                proof {
                    assert(ids_of(self.workers@) =~= ids_of(before));
                    lemma_index_of_distinct(self.worker_ids(), i as int);
                    assert forall|k: Seq<char>| k != id && #[trigger] old(self).worker_map().contains_key(k)
                        implies self.worker_map()[k] == old(self).worker_map()[k] by {
                        let j = ids_of(before).index_of(k);
                        assert(ids_of(before)[j] == k);
                        lemma_index_of_distinct(self.worker_ids(), j);
                    }
                }
            },
            None => {
                self.workers.push(fresh);
                proof {
                    assert(ids_of(self.workers@) =~= ids_of(before).push(id));
                    let n = before.len() as int;
                    assert(self.worker_ids()[n] == id);
                    lemma_index_of_distinct(self.worker_ids(), n);
                    assert forall|k: Seq<char>| k != id && #[trigger] old(self).worker_map().contains_key(k)
                        implies self.worker_map()[k] == old(self).worker_map()[k] by {
                        let j = ids_of(before).index_of(k);
                        assert(ids_of(before)[j] == k);
                        assert(self.worker_ids()[j] == k);
                        lemma_index_of_distinct(self.worker_ids(), j);
                    }
                }
            },
        }
        self.last_updated = now;
    }

    /// Registers `worker_id` now.
    pub fn register_worker(&mut self, worker_id: String)
        requires
            old(self).wf(),
        ensures
            final(self).wf(),
            final(self).worker_map().contains_key(worker_id@),
            final(self).worker_map()[worker_id@].tasks_completed == 0,
            final(self).worker_map()[worker_id@].tasks_failed == 0,
            is_fresh_worker(final(self).worker_map()[worker_id@], worker_id@, final(self).last_updated),
            forall|id: Seq<char>| id != worker_id@ && #[trigger] old(self).worker_map().contains_key(id)
                ==> final(self).worker_map()[id] == old(self).worker_map()[id],
            final(self).worker_map().dom() == old(self).worker_map().dom().insert(worker_id@),
            final(self).worker_ids() == if old(self).worker_ids().contains(worker_id@) {
                old(self).worker_ids()
            } else {
                old(self).worker_ids().push(worker_id@)
            },
            final(self).system == old(self).system,
            final(self).task_history == old(self).task_history,
            final(self).errors == old(self).errors,
    {
        let now = unix_seconds();
        self.register_worker_at(worker_id, now);
        proof {
            let ids0 = old(self).worker_ids();
            assert forall|k: Seq<char>| #[trigger] self.worker_ids().contains(k) <==> (ids0.contains(k) || k == worker_id@) by {
                if !ids0.contains(worker_id@) {
                    if self.worker_ids().contains(k) {
                        let j = choose|j: int| 0 <= j < self.worker_ids().len() && self.worker_ids()[j] == k;
                        if j < ids0.len() {
                            assert(ids0[j] == k);
                        }
                    }
                    if ids0.contains(k) {
                        let j = choose|j: int| 0 <= j < ids0.len() && ids0[j] == k;
                        assert(self.worker_ids()[j] == k);
                    }
                    if k == worker_id@ {
                        assert(self.worker_ids()[ids0.len() as int] == k);
                    }
                }
            }
            assert(self.worker_map().dom() =~= old(self).worker_map().dom().insert(worker_id@));
        }
    }
}

// ============================================================================
// Recording tasks and errors
// ============================================================================

/// Drops the oldest `cut` entries once there are more than `max`.
pub open spec fn trimmed<T>(s: Seq<T>, max: int, cut: int) -> Seq<T> {
    if s.len() > max { s.subrange(cut, s.len() as int) } else { s }
}

/// The durations of recorded tasks, in order.
pub open spec fn durations_of(h: Seq<TaskCompletionRecord>) -> Seq<u64> {
    h.map_values(|t: TaskCompletionRecord| t.duration_ms)
}

/// The sum of the durations of recorded tasks.
pub open spec fn duration_sum(h: Seq<TaskCompletionRecord>) -> int
    decreases h.len(),
{
    if h.len() == 0 { 0 } else { duration_sum(h.drop_last()) + h.last().duration_ms }
}

/// In non-decreasing order.
pub open spec fn ascending(s: Seq<u64>) -> bool {
    forall|i: int, j: int| 0 <= i <= j < s.len() ==> s[i] <= s[j]
}

/// The durations of recorded tasks in non-decreasing order.
pub open spec fn sorted_durations(h: Seq<TaskCompletionRecord>) -> Seq<u64> {
    choose|s: Seq<u64>| ascending(s) && s.to_multiset() == durations_of(h).to_multiset()
}

/// The median of a sorted non-empty sequence: its middle element, or the
/// mean of the two middle elements.
pub open spec fn median_of_sorted(s: Seq<u64>) -> Ratio {
    let mid = (s.len() / 2) as int;
    if s.len() % 2 == 0 {
        Ratio { numerator: (s[mid - 1] + s[mid]) as u128, denominator: 2 }
    } else {
        Ratio { numerator: s[mid] as u128, denominator: 1 }
    }
}

/// The system figures recomputed from the task history: mean and median
/// duration over the history (kept when it is empty), and tasks per hour of
/// uptime (kept while the uptime is zero).
pub open spec fn recalculated(sys: SystemMetrics, h: Seq<TaskCompletionRecord>) -> SystemMetrics {
    let total = sys.total_tasks_completed + sys.total_tasks_failed;
    SystemMetrics {
        avg_task_duration_ms: if h.len() > 0 {
            Ratio { numerator: duration_sum(h) as u128, denominator: h.len() as u128 }
        } else {
            sys.avg_task_duration_ms
        },
        median_task_duration_ms: if h.len() > 0 { median_of_sorted(sorted_durations(h)) } else { sys.median_task_duration_ms },
        tasks_per_hour: if sys.uptime_seconds > 0 {
            Ratio { numerator: (total * 3600) as u128, denominator: sys.uptime_seconds as u128 }
        } else {
            sys.tasks_per_hour
        },
        ..sys
    }
}

/// Milliseconds between registration and `now`.
pub open spec fn span_ms(w: WorkerPerformanceMetrics, now: u64) -> int {
    (now - w.registered_at) * 1000
}

/// A worker's figures after a task of `duration` ms that finished at `now`
/// (`success` says whether it completed): counts, work time, last task time,
/// the shortest and longest completed task, and the efficiency measured at
/// `now` (kept if no time has passed since registration).
pub open spec fn after_task(w: WorkerPerformanceMetrics, success: bool, duration: u64, now: u64) -> WorkerPerformanceMetrics {
    let work = (w.total_work_time_ms + duration) as u64;
    WorkerPerformanceMetrics {
        tasks_completed: if success { (w.tasks_completed + 1) as u64 } else { w.tasks_completed },
        tasks_failed: if success { w.tasks_failed } else { (w.tasks_failed + 1) as u64 },
        total_work_time_ms: work,
        last_task_timestamp: Some(now),
        min_duration_ms: if success && (w.min_duration_ms == 0 || duration < w.min_duration_ms) {
            duration
        } else {
            w.min_duration_ms
        },
        max_duration_ms: if success && duration > w.max_duration_ms { duration } else { w.max_duration_ms },
        efficiency_work_ms: if span_ms(w, now) > 0 { work } else { w.efficiency_work_ms },
        efficiency_span_ms: if span_ms(w, now) > 0 { span_ms(w, now) as u64 } else { w.efficiency_span_ms },
        ..w
    }
}

/// Recording a task for `worker_id` at `now` stays within the counters' range,
/// and `now` is not before the worker's registration.
pub open spec fn task_fits(m: WorkerMetrics, worker_id: Seq<char>, success: bool, duration: u64, now: u64) -> bool {
    &&& m.system.total_tasks_completed + m.system.total_tasks_failed + 1 <= u64::MAX
    &&& m.worker_map().contains_key(worker_id) ==> {
        let w = m.worker_map()[worker_id];
        &&& w.tasks_completed + w.tasks_failed + 1 <= u64::MAX
        &&& w.total_work_time_ms + duration <= u64::MAX
        &&& now >= w.registered_at
        &&& span_ms(w, now) <= u64::MAX
    }
}

/// Per-worker figures after a task of `worker_id`: only that worker changes.
pub open spec fn workers_after_task(
    before: WorkerMetrics,
    after: WorkerMetrics,
    worker_id: Seq<char>,
    success: bool,
    duration: u64,
    now: u64,
) -> bool {
    &&& after.worker_ids() == before.worker_ids()
    &&& forall|id: Seq<char>| #[trigger] before.worker_map().contains_key(id) ==> after.worker_map()[id] == if id == worker_id {
        after_task(before.worker_map()[id], success, duration, now)
    } else {
        before.worker_map()[id]
    }
}

/// `r` records a task of `worker_id` on `issue_id`.
pub open spec fn is_task_record(
    r: TaskCompletionRecord,
    issue_id: Seq<char>,
    worker_id: Seq<char>,
    success: bool,
    duration: u64,
    now: u64,
    priority: Option<u8>,
) -> bool {
    &&& r.issue_id@ == issue_id
    &&& r.worker_id@ == worker_id
    &&& r.success == success
    &&& r.duration_ms == duration
    &&& r.completed_at == now
    &&& r.priority == priority
}

/// The history after a record: it is appended, and the oldest records are dropped
/// once there are more than `MAX_TASK_HISTORY`.
pub open spec fn history_after(before: Seq<TaskCompletionRecord>, after: Seq<TaskCompletionRecord>) -> bool {
    &&& after.len() > 0
    &&& after == trimmed(before.push(after.last()), MAX_TASK_HISTORY as int, TASK_HISTORY_TRIM as int)
}

/// Error counts after one more error of category `t`.
pub open spec fn counts_after(before: ErrorMetrics, after: ErrorMetrics, t: Seq<char>) -> bool {
    &&& after.types() == if before.types().contains(t) { before.types() } else { before.types().push(t) }
    &&& after.counts() == before.counts().insert(
        t,
        if before.counts().contains_key(t) { (before.counts()[t] + 1) as u64 } else { 1 },
    )
}

impl WorkerMetrics {
    /// Recomputes the system figures from the task history.
    fn recalculate_system_metrics(&mut self)
        requires
            old(self).wf(),
            old(self).system.total_tasks_completed + old(self).system.total_tasks_failed <= u64::MAX,
        ensures
            final(self).wf(),
            final(self).system == recalculated(old(self).system, old(self).task_history@),
            final(self).workers == old(self).workers,
            final(self).task_history == old(self).task_history,
            final(self).errors == old(self).errors,
            final(self).last_updated == old(self).last_updated,
    {
        let ghost h = self.task_history@;
        let total = self.system.total_tasks_completed + self.system.total_tasks_failed;
        let n = self.task_history.len();
        if n > 0 {
            let mut sum: u128 = 0;
            let mut durations: Vec<u64> = Vec::new();
            let mut i: usize = 0;
            while i < n
                invariant
                    n == h.len(),
                    h == self.task_history@,
                    n <= MAX_TASK_HISTORY,
                    i <= n,
                    sum == duration_sum(h.take(i as int)),
                    sum <= i * 0xFFFF_FFFF_FFFF_FFFF,
                    durations@ == durations_of(h.take(i as int)),
                decreases n - i,
            {
                let d = self.task_history[i].duration_ms;
                assert(h.take(i as int + 1).drop_last() =~= h.take(i as int));
                assert(durations_of(h.take(i as int + 1)) =~= durations_of(h.take(i as int)).push(d));
                sum = sum + d as u128;
                durations.push(d);
                i += 1;
            }
            assert(h.take(n as int) =~= h);
            self.system.avg_task_duration_ms = Ratio { numerator: sum, denominator: n as u128 };
            let ghost unsorted = durations@;
            sort_ascending(&mut durations);
            proof {
                broadcast use vstd::seq_lib::group_to_multiset_ensures;
                assert(durations@.len() == durations@.to_multiset().len());
                assert(unsorted.len() == unsorted.to_multiset().len());
                let w = sorted_durations(h);
                assert(ascending(durations@) && durations@.to_multiset() == durations_of(h).to_multiset());
                assert(ascending(w) && w.to_multiset() == durations_of(h).to_multiset());
                lemma_sorted_unique(durations@, w);
            }
            let mid = n / 2;
            self.system.median_task_duration_ms = if n % 2 == 0 {
                Ratio { numerator: durations[mid - 1] as u128 + durations[mid] as u128, denominator: 2 }
            } else {
                Ratio { numerator: durations[mid] as u128, denominator: 1 }
            };
        }
        if self.system.uptime_seconds > 0 {
            self.system.tasks_per_hour = Ratio {
                numerator: total as u128 * 3600,
                denominator: self.system.uptime_seconds as u128,
            };
        }
    }
}

impl WorkerMetrics {
    /// Updates the figures of `worker_id`, if registered, after a task.
    fn update_worker_after_task(&mut self, worker_id: &str, success: bool, duration_ms: u64, now: u64)
        requires
            old(self).wf(),
            task_fits(*old(self), worker_id@, success, duration_ms, now),
        ensures
            final(self).wf(),
            workers_after_task(*old(self), *final(self), worker_id@, success, duration_ms, now),
            final(self).system == old(self).system,
            final(self).task_history == old(self).task_history,
            final(self).errors == old(self).errors,
            final(self).last_updated == old(self).last_updated,
    {
        let ghost before = *self;
        match self.find_worker(worker_id) {
            Some(i) => {
                proof { lemma_index_of_distinct(self.worker_ids(), i as int); }
                let ghost w0 = self.workers@[i as int];
                let w = &mut self.workers[i];
                if success {
                    w.tasks_completed = w.tasks_completed + 1;
                    if w.min_duration_ms == 0 || duration_ms < w.min_duration_ms {
                        w.min_duration_ms = duration_ms;
                    }
                    if duration_ms > w.max_duration_ms {
                        w.max_duration_ms = duration_ms;
                    }
                } else {
                    w.tasks_failed = w.tasks_failed + 1;
                }
                w.total_work_time_ms = w.total_work_time_ms + duration_ms;
                w.last_task_timestamp = Some(now);
                let span = (now - w.registered_at) * 1000;
                if span > 0 {
                    w.efficiency_work_ms = w.total_work_time_ms;
                    w.efficiency_span_ms = span;
                }
                proof {
                    assert(self.workers@[i as int] == after_task(w0, success, duration_ms, now));
                    assert(ids_of(self.workers@) =~= ids_of(before.workers@));
                    assert forall|id: Seq<char>| #[trigger] before.worker_map().contains_key(id) implies self.worker_map()[id] == if id == worker_id@ {
                        after_task(before.worker_map()[id], success, duration_ms, now)
                    } else {
                        before.worker_map()[id]
                    } by {
                        let j = before.worker_ids().index_of(id);
                        assert(before.worker_ids()[j] == id);
                        lemma_index_of_distinct(before.worker_ids(), j);
                    }
                }
            },
            None => {},
        }
    }

    /// Records a task of `worker_id` on `issue_id` that completed at `now`
    /// after `duration_ms` milliseconds.
    pub fn record_task_completion_at(
        &mut self,
        worker_id: String,
        issue_id: String,
        duration_ms: u64,
        priority: Option<u8>,
        now: u64,
    )
        requires
            old(self).wf(),
            task_fits(*old(self), worker_id@, true, duration_ms, now),
        ensures
            final(self).wf(),
            workers_after_task(*old(self), *final(self), worker_id@, true, duration_ms, now),
            final(self).system == recalculated(
                SystemMetrics {
                    total_tasks_completed: (old(self).system.total_tasks_completed + 1) as u64,
                    ..old(self).system
                },
                final(self).task_history@,
            ),
            history_after(old(self).task_history@, final(self).task_history@),
            is_task_record(final(self).task_history@.last(), issue_id@, worker_id@, true, duration_ms, now, priority),
            final(self).task_history@.last().error is None,
            final(self).errors == old(self).errors,
            final(self).last_updated == now,
    {
        self.update_worker_after_task(worker_id.as_str(), true, duration_ms, now);
        self.system.total_tasks_completed = self.system.total_tasks_completed + 1;
        let record = TaskCompletionRecord {
            issue_id,
            worker_id,
            success: true,
            duration_ms,
            completed_at: now,
            error: None,
            priority,
        };
        self.push_record(record);
        self.recalculate_system_metrics();
        self.last_updated = now;
    }

    /// Records a task of `worker_id` on `issue_id` that failed at `now` with
    /// `error` after `duration_ms` milliseconds; the failure is also recorded as
    /// an error of category "task_failure".
    pub fn record_task_failure_at(
        &mut self,
        worker_id: String,
        issue_id: String,
        error: String,
        duration_ms: u64,
        priority: Option<u8>,
        now: u64,
    )
        requires
            old(self).wf(),
            task_fits(*old(self), worker_id@, false, duration_ms, now),
            error_fits(old(self).errors, "task_failure"@),
        ensures
            final(self).wf(),
            workers_after_task(*old(self), *final(self), worker_id@, false, duration_ms, now),
            final(self).system == recalculated(
                SystemMetrics {
                    total_tasks_failed: (old(self).system.total_tasks_failed + 1) as u64,
                    ..old(self).system
                },
                final(self).task_history@,
            ),
            history_after(old(self).task_history@, final(self).task_history@),
            is_task_record(final(self).task_history@.last(), issue_id@, worker_id@, false, duration_ms, now, priority),
            final(self).task_history@.last().error == Some(error),
            errors_after(old(self).errors, final(self).errors, error@, "task_failure"@, Some(worker_id@), Some(issue_id@), now),
            final(self).last_updated == now,
    {
        self.update_worker_after_task(worker_id.as_str(), false, duration_ms, now);
        self.system.total_tasks_failed = self.system.total_tasks_failed + 1;
        let record = TaskCompletionRecord {
            issue_id: issue_id.clone(),
            worker_id: worker_id.clone(),
            success: false,
            duration_ms,
            completed_at: now,
            error: Some(error.clone()),
            priority,
        };
        self.push_record(record);
        self.recalculate_system_metrics();
        let category = String::from_str("task_failure");
        self.record_error_at(error, category, Some(worker_id), Some(issue_id), now);
    }

    /// Appends a task record, dropping the oldest when the history is full.
    fn push_record(&mut self, record: TaskCompletionRecord)
        requires
            old(self).wf(),
        ensures
            final(self).wf(),
            final(self).task_history@ == trimmed(
                old(self).task_history@.push(record),
                MAX_TASK_HISTORY as int,
                TASK_HISTORY_TRIM as int,
            ),
            final(self).system == old(self).system,
            final(self).workers == old(self).workers,
            final(self).errors == old(self).errors,
            final(self).last_updated == old(self).last_updated,
    {
        self.task_history.push(record);
        if self.task_history.len() > MAX_TASK_HISTORY {
            drain_front(&mut self.task_history, TASK_HISTORY_TRIM);
        }
    }

    /// Records an error of category `error_type` at `now`.
    pub fn record_error_at(
        &mut self,
        message: String,
        error_type: String,
        worker_id: Option<String>,
        issue_id: Option<String>,
        now: u64,
    )
        requires
            old(self).wf(),
            error_fits(old(self).errors, error_type@),
        ensures
            final(self).wf(),
            errors_after(
                old(self).errors,
                final(self).errors,
                message@,
                error_type@,
                match worker_id { Some(w) => Some(w@), None => None },
                match issue_id { Some(i) => Some(i@), None => None },
                now,
            ),
            final(self).system == old(self).system,
            final(self).workers == old(self).workers,
            final(self).task_history == old(self).task_history,
            final(self).last_updated == now,
    {
        let ghost before = self.errors;
        let ghost t = error_type@;
        self.errors.total_errors = self.errors.total_errors + 1;
        let mut i: usize = 0;
        let mut found = false;
        while i < self.errors.errors_by_type.len()
            invariant_except_break
                self.errors.errors_by_type == before.errors_by_type,
                self.errors.total_errors == before.total_errors + 1,
                t == error_type@,
                i <= self.errors.errors_by_type.len(),
                !found,
                forall|j: int| 0 <= j < i ==> before.types()[j] != t,
            ensures
                self.errors.errors_by_type == before.errors_by_type,
                self.errors.total_errors == before.total_errors + 1,
                found ==> i < before.types().len() && before.types()[i as int] == t,
                !found ==> forall|j: int| 0 <= j < before.types().len() ==> before.types()[j] != t,
            decreases self.errors.errors_by_type.len() - i,
        {
            assert(before.types()[i as int] == self.errors.errors_by_type@[i as int].0@);
            if str_eq(self.errors.errors_by_type[i].0.as_str(), error_type.as_str()) {
                found = true;
                break;
            }
            i += 1;
        }
        if found {
            proof {
                lemma_index_of_distinct(before.types(), i as int);
                assert(before.counts().contains_key(t));
            }
            let c = self.errors.errors_by_type[i].1;
            self.errors.errors_by_type[i].1 = c + 1;
            proof {
                assert(self.errors.types() =~= before.types());
                assert forall|k: Seq<char>| #[trigger] self.errors.counts().contains_key(k) implies
                    self.errors.counts()[k] == before.counts().insert(t, (c + 1) as u64)[k] by {
                    let j = before.types().index_of(k);
                    assert(before.types()[j] == k);
                    lemma_index_of_distinct(before.types(), j);
                }
                assert(self.errors.counts() =~= before.counts().insert(t, (c + 1) as u64));
            }
        } else {
            let name = error_type.clone();
            self.errors.errors_by_type.push((name, 1));
            proof {
                let n = before.types().len() as int;
                assert(self.errors.types() =~= before.types().push(t));
                assert(!before.types().contains(t));
                assert(self.errors.types()[n] == t);
                lemma_index_of_distinct(self.errors.types(), n);
                assert forall|k: Seq<char>| #[trigger] self.errors.types().contains(k) <==> (before.types().contains(k) || k == t) by {
                    if self.errors.types().contains(k) {
                        let j = choose|j: int| 0 <= j < self.errors.types().len() && self.errors.types()[j] == k;
                        if j < n { assert(before.types()[j] == k); }
                    }
                    if before.types().contains(k) {
                        let j = choose|j: int| 0 <= j < n && before.types()[j] == k;
                        assert(self.errors.types()[j] == k);
                    }
                }
                assert forall|k: Seq<char>| #[trigger] self.errors.counts().contains_key(k) implies
                    self.errors.counts()[k] == before.counts().insert(t, 1)[k] by {
                    if k != t {
                        let j = before.types().index_of(k);
                        assert(before.types()[j] == k);
                        lemma_index_of_distinct(before.types(), j);
                        assert(self.errors.types()[j] == k);
                        lemma_index_of_distinct(self.errors.types(), j);
                    }
                }
                assert(self.errors.counts() =~= before.counts().insert(t, 1));
            }
        }
        let ghost mid = self.errors;
        let record = ErrorRecord { message, error_type, worker_id, issue_id, timestamp: now };
        self.errors.recent_errors.push(record);
        if self.errors.recent_errors.len() > MAX_RECENT_ERRORS {
            drain_front(&mut self.errors.recent_errors, RECENT_ERRORS_TRIM);
        }
        self.last_updated = now;
    }
}

impl WorkerMetrics {
    /// Records a completed task now (a clock reading before the worker's
    /// registration counts as the registration time).
    pub fn record_task_completion(&mut self, worker_id: String, issue_id: String, duration_ms: u64, priority: Option<u8>)
        requires
            old(self).wf(),
            counts_fit(*old(self), worker_id@, true, duration_ms),
        ensures
            final(self).wf(),
            workers_after_task(*old(self), *final(self), worker_id@, true, duration_ms, final(self).last_updated),
            final(self).system == recalculated(
                SystemMetrics {
                    total_tasks_completed: (old(self).system.total_tasks_completed + 1) as u64,
                    ..old(self).system
                },
                final(self).task_history@,
            ),
            history_after(old(self).task_history@, final(self).task_history@),
            is_task_record(final(self).task_history@.last(), issue_id@, worker_id@, true, duration_ms, final(self).last_updated, priority),
            final(self).errors == old(self).errors,
    {
        let now = self.task_time(worker_id.as_str());
        self.record_task_completion_at(worker_id, issue_id, duration_ms, priority, now);
    }

    /// Records a failed task now (see `record_task_completion`).
    pub fn record_task_failure(&mut self, worker_id: String, issue_id: String, error: String, duration_ms: u64, priority: Option<u8>)
        requires
            old(self).wf(),
            counts_fit(*old(self), worker_id@, false, duration_ms),
            error_fits(old(self).errors, "task_failure"@),
        ensures
            final(self).wf(),
            workers_after_task(*old(self), *final(self), worker_id@, false, duration_ms, final(self).last_updated),
            final(self).system == recalculated(
                SystemMetrics {
                    total_tasks_failed: (old(self).system.total_tasks_failed + 1) as u64,
                    ..old(self).system
                },
                final(self).task_history@,
            ),
            history_after(old(self).task_history@, final(self).task_history@),
            is_task_record(final(self).task_history@.last(), issue_id@, worker_id@, false, duration_ms, final(self).last_updated, priority),
            final(self).task_history@.last().error == Some(error),
            errors_after(old(self).errors, final(self).errors, error@, "task_failure"@, Some(worker_id@), Some(issue_id@), final(self).last_updated),
    {
        let now = self.task_time(worker_id.as_str());
        self.record_task_failure_at(worker_id, issue_id, error, duration_ms, priority, now);
    }

    /// The current time for a task of `worker_id`: the clock, but not before
    /// the worker's registration.
    fn task_time(&self, worker_id: &str) -> (now: u64)
        requires
            self.wf(),
        ensures
            self.worker_map().contains_key(worker_id@) ==> {
                let w = self.worker_map()[worker_id@];
                now >= w.registered_at && span_ms(w, now) <= u64::MAX
            },
    {
        let clock = unix_seconds();
        match self.get_worker_metrics(worker_id) {
            Some(w) => if clock < w.registered_at { w.registered_at } else { clock },
            None => clock,
        }
    }

    /// Records an error now.
    pub fn record_error(&mut self, message: String, error_type: String, worker_id: Option<String>, issue_id: Option<String>)
        requires
            old(self).wf(),
            error_fits(old(self).errors, error_type@),
        ensures
            final(self).wf(),
            errors_after(
                old(self).errors,
                final(self).errors,
                message@,
                error_type@,
                match worker_id { Some(w) => Some(w@), None => None },
                match issue_id { Some(i) => Some(i@), None => None },
                final(self).last_updated,
            ),
            final(self).system == old(self).system,
            final(self).workers == old(self).workers,
            final(self).task_history == old(self).task_history,
    {
        let now = unix_seconds();
        self.record_error_at(message, error_type, worker_id, issue_id, now);
    }

    /// Sets the uptime to the seconds from `start_time` to `now` and recomputes
    /// the system figures.
    pub fn update_uptime_at(&mut self, start_time: u64, now: u64)
        requires
            old(self).wf(),
            now >= start_time,
            old(self).system.total_tasks_completed + old(self).system.total_tasks_failed <= u64::MAX,
        ensures
            final(self).wf(),
            final(self).system == recalculated(
                SystemMetrics { uptime_seconds: (now - start_time) as u64, ..old(self).system },
                old(self).task_history@,
            ),
            final(self).workers == old(self).workers,
            final(self).task_history == old(self).task_history,
            final(self).errors == old(self).errors,
            final(self).last_updated == now,
    {
        self.system.uptime_seconds = now - start_time;
        self.recalculate_system_metrics();
        self.last_updated = now;
    }

    /// Sets the uptime from `start_time` to now (a clock reading before
    /// `start_time` counts as `start_time`).
    pub fn update_uptime(&mut self, start_time: u64)
        requires
            old(self).wf(),
            old(self).system.total_tasks_completed + old(self).system.total_tasks_failed <= u64::MAX,
        ensures
            final(self).wf(),
            final(self).last_updated >= start_time,
            final(self).system == recalculated(
                SystemMetrics { uptime_seconds: (final(self).last_updated - start_time) as u64, ..old(self).system },
                old(self).task_history@,
            ),
            final(self).workers == old(self).workers,
            final(self).task_history == old(self).task_history,
            final(self).errors == old(self).errors,
    {
        let clock = unix_seconds();
        let now = if clock < start_time { start_time } else { clock };
        self.update_uptime_at(start_time, now);
    }

    /// Sets the number of tasks running at `now`, raising the peak if exceeded.
    pub fn update_concurrent_tasks_at(&mut self, count: u64, now: u64)
        ensures
            final(self).system == (SystemMetrics {
                total_tasks_in_progress: count,
                peak_concurrent_tasks: if count > old(self).system.peak_concurrent_tasks {
                    count
                } else {
                    old(self).system.peak_concurrent_tasks
                },
                ..old(self).system
            }),
            final(self).workers == old(self).workers,
            final(self).task_history == old(self).task_history,
            final(self).errors == old(self).errors,
            final(self).last_updated == now,
    {
        self.system.total_tasks_in_progress = count;
        if count > self.system.peak_concurrent_tasks {
            self.system.peak_concurrent_tasks = count;
        }
        self.last_updated = now;
    }

    /// Sets the number of tasks running now.
    pub fn update_concurrent_tasks(&mut self, count: u64)
        ensures
            final(self).system == (SystemMetrics {
                total_tasks_in_progress: count,
                peak_concurrent_tasks: if count > old(self).system.peak_concurrent_tasks {
                    count
                } else {
                    old(self).system.peak_concurrent_tasks
                },
                ..old(self).system
            }),
            final(self).workers == old(self).workers,
            final(self).task_history == old(self).task_history,
            final(self).errors == old(self).errors,
    {
        let now = unix_seconds();
        self.update_concurrent_tasks_at(count, now);
    }
}

/// `task_fits` without the conditions on the time.
pub open spec fn counts_fit(m: WorkerMetrics, worker_id: Seq<char>, success: bool, duration: u64) -> bool {
    &&& m.system.total_tasks_completed + m.system.total_tasks_failed + 1 <= u64::MAX
    &&& m.worker_map().contains_key(worker_id) ==> {
        let w = m.worker_map()[worker_id];
        &&& w.tasks_completed + w.tasks_failed + 1 <= u64::MAX
        &&& w.total_work_time_ms + duration <= u64::MAX
    }
}

// ============================================================================
// Rankings
// ============================================================================

/// `a` ranks before `b` by completed tasks: it completed more.
pub open spec fn completed_more(a: WorkerPerformanceMetrics, b: WorkerPerformanceMetrics) -> bool {
    a.tasks_completed > b.tasks_completed
}

/// `a` ranks before `b` by success rate: its rate is lower.
pub open spec fn less_successful(a: WorkerPerformanceMetrics, b: WorkerPerformanceMetrics) -> bool {
    a.tasks_completed * b.spec_total_tasks() < b.tasks_completed * a.spec_total_tasks()
}

/// Workers that finished at least one task.
pub open spec fn with_tasks(ws: Seq<WorkerPerformanceMetrics>) -> Seq<WorkerPerformanceMetrics> {
    ws.filter(|w: WorkerPerformanceMetrics| w.spec_total_tasks() > 0)
}

/// The value behind each reference.
pub open spec fn derefs(v: Seq<&WorkerPerformanceMetrics>) -> Seq<WorkerPerformanceMetrics> {
    v.map_values(|w: &WorkerPerformanceMetrics| *w)
}

impl WorkerMetrics {
    /// The position in `rest` of its first best entry by completed tasks.
    fn best_by_completion(rest: &Vec<&WorkerPerformanceMetrics>) -> (b: usize)
        requires
            rest@.len() > 0,
        ensures
            b == first_best(derefs(rest@), |x: WorkerPerformanceMetrics, y: WorkerPerformanceMetrics| completed_more(x, y), rest@.len() as int),
            b < rest@.len(),
    {
        let ghost ws = derefs(rest@);
        let ghost f = |x: WorkerPerformanceMetrics, y: WorkerPerformanceMetrics| completed_more(x, y);
        let mut b: usize = 0;
        let mut i: usize = 1;
        while i < rest.len()
            invariant
                1 <= i <= rest@.len(),
                ws == derefs(rest@),
                f == (|x: WorkerPerformanceMetrics, y: WorkerPerformanceMetrics| completed_more(x, y)),
                b == first_best(ws, f, i as int),
                b < i,
            decreases rest.len() - i,
        {
            if rest[i].tasks_completed > rest[b].tasks_completed {
                b = i;
            }
            i += 1;
        }
        b
    }

    /// The `limit` workers that completed the most tasks, most first; workers
    /// with equal counts in registration order.
    pub fn top_workers_by_completion(&self, limit: usize) -> (r: Vec<&WorkerPerformanceMetrics>)
        ensures
            derefs(r@) == ranked(
                self.workers@,
                |x: WorkerPerformanceMetrics, y: WorkerPerformanceMetrics| completed_more(x, y),
                limit as nat,
            ),
    {
        let ghost f = |x: WorkerPerformanceMetrics, y: WorkerPerformanceMetrics| completed_more(x, y);
        let mut rest: Vec<&WorkerPerformanceMetrics> = Vec::new();
        let mut i: usize = 0;
        while i < self.workers.len()
            invariant
                i <= self.workers@.len(),
                derefs(rest@) == self.workers@.take(i as int),
            decreases self.workers.len() - i,
        {
            let ghost before = rest@;
            let w = &self.workers[i];
            rest.push(w);
            assert(rest@ == before.push(w));
            assert(derefs(rest@) =~= derefs(before).push(*w));
            assert(self.workers@.take(i as int + 1) =~= self.workers@.take(i as int).push(self.workers@[i as int]));
            i += 1;
        }
        assert(self.workers@.take(i as int) =~= self.workers@);
        let mut out: Vec<&WorkerPerformanceMetrics> = Vec::new();
        let mut k: usize = 0;
        while k < limit && rest.len() > 0
            invariant
                f == (|x: WorkerPerformanceMetrics, y: WorkerPerformanceMetrics| completed_more(x, y)),
                k <= limit,
                derefs(out@) + ranked(derefs(rest@), f, (limit - k) as nat) == ranked(self.workers@, f, limit as nat),
            decreases limit - k,
        {
            let b = Self::best_by_completion(&rest);
            let ghost ws = derefs(rest@);
            proof { lemma_ranked_step(ws, f, (limit - k) as nat); }
            let w = rest.remove(b);
            out.push(w);
            proof {
                assert(derefs(rest@) =~= ws.remove(b as int));
                assert(derefs(out@) =~= derefs(out@).drop_last().push(*w));
                assert(derefs(out@) + ranked(derefs(rest@), f, (limit - k - 1) as nat)
                    =~= derefs(out@).drop_last() + (seq![ws[b as int]] + ranked(ws.remove(b as int), f, (limit - k - 1) as nat)));
            }
            k += 1;
        }
        proof {
            assert(ranked(derefs(rest@), f, (limit - k) as nat) =~= Seq::<WorkerPerformanceMetrics>::empty());
            assert(derefs(out@) + Seq::<WorkerPerformanceMetrics>::empty() =~= derefs(out@));
        }
        out
    }
}

impl WorkerMetrics {
    /// The position in `rest` of its first entry with the lowest success rate.
    fn best_by_low_success(rest: &Vec<&WorkerPerformanceMetrics>) -> (b: usize)
        requires
            rest@.len() > 0,
            forall|i: int| 0 <= i < rest@.len() ==> #[trigger] rest@[i].spec_total_tasks() <= u64::MAX,
        ensures
            b == first_best(derefs(rest@), |x: WorkerPerformanceMetrics, y: WorkerPerformanceMetrics| less_successful(x, y), rest@.len() as int),
            b < rest@.len(),
    {
        let ghost ws = derefs(rest@);
        let ghost f = |x: WorkerPerformanceMetrics, y: WorkerPerformanceMetrics| less_successful(x, y);
        let mut b: usize = 0;
        let mut i: usize = 1;
        while i < rest.len()
            invariant
                1 <= i <= rest@.len(),
                ws == derefs(rest@),
                forall|j: int| 0 <= j < rest@.len() ==> #[trigger] rest@[j].spec_total_tasks() <= u64::MAX,
                f == (|x: WorkerPerformanceMetrics, y: WorkerPerformanceMetrics| less_successful(x, y)),
                b == first_best(ws, f, i as int),
                b < i,
            decreases rest.len() - i,
        {
            let x = rest[i];
            let y = rest[b];
            assert(x.spec_total_tasks() <= u64::MAX);
            assert(y.spec_total_tasks() <= u64::MAX);
            let xt = (x.tasks_completed + x.tasks_failed) as u128;
            let yt = (y.tasks_completed + y.tasks_failed) as u128;
            let xc = x.tasks_completed as u128;
            let yc = y.tasks_completed as u128;
            assert(xc * yt <= 0xFFFF_FFFF_FFFF_FFFF * 0xFFFF_FFFF_FFFF_FFFFu128) by (nonlinear_arith)
                requires xc <= 0xFFFF_FFFF_FFFF_FFFFu128, yt <= 0xFFFF_FFFF_FFFF_FFFFu128;
            assert(yc * xt <= 0xFFFF_FFFF_FFFF_FFFF * 0xFFFF_FFFF_FFFF_FFFFu128) by (nonlinear_arith)
                requires yc <= 0xFFFF_FFFF_FFFF_FFFFu128, xt <= 0xFFFF_FFFF_FFFF_FFFFu128;
            let lhs = xc * yt;
            let rhs = yc * xt;
            assert(lhs == x.tasks_completed * y.spec_total_tasks());
            assert(rhs == y.tasks_completed * x.spec_total_tasks());
            if lhs < rhs {
                b = i;
            }
            i += 1;
        }
        b
    }

    /// The `limit` workers with the lowest success rate among those that
    /// finished a task, lowest first; equal rates in registration order.
    pub fn workers_by_lowest_success_rate(&self, limit: usize) -> (r: Vec<&WorkerPerformanceMetrics>)
        requires
            self.wf(),
        ensures
            derefs(r@) == ranked(
                with_tasks(self.workers@),
                |x: WorkerPerformanceMetrics, y: WorkerPerformanceMetrics| less_successful(x, y),
                limit as nat,
            ),
            forall|i: int| 0 <= i < r@.len() ==> (#[trigger] r@[i]).tasks_completed + r@[i].tasks_failed > 0,
            forall|i: int| 0 <= i < r@.len() ==> self.workers@.contains(*(#[trigger] r@[i])),
    {
        let ghost f = |x: WorkerPerformanceMetrics, y: WorkerPerformanceMetrics| less_successful(x, y);
        let ghost keep = |w: WorkerPerformanceMetrics| w.spec_total_tasks() > 0;
        let mut rest: Vec<&WorkerPerformanceMetrics> = Vec::new();
        let mut i: usize = 0;
        while i < self.workers.len()
            invariant
                self.wf(),
                i <= self.workers@.len(),
                keep == (|w: WorkerPerformanceMetrics| w.spec_total_tasks() > 0),
                derefs(rest@) == self.workers@.take(i as int).filter(keep),
                forall|j: int| 0 <= j < rest@.len() ==> #[trigger] rest@[j].spec_total_tasks() <= u64::MAX,
            decreases self.workers.len() - i,
        {
            let ghost before = rest@;
            let w = &self.workers[i];
            assert(w.spec_total_tasks() <= u64::MAX);
            if w.tasks_completed + w.tasks_failed > 0 {
                rest.push(w);
                assert(rest@ == before.push(w));
            }
            proof {
                let pre = self.workers@.take(i as int);
                assert(self.workers@.take(i as int + 1) =~= pre.push(self.workers@[i as int]));
                reveal(Seq::filter);
                assert(pre.push(self.workers@[i as int]).drop_last() =~= pre);
                assert(derefs(rest@) =~= if keep(*w) { derefs(before).push(*w) } else { derefs(before) });
            }
            i += 1;
        }
        assert(self.workers@.take(i as int) =~= self.workers@);
        let mut out: Vec<&WorkerPerformanceMetrics> = Vec::new();
        let mut k: usize = 0;
        while k < limit && rest.len() > 0
            invariant
                f == (|x: WorkerPerformanceMetrics, y: WorkerPerformanceMetrics| less_successful(x, y)),
                k <= limit,
                forall|j: int| 0 <= j < rest@.len() ==> #[trigger] rest@[j].spec_total_tasks() <= u64::MAX,
                derefs(out@) + ranked(derefs(rest@), f, (limit - k) as nat) == ranked(with_tasks(self.workers@), f, limit as nat),
            decreases limit - k,
        {
            let b = Self::best_by_low_success(&rest);
            let ghost ws = derefs(rest@);
            let ghost before = rest@;
            proof { lemma_ranked_step(ws, f, (limit - k) as nat); }
            let w = rest.remove(b);
            out.push(w);
            proof {
                assert(rest@ =~= before.remove(b as int));
                assert forall|j: int| 0 <= j < rest@.len() implies #[trigger] rest@[j].spec_total_tasks() <= u64::MAX by {
                    if j < b { assert(rest@[j] == before[j]); } else { assert(rest@[j] == before[j + 1]); }
                }
                assert(derefs(rest@) =~= ws.remove(b as int));
                assert(derefs(out@) =~= derefs(out@).drop_last().push(*w));
                assert(derefs(out@) + ranked(derefs(rest@), f, (limit - k - 1) as nat)
                    =~= derefs(out@).drop_last() + (seq![ws[b as int]] + ranked(ws.remove(b as int), f, (limit - k - 1) as nat)));
            }
            k += 1;
        }
        proof {
            assert(ranked(derefs(rest@), f, (limit - k) as nat) =~= Seq::<WorkerPerformanceMetrics>::empty());
            assert(derefs(out@) + Seq::<WorkerPerformanceMetrics>::empty() =~= derefs(out@));
            let ranking = ranked(with_tasks(self.workers@), f, limit as nat);
            assert forall|i: int| 0 <= i < out@.len() implies {
                &&& (#[trigger] out@[i]).tasks_completed + out@[i].tasks_failed > 0
                &&& self.workers@.contains(*out@[i])
            } by {
                assert(derefs(out@)[i] == *out@[i]);
                lemma_ranked_members(with_tasks(self.workers@), f, limit as nat, i);
                let k = choose|k: int| 0 <= k < with_tasks(self.workers@).len() && with_tasks(self.workers@)[k] == ranking[i];
                assert(with_tasks(self.workers@) == self.workers@.filter(keep));
                self.workers@.lemma_filter_pred(keep, k);
                assert(self.workers@.filter(keep)[k] == *out@[i]);
                assert(self.workers@.filter(keep).contains(*out@[i]));
                self.workers@.lemma_filter_contains_rev(keep, *out@[i]);
            }
        }
        out
    }

    /// The latest `limit` failed tasks, latest first.
    pub fn recent_failures(&self, limit: usize) -> (r: Vec<&TaskCompletionRecord>)
        ensures
            r@.map_values(|t: &TaskCompletionRecord| *t) == at_most(latest_failures(self.task_history@), limit as int),
    {
        let ghost h = self.task_history@;
        let mut out: Vec<&TaskCompletionRecord> = Vec::new();
        let mut i: usize = self.task_history.len();
        while i > 0 && out.len() < limit
            invariant
                h == self.task_history@,
                i <= h.len(),
                out@.len() <= limit,
                out@.map_values(|t: &TaskCompletionRecord| *t) == latest_failures(h.subrange(i as int, h.len() as int)),
            decreases i,
        {
            i -= 1;
            let ghost before = out@;
            let t = &self.task_history[i];
            if !t.success {
                out.push(t);
                assert(out@ == before.push(t));
            }
            proof {
                let tail = h.subrange(i as int + 1, h.len() as int);
                let whole = h.subrange(i as int, h.len() as int);
                assert(whole.drop_first() =~= tail);
                assert(whole[0] == *t);
                assert(out@.map_values(|t: &TaskCompletionRecord| *t) =~= if !t.success {
                    before.map_values(|t: &TaskCompletionRecord| *t).push(*t)
                } else {
                    before.map_values(|t: &TaskCompletionRecord| *t)
                });
            }
        }
        proof {
            let all = latest_failures(h);
            let done = latest_failures(h.subrange(i as int, h.len() as int));
            lemma_latest_failures_prefix(h, i as int);
            if i == 0 {
                assert(h.subrange(0, h.len() as int) =~= h);
            }
            assert(out@.map_values(|t: &TaskCompletionRecord| *t) =~= at_most(all, limit as int));
        }
        out
    }
}

/// The failed tasks of a history, latest first.
pub open spec fn latest_failures(h: Seq<TaskCompletionRecord>) -> Seq<TaskCompletionRecord>
    decreases h.len(),
{
    if h.len() == 0 {
        Seq::empty()
    } else {
        let rest = latest_failures(h.drop_first());
        if h[0].success { rest } else { rest.push(h[0]) }
    }
}

/// The first `n` entries, or all if there are fewer.
pub open spec fn at_most<T>(s: Seq<T>, n: int) -> Seq<T> {
    if s.len() <= n { s } else { s.take(n) }
}

/// The failures of a suffix of the history are the first of all failures.
proof fn lemma_latest_failures_prefix(h: Seq<TaskCompletionRecord>, i: int)
    requires
        0 <= i <= h.len(),
    ensures
        latest_failures(h.subrange(i, h.len() as int)).len() <= latest_failures(h).len(),
        latest_failures(h.subrange(i, h.len() as int)) == latest_failures(h).take(latest_failures(h.subrange(i, h.len() as int)).len() as int),
        i == 0 ==> latest_failures(h.subrange(i, h.len() as int)) == latest_failures(h),
    decreases i,
{
    if i == 0 {
        assert(h.subrange(0, h.len() as int) =~= h);
        assert(latest_failures(h).take(latest_failures(h).len() as int) =~= latest_failures(h));
    } else {
        lemma_latest_failures_prefix(h, i - 1);
        let a = h.subrange(i, h.len() as int);
        let b = h.subrange(i - 1, h.len() as int);
        assert(b.drop_first() =~= a);
        let fa = latest_failures(a);
        let fb = latest_failures(b);
        let all = latest_failures(h);
        if !b[0].success {
            assert(fb == fa.push(b[0]));
            assert(fa =~= fb.take(fa.len() as int));
            assert(fa =~= all.take(fb.len() as int).take(fa.len() as int));
        } else {
            assert(fb == fa);
        }
    }
}

// ============================================================================
// The report
// ============================================================================

/// A fraction as a percentage with `places` decimals.
pub open spec fn percent_text(r: Ratio, places: nat) -> Seq<char> {
    fixed_text((r.numerator * 100) as nat, r.denominator as nat, places)
}

/// A fraction with `places` decimals.
pub open spec fn ratio_text(r: Ratio, places: nat) -> Seq<char> {
    fixed_text(r.numerator as nat, r.denominator as nat, places)
}

/// `label`, then `value`, then `suffix`.
pub open spec fn labeled(label: Seq<char>, value: Seq<char>, suffix: Seq<char>) -> Seq<char> {
    label + value + suffix
}

/// The system overview of the report.
pub open spec fn overview_text(sys: SystemMetrics) -> Seq<char> {
    let up = sys.uptime_seconds;
    "=== Worker System Metrics ===\n\n"@
        + "System Overview:\n"@
        + labeled("  Uptime: "@, decimal((up / 3600) as nat), "h "@)
        + labeled(decimal(((up % 3600) / 60) as nat), "m "@, decimal((up % 60) as nat))
        + "s\n"@
        + labeled("  Total Tasks: "@, decimal(sys.total_tasks_completed as nat), " completed, "@)
        + labeled(decimal(sys.total_tasks_failed as nat), " failed\n"@, Seq::empty())
        + labeled("  Success Rate: "@, percent_text(sys.spec_success_rate(), 1), "%\n"@)
        + labeled("  Tasks in Progress: "@, decimal(sys.total_tasks_in_progress as nat), "\n"@)
        + labeled("  Peak Concurrent: "@, decimal(sys.peak_concurrent_tasks as nat), "\n"@)
        + labeled("  Tasks per Hour: "@, ratio_text(sys.tasks_per_hour, 2), "\n"@)
        + labeled("  Avg Duration: "@, ratio_text(sys.avg_task_duration_ms, 0), "ms\n"@)
        + labeled("  Median Duration: "@, ratio_text(sys.median_task_duration_ms, 0), "ms\n\n"@)
}

/// A worker's line in the detailed report.
pub open spec fn worker_line(w: WorkerPerformanceMetrics) -> Seq<char> {
    labeled("  "@, w.worker_id@, " - "@)
        + labeled(decimal(w.tasks_completed as nat), " tasks ("@, percent_text(w.spec_success_rate(), 1))
        + labeled("% success, "@, ratio_text(w.spec_avg_duration(), 0), "ms avg, "@)
        + labeled(percent_text(w.spec_efficiency(), 1), "% efficiency)\n"@, Seq::empty())
}

/// The lines of several workers.
pub open spec fn worker_lines(ws: Seq<WorkerPerformanceMetrics>) -> Seq<char>
    decreases ws.len(),
{
    if ws.len() == 0 { Seq::empty() } else { worker_lines(ws.drop_last()) + worker_line(ws.last()) }
}

/// The per-category error lines.
pub open spec fn type_lines(e: Seq<(String, u64)>) -> Seq<char>
    decreases e.len(),
{
    if e.len() == 0 {
        Seq::empty()
    } else {
        type_lines(e.drop_last()) + labeled("    "@, e.last().0@, ": "@) + labeled(decimal(e.last().1 as nat), "\n"@, Seq::empty())
    }
}

/// A recent error's line, `now` being the time of the report.
pub open spec fn error_line(r: ErrorRecord, now: u64) -> Seq<char> {
    labeled("  ["@, decimal((now - r.timestamp) as nat), "s ago] "@) + labeled(r.error_type@, ": "@, r.message@) + "\n"@
}

/// The lines of several recent errors.
pub open spec fn error_lines(rs: Seq<ErrorRecord>, now: u64) -> Seq<char>
    decreases rs.len(),
{
    if rs.len() == 0 { Seq::empty() } else { error_lines(rs.drop_last(), now) + error_line(rs.last(), now) }
}

/// The latest `n` errors, latest first.
pub open spec fn latest_errors(rs: Seq<ErrorRecord>, n: int) -> Seq<ErrorRecord> {
    at_most(rs.reverse(), n)
}

/// The part of the report on workers.
pub open spec fn workers_part(m: WorkerMetrics, detailed: bool) -> Seq<char> {
    labeled("Workers: "@, decimal(m.workers@.len()), "\n"@)
        + if detailed && m.workers@.len() > 0 {
            "\nTop Workers by Completion:\n"@ + worker_lines(ranked(
                m.workers@,
                |x: WorkerPerformanceMetrics, y: WorkerPerformanceMetrics| completed_more(x, y),
                REPORT_LIST_LEN as nat,
            ))
        } else {
            Seq::empty()
        }
}

/// The part of the report on errors.
pub open spec fn errors_part(m: WorkerMetrics, detailed: bool, now: u64) -> Seq<char> {
    labeled("\nErrors: "@, decimal(m.errors.total_errors as nat), "\n"@)
        + (if detailed && m.errors.errors_by_type@.len() > 0 {
            "  By Type:\n"@ + type_lines(m.errors.errors_by_type@)
        } else {
            Seq::empty()
        })
        + (if detailed && m.errors.recent_errors@.len() > 0 {
            "\nRecent Errors:\n"@ + error_lines(latest_errors(m.errors.recent_errors@, REPORT_LIST_LEN as int), now)
        } else {
            Seq::empty()
        })
}

/// The human-readable metrics report at `now`; the detailed one adds the top
/// workers, the errors per category and the latest errors.
pub open spec fn metrics_report(m: WorkerMetrics, detailed: bool, now: u64) -> Seq<char> {
    overview_text(m.system) + workers_part(m, detailed) + errors_part(m, detailed, now)
}

/// Appends `label`, a number and `suffix`.
fn push_labeled_decimal(s: &mut String, label: &str, n: u64, suffix: &str)
    ensures
        final(s)@ == old(s)@ + labeled(label@, decimal(n as nat), suffix@),
{
    push_str(s, label);
    push_decimal(s, n);
    push_str(s, suffix);
    assert(final(s)@ =~= old(s)@ + labeled(label@, decimal(n as nat), suffix@));
}

/// Appends `label`, a fraction with `places` decimals and `suffix`.
fn push_labeled_ratio(s: &mut String, label: &str, num: u128, den: u128, places: u32, suffix: &str)
    requires
        0 < den,
        num < FIXED_LIMIT,
        places <= 2,
    ensures
        final(s)@ == old(s)@ + labeled(label@, fixed_text(num as nat, den as nat, places as nat), suffix@),
{
    push_str(s, label);
    push_fixed(s, num, den, places);
    push_str(s, suffix);
    assert(final(s)@ =~= old(s)@ + labeled(label@, fixed_text(num as nat, den as nat, places as nat), suffix@));
}

/// Appends the system overview.
fn push_overview(s: &mut String, sys: &SystemMetrics)
    requires
        sys.wf(),
        sys.total_tasks_completed + sys.total_tasks_failed <= u64::MAX,
    ensures
        final(s)@ == old(s)@ + overview_text(*sys),
{
    let ghost s0 = s@;
    let up = sys.uptime_seconds;
    push_str(s, "=== Worker System Metrics ===\n\n");
    push_str(s, "System Overview:\n");
    push_labeled_decimal(s, "  Uptime: ", up / 3600, "h ");
    push_decimal(s, (up % 3600) / 60);
    push_str(s, "m ");
    push_decimal(s, up % 60);
    assert(s@ =~= s0 + "=== Worker System Metrics ===\n\n"@ + "System Overview:\n"@
        + labeled("  Uptime: "@, decimal((up / 3600) as nat), "h "@)
        + labeled(decimal(((up % 3600) / 60) as nat), "m "@, decimal((up % 60) as nat)));
    let ghost s1 = s@;
    push_str(s, "s\n");
    push_labeled_decimal(s, "  Total Tasks: ", sys.total_tasks_completed, " completed, ");
    push_labeled_decimal(s, "", sys.total_tasks_failed, " failed\n");
    proof { reveal_strlit(""); }
    assert(s@ =~= s1 + "s\n"@
        + labeled("  Total Tasks: "@, decimal(sys.total_tasks_completed as nat), " completed, "@)
        + labeled(decimal(sys.total_tasks_failed as nat), " failed\n"@, Seq::empty()));
    let ghost s2 = s@;
    let rate = sys.success_rate();
    push_labeled_ratio(s, "  Success Rate: ", rate.numerator * 100, rate.denominator, 1, "%\n");
    push_labeled_decimal(s, "  Tasks in Progress: ", sys.total_tasks_in_progress, "\n");
    push_labeled_decimal(s, "  Peak Concurrent: ", sys.peak_concurrent_tasks, "\n");
    let ghost s3 = s@;
    let tph = sys.tasks_per_hour;
    push_labeled_ratio(s, "  Tasks per Hour: ", tph.numerator, tph.denominator, 2, "\n");
    let avg = sys.avg_task_duration_ms;
    push_labeled_ratio(s, "  Avg Duration: ", avg.numerator, avg.denominator, 0, "ms\n");
    let med = sys.median_task_duration_ms;
    push_labeled_ratio(s, "  Median Duration: ", med.numerator, med.denominator, 0, "ms\n\n");
    assert(s@ =~= s0 + overview_text(*sys));
}

/// Appends a worker's line.
fn push_worker_line(s: &mut String, w: &WorkerPerformanceMetrics)
    requires
        w.spec_total_tasks() <= u64::MAX,
    ensures
        final(s)@ == old(s)@ + worker_line(*w),
{
    let ghost s0 = s@;
    push_str(s, "  ");
    push_str(s, w.worker_id.as_str());
    push_str(s, " - ");
    let rate = w.success_rate();
    push_labeled_decimal(s, "", w.tasks_completed, " tasks (");
    push_fixed(s, rate.numerator * 100, rate.denominator, 1);
    let avg = w.avg_duration_ms();
    push_labeled_ratio(s, "% success, ", avg.numerator, avg.denominator, 0, "ms avg, ");
    let eff = w.efficiency();
    push_fixed(s, eff.numerator * 100, eff.denominator, 1);
    push_str(s, "% efficiency)\n");
    proof { reveal_strlit(""); }
    assert(s@ =~= s0 + worker_line(*w));
}

/// The errors shown in the detailed report happened no later than `now`.
pub open spec fn shown_errors_before(m: WorkerMetrics, now: u64) -> bool {
    forall|i: int| 0 <= i < latest_errors(m.errors.recent_errors@, REPORT_LIST_LEN as int).len()
        ==> #[trigger] latest_errors(m.errors.recent_errors@, REPORT_LIST_LEN as int)[i].timestamp <= now
}

/// The human-readable metrics report at `now` (see `metrics_report`).
pub fn format_metrics_at(metrics: &WorkerMetrics, detailed: bool, now: u64) -> (r: String)
    requires
        metrics.reportable(),
        detailed ==> shown_errors_before(*metrics, now),
    ensures
        r@ == metrics_report(*metrics, detailed, now),
{
    let mut out = String::new();
    push_overview(&mut out, &metrics.system);
    push_workers_part(&mut out, metrics, detailed);
    push_errors_part(&mut out, metrics, detailed, now);
    assert(out@ =~= metrics_report(*metrics, detailed, now));
    out
}

/// Appends the part of the report on workers.
fn push_workers_part(out: &mut String, metrics: &WorkerMetrics, detailed: bool)
    requires
        metrics.reportable(),
    ensures
        final(out)@ == old(out)@ + workers_part(*metrics, detailed),
{
    let ghost s1 = out@;
    push_labeled_decimal(out, "Workers: ", metrics.workers.len() as u64, "\n");
    if detailed && metrics.workers.len() > 0 {
        push_str(out, "\nTop Workers by Completion:\n");
        let top = metrics.top_workers_by_completion(REPORT_LIST_LEN);
        let ghost s2 = out@;
        let mut i: usize = 0;
        while i < top.len()
            invariant
                metrics.reportable(),
                i <= top@.len(),
                derefs(top@) == ranked(metrics.workers@, |x: WorkerPerformanceMetrics, y: WorkerPerformanceMetrics| completed_more(x, y), REPORT_LIST_LEN as nat),
                out@ == s2 + worker_lines(derefs(top@).take(i as int)),
            decreases top.len() - i,
        {
            proof {
                lemma_ranked_members(metrics.workers@, |x: WorkerPerformanceMetrics, y: WorkerPerformanceMetrics| completed_more(x, y), REPORT_LIST_LEN as nat, i as int);
                let k = choose|k: int| 0 <= k < metrics.workers@.len() && metrics.workers@[k] == derefs(top@)[i as int];
                assert(metrics.workers@[k].spec_total_tasks() <= u64::MAX);
            }
            push_worker_line(out, top[i]);
            assert(derefs(top@).take(i as int + 1).drop_last() =~= derefs(top@).take(i as int));
            i += 1;
        }
        assert(derefs(top@).take(i as int) =~= derefs(top@));
    }
    assert(out@ =~= s1 + workers_part(*metrics, detailed));
}

/// Appends the part of the report on errors.
fn push_errors_part(out: &mut String, metrics: &WorkerMetrics, detailed: bool, now: u64)
    requires
        detailed ==> shown_errors_before(*metrics, now),
    ensures
        final(out)@ == old(out)@ + errors_part(*metrics, detailed, now),
{
    let ghost s3 = out@;
    push_labeled_decimal(out, "\nErrors: ", metrics.errors.total_errors, "\n");
    if detailed && metrics.errors.errors_by_type.len() > 0 {
        push_str(out, "  By Type:\n");
        let ghost s4 = out@;
        let e = &metrics.errors.errors_by_type;
        let mut i: usize = 0;
        while i < e.len()
            invariant
                i <= e@.len(),
                out@ == s4 + type_lines(e@.take(i as int)),
            decreases e.len() - i,
        {
            push_str(out, "    ");
            push_str(out, e[i].0.as_str());
            push_str(out, ": ");
            push_decimal(out, e[i].1);
            push_str(out, "\n");
            proof {
                reveal_strlit("");
                assert(e@.take(i as int + 1).drop_last() =~= e@.take(i as int));
            }
            assert(out@ =~= s4 + type_lines(e@.take(i as int + 1)));
            i += 1;
        }
        assert(e@.take(i as int) =~= e@);
    }
    if detailed && metrics.errors.recent_errors.len() > 0 {
        push_str(out, "\nRecent Errors:\n");
        let ghost s6 = out@;
        let rs = &metrics.errors.recent_errors;
        let ghost shown = latest_errors(rs@, REPORT_LIST_LEN as int);
        let mut k: usize = 0;
        while k < REPORT_LIST_LEN && k < rs.len()
            invariant
                k <= REPORT_LIST_LEN,
                k <= rs@.len(),
                shown == latest_errors(rs@, REPORT_LIST_LEN as int),
                detailed ==> shown_errors_before(*metrics, now),
                detailed,
                rs@ == metrics.errors.recent_errors@,
                out@ == s6 + error_lines(shown.take(k as int), now),
            decreases REPORT_LIST_LEN - k,
        {
            let r = &rs[rs.len() - 1 - k];
            assert(shown[k as int] == *r);
            assert(r.timestamp <= now);
            push_str(out, "  [");
            push_decimal(out, now - r.timestamp);
            push_str(out, "s ago] ");
            push_str(out, r.error_type.as_str());
            push_str(out, ": ");
            push_str(out, r.message.as_str());
            push_str(out, "\n");
            assert(shown.take(k as int + 1).drop_last() =~= shown.take(k as int));
            assert(out@ =~= s6 + error_lines(shown.take(k as int + 1), now));
            k += 1;
        }
        assert(shown.take(k as int) =~= shown);
    }
    assert(out@ =~= s3 + errors_part(*metrics, detailed, now));
}

/// The human-readable metrics report now (a clock reading before the latest
/// shown error counts as that error's time).
pub fn format_metrics(metrics: &WorkerMetrics, detailed: bool) -> (r: String)
    requires
        metrics.reportable(),
    ensures
        exists|now: u64| r@ == metrics_report(*metrics, detailed, now),
{
    let clock = unix_seconds();
    let mut now = clock;
    let rs = &metrics.errors.recent_errors;
    let mut k: usize = 0;
    let ghost shown = latest_errors(rs@, REPORT_LIST_LEN as int);
    while k < REPORT_LIST_LEN && k < rs.len()
        invariant
            k <= REPORT_LIST_LEN,
            k <= rs@.len(),
            shown == latest_errors(rs@, REPORT_LIST_LEN as int),
            forall|j: int| 0 <= j < k ==> #[trigger] shown[j].timestamp <= now,
        decreases REPORT_LIST_LEN - k,
    {
        let t = rs[rs.len() - 1 - k].timestamp;
        assert(shown[k as int].timestamp == t);
        if t > now {
            now = t;
        }
        k += 1;
    }
    format_metrics_at(metrics, detailed, now)
}


// ============================================================================
// Where metrics are kept
// ============================================================================

/// Days that archived metrics are kept.
pub const ARCHIVE_KEEP_DAYS: u64 = 30;

/// The timestamp in an archive's file name "metrics-<timestamp>.json", if the
/// name has that form.
pub open spec fn archive_timestamp(name: Seq<char>) -> Option<nat> {
    let prefix = "metrics-"@;
    let suffix = ".json"@;
    if name.len() >= prefix.len() + suffix.len()
        && name.take(prefix.len() as int) == prefix
        && name.skip(name.len() - suffix.len()) == suffix
    {
        crate::text::parse_unsigned(name.subrange(prefix.len() as int, name.len() - suffix.len()), u64::MAX as nat)
    } else {
        None
    }
}

/// Where the metrics of a project are kept on disk.
#[derive(Debug, Clone)]
pub struct MetricsStore {
    metrics_file: String,
    history_dir: String,
}

impl MetricsStore {
    /// The file that holds the current metrics.
    pub closed spec fn spec_metrics_file(&self) -> Seq<char> {
        self.metrics_file@
    }

    /// The directory that holds archived metrics.
    pub closed spec fn spec_history_dir(&self) -> Seq<char> {
        self.history_dir@
    }

    /// The store of the project whose beads directory is `beads_dir`.
    pub fn new(beads_dir: &str) -> (s: Self)
        ensures
            s.spec_metrics_file() == path_join(beads_dir@, "beads-workers-metrics.json"@),
            s.spec_history_dir() == path_join(beads_dir@, "metrics-history"@),
    {
        MetricsStore {
            metrics_file: path_join_exec(beads_dir, "beads-workers-metrics.json"),
            history_dir: path_join_exec(beads_dir, "metrics-history"),
        }
    }

    /// The file that holds the current metrics.
    pub fn metrics_file(&self) -> (r: &str)
        ensures
            r@ == self.spec_metrics_file(),
    {
        self.metrics_file.as_str()
    }

    /// The directory that holds archived metrics.
    pub fn history_dir(&self) -> (r: &str)
        ensures
            r@ == self.spec_history_dir(),
    {
        self.history_dir.as_str()
    }

    /// The file that archives metrics taken at `timestamp`.
    pub fn archive_path(&self, timestamp: u64) -> (r: String)
        ensures
            r@ == path_join(self.spec_history_dir(), "metrics-"@ + decimal(timestamp as nat) + ".json"@),
    {
        let mut name = String::new();
        push_str(&mut name, "metrics-");
        push_decimal(&mut name, timestamp);
        push_str(&mut name, ".json");
        path_join_exec(self.history_dir.as_str(), name.as_str())
    }

    /// The log of task events of the project whose beads directory is `beads_dir`.
    pub fn event_log_path(beads_dir: &str) -> (r: String)
        ensures
            r@ == path_join(beads_dir@, "beads-workers-events.jsonl"@),
    {
        path_join_exec(beads_dir, "beads-workers-events.jsonl")
    }

    /// The timestamp in an archive's file name (see `archive_timestamp`).
    pub fn archive_timestamp(file_name: &str) -> (r: Option<u64>)
        ensures
            match r {
                Some(t) => archive_timestamp(file_name@) == Some(t as nat),
                None => archive_timestamp(file_name@) is None,
            },
    {
        let cs = crate::text::chars_of(file_name);
        let prefix = crate::text::chars_of("metrics-");
        let suffix = crate::text::chars_of(".json");
        proof {
            reveal_strlit("metrics-");
            reveal_strlit(".json");
        }
        let n = cs.len();
        if n < 13 {
            return None;
        }
        let mut i: usize = 0;
        while i < 8
            invariant
                i <= 8,
                n == cs@.len(),
                n >= 13,
                cs@ == file_name@,
                prefix@ == "metrics-"@,
                prefix@.len() == 8,
                forall|j: int| 0 <= j < i ==> cs@[j] == prefix@[j],
            decreases 8 - i,
        {
            if cs[i] != prefix[i] {
                assert(file_name@.take(8)[i as int] != "metrics-"@[i as int]);
                return None;
            }
            i += 1;
        }
        assert(file_name@.take(8) =~= "metrics-"@);
        let mut k: usize = 0;
        while k < 5
            invariant
                k <= 5,
                n == cs@.len(),
                n >= 13,
                cs@ == file_name@,
                suffix@ == ".json"@,
                suffix@.len() == 5,
                forall|j: int| 0 <= j < k ==> cs@[n - 5 + j] == suffix@[j],
            decreases 5 - k,
        {
            if cs[n - 5 + k] != suffix[k] {
                assert(file_name@.skip(n - 5)[k as int] != ".json"@[k as int]);
                return None;
            }
            k += 1;
        }
        assert(file_name@.skip(n - 5) =~= ".json"@);
        let middle = crate::text::string_from_chars_range(&cs, 8, n - 5);
        assert(middle@ =~= file_name@.subrange(8, n - 5));
        crate::text::parse_unsigned_exec(middle.as_str(), u64::MAX)
    }

    /// Whether the archive file `file_name` is to be deleted at `now`: it has
    /// the archive form and was taken more than `keep_days` days before `now`.
    pub fn is_expired_archive(file_name: &str, now: u64, keep_days: u64) -> (r: bool)
        requires
            keep_days * 86400 <= now,
        ensures
            r == match archive_timestamp(file_name@) {
                Some(t) => t < now - keep_days * 86400,
                None => false,
            },
    {
        let cutoff = now - keep_days * 86400;
        match Self::archive_timestamp(file_name) {
            Some(t) => t < cutoff,
            None => false,
        }
    }
}

/// The file name an archive gets reads back as its timestamp.
pub proof fn lemma_archive_name_round_trip(timestamp: u64)
    ensures
        archive_timestamp("metrics-"@ + decimal(timestamp as nat) + ".json"@) == Some(timestamp as nat),
{
    reveal_strlit("metrics-");
    reveal_strlit(".json");
    let d = decimal(timestamp as nat);
    let name = "metrics-"@ + d + ".json"@;
    crate::text::lemma_decimal_len(timestamp as nat);
    assert(name.take(8) =~= "metrics-"@);
    assert(name.skip(name.len() - 5) =~= ".json"@);
    assert(name.subrange(8, name.len() - 5) =~= d);
    crate::text::lemma_parse_decimal(timestamp as nat, u64::MAX as nat);
}

/// One more error of category `t` stays within the counters' range.
pub open spec fn error_fits(e: ErrorMetrics, t: Seq<char>) -> bool {
    &&& e.total_errors < u64::MAX
    &&& e.counts().contains_key(t) ==> e.counts()[t] < u64::MAX
}

/// The error tracking after an error: one more in all and in its category, and
/// the error appended to the recent errors, the oldest dropped once there are
/// more than `MAX_RECENT_ERRORS`.
pub open spec fn errors_after(
    before: ErrorMetrics,
    after: ErrorMetrics,
    message: Seq<char>,
    t: Seq<char>,
    worker_id: Option<Seq<char>>,
    issue_id: Option<Seq<char>>,
    now: u64,
) -> bool {
    let r = after.recent_errors@.last();
    &&& after.wf()
    &&& after.total_errors == before.total_errors + 1
    &&& counts_after(before, after, t)
    &&& after.recent_errors@.len() > 0
    &&& after.recent_errors@ == trimmed(
        before.recent_errors@.push(r),
        MAX_RECENT_ERRORS as int,
        RECENT_ERRORS_TRIM as int,
    )
    &&& r.message@ == message
    &&& r.error_type@ == t
    &&& match r.worker_id { Some(w) => worker_id == Some(w@), None => worker_id is None }
    &&& match r.issue_id { Some(i) => issue_id == Some(i@), None => issue_id is None }
    &&& r.timestamp == now
}

/// Removes the first `n` elements (there are more than `n`).
fn drain_front<T>(v: &mut Vec<T>, n: usize)
    requires
        old(v)@.len() > n,
    ensures
        final(v)@ == old(v)@.subrange(n as int, old(v)@.len() as int),
{
    let ghost orig = v@;
    let mut i: usize = 0;
    while i < n
        invariant
            i <= n,
            n < orig.len(),
            v@ == orig.subrange(i as int, orig.len() as int),
        decreases n - i,
    {
        v.remove(0);
        assert(v@ =~= orig.subrange(i as int + 1, orig.len() as int));
        i += 1;
    }
}

/// Sorts durations in non-decreasing order.
///
/// Trusted: it calls `slice::sort_unstable`, which std documents as sorting the
/// slice; the claim is that the result is in non-decreasing order and holds the
/// same values as before, each as often.
#[verifier::external_body]
fn sort_ascending(v: &mut Vec<u64>)
    ensures
        ascending(final(v)@),
        final(v)@.to_multiset() == old(v)@.to_multiset(),
{
    v.sort_unstable();
}

/// Two sorted sequences that hold the same values equally often are equal.
pub proof fn lemma_sorted_unique(a: Seq<u64>, b: Seq<u64>)
    requires
        ascending(a),
        ascending(b),
        a.to_multiset() == b.to_multiset(),
    ensures
        a == b,
    decreases a.len(),
{
    broadcast use vstd::seq_lib::group_to_multiset_ensures;
    assert(a.len() == a.to_multiset().len());
    assert(b.len() == b.to_multiset().len());
    if a.len() == 0 {
        assert(a =~= b);
    } else {
        let x = a.last();
        let y = b.last();
        let a0 = a.drop_last();
        let b0 = b.drop_last();
        assert(a0.push(x) =~= a);
        assert(b0.push(y) =~= b);
        assert(a.contains(x)) by { assert(a[a.len() - 1] == x); }
        assert(b.contains(y)) by { assert(b[b.len() - 1] == y); }
        assert(b.to_multiset().count(x) > 0);
        assert(a.to_multiset().count(y) > 0);
        assert(x <= y) by {
            let j = choose|j: int| 0 <= j < b.len() && b[j] == x;
            assert(b[j] <= b[b.len() - 1]);
        }
        assert(y <= x) by {
            let j = choose|j: int| 0 <= j < a.len() && a[j] == y;
            assert(a[j] <= a[a.len() - 1]);
        }
        assert(a0.to_multiset().insert(x) =~= b0.to_multiset().insert(x));
        assert(a0.to_multiset() =~= b0.to_multiset()) by {
            assert forall|v: u64| a0.to_multiset().count(v) == b0.to_multiset().count(v) by {
                assert(a0.to_multiset().insert(x).count(v) == b0.to_multiset().insert(x).count(v));
            }
        }
        lemma_sorted_unique(a0, b0);
    }
}

/// Only workers that finished a task are ranked by success rate, and each is
/// one of the registered workers.
pub proof fn lemma_lowest_success_finished_tasks(ws: Seq<WorkerPerformanceMetrics>, limit: nat, i: int)
    requires
        0 <= i < ranked(with_tasks(ws), |x: WorkerPerformanceMetrics, y: WorkerPerformanceMetrics| less_successful(x, y), limit).len(),
    ensures
        ({
            let w = ranked(with_tasks(ws), |x: WorkerPerformanceMetrics, y: WorkerPerformanceMetrics| less_successful(x, y), limit)[i];
            &&& w.tasks_completed + w.tasks_failed > 0
            &&& ws.contains(w)
        }),
{
    let f = |x: WorkerPerformanceMetrics, y: WorkerPerformanceMetrics| less_successful(x, y);
    let keep = |w: WorkerPerformanceMetrics| w.spec_total_tasks() > 0;
    let w = ranked(with_tasks(ws), f, limit)[i];
    lemma_ranked_members(with_tasks(ws), f, limit, i);
    let k = choose|k: int| 0 <= k < with_tasks(ws).len() && with_tasks(ws)[k] == w;
    assert(with_tasks(ws) == ws.filter(keep));
    ws.lemma_filter_pred(keep, k);
    assert(ws.filter(keep).contains(w));
    ws.lemma_filter_contains_rev(keep, w);
}

/// The sum of a sequence of counts.
pub open spec fn count_total(s: Seq<u64>) -> int
    decreases s.len(),
{
    if s.len() == 0 { 0 } else { count_total(s.drop_last()) + s.last() }
}

/// The per-category error counts, in category order.
pub open spec fn category_counts(e: ErrorMetrics) -> Seq<u64> {
    e.errors_by_type@.map_values(|p: (String, u64)| p.1)
}

proof fn lemma_count_total_bump(s: Seq<u64>, k: int)
    requires
        0 <= k < s.len(),
        s[k] < u64::MAX,
    ensures
        count_total(s.update(k, (s[k] + 1) as u64)) == count_total(s) + 1,
    decreases s.len(),
{
    let u = s.update(k, (s[k] + 1) as u64);
    if k == s.len() - 1 {
        assert(u.drop_last() =~= s.drop_last());
    } else {
        lemma_count_total_bump(s.drop_last(), k);
        assert(u.drop_last() =~= s.drop_last().update(k, (s[k] + 1) as u64));
    }
}

/// The error total is the sum of the per-category counts, and at most
/// `MAX_RECENT_ERRORS` recent errors are kept: recording an error (from `before`
/// to `after`) keeps both if they held before.
pub proof fn lemma_error_total_is_sum(
    before: ErrorMetrics,
    after: ErrorMetrics,
    message: Seq<char>,
    t: Seq<char>,
    worker_id: Option<Seq<char>>,
    issue_id: Option<Seq<char>>,
    now: u64,
)
    requires
        before.wf(),
        error_fits(before, t),
        before.total_errors == count_total(category_counts(before)),
        before.recent_errors@.len() <= MAX_RECENT_ERRORS,
        errors_after(before, after, message, t, worker_id, issue_id, now),
    ensures
        after.total_errors == count_total(category_counts(after)),
        after.recent_errors@.len() <= MAX_RECENT_ERRORS,
{
    let bt = before.types();
    let at = after.types();
    let bv = category_counts(before);
    let av = category_counts(after);
    assert(bv.len() == bt.len());
    assert(av.len() == at.len());
    if bt.contains(t) {
        let k = bt.index_of(t);
        assert(at == bt);
        assert forall|i: int| 0 <= i < av.len() implies #[trigger] av[i] == (if i == k { (bv[k] + 1) as u64 } else { bv[i] }) by {
            lemma_index_of_distinct(at, i);
            lemma_index_of_distinct(bt, i);
            assert(after.counts()[at[i]] == av[i]);
            assert(before.counts()[bt[i]] == bv[i]);
            if at[i] == t {
                lemma_index_of_distinct(bt, k);
            }
        }
        assert(before.counts()[t] == bv[k]);
        assert(av =~= bv.update(k, (bv[k] + 1) as u64));
        lemma_count_total_bump(bv, k);
    } else {
        assert(at == bt.push(t));
        assert forall|i: int| 0 <= i < av.len() implies #[trigger] av[i] == (if i == bv.len() { 1u64 } else { bv[i] }) by {
            lemma_index_of_distinct(at, i);
            assert(after.counts()[at[i]] == av[i]);
            if i < bv.len() {
                lemma_index_of_distinct(bt, i);
                assert(before.counts()[bt[i]] == bv[i]);
            }
        }
        assert(av =~= bv.push(1u64));
        assert(av.drop_last() =~= bv);
    }
}

/// In a sequence without duplicates, the position of the element at `i` is `i`.
pub proof fn lemma_index_of_distinct(s: Seq<Seq<char>>, i: int)
    requires
        s.no_duplicates(),
        0 <= i < s.len(),
    ensures
        s.index_of(s[i]) == i,
        s.contains(s[i]),
{
    let x = s[i];
    assert(s.contains(x));
    let j = s.index_of(x);
    assert(s[j] == x);
}

} // verus!
