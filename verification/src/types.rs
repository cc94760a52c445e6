//! Core data: the messages exchanged between workers and the orchestrator,
//! worker states, the priority task queue, the worker registry and the
//! orchestrator's and worker's settings.
//!
//! Timestamps are whole milliseconds since the Unix epoch; times kept by the
//! queue and the registry are whole seconds since the Unix epoch.

use vstd::prelude::*;
use std::collections::VecDeque;
use crate::text::{decimal, lemma_decimal_injective, push_decimal};

verus! {

/// The system clock's reading: whole seconds since the Unix epoch and the
/// nanoseconds past them; (0, 0) when the clock reads a time before 1970.
///
/// Trusted: it calls `SystemTime::now` and `duration_since(UNIX_EPOCH)`, whose
/// error (a clock before the epoch) gives (0, 0), then `Duration::as_secs` and
/// `Duration::subsec_nanos`; the claim is only that the nanoseconds are below one
/// second, as std documents for `subsec_nanos`. Nothing is stated of the time,
/// which depends on the clock.
#[verifier::external_body]
pub(crate) fn clock_reading() -> (r: (u64, u32))
    ensures
        r.1 < 1_000_000_000,
{
    match std::time::SystemTime::now().duration_since(std::time::UNIX_EPOCH) {
        Ok(elapsed) => (elapsed.as_secs(), elapsed.subsec_nanos()),
        Err(_) => (0, 0),
    }
}

/// The milliseconds of a clock reading of `secs` seconds and `nanos`
/// nanoseconds, at most `u64::MAX`.
pub open spec fn millis_of(secs: u64, nanos: u32) -> u64 {
    let ms = secs * 1000 + nanos / 1_000_000;
    if ms <= u64::MAX { ms as u64 } else { u64::MAX }
}

/// The current Unix time in milliseconds, read from the system clock (0 when
/// the clock reads a time before 1970).
pub fn get_timestamp() -> (ms: u64)
    ensures
        exists|secs: u64, nanos: u32| nanos < 1_000_000_000 && ms == millis_of(secs, nanos),
{
    let (secs, nanos) = clock_reading();
    let extra = (nanos / 1_000_000) as u64;
    let ms = if secs <= u64::MAX / 1000 && secs * 1000 <= u64::MAX - extra {
        secs * 1000 + extra
    } else {
        u64::MAX
    };
    assert(ms == millis_of(secs, nanos));
    ms
}

/// The current Unix time in whole seconds.
pub fn unix_seconds() -> (secs: u64)
    ensures
        secs <= u64::MAX / 1000,
{
    get_timestamp() / 1000
}

// ============================================================================
// Messages (worker -> orchestrator)
// ============================================================================

/// Messages sent from a worker to the orchestrator.
#[derive(Debug, Clone, PartialEq)]
pub enum WorkerMessage {
    /// The worker is idle and ready to receive a task.
    Ready { worker_id: String, timestamp_ms: u64 },
    /// The worker completed its assigned task.
    Done { worker_id: String, timestamp_ms: u64, issue_id: String, duration_ms: u64 },
    /// The worker failed its assigned task.
    Failed {
        worker_id: String,
        timestamp_ms: u64,
        issue_id: String,
        error: String,
        duration_ms: u64,
    },
}

impl WorkerMessage {
    /// The worker id carried by any variant.
    pub open spec fn spec_worker_id(&self) -> Seq<char> {
        match self {
            WorkerMessage::Ready { worker_id, .. } => worker_id@,
            WorkerMessage::Done { worker_id, .. } => worker_id@,
            WorkerMessage::Failed { worker_id, .. } => worker_id@,
        }
    }

    /// The timestamp carried by any variant.
    pub open spec fn spec_timestamp(&self) -> u64 {
        match self {
            WorkerMessage::Ready { timestamp_ms, .. } => *timestamp_ms,
            WorkerMessage::Done { timestamp_ms, .. } => *timestamp_ms,
            WorkerMessage::Failed { timestamp_ms, .. } => *timestamp_ms,
        }
    }

    /// A READY message stamped with the given time.
    pub fn ready_at(worker_id: String, timestamp_ms: u64) -> (m: Self)
        ensures
            m == (WorkerMessage::Ready { worker_id, timestamp_ms }),
    {
        WorkerMessage::Ready { worker_id, timestamp_ms }
    }

    /// A DONE message stamped with the given time.
    pub fn done_at(worker_id: String, issue_id: String, duration_ms: u64, timestamp_ms: u64) -> (m: Self)
        ensures
            m == (WorkerMessage::Done { worker_id, timestamp_ms, issue_id, duration_ms }),
    {
        WorkerMessage::Done { worker_id, timestamp_ms, issue_id, duration_ms }
    }

    /// A FAILED message stamped with the given time.
    pub fn failed_at(
        worker_id: String,
        issue_id: String,
        error: String,
        duration_ms: u64,
        timestamp_ms: u64,
    ) -> (m: Self)
        ensures
            m == (WorkerMessage::Failed { worker_id, timestamp_ms, issue_id, error, duration_ms }),
    {
        WorkerMessage::Failed { worker_id, timestamp_ms, issue_id, error, duration_ms }
    }

    /// A READY message stamped with the current time.
    pub fn ready(worker_id: String) -> (m: Self)
        ensures
            m == (WorkerMessage::Ready { worker_id, timestamp_ms: m.spec_timestamp() }),
    {
        Self::ready_at(worker_id, get_timestamp())
    }

    /// A DONE message stamped with the current time.
    pub fn done(worker_id: String, issue_id: String, duration_ms: u64) -> (m: Self)
        ensures
            m == (WorkerMessage::Done {
                worker_id,
                timestamp_ms: m.spec_timestamp(),
                issue_id,
                duration_ms,
            }),
    {
        Self::done_at(worker_id, issue_id, duration_ms, get_timestamp())
    }

    /// A FAILED message stamped with the current time.
    pub fn failed(worker_id: String, issue_id: String, error: String, duration_ms: u64) -> (m: Self)
        ensures
            m == (WorkerMessage::Failed {
                worker_id,
                timestamp_ms: m.spec_timestamp(),
                issue_id,
                error,
                duration_ms,
            }),
    {
        Self::failed_at(worker_id, issue_id, error, duration_ms, get_timestamp())
    }

    /// The worker id of any variant.
    pub fn worker_id(&self) -> (r: &str)
        ensures
            r@ == self.spec_worker_id(),
    {
        match self {
            WorkerMessage::Ready { worker_id, .. } => worker_id.as_str(),
            WorkerMessage::Done { worker_id, .. } => worker_id.as_str(),
            WorkerMessage::Failed { worker_id, .. } => worker_id.as_str(),
        }
    }

    /// The timestamp (milliseconds) of any variant.
    pub fn timestamp(&self) -> (r: u64)
        ensures
            r == self.spec_timestamp(),
    {
        match self {
            WorkerMessage::Ready { timestamp_ms, .. } => *timestamp_ms,
            WorkerMessage::Done { timestamp_ms, .. } => *timestamp_ms,
            WorkerMessage::Failed { timestamp_ms, .. } => *timestamp_ms,
        }
    }
}

// ============================================================================
// Messages (orchestrator -> worker)
// ============================================================================

/// Why a worker is asked to shut down.
#[derive(Debug, Clone, Copy, PartialEq, Eq, Structural)]
pub enum ShutdownReason {
    /// The user asked for the shutdown.
    UserRequested,
    /// An error requires the shutdown.
    Error,
    /// The worker was idle for too long.
    IdleTimeout,
}

/// Messages sent from the orchestrator to a worker.
#[derive(Debug, Clone, PartialEq)]
pub enum OrchestratorMessage {
    /// Assign a task to the worker.
    Task { worker_id: String, timestamp_ms: u64, issue_id: String, priority: u8, title: String },
    /// No task is available; the worker should wait.
    Wait { worker_id: String, timestamp_ms: u64, wait_seconds: u32 },
    /// The worker should shut down.
    Shutdown { worker_id: String, timestamp_ms: u64, reason: ShutdownReason },
}

impl OrchestratorMessage {
    /// The worker id carried by any variant.
    pub open spec fn spec_worker_id(&self) -> Seq<char> {
        match self {
            OrchestratorMessage::Task { worker_id, .. } => worker_id@,
            OrchestratorMessage::Wait { worker_id, .. } => worker_id@,
            OrchestratorMessage::Shutdown { worker_id, .. } => worker_id@,
        }
    }

    /// The timestamp carried by any variant.
    pub open spec fn spec_timestamp(&self) -> u64 {
        match self {
            OrchestratorMessage::Task { timestamp_ms, .. } => *timestamp_ms,
            OrchestratorMessage::Wait { timestamp_ms, .. } => *timestamp_ms,
            OrchestratorMessage::Shutdown { timestamp_ms, .. } => *timestamp_ms,
        }
    }

    /// A TASK message stamped with the given time.
    pub fn task_at(
        worker_id: String,
        issue_id: String,
        priority: u8,
        title: String,
        timestamp_ms: u64,
    ) -> (m: Self)
        ensures
            m == (OrchestratorMessage::Task { worker_id, timestamp_ms, issue_id, priority, title }),
    {
        OrchestratorMessage::Task { worker_id, timestamp_ms, issue_id, priority, title }
    }

    /// A WAIT message stamped with the given time.
    pub fn wait_at(worker_id: String, wait_seconds: u32, timestamp_ms: u64) -> (m: Self)
        ensures
            m == (OrchestratorMessage::Wait { worker_id, timestamp_ms, wait_seconds }),
    {
        OrchestratorMessage::Wait { worker_id, timestamp_ms, wait_seconds }
    }

    /// A SHUTDOWN message stamped with the given time.
    pub fn shutdown_at(worker_id: String, reason: ShutdownReason, timestamp_ms: u64) -> (m: Self)
        ensures
            m == (OrchestratorMessage::Shutdown { worker_id, timestamp_ms, reason }),
    {
        OrchestratorMessage::Shutdown { worker_id, timestamp_ms, reason }
    }

    /// A TASK message stamped with the current time.
    pub fn task(worker_id: String, issue_id: String, priority: u8, title: String) -> (m: Self)
        ensures
            m == (OrchestratorMessage::Task {
                worker_id,
                timestamp_ms: m.spec_timestamp(),
                issue_id,
                priority,
                title,
            }),
    {
        Self::task_at(worker_id, issue_id, priority, title, get_timestamp())
    }

    /// A WAIT message stamped with the current time.
    pub fn wait(worker_id: String, wait_seconds: u32) -> (m: Self)
        ensures
            m == (OrchestratorMessage::Wait { worker_id, timestamp_ms: m.spec_timestamp(), wait_seconds }),
    {
        Self::wait_at(worker_id, wait_seconds, get_timestamp())
    }

    /// A SHUTDOWN message stamped with the current time.
    pub fn shutdown(worker_id: String, reason: ShutdownReason) -> (m: Self)
        ensures
            m == (OrchestratorMessage::Shutdown { worker_id, timestamp_ms: m.spec_timestamp(), reason }),
    {
        Self::shutdown_at(worker_id, reason, get_timestamp())
    }

    /// The worker id of any variant.
    pub fn worker_id(&self) -> (r: &str)
        ensures
            r@ == self.spec_worker_id(),
    {
        match self {
            OrchestratorMessage::Task { worker_id, .. } => worker_id.as_str(),
            OrchestratorMessage::Wait { worker_id, .. } => worker_id.as_str(),
            OrchestratorMessage::Shutdown { worker_id, .. } => worker_id.as_str(),
        }
    }

    /// The timestamp (milliseconds) of any variant.
    pub fn timestamp(&self) -> (r: u64)
        ensures
            r == self.spec_timestamp(),
    {
        match self {
            OrchestratorMessage::Task { timestamp_ms, .. } => *timestamp_ms,
            OrchestratorMessage::Wait { timestamp_ms, .. } => *timestamp_ms,
            OrchestratorMessage::Shutdown { timestamp_ms, .. } => *timestamp_ms,
        }
    }
}

// ============================================================================
// Worker state
// ============================================================================

/// The state of a worker as the orchestrator sees it.
#[derive(Debug, Clone, Copy, PartialEq, Eq, Structural, Hash)]
pub enum WorkerState {
    /// Idle and ready to receive tasks.
    Idle,
    /// Executing a task.
    Working,
    /// Waiting before sending the next READY.
    Waiting,
    /// Shutting down.
    ShuttingDown,
    /// Disconnected.
    Disconnected,
}

// ============================================================================
// Task queue
// ============================================================================

/// A task waiting to be assigned.
#[derive(Debug, Clone, PartialEq, Eq)]
pub struct Task {
    /// Beads issue id.
    pub issue_id: String,
    /// Priority: 0 is the highest, 4 the lowest.
    pub priority: u8,
    /// Brief description.
    pub title: String,
    /// When the task was queued (Unix seconds).
    pub queued_at: u64,
}

impl Task {
    /// A task queued at the given time.
    pub fn new_at(issue_id: String, priority: u8, title: String, queued_at: u64) -> (t: Self)
        ensures
            t == (Task { issue_id, priority, title, queued_at }),
    {
        Task { issue_id, priority, title, queued_at }
    }

    /// A task queued now.
    pub fn new(issue_id: String, priority: u8, title: String) -> (t: Self)
        ensures
            t == (Task { issue_id, priority, title, queued_at: t.queued_at }),
    {
        Self::new_at(issue_id, priority, title, unix_seconds())
    }
}

/// The number of priority lanes of the task queue.
pub const PRIORITY_LANES: usize = 5;

/// The lane a priority is queued in: priorities above 4 share the lowest lane.
pub open spec fn lane_of(priority: u8) -> int {
    if priority < 4 { priority as int } else { 4 }
}

/// The tasks of `lanes[from..]`, lane after lane.
pub open spec fn flatten_from(lanes: Seq<Seq<Task>>, from: int) -> Seq<Task>
    decreases lanes.len() - from,
{
    if from >= lanes.len() || from < 0 {
        Seq::empty()
    } else {
        lanes[from] + flatten_from(lanes, from + 1)
    }
}

/// Each lane holds only tasks of its own priority.
pub open spec fn lanes_hold_their_priority(lanes: Seq<Seq<Task>>) -> bool {
    forall|i: int, k: int| 0 <= i < lanes.len() && 0 <= k < lanes[i].len() ==> lane_of(#[trigger] lanes[i][k].priority) == i
}

/// A queue that hands out tasks by priority, first come first served within a priority.
#[derive(Debug)]
pub struct TaskQueue {
    queues: Vec<VecDeque<Task>>,
}

impl View for TaskQueue {
    /// The five lanes, highest priority first.
    type V = Seq<Seq<Task>>;

    closed spec fn view(&self) -> Seq<Seq<Task>> {
        self.queues@.map_values(|q: VecDeque<Task>| q@)
    }
}

impl TaskQueue {
    /// The queue's invariant: exactly five lanes, each holding only tasks of
    /// its own priority.
    pub closed spec fn wf(&self) -> bool {
        &&& self.queues@.len() == PRIORITY_LANES
        &&& lanes_hold_their_priority(self@)
    }

    /// The tasks in the order the queue hands them out.
    pub open spec fn pending(&self) -> Seq<Task> {
        flatten_from(self@, 0)
    }

    /// An empty queue.
    pub fn new() -> (q: Self)
        ensures
            q.wf(),
            q@ == seq![Seq::<Task>::empty(), Seq::empty(), Seq::empty(), Seq::empty(), Seq::empty()],
    {
        let mut queues: Vec<VecDeque<Task>> = Vec::new();
        queues.push(VecDeque::new());
        queues.push(VecDeque::new());
        queues.push(VecDeque::new());
        queues.push(VecDeque::new());
        queues.push(VecDeque::new());
        let q = TaskQueue { queues };
        assert(q@ =~= seq![Seq::<Task>::empty(), Seq::empty(), Seq::empty(), Seq::empty(), Seq::empty()]);
        assert(lanes_hold_their_priority(q@));
        q
    }

    /// Adds a task behind the tasks of its priority lane.
    pub fn push(&mut self, task: Task)
        requires
            old(self).wf(),
        ensures
            final(self).wf(),
            final(self)@ == old(self)@.update(lane_of(task.priority), old(self)@[lane_of(task.priority)].push(task)),
    {
        let lane: usize = if task.priority < 4 { task.priority as usize } else { 4 };
        let ghost p = task;
        self.queues[lane].push_back(task);
        assert(self@ =~= old(self)@.update(lane_of(p.priority), old(self)@[lane_of(p.priority)].push(p)));
        assert forall|i: int, k: int| 0 <= i < self@.len() && 0 <= k < self@[i].len() implies lane_of(#[trigger] self@[i][k].priority) == i by {
            if i == lane as int && k == old(self)@[i].len() {
                assert(self@[i][k] == p);
            } else {
                assert(self@[i][k] == old(self)@[i][k]);
            }
        }
    }

    /// Removes and returns the first task of the highest-priority non-empty lane.
    pub fn pop(&mut self) -> (r: Option<Task>)
        requires
            old(self).wf(),
        ensures
            final(self).wf(),
            match r {
                Some(t) => {
                    &&& old(self).pending().len() > 0
                    &&& t == old(self).pending()[0]
                    &&& final(self).pending() == old(self).pending().drop_first()
                },
                None => {
                    &&& old(self).pending().len() == 0
                    &&& final(self)@ == old(self)@
                },
            },
    {
        let mut i: usize = 0;
        while i < PRIORITY_LANES
            invariant
                self.wf(),
                self@ == old(self)@,
                i <= PRIORITY_LANES,
                forall|j: int| 0 <= j < i ==> self@[j].len() == 0,
            decreases PRIORITY_LANES - i,
        {
            if self.queues[i].len() > 0 {
                let t = self.queues[i].pop_front();
                proof {
                    assert(self@ =~= old(self)@.update(i as int, old(self)@[i as int].drop_first()));
                    assert forall|a: int, k: int| 0 <= a < self@.len() && 0 <= k < self@[a].len() implies lane_of(#[trigger] self@[a][k].priority) == a by {
                        if a == i as int {
                            assert(self@[a][k] == old(self)@[a][k + 1]);
                        } else {
                            assert(self@[a][k] == old(self)@[a][k]);
                        }
                    }
                    lemma_flatten_skip_empty(old(self)@, 0, i as int);
                    lemma_flatten_skip_empty(self@, 0, i as int);
                    lemma_flatten_unchanged_after(old(self)@, self@, i as int + 1);
                    let l = old(self)@[i as int];
                    assert(self@[i as int] =~= l.drop_first());
                    assert(flatten_from(old(self)@, i as int) == l + flatten_from(old(self)@, i as int + 1));
                    assert(flatten_from(self@, i as int) == l.drop_first() + flatten_from(self@, i as int + 1));
                    assert((l + flatten_from(old(self)@, i as int + 1)).drop_first()
                        =~= l.drop_first() + flatten_from(old(self)@, i as int + 1));
                }
                return t;
            }
            i += 1;
        }
        proof {
            lemma_flatten_skip_empty(self@, 0, PRIORITY_LANES as int);
        }
        None
    }

    /// No task is queued.
    pub fn is_empty(&self) -> (r: bool)
        requires
            self.wf(),
        ensures
            r == (self.pending().len() == 0),
    {
        let mut i: usize = 0;
        while i < PRIORITY_LANES
            invariant
                self.wf(),
                i <= PRIORITY_LANES,
                forall|j: int| 0 <= j < i ==> self@[j].len() == 0,
            decreases PRIORITY_LANES - i,
        {
            if self.queues[i].len() > 0 {
                proof {
                    lemma_flatten_skip_empty(self@, 0, i as int);
                }
                return false;
            }
            i += 1;
        }
        proof {
            lemma_flatten_skip_empty(self@, 0, PRIORITY_LANES as int);
        }
        true
    }

    /// The number of queued tasks.
    pub fn len(&self) -> (n: usize)
        requires
            self.wf(),
            self.pending().len() <= usize::MAX,
        ensures
            n == self.pending().len(),
    {
        let mut n: usize = 0;
        let mut i: usize = PRIORITY_LANES;
        proof {
            lemma_flatten_len_bound(self@, 0, PRIORITY_LANES as int);
        }
        while i > 0
            invariant
                self.wf(),
                i <= PRIORITY_LANES,
                self.pending().len() <= usize::MAX,
                n == flatten_from(self@, i as int).len(),
                forall|k: int| 0 <= k <= PRIORITY_LANES ==>
                    #[trigger] flatten_from(self@, k).len() <= self.pending().len(),
            decreases i,
        {
            i -= 1;
            assert(flatten_from(self@, i as int) == self@[i as int] + flatten_from(self@, i as int + 1));
            n = n + self.queues[i].len();
        }
        n
    }

    /// The tasks queued at a priority (priorities above 4 share the lowest lane).
    pub fn tasks_at_priority(&self, priority: u8) -> (r: &VecDeque<Task>)
        requires
            self.wf(),
        ensures
            r@ == self@[lane_of(priority)],
            priority < 4 ==> forall|k: int| 0 <= k < r@.len() ==> (#[trigger] r@[k]).priority == priority,
            priority >= 4 ==> forall|k: int| 0 <= k < r@.len() ==> (#[trigger] r@[k]).priority >= 4,
    {
        proof { self.lemma_lanes(); }
        let lane: usize = if priority < 4 { priority as usize } else { 4 };
        &self.queues[lane]
    }
}

/// Empty lanes before `to` contribute nothing.
pub proof fn lemma_flatten_skip_empty(lanes: Seq<Seq<Task>>, from: int, to: int)
    requires
        0 <= from <= to <= lanes.len(),
        forall|j: int| from <= j < to ==> lanes[j].len() == 0,
    ensures
        flatten_from(lanes, from) == flatten_from(lanes, to),
    decreases to - from,
{
    if from < to {
        lemma_flatten_skip_empty(lanes, from + 1, to);
        assert(lanes[from] + flatten_from(lanes, from + 1) =~= flatten_from(lanes, from + 1));
    }
}

/// Lanes that agree from `from` on flatten alike.
pub proof fn lemma_flatten_unchanged_after(a: Seq<Seq<Task>>, b: Seq<Seq<Task>>, from: int)
    requires
        a.len() == b.len(),
        0 <= from <= a.len(),
        forall|j: int| from <= j < a.len() ==> a[j] == b[j],
    ensures
        flatten_from(a, from) == flatten_from(b, from),
    decreases a.len() - from,
{
    if from < a.len() {
        lemma_flatten_unchanged_after(a, b, from + 1);
    }
}

/// Later suffixes of the flattening are no longer than earlier ones.
pub proof fn lemma_flatten_len_bound(lanes: Seq<Seq<Task>>, from: int, to: int)
    requires
        0 <= from <= to <= lanes.len(),
    ensures
        forall|k: int| from <= k <= to ==> #[trigger] flatten_from(lanes, k).len() <= flatten_from(lanes, from).len(),
    decreases to - from,
{
    if from < to {
        lemma_flatten_len_bound(lanes, from + 1, to);
    }
}


/// The tasks of `lanes[from..]` all belong to lane `from` or a lower one, and
/// come in order of their lanes.
proof fn lemma_flatten_sorted(lanes: Seq<Seq<Task>>, from: int)
    requires
        lanes_hold_their_priority(lanes),
        0 <= from <= lanes.len(),
    ensures
        forall|i: int| 0 <= i < flatten_from(lanes, from).len() ==> lane_of(#[trigger] flatten_from(lanes, from)[i].priority) >= from,
        forall|i: int, j: int| 0 <= i <= j < flatten_from(lanes, from).len() ==>
            lane_of(#[trigger] flatten_from(lanes, from)[i].priority) <= lane_of(#[trigger] flatten_from(lanes, from)[j].priority),
    decreases lanes.len() - from,
{
    if from < lanes.len() {
        lemma_flatten_sorted(lanes, from + 1);
        let head = lanes[from];
        let rest = flatten_from(lanes, from + 1);
        let all = flatten_from(lanes, from);
        assert(all == head + rest);
        assert forall|i: int| 0 <= i < all.len() implies lane_of(#[trigger] all[i].priority) >= from by {
            if i < head.len() {
                assert(all[i] == lanes[from][i]);
            } else {
                assert(all[i] == rest[i - head.len()]);
            }
        }
        assert forall|i: int, j: int| 0 <= i <= j < all.len() implies
            lane_of(#[trigger] all[i].priority) <= lane_of(#[trigger] all[j].priority) by {
            if j < head.len() {
                assert(all[i] == lanes[from][i]);
                assert(all[j] == lanes[from][j]);
            } else if i < head.len() {
                assert(all[i] == lanes[from][i]);
                assert(all[j] == rest[j - head.len()]);
            } else {
                assert(all[i] == rest[i - head.len()]);
                assert(all[j] == rest[j - head.len()]);
            }
        }
    }
}

/// Pushing onto lane `l` puts the task after the tasks of lanes up to `l`.
proof fn lemma_flatten_push(lanes: Seq<Seq<Task>>, l: int, t: Task, from: int)
    requires
        0 <= from <= l < lanes.len(),
    ensures
        flatten_from(lanes.update(l, lanes[l].push(t)), from)
            == flatten_from(lanes, from).take(flatten_from(lanes, from).len() - flatten_from(lanes, l + 1).len())
            + seq![t]
            + flatten_from(lanes, from).skip(flatten_from(lanes, from).len() - flatten_from(lanes, l + 1).len()),
    decreases l - from,
{
    let upd = lanes.update(l, lanes[l].push(t));
    lemma_flatten_unchanged_after(lanes, upd, l + 1);
    let tail = flatten_from(lanes, l + 1);
    if from == l {
        let f = flatten_from(lanes, l);
        assert(f == lanes[l] + tail);
        assert(flatten_from(upd, l) == lanes[l].push(t) + tail);
        assert(f.take(lanes[l].len() as int) =~= lanes[l]);
        assert(f.skip(lanes[l].len() as int) =~= tail);
        assert(flatten_from(upd, l) =~= f.take(lanes[l].len() as int) + seq![t] + f.skip(lanes[l].len() as int));
    } else {
        lemma_flatten_push(lanes, l, t, from + 1);
        lemma_flatten_suffix(lanes, from + 1, l + 1);
        let f1 = flatten_from(lanes, from + 1);
        let k1 = f1.len() - tail.len();
        let f = flatten_from(lanes, from);
        assert(f == lanes[from] + f1);
        assert(upd[from] == lanes[from]);
        assert(flatten_from(upd, from) == lanes[from] + flatten_from(upd, from + 1));
        let k = f.len() - tail.len();
        assert(k == lanes[from].len() + k1);
        assert(f.take(k) =~= lanes[from] + f1.take(k1));
        assert(f.skip(k) =~= f1.skip(k1));
        assert(flatten_from(upd, from) =~= f.take(k) + seq![t] + f.skip(k));
    }
}

impl TaskQueue {
    /// A valid queue has five lanes, one per priority, and holds as many tasks
    /// as its lanes together.
    pub proof fn lemma_lanes(&self)
        requires
            self.wf(),
        ensures
            self@.len() == PRIORITY_LANES,
            lanes_hold_their_priority(self@),
            self.pending().len() == self@[0].len() + self@[1].len() + self@[2].len() + self@[3].len() + self@[4].len(),
    {
        reveal_with_fuel(flatten_from, 6);
    }

    /// Tasks come out by priority value: a task is handed out before a later one
    /// of priority below 4 only if its own priority is no larger (priorities 4 and
    /// above share the lowest lane); in particular the first task out has the
    /// smallest priority among those below 4.
    pub proof fn lemma_pending_by_priority_value(&self)
        requires
            self.wf(),
        ensures
            forall|i: int, j: int| 0 <= i <= j < self.pending().len() && self.pending()[j].priority < 4 ==>
                (#[trigger] self.pending()[i]).priority <= (#[trigger] self.pending()[j]).priority,
    {
        self.lemma_pending_by_priority();
        assert forall|i: int, j: int| 0 <= i <= j < self.pending().len() && self.pending()[j].priority < 4 implies
            (#[trigger] self.pending()[i]).priority <= (#[trigger] self.pending()[j]).priority by {
            assert(lane_of(self.pending()[i].priority) <= lane_of(self.pending()[j].priority));
        }
    }

    /// The queued tasks come out by priority: a task is never handed out
    /// before one of a higher priority.
    pub proof fn lemma_pending_by_priority(&self)
        requires
            self.wf(),
        ensures
            forall|i: int, j: int| 0 <= i <= j < self.pending().len() ==>
                lane_of(#[trigger] self.pending()[i].priority) <= lane_of(#[trigger] self.pending()[j].priority),
    {
        lemma_flatten_sorted(self@, 0);
    }

    /// Pushing `t` (from `before` to `after`) puts it behind every queued task
    /// of its priority or a higher one, and ahead of every task of a lower
    /// priority: first come, first served within a priority.
    pub proof fn lemma_push_position(before: &TaskQueue, after: &TaskQueue, t: Task)
        requires
            before.wf(),
            after@ == before@.update(lane_of(t.priority), before@[lane_of(t.priority)].push(t)),
        ensures
            exists|k: int| {
                &&& 0 <= k <= before.pending().len()
                &&& after.pending() == before.pending().take(k) + seq![t] + before.pending().skip(k)
                &&& forall|i: int| 0 <= i < k ==> lane_of(#[trigger] before.pending()[i].priority) <= lane_of(t.priority)
                &&& forall|i: int| k <= i < before.pending().len() ==> lane_of(#[trigger] before.pending()[i].priority) > lane_of(t.priority)
            },
    {
        let l = lane_of(t.priority);
        let lanes = before@;
        lemma_flatten_push(lanes, l, t, 0);
        lemma_flatten_sorted(lanes, 0);
        lemma_flatten_sorted(lanes, l + 1);
        lemma_flatten_len_bound(lanes, 0, l + 1);
        let all = flatten_from(lanes, 0);
        let tail = flatten_from(lanes, l + 1);
        let k = all.len() - tail.len();
        lemma_flatten_suffix(lanes, 0, l + 1);
        assert forall|i: int| k <= i < all.len() implies lane_of(#[trigger] all[i].priority) > l by {
            assert(all[i] == tail[i - k]);
        }
        assert forall|i: int| 0 <= i < k implies lane_of(#[trigger] all[i].priority) <= l by {
            lemma_flatten_prefix_lanes(lanes, 0, l + 1, i);
        }
        let p = before.pending();
        assert(p == all);
        assert(after.pending() == p.take(k) + seq![t] + p.skip(k));
        assert(0 <= k <= p.len());
        assert(forall|i: int| 0 <= i < k ==> lane_of(#[trigger] p[i].priority) <= lane_of(t.priority));
        assert(forall|i: int| k <= i < p.len() ==> lane_of(#[trigger] p[i].priority) > lane_of(t.priority));
    }
}

/// The flattening from `from` ends with the flattening from a later `to`.
#[verifier::spinoff_prover]
proof fn lemma_flatten_suffix(lanes: Seq<Seq<Task>>, from: int, to: int)
    requires
        0 <= from <= to <= lanes.len(),
    ensures
        flatten_from(lanes, from).len() >= flatten_from(lanes, to).len(),
        flatten_from(lanes, from).skip(flatten_from(lanes, from).len() - flatten_from(lanes, to).len()) == flatten_from(lanes, to),
    decreases to - from,
{
    if from < to {
        lemma_flatten_suffix(lanes, from + 1, to);
        let f = flatten_from(lanes, from);
        let f1 = flatten_from(lanes, from + 1);
        let t = flatten_from(lanes, to);
        assert(f == lanes[from] + f1);
        assert(f.skip(f.len() - t.len()) =~= f1.skip(f1.len() - t.len()));
    } else {
        assert(flatten_from(lanes, from).skip(0) =~= flatten_from(lanes, from));
    }
}

/// The tasks ahead of the flattening from `to` come from lanes before `to`.
proof fn lemma_flatten_prefix_lanes(lanes: Seq<Seq<Task>>, from: int, to: int, i: int)
    requires
        lanes_hold_their_priority(lanes),
        0 <= from <= to <= lanes.len(),
        0 <= i < flatten_from(lanes, from).len() - flatten_from(lanes, to).len(),
    ensures
        lane_of(flatten_from(lanes, from)[i].priority) < to,
    decreases to - from,
{
    lemma_flatten_suffix(lanes, from, to);
    if from < to {
        let f = flatten_from(lanes, from);
        let f1 = flatten_from(lanes, from + 1);
        assert(f == lanes[from] + f1);
        if i < lanes[from].len() {
            assert(f[i] == lanes[from][i]);
        } else {
            lemma_flatten_suffix(lanes, from + 1, to);
            assert(f[i] == f1[i - lanes[from].len()]);
            lemma_flatten_prefix_lanes(lanes, from + 1, to, i - lanes[from].len());
        }
    }
}

// ============================================================================
// Worker registry
// ============================================================================

/// What the orchestrator knows of a registered worker.
#[derive(Debug, Clone)]
pub struct WorkerInfo {
    /// Worker id (e.g. "W1").
    pub worker_id: String,
    /// Current state.
    pub state: WorkerState,
    /// The issue the worker is working on, if any.
    pub current_task: Option<String>,
    /// When the worker was registered (Unix seconds).
    pub registered_at: u64,
    /// When the worker last sent a message (Unix seconds).
    pub last_seen: u64,
    /// Tasks completed by this worker.
    pub tasks_completed: u64,
    /// Tasks failed by this worker.
    pub tasks_failed: u64,
}

impl WorkerInfo {
    /// A fresh idle worker registered at `now`.
    pub fn new_at(worker_id: String, now: u64) -> (w: Self)
        ensures
            w == (WorkerInfo {
                worker_id,
                state: WorkerState::Idle,
                current_task: None,
                registered_at: now,
                last_seen: now,
                tasks_completed: 0,
                tasks_failed: 0,
            }),
    {
        WorkerInfo {
            worker_id,
            state: WorkerState::Idle,
            current_task: None,
            registered_at: now,
            last_seen: now,
            tasks_completed: 0,
            tasks_failed: 0,
        }
    }

    /// A fresh idle worker registered now.
    pub fn new(worker_id: String) -> (w: Self)
        ensures
            w == (WorkerInfo {
                worker_id,
                state: WorkerState::Idle,
                current_task: None,
                registered_at: w.registered_at,
                last_seen: w.registered_at,
                tasks_completed: 0,
                tasks_failed: 0,
            }),
    {
        Self::new_at(worker_id, unix_seconds())
    }

    /// Records that the worker was seen at `now`.
    pub fn update_last_seen_at(&mut self, now: u64)
        ensures
            *final(self) == (WorkerInfo { last_seen: now, ..*old(self) }),
    {
        self.last_seen = now;
    }

    /// Records that the worker was seen now: `last_seen` becomes the clock's
    /// reading in whole Unix seconds; nothing else changes.
    pub fn update_last_seen(&mut self)
        ensures
            *final(self) == (WorkerInfo { last_seen: final(self).last_seen, ..*old(self) }),
            final(self).last_seen <= u64::MAX / 1000,
    {
        self.update_last_seen_at(unix_seconds());
    }

    /// Assigns a task at `now`: the worker is working on `issue_id`.
    pub fn assign_task_at(&mut self, issue_id: String, now: u64)
        ensures
            *final(self) == (WorkerInfo {
                state: WorkerState::Working,
                current_task: Some(issue_id),
                last_seen: now,
                ..*old(self)
            }),
    {
        self.state = WorkerState::Working;
        self.current_task = Some(issue_id);
        self.last_seen = now;
    }

    /// Assigns a task now.
    pub fn assign_task(&mut self, issue_id: String)
        ensures
            *final(self) == (WorkerInfo {
                state: WorkerState::Working,
                current_task: Some(issue_id),
                last_seen: final(self).last_seen,
                ..*old(self)
            }),
    {
        self.assign_task_at(issue_id, unix_seconds());
    }

    /// Records a completed task at `now`: one more completion, no current task, idle.
    pub fn complete_task_at(&mut self, now: u64)
        requires
            old(self).tasks_completed < u64::MAX,
        ensures
            *final(self) == (WorkerInfo {
                tasks_completed: (old(self).tasks_completed + 1) as u64,
                current_task: None,
                state: WorkerState::Idle,
                last_seen: now,
                ..*old(self)
            }),
    {
        self.tasks_completed = self.tasks_completed + 1;
        self.current_task = None;
        self.state = WorkerState::Idle;
        self.last_seen = now;
    }

    /// Records a completed task now.
    pub fn complete_task(&mut self)
        requires
            old(self).tasks_completed < u64::MAX,
        ensures
            *final(self) == (WorkerInfo {
                tasks_completed: (old(self).tasks_completed + 1) as u64,
                current_task: None,
                state: WorkerState::Idle,
                last_seen: final(self).last_seen,
                ..*old(self)
            }),
    {
        self.complete_task_at(unix_seconds());
    }

    /// Records a failed task at `now`: one more failure, no current task, idle.
    pub fn fail_task_at(&mut self, now: u64)
        requires
            old(self).tasks_failed < u64::MAX,
        ensures
            *final(self) == (WorkerInfo {
                tasks_failed: (old(self).tasks_failed + 1) as u64,
                current_task: None,
                state: WorkerState::Idle,
                last_seen: now,
                ..*old(self)
            }),
    {
        self.tasks_failed = self.tasks_failed + 1;
        self.current_task = None;
        self.state = WorkerState::Idle;
        self.last_seen = now;
    }

    /// Records a failed task now.
    pub fn fail_task(&mut self)
        requires
            old(self).tasks_failed < u64::MAX,
        ensures
            *final(self) == (WorkerInfo {
                tasks_failed: (old(self).tasks_failed + 1) as u64,
                current_task: None,
                state: WorkerState::Idle,
                last_seen: final(self).last_seen,
                ..*old(self)
            }),
    {
        self.fail_task_at(unix_seconds());
    }
}

/// The id given to the `n`-th registered worker: "W" followed by `n` in decimal.
pub open spec fn worker_id_for(n: nat) -> Seq<char> {
    seq!['W'] + decimal(n)
}

/// Distinct registration numbers give distinct worker ids.
pub proof fn lemma_worker_id_for_injective(a: nat, b: nat)
    requires
        worker_id_for(a) == worker_id_for(b),
    ensures
        a == b,
{
    assert(worker_id_for(a).drop_first() =~= decimal(a));
    assert(worker_id_for(b).drop_first() =~= decimal(b));
    lemma_decimal_injective(a, b);
}

/// The registry of connected workers, keyed by worker id, in registration order.
#[derive(Debug)]
pub struct WorkerRegistry {
    workers: Vec<(String, WorkerInfo)>,
    next_worker_id: usize,
}

impl View for WorkerRegistry {
    /// Worker id to worker information.
    type V = Map<Seq<char>, WorkerInfo>;

    open spec fn view(&self) -> Map<Seq<char>, WorkerInfo> {
        Map::new(|id: Seq<char>| self.ids().contains(id), |id: Seq<char>| self.infos()[self.ids().index_of(id)])
    }
}

impl WorkerRegistry {
    /// The registered worker ids, in registration order.
    pub closed spec fn ids(&self) -> Seq<Seq<char>> {
        self.workers@.map_values(|e: (String, WorkerInfo)| e.0@)
    }

    /// The registered workers' information, in registration order.
    pub closed spec fn infos(&self) -> Seq<WorkerInfo> {
        self.workers@.map_values(|e: (String, WorkerInfo)| e.1)
    }

    /// The number that the next registered worker's id will carry.
    pub closed spec fn next_number(&self) -> nat {
        self.next_worker_id as nat
    }

    /// The registry's invariant: ids are distinct and each was handed out earlier.
    pub closed spec fn wf(&self) -> bool {
        &&& self.ids().no_duplicates()
        &&& forall|i: int| 0 <= i < self.ids().len() ==>
            exists|k: nat| k < self.next_worker_id && #[trigger] self.ids()[i] == worker_id_for(k)
    }

    proof fn lemma_index_of(&self, i: int)
        requires
            self.wf(),
            0 <= i < self.ids().len(),
        ensures
            self.ids().index_of(self.ids()[i]) == i,
            self@.contains_key(self.ids()[i]),
            self@[self.ids()[i]] == self.infos()[i],
    {
        let id = self.ids()[i];
        assert(self.ids().contains(id));
        let j = self.ids().index_of(id);
        assert(self.ids()[j] == id);
    }

    /// There is one id per worker information.
    pub proof fn lemma_ids_infos_len(&self)
        ensures
            self.ids().len() == self.infos().len(),
    {
    }

    /// Position `i` in registration order holds the entry of the map under its id.
    pub proof fn lemma_index_of_pub(&self, i: int)
        requires
            self.wf(),
            0 <= i < self.ids().len(),
        ensures
            self.ids().index_of(self.ids()[i]) == i,
            self@.contains_key(self.ids()[i]),
            self@[self.ids()[i]] == self.infos()[i],
            self.infos().len() == self.ids().len(),
    {
        self.lemma_index_of(i);
    }

    /// An empty registry; the first worker will be "W1".
    pub fn new() -> (r: Self)
        ensures
            r.wf(),
            r@ == Map::<Seq<char>, WorkerInfo>::empty(),
            r.ids() == Seq::<Seq<char>>::empty(),
            r.next_number() == 1,
    {
        let r = WorkerRegistry { workers: Vec::new(), next_worker_id: 1 };
        assert(r@ =~= Map::<Seq<char>, WorkerInfo>::empty());
        assert(r.ids() =~= Seq::<Seq<char>>::empty());
        r
    }

    /// Registers a new idle worker at time `now` and returns its fresh id.
    pub fn register_at(&mut self, now: u64) -> (id: String)
        requires
            old(self).wf(),
            old(self).next_number() < usize::MAX,
        ensures
            final(self).wf(),
            id@ == worker_id_for(old(self).next_number()),
            !old(self)@.contains_key(id@),
            final(self).next_number() == old(self).next_number() + 1,
            final(self).ids() == old(self).ids().push(id@),
            final(self).infos() == old(self).infos().push(WorkerInfo {
                worker_id: id,
                state: WorkerState::Idle,
                current_task: None,
                registered_at: now,
                last_seen: now,
                tasks_completed: 0,
                tasks_failed: 0,
            }),
            final(self)@ == old(self)@.insert(id@, WorkerInfo {
                worker_id: id,
                state: WorkerState::Idle,
                current_task: None,
                registered_at: now,
                last_seen: now,
                tasks_completed: 0,
                tasks_failed: 0,
            }),
    {
        let n = self.next_worker_id;
        let mut id = String::new();
        crate::text::push_char(&mut id, 'W');
        push_decimal(&mut id, n as u64);
        assert(id@ =~= worker_id_for(n as nat));
        proof {
            assert forall|i: int| 0 <= i < old(self).ids().len() implies old(self).ids()[i] != id@ by {
                let k = choose|k: nat| k < old(self).next_worker_id && #[trigger] old(self).ids()[i] == worker_id_for(k);
                if old(self).ids()[i] == id@ {
                    lemma_worker_id_for_injective(k, n as nat);
                }
            }
        }
        self.next_worker_id = n + 1;
        let info = WorkerInfo::new_at(id.clone(), now);
        self.workers.push((id.clone(), info));
        proof {
            let old_ids = old(self).ids();
            assert(self.ids() =~= old_ids.push(id@));
            assert(self.infos() =~= old(self).infos().push(info));
            assert(self.ids().no_duplicates());
            assert forall|i: int| 0 <= i < self.ids().len() implies
                exists|k: nat| k < self.next_worker_id && #[trigger] self.ids()[i] == worker_id_for(k) by {
                if i < old_ids.len() {
                    let k = choose|k: nat| k < old(self).next_worker_id && #[trigger] old_ids[i] == worker_id_for(k);
                    assert(self.ids()[i] == worker_id_for(k));
                } else {
                    assert(self.ids()[i] == worker_id_for(n as nat));
                }
            }
            assert(!old_ids.contains(id@));
            assert forall|key: Seq<char>| #[trigger] self@.contains_key(key) <==> old(self)@.insert(id@, info).contains_key(key) by {
                if self.ids().contains(key) {
                    let j = self.ids().index_of(key);
                    if j < old_ids.len() {
                        assert(old_ids[j] == key);
                    }
                }
                if old_ids.contains(key) {
                    let j = old_ids.index_of(key);
                    assert(self.ids()[j] == key);
                }
                if key == id@ {
                    assert(self.ids()[old_ids.len() as int] == key);
                }
            }
            assert forall|key: Seq<char>| self@.contains_key(key) implies self@[key] == old(self)@.insert(id@, info)[key] by {
                let j = self.ids().index_of(key);
                assert(self.ids()[j] == key);
                if key == id@ {
                    self.lemma_index_of(old_ids.len() as int);
                } else {
                    assert(j < old_ids.len());
                    old(self).lemma_index_of(j);
                    self.lemma_index_of(j);
                }
            }
            assert(self@ =~= old(self)@.insert(id@, info));
        }
        id
    }

    /// Registers a new idle worker now and returns its fresh id.
    pub fn register(&mut self) -> (id: String)
        requires
            old(self).wf(),
            old(self).next_number() < usize::MAX,
        ensures
            final(self).wf(),
            id@ == worker_id_for(old(self).next_number()),
            !old(self)@.contains_key(id@),
            final(self).next_number() == old(self).next_number() + 1,
            final(self).ids() == old(self).ids().push(id@),
            final(self)@ == old(self)@.insert(id@, final(self)@[id@]),
            final(self)@[id@] == (WorkerInfo {
                worker_id: id,
                state: WorkerState::Idle,
                current_task: None,
                registered_at: final(self)@[id@].registered_at,
                last_seen: final(self)@[id@].registered_at,
                tasks_completed: 0,
                tasks_failed: 0,
            }),
    {
        let now = unix_seconds();
        let id = self.register_at(now);
        id
    }

    /// The position of `worker_id` in registration order, if registered.
    fn position(&self, worker_id: &str) -> (r: Option<usize>)
        requires
            self.wf(),
        ensures
            match r {
                Some(i) => i < self.ids().len() && self.ids()[i as int] == worker_id@,
                None => !self@.contains_key(worker_id@),
            },
    {
        let key = worker_id.to_owned();
        let mut i: usize = 0;
        while i < self.workers.len()
            invariant
                i <= self.workers.len(),
                key@ == worker_id@,
                forall|j: int| 0 <= j < i ==> self.ids()[j] != worker_id@,
            decreases self.workers.len() - i,
        {
            if self.workers[i].0 == key {
                return Some(i);
            }
            i += 1;
        }
        None
    }

    /// The information of a registered worker.
    pub fn get(&self, worker_id: &str) -> (r: Option<&WorkerInfo>)
        requires
            self.wf(),
        ensures
            match r {
                Some(w) => self@.contains_key(worker_id@) && *w == self@[worker_id@],
                None => !self@.contains_key(worker_id@),
            },
    {
        match self.position(worker_id) {
            Some(i) => {
                proof { self.lemma_index_of(i as int); }
                Some(&self.workers[i].1)
            },
            None => None,
        }
    }

    /// Mutable access to a registered worker's information.
    pub fn get_mut(&mut self, worker_id: &str) -> (r: Option<&mut WorkerInfo>)
        requires
            old(self).wf(),
        ensures
            match r {
                Some(w) => {
                    &&& old(self)@.contains_key(worker_id@)
                    &&& *w == old(self)@[worker_id@]
                    &&& final(self).wf()
                    &&& final(self).ids() == old(self).ids()
                    &&& final(self).next_number() == old(self).next_number()
                    &&& final(self)@ == old(self)@.insert(worker_id@, *final(w))
                    &&& final(self).infos() == old(self).infos().update(old(self).ids().index_of(worker_id@), *final(w))
                },
                None => {
                    &&& !old(self)@.contains_key(worker_id@)
                    &&& *final(self) == *old(self)
                },
            },
    {
        match self.position(worker_id) {
            Some(i) => {
                proof {
                    self.lemma_index_of(i as int);
                    assert forall|r2: Self|
                        r2.workers@.len() == self.workers@.len()
                        && (forall|j: int| 0 <= j < self.workers@.len() ==> r2.workers@[j].0 == self.workers@[j].0)
                        && r2.next_worker_id == self.next_worker_id
                        implies #[trigger] r2.wf() by {
                        assert(r2.ids() =~= self.ids());
                    }
                    assert forall|r2: Self, info: WorkerInfo|
                        #![trigger r2.infos(), self.infos().update(self.ids().index_of(worker_id@), info)]
                        r2.workers@ == self.workers@.update(i as int, (self.workers@[i as int].0, info))
                        && r2.next_worker_id == self.next_worker_id implies
                            r2.infos() == self.infos().update(self.ids().index_of(worker_id@), info) by {
                        self.lemma_replace_info(r2, i as int, info);
                    }
                    assert forall|r2: Self, info: WorkerInfo|
                        #![trigger r2@, self@.insert(worker_id@, info)]
                        r2.workers@ == self.workers@.update(i as int, (self.workers@[i as int].0, info))
                        && r2.next_worker_id == self.next_worker_id implies
                            r2@ == self@.insert(worker_id@, info) by {
                        self.lemma_replace_info(r2, i as int, info);
                    }
                }
                let e = &mut self.workers[i];
                Some(&mut e.1)
            },
            None => None,
        }
    }

    proof fn lemma_replace_info(&self, r2: Self, i: int, info: WorkerInfo)
        requires
            self.wf(),
            0 <= i < self.ids().len(),
            r2.workers@ == self.workers@.update(i, (self.workers@[i].0, info)),
            r2.next_worker_id == self.next_worker_id,
        ensures
            r2.wf(),
            r2.ids() == self.ids(),
            r2.infos() == self.infos().update(i, info),
            r2@ == self@.insert(self.ids()[i], info),
    {
        assert(r2.ids() =~= self.ids());
        assert(r2.infos() =~= self.infos().update(i, info));
        let key = self.ids()[i];
        self.lemma_index_of(i);
        assert forall|k: Seq<char>| #[trigger] r2@.contains_key(k) <==> self@.insert(key, info).contains_key(k) by {}
        assert forall|k: Seq<char>| r2@.contains_key(k) implies r2@[k] == self@.insert(key, info)[k] by {
            let j = r2.ids().index_of(k);
            assert(r2.ids()[j] == k);
            self.lemma_index_of(j);
            r2.lemma_index_of(j);
        }
        assert(r2@ =~= self@.insert(key, info));
    }

    /// Removes a worker, returning its information if it was registered.
    pub fn unregister(&mut self, worker_id: &str) -> (r: Option<WorkerInfo>)
        requires
            old(self).wf(),
        ensures
            final(self).wf(),
            final(self).next_number() == old(self).next_number(),
            final(self)@ == old(self)@.remove(worker_id@),
            match r {
                Some(w) => old(self)@.contains_key(worker_id@) && w == old(self)@[worker_id@],
                None => !old(self)@.contains_key(worker_id@) && final(self).ids() == old(self).ids(),
            },
    {
        match self.position(worker_id) {
            Some(i) => {
                proof { self.lemma_index_of(i as int); }
                let e = self.workers.remove(i);
                proof {
                    let old_ids = old(self).ids();
                    assert(self.ids() =~= old_ids.remove(i as int));
                    assert(self.infos() =~= old(self).infos().remove(i as int));
                    assert forall|a: int, b: int| 0 <= a < b < self.ids().len() implies self.ids()[a] != self.ids()[b] by {
                        let oa = if a < i { a } else { a + 1 };
                        let ob = if b < i { b } else { b + 1 };
                        assert(self.ids()[a] == old_ids[oa]);
                        assert(self.ids()[b] == old_ids[ob]);
                    }
                    assert forall|a: int| 0 <= a < self.ids().len() implies
                        exists|k: nat| k < self.next_worker_id && #[trigger] self.ids()[a] == worker_id_for(k) by {
                        let oa = if a < i { a } else { a + 1 };
                        assert(self.ids()[a] == old_ids[oa]);
                        let k = choose|k: nat| k < old(self).next_worker_id && #[trigger] old_ids[oa] == worker_id_for(k);
                    }
                    assert forall|key: Seq<char>| #[trigger] self@.contains_key(key) <==> old(self)@.remove(worker_id@).contains_key(key) by {
                        if self.ids().contains(key) {
                            let a = self.ids().index_of(key);
                            let oa = if a < i { a } else { a + 1 };
                            assert(old_ids[oa] == key);
                        }
                        if old_ids.contains(key) && key != worker_id@ {
                            let oa = old_ids.index_of(key);
                            assert(oa != i);
                            let a = if oa < i { oa } else { oa - 1 };
                            assert(self.ids()[a] == key);
                        }
                    }
                    assert forall|key: Seq<char>| self@.contains_key(key) implies self@[key] == old(self)@.remove(worker_id@)[key] by {
                        let a = self.ids().index_of(key);
                        let oa = if a < i { a } else { a + 1 };
                        assert(old_ids[oa] == key);
                        self.lemma_index_of(a);
                        old(self).lemma_index_of(oa);
                    }
                    assert(self@ =~= old(self)@.remove(worker_id@));
                }
                Some(e.1)
            },
            None => {
                proof {
                    assert(self@ =~= old(self)@.remove(worker_id@));
                }
                None
            },
        }
    }

    /// All workers, in registration order.
    pub fn all(&self) -> (r: Vec<&WorkerInfo>)
        ensures
            r@.len() == self.infos().len(),
            forall|i: int| 0 <= i < r@.len() ==> *r@[i] == self.infos()[i],
    {
        let mut r: Vec<&WorkerInfo> = Vec::new();
        let mut i: usize = 0;
        while i < self.workers.len()
            invariant
                i <= self.workers.len(),
                r@.len() == i,
                forall|j: int| 0 <= j < i ==> *r@[j] == self.infos()[j],
            decreases self.workers.len() - i,
        {
            r.push(&self.workers[i].1);
            i += 1;
        }
        r
    }

    /// The workers in a given state, in registration order.
    pub fn in_state(&self, state: WorkerState) -> (r: Vec<&WorkerInfo>)
        ensures
            r@.map_values(|w: &WorkerInfo| *w) == self.infos().filter(|w: WorkerInfo| w.state == state),
    {
        let mut r: Vec<&WorkerInfo> = Vec::new();
        let mut i: usize = 0;
        let ghost pred = |w: WorkerInfo| w.state == state;
        while i < self.workers.len()
            invariant
                i <= self.workers.len(),
                pred == (|w: WorkerInfo| w.state == state),
                r@.map_values(|w: &WorkerInfo| *w) == self.infos().take(i as int).filter(pred),
            decreases self.workers.len() - i,
        {
            let w = &self.workers[i].1;
            let ghost before = r@.map_values(|w: &WorkerInfo| *w);
            if w.state == state {
                r.push(w);
            }
            proof {
                let pre = self.infos().take(i as int);
                assert(self.infos().take(i as int + 1) =~= pre.push(self.infos()[i as int]));
                reveal(Seq::filter);
                assert(pre.push(self.infos()[i as int]).drop_last() =~= pre);
                assert(r@.map_values(|w: &WorkerInfo| *w) =~= if pred(*w) { before.push(*w) } else { before });
            }
            i += 1;
        }
        assert(self.infos().take(self.workers.len() as int) =~= self.infos());
        r
    }

    /// The idle workers, in registration order.
    pub fn idle_workers(&self) -> (r: Vec<&WorkerInfo>)
        ensures
            r@.map_values(|w: &WorkerInfo| *w) == self.infos().filter(|w: WorkerInfo| w.state == WorkerState::Idle),
    {
        self.in_state(WorkerState::Idle)
    }

    /// The working workers, in registration order.
    pub fn working_workers(&self) -> (r: Vec<&WorkerInfo>)
        ensures
            r@.map_values(|w: &WorkerInfo| *w) == self.infos().filter(|w: WorkerInfo| w.state == WorkerState::Working),
    {
        self.in_state(WorkerState::Working)
    }

    /// The id of the `i`-th registered worker.
    pub fn id_at(&self, i: usize) -> (r: &String)
        requires
            i < self.ids().len(),
        ensures
            r@ == self.ids()[i as int],
    {
        &self.workers[i].0
    }

    /// The information of the `i`-th registered worker.
    pub fn info_at(&self, i: usize) -> (r: &WorkerInfo)
        requires
            i < self.infos().len(),
        ensures
            *r == self.infos()[i as int],
    {
        &self.workers[i].1
    }

    /// The number of registered workers.
    pub fn count(&self) -> (n: usize)
        requires
            self.wf(),
        ensures
            n == self@.len(),
            n == self.ids().len(),
    {
        proof { self.lemma_len(); }
        self.workers.len()
    }

    /// The map has one entry per registered id.
    pub proof fn lemma_len(&self)
        requires
            self.wf(),
        ensures
            self@.len() == self.ids().len(),
            self@.dom() == self.ids().to_set(),
    {
        assert(self@.dom() =~= self.ids().to_set());
        self.ids().unique_seq_to_set();
    }
}


// ============================================================================
// Settings
// ============================================================================


impl WorkerRegistry {
    /// The id the next registered worker gets was never handed out before, so
    /// it names no registered worker.
    pub proof fn lemma_next_id_fresh(&self)
        requires
            self.wf(),
        ensures
            forall|k: nat| k < self.next_number() ==> #[trigger] worker_id_for(k) != worker_id_for(self.next_number()),
            !self@.contains_key(worker_id_for(self.next_number())),
    {
        assert forall|k: nat| k < self.next_number() implies #[trigger] worker_id_for(k) != worker_id_for(self.next_number()) by {
            if worker_id_for(k) == worker_id_for(self.next_number()) {
                lemma_worker_id_for_injective(k, self.next_number());
            }
        }
        if self@.contains_key(worker_id_for(self.next_number())) {
            let i = self.ids().index_of(worker_id_for(self.next_number()));
            assert(self.ids()[i] == worker_id_for(self.next_number()));
            let k = choose|k: nat| k < self.next_worker_id && #[trigger] self.ids()[i] == worker_id_for(k);
            lemma_worker_id_for_injective(k, self.next_number());
        }
    }
}

/// Registering a worker and then unregistering it leaves the worker map as it
/// was (register gives `middle` from `before`, unregister `after` from `middle`).
pub proof fn lemma_register_then_unregister(
    before: Map<Seq<char>, WorkerInfo>,
    middle: Map<Seq<char>, WorkerInfo>,
    after: Map<Seq<char>, WorkerInfo>,
    id: Seq<char>,
    info: WorkerInfo,
)
    requires
        !before.contains_key(id),
        middle == before.insert(id, info),
        after == middle.remove(id),
    ensures
        after == before,
{
    assert(after =~= before);
}

/// The orchestrator's settings.
#[derive(Debug, Clone)]
pub struct OrchestratorConfig {
    /// Socket path (e.g. "/tmp/beads-workers-12345.sock").
    pub socket_path: String,
    /// Maximum number of concurrent workers.
    pub max_workers: usize,
    /// Seconds a worker is told to wait when no task is available.
    pub default_wait_seconds: u32,
    /// Worker idle timeout in seconds (0: none).
    pub worker_idle_timeout: u64,
    /// Graceful shutdown timeout in seconds.
    pub shutdown_timeout: u64,
}

/// The default socket path of the orchestrator running as process `pid`.
pub open spec fn default_socket_path(pid: nat) -> Seq<char> {
    "/tmp/beads-workers-"@ + decimal(pid) + ".sock"@
}

impl OrchestratorConfig {
    /// The default settings of the orchestrator running as process `pid`: socket
    /// `/tmp/beads-workers-{pid}.sock`, 10 workers, 30 s waits, no idle timeout and a
    /// 10 s shutdown timeout.
    pub fn for_process(pid: u32) -> (c: Self)
        ensures
            c.socket_path@ == default_socket_path(pid as nat),
            c.max_workers == 10,
            c.default_wait_seconds == 30,
            c.worker_idle_timeout == 0,
            c.shutdown_timeout == 10,
    {
        let mut socket_path = String::new();
        crate::text::push_str(&mut socket_path, "/tmp/beads-workers-");
        push_decimal(&mut socket_path, pid as u64);
        crate::text::push_str(&mut socket_path, ".sock");
        OrchestratorConfig {
            socket_path,
            max_workers: 10,
            default_wait_seconds: 30,
            worker_idle_timeout: 0,
            shutdown_timeout: 10,
        }
    }
}

/// A worker's settings.
#[derive(Debug, Clone)]
pub struct WorkerConfig {
    /// Socket path to connect to.
    pub socket_path: String,
    /// Connection attempts.
    pub retry_attempts: u32,
    /// Base delay of the exponential connection backoff, in seconds.
    pub retry_delay_seconds: u64,
}

impl Default for WorkerConfig {
    /// No socket path, 3 attempts, 1 s base delay.
    fn default() -> (c: Self)
        ensures
            c.socket_path@ == Seq::<char>::empty(),
            c.retry_attempts == 3,
            c.retry_delay_seconds == 1,
    {
        WorkerConfig { socket_path: String::new(), retry_attempts: 3, retry_delay_seconds: 1 }
    }
}

} // verus!
