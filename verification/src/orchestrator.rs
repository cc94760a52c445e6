//! The orchestrator's decisions: which worker gets which task, when a worker
//! is told to wait, what a disconnection undoes, and what the shutdown sends.
//!
//! Each event (a connection, a worker's message, a poll result, a shutdown) is
//! handed to a method that updates the state and returns the messages to
//! deliver; the caller owns the sockets, the timers and the channels.

use vstd::prelude::*;
use crate::task_poller::TaskPoller;
use crate::types::{
    OrchestratorConfig, OrchestratorMessage, ShutdownReason, Task, TaskQueue, WorkerInfo,
    WorkerMessage, WorkerRegistry, WorkerState,
};

verus! {

/// A message from a worker, with the id of the connection it came from.
#[derive(Debug)]
pub struct WorkerMessageEvent {
    /// The id the orchestrator gave the connection.
    pub worker_id: String,
    /// The message.
    pub message: WorkerMessage,
}

/// A message to deliver to a worker's connection.
#[derive(Debug)]
pub struct Outgoing {
    /// The worker to deliver to.
    pub worker_id: String,
    /// The message.
    pub message: OrchestratorMessage,
}

/// Orchestrator statistics.
#[derive(Debug, Clone)]
pub struct OrchestratorStats {
    pub total_workers: usize,
    pub idle_workers: usize,
    pub working_workers: usize,
    pub queued_tasks: usize,
    pub total_completed: u64,
    pub total_failed: u64,
}

/// Applies `f` to the information of worker `id`, if registered.
pub open spec fn update_worker(
    m: Map<Seq<char>, WorkerInfo>,
    id: Seq<char>,
    f: spec_fn(WorkerInfo) -> WorkerInfo,
) -> Map<Seq<char>, WorkerInfo> {
    if m.contains_key(id) {
        m.insert(id, f(m[id]))
    } else {
        m
    }
}

/// The worker's state becomes `s`.
pub open spec fn with_state(s: WorkerState) -> spec_fn(WorkerInfo) -> WorkerInfo {
    |w: WorkerInfo| WorkerInfo { state: s, ..w }
}

/// The worker was seen at `now`.
pub open spec fn seen_at(now: u64) -> spec_fn(WorkerInfo) -> WorkerInfo {
    |w: WorkerInfo| WorkerInfo { last_seen: now, ..w }
}

/// The worker starts on `issue_id` at `now`.
pub open spec fn assigned(issue_id: String, now: u64) -> spec_fn(WorkerInfo) -> WorkerInfo {
    |w: WorkerInfo| WorkerInfo { state: WorkerState::Working, current_task: Some(issue_id), last_seen: now, ..w }
}

/// The worker completed its task at `now`.
pub open spec fn completed(now: u64) -> spec_fn(WorkerInfo) -> WorkerInfo {
    |w: WorkerInfo| WorkerInfo {
        tasks_completed: (w.tasks_completed + 1) as u64,
        current_task: None,
        state: WorkerState::Idle,
        last_seen: now,
        ..w
    }
}

/// The worker failed its task at `now`.
pub open spec fn failed(now: u64) -> spec_fn(WorkerInfo) -> WorkerInfo {
    |w: WorkerInfo| WorkerInfo {
        tasks_failed: (w.tasks_failed + 1) as u64,
        current_task: None,
        state: WorkerState::Idle,
        last_seen: now,
        ..w
    }
}

/// The sum of a counter over workers.
pub open spec fn sum_of(ws: Seq<WorkerInfo>, f: spec_fn(WorkerInfo) -> u64) -> nat
    decreases ws.len(),
{
    if ws.len() == 0 {
        0
    } else {
        sum_of(ws.drop_last(), f) + f(ws.last()) as nat
    }
}

/// The workers after the next queued task (if any) goes to worker `id` at `now_ms`,
/// or, with nothing queued, after the worker is told to wait.
pub open spec fn next_task_workers(
    workers: Map<Seq<char>, WorkerInfo>,
    pending: Seq<Task>,
    id: Seq<char>,
    now_ms: u64,
) -> Map<Seq<char>, WorkerInfo> {
    if pending.len() > 0 {
        update_worker(workers, id, assigned(pending[0].issue_id, (now_ms / 1000) as u64))
    } else {
        update_worker(workers, id, with_state(WorkerState::Waiting))
    }
}

/// The queued tasks after the next one (if any) is handed out.
pub open spec fn next_task_pending(pending: Seq<Task>) -> Seq<Task> {
    if pending.len() > 0 { pending.drop_first() } else { pending }
}

/// The tasks in progress after the next queued one (if any) is handed out.
pub open spec fn next_task_in_progress(pending: Seq<Task>, in_progress: Set<Seq<char>>) -> Set<Seq<char>> {
    if pending.len() > 0 { in_progress.insert(pending[0].issue_id@) } else { in_progress }
}

/// `m` is what worker `id` is sent at `now_ms`: the next queued task, or, with nothing
/// queued, a WAIT of `wait` seconds.
pub open spec fn is_next_message(m: OrchestratorMessage, pending: Seq<Task>, id: Seq<char>, now_ms: u64, wait: u32) -> bool {
    if pending.len() > 0 {
        &&& m matches OrchestratorMessage::Task { worker_id, timestamp_ms, issue_id, priority, title }
        &&& m.spec_worker_id() == id
        &&& m.spec_timestamp() == now_ms
        &&& m->issue_id == pending[0].issue_id
        &&& m->priority == pending[0].priority
        &&& m->title == pending[0].title
    } else {
        &&& m matches OrchestratorMessage::Wait { worker_id, timestamp_ms, wait_seconds }
        &&& m.spec_worker_id() == id
        &&& m.spec_timestamp() == now_ms
        &&& m->wait_seconds == wait
    }
}

/// The tasks in progress after worker `id` disconnects: its current task, if any, is
/// released so that a later poll can hand it out again.
pub open spec fn released_on_disconnect(
    workers: Map<Seq<char>, WorkerInfo>,
    in_progress: Set<Seq<char>>,
    id: Seq<char>,
) -> Set<Seq<char>> {
    if workers.contains_key(id) && workers[id].current_task is Some {
        in_progress.remove(workers[id].current_task->0@)
    } else {
        in_progress
    }
}

/// One pass over the workers in registration order from position `from`: each idle
/// worker gets the next queued task until the queue runs out. Gives the workers'
/// information afterwards, the (worker id, task) pairs handed out in order, and the
/// tasks left.
pub open spec fn idle_pass(
    infos: Seq<WorkerInfo>,
    ids: Seq<Seq<char>>,
    from: int,
    pending: Seq<Task>,
    now_s: u64,
) -> (Seq<WorkerInfo>, Seq<(Seq<char>, Task)>, Seq<Task>)
    decreases infos.len() - from,
{
    if from < 0 || from >= infos.len() || pending.len() == 0 {
        (infos, Seq::empty(), pending)
    } else if infos[from].state == WorkerState::Idle {
        let rest = idle_pass(
            infos.update(from, assigned(pending[0].issue_id, now_s)(infos[from])),
            ids,
            from + 1,
            pending.drop_first(),
            now_s,
        );
        (rest.0, seq![(ids[from], pending[0])] + rest.1, rest.2)
    } else {
        idle_pass(infos, ids, from + 1, pending, now_s)
    }
}

/// `o` delivers `task` to worker `id` as a TASK stamped `now_ms`.
pub open spec fn is_task_delivery(o: Outgoing, id: Seq<char>, task: Task, now_ms: u64) -> bool {
    &&& o.worker_id@ == id
    &&& o.message matches OrchestratorMessage::Task { worker_id: w, timestamp_ms, issue_id, priority, title }
    &&& w@ == id
    &&& timestamp_ms == now_ms
    &&& issue_id == task.issue_id
    &&& priority == task.priority
    &&& title == task.title
}

/// A prefix's sum is at most the whole sum.
pub proof fn lemma_sum_prefix_bound(ws: Seq<WorkerInfo>, f: spec_fn(WorkerInfo) -> u64, k: int)
    requires
        0 <= k <= ws.len(),
    ensures
        sum_of(ws.take(k), f) <= sum_of(ws, f),
    decreases ws.len(),
{
    if k < ws.len() {
        assert(ws.drop_last().take(k) =~= ws.take(k));
        lemma_sum_prefix_bound(ws.drop_last(), f, k);
    } else {
        assert(ws.take(k) =~= ws);
    }
}

/// The lanes after queuing `tasks` in order.
pub open spec fn push_all(lanes: Seq<Seq<Task>>, tasks: Seq<Task>) -> Seq<Seq<Task>>
    decreases tasks.len(),
{
    if tasks.len() == 0 {
        lanes
    } else {
        let t = tasks[0];
        push_all(lanes.update(crate::types::lane_of(t.priority), lanes[crate::types::lane_of(t.priority)].push(t)), tasks.drop_first())
    }
}

/// The orchestrator's state: its settings, the registered workers, the queued tasks
/// and the tasks in progress.
pub struct Orchestrator {
    config: OrchestratorConfig,
    registry: WorkerRegistry,
    task_queue: TaskQueue,
    task_poller: TaskPoller,
}

impl Orchestrator {
    /// The orchestrator's invariant; among it, never more workers registered
    /// than the configured maximum.
    pub open spec fn wf(&self) -> bool {
        &&& self.registry()@.len() <= self.spec_config().max_workers
        &&& self.registry().wf()
        &&& self.queue().wf()
        &&& self.poller().wf()
    }

    /// A valid orchestrator never has more workers registered than its
    /// configured maximum: a connection beyond it is refused (`accept_worker`),
    /// and every other operation keeps `wf`.
    pub proof fn lemma_workers_within_max(&self)
        requires
            self.wf(),
        ensures
            self.registry()@.len() <= self.spec_config().max_workers,
    {
    }

    /// The settings.
    pub closed spec fn spec_config(&self) -> OrchestratorConfig {
        self.config
    }

    /// The registered workers.
    pub closed spec fn registry(&self) -> WorkerRegistry {
        self.registry
    }

    /// The queued tasks.
    pub closed spec fn queue(&self) -> TaskQueue {
        self.task_queue
    }

    /// The tasks in progress.
    pub closed spec fn poller(&self) -> TaskPoller {
        self.task_poller
    }

    /// Every worker's counters can still grow by one.
    pub open spec fn counters_fit_spec(&self) -> bool {
        forall|id: Seq<char>| #[trigger] self.registry()@.contains_key(id) ==> {
            &&& self.registry()@[id].tasks_completed < u64::MAX
            &&& self.registry()@[id].tasks_failed < u64::MAX
        }
    }

    /// A fresh orchestrator for the beads project in `beads_dir`.
    pub fn new(config: OrchestratorConfig, beads_dir: String) -> (o: Self)
        ensures
            o.wf(),
            o.spec_config() == config,
            o.registry()@ == Map::<Seq<char>, WorkerInfo>::empty(),
            o.registry().next_number() == 1,
            o.queue().pending() == Seq::<Task>::empty(),
            o.poller()@ == Set::<Seq<char>>::empty(),
            o.poller().dir() == beads_dir@,
    {
        let o = Orchestrator {
            config,
            registry: WorkerRegistry::new(),
            task_queue: TaskQueue::new(),
            task_poller: TaskPoller::new(beads_dir.as_str()),
        };
        proof {
            reveal_with_fuel(crate::types::flatten_from, 6);
            assert(o.queue().pending() =~= Seq::<Task>::empty());
        }
        o
    }

    /// The settings.
    pub fn config(&self) -> (c: &OrchestratorConfig)
        ensures
            *c == self.spec_config(),
    {
        &self.config
    }

    /// The registered workers.
    pub fn workers(&self) -> (r: &WorkerRegistry)
        ensures
            *r == self.registry(),
    {
        &self.registry
    }

    /// The queued tasks.
    pub fn tasks(&self) -> (q: &TaskQueue)
        ensures
            *q == self.queue(),
    {
        &self.task_queue
    }

    /// The tasks in progress.
    pub fn in_progress(&self) -> (p: &TaskPoller)
        ensures
            *p == self.poller(),
    {
        &self.task_poller
    }

    /// Whether every worker's counters can still grow by one.
    pub fn counters_fit(&self) -> (r: bool)
        requires
            self.wf(),
        ensures
            r == self.counters_fit_spec(),
    {
        let all = self.registry.all();
        proof { self.registry.lemma_ids_infos_len(); }
        let mut i: usize = 0;
        while i < all.len()
            invariant
                self.wf(),
                self.registry().ids().len() == self.registry().infos().len(),
                i <= all@.len(),
                all@.len() == self.registry().infos().len(),
                forall|j: int| 0 <= j < all@.len() ==> *all@[j] == self.registry().infos()[j],
                forall|j: int| 0 <= j < i ==> {
                    &&& (#[trigger] self.registry().infos()[j]).tasks_completed < u64::MAX
                    &&& self.registry().infos()[j].tasks_failed < u64::MAX
                },
            decreases all.len() - i,
        {
            if all[i].tasks_completed == u64::MAX || all[i].tasks_failed == u64::MAX {
                proof {
                    self.registry.lemma_index_of_pub(i as int);
                }
                return false;
            }
            i += 1;
        }
        proof {
            assert forall|id: Seq<char>| #[trigger] self.registry()@.contains_key(id) implies {
                &&& self.registry()@[id].tasks_completed < u64::MAX
                &&& self.registry()@[id].tasks_failed < u64::MAX
            } by {
                let j = self.registry().ids().index_of(id);
                assert(self.registry().ids().contains(id));
                self.registry.lemma_index_of_pub(j);
            }
        }
        true
    }

    /// Queues a task.
    pub fn add_task(&mut self, task: Task)
        requires
            old(self).wf(),
        ensures
            final(self).wf(),
            final(self).queue()@ == old(self).queue()@.update(
                crate::types::lane_of(task.priority),
                old(self).queue()@[crate::types::lane_of(task.priority)].push(task),
            ),
            final(self).registry() == old(self).registry(),
            final(self).poller() == old(self).poller(),
            final(self).spec_config() == old(self).spec_config(),
    {
        self.task_queue.push(task);
    }

    fn update_state(&mut self, worker_id: &str, state: WorkerState)
        requires
            old(self).wf(),
        ensures
            final(self).wf(),
            final(self).registry()@ == update_worker(old(self).registry()@, worker_id@, with_state(state)),
            final(self).registry().ids() == old(self).registry().ids(),
            final(self).registry().next_number() == old(self).registry().next_number(),
            final(self).queue() == old(self).queue(),
            final(self).poller() == old(self).poller(),
            final(self).spec_config() == old(self).spec_config(),
    {
        match self.registry.get_mut(worker_id) {
            Some(w) => {
                w.state = state;
            },
            None => {},
        }
        proof {
            let f = with_state(state);
            if old(self).registry()@.contains_key(worker_id@) {
                assert(f(old(self).registry()@[worker_id@]) == (WorkerInfo { state, ..old(self).registry()@[worker_id@] }));
            }
        }
    }

    /// Hands worker `worker_id` the next queued task at `now_ms`, or tells it to wait.
    fn give_next_task(&mut self, worker_id: &str, now_ms: u64) -> (out: Outgoing)
        requires
            old(self).wf(),
        ensures
            final(self).wf(),
            final(self).registry()@ == next_task_workers(old(self).registry()@, old(self).queue().pending(), worker_id@, now_ms),
            final(self).queue().pending() == next_task_pending(old(self).queue().pending()),
            final(self).poller()@ == next_task_in_progress(old(self).queue().pending(), old(self).poller()@),
            final(self).registry().ids() == old(self).registry().ids(),
            final(self).registry().next_number() == old(self).registry().next_number(),
            final(self).spec_config() == old(self).spec_config(),
            final(self).poller().dir() == old(self).poller().dir(),
            out.worker_id@ == worker_id@,
            is_next_message(out.message, old(self).queue().pending(), worker_id@, now_ms, old(self).spec_config().default_wait_seconds),
    {
        match self.task_queue.pop() {
            Some(task) => self.assign_task_to_worker(worker_id, task, now_ms),
            None => self.send_wait_to_worker(worker_id, now_ms),
        }
    }

    /// Assigns `task` to worker `worker_id` at `now_ms`: the task is in progress, the
    /// worker is working on it, and it is sent a TASK message.
    fn assign_task_to_worker(&mut self, worker_id: &str, task: Task, now_ms: u64) -> (out: Outgoing)
        requires
            old(self).wf(),
        ensures
            final(self).wf(),
            final(self).registry()@ == update_worker(old(self).registry()@, worker_id@, assigned(task.issue_id, (now_ms / 1000) as u64)),
            old(self).registry()@.contains_key(worker_id@) ==> final(self).registry().infos() == old(self).registry().infos().update(
                old(self).registry().ids().index_of(worker_id@),
                assigned(task.issue_id, (now_ms / 1000) as u64)(old(self).registry()@[worker_id@])),
            !old(self).registry()@.contains_key(worker_id@) ==> final(self).registry() == old(self).registry(),
            final(self).poller()@ == old(self).poller()@.insert(task.issue_id@),
            final(self).queue() == old(self).queue(),
            final(self).registry().ids() == old(self).registry().ids(),
            final(self).registry().next_number() == old(self).registry().next_number(),
            final(self).spec_config() == old(self).spec_config(),
            final(self).poller().dir() == old(self).poller().dir(),
            out.worker_id@ == worker_id@,
            out.message matches OrchestratorMessage::Task { worker_id: w, timestamp_ms, issue_id, priority, title }
                && w@ == worker_id@ && timestamp_ms == now_ms && issue_id == task.issue_id
                && priority == task.priority && title == task.title,
    {
        self.task_poller.mark_in_progress(task.issue_id.as_str());
        let now_s = now_ms / 1000;
        match self.registry.get_mut(worker_id) {
            Some(w) => {
                w.assign_task_at(task.issue_id.clone(), now_s);
            },
            None => {},
        }
        proof {
            let f = assigned(task.issue_id, now_s);
            if old(self).registry()@.contains_key(worker_id@) {
                let w0 = old(self).registry()@[worker_id@];
                assert(f(w0) == (WorkerInfo { state: WorkerState::Working, current_task: Some(task.issue_id), last_seen: now_s, ..w0 }));
            }
        }
        let message = OrchestratorMessage::task_at(worker_id.to_owned(), task.issue_id, task.priority, task.title, now_ms);
        Outgoing { worker_id: worker_id.to_owned(), message }
    }

    /// Tells worker `worker_id` to wait the configured time: it is waiting.
    fn send_wait_to_worker(&mut self, worker_id: &str, now_ms: u64) -> (out: Outgoing)
        requires
            old(self).wf(),
        ensures
            final(self).wf(),
            final(self).registry()@ == update_worker(old(self).registry()@, worker_id@, with_state(WorkerState::Waiting)),
            final(self).poller() == old(self).poller(),
            final(self).queue() == old(self).queue(),
            final(self).registry().ids() == old(self).registry().ids(),
            final(self).registry().next_number() == old(self).registry().next_number(),
            final(self).spec_config() == old(self).spec_config(),
            out.worker_id@ == worker_id@,
            out.message matches OrchestratorMessage::Wait { worker_id: w, timestamp_ms, wait_seconds }
                && w@ == worker_id@ && timestamp_ms == now_ms && wait_seconds == old(self).spec_config().default_wait_seconds,
    {
        self.update_state(worker_id, WorkerState::Waiting);
        let message = OrchestratorMessage::wait_at(worker_id.to_owned(), self.config.default_wait_seconds, now_ms);
        Outgoing { worker_id: worker_id.to_owned(), message }
    }

    /// Registers a newly connected worker at `now_ms`, unless the maximum number of
    /// workers is reached, in which case the connection is refused (`None`).
    pub fn accept_worker(&mut self, now_ms: u64) -> (r: Option<String>)
        requires
            old(self).wf(),
            old(self).registry().next_number() < usize::MAX,
        ensures
            final(self).wf(),
            final(self).queue() == old(self).queue(),
            final(self).poller() == old(self).poller(),
            final(self).spec_config() == old(self).spec_config(),
            old(self).registry()@.len() >= old(self).spec_config().max_workers ==> {
                &&& r is None
                &&& final(self).registry() == old(self).registry()
            },
            old(self).registry()@.len() < old(self).spec_config().max_workers ==> {
                &&& r matches Some(id)
                &&& id@ == crate::types::worker_id_for(old(self).registry().next_number())
                &&& !old(self).registry()@.contains_key(id@)
                &&& final(self).registry().ids() == old(self).registry().ids().push(id@)
                &&& final(self).registry().next_number() == old(self).registry().next_number() + 1
                &&& final(self).registry()@ == old(self).registry()@.insert(id@, WorkerInfo {
                    worker_id: id,
                    state: WorkerState::Idle,
                    current_task: None,
                    registered_at: (now_ms / 1000) as u64,
                    last_seen: (now_ms / 1000) as u64,
                    tasks_completed: 0,
                    tasks_failed: 0,
                })
            },
    {
        if self.registry.count() >= self.config.max_workers {
            return None;
        }
        let ghost before = self.registry();
        let id = self.registry.register_at(now_ms / 1000);
        proof {
            before.lemma_len();
            self.registry().lemma_len();
        }
        Some(id)
    }

    /// A worker said it is ready at `now_ms`: it is idle, then gets the next task or is told to wait.
    fn handle_worker_ready(&mut self, worker_id: &str, now_ms: u64) -> (out: Outgoing)
        requires
            old(self).wf(),
        ensures
            final(self).wf(),
            final(self).registry()@ == next_task_workers(
                update_worker(old(self).registry()@, worker_id@, with_state(WorkerState::Idle)),
                old(self).queue().pending(), worker_id@, now_ms),
            final(self).queue().pending() == next_task_pending(old(self).queue().pending()),
            final(self).poller()@ == next_task_in_progress(old(self).queue().pending(), old(self).poller()@),
            final(self).registry().ids() == old(self).registry().ids(),
            final(self).registry().next_number() == old(self).registry().next_number(),
            final(self).spec_config() == old(self).spec_config(),
            out.worker_id@ == worker_id@,
            is_next_message(out.message, old(self).queue().pending(), worker_id@, now_ms, old(self).spec_config().default_wait_seconds),
    {
        self.update_state(worker_id, WorkerState::Idle);
        self.give_next_task(worker_id, now_ms)
    }

    /// A worker completed `issue_id` at `now_ms`: the issue is no longer in progress, the
    /// worker's completions grow by one, then it gets the next task or is told to wait.
    fn handle_worker_done(&mut self, worker_id: &str, issue_id: &str, now_ms: u64) -> (out: Outgoing)
        requires
            old(self).wf(),
            old(self).counters_fit_spec(),
        ensures
            final(self).wf(),
            final(self).registry()@ == next_task_workers(
                update_worker(old(self).registry()@, worker_id@, completed((now_ms / 1000) as u64)),
                old(self).queue().pending(), worker_id@, now_ms),
            final(self).queue().pending() == next_task_pending(old(self).queue().pending()),
            final(self).poller()@ == next_task_in_progress(old(self).queue().pending(), old(self).poller()@.remove(issue_id@)),
            final(self).registry().ids() == old(self).registry().ids(),
            final(self).registry().next_number() == old(self).registry().next_number(),
            final(self).spec_config() == old(self).spec_config(),
            out.worker_id@ == worker_id@,
            is_next_message(out.message, old(self).queue().pending(), worker_id@, now_ms, old(self).spec_config().default_wait_seconds),
    {
        self.task_poller.mark_completed(issue_id);
        let now_s = now_ms / 1000;
        match self.registry.get_mut(worker_id) {
            Some(w) => {
                w.complete_task_at(now_s);
            },
            None => {},
        }
        proof {
            if old(self).registry()@.contains_key(worker_id@) {
                let w0 = old(self).registry()@[worker_id@];
                assert(completed(now_s)(w0) == (WorkerInfo {
                    tasks_completed: (w0.tasks_completed + 1) as u64,
                    current_task: None,
                    state: WorkerState::Idle,
                    last_seen: now_s,
                    ..w0
                }));
            }
        }
        self.give_next_task(worker_id, now_ms)
    }

    /// A worker failed `issue_id` at `now_ms`: the issue is no longer in progress (a later
    /// poll may hand it out again), the worker's failures grow by one, then it gets the
    /// next task or is told to wait.
    fn handle_worker_failed(&mut self, worker_id: &str, issue_id: &str, now_ms: u64) -> (out: Outgoing)
        requires
            old(self).wf(),
            old(self).counters_fit_spec(),
        ensures
            final(self).wf(),
            final(self).registry()@ == next_task_workers(
                update_worker(old(self).registry()@, worker_id@, failed((now_ms / 1000) as u64)),
                old(self).queue().pending(), worker_id@, now_ms),
            final(self).queue().pending() == next_task_pending(old(self).queue().pending()),
            final(self).poller()@ == next_task_in_progress(old(self).queue().pending(), old(self).poller()@.remove(issue_id@)),
            final(self).registry().ids() == old(self).registry().ids(),
            final(self).registry().next_number() == old(self).registry().next_number(),
            final(self).spec_config() == old(self).spec_config(),
            out.worker_id@ == worker_id@,
            is_next_message(out.message, old(self).queue().pending(), worker_id@, now_ms, old(self).spec_config().default_wait_seconds),
    {
        self.task_poller.mark_failed(issue_id);
        let now_s = now_ms / 1000;
        match self.registry.get_mut(worker_id) {
            Some(w) => {
                w.fail_task_at(now_s);
            },
            None => {},
        }
        proof {
            if old(self).registry()@.contains_key(worker_id@) {
                let w0 = old(self).registry()@[worker_id@];
                assert(failed(now_s)(w0) == (WorkerInfo {
                    tasks_failed: (w0.tasks_failed + 1) as u64,
                    current_task: None,
                    state: WorkerState::Idle,
                    last_seen: now_s,
                    ..w0
                }));
            }
        }
        self.give_next_task(worker_id, now_ms)
    }

    /// A worker disconnected: its current task (if any) is released, and it is removed.
    pub fn handle_worker_disconnect(&mut self, worker_id: &str)
        requires
            old(self).wf(),
        ensures
            final(self).wf(),
            final(self).registry()@ == old(self).registry()@.remove(worker_id@),
            final(self).registry().next_number() == old(self).registry().next_number(),
            final(self).poller()@ == released_on_disconnect(old(self).registry()@, old(self).poller()@, worker_id@),
            final(self).queue() == old(self).queue(),
            final(self).spec_config() == old(self).spec_config(),
    {
        match self.registry.get_mut(worker_id) {
            Some(w) => {
                let current = w.current_task.take();
                match current {
                    Some(task_id) => {
                        self.task_poller.mark_failed(task_id.as_str());
                    },
                    None => {},
                }
                w.state = WorkerState::Disconnected;
            },
            None => {},
        }
        let ghost before = self.registry();
        let removed = self.registry.unregister(worker_id);
        proof {
            assert(self.registry()@ =~= old(self).registry()@.remove(worker_id@));
            before.lemma_len();
            self.registry().lemma_len();
            vstd::set_lib::lemma_len_subset(self.registry()@.dom(), before@.dom());
        }
    }

    /// Handles a worker's message received at `now_ms`, returning the reply to deliver.
    /// A READY stamped 0 marks a closed connection and is handled as a disconnection,
    /// with no reply.
    pub fn handle_worker_message(&mut self, event: WorkerMessageEvent, now_ms: u64) -> (out: Option<Outgoing>)
        requires
            old(self).wf(),
            old(self).counters_fit_spec(),
        ensures
            final(self).wf(),
            final(self).spec_config() == old(self).spec_config(),
            final(self).registry().next_number() == old(self).registry().next_number(),
            ({
                let id = event.worker_id@;
                let seen = update_worker(old(self).registry()@, id, seen_at((now_ms / 1000) as u64));
                let pending = old(self).queue().pending();
                let wait = old(self).spec_config().default_wait_seconds;
                match event.message {
                    WorkerMessage::Ready { timestamp_ms, .. } => if timestamp_ms == 0 {
                        &&& out is None
                        &&& final(self).registry()@ == old(self).registry()@.remove(id)
                        &&& final(self).poller()@ == released_on_disconnect(old(self).registry()@, old(self).poller()@, id)
                        &&& final(self).queue() == old(self).queue()
                    } else {
                        &&& out matches Some(o) && o.worker_id@ == id && is_next_message(o.message, pending, id, now_ms, wait)
                        &&& final(self).registry()@ == next_task_workers(update_worker(seen, id, with_state(WorkerState::Idle)), pending, id, now_ms)
                        &&& final(self).queue().pending() == next_task_pending(pending)
                        &&& final(self).poller()@ == next_task_in_progress(pending, old(self).poller()@)
                        &&& final(self).registry().ids() == old(self).registry().ids()
                    },
                    WorkerMessage::Done { issue_id, .. } => {
                        &&& out matches Some(o) && o.worker_id@ == id && is_next_message(o.message, pending, id, now_ms, wait)
                        &&& final(self).registry()@ == next_task_workers(update_worker(seen, id, completed((now_ms / 1000) as u64)), pending, id, now_ms)
                        &&& final(self).queue().pending() == next_task_pending(pending)
                        &&& final(self).poller()@ == next_task_in_progress(pending, old(self).poller()@.remove(issue_id@))
                        &&& final(self).registry().ids() == old(self).registry().ids()
                    },
                    WorkerMessage::Failed { issue_id, .. } => {
                        &&& out matches Some(o) && o.worker_id@ == id && is_next_message(o.message, pending, id, now_ms, wait)
                        &&& final(self).registry()@ == next_task_workers(update_worker(seen, id, failed((now_ms / 1000) as u64)), pending, id, now_ms)
                        &&& final(self).queue().pending() == next_task_pending(pending)
                        &&& final(self).poller()@ == next_task_in_progress(pending, old(self).poller()@.remove(issue_id@))
                        &&& final(self).registry().ids() == old(self).registry().ids()
                    },
                }
            }),
    {
        let worker_id = event.worker_id;
        let is_marker = match &event.message {
            WorkerMessage::Ready { timestamp_ms, .. } => *timestamp_ms == 0,
            _ => false,
        };
        if is_marker {
            self.handle_worker_disconnect(worker_id.as_str());
            return None;
        }
        let now_s = now_ms / 1000;
        match self.registry.get_mut(worker_id.as_str()) {
            Some(w) => {
                w.update_last_seen_at(now_s);
            },
            None => {},
        }
        proof {
            if old(self).registry()@.contains_key(worker_id@) {
                let w0 = old(self).registry()@[worker_id@];
                assert(seen_at(now_s)(w0) == (WorkerInfo { last_seen: now_s, ..w0 }));
            }
            assert forall|id: Seq<char>| #[trigger] self.registry()@.contains_key(id) implies {
                &&& self.registry()@[id].tasks_completed < u64::MAX
                &&& self.registry()@[id].tasks_failed < u64::MAX
            } by {
                assert(old(self).registry()@.contains_key(id));
            }
        }
        match event.message {
            WorkerMessage::Ready { .. } => Some(self.handle_worker_ready(worker_id.as_str(), now_ms)),
            WorkerMessage::Done { issue_id, .. } => Some(self.handle_worker_done(worker_id.as_str(), issue_id.as_str(), now_ms)),
            WorkerMessage::Failed { issue_id, .. } => Some(self.handle_worker_failed(worker_id.as_str(), issue_id.as_str(), now_ms)),
        }
    }

    /// Hands queued tasks to idle workers at `now_ms`, in registration order, until
    /// either runs out; returns the TASK messages to deliver, in order.
    pub fn try_assign_tasks_to_idle_workers(&mut self, now_ms: u64) -> (out: Vec<Outgoing>)
        requires
            old(self).wf(),
        ensures
            final(self).wf(),
            ({
                let r = idle_pass(old(self).registry().infos(), old(self).registry().ids(), 0,
                    old(self).queue().pending(), (now_ms / 1000) as u64);
                &&& final(self).registry().infos() == r.0
                &&& final(self).queue().pending() == r.2
                &&& final(self).poller()@ == old(self).poller()@ + r.1.map_values(|p: (Seq<char>, Task)| p.1.issue_id@).to_set()
                &&& out@.len() == r.1.len()
                &&& forall|t: int| 0 <= t < out@.len() ==> #[trigger] is_task_delivery(out@[t], r.1[t].0, r.1[t].1, now_ms)
            }),
            final(self).registry().ids() == old(self).registry().ids(),
            final(self).registry().next_number() == old(self).registry().next_number(),
            final(self).spec_config() == old(self).spec_config(),
    {
        let n = self.registry.count();
        proof { self.registry.lemma_ids_infos_len(); }
        let ghost now_s = (now_ms / 1000) as u64;
        let ghost ids0 = self.registry().ids();
        let ghost goal = idle_pass(self.registry().infos(), ids0, 0, self.queue().pending(), now_s);
        let ghost pairs: Seq<(Seq<char>, Task)> = Seq::empty();
        let mut out: Vec<Outgoing> = Vec::new();
        let mut i: usize = 0;
        while i < n
            invariant
                self.wf(),
                i <= n,
                n == ids0.len(),
                self.registry().ids() == ids0,
                self.registry().infos().len() == ids0.len(),
                self.registry().next_number() == old(self).registry().next_number(),
                self.spec_config() == old(self).spec_config(),
                now_s == (now_ms / 1000) as u64,
                goal == idle_pass(old(self).registry().infos(), ids0, 0, old(self).queue().pending(), now_s),
                ({
                    let rest = idle_pass(self.registry().infos(), ids0, i as int, self.queue().pending(), now_s);
                    &&& rest.0 == goal.0
                    &&& pairs + rest.1 == goal.1
                    &&& rest.2 == goal.2
                }),
                self.poller()@ == old(self).poller()@ + pairs.map_values(|p: (Seq<char>, Task)| p.1.issue_id@).to_set(),
                out@.len() == pairs.len(),
                forall|t: int| 0 <= t < out@.len() ==> #[trigger] is_task_delivery(out@[t], pairs[t].0, pairs[t].1, now_ms),
            ensures
                i == n || self.queue().pending().len() == 0,
            decreases n - i,
        {
            let state = self.registry.info_at(i).state;
            if state == WorkerState::Idle {
                let ghost infos_before = self.registry().infos();
                let ghost pending_before = self.queue().pending();
                match self.task_queue.pop() {
                    Some(task) => {
                        let id = self.registry.id_at(i).clone();
                        proof {
                            self.registry.lemma_index_of_pub(i as int);
                        }
                        let o = self.assign_task_to_worker(id.as_str(), task, now_ms);
                        proof {
                            assert(self.registry().infos() == infos_before.update(i as int,
                                assigned(task.issue_id, now_s)(infos_before[i as int])));
                            let old_pairs = pairs;
                            pairs = pairs.push((id@, task));
                            assert(old_pairs + idle_pass(infos_before, ids0, i as int, pending_before, now_s).1 =~=
                                pairs + idle_pass(self.registry().infos(), ids0, i as int + 1, self.queue().pending(), now_s).1);
                            let ms = |p: (Seq<char>, Task)| p.1.issue_id@;
                            assert(pairs.map_values(ms) =~= old_pairs.map_values(ms).push(task.issue_id@));
                            assert(pairs.map_values(ms).to_set() =~= old_pairs.map_values(ms).to_set().insert(task.issue_id@)) by {
                                assert forall|x: Seq<char>| pairs.map_values(ms).contains(x) <==> old_pairs.map_values(ms).to_set().insert(task.issue_id@).contains(x) by {
                                    if pairs.map_values(ms).contains(x) {
                                        let j = pairs.map_values(ms).index_of(x);
                                        if j < old_pairs.len() { assert(old_pairs.map_values(ms)[j] == x); }
                                    }
                                    if old_pairs.map_values(ms).contains(x) {
                                        let j = old_pairs.map_values(ms).index_of(x);
                                        assert(pairs.map_values(ms)[j] == x);
                                    }
                                    if x == task.issue_id@ {
                                        assert(pairs.map_values(ms)[old_pairs.len() as int] == x);
                                    }
                                }
                            }
                            assert(self.poller()@ =~= old(self).poller()@ + pairs.map_values(ms).to_set());
                        }
                        out.push(o);
                    },
                    None => {
                        break;
                    },
                }
            }
            i += 1;
        }
        proof {
            let rest = idle_pass(self.registry().infos(), ids0, i as int, self.queue().pending(), now_s);
            assert(rest.1 =~= Seq::<(Seq<char>, Task)>::empty());
            assert(pairs + rest.1 =~= pairs);
        }
        out
    }

    /// Queues the tasks of a poll in order, then, if there were any, hands queued tasks to
    /// idle workers; returns the TASK messages to deliver.
    pub fn queue_polled_tasks(&mut self, tasks: Vec<Task>, now_ms: u64) -> (out: Vec<Outgoing>)
        requires
            old(self).wf(),
        ensures
            final(self).wf(),
            final(self).registry().ids() == old(self).registry().ids(),
            final(self).registry().next_number() == old(self).registry().next_number(),
            final(self).spec_config() == old(self).spec_config(),
            tasks@.len() == 0 ==> {
                &&& out@.len() == 0
                &&& final(self).queue() == old(self).queue()
                &&& final(self).registry() == old(self).registry()
                &&& final(self).poller() == old(self).poller()
            },
            tasks@.len() > 0 ==> ({
                let queued = crate::types::flatten_from(push_all(old(self).queue()@, tasks@), 0);
                let r = idle_pass(old(self).registry().infos(), old(self).registry().ids(), 0, queued, (now_ms / 1000) as u64);
                &&& final(self).registry().infos() == r.0
                &&& final(self).queue().pending() == r.2
                &&& final(self).poller()@ == old(self).poller()@ + r.1.map_values(|p: (Seq<char>, Task)| p.1.issue_id@).to_set()
                &&& out@.len() == r.1.len()
                &&& forall|t: int| 0 <= t < out@.len() ==> #[trigger] is_task_delivery(out@[t], r.1[t].0, r.1[t].1, now_ms)
            }),
    {
        if tasks.len() == 0 {
            return Vec::new();
        }
        let mut tasks = tasks;
        let ghost all = tasks@;
        while tasks.len() > 0
            invariant
                self.wf(),
                self.registry() == old(self).registry(),
                self.poller() == old(self).poller(),
                self.spec_config() == old(self).spec_config(),
                push_all(self.queue()@, tasks@) == push_all(old(self).queue()@, all),
            decreases tasks.len(),
        {
            let t = tasks.remove(0);
            let ghost before = self.queue()@;
            self.add_task(t);
        }
        self.try_assign_tasks_to_idle_workers(now_ms)
    }

    /// The SHUTDOWN (user requested) messages for every registered worker, in
    /// registration order, stamped `now_ms`.
    pub fn shutdown_messages(&self, now_ms: u64) -> (out: Vec<Outgoing>)
        requires
            self.wf(),
        ensures
            out@.len() == self.registry().ids().len(),
            forall|t: int| 0 <= t < out@.len() ==> {
                &&& (#[trigger] out@[t]).worker_id@ == self.registry().ids()[t]
                &&& out@[t].message matches OrchestratorMessage::Shutdown { worker_id: w, timestamp_ms, reason }
                &&& w@ == self.registry().ids()[t]
                &&& timestamp_ms == now_ms
                &&& reason == ShutdownReason::UserRequested
            },
    {
        let n = self.registry.count();
        let mut out: Vec<Outgoing> = Vec::new();
        let mut i: usize = 0;
        while i < n
            invariant
                i <= n,
                n == self.registry().ids().len(),
                out@.len() == i,
                forall|t: int| 0 <= t < out@.len() ==> {
                    &&& (#[trigger] out@[t]).worker_id@ == self.registry().ids()[t]
                    &&& out@[t].message matches OrchestratorMessage::Shutdown { worker_id: w, timestamp_ms, reason }
                    &&& w@ == self.registry().ids()[t]
                    &&& timestamp_ms == now_ms
                    &&& reason == ShutdownReason::UserRequested
                },
            decreases n - i,
        {
            let id = self.registry.id_at(i);
            let message = OrchestratorMessage::shutdown_at(id.clone(), ShutdownReason::UserRequested, now_ms);
            out.push(Outgoing { worker_id: id.clone(), message });
            i += 1;
        }
        out
    }

    /// Orchestrator statistics: workers in total, idle and working, queued tasks, and the
    /// workers' total completions and failures.
    pub fn stats(&self) -> (st: OrchestratorStats)
        requires
            self.wf(),
            self.queue().pending().len() <= usize::MAX,
            sum_of(self.registry().infos(), |w: WorkerInfo| w.tasks_completed) <= u64::MAX,
            sum_of(self.registry().infos(), |w: WorkerInfo| w.tasks_failed) <= u64::MAX,
        ensures
            st.total_workers == self.registry()@.len(),
            st.idle_workers == self.registry().infos().filter(|w: WorkerInfo| w.state == WorkerState::Idle).len(),
            st.working_workers == self.registry().infos().filter(|w: WorkerInfo| w.state == WorkerState::Working).len(),
            st.queued_tasks == self.queue().pending().len(),
            st.total_completed == sum_of(self.registry().infos(), |w: WorkerInfo| w.tasks_completed),
            st.total_failed == sum_of(self.registry().infos(), |w: WorkerInfo| w.tasks_failed),
    {
        let all = self.registry.all();
        let ghost fc = |w: WorkerInfo| w.tasks_completed;
        let ghost ff = |w: WorkerInfo| w.tasks_failed;
        let mut completed: u64 = 0;
        let mut failed: u64 = 0;
        let mut i: usize = 0;
        while i < all.len()
            invariant
                i <= all@.len(),
                all@.len() == self.registry().infos().len(),
                forall|j: int| 0 <= j < all@.len() ==> *all@[j] == self.registry().infos()[j],
                fc == (|w: WorkerInfo| w.tasks_completed),
                ff == (|w: WorkerInfo| w.tasks_failed),
                sum_of(self.registry().infos(), fc) <= u64::MAX,
                sum_of(self.registry().infos(), ff) <= u64::MAX,
                completed == sum_of(self.registry().infos().take(i as int), fc),
                failed == sum_of(self.registry().infos().take(i as int), ff),
            decreases all.len() - i,
        {
            proof {
                let infos = self.registry().infos();
                assert(infos.take(i as int + 1).drop_last() =~= infos.take(i as int));
                lemma_sum_prefix_bound(infos, fc, i as int + 1);
                lemma_sum_prefix_bound(infos, ff, i as int + 1);
            }
            completed = completed + all[i].tasks_completed;
            failed = failed + all[i].tasks_failed;
            i += 1;
        }
        proof {
            assert(self.registry().infos().take(all@.len() as int) =~= self.registry().infos());
        }
        let idle = self.registry.idle_workers();
        let working = self.registry.working_workers();
        OrchestratorStats {
            total_workers: self.registry.count(),
            idle_workers: idle.len(),
            working_workers: working.len(),
            queued_tasks: self.task_queue.len(),
            total_completed: completed,
            total_failed: failed,
        }
    }
}

} // verus!
