//! Tracking of the tasks handed out to workers, so that a poll of `bd ready`
//! does not hand the same issue out twice.

use vstd::prelude::*;
use crate::types::{Task, unix_seconds};

verus! {

/// An issue as `bd ready --json` lists it.
#[derive(Debug, Clone)]
pub struct BeadsIssue {
    pub id: String,
    pub title: String,
    pub description: String,
    pub status: String,
    pub priority: u8,
    pub issue_type: String,
    pub created_at: String,
    pub updated_at: String,
}

/// The ids of the issues a poll should hand out: those not in progress, in listing order.
pub open spec fn new_issue_ids(issues: Seq<BeadsIssue>, in_progress: Set<Seq<char>>) -> Seq<BeadsIssue> {
    issues.filter(|i: BeadsIssue| !in_progress.contains(i.id@))
}

/// Polls available tasks and remembers which are in progress.
#[derive(Debug)]
pub struct TaskPoller {
    beads_dir: String,
    in_progress: Vec<String>,
}

impl View for TaskPoller {
    /// The ids of the tasks in progress.
    type V = Set<Seq<char>>;

    closed spec fn view(&self) -> Set<Seq<char>> {
        self.in_progress@.map_values(|s: String| s@).to_set()
    }
}

impl TaskPoller {
    /// The poller's invariant: each task id is recorded once.
    pub closed spec fn wf(&self) -> bool {
        self.in_progress@.map_values(|s: String| s@).no_duplicates()
    }

    /// The directory `bd` runs in.
    pub closed spec fn dir(&self) -> Seq<char> {
        self.beads_dir@
    }

    proof fn lemma_len(&self)
        requires
            self.wf(),
        ensures
            self@.len() == self.in_progress@.len(),
            self@.finite(),
    {
        self.in_progress@.map_values(|s: String| s@).unique_seq_to_set();
    }

    /// A valid poller holds finitely many tasks in progress.
    pub proof fn lemma_finite(&self)
        requires
            self.wf(),
        ensures
            self@.finite(),
    {
        self.lemma_len();
    }

    /// A poller for the beads project in `beads_dir`, with nothing in progress.
    pub fn new(beads_dir: &str) -> (p: Self)
        ensures
            p.wf(),
            p@ == Set::<Seq<char>>::empty(),
            p.dir() == beads_dir@,
    {
        let p = TaskPoller { beads_dir: beads_dir.to_owned(), in_progress: Vec::new() };
        assert(p.in_progress@.map_values(|s: String| s@) =~= Seq::<Seq<char>>::empty());
        assert(p@ =~= Set::<Seq<char>>::empty());
        p
    }

    /// The directory `bd` runs in.
    pub fn beads_dir(&self) -> (r: &str)
        ensures
            r@ == self.dir(),
    {
        self.beads_dir.as_str()
    }

    fn position(&self, task_id: &str) -> (r: Option<usize>)
        ensures
            match r {
                Some(i) => i < self.in_progress@.len() && self.in_progress@[i as int]@ == task_id@,
                None => !self@.contains(task_id@),
            },
    {
        let key = task_id.to_owned();
        let mut i: usize = 0;
        while i < self.in_progress.len()
            invariant
                i <= self.in_progress.len(),
                key@ == task_id@,
                forall|j: int| 0 <= j < i ==> self.in_progress@[j]@ != task_id@,
            decreases self.in_progress.len() - i,
        {
            if self.in_progress[i] == key {
                return Some(i);
            }
            i += 1;
        }
        proof {
            let s = self.in_progress@.map_values(|s: String| s@);
            if s.contains(task_id@) {
                let j = s.index_of(task_id@);
                assert(s[j] == task_id@);
            }
        }
        None
    }

    /// Records that a task is in progress.
    pub fn mark_in_progress(&mut self, task_id: &str)
        requires
            old(self).wf(),
        ensures
            final(self).wf(),
            final(self)@ == old(self)@.insert(task_id@),
            final(self).dir() == old(self).dir(),
    {
        let pos = self.position(task_id);
        if pos.is_none() {
            self.in_progress.push(task_id.to_owned());
            proof {
                let s0 = old(self).in_progress@.map_values(|s: String| s@);
                let s1 = self.in_progress@.map_values(|s: String| s@);
                assert(s1 =~= s0.push(task_id@));
                assert(!s0.contains(task_id@));
                assert(s1.to_set() =~= s0.to_set().insert(task_id@)) by {
                    assert forall|x: Seq<char>| s1.contains(x) <==> s0.to_set().insert(task_id@).contains(x) by {
                        if s1.contains(x) {
                            let j = s1.index_of(x);
                            if j < s0.len() { assert(s0[j] == x); }
                        }
                        if s0.contains(x) {
                            let j = s0.index_of(x);
                            assert(s1[j] == x);
                        }
                        if x == task_id@ {
                            assert(s1[s0.len() as int] == x);
                        }
                    }
                }
            }
        } else {
            let i = pos.unwrap();
            assert(self.in_progress@.map_values(|s: String| s@)[i as int] == task_id@);
            assert(self@ =~= old(self)@.insert(task_id@));
        }
    }

    fn remove_id(&mut self, task_id: &str)
        requires
            old(self).wf(),
        ensures
            final(self).wf(),
            final(self)@ == old(self)@.remove(task_id@),
            final(self).dir() == old(self).dir(),
    {
        match self.position(task_id) {
            Some(i) => {
                self.in_progress.remove(i);
                proof {
                    let s0 = old(self).in_progress@.map_values(|s: String| s@);
                    let s1 = self.in_progress@.map_values(|s: String| s@);
                    assert(s1 =~= s0.remove(i as int));
                    assert forall|a: int, b: int| 0 <= a < b < s1.len() implies s1[a] != s1[b] by {
                        let oa = if a < i { a } else { a + 1 };
                        let ob = if b < i { b } else { b + 1 };
                        assert(s1[a] == s0[oa]);
                        assert(s1[b] == s0[ob]);
                    }
                    assert forall|x: Seq<char>| s1.contains(x) <==> s0.to_set().remove(task_id@).contains(x) by {
                        if s1.contains(x) {
                            let a = s1.index_of(x);
                            let oa = if a < i { a } else { a + 1 };
                            assert(s0[oa] == x);
                            assert(s0[i as int] == task_id@);
                            assert(oa != i);
                            assert(x != task_id@);
                            assert(s0.to_set().contains(x));
                        }
                        if s0.to_set().contains(x) && x != task_id@ {
                            assert(s0.contains(x));
                            let oa = s0.index_of(x);
                            let a = if oa < i { oa } else { oa - 1 };
                            assert(s1[a] == x);
                        }
                    }
                    assert(s1.to_set() =~= s0.to_set().remove(task_id@));
                }
            },
            None => {
                assert(self@ =~= old(self)@.remove(task_id@));
            },
        }
    }

    /// Records that a task is completed: it is no longer in progress.
    pub fn mark_completed(&mut self, task_id: &str)
        requires
            old(self).wf(),
        ensures
            final(self).wf(),
            final(self)@ == old(self)@.remove(task_id@),
            final(self).dir() == old(self).dir(),
    {
        self.remove_id(task_id);
    }

    /// Records that a task failed: it is no longer in progress and may be handed out again.
    pub fn mark_failed(&mut self, task_id: &str)
        requires
            old(self).wf(),
        ensures
            final(self).wf(),
            final(self)@ == old(self)@.remove(task_id@),
            final(self).dir() == old(self).dir(),
    {
        self.remove_id(task_id);
    }

    /// The number of tasks in progress.
    pub fn in_progress_count(&self) -> (n: usize)
        requires
            self.wf(),
        ensures
            n == self@.len(),
    {
        proof { self.lemma_len(); }
        self.in_progress.len()
    }

    /// Whether a task is in progress.
    pub fn is_in_progress(&self, task_id: &str) -> (r: bool)
        ensures
            r == self@.contains(task_id@),
    {
        match self.position(task_id) {
            Some(i) => {
                assert(self.in_progress@.map_values(|s: String| s@)[i as int] == task_id@);
                true
            },
            None => false,
        }
    }

    /// Forgets every task in progress.
    pub fn clear_in_progress(&mut self)
        ensures
            final(self).wf(),
            final(self)@ == Set::<Seq<char>>::empty(),
            final(self).dir() == old(self).dir(),
    {
        self.in_progress.clear();
        assert(self.in_progress@.map_values(|s: String| s@) =~= Seq::<Seq<char>>::empty());
        assert(self@ =~= Set::<Seq<char>>::empty());
    }

    /// The tasks a poll yields from the issues `bd ready` listed: one task per issue that is
    /// not in progress, in listing order, each queued at `now`.
    pub fn tasks_from_issues(&self, issues: Vec<BeadsIssue>, now: u64) -> (r: Vec<Task>)
        ensures
            r@.len() == new_issue_ids(issues@, self@).len(),
            forall|k: int| 0 <= k < r@.len() ==> {
                let i = #[trigger] new_issue_ids(issues@, self@)[k];
                &&& r@[k].issue_id == i.id
                &&& r@[k].priority == i.priority
                &&& r@[k].title == i.title
                &&& r@[k].queued_at == now
            },
    {
        let mut r: Vec<Task> = Vec::new();
        let ghost pred = |i: BeadsIssue| !self@.contains(i.id@);
        let mut i: usize = 0;
        while i < issues.len()
            invariant
                i <= issues.len(),
                pred == (|i: BeadsIssue| !self@.contains(i.id@)),
                r@.len() == issues@.take(i as int).filter(pred).len(),
                forall|k: int| 0 <= k < r@.len() ==> {
                    let x = #[trigger] issues@.take(i as int).filter(pred)[k];
                    &&& r@[k].issue_id == x.id
                    &&& r@[k].priority == x.priority
                    &&& r@[k].title == x.title
                    &&& r@[k].queued_at == now
                },
            decreases issues.len() - i,
        {
            let issue = &issues[i];
            let ghost before = issues@.take(i as int).filter(pred);
            proof {
                let pre = issues@.take(i as int);
                assert(issues@.take(i as int + 1) =~= pre.push(issues@[i as int]));
                assert(pre.push(issues@[i as int]).drop_last() =~= pre);
                reveal(Seq::filter);
            }
            if !self.is_in_progress(issue.id.as_str()) {
                r.push(Task::new_at(issue.id.clone(), issue.priority, issue.title.clone(), now));
                assert(issues@.take(i as int + 1).filter(pred) == before.push(issues@[i as int]));
            } else {
                assert(issues@.take(i as int + 1).filter(pred) == before);
            }
            i += 1;
        }
        assert(issues@.take(issues.len() as int) =~= issues@);
        r
    }
}

/// Marking a task in progress and then completed (or failed) leaves the set of
/// tasks in progress as it was, if the task was not in it before: a failed
/// task can be handed out again.
pub proof fn lemma_mark_then_release(
    before: Set<Seq<char>>,
    middle: Set<Seq<char>>,
    after: Set<Seq<char>>,
    id: Seq<char>,
)
    requires
        !before.contains(id),
        middle == before.insert(id),
        after == middle.remove(id),
    ensures
        after == before,
        middle.contains(id),
        !after.contains(id),
{
    assert(after =~= before);
}

} // verus!
