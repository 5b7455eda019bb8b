use crate::registry::{
    all_wf, batch_step, first_running, first_running_finds, has_key, has_pending, has_running, merged,
    merged_all, pick, pick_selects, selected, views, MergeOutcome, TaskRegistry,
};
use crate::status::{StatusView, TaskStatus};
use crate::task::{stepped, Task, TaskView};
use vstd::prelude::*;

verus! {

/// What one scheduling cycle did.
#[derive(Debug, Clone, Copy, PartialEq, Eq, Structural)]
pub enum Cycle {
    /// No task was running and none was pending.
    Idle,
    /// The running task at `index` advanced to `elapsed` and is still running.
    Progressed { index: usize, elapsed: usize },
    /// The running task at `index` reached its length and finished.
    Completed { index: usize },
}

/// The registry after entry `i` has been started.
pub open spec fn started(s: Seq<TaskView>, i: int) -> Seq<TaskView> {
    s.update(i, s[i].with_state(StatusView::Running))
}

/// The task to drive this cycle, and the registry once it is running: the one
/// already driven; else the first entry recorded as running, taken over as it
/// is; else, only when no entry is running, the one selected among the
/// pending, started.
pub open spec fn cycle_start(s: Seq<TaskView>, running: Option<usize>) -> (Seq<TaskView>, Option<usize>) {
    match running {
        Some(i) => (s, Some(i)),
        None => match first_running(s) {
            Some(i) => (s, Some(i)),
            None => match pick(s) {
                Some(i) => (started(s, i as int), Some(i)),
                None => (s, None),
            },
        },
    }
}

/// One scheduling cycle with increment `step`: the registry after it, the
/// task left running, and what was done.
pub open spec fn run_cycle(s: Seq<TaskView>, running: Option<usize>, step: usize) -> (
    Seq<TaskView>,
    Option<usize>,
    Cycle,
) {
    let (s1, r1) = cycle_start(s, running);
    match r1 {
        None => (s1, None, Cycle::Idle),
        Some(i) => {
            let t = s1[i as int];
            let e = stepped(t.elapsed_length, t.length, step);
            let s2 = s1.update(i as int, t.with_elapsed(e));
            if e == t.length {
                (
                    s2.update(i as int, t.with_elapsed(e).with_state(StatusView::Finished)),
                    None,
                    Cycle::Completed { index: i },
                )
            } else {
                (s2, Some(i), Cycle::Progressed { index: i, elapsed: e })
            }
        },
    }
}

/// From `s` to `t` no task lost progress or went past its length: entries
/// keep their place, identity and length, and later entries are only added.
pub open spec fn progress_kept(s: Seq<TaskView>, t: Seq<TaskView>) -> bool {
    &&& s.len() <= t.len()
    &&& forall|i: int|
        0 <= i < s.len() ==> {
            &&& (#[trigger] t[i]).id == s[i].id
            &&& t[i].length == s[i].length
            &&& s[i].elapsed_length <= t[i].elapsed_length
            &&& t[i].elapsed_length <= t[i].length
        }
}

/// No two entries are in state Running.
pub open spec fn at_most_one_running(s: Seq<TaskView>) -> bool {
    forall|i: int, j: int|
        0 <= i < s.len() && 0 <= j < s.len() && (#[trigger] s[i]).state is Running
            && (#[trigger] s[j]).state is Running ==> i == j
}

/// Every entry running in `t` was already running in `s`.
pub open spec fn no_new_running(s: Seq<TaskView>, t: Seq<TaskView>) -> bool {
    forall|k: int|
        0 <= k < t.len() && (#[trigger] t[k]).state is Running ==> k < s.len() && s[k].state is Running
}

/// A scheduler state is consistent: all tasks well formed, and the task it
/// drives, if any, is in the registry and running.
pub open spec fn state_wf(s: Seq<TaskView>, running: Option<usize>) -> bool {
    &&& all_wf(s)
    &&& running matches Some(i) ==> i < s.len() && s[i as int].state is Running
}

/// The scheduler after a merge-insert of `t`, and its outcome: an entry with
/// the same key means no change; otherwise `t` is added as recorded, and
/// taken as the driven task when it is recorded as running and the worker is
/// free.
pub open spec fn sched_merge(s: Seq<TaskView>, running: Option<usize>, t: TaskView) -> (
    Seq<TaskView>,
    Option<usize>,
    MergeOutcome,
) {
    if has_key(s, t.key()) {
        (s, running, MergeOutcome::DuplicateIgnored)
    } else if running is None && t.state is Running {
        (s.push(t), Some(s.len() as usize), MergeOutcome::Inserted)
    } else {
        (s.push(t), running, MergeOutcome::Inserted)
    }
}

/// The scheduler after merging each task of `batch` in order.
pub open spec fn sched_merge_all(s: Seq<TaskView>, running: Option<usize>, batch: Seq<TaskView>) -> (
    Seq<TaskView>,
    Option<usize>,
)
    decreases batch.len(),
{
    if batch.len() == 0 {
        (s, running)
    } else {
        let p = sched_merge_all(s, running, batch.drop_last());
        let m = sched_merge(p.0, p.1, batch.last());
        (m.0, m.1)
    }
}

/// The single worker: it owns the registry and drives one task at a time.
pub struct Scheduler {
    tasks: TaskRegistry,
    running_task: Option<usize>,
}

impl Scheduler {
    /// The registry's contents.
    pub closed spec fn tasks_view(&self) -> Seq<TaskView> {
        self.tasks@
    }

    /// The index of the task being driven.
    pub closed spec fn running(&self) -> Option<usize> {
        self.running_task
    }

    pub open spec fn wf(&self) -> bool {
        state_wf(self.tasks_view(), self.running())
    }

    /// A scheduler with an empty registry and no running task.
    pub fn new() -> (r: Self)
        ensures
            r.tasks_view() == Seq::<TaskView>::empty(),
            r.running() is None,
            r.wf(),
    {
        Scheduler { tasks: TaskRegistry::new(), running_task: None }
    }

    /// The registry.
    pub fn tasks(&self) -> (r: &TaskRegistry)
        ensures
            r@ == self.tasks_view(),
    {
        &self.tasks
    }

    /// The index of the task being driven.
    pub fn running_task(&self) -> (r: Option<usize>)
        ensures
            r == self.running(),
    {
        self.running_task
    }

    /// Merge-inserts one externally defined task: every task whose key is
    /// new is added, whatever its state.
    pub fn merge(&mut self, t: Task) -> (r: MergeOutcome)
        requires
            old(self).wf(),
            t@.wf(),
        ensures
            (final(self).tasks_view(), final(self).running(), r) == sched_merge(
                old(self).tasks_view(),
                old(self).running(),
                t@,
            ),
            final(self).tasks_view() == merged(old(self).tasks_view(), t@),
            final(self).wf(),
            progress_kept(old(self).tasks_view(), final(self).tasks_view()),
    {
        let ghost s = self.tasks_view();
        let ghost tv = t@;
        if self.tasks.contains_equal(&t) {
            return MergeOutcome::DuplicateIgnored;
        }
        let n = self.tasks.len();
        let adopt = self.running_task.is_none() && matches!(t.state(), TaskStatus::Running);
        self.tasks.merge(t);
        if adopt {
            self.running_task = Some(n);
        }
        proof {
            let m = self.tasks_view();
            assert(m == s.push(tv));
            assert forall|i: int| 0 <= i < m.len() implies (#[trigger] m[i]).wf() by {
                if i < s.len() {
                    assert(m[i] == s[i]);
                }
            }
        }
        MergeOutcome::Inserted
    }

    /// Merge-inserts each task of a batch, in order.
    pub fn merge_batch(&mut self, batch: Vec<Task>)
        requires
            old(self).wf(),
            all_wf(views(batch@)),
        ensures
            (final(self).tasks_view(), final(self).running()) == sched_merge_all(
                old(self).tasks_view(),
                old(self).running(),
                views(batch@),
            ),
            final(self).tasks_view() == merged_all(old(self).tasks_view(), views(batch@)),
            final(self).wf(),
            progress_kept(old(self).tasks_view(), final(self).tasks_view()),
    {
        let ghost all = views(batch@);
        let n = batch.len();
        let mut rest = batch;
        let mut k: usize = 0;
        proof {
            assert(all.take(0) =~= Seq::<TaskView>::empty());
        }
        while rest.len() > 0
            invariant
                k + rest@.len() == n,
                n == all.len(),
                all_wf(all),
                views(rest@) =~= all.subrange(k as int, all.len() as int),
                self.wf(),
                (self.tasks_view(), self.running()) == sched_merge_all(
                    old(self).tasks_view(),
                    old(self).running(),
                    all.take(k as int),
                ),
                self.tasks_view() == merged_all(old(self).tasks_view(), all.take(k as int)),
                progress_kept(old(self).tasks_view(), self.tasks_view()),
            decreases rest@.len(),
        {
            let ghost before = rest@;
            let ghost mid = self.tasks_view();
            let t = rest.remove(0);
            proof {
                batch_step(before, rest@, t, all, k as int);
            }
            self.merge(t);
            proof {
                progress_kept_trans(old(self).tasks_view(), mid, self.tasks_view());
            }
            k += 1;
        }
        assert(all.take(k as int) =~= all);
    }

    /// The task that would be selected now: the pending one with the smallest
    /// (priority, length, elapsed_length), the earliest on a tie.
    pub fn select_next(&self) -> (r: Option<usize>)
        ensures
            r == pick(self.tasks_view()),
            r is None <==> !has_pending(self.tasks_view()),
            r matches Some(i) ==> selected(self.tasks_view(), i as int),
    {
        self.tasks.select_pending()
    }

    /// Records an unrecoverable execution error of the running task: it becomes
    /// failed and the worker is free. Without a running task nothing changes.
    pub fn fail_running(&mut self, reason: String)
        requires
            old(self).wf(),
        ensures
            match old(self).running() {
                Some(i) => final(self).tasks_view() == old(self).tasks_view().update(
                    i as int,
                    old(self).tasks_view()[i as int].with_state(StatusView::Failed(reason@)),
                ),
                None => final(self).tasks_view() == old(self).tasks_view(),
            },
            final(self).running() is None,
            final(self).wf(),
            no_new_running(old(self).tasks_view(), final(self).tasks_view()),
            progress_kept(old(self).tasks_view(), final(self).tasks_view()),
    {
        if let Some(i) = self.running_task {
            self.tasks.mark_failed(i, reason);
            self.running_task = None;
            proof {
                let s = old(self).tasks_view();
                let n = self.tasks_view();
                assert forall|k: int| 0 <= k < n.len() implies (#[trigger] n[k]).wf() by {
                    assert(s[k].wf());
                }
            }
        }
    }

    /// One scheduling cycle. With no driven task, the first entry recorded as
    /// running is taken over; only when no entry is running is the selected
    /// pending task started, and none pending means the cycle does nothing.
    /// The driven task then advances by `step` without passing its length, and
    /// finishes on reaching it. While any entry is running no other starts.
    pub fn run(&mut self, step: usize) -> (r: Cycle)
        requires
            old(self).wf(),
        ensures
            (final(self).tasks_view(), final(self).running(), r) == run_cycle(
                old(self).tasks_view(),
                old(self).running(),
                step,
            ),
            final(self).wf(),
            has_running(old(self).tasks_view()) ==> no_new_running(
                old(self).tasks_view(),
                final(self).tasks_view(),
            ),
            at_most_one_running(old(self).tasks_view()) ==> at_most_one_running(
                final(self).tasks_view(),
            ),
            progress_kept(old(self).tasks_view(), final(self).tasks_view()),
    {
        let len = self.tasks.len();
        proof {
            assert(old(self).tasks_view().len() == len);
            run_keeps_state(old(self).tasks_view(), old(self).running(), step);
        }
        if self.running_task.is_none() {
            match self.tasks.first_running() {
                Some(i) => {
                    self.running_task = Some(i);
                },
                None => match self.tasks.select_pending() {
                    None => {
                        return Cycle::Idle;
                    },
                    Some(i) => {
                        let _ = self.tasks.request_transition(i, TaskStatus::Running);
                        self.running_task = Some(i);
                    },
                },
            }
        }
        let i = self.running_task.unwrap();
        let e = self.tasks.advance(i, step);
        if e == self.tasks.get(i).length() {
            let _ = self.tasks.request_transition(i, TaskStatus::Finished);
            self.running_task = None;
            Cycle::Completed { index: i }
        } else {
            Cycle::Progressed { index: i, elapsed: e }
        }
    }
}

/// Progress kept over two steps is kept over both.
pub proof fn progress_kept_trans(a: Seq<TaskView>, b: Seq<TaskView>, c: Seq<TaskView>)
    requires
        progress_kept(a, b),
        progress_kept(b, c),
    ensures
        progress_kept(a, c),
{
    assert forall|i: int| 0 <= i < a.len() implies {
        &&& (#[trigger] c[i]).id == a[i].id
        &&& c[i].length == a[i].length
        &&& a[i].elapsed_length <= c[i].elapsed_length
        &&& c[i].elapsed_length <= c[i].length
    } by {
        assert(b[i].id == a[i].id);
    }
}

/// A scheduling cycle keeps the scheduler consistent, never lowers a task's
/// progress nor takes it past its length, and starts no task while any entry
/// is running.
pub proof fn run_keeps_state(s: Seq<TaskView>, running: Option<usize>, step: usize)
    requires
        state_wf(s, running),
        s.len() <= usize::MAX,
    ensures
        state_wf(run_cycle(s, running, step).0, run_cycle(s, running, step).1),
        progress_kept(s, run_cycle(s, running, step).0),
        has_running(s) ==> no_new_running(s, run_cycle(s, running, step).0),
        at_most_one_running(s) ==> at_most_one_running(run_cycle(s, running, step).0),
{
    first_running_finds(s);
    pick_selects(s);
    let (s1, r1) = cycle_start(s, running);
    assert(all_wf(s1)) by {
        assert forall|k: int| 0 <= k < s1.len() implies (#[trigger] s1[k]).wf() by {
            assert(s[k].wf());
        }
    }
    let n = run_cycle(s, running, step).0;
    assert forall|k: int| 0 <= k < n.len() implies (#[trigger] n[k]).wf() by {
        assert(s1[k].wf());
    }
    if has_running(s) {
        assert(first_running(s) is Some);
        assert(s1 == s);
        assert forall|k: int| 0 <= k < n.len() && (#[trigger] n[k]).state is Running implies k < s.len()
            && s[k].state is Running by {
            assert(n[k].state == s[k].state || n[k].state is Finished);
        }
    } else if r1 is Some {
        let i = r1->0 as int;
        assert forall|a: int, b: int|
            0 <= a < n.len() && 0 <= b < n.len() && (#[trigger] n[a]).state is Running
                && (#[trigger] n[b]).state is Running implies a == b by {
            if a != i {
                assert(n[a].state == s[a].state);
                assert(s[a].state is Running);
            }
            if b != i {
                assert(n[b].state == s[b].state);
                assert(s[b].state is Running);
            }
        }
    }
}

} // verus!
