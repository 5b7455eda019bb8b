use crate::status::{transition, Rejection, StatusView, TaskStatus};
use crate::task::{key_lt, stepped, Task, TaskKey, TaskView};
use vstd::prelude::*;

verus! {

/// The values of a sequence of tasks.
pub open spec fn views(ts: Seq<Task>) -> Seq<TaskView> {
    ts.map_values(|t: Task| t@)
}

/// Every task satisfies the task invariants.
pub open spec fn all_wf(s: Seq<TaskView>) -> bool {
    forall|i: int| 0 <= i < s.len() ==> (#[trigger] s[i]).wf()
}

/// Some entry has key `k`.
pub open spec fn has_key(s: Seq<TaskView>, k: TaskKey) -> bool {
    exists|i: int| 0 <= i < s.len() && (#[trigger] s[i]).key() == k
}

/// No two entries share a key.
pub open spec fn keys_unique(s: Seq<TaskView>) -> bool {
    forall|i: int, j: int| 0 <= i < j < s.len() ==> (#[trigger] s[i]).key() != (#[trigger] s[j]).key()
}

/// The registry after a merge-insert of `t`: unchanged when an entry with the
/// same key exists, else extended by `t`.
pub open spec fn merged(s: Seq<TaskView>, t: TaskView) -> Seq<TaskView> {
    if has_key(s, t.key()) {
        s
    } else {
        s.push(t)
    }
}

/// The registry after merging each task of `batch` in order.
pub open spec fn merged_all(s: Seq<TaskView>, batch: Seq<TaskView>) -> Seq<TaskView>
    decreases batch.len(),
{
    if batch.len() == 0 {
        s
    } else {
        merged(merged_all(s, batch.drop_last()), batch.last())
    }
}

/// Entry `i` is the one to run next: pending, with no pending entry of a
/// smaller key, and the first of the pending entries with its key.
pub open spec fn selected(s: Seq<TaskView>, i: int) -> bool {
    &&& 0 <= i < s.len()
    &&& s[i].state is Pending
    &&& forall|j: int|
        0 <= j < s.len() && (#[trigger] s[j]).state is Pending ==> !key_lt(s[j].key(), s[i].key())
            && (s[j].key() == s[i].key() ==> i <= j)
}

/// Some entry is pending.
pub open spec fn has_pending(s: Seq<TaskView>) -> bool {
    exists|i: int| 0 <= i < s.len() && (#[trigger] s[i]).state is Pending
}

/// The entry to run next, if any entry is pending.
pub open spec fn pick(s: Seq<TaskView>) -> Option<usize> {
    if exists|i: int| selected(s, i) {
        Some((choose|i: int| selected(s, i)) as usize)
    } else {
        None
    }
}

/// At most one entry is the one to run next.
pub proof fn selected_unique(s: Seq<TaskView>, i: int, j: int)
    requires
        selected(s, i),
        selected(s, j),
    ensures
        i == j,
{
    assert(!key_lt(s[j].key(), s[i].key()));
    assert(!key_lt(s[i].key(), s[j].key()));
}

/// Some entry is running.
pub open spec fn has_running(s: Seq<TaskView>) -> bool {
    exists|i: int| 0 <= i < s.len() && (#[trigger] s[i]).state is Running
}

/// The first entry at or after `k` that is running, if any.
pub open spec fn first_running_from(s: Seq<TaskView>, k: int) -> Option<usize>
    decreases s.len() - k,
{
    if k < 0 || k >= s.len() {
        None
    } else if s[k].state is Running {
        Some(k as usize)
    } else {
        first_running_from(s, k + 1)
    }
}

/// The first entry that is running, if any.
pub open spec fn first_running(s: Seq<TaskView>) -> Option<usize> {
    first_running_from(s, 0)
}

/// What [`first_running_from`] yields: the least running index from `k` on,
/// or nothing when no entry from `k` on is running.
pub proof fn first_running_from_finds(s: Seq<TaskView>, k: int)
    requires
        0 <= k,
        s.len() <= usize::MAX,
    ensures
        first_running_from(s, k) matches Some(i) ==> k <= i < s.len() && s[i as int].state is Running
            && forall|j: int| k <= j < i ==> !((#[trigger] s[j]).state is Running),
        first_running_from(s, k) is None ==> forall|j: int|
            k <= j < s.len() ==> !((#[trigger] s[j]).state is Running),
    decreases s.len() - k,
{
    if k < s.len() && !(s[k].state is Running) {
        first_running_from_finds(s, k + 1);
    }
}

/// [`first_running`] is empty exactly when no entry is running.
pub proof fn first_running_finds(s: Seq<TaskView>)
    requires
        s.len() <= usize::MAX,
    ensures
        first_running(s) is None <==> !has_running(s),
        first_running(s) matches Some(i) ==> i < s.len() && s[i as int].state is Running,
{
    first_running_from_finds(s, 0);
}

/// One step of consuming a batch from the front: the task taken is the next
/// one, the rest is what follows it, and the merged prefix grows by one.
pub proof fn batch_step(before: Seq<Task>, rest: Seq<Task>, t: Task, all: Seq<TaskView>, k: int)
    requires
        0 <= k < all.len(),
        before.len() > 0,
        views(before) =~= all.subrange(k, all.len() as int),
        rest == before.remove(0),
        t == before[0],
    ensures
        t@ == all[k],
        views(rest) =~= all.subrange(k + 1, all.len() as int),
        all.take(k + 1).drop_last() =~= all.take(k),
{
    assert(views(before).len() == before.len());
    assert(before.len() == all.len() - k);
    assert(views(before)[0] == before[0]@);
    assert(all.subrange(k, all.len() as int)[0] == all[k]);
    assert(rest =~= before.subrange(1, before.len() as int));
    assert forall|m: int| 0 <= m < rest.len() implies views(rest)[m] == all[k + 1 + m] by {
        assert(rest[m] == before[m + 1]);
        assert(all.subrange(k, all.len() as int)[m + 1] == all[k + 1 + m]);
        assert(views(rest)[m] == rest[m]@);
        assert(views(before)[m + 1] == before[m + 1]@);
    }
}

/// What [`pick`] yields: nothing exactly when no entry is pending, else the
/// selected entry.
pub proof fn pick_selects(s: Seq<TaskView>)
    requires
        s.len() <= usize::MAX,
    ensures
        pick(s) is None <==> !has_pending(s),
        pick(s) matches Some(i) ==> selected(s, i as int) && i < s.len(),
{
    if has_pending(s) {
        let p = choose|p: int| 0 <= p < s.len() && (#[trigger] s[p]).state is Pending;
        let m = min_pending_from(s, p, 0);
        assert(selected(s, m));
    }
    if pick(s) is Some {
        let i = choose|i: int| selected(s, i);
        assert(selected(s, i));
    }
}

/// Some pending entry is selected: found by scanning from `k`, with the
/// pending candidate `c` no worse than any pending entry of `0..k`.
proof fn min_pending_from(s: Seq<TaskView>, c: int, k: int) -> (m: int)
    requires
        0 <= c < s.len(),
        s[c].state is Pending,
        0 <= k <= s.len(),
        forall|j: int|
            0 <= j < k && (#[trigger] s[j]).state is Pending ==> !key_lt(s[j].key(), s[c].key())
                && (s[j].key() == s[c].key() ==> c <= j),
    ensures
        selected(s, m),
    decreases s.len() - k,
{
    if k == s.len() {
        c
    } else if s[k].state is Pending && (key_lt(s[k].key(), s[c].key()) || (s[k].key() == s[c].key()
        && k < c)) {
        min_pending_from(s, k, k + 1)
    } else {
        min_pending_from(s, c, k + 1)
    }
}

/// The outcome of a merge-insert.
#[derive(Debug, Clone, Copy, PartialEq, Eq, Structural)]
pub enum MergeOutcome {
    /// The task was added.
    Inserted,
    /// An entry with the same key exists; nothing changed.
    DuplicateIgnored,
}

/// Strict lexicographic comparison of keys.
pub fn key_less(a: TaskKey, b: TaskKey) -> (r: bool)
    ensures
        r == key_lt(a, b),
{
    a.0 < b.0 || (a.0 == b.0 && (a.1 < b.1 || (a.1 == b.1 && a.2 < b.2)))
}

/// The shared collection of known tasks, in insertion order.
pub struct TaskRegistry {
    tasks: Vec<Task>,
}

impl View for TaskRegistry {
    type V = Seq<TaskView>;

    closed spec fn view(&self) -> Seq<TaskView> {
        views(self.tasks@)
    }
}

impl TaskRegistry {
    /// An empty registry.
    pub fn new() -> (r: Self)
        ensures
            r@ == Seq::<TaskView>::empty(),
    {
        let r = TaskRegistry { tasks: Vec::new() };
        assert(r@ =~= Seq::<TaskView>::empty());
        r
    }

    pub fn len(&self) -> (r: usize)
        ensures
            r == self@.len(),
    {
        self.tasks.len()
    }

    pub fn get(&self, i: usize) -> (r: &Task)
        requires
            i < self@.len(),
        ensures
            r@ == self@[i as int],
    {
        &self.tasks[i]
    }

    /// Whether an entry equal to `t` under the key exists.
    pub fn contains_equal(&self, t: &Task) -> (r: bool)
        ensures
            r == has_key(self@, t@.key()),
    {
        let mut j: usize = 0;
        while j < self.tasks.len()
            invariant
                j <= self.tasks@.len(),
                forall|k: int| 0 <= k < j ==> (#[trigger] self@[k]).key() != t@.key(),
            decreases self.tasks@.len() - j,
        {
            if self.tasks[j] == *t {
                assert(self@[j as int].key() == t@.key());
                return true;
            }
            j += 1;
        }
        false
    }

    /// Adds `t` unless an entry with the same key exists.
    pub fn merge(&mut self, t: Task) -> (r: MergeOutcome)
        ensures
            final(self)@ == merged(old(self)@, t@),
            r == (if has_key(old(self)@, t@.key()) {
                MergeOutcome::DuplicateIgnored
            } else {
                MergeOutcome::Inserted
            }),
    {
        if self.contains_equal(&t) {
            MergeOutcome::DuplicateIgnored
        } else {
            self.tasks.push(t);
            assert(self@ =~= old(self)@.push(t@));
            MergeOutcome::Inserted
        }
    }

    /// Merges each task of `batch`, in order.
    pub fn merge_batch(&mut self, batch: Vec<Task>)
        ensures
            final(self)@ == merged_all(old(self)@, views(batch@)),
    {
        let ghost all = views(batch@);
        let n = batch.len();
        let mut rest = batch;
        let mut k: usize = 0;
        while rest.len() > 0
            invariant
                k + rest@.len() == n,
                n == all.len(),
                views(rest@) =~= all.subrange(k as int, all.len() as int),
                self@ == merged_all(old(self)@, all.take(k as int)),
            decreases rest@.len(),
        {
            let ghost before = rest@;
            let t = rest.remove(0);
            proof {
                batch_step(before, rest@, t, all, k as int);
            }
            self.merge(t);
            k += 1;
        }
        assert(all.take(k as int) =~= all);
    }

    /// The pending entry with the smallest key, the first such on a tie; `None`
    /// when nothing is pending.
    pub fn select_pending(&self) -> (r: Option<usize>)
        ensures
            r == pick(self@),
            r is None <==> !has_pending(self@),
            r matches Some(i) ==> selected(self@, i as int),
    {
        let mut best: Option<usize> = None;
        let mut j: usize = 0;
        while j < self.tasks.len()
            invariant
                j <= self@.len(),
                self@.len() == self.tasks@.len(),
                best matches Some(b) ==> b < j && self@[b as int].state is Pending && forall|k: int|
                    0 <= k < j && (#[trigger] self@[k]).state is Pending ==> !key_lt(
                        self@[k].key(),
                        self@[b as int].key(),
                    ) && (self@[k].key() == self@[b as int].key() ==> b <= k),
                best is None ==> forall|k: int| 0 <= k < j ==> !((#[trigger] self@[k]).state is Pending),
            decreases self.tasks@.len() - j,
        {
            let t = &self.tasks[j];
            if matches!(t.state(), TaskStatus::Pending) {
                match best {
                    None => {
                        best = Some(j);
                    },
                    Some(b) => {
                        if key_less(t.key(), self.tasks[b].key()) {
                            best = Some(j);
                        }
                    },
                }
            }
            j += 1;
        }
        proof {
            match best {
                Some(b) => {
                    assert(selected(self@, b as int));
                    let c = choose|i: int| selected(self@, i);
                    selected_unique(self@, b as int, c);
                },
                None => {},
            }
        }
        best
    }

    /// The first entry that is running, if any.
    pub fn first_running(&self) -> (r: Option<usize>)
        ensures
            r == first_running(self@),
            r is None <==> !has_running(self@),
            r matches Some(i) ==> i < self@.len() && self@[i as int].state is Running,
    {
        let n = self.tasks.len();
        proof {
            first_running_finds(self@);
        }
        let mut j: usize = 0;
        while j < n
            invariant
                j <= n,
                n == self@.len(),
                self@.len() == self.tasks@.len(),
                first_running(self@) == first_running_from(self@, j as int),
            decreases self.tasks@.len() - j,
        {
            if matches!(self.tasks[j].state(), TaskStatus::Running) {
                return Some(j);
            }
            j += 1;
        }
        None
    }

    /// Requests a lifecycle change of entry `i`, applied only when allowed.
    pub fn request_transition(&mut self, i: usize, target: TaskStatus) -> (r: Result<(), Rejection>)
        requires
            i < old(self)@.len(),
        ensures
            match transition(old(self)@[i as int].state, target@) {
                Ok(s) => r is Ok && final(self)@ == old(self)@.update(
                    i as int,
                    old(self)@[i as int].with_state(s),
                ),
                Err(e) => r == Err::<(), Rejection>(e) && final(self)@ == old(self)@,
            },
    {
        let r = self.tasks[i].modify_status(target);
        assert(self@ =~= old(self)@.update(i as int, self@[i as int]));
        r
    }

    /// Advances entry `i` by `step`, stopping at its length; returns the new progress.
    pub(crate) fn advance(&mut self, i: usize, step: usize) -> (r: usize)
        requires
            i < old(self)@.len(),
            all_wf(old(self)@),
        ensures
            r == stepped(old(self)@[i as int].elapsed_length, old(self)@[i as int].length, step),
            final(self)@ == old(self)@.update(i as int, old(self)@[i as int].with_elapsed(r)),
    {
        assert(old(self)@[i as int].wf());
        let r = self.tasks[i].advance(step);
        assert(self@ =~= old(self)@.update(i as int, self@[i as int]));
        r
    }

    /// Assigns the failed state to entry `i`.
    pub(crate) fn mark_failed(&mut self, i: usize, reason: String)
        requires
            i < old(self)@.len(),
        ensures
            final(self)@ == old(self)@.update(
                i as int,
                old(self)@[i as int].with_state(StatusView::Failed(reason@)),
            ),
    {
        let ghost g = reason@;
        self.tasks[i].mark_failed(reason);
        assert(self@ =~= old(self)@.update(i as int, old(self)@[i as int].with_state(StatusView::Failed(g))));
    }
}

/// Merging never brings two entries with equal keys into a registry that had none.
pub proof fn merge_keeps_keys_unique(s: Seq<TaskView>, batch: Seq<TaskView>)
    requires
        keys_unique(s),
    ensures
        keys_unique(merged_all(s, batch)),
    decreases batch.len(),
{
    if batch.len() > 0 {
        merge_keeps_keys_unique(s, batch.drop_last());
        let r = merged_all(s, batch.drop_last());
        let t = batch.last();
        if !has_key(r, t.key()) {
            let r2 = r.push(t);
            assert forall|i: int, j: int| 0 <= i < j < r2.len() implies (#[trigger] r2[i]).key() != (
            #[trigger] r2[j]).key() by {
                if j == r.len() {
                    assert(r2[i] == r[i]);
                }
            }
        }
    }
}

/// Merging any number of definitions that share one key, in any order, adds at
/// most one of them: the first one, and only when no entry had that key before.
pub proof fn merge_equal_definitions(s: Seq<TaskView>, batch: Seq<TaskView>, k: TaskKey)
    requires
        forall|i: int| 0 <= i < batch.len() ==> (#[trigger] batch[i]).key() == k,
    ensures
        merged_all(s, batch) == (if has_key(s, k) || batch.len() == 0 {
            s
        } else {
            s.push(batch[0])
        }),
    decreases batch.len(),
{
    if batch.len() > 0 {
        let init = batch.drop_last();
        assert forall|i: int| 0 <= i < init.len() implies (#[trigger] init[i]).key() == k by {
            assert(init[i] == batch[i]);
        }
        merge_equal_definitions(s, init, k);
        let r = merged_all(s, init);
        assert(batch.last().key() == k);
        if !has_key(s, k) && init.len() > 0 {
            assert(r[s.len() as int].key() == k);
            assert(init[0] == batch[0]);
        }
    }
}

} // verus!
