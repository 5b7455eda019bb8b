use crate::ident::{is_alphanumeric, random_id, ID_MAX_LEN, ID_MIN_LEN};
use crate::status::{request_transition, transition, Rejection, StatusView, TaskStatus};
use vstd::prelude::*;

verus! {

/// The smallest (most urgent) priority.
pub const PRIORITY_MIN: u8 = 1;

/// The largest (least urgent) priority.
pub const PRIORITY_MAX: u8 = 6;

/// The mathematical value of a [`Task`].
pub struct TaskView {
    pub id: Seq<char>,
    pub priority: u8,
    pub name: Seq<char>,
    pub length: usize,
    pub state: StatusView,
    pub elapsed_length: usize,
}

/// The tuple that orders tasks for scheduling and identifies duplicates.
pub type TaskKey = (u8, usize, usize);

impl TaskView {
    /// Priority in range, and progress never past the total work.
    pub open spec fn wf(self) -> bool {
        PRIORITY_MIN <= self.priority <= PRIORITY_MAX && self.elapsed_length <= self.length
    }

    /// (priority, length, elapsed_length).
    pub open spec fn key(self) -> TaskKey {
        (self.priority, self.length, self.elapsed_length)
    }

    /// The same value, in state `s`.
    pub open spec fn with_state(self, s: StatusView) -> TaskView {
        TaskView { state: s, ..self }
    }

    /// The same value, at progress `e`.
    pub open spec fn with_elapsed(self, e: usize) -> TaskView {
        TaskView { elapsed_length: e, ..self }
    }
}

/// Strict lexicographic order on keys.
pub open spec fn key_lt(a: TaskKey, b: TaskKey) -> bool {
    a.0 < b.0 || (a.0 == b.0 && (a.1 < b.1 || (a.1 == b.1 && a.2 < b.2)))
}

/// The scheduling order of two keys.
pub open spec fn key_ordering(a: TaskKey, b: TaskKey) -> std::cmp::Ordering {
    if key_lt(a, b) {
        std::cmp::Ordering::Less
    } else if a == b {
        std::cmp::Ordering::Equal
    } else {
        std::cmp::Ordering::Greater
    }
}

/// The progress of a task with `elapsed` of `length` done, after a step of `step`:
/// it stops at `length`.
pub open spec fn stepped(elapsed: usize, length: usize, step: usize) -> usize {
    if length - elapsed <= step {
        length
    } else {
        (elapsed + step) as usize
    }
}

/// A unit of schedulable work.
#[derive(Debug)]
pub struct Task {
    id: String,
    priority: u8,
    name: String,
    length: usize,
    state: TaskStatus,
    elapsed_length: usize,
}

/// Why a stored task record does not describe a valid task.
#[derive(Debug, Clone, Copy, PartialEq, Eq, Structural)]
pub enum RecordError {
    /// The priority lies outside 1..=6.
    PriorityOutOfRange,
    /// More work is recorded as done than the task has.
    ElapsedExceedsLength,
}

impl View for Task {
    type V = TaskView;

    closed spec fn view(&self) -> TaskView {
        TaskView {
            id: self.id@,
            priority: self.priority,
            name: self.name@,
            length: self.length,
            state: self.state@,
            elapsed_length: self.elapsed_length,
        }
    }
}

impl Clone for Task {
    /// An equal copy: every field, the identifier and name included.
    fn clone(&self) -> (r: Self)
        ensures
            r@ == self@,
    {
        Task {
            id: self.id.clone(),
            priority: self.priority,
            name: self.name.clone(),
            length: self.length,
            state: self.state.clone(),
            elapsed_length: self.elapsed_length,
        }
    }
}

impl PartialEq for Task {
    fn eq(&self, other: &Task) -> (r: bool) {
        self.priority == other.priority && self.length == other.length
            && self.elapsed_length == other.elapsed_length
    }
}

impl vstd::std_specs::cmp::PartialEqSpecImpl for Task {
    open spec fn obeys_eq_spec() -> bool {
        true
    }

    open spec fn eq_spec(&self, other: &Task) -> bool {
        self@.key() == other@.key()
    }
}

impl PartialOrd for Task {
    fn partial_cmp(&self, other: &Task) -> (r: Option<std::cmp::Ordering>) {
        let a = (self.priority, self.length, self.elapsed_length);
        let b = (other.priority, other.length, other.elapsed_length);
        if a.0 < b.0 || (a.0 == b.0 && (a.1 < b.1 || (a.1 == b.1 && a.2 < b.2))) {
            Some(std::cmp::Ordering::Less)
        } else if a.0 == b.0 && a.1 == b.1 && a.2 == b.2 {
            Some(std::cmp::Ordering::Equal)
        } else {
            Some(std::cmp::Ordering::Greater)
        }
    }
}

impl vstd::std_specs::cmp::PartialOrdSpecImpl for Task {
    open spec fn obeys_partial_cmp_spec() -> bool {
        true
    }

    open spec fn partial_cmp_spec(&self, other: &Task) -> Option<std::cmp::Ordering> {
        Some(key_ordering(self@.key(), other@.key()))
    }
}

impl Task {
    /// A new pending task with no progress and a fresh random identifier.
    pub fn new(priority: u8, length: usize, name: String) -> (r: Self)
        requires
            PRIORITY_MIN <= priority <= PRIORITY_MAX,
        ensures
            r@.priority == priority,
            r@.length == length,
            r@.name == name@,
            r@.elapsed_length == 0,
            r@.state == StatusView::Pending,
            ID_MIN_LEN <= r@.id.len() <= ID_MAX_LEN,
            forall|i: int| 0 <= i < r@.id.len() ==> is_alphanumeric(#[trigger] r@.id[i]),
            r@.wf(),
    {
        Task {
            priority,
            length,
            name,
            id: random_id(),
            elapsed_length: 0,
            state: TaskStatus::Pending,
        }
    }

    /// A task as it was stored, checked against the task invariants.
    pub fn from_record(
        id: String,
        priority: u8,
        name: String,
        length: usize,
        state: TaskStatus,
        elapsed_length: usize,
    ) -> (r: Result<Task, RecordError>)
        ensures
            !(PRIORITY_MIN <= priority <= PRIORITY_MAX) ==> r == Err::<Task, RecordError>(
                RecordError::PriorityOutOfRange,
            ),
            PRIORITY_MIN <= priority <= PRIORITY_MAX && elapsed_length > length ==> r == Err::<
                Task,
                RecordError,
            >(RecordError::ElapsedExceedsLength),
            PRIORITY_MIN <= priority <= PRIORITY_MAX && elapsed_length <= length ==> (r matches Ok(t)
                && t@ == (TaskView {
                id: id@,
                priority,
                name: name@,
                length,
                state: state@,
                elapsed_length,
            })),
    {
        if priority < PRIORITY_MIN || priority > PRIORITY_MAX {
            Err(RecordError::PriorityOutOfRange)
        } else if elapsed_length > length {
            Err(RecordError::ElapsedExceedsLength)
        } else {
            Ok(Task { id, priority, name, length, state, elapsed_length })
        }
    }

    pub fn id(&self) -> (r: &String)
        ensures
            r@ == self@.id,
    {
        &self.id
    }

    pub fn priority(&self) -> (r: u8)
        ensures
            r == self@.priority,
    {
        self.priority
    }

    pub fn name(&self) -> (r: &String)
        ensures
            r@ == self@.name,
    {
        &self.name
    }

    pub fn length(&self) -> (r: usize)
        ensures
            r == self@.length,
    {
        self.length
    }

    pub fn elapsed_length(&self) -> (r: usize)
        ensures
            r == self@.elapsed_length,
    {
        self.elapsed_length
    }

    pub fn state(&self) -> (r: &TaskStatus)
        ensures
            r@ == self@.state,
    {
        &self.state
    }

    /// The scheduling and deduplication tuple.
    pub fn key(&self) -> (r: TaskKey)
        ensures
            r == self@.key(),
    {
        (self.priority, self.length, self.elapsed_length)
    }

    /// Replaces the fields that are given; the others stay.
    pub fn modify(&mut self, priority: Option<u8>, name: Option<String>, length: Option<usize>)
        requires
            old(self)@.wf(),
            priority matches Some(p) ==> PRIORITY_MIN <= p <= PRIORITY_MAX,
            length matches Some(l) ==> old(self)@.elapsed_length <= l,
        ensures
            final(self)@ == (TaskView {
                priority: match priority { Some(p) => p, None => old(self)@.priority },
                name: match name { Some(n) => n@, None => old(self)@.name },
                length: match length { Some(l) => l, None => old(self)@.length },
                ..old(self)@
            }),
            final(self)@.wf(),
    {
        if let Some(p) = priority {
            self.priority = p;
        }
        if let Some(n) = name {
            self.name = n;
        }
        if let Some(l) = length {
            self.length = l;
        }
    }

    /// Requests a lifecycle change and applies it when it is allowed; a
    /// rejected request leaves the task as it was.
    pub fn modify_status(&mut self, new: TaskStatus) -> (r: Result<(), Rejection>)
        ensures
            match transition(old(self)@.state, new@) {
                Ok(s) => r is Ok && final(self)@ == old(self)@.with_state(s),
                Err(e) => r == Err::<(), Rejection>(e) && final(self)@ == old(self)@,
            },
    {
        match request_transition(&self.state, &new) {
            Ok(s) => {
                self.state = s;
                Ok(())
            },
            Err(e) => Err(e),
        }
    }

    /// Assigns the failed state directly. This is the execution path's own
    /// capability and bypasses [`request_transition`], which never grants it.
    pub(crate) fn mark_failed(&mut self, reason: String)
        ensures
            final(self)@ == old(self)@.with_state(StatusView::Failed(reason@)),
    {
        self.state = TaskStatus::Failed(reason);
    }

    /// Advances progress by `step`, stopping at the total length.
    pub(crate) fn advance(&mut self, step: usize) -> (r: usize)
        requires
            old(self)@.elapsed_length <= old(self)@.length,
        ensures
            r == stepped(old(self)@.elapsed_length, old(self)@.length, step),
            final(self)@ == old(self)@.with_elapsed(r),
    {
        if self.length - self.elapsed_length <= step {
            self.elapsed_length = self.length;
        } else {
            self.elapsed_length = self.elapsed_length + step;
        }
        self.elapsed_length
    }
}

} // verus!
