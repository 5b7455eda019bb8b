use vstd::prelude::*;

verus! {

/// The lifecycle state of a task.
#[derive(Debug)]
pub enum TaskStatus {
    Halted,
    Running,
    Pending,
    Finished,
    Failed(String),
}

/// The mathematical value of a [`TaskStatus`].
pub enum StatusView {
    Halted,
    Running,
    Pending,
    Finished,
    Failed(Seq<char>),
}

impl View for TaskStatus {
    type V = StatusView;

    open spec fn view(&self) -> StatusView {
        match self {
            TaskStatus::Halted => StatusView::Halted,
            TaskStatus::Running => StatusView::Running,
            TaskStatus::Pending => StatusView::Pending,
            TaskStatus::Finished => StatusView::Finished,
            TaskStatus::Failed(reason) => StatusView::Failed(reason@),
        }
    }
}

impl Clone for TaskStatus {
    /// The same variant, with the same failure reason.
    fn clone(&self) -> (r: Self)
        ensures
            r@ == self@,
    {
        match self {
            TaskStatus::Halted => TaskStatus::Halted,
            TaskStatus::Running => TaskStatus::Running,
            TaskStatus::Pending => TaskStatus::Pending,
            TaskStatus::Finished => TaskStatus::Finished,
            TaskStatus::Failed(reason) => TaskStatus::Failed(reason.clone()),
        }
    }
}

/// Why a requested lifecycle change was refused.
#[derive(Debug, Clone, Copy, PartialEq, Eq, Structural)]
pub enum Rejection {
    /// Only a running task may be halted.
    OnlyRunningMayHalt,
    /// Only a failed task may return to pending.
    OnlyFailedMayReturnToPending,
    /// The task is finished; nothing may change its state.
    AlreadyComplete,
    /// Failure is assigned by the execution path, never requested.
    FailedNotRequestable,
    /// A failed task may only go back to pending.
    FailedOnlyToPending,
}

/// The human-readable reason attached to each rejection.
pub open spec fn reason_text(r: Rejection) -> Seq<char> {
    match r {
        Rejection::OnlyRunningMayHalt => "only a running task may be halted"@,
        Rejection::OnlyFailedMayReturnToPending => "only a failed task may return to pending"@,
        Rejection::AlreadyComplete => "task already complete"@,
        Rejection::FailedNotRequestable => "a failed state cannot be requested"@,
        Rejection::FailedOnlyToPending => "a failed task may only return to pending"@,
    }
}

impl Rejection {
    /// The reason, as text.
    pub fn reason(&self) -> (r: &'static str)
        ensures
            r@ == reason_text(*self),
    {
        match self {
            Rejection::OnlyRunningMayHalt => "only a running task may be halted",
            Rejection::OnlyFailedMayReturnToPending => "only a failed task may return to pending",
            Rejection::AlreadyComplete => "task already complete",
            Rejection::FailedNotRequestable => "a failed state cannot be requested",
            Rejection::FailedOnlyToPending => "a failed task may only return to pending",
        }
    }
}

/// The eight lifecycle changes that may be requested.
pub open spec fn allowed(current: StatusView, target: StatusView) -> bool {
    match (current, target) {
        (StatusView::Halted, StatusView::Running) => true,
        (StatusView::Halted, StatusView::Finished) => true,
        (StatusView::Running, StatusView::Halted) => true,
        (StatusView::Running, StatusView::Running) => true,
        (StatusView::Running, StatusView::Finished) => true,
        (StatusView::Pending, StatusView::Running) => true,
        (StatusView::Pending, StatusView::Finished) => true,
        (StatusView::Failed(_), StatusView::Pending) => true,
        _ => false,
    }
}

/// The decision for a requested change from `current` to `target`: a finished
/// task refuses everything; an allowed change yields `target`; otherwise the
/// first matching rejection, by target first and then by current state.
pub open spec fn transition(current: StatusView, target: StatusView) -> Result<StatusView, Rejection> {
    if current is Finished {
        Err(Rejection::AlreadyComplete)
    } else if allowed(current, target) {
        Ok(target)
    } else if target is Halted {
        Err(Rejection::OnlyRunningMayHalt)
    } else if target is Pending {
        Err(Rejection::OnlyFailedMayReturnToPending)
    } else if target is Failed {
        Err(Rejection::FailedNotRequestable)
    } else {
        Err(Rejection::FailedOnlyToPending)
    }
}

/// The value of an outcome of [`request_transition`].
pub open spec fn outcome_view(r: Result<TaskStatus, Rejection>) -> Result<StatusView, Rejection> {
    match r {
        Ok(s) => Ok(s@),
        Err(e) => Err(e),
    }
}

/// Decides a requested lifecycle change. It has no side effect: the caller
/// applies the new state.
pub fn request_transition(current: &TaskStatus, target: &TaskStatus) -> (r: Result<TaskStatus, Rejection>)
    ensures
        outcome_view(r) == transition(current@, target@),
{
    match (current, target) {
        (TaskStatus::Finished, _) => Err(Rejection::AlreadyComplete),
        (TaskStatus::Halted, TaskStatus::Running) => Ok(TaskStatus::Running),
        (TaskStatus::Halted, TaskStatus::Finished) => Ok(TaskStatus::Finished),
        (TaskStatus::Running, TaskStatus::Halted) => Ok(TaskStatus::Halted),
        (TaskStatus::Running, TaskStatus::Running) => Ok(TaskStatus::Running),
        (TaskStatus::Running, TaskStatus::Finished) => Ok(TaskStatus::Finished),
        (TaskStatus::Pending, TaskStatus::Running) => Ok(TaskStatus::Running),
        (TaskStatus::Pending, TaskStatus::Finished) => Ok(TaskStatus::Finished),
        (TaskStatus::Failed(_), TaskStatus::Pending) => Ok(TaskStatus::Pending),
        (_, TaskStatus::Halted) => Err(Rejection::OnlyRunningMayHalt),
        (_, TaskStatus::Pending) => Err(Rejection::OnlyFailedMayReturnToPending),
        (_, TaskStatus::Failed(_)) => Err(Rejection::FailedNotRequestable),
        (TaskStatus::Failed(_), _) => Err(Rejection::FailedOnlyToPending),
    }
}

/// Every pair of states gets a decision: an allowed change yields exactly the
/// requested state, and every other pair yields one of the documented
/// rejections.
pub proof fn transition_is_total(current: StatusView, target: StatusView)
    ensures
        transition(current, target) is Ok <==> (allowed(current, target) && !(current is Finished)),
        transition(current, target) is Ok ==> transition(current, target) == Ok::<StatusView, Rejection>(target),
        current is Finished ==> transition(current, target) == Err::<StatusView, Rejection>(Rejection::AlreadyComplete),
        target is Failed ==> transition(current, target) is Err,
{
}

} // verus!
