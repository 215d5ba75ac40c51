//! Execution status of a node and the rules that move it.

use vstd::prelude::*;

verus! {

/// Status of the most recent, or the current, execution of a node.
#[derive(Clone, Copy, Debug, PartialEq, Eq, Structural, Hash)]
pub enum ExecutionStatus {
    Pending,
    Scheduled,
    ScheduledPreviouslyFailed,
    Running,
    RunningPreviouslyFailed,
    Succeeded,
    Failed,
    Cancelled,
    Exceptions,
}

/// Whether, and why, a node has to be executed, or executed again.
#[derive(Clone, Copy, Debug, PartialEq, Eq, Structural, Hash)]
pub enum ExecutionRequired {
    No,
    NeverExecuted,
    StateChanged,
    SemanticsChanged,
    DependenciesChanged,
    DependenciesFailed,
    KernelRestarted,
}

impl ExecutionStatus {
    /// Waiting for an execution, or in the middle of one.
    pub open spec fn spec_is_transient(self) -> bool {
        self is Scheduled || self is ScheduledPreviouslyFailed || self is Running
            || self is RunningPreviouslyFailed
    }

    /// True for `Scheduled*` and `Running*`.
    #[verifier::when_used_as_spec(spec_is_transient)]
    pub fn is_transient(self) -> (b: bool)
        ensures
            b == self.spec_is_transient(),
    {
        match self {
            ExecutionStatus::Scheduled
            | ExecutionStatus::ScheduledPreviouslyFailed
            | ExecutionStatus::Running
            | ExecutionStatus::RunningPreviouslyFailed => true,
            _ => false,
        }
    }

    /// The end of an execution.
    pub open spec fn spec_is_terminal(self) -> bool {
        self is Succeeded || self is Failed || self is Cancelled || self is Exceptions
    }

    /// True for `Succeeded`, `Failed`, `Cancelled` and `Exceptions`.
    #[verifier::when_used_as_spec(spec_is_terminal)]
    pub fn is_terminal(self) -> (b: bool)
        ensures
            b == self.spec_is_terminal(),
    {
        match self {
            ExecutionStatus::Succeeded
            | ExecutionStatus::Failed
            | ExecutionStatus::Cancelled
            | ExecutionStatus::Exceptions => true,
            _ => false,
        }
    }
}

/// A status that is absent, or neither `Scheduled*` nor `Running*`.
pub open spec fn settled(status: Option<ExecutionStatus>) -> bool {
    match status {
        Some(status) => !status.is_transient(),
        None => true,
    }
}

/// The status of a node when its document is opened again. A node that
/// was scheduled or running when the process ended is not so any more: it
/// has the status in which its last execution ended, or none where it was
/// never executed to an end.
pub open spec fn spec_recovered(
    status: Option<ExecutionStatus>,
    last_end: Option<ExecutionStatus>,
) -> Option<ExecutionStatus> {
    if settled(status) {
        status
    } else if settled(last_end) {
        last_end
    } else {
        None
    }
}

/// The status of a node when its document is opened again.
#[verifier::when_used_as_spec(spec_recovered)]
pub fn recovered(status: Option<ExecutionStatus>, last_end: Option<ExecutionStatus>) -> (now: Option<
    ExecutionStatus,
>)
    ensures
        now == spec_recovered(status, last_end),
        settled(now),
{
    let stale = match status {
        Some(status) => status.is_transient(),
        None => false,
    };
    if !stale {
        return status;
    }
    let usable = match last_end {
        Some(end) => !end.is_transient(),
        None => true,
    };
    if usable {
        last_end
    } else {
        None
    }
}

/// The status of a node that has been put on a plan: it remembers a failure
/// of the execution before.
pub open spec fn spec_scheduled_from(status: Option<ExecutionStatus>) -> ExecutionStatus {
    if status == Some(ExecutionStatus::Failed) {
        ExecutionStatus::ScheduledPreviouslyFailed
    } else {
        ExecutionStatus::Scheduled
    }
}

/// `ScheduledPreviouslyFailed` after a failure, else `Scheduled`.
#[verifier::when_used_as_spec(spec_scheduled_from)]
pub fn scheduled_from(status: Option<ExecutionStatus>) -> (next: ExecutionStatus)
    ensures
        next == spec_scheduled_from(status),
{
    match status {
        Some(ExecutionStatus::Failed) => ExecutionStatus::ScheduledPreviouslyFailed,
        _ => ExecutionStatus::Scheduled,
    }
}

/// The status of a node whose execution starts: it remembers a failure of
/// the execution before, also through its scheduling.
pub open spec fn spec_running_from(status: Option<ExecutionStatus>) -> ExecutionStatus {
    if status == Some(ExecutionStatus::Failed) || status == Some(
        ExecutionStatus::ScheduledPreviouslyFailed,
    ) {
        ExecutionStatus::RunningPreviouslyFailed
    } else {
        ExecutionStatus::Running
    }
}

/// `RunningPreviouslyFailed` after a failure, else `Running`.
#[verifier::when_used_as_spec(spec_running_from)]
pub fn running_from(status: Option<ExecutionStatus>) -> (next: ExecutionStatus)
    ensures
        next == spec_running_from(status),
{
    match status {
        Some(ExecutionStatus::Failed) | Some(ExecutionStatus::ScheduledPreviouslyFailed) => {
            ExecutionStatus::RunningPreviouslyFailed
        },
        _ => ExecutionStatus::Running,
    }
}

/// A dependency in this status keeps the steps that depend on it from
/// starting: it never ran, it failed, or it was cancelled.
pub open spec fn spec_blocks_dependants(status: Option<ExecutionStatus>) -> bool {
    status is None || status == Some(ExecutionStatus::Failed) || status == Some(
        ExecutionStatus::Cancelled,
    )
}

/// True for no status, `Failed` and `Cancelled`.
#[verifier::when_used_as_spec(spec_blocks_dependants)]
pub fn blocks_dependants(status: Option<ExecutionStatus>) -> (b: bool)
    ensures
        b == spec_blocks_dependants(status),
{
    match status {
        None | Some(ExecutionStatus::Failed) | Some(ExecutionStatus::Cancelled) => true,
        _ => false,
    }
}

/// The count of executions after one more. It never goes down, and stays at
/// the largest count once there.
pub open spec fn spec_next_execution_count(count: Option<i64>) -> i64 {
    let before = match count {
        Some(n) => n,
        None => 0,
    };
    if before == i64::MAX {
        before
    } else {
        (before + 1) as i64
    }
}

/// One more than `count`, an absent count taken as zero.
#[verifier::when_used_as_spec(spec_next_execution_count)]
pub fn next_execution_count(count: Option<i64>) -> (next: i64)
    ensures
        next == spec_next_execution_count(count),
        count matches Some(n) ==> next >= n,
        count is None ==> next == 1,
{
    let before = match count {
        Some(n) => n,
        None => 0,
    };
    if before == i64::MAX {
        before
    } else {
        before + 1
    }
}

/// The count of a node after `executions` more executions.
pub open spec fn count_after(count: Option<i64>, executions: nat) -> i64
    decreases executions,
{
    if executions == 0 {
        match count {
            Some(n) => n,
            None => 0,
        }
    } else {
        spec_next_execution_count(Some(count_after(count, (executions - 1) as nat)))
    }
}

/// Over any run of executions, the count of a node never goes down: after
/// more executions it is at least what it was after fewer.
pub proof fn lemma_execution_count_never_decreases(count: Option<i64>, fewer: nat, more: nat)
    requires
        fewer <= more,
    ensures
        count_after(count, fewer) <= count_after(count, more),
    decreases more,
{
    if fewer < more {
        lemma_execution_count_never_decreases(count, fewer, (more - 1) as nat);
    }
}

} // verus!
