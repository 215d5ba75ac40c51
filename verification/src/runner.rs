//! Drives a plan: the status of each node from scheduling to the end of its
//! execution, the stages in their order, and requests to cancel.
//!
//! The runner decides; its caller does the work. The caller starts a run,
//! begins each stage, spawns the steps it is told to run, and reports each
//! end of a step and each request to cancel as it arrives.

use vstd::prelude::*;
use crate::node::{contains_id, NodeId};
use crate::node_property::NodeProperty;
use crate::patch::{
    at_property, patch_of, status_op, status_patch, Patch, PatchOpView, PatchValue,
    PatchValueView,
};
use crate::plan::{Plan, Stage, Step};
use crate::status::{
    blocks_dependants, running_from, scheduled_from, settled, spec_blocks_dependants,
    spec_running_from, spec_scheduled_from, ExecutionRequired, ExecutionStatus,
};

verus! {

/// What the runner needs to know of the kind of a node.
#[derive(Clone, Copy, Debug, PartialEq, Eq, Structural)]
pub enum NodeKind {
    /// A chunk of code; it carries an execution status
    CodeChunk,
    /// A code expression; it carries an execution status
    CodeExpression,
    /// A parameter; its execution is taken to succeed always
    Parameter,
    /// Any other node; it has no execution status
    Other,
}

/// A change of the execution status of one node, to be sent as a patch.
/// Where `before` equals `after` the patch is empty.
#[derive(Clone, Copy, Debug, PartialEq, Eq, Structural)]
pub struct StatusChange {
    pub node_id: NodeId,
    pub before: Option<ExecutionStatus>,
    pub after: Option<ExecutionStatus>,
}

impl StatusChange {
    /// The patch that tells of the change: it sets the status of the node,
    /// and is empty where the status stays as it is.
    pub fn to_patch(&self) -> (patch: Patch)
        ensures
            patch@ == patch_of(
                self.node_id,
                if self.before != self.after {
                    seq![at_property(NodeProperty::ExecutionStatus, status_op(self.after))]
                } else {
                    Seq::empty()
                },
            ),
    {
        let same = match (self.before, self.after) {
            (Some(before), Some(after)) => before == after,
            (None, None) => true,
            _ => false,
        };
        status_patch(self.node_id, self.after, !same)
    }
}

impl StatusChange {
    /// The patch that tells of a node that was kept from running because a
    /// node it depends on did not succeed: beside its status, its need to
    /// be executed is the failure of its dependencies. The patch is empty
    /// where the status stays as it is.
    pub fn to_blocked_patch(&self) -> (patch: Patch)
        ensures
            patch@ == patch_of(
                self.node_id,
                if self.before != self.after {
                    seq![
                        at_property(NodeProperty::ExecutionStatus, status_op(self.after)),
                        at_property(
                            NodeProperty::ExecutionRequired,
                            PatchOpView::Assign(
                                PatchValueView::Required(ExecutionRequired::DependenciesFailed),
                            ),
                        ),
                    ]
                } else {
                    Seq::empty()
                },
            ),
    {
        let mut patch = self.to_patch();
        assert(patch@.ops.len() == patch.ops.len());
        if patch.ops.len() > 0 {
            patch.set(
                NodeProperty::ExecutionRequired,
                PatchValue::Required(ExecutionRequired::DependenciesFailed),
            );
            assert(patch@.ops =~= seq![
                at_property(NodeProperty::ExecutionStatus, status_op(self.after)),
                at_property(
                    NodeProperty::ExecutionRequired,
                    PatchOpView::Assign(
                        PatchValueView::Required(ExecutionRequired::DependenciesFailed),
                    ),
                ),
            ]);
        }
        patch
    }
}

/// What a run keeps of each node on its plan.
#[derive(Clone, Copy, Debug, PartialEq, Eq, Structural)]
pub struct NodeInfo {
    /// The id of the node
    pub node_id: NodeId,
    /// The kind of the node
    pub kind: NodeKind,
    /// The execution status that the node carries
    pub status: Option<ExecutionStatus>,
    /// The execution status of the node before the run
    pub previous_status: Option<ExecutionStatus>,
}

impl NodeInfo {
    /// The node carries an execution status of its own.
    pub open spec fn carries_status(self) -> bool {
        self.kind is CodeChunk || self.kind is CodeExpression
    }

    /// The execution status of the node: its own where it carries one,
    /// `Succeeded` for a parameter, none for any other node.
    pub open spec fn execute_status(self) -> Option<ExecutionStatus> {
        match self.kind {
            NodeKind::CodeChunk | NodeKind::CodeExpression => self.status,
            NodeKind::Parameter => Some(ExecutionStatus::Succeeded),
            NodeKind::Other => None,
        }
    }

    /// The node with its own status set to `status`, if it carries one.
    pub open spec fn with_status(self, status: Option<ExecutionStatus>) -> NodeInfo {
        if self.carries_status() {
            NodeInfo { status, ..self }
        } else {
            self
        }
    }

    /// The node once put on a plan.
    pub open spec fn scheduled(self) -> NodeInfo {
        self.with_status(Some(spec_scheduled_from(self.status)))
    }

    /// The node once its execution has started.
    pub open spec fn running(self) -> NodeInfo {
        self.with_status(Some(spec_running_from(self.status)))
    }

    /// The node once its started execution has been cancelled.
    pub open spec fn cancelled(self) -> NodeInfo {
        self.with_status(Some(ExecutionStatus::Cancelled))
    }

    /// The node with the status it had before the run, if it is still
    /// scheduled or running.
    pub open spec fn restored(self) -> NodeInfo {
        if settled(self.status) {
            self
        } else {
            self.with_status(self.previous_status)
        }
    }

    /// The change that leads from `self` to `next`.
    pub open spec fn change_to(self, next: NodeInfo) -> StatusChange {
        StatusChange { node_id: self.node_id, before: self.status, after: next.status }
    }

    /// Neither scheduled nor running.
    pub open spec fn is_settled(self) -> bool {
        settled(self.execute_status())
    }

    /// The copy is as `new` takes it at the start of a run, of a node that
    /// is neither scheduled nor running: its previous status is the status
    /// it has.
    pub open spec fn is_fresh(self) -> bool {
        self.previous_status == self.execute_status() && self.is_settled()
    }

    /// Take a copy of a node at the start of a run. Its status at that
    /// time is kept as the previous status.
    pub fn new(node_id: NodeId, kind: NodeKind, status: Option<ExecutionStatus>) -> (info: NodeInfo)
        ensures
            info.node_id == node_id,
            info.kind == kind,
            info.status == status,
            info.previous_status == info.execute_status(),
    {
        let mut info = NodeInfo { node_id, kind, status, previous_status: None };
        info.previous_status = info.get_execute_status();
        info
    }

    /// The execution status of the node.
    pub fn get_execute_status(&self) -> (status: Option<ExecutionStatus>)
        ensures
            status == self.execute_status(),
    {
        match self.kind {
            NodeKind::CodeChunk | NodeKind::CodeExpression => self.status,
            NodeKind::Parameter => Some(ExecutionStatus::Succeeded),
            NodeKind::Other => None,
        }
    }

    /// Set the status to `Scheduled`, or to `ScheduledPreviouslyFailed`
    /// after a failure.
    pub fn set_execute_status_scheduled(&mut self) -> (change: StatusChange)
        ensures
            *final(self) == old(self).scheduled(),
            change == old(self).change_to(*final(self)),
    {
        let before = self.status;
        match self.kind {
            NodeKind::CodeChunk | NodeKind::CodeExpression => {
                self.status = Some(scheduled_from(self.status));
            },
            _ => {},
        }
        StatusChange { node_id: self.node_id, before, after: self.status }
    }

    /// Set the status to `Running`, or to `RunningPreviouslyFailed` after
    /// a failure.
    pub fn set_execute_status_running(&mut self) -> (change: StatusChange)
        ensures
            *final(self) == old(self).running(),
            change == old(self).change_to(*final(self)),
    {
        let before = self.status;
        match self.kind {
            NodeKind::CodeChunk | NodeKind::CodeExpression => {
                self.status = Some(running_from(self.status));
            },
            _ => {},
        }
        StatusChange { node_id: self.node_id, before, after: self.status }
    }

    /// Set the status to `Cancelled`.
    pub fn set_execute_status_cancelled(&mut self) -> (change: StatusChange)
        ensures
            *final(self) == old(self).cancelled(),
            change == old(self).change_to(*final(self)),
    {
        let before = self.status;
        match self.kind {
            NodeKind::CodeChunk | NodeKind::CodeExpression => {
                self.status = Some(ExecutionStatus::Cancelled);
            },
            _ => {},
        }
        StatusChange { node_id: self.node_id, before, after: self.status }
    }

    /// Set the status to `status`, the end of an execution.
    pub fn set_execute_status(&mut self, status: ExecutionStatus) -> (change: StatusChange)
        ensures
            *final(self) == old(self).with_status(Some(status)),
            change == old(self).change_to(*final(self)),
    {
        let before = self.status;
        match self.kind {
            NodeKind::CodeChunk | NodeKind::CodeExpression => {
                self.status = Some(status);
            },
            _ => {},
        }
        StatusChange { node_id: self.node_id, before, after: self.status }
    }

    /// Give a node that is still scheduled or running the status it had
    /// before the run.
    pub fn restore_previous_execute_status(&mut self) -> (change: StatusChange)
        ensures
            *final(self) == old(self).restored(),
            change == old(self).change_to(*final(self)),
    {
        let before = self.status;
        match self.kind {
            NodeKind::CodeChunk | NodeKind::CodeExpression => {
                let transient = match self.status {
                    Some(status) => status.is_transient(),
                    None => false,
                };
                if transient {
                    self.status = self.previous_status;
                }
            },
            _ => {},
        }
        StatusChange { node_id: self.node_id, before, after: self.status }
    }
}

/// A request to cancel the execution of one node, or of all nodes.
#[derive(Clone, Copy, Debug, PartialEq, Eq, Structural)]
pub struct CancelRequest {
    /// The node to cancel; all nodes where absent
    pub start: Option<NodeId>,
}

/// The ids of `infos`, in order.
pub open spec fn ids_of(infos: Seq<NodeInfo>) -> Seq<NodeId> {
    infos.map_values(|info: NodeInfo| info.node_id)
}

/// The nodes that a series of requests cancels: for each request in turn its
/// node, or every node of the run where it names none.
pub open spec fn cancelled_by(ids: Seq<NodeId>, requests: Seq<CancelRequest>) -> Seq<NodeId>
    decreases requests.len(),
{
    if requests.len() == 0 {
        Seq::empty()
    } else {
        cancelled_by(ids, requests.drop_last()) + (match requests.last().start {
            Some(id) => seq![id],
            None => ids,
        })
    }
}

/// The nodes that the pending requests cancel.
pub fn collect_cancelled_nodes(node_infos: &Vec<NodeInfo>, requests: &Vec<CancelRequest>) -> (cancelled:
    Vec<NodeId>)
    ensures
        cancelled@ == cancelled_by(ids_of(node_infos@), requests@),
{
    let mut cancelled: Vec<NodeId> = Vec::new();
    let mut r: usize = 0;
    proof {
        assert(requests@.take(0) =~= Seq::<CancelRequest>::empty());
    }
    while r < requests.len()
        invariant
            r <= requests.len(),
            cancelled@ == cancelled_by(ids_of(node_infos@), requests@.take(r as int)),
        decreases requests.len() - r,
    {
        proof {
            assert(requests@.take(r + 1).drop_last() =~= requests@.take(r as int));
            assert(requests@.take(r + 1).last() == requests@[r as int]);
        }
        let ghost before = cancelled@;
        match requests[r].start {
            Some(start) => {
                cancelled.push(start);
                proof {
                    assert(cancelled@ =~= before + seq![start]);
                }
            },
            None => {
                let mut i: usize = 0;
                while i < node_infos.len()
                    invariant
                        i <= node_infos.len(),
                        cancelled@ == before + ids_of(node_infos@).take(i as int),
                    decreases node_infos.len() - i,
                {
                    cancelled.push(node_infos[i].node_id);
                    proof {
                        let ids = ids_of(node_infos@);
                        assert(ids.take(i + 1) =~= ids.take(i as int).push(ids[i as int]));
                    }
                    i += 1;
                }
                proof {
                    let ids = ids_of(node_infos@);
                    assert(ids.take(node_infos.len() as int) =~= ids);
                }
            },
        }
        r += 1;
    }
    proof {
        assert(requests@.take(requests.len() as int) =~= requests@);
    }
    cancelled
}


/// How the execution of a step ended.
#[derive(Clone, Copy, Debug, PartialEq, Eq, Structural)]
pub enum StepResult {
    /// The node was executed without a message
    Succeeded,
    /// The node was executed and reported an error
    Failed,
    /// The node was executed and reported an exception
    Exceptions,
    /// The step itself failed: its kernel could not be had, or its task
    /// broke
    Errored,
    /// The step ran out of its time
    TimedOut,
}

impl StepResult {
    /// The status that a step leaves its node in.
    pub open spec fn spec_status(self) -> ExecutionStatus {
        match self {
            StepResult::Succeeded => ExecutionStatus::Succeeded,
            StepResult::Exceptions => ExecutionStatus::Exceptions,
            StepResult::Failed | StepResult::Errored | StepResult::TimedOut => {
                ExecutionStatus::Failed
            },
        }
    }

    /// `Succeeded`, `Exceptions`, or `Failed` for anything else.
    #[verifier::when_used_as_spec(spec_status)]
    pub fn status(self) -> (status: ExecutionStatus)
        ensures
            status == self.spec_status(),
    {
        match self {
            StepResult::Succeeded => ExecutionStatus::Succeeded,
            StepResult::Exceptions => ExecutionStatus::Exceptions,
            StepResult::Failed | StepResult::Errored | StepResult::TimedOut => {
                ExecutionStatus::Failed
            },
        }
    }
}

/// The last of `infos` with the id `id`, if there is one.
pub open spec fn info_of(infos: Seq<NodeInfo>, id: NodeId) -> Option<NodeInfo>
    decreases infos.len(),
{
    if infos.len() == 0 {
        None
    } else if infos.last().node_id == id {
        Some(infos.last())
    } else {
        info_of(infos.drop_last(), id)
    }
}

/// No two of `infos` have the same id.
pub open spec fn unique_ids(infos: Seq<NodeInfo>) -> bool {
    forall|i: int, j: int|
        0 <= i < infos.len() && 0 <= j < infos.len() && (#[trigger] infos[i]).node_id == (
        #[trigger] infos[j]).node_id ==> i == j
}

/// `info_of` finds an id exactly where some info has it, and where ids are
/// unique it finds that info.
pub proof fn lemma_info_of(infos: Seq<NodeInfo>, id: NodeId)
    ensures
        info_of(infos, id) is None <==> (forall|i: int|
            0 <= i < infos.len() ==> (#[trigger] infos[i]).node_id != id),
        info_of(infos, id) matches Some(info) ==> info.node_id == id && infos.contains(info),
        unique_ids(infos) ==> (forall|i: int|
            0 <= i < infos.len() && (#[trigger] infos[i]).node_id == id ==> info_of(infos, id)
                == Some(infos[i])),
    decreases infos.len(),
{
    if infos.len() > 0 {
        let front = infos.drop_last();
        lemma_info_of(front, id);
        assert(forall|i: int| 0 <= i < front.len() ==> front[i] == infos[i]);
        if infos.last().node_id == id {
            assert(infos[infos.len() - 1] == infos.last());
        } else {
            if let Some(info) = info_of(front, id) {
                let k = choose|k: int| 0 <= k < front.len() && front[k] == info;
                assert(infos[k] == info);
            }
            assert(unique_ids(infos) ==> unique_ids(front));
        }
    }
}

/// The index in `infos` of the last info with the id `id`.
pub fn find(infos: &Vec<NodeInfo>, id: NodeId) -> (found: Option<usize>)
    ensures
        match found {
            Some(i) => i < infos.len() && infos[i as int].node_id == id && info_of(infos@, id)
                == Some(infos[i as int]),
            None => info_of(infos@, id) is None,
        },
{
    let mut found: Option<usize> = None;
    let mut i: usize = 0;
    proof {
        assert(infos@.take(0) =~= Seq::<NodeInfo>::empty());
    }
    while i < infos.len()
        invariant
            i <= infos.len(),
            match found {
                Some(k) => k < i && infos[k as int].node_id == id && info_of(
                    infos@.take(i as int),
                    id,
                ) == Some(infos[k as int]),
                None => info_of(infos@.take(i as int), id) is None,
            },
        decreases infos.len() - i,
    {
        proof {
            assert(infos@.take(i + 1).drop_last() =~= infos@.take(i as int));
            assert(infos@.take(i + 1).last() == infos@[i as int]);
        }
        if infos[i].node_id == id {
            found = Some(i);
        }
        i += 1;
    }
    proof {
        assert(infos@.take(infos.len() as int) =~= infos@);
    }
    found
}

/// The status by which a dependency is judged: that of the node on the
/// plan with that id, else that of the node outside the plan with that id.
/// A dependency that is neither is not judged.
pub open spec fn dependency_status(
    infos: Seq<NodeInfo>,
    outside: Seq<NodeInfo>,
    id: NodeId,
) -> Option<Option<ExecutionStatus>> {
    match info_of(infos, id) {
        Some(info) => Some(info.execute_status()),
        None => match info_of(outside, id) {
            Some(info) => Some(info.execute_status()),
            None => None,
        },
    }
}

/// Dependency `d` of `step` never ran, failed or was cancelled.
pub open spec fn dependency_blocks(
    step: Step,
    infos: Seq<NodeInfo>,
    outside: Seq<NodeInfo>,
    d: int,
) -> bool {
    &&& 0 <= d < step.dependencies.len()
    &&& dependency_status(infos, outside, step.dependencies[d]) matches Some(status)
    &&& spec_blocks_dependants(status)
}

/// Some dependency of step `t` of `stage` never ran, failed or was
/// cancelled.
pub open spec fn step_blocked(
    stage: Stage,
    infos: Seq<NodeInfo>,
    outside: Seq<NodeInfo>,
    t: int,
) -> bool {
    &&& 0 <= t < stage.steps.len()
    &&& exists|d: int| #[trigger] dependency_blocks(stage.steps[t], infos, outside, d)
}

/// Some dependency of some step of `stage` never ran, failed or was
/// cancelled.
pub open spec fn stage_blocked(stage: Stage, infos: Seq<NodeInfo>, outside: Seq<NodeInfo>) -> bool {
    exists|t: int| #[trigger] step_blocked(stage, infos, outside, t)
}

/// Whether some dependency of some step of `stage` never ran, failed or
/// was cancelled.
pub fn check_dependencies(stage: &Stage, infos: &Vec<NodeInfo>, outside: &Vec<NodeInfo>) -> (blocked:
    bool)
    ensures
        blocked == stage_blocked(*stage, infos@, outside@),
{
    let mut t: usize = 0;
    while t < stage.steps.len()
        invariant
            t <= stage.steps.len(),
            forall|k: int| 0 <= k < t ==> !#[trigger] step_blocked(*stage, infos@, outside@, k),
        decreases stage.steps.len() - t,
    {
        let step = &stage.steps[t];
        let mut d: usize = 0;
        while d < step.dependencies.len()
            invariant
                d <= step.dependencies.len(),
                t < stage.steps.len(),
                *step == stage.steps[t as int],
                forall|k: int|
                    0 <= k < d ==> !#[trigger] dependency_blocks(*step, infos@, outside@, k),
            decreases step.dependencies.len() - d,
        {
            let id = step.dependencies[d];
            let status = match find(infos, id) {
                Some(i) => Some(infos[i].get_execute_status()),
                None => match find(outside, id) {
                    Some(i) => Some(outside[i].get_execute_status()),
                    None => None,
                },
            };
            let blocks = match status {
                Some(status) => blocks_dependants(status),
                None => false,
            };
            if blocks {
                proof {
                    assert(dependency_blocks(*step, infos@, outside@, d as int));
                    assert(step_blocked(*stage, infos@, outside@, t as int));
                }
                return true;
            }
            d += 1;
        }
        t += 1;
    }
    false
}


/// The nodes of `snapshot` that `plan` executes, each once: of several with
/// one id the first.
pub open spec fn planned(plan: Plan, snapshot: Seq<NodeInfo>) -> Seq<NodeInfo>
    decreases snapshot.len(),
{
    if snapshot.len() == 0 {
        Seq::empty()
    } else {
        let before = planned(plan, snapshot.drop_last());
        let info = snapshot.last();
        if plan.runs(info.node_id) && info_of(before, info.node_id) is None {
            before.push(info)
        } else {
            before
        }
    }
}

/// The nodes of `snapshot` that `plan` does not execute.
pub open spec fn unplanned(plan: Plan, snapshot: Seq<NodeInfo>) -> Seq<NodeInfo>
    decreases snapshot.len(),
{
    if snapshot.len() == 0 {
        Seq::empty()
    } else {
        let before = unplanned(plan, snapshot.drop_last());
        let info = snapshot.last();
        if plan.runs(info.node_id) {
            before
        } else {
            before.push(info)
        }
    }
}

/// A run of a plan.
#[derive(Debug)]
pub struct Runner {
    /// The plan that is run
    pub plan: Plan,
    /// The nodes on the plan
    pub infos: Vec<NodeInfo>,
    /// Nodes outside the plan, known for their status as dependencies
    pub outside: Vec<NodeInfo>,
    /// The nodes whose cancellation was requested
    pub cancelled: Vec<NodeId>,
    /// The nodes whose steps are running
    pub live: Vec<NodeId>,
    /// The number of stages begun
    pub stage: usize,
    /// Whether the run was stopped for a dependency that did not succeed
    pub dependencies_failed: bool,
}

impl Runner {
    /// The run is consistent: each node is on the plan once and was
    /// neither scheduled nor running before the run, and a node that is so
    /// now is either running in a live step or waits for a stage that has
    /// not begun.
    pub open spec fn wf(self) -> bool {
        &&& self.plan.each_node_once()
        &&& unique_ids(self.infos@)
        &&& self.stage <= self.plan.stages.len()
        &&& forall|i: int|
            0 <= i < self.infos.len() ==> settled((#[trigger] self.infos[i]).previous_status)
        &&& forall|i: int|
            0 <= i < self.infos.len() ==> (#[trigger] self.infos[i]).is_settled()
                || self.live@.contains(self.infos[i].node_id) || self.plan.runs_from(
                self.stage as int,
                self.infos[i].node_id,
            )
    }

    /// The run has come to its end: it was stopped for a dependency, or
    /// every stage was begun and no step is live.
    pub open spec fn is_over(self) -> bool {
        self.dependencies_failed || (self.stage == self.plan.stages.len() && self.live.len() == 0)
    }

    /// No node of the run is scheduled or running.
    pub open spec fn all_settled(self) -> bool {
        forall|i: int| 0 <= i < self.infos.len() ==> (#[trigger] self.infos[i]).is_settled()
    }

    /// Start a run of `plan` over the nodes of `snapshot`, taken when no
    /// node was scheduled or running, each with the status it has as its
    /// previous status. Every node on the plan is scheduled; the changes
    /// are to be sent as one batch.
    pub fn start(plan: Plan, snapshot: Vec<NodeInfo>) -> (out: (Runner, Vec<StatusChange>))
        requires
            plan.each_node_once(),
            forall|i: int| 0 <= i < snapshot.len() ==> (#[trigger] snapshot[i]).is_fresh(),
        ensures
            out.0.wf(),
            out.0.plan == plan,
            out.0.stage == 0,
            !out.0.dependencies_failed,
            out.0.cancelled@ == Seq::<NodeId>::empty(),
            out.0.live@ == Seq::<NodeId>::empty(),
            out.0.outside@ == unplanned(plan, snapshot@),
            out.0.infos@ == planned(plan, snapshot@).map_values(|info: NodeInfo| info.scheduled()),
            out.1@ == planned(plan, snapshot@).map_values(
                |info: NodeInfo| info.change_to(info.scheduled()),
            ),
    {
        let mut infos: Vec<NodeInfo> = Vec::new();
        let mut outside: Vec<NodeInfo> = Vec::new();
        let mut i: usize = 0;
        proof {
            assert(snapshot@.take(0) =~= Seq::<NodeInfo>::empty());
        }
        while i < snapshot.len()
            invariant
                i <= snapshot.len(),
                infos@ == planned(plan, snapshot@.take(i as int)),
                outside@ == unplanned(plan, snapshot@.take(i as int)),
                unique_ids(infos@),
                forall|k: int| 0 <= k < infos.len() ==> plan.runs((#[trigger] infos[k]).node_id),
                forall|k: int| 0 <= k < infos.len() ==> settled((#[trigger] infos[k]).previous_status),
                forall|k: int| 0 <= k < snapshot.len() ==> (#[trigger] snapshot[k]).is_fresh(),
            decreases snapshot.len() - i,
        {
            let info = snapshot[i];
            proof {
                assert(snapshot@.take(i + 1).drop_last() =~= snapshot@.take(i as int));
                assert(snapshot@.take(i + 1).last() == info);
                lemma_info_of(infos@, info.node_id);
            }
            if plan.has_node(info.node_id) {
                if find(&infos, info.node_id).is_none() {
                    infos.push(info);
                }
            } else {
                outside.push(info);
            }
            i += 1;
        }
        proof {
            assert(snapshot@.take(snapshot.len() as int) =~= snapshot@);
        }
        let ghost chosen = infos@;
        let mut changes: Vec<StatusChange> = Vec::new();
        let mut k: usize = 0;
        while k < infos.len()
            invariant
                k <= infos.len(),
                infos.len() == chosen.len(),
                changes@ == chosen.take(k as int).map_values(
                    |info: NodeInfo| info.change_to(info.scheduled()),
                ),
                forall|j: int| 0 <= j < k ==> (#[trigger] infos[j]) == chosen[j].scheduled(),
                forall|j: int| k <= j < infos.len() ==> (#[trigger] infos[j]) == chosen[j],
            decreases infos.len() - k,
        {
            let change = infos[k].set_execute_status_scheduled();
            changes.push(change);
            proof {
                assert(changes@ =~= chosen.take(k + 1).map_values(
                    |info: NodeInfo| info.change_to(info.scheduled()),
                ));
            }
            k += 1;
        }
        proof {
            assert(chosen.take(chosen.len() as int) =~= chosen);
            assert(infos@ =~= chosen.map_values(|info: NodeInfo| info.scheduled()));
            assert forall|a: int, b: int|
                0 <= a < infos.len() && 0 <= b < infos.len() && (#[trigger] infos[a]).node_id == (
                #[trigger] infos[b]).node_id implies a == b by {
                assert(chosen[a].node_id == chosen[b].node_id);
            }
            assert forall|j: int| 0 <= j < infos.len() implies plan.runs_from(
                0,
                (#[trigger] infos[j]).node_id,
            ) by {
                assert(plan.runs(chosen[j].node_id));
            }
            assert forall|j: int| 0 <= j < infos.len() implies settled(
                (#[trigger] infos[j]).previous_status,
            ) by {
                assert(settled(chosen[j].previous_status));
            }
        }
        let runner = Runner {
            plan,
            infos,
            outside,
            cancelled: Vec::new(),
            live: Vec::new(),
            stage: 0,
            dependencies_failed: false,
        };
        (runner, changes)
    }
}


/// What the beginning of a stage came to.
#[derive(Debug)]
pub enum StageStart {
    /// Every stage has been begun: the run is at its end
    Finished,
    /// Steps of the stage before are still live: nothing was done
    Busy,
    /// A dependency of the stage never ran, failed or was cancelled: the
    /// run stops
    Stopped,
    /// The stage has begun
    Started {
        /// The changes of status, to be sent as one batch
        changes: Vec<StatusChange>,
        /// The steps of the stage to run, by their place in the stage
        run: Vec<usize>,
    },
}

impl Stage {
    /// One of the first `t` steps of the stage executes node `id`.
    pub open spec fn runs_before(self, t: int, id: NodeId) -> bool {
        exists|k: int| k < t && #[trigger] self.runs_at(k, id)
    }
}

/// A node as the beginning of `stage` leaves it: a node of the stage is
/// given back its previous status where it was cancelled, and is running
/// where it was not; any other node stays as it is.
pub open spec fn begun(info: NodeInfo, stage: Stage, cancelled: Seq<NodeId>) -> NodeInfo {
    if stage.runs(info.node_id) {
        if cancelled.contains(info.node_id) {
            info.restored()
        } else {
            info.running()
        }
    } else {
        info
    }
}

/// The changes of status at the beginning of a stage: one for each step
/// whose node is known, in the order of the steps.
pub open spec fn stage_changes(
    steps: Seq<Step>,
    infos: Seq<NodeInfo>,
    cancelled: Seq<NodeId>,
) -> Seq<StatusChange>
    decreases steps.len(),
{
    if steps.len() == 0 {
        Seq::empty()
    } else {
        let before = stage_changes(steps.drop_last(), infos, cancelled);
        let id = steps.last().node_id;
        match info_of(infos, id) {
            Some(info) => before.push(
                info.change_to(
                    if cancelled.contains(id) {
                        info.restored()
                    } else {
                        info.running()
                    },
                ),
            ),
            None => before,
        }
    }
}

/// The steps to run at the beginning of a stage: those whose node is known
/// and not cancelled, in their order.
pub open spec fn stage_run(steps: Seq<Step>, infos: Seq<NodeInfo>, cancelled: Seq<NodeId>) -> Seq<
    usize,
>
    decreases steps.len(),
{
    if steps.len() == 0 {
        Seq::empty()
    } else {
        let before = stage_run(steps.drop_last(), infos, cancelled);
        let id = steps.last().node_id;
        if info_of(infos, id) is Some && !cancelled.contains(id) {
            before.push((steps.len() - 1) as usize)
        } else {
            before
        }
    }
}

/// The nodes of the steps to run at the beginning of a stage.
pub open spec fn stage_live(steps: Seq<Step>, infos: Seq<NodeInfo>, cancelled: Seq<NodeId>) -> Seq<
    NodeId,
>
    decreases steps.len(),
{
    if steps.len() == 0 {
        Seq::empty()
    } else {
        let before = stage_live(steps.drop_last(), infos, cancelled);
        let id = steps.last().node_id;
        if info_of(infos, id) is Some && !cancelled.contains(id) {
            before.push(id)
        } else {
            before
        }
    }
}

impl Runner {
    /// The run went from `before` to `self` without a change.
    pub open spec fn same_as(self, before: Runner) -> bool {
        &&& self.plan == before.plan
        &&& self.infos@ == before.infos@
        &&& self.outside@ == before.outside@
        &&& self.cancelled@ == before.cancelled@
        &&& self.live@ == before.live@
        &&& self.stage == before.stage
        &&& self.dependencies_failed == before.dependencies_failed
    }

    /// How the beginning of a stage relates the run before and after it,
    /// the requests to cancel that had arrived, and what came out.
    pub open spec fn began_stage(
        self,
        before: Runner,
        requests: Seq<CancelRequest>,
        start: StageStart,
    ) -> bool {
        if before.live.len() > 0 {
            start is Busy && self.same_as(before)
        } else if before.dependencies_failed {
            start is Stopped && self.same_as(before)
        } else if before.stage >= before.plan.stages.len() {
            start is Finished && self.same_as(before)
        } else if stage_blocked(
            before.plan.stages[before.stage as int],
            before.infos@,
            before.outside@,
        ) {
            &&& start is Stopped
            &&& self.dependencies_failed
            &&& self.same_as(Runner { dependencies_failed: true, ..before })
        } else {
            let stage = before.plan.stages[before.stage as int];
            &&& start is Started
            &&& self.plan == before.plan
            &&& self.outside@ == before.outside@
            &&& !self.dependencies_failed
            &&& self.stage == before.stage + 1
            &&& self.cancelled@ == before.cancelled@ + cancelled_by(
                ids_of(before.infos@),
                requests,
            )
            &&& self.infos@ == before.infos@.map_values(
                |info: NodeInfo| begun(info, stage, self.cancelled@),
            )
            &&& start->changes@ == stage_changes(stage.steps@, before.infos@, self.cancelled@)
            &&& start->run@ == stage_run(stage.steps@, before.infos@, self.cancelled@)
            &&& self.live@ == stage_live(stage.steps@, before.infos@, self.cancelled@)
        }
    }

    /// Begin the next stage, with the requests to cancel that have arrived
    /// since the stage before.
    ///
    /// Nothing is done while steps of the stage before are live, after the
    /// run was stopped, or when no stage is left. The run stops where a
    /// dependency of the stage never ran, failed or was cancelled.
    /// Otherwise each step of the stage whose node was cancelled gives the
    /// node its previous status back, and each other step is to be run,
    /// its node running.
    pub fn begin_stage(&mut self, requests: &Vec<CancelRequest>) -> (start: StageStart)
        requires
            old(self).wf(),
        ensures
            final(self).wf(),
            final(self).began_stage(*old(self), requests@, start),
    {
        if self.live.len() > 0 {
            return StageStart::Busy;
        }
        if self.dependencies_failed {
            return StageStart::Stopped;
        }
        if self.stage >= self.plan.stages.len() {
            return StageStart::Finished;
        }
        if check_dependencies(&self.plan.stages[self.stage], &self.infos, &self.outside) {
            self.dependencies_failed = true;
            return StageStart::Stopped;
        }
        let mut more = collect_cancelled_nodes(&self.infos, requests);
        self.cancelled.append(&mut more);

        let ghost before = *old(self);
        let ghost stage = before.plan.stages[before.stage as int];
        let ghost cancelled = self.cancelled@;
        let s = self.stage;
        let mut changes: Vec<StatusChange> = Vec::new();
        let mut run: Vec<usize> = Vec::new();
        let mut t: usize = 0;
        proof {
            assert(stage.steps@.take(0) =~= Seq::<Step>::empty());
        }
        while t < self.plan.stages[s].steps.len()
            invariant
                before.wf(),
                before.live.len() == 0,
                s == before.stage,
                s < before.plan.stages.len(),
                stage == before.plan.stages[s as int],
                self.plan == before.plan,
                self.outside@ == before.outside@,
                self.stage == before.stage,
                self.dependencies_failed == before.dependencies_failed,
                self.cancelled@ == cancelled,
                t <= stage.steps.len(),
                self.infos.len() == before.infos.len(),
                forall|i: int|
                    0 <= i < self.infos.len() ==> (#[trigger] self.infos[i]) == (if stage.runs_before(
                        t as int,
                        before.infos[i].node_id,
                    ) {
                        begun(before.infos[i], stage, cancelled)
                    } else {
                        before.infos[i]
                    }),
                changes@ == stage_changes(stage.steps@.take(t as int), before.infos@, cancelled),
                run@ == stage_run(stage.steps@.take(t as int), before.infos@, cancelled),
                self.live@ == stage_live(stage.steps@.take(t as int), before.infos@, cancelled),
            decreases stage.steps.len() - t,
        {
            let id = self.plan.stages[s].steps[t].node_id;
            let found = find(&self.infos, id);
            proof {
                assert(stage.steps@.take(t + 1).drop_last() =~= stage.steps@.take(t as int));
                assert(stage.steps@.take(t + 1).last() == stage.steps[t as int]);
                assert(stage.runs_at(t as int, id));
                lemma_info_of(before.infos@, id);
                lemma_info_of(self.infos@, id);
                // no earlier step of the stage runs this node
                assert(!stage.runs_before(t as int, id)) by {
                    if stage.runs_before(t as int, id) {
                        let k = choose|k: int| k < t && #[trigger] stage.runs_at(k, id);
                        assert(before.plan.has_step(s as int, k));
                        assert(before.plan.has_step(s as int, t as int));
                        assert(before.plan.node_at(s as int, k) == before.plan.node_at(
                            s as int,
                            t as int,
                        ));
                    }
                }
                assert forall|i: int| 0 <= i < self.infos.len() implies (
                #[trigger] self.infos[i]).node_id == before.infos[i].node_id by {}
            }
            let ghost current = self.infos@;
            match found {
                Some(k) => {
                    proof {
                        assert(before.infos[k as int].node_id == id);
                        assert(self.infos[k as int] == before.infos[k as int]);
                        assert(info_of(before.infos@, id) == Some(before.infos[k as int]));
                    }
                    if contains_id(&self.cancelled, id) {
                        let change = self.infos[k].restore_previous_execute_status();
                        changes.push(change);
                    } else {
                        let change = self.infos[k].set_execute_status_running();
                        changes.push(change);
                        run.push(t);
                        self.live.push(id);
                    }
                    proof {
                        assert(stage.runs(id));
                        assert(self.infos[k as int] == begun(before.infos[k as int], stage, cancelled));
                    }
                },
                None => {
                    proof {
                        assert(info_of(before.infos@, id) is None) by {
                            assert forall|i: int| 0 <= i < before.infos.len() implies (
                            #[trigger] before.infos[i]).node_id != id by {
                                assert(self.infos[i].node_id != id);
                            }
                        }
                    }
                },
            }
            proof {
                assert forall|i: int| 0 <= i < self.infos.len() implies (#[trigger] self.infos[i])
                    == (if stage.runs_before(t + 1, before.infos[i].node_id) {
                    begun(before.infos[i], stage, cancelled)
                } else {
                    before.infos[i]
                }) by {
                    let other = before.infos[i].node_id;
                    if other == id {
                        assert(stage.runs_before(t + 1, id));
                        assert(found is Some);
                        assert(found->0 == i);
                    } else {
                        assert(self.infos[i] == current[i]);
                        if stage.runs_before(t + 1, other) {
                            let k = choose|k: int| k < t + 1 && #[trigger] stage.runs_at(k, other);
                            assert(k != t);
                            assert(stage.runs_before(t as int, other));
                        }
                        if stage.runs_before(t as int, other) {
                            let k = choose|k: int| k < t && #[trigger] stage.runs_at(k, other);
                            assert(stage.runs_before(t + 1, other));
                        }
                    }
                }
            }
            t += 1;
        }
        self.stage = self.stage + 1;
        proof {
            assert(stage.steps@.take(stage.steps.len() as int) =~= stage.steps@);
            assert forall|i: int| 0 <= i < self.infos.len() implies (#[trigger] self.infos[i])
                == begun(before.infos[i], stage, cancelled) by {
                let id = before.infos[i].node_id;
                if stage.runs(id) {
                    let k = choose|k: int| 0 <= k && #[trigger] stage.runs_at(k, id);
                    assert(stage.runs_before(stage.steps.len() as int, id));
                }
                if stage.runs_before(stage.steps.len() as int, id) {
                    let k = choose|k: int|
                        k < stage.steps.len() && #[trigger] stage.runs_at(k, id);
                    assert(stage.runs(id));
                }
            }
            assert(self.infos@ =~= before.infos@.map_values(
                |info: NodeInfo| begun(info, stage, cancelled),
            ));
            lemma_stage_live(stage.steps@, before.infos@, cancelled);
            assert forall|i: int| 0 <= i < self.infos.len() implies (
            #[trigger] self.infos[i]).is_settled() || self.live@.contains(self.infos[i].node_id)
                || self.plan.runs_from(self.stage as int, self.infos[i].node_id) by {
                let was = before.infos[i];
                let id = was.node_id;
                lemma_info_of(before.infos@, id);
                if stage.runs(id) {
                    if !cancelled.contains(id) {
                        let k = choose|k: int| 0 <= k && #[trigger] stage.runs_at(k, id);
                        assert(stage.steps@[k].node_id == id);
                        assert(self.live@.contains(id));
                    }
                } else if !was.is_settled() {
                    assert(before.plan.runs_from(before.stage as int, id));
                    let r = choose|r: int| before.stage <= r && #[trigger] before.plan.runs_in(r, id);
                    assert(r != before.stage);
                    assert(self.plan.runs_in(r, id));
                }
            }
            assert forall|a: int, b: int|
                0 <= a < self.infos.len() && 0 <= b < self.infos.len() && (
                #[trigger] self.infos[a]).node_id == (#[trigger] self.infos[b]).node_id implies a
                == b by {
                assert(before.infos[a].node_id == before.infos[b].node_id);
            }
            assert forall|i: int| 0 <= i < self.infos.len() implies settled(
                (#[trigger] self.infos[i]).previous_status,
            ) by {
                assert(settled(before.infos[i].previous_status));
            }
        }
        StageStart::Started { changes, run }
    }
}

/// The nodes that go live at the beginning of a stage are those of its
/// steps whose node is known and not cancelled.
pub proof fn lemma_stage_live(steps: Seq<Step>, infos: Seq<NodeInfo>, cancelled: Seq<NodeId>)
    ensures
        forall|t: int|
            0 <= t < steps.len() && info_of(infos, (#[trigger] steps[t]).node_id) is Some
                && !cancelled.contains(steps[t].node_id) ==> stage_live(
                steps,
                infos,
                cancelled,
            ).contains(steps[t].node_id),
    decreases steps.len(),
{
    if steps.len() > 0 {
        let front = steps.drop_last();
        lemma_stage_live(front, infos, cancelled);
        let before = stage_live(front, infos, cancelled);
        let live = stage_live(steps, infos, cancelled);
        assert forall|t: int|
            0 <= t < steps.len() && info_of(infos, (#[trigger] steps[t]).node_id) is Some
                && !cancelled.contains(steps[t].node_id) implies live.contains(
            steps[t].node_id,
        ) by {
            let id = steps[t].node_id;
            if t == steps.len() - 1 {
                assert(live == before.push(id));
                assert(live[live.len() - 1] == id);
            } else {
                assert(front[t] == steps[t]);
                let k = choose|k: int| 0 <= k < before.len() && before[k] == id;
                assert(live[k] == id);
            }
        }
    }
}


/// `ids` without those that `drop` holds.
pub open spec fn without(ids: Seq<NodeId>, drop: Seq<NodeId>) -> Seq<NodeId>
    decreases ids.len(),
{
    if ids.len() == 0 {
        Seq::empty()
    } else {
        let before = without(ids.drop_last(), drop);
        if drop.contains(ids.last()) {
            before
        } else {
            before.push(ids.last())
        }
    }
}

/// `without` keeps exactly the ids that `drop` does not hold.
pub proof fn lemma_without(ids: Seq<NodeId>, drop: Seq<NodeId>, id: NodeId)
    ensures
        without(ids, drop).contains(id) <==> ids.contains(id) && !drop.contains(id),
    decreases ids.len(),
{
    if ids.len() > 0 {
        let front = ids.drop_last();
        lemma_without(front, drop, id);
        let kept = without(front, drop);
        let all = without(ids, drop);
        if all.contains(id) {
            let k = choose|k: int| 0 <= k < all.len() && all[k] == id;
            if k < kept.len() {
                assert(kept[k] == id);
                let j = choose|j: int| 0 <= j < front.len() && front[j] == id;
                assert(ids[j] == id);
            } else {
                assert(ids[ids.len() - 1] == id);
            }
        }
        if ids.contains(id) && !drop.contains(id) {
            let j = choose|j: int| 0 <= j < ids.len() && ids[j] == id;
            if j < front.len() {
                assert(front[j] == id);
                let k = choose|k: int| 0 <= k < kept.len() && kept[k] == id;
                assert(all[k] == id);
            } else {
                assert(all[all.len() - 1] == id);
            }
        }
    }
}

/// A copy of `ids` without those that `drop` holds.
pub fn remove_ids(ids: &Vec<NodeId>, drop: &Vec<NodeId>) -> (kept: Vec<NodeId>)
    ensures
        kept@ == without(ids@, drop@),
{
    let mut kept: Vec<NodeId> = Vec::new();
    let mut i: usize = 0;
    proof {
        assert(ids@.take(0) =~= Seq::<NodeId>::empty());
    }
    while i < ids.len()
        invariant
            i <= ids.len(),
            kept@ == without(ids@.take(i as int), drop@),
        decreases ids.len() - i,
    {
        proof {
            assert(ids@.take(i + 1).drop_last() =~= ids@.take(i as int));
            assert(ids@.take(i + 1).last() == ids@[i as int]);
        }
        if !contains_id(drop, ids[i]) {
            kept.push(ids[i]);
        }
        i += 1;
    }
    proof {
        assert(ids@.take(ids.len() as int) =~= ids@);
    }
    kept
}

/// What to do with the result of a step that has ended.
#[derive(Clone, Copy, Debug, PartialEq, Eq, Structural)]
pub struct Completion {
    /// The change of status of the node
    pub change: StatusChange,
    /// Whether the node was cancelled: its result is then dropped, and only
    /// the change is sent
    pub discard: bool,
}

/// What a request to cancel came to.
#[derive(Debug)]
pub struct Cancellation {
    /// The changes of status, one for each step that was live and is now
    /// cancelled
    pub changes: Vec<StatusChange>,
    /// The nodes whose live steps are to be aborted
    pub aborted: Vec<NodeId>,
}

/// A node as the end of its step leaves it.
pub open spec fn ended(info: NodeInfo, cancelled: Seq<NodeId>, result: StepResult) -> NodeInfo {
    if cancelled.contains(info.node_id) {
        info.cancelled()
    } else {
        info.with_status(Some(result.spec_status()))
    }
}

/// A node as a request to cancel leaves it: cancelled where its step was
/// live and the request reaches it.
pub open spec fn cancelled_if_live(info: NodeInfo, live: Seq<NodeId>, cancelled: Seq<NodeId>) -> NodeInfo {
    if live.contains(info.node_id) && cancelled.contains(info.node_id) {
        info.cancelled()
    } else {
        info
    }
}

/// A node as an interruption of the whole run leaves it: cancelled where
/// its step was live, with its previous status where it was still waiting.
pub open spec fn interrupted(info: NodeInfo, live: Seq<NodeId>) -> NodeInfo {
    if live.contains(info.node_id) {
        info.cancelled()
    } else {
        info.restored()
    }
}

/// The changes that lead from each of `infos` to what `next` makes of it,
/// for those that `touched` picks.
pub open spec fn changes_of(
    infos: Seq<NodeInfo>,
    touched: spec_fn(NodeInfo) -> bool,
    next: spec_fn(NodeInfo) -> NodeInfo,
) -> Seq<StatusChange>
    decreases infos.len(),
{
    if infos.len() == 0 {
        Seq::empty()
    } else {
        let before = changes_of(infos.drop_last(), touched, next);
        if touched(infos.last()) {
            before.push(infos.last().change_to(next(infos.last())))
        } else {
            before
        }
    }
}

/// The ids of those of `infos` that `touched` picks.
pub open spec fn ids_where(infos: Seq<NodeInfo>, touched: spec_fn(NodeInfo) -> bool) -> Seq<NodeId>
    decreases infos.len(),
{
    if infos.len() == 0 {
        Seq::empty()
    } else {
        let before = ids_where(infos.drop_last(), touched);
        if touched(infos.last()) {
            before.push(infos.last().node_id)
        } else {
            before
        }
    }
}

impl Runner {
    /// Take the end of the step of node `id`.
    ///
    /// A step that is not live is passed over. Otherwise the step is live
    /// no more; its node is `Cancelled` where its cancellation was
    /// requested, and has the status of the result where not.
    pub fn step_finished(&mut self, id: NodeId, result: StepResult) -> (completion: Option<
        Completion,
    >)
        requires
            old(self).wf(),
        ensures
            final(self).wf(),
            final(self).plan == old(self).plan,
            final(self).outside@ == old(self).outside@,
            final(self).cancelled@ == old(self).cancelled@,
            final(self).stage == old(self).stage,
            final(self).dependencies_failed == old(self).dependencies_failed,
            match info_of(old(self).infos@, id) {
                Some(info) if old(self).live@.contains(id) => {
                    &&& final(self).live@ == without(old(self).live@, seq![id])
                    &&& final(self).infos@ == old(self).infos@.map_values(
                        |other: NodeInfo|
                            if other.node_id == id {
                                ended(other, old(self).cancelled@, result)
                            } else {
                                other
                            },
                    )
                    &&& completion == Some(
                        Completion {
                            change: info.change_to(ended(info, old(self).cancelled@, result)),
                            discard: old(self).cancelled@.contains(id),
                        },
                    )
                },
                _ => final(self).same_as(*old(self)) && completion is None,
            },
    {
        if !contains_id(&self.live, id) {
            return None;
        }
        let found = find(&self.infos, id);
        proof {
            lemma_info_of(self.infos@, id);
        }
        match found {
            None => None,
            Some(k) => {
                let mut drop: Vec<NodeId> = Vec::new();
                drop.push(id);
                proof {
                    assert(drop@ =~= seq![id]);
                }
                self.live = remove_ids(&self.live, &drop);
                let discard = contains_id(&self.cancelled, id);
                let change = if discard {
                    self.infos[k].set_execute_status_cancelled()
                } else {
                    self.infos[k].set_execute_status(result.status())
                };
                proof {
                    let before = *old(self);
                    assert(self.infos@ =~= before.infos@.map_values(
                        |other: NodeInfo|
                            if other.node_id == id {
                                ended(other, before.cancelled@, result)
                            } else {
                                other
                            },
                    ));
                    assert forall|i: int| 0 <= i < self.infos.len() implies (
                    #[trigger] self.infos[i]).is_settled() || self.live@.contains(
                        self.infos[i].node_id,
                    ) || self.plan.runs_from(self.stage as int, self.infos[i].node_id) by {
                        let other = before.infos[i].node_id;
                        lemma_without(before.live@, seq![id], other);
                        if other != id {
                            assert(!seq![id].contains(other));
                        }
                    }
                    assert forall|a: int, b: int|
                        0 <= a < self.infos.len() && 0 <= b < self.infos.len() && (
                        #[trigger] self.infos[a]).node_id == (#[trigger] self.infos[b]).node_id implies a
                        == b by {
                        assert(before.infos[a].node_id == before.infos[b].node_id);
                    }
                    assert forall|i: int| 0 <= i < self.infos.len() implies settled(
                        (#[trigger] self.infos[i]).previous_status,
                    ) by {
                        assert(settled(before.infos[i].previous_status));
                    }
                }
                Some(Completion { change, discard })
            },
        }
    }

    /// Take a request to cancel that arrives while steps are live.
    ///
    /// The node of the request, or every node of the run where it names
    /// none, is added to the cancelled nodes. Each live step that is now
    /// cancelled is to be aborted: its node is `Cancelled`, and it is live
    /// no more. A step that has ended stays as it ended.
    pub fn cancel(&mut self, request: CancelRequest) -> (out: Cancellation)
        requires
            old(self).wf(),
        ensures
            final(self).wf(),
            final(self).plan == old(self).plan,
            final(self).outside@ == old(self).outside@,
            final(self).stage == old(self).stage,
            final(self).dependencies_failed == old(self).dependencies_failed,
            final(self).cancelled@ == old(self).cancelled@ + cancelled_by(
                ids_of(old(self).infos@),
                seq![request],
            ),
            final(self).infos@ == old(self).infos@.map_values(
                |info: NodeInfo| cancelled_if_live(info, old(self).live@, final(self).cancelled@),
            ),
            final(self).live@ == without(old(self).live@, final(self).cancelled@),
            out.changes@ == changes_of(
                old(self).infos@,
                |info: NodeInfo|
                    old(self).live@.contains(info.node_id) && final(self).cancelled@.contains(
                        info.node_id,
                    ),
                |info: NodeInfo| info.cancelled(),
            ),
            out.aborted@ == ids_where(
                old(self).infos@,
                |info: NodeInfo|
                    old(self).live@.contains(info.node_id) && final(self).cancelled@.contains(
                        info.node_id,
                    ),
            ),
    {
        let mut requests: Vec<CancelRequest> = Vec::new();
        requests.push(request);
        proof {
            assert(requests@ =~= seq![request]);
        }
        let mut more = collect_cancelled_nodes(&self.infos, &requests);
        self.cancelled.append(&mut more);

        let ghost before = *old(self);
        let ghost cancelled = self.cancelled@;
        let ghost touched = |info: NodeInfo|
            before.live@.contains(info.node_id) && cancelled.contains(info.node_id);
        let ghost next = |info: NodeInfo| info.cancelled();
        let mut changes: Vec<StatusChange> = Vec::new();
        let mut aborted: Vec<NodeId> = Vec::new();
        let mut i: usize = 0;
        proof {
            assert(before.infos@.take(0) =~= Seq::<NodeInfo>::empty());
        }
        while i < self.infos.len()
            invariant
                before.wf(),
                self.plan == before.plan,
                self.outside@ == before.outside@,
                self.stage == before.stage,
                self.dependencies_failed == before.dependencies_failed,
                self.cancelled@ == cancelled,
                self.live@ == before.live@,
                touched == |info: NodeInfo|
                    before.live@.contains(info.node_id) && cancelled.contains(info.node_id),
                next == |info: NodeInfo| info.cancelled(),
                i <= self.infos.len(),
                self.infos.len() == before.infos.len(),
                forall|k: int|
                    0 <= k < i ==> (#[trigger] self.infos[k]) == cancelled_if_live(
                        before.infos[k],
                        before.live@,
                        cancelled,
                    ),
                forall|k: int| i <= k < self.infos.len() ==> (#[trigger] self.infos[k]) == before.infos[k],
                changes@ == changes_of(before.infos@.take(i as int), touched, next),
                aborted@ == ids_where(before.infos@.take(i as int), touched),
            decreases self.infos.len() - i,
        {
            proof {
                assert(before.infos@.take(i + 1).drop_last() =~= before.infos@.take(i as int));
                assert(before.infos@.take(i + 1).last() == before.infos@[i as int]);
            }
            let id = self.infos[i].node_id;
            if contains_id(&self.live, id) && contains_id(&self.cancelled, id) {
                let change = self.infos[i].set_execute_status_cancelled();
                changes.push(change);
                aborted.push(id);
            }
            i += 1;
        }
        self.live = remove_ids(&self.live, &self.cancelled);
        proof {
            assert(before.infos@.take(before.infos.len() as int) =~= before.infos@);
            assert(self.infos@ =~= before.infos@.map_values(
                |info: NodeInfo| cancelled_if_live(info, before.live@, cancelled),
            ));
            assert forall|k: int| 0 <= k < self.infos.len() implies (
            #[trigger] self.infos[k]).is_settled() || self.live@.contains(self.infos[k].node_id)
                || self.plan.runs_from(self.stage as int, self.infos[k].node_id) by {
                lemma_without(before.live@, cancelled, before.infos[k].node_id);
            }
            assert forall|a: int, b: int|
                0 <= a < self.infos.len() && 0 <= b < self.infos.len() && (
                #[trigger] self.infos[a]).node_id == (#[trigger] self.infos[b]).node_id implies a
                == b by {
                assert(before.infos[a].node_id == before.infos[b].node_id);
            }
            assert forall|k: int| 0 <= k < self.infos.len() implies settled(
                (#[trigger] self.infos[k]).previous_status,
            ) by {
                assert(settled(before.infos[k].previous_status));
            }
        }
        Cancellation { changes, aborted }
    }

    /// End the run. Where the run was stopped for a dependency, every node
    /// that is still scheduled or running is given its previous status
    /// back; otherwise nothing changes. Once the run is over, no node is
    /// left scheduled or running.
    pub fn finish(&mut self) -> (changes: Vec<StatusChange>)
        requires
            old(self).wf(),
        ensures
            final(self).wf(),
            final(self).same_as(Runner { infos: final(self).infos, ..*old(self) }),
            final(self).infos@ == old(self).infos@.map_values(
                |info: NodeInfo|
                    if old(self).dependencies_failed {
                        info.restored()
                    } else {
                        info
                    },
            ),
            changes@ == changes_of(
                old(self).infos@,
                |info: NodeInfo| old(self).dependencies_failed,
                |info: NodeInfo| info.restored(),
            ),
            old(self).is_over() ==> final(self).all_settled(),
    {
        let ghost before = *old(self);
        let ghost touched = |info: NodeInfo| before.dependencies_failed;
        let ghost next = |info: NodeInfo| info.restored();
        let mut changes: Vec<StatusChange> = Vec::new();
        proof {
            lemma_changes_of_none(before.infos@, touched, next);
        }
        if self.dependencies_failed {
            let mut i: usize = 0;
            proof {
                assert(before.infos@.take(0) =~= Seq::<NodeInfo>::empty());
            }
            while i < self.infos.len()
                invariant
                    before.wf(),
                    before.dependencies_failed,
                    self.same_as(Runner { infos: self.infos, ..before }),
                    touched == |info: NodeInfo| before.dependencies_failed,
                    next == |info: NodeInfo| info.restored(),
                    i <= self.infos.len(),
                    self.infos.len() == before.infos.len(),
                    forall|k: int| 0 <= k < i ==> (#[trigger] self.infos[k]) == before.infos[k].restored(),
                    forall|k: int|
                        i <= k < self.infos.len() ==> (#[trigger] self.infos[k]) == before.infos[k],
                    changes@ == changes_of(before.infos@.take(i as int), touched, next),
                decreases self.infos.len() - i,
            {
                proof {
                    assert(before.infos@.take(i + 1).drop_last() =~= before.infos@.take(i as int));
                    assert(before.infos@.take(i + 1).last() == before.infos@[i as int]);
                }
                let change = self.infos[i].restore_previous_execute_status();
                changes.push(change);
                i += 1;
            }
            proof {
                assert(before.infos@.take(before.infos.len() as int) =~= before.infos@);
            }
        }
        proof {
            assert(self.infos@ =~= before.infos@.map_values(
                |info: NodeInfo|
                    if before.dependencies_failed {
                        info.restored()
                    } else {
                        info
                    },
            ));
            assert forall|k: int| 0 <= k < self.infos.len() implies (
            #[trigger] self.infos[k]).is_settled() || self.live@.contains(self.infos[k].node_id)
                || self.plan.runs_from(self.stage as int, self.infos[k].node_id) by {
                assert(settled(before.infos[k].previous_status));
            }
            assert forall|a: int, b: int|
                0 <= a < self.infos.len() && 0 <= b < self.infos.len() && (
                #[trigger] self.infos[a]).node_id == (#[trigger] self.infos[b]).node_id implies a
                == b by {
                assert(before.infos[a].node_id == before.infos[b].node_id);
            }
            assert forall|k: int| 0 <= k < self.infos.len() implies settled(
                (#[trigger] self.infos[k]).previous_status,
            ) by {
                assert(settled(before.infos[k].previous_status));
            }
            if before.is_over() {
                assert forall|k: int| 0 <= k < self.infos.len() implies (
                #[trigger] self.infos[k]).is_settled() by {
                    let was = before.infos[k];
                    assert(settled(was.previous_status));
                    if !before.dependencies_failed {
                        assert(!before.live@.contains(was.node_id));
                        if before.plan.runs_from(before.stage as int, was.node_id) {
                            let r = choose|r: int|
                                before.stage <= r && #[trigger] before.plan.runs_in(r, was.node_id);
                        }
                    }
                }
            }
        }
        changes
    }
}

/// Where no node is picked there is no change.
pub proof fn lemma_changes_of_none(
    infos: Seq<NodeInfo>,
    touched: spec_fn(NodeInfo) -> bool,
    next: spec_fn(NodeInfo) -> NodeInfo,
)
    ensures
        (forall|info: NodeInfo| !#[trigger] touched(info)) ==> changes_of(infos, touched, next)
            == Seq::<StatusChange>::empty(),
    decreases infos.len(),
{
    if infos.len() > 0 {
        lemma_changes_of_none(infos.drop_last(), touched, next);
    }
}


impl Runner {
    /// Interrupt the whole run. Every live step is to be aborted and its
    /// node is `Cancelled`; every node that still waited is given its
    /// previous status back; no stage is left to begin. No node is left
    /// scheduled or running.
    pub fn interrupt(&mut self) -> (out: Cancellation)
        requires
            old(self).wf(),
        ensures
            final(self).wf(),
            final(self).all_settled(),
            final(self).plan == old(self).plan,
            final(self).outside@ == old(self).outside@,
            final(self).cancelled@ == old(self).cancelled@ + ids_of(old(self).infos@),
            final(self).dependencies_failed == old(self).dependencies_failed,
            final(self).stage == old(self).plan.stages.len(),
            final(self).live@ == Seq::<NodeId>::empty(),
            final(self).infos@ == old(self).infos@.map_values(
                |info: NodeInfo| interrupted(info, old(self).live@),
            ),
            out.changes@ == changes_of(
                old(self).infos@,
                |info: NodeInfo| true,
                |info: NodeInfo| interrupted(info, old(self).live@),
            ),
            out.aborted@ == old(self).live@,
    {
        let ghost before = *old(self);
        let ghost touched = |info: NodeInfo| true;
        let ghost next = |info: NodeInfo| interrupted(info, before.live@);
        let mut changes: Vec<StatusChange> = Vec::new();
        let mut i: usize = 0;
        proof {
            assert(before.infos@.take(0) =~= Seq::<NodeInfo>::empty());
        }
        while i < self.infos.len()
            invariant
                before.wf(),
                self.same_as(Runner { infos: self.infos, cancelled: self.cancelled, ..before }),
                self.cancelled@ == before.cancelled@ + ids_of(before.infos@).take(i as int),
                touched == |info: NodeInfo| true,
                next == |info: NodeInfo| interrupted(info, before.live@),
                i <= self.infos.len(),
                self.infos.len() == before.infos.len(),
                forall|k: int|
                    0 <= k < i ==> (#[trigger] self.infos[k]) == interrupted(
                        before.infos[k],
                        before.live@,
                    ),
                forall|k: int| i <= k < self.infos.len() ==> (#[trigger] self.infos[k]) == before.infos[k],
                changes@ == changes_of(before.infos@.take(i as int), touched, next),
            decreases self.infos.len() - i,
        {
            proof {
                assert(before.infos@.take(i + 1).drop_last() =~= before.infos@.take(i as int));
                assert(before.infos@.take(i + 1).last() == before.infos@[i as int]);
                let ids = ids_of(before.infos@);
                assert(ids.take(i + 1) =~= ids.take(i as int).push(ids[i as int]));
            }
            let id = self.infos[i].node_id;
            let change = if contains_id(&self.live, id) {
                self.infos[i].set_execute_status_cancelled()
            } else {
                self.infos[i].restore_previous_execute_status()
            };
            changes.push(change);
            self.cancelled.push(id);
            i += 1;
        }
        let mut aborted: Vec<NodeId> = Vec::new();
        aborted.append(&mut self.live);
        self.stage = self.plan.stages.len();
        proof {
            assert(before.infos@.take(before.infos.len() as int) =~= before.infos@);
            let ids = ids_of(before.infos@);
            assert(ids.take(before.infos.len() as int) =~= ids);
            assert(self.infos@ =~= before.infos@.map_values(
                |info: NodeInfo| interrupted(info, before.live@),
            ));
            assert forall|k: int| 0 <= k < self.infos.len() implies (
            #[trigger] self.infos[k]).is_settled() by {
                assert(settled(before.infos[k].previous_status));
            }
            assert forall|a: int, b: int|
                0 <= a < self.infos.len() && 0 <= b < self.infos.len() && (
                #[trigger] self.infos[a]).node_id == (#[trigger] self.infos[b]).node_id implies a
                == b by {
                assert(before.infos[a].node_id == before.infos[b].node_id);
            }
            assert forall|k: int| 0 <= k < self.infos.len() implies settled(
                (#[trigger] self.infos[k]).previous_status,
            ) by {
                assert(settled(before.infos[k].previous_status));
            }
        }
        Cancellation { changes, aborted }
    }
}

/// A node that is scheduled and then interrupted before any step has
/// started is what it was before it was scheduled.
pub proof fn lemma_interrupt_before_dispatch(info: NodeInfo)
    requires
        info.previous_status == info.execute_status(),
    ensures
        interrupted(info.scheduled(), Seq::<NodeId>::empty()) == info,
{
}

/// A node that is scheduled, and cancelled before the stage of its step
/// begins, is what it was before it was scheduled.
pub proof fn lemma_cancel_before_dispatch(info: NodeInfo, stage: Stage, cancelled: Seq<NodeId>)
    requires
        info.previous_status == info.execute_status(),
        cancelled.contains(info.node_id),
    ensures
        begun(info.scheduled(), stage, cancelled) == if stage.runs(info.node_id) {
            info
        } else {
            info.scheduled()
        },
{
}

impl Runner {
    /// No step of the run is live, and each node is as in `originals`,
    /// its copy from the start of the run, or scheduled from there.
    pub open spec fn unstarted(self, originals: Seq<NodeInfo>) -> bool {
        &&& self.live.len() == 0
        &&& self.infos.len() == originals.len()
        &&& forall|i: int|
            0 <= i < originals.len() ==> (#[trigger] originals[i]).is_fresh() && (self.infos[i]
                == originals[i] || self.infos[i] == originals[i].scheduled())
    }

    /// The cancellation of every node of the run was requested.
    pub open spec fn all_cancelled(self) -> bool {
        forall|i: int|
            0 <= i < self.infos.len() ==> self.cancelled@.contains(
                (#[trigger] self.infos[i]).node_id,
            )
    }
}

/// A request to cancel all nodes cancels each of them.
pub proof fn lemma_cancel_all(ids: Seq<NodeId>, requests: Seq<CancelRequest>, r: int, i: int)
    requires
        0 <= r < requests.len(),
        requests[r].start is None,
        0 <= i < ids.len(),
    ensures
        cancelled_by(ids, requests).contains(ids[i]),
    decreases requests.len(),
{
    let front = cancelled_by(ids, requests.drop_last());
    if r == requests.len() - 1 {
        assert(cancelled_by(ids, requests) == front + ids);
        assert((front + ids)[front.len() + i] == ids[i]);
    } else {
        lemma_cancel_all(ids, requests.drop_last(), r, i);
        let k = choose|k: int| 0 <= k < front.len() && front[k] == ids[i];
        assert(cancelled_by(ids, requests)[k] == ids[i]);
    }
}

/// Where the cancellation of every known node of a stage was requested,
/// no step of the stage is to be run and none goes live.
pub proof fn lemma_cancelled_stage_runs_nothing(
    steps: Seq<Step>,
    infos: Seq<NodeInfo>,
    cancelled: Seq<NodeId>,
)
    requires
        forall|i: int| 0 <= i < infos.len() ==> cancelled.contains((#[trigger] infos[i]).node_id),
    ensures
        stage_run(steps, infos, cancelled).len() == 0,
        stage_live(steps, infos, cancelled).len() == 0,
    decreases steps.len(),
{
    if steps.len() > 0 {
        lemma_cancelled_stage_runs_nothing(steps.drop_last(), infos, cancelled);
        let id = steps.last().node_id;
        lemma_info_of(infos, id);
        if let Some(info) = info_of(infos, id) {
            let k = choose|k: int| 0 <= k < infos.len() && infos[k] == info;
            assert(cancelled.contains(infos[k].node_id));
        }
    }
}

/// The nodes that a run starts from are the copies that were handed to it.
pub proof fn lemma_planned_are_fresh(plan: Plan, snapshot: Seq<NodeInfo>)
    requires
        forall|i: int| 0 <= i < snapshot.len() ==> (#[trigger] snapshot[i]).is_fresh(),
    ensures
        forall|i: int|
            0 <= i < planned(plan, snapshot).len() ==> (#[trigger] planned(
                plan,
                snapshot,
            )[i]).is_fresh(),
    decreases snapshot.len(),
{
    if snapshot.len() > 0 {
        let front = snapshot.drop_last();
        assert forall|i: int| 0 <= i < front.len() implies (#[trigger] front[i]).is_fresh() by {
            assert(front[i] == snapshot[i]);
        }
        lemma_planned_are_fresh(plan, front);
        let chosen = planned(plan, snapshot);
        let earlier = planned(plan, front);
        assert forall|i: int| 0 <= i < chosen.len() implies (#[trigger] chosen[i]).is_fresh() by {
            if i < earlier.len() {
                assert(chosen[i] == earlier[i]);
            } else {
                assert(chosen[i] == snapshot[snapshot.len() - 1]);
            }
        }
    }
}

/// A run that was just started has started no step: each node is
/// scheduled from the copy that was handed to the run.
pub proof fn lemma_started_run_is_unstarted(plan: Plan, snapshot: Seq<NodeInfo>, run: Runner)
    requires
        forall|i: int| 0 <= i < snapshot.len() ==> (#[trigger] snapshot[i]).is_fresh(),
        run.infos@ == planned(plan, snapshot).map_values(|info: NodeInfo| info.scheduled()),
        run.live@ == Seq::<NodeId>::empty(),
    ensures
        run.unstarted(planned(plan, snapshot)),
{
    lemma_planned_are_fresh(plan, snapshot);
}

/// Where every node of a run was cancelled before any step started, the
/// beginning of a stage starts no step: none is to be run, none goes live,
/// and each node is as it was handed to the run, or still scheduled from
/// there. The cancellation may stand from before, or arrive with the
/// requests as a request to cancel all.
pub proof fn lemma_cancelled_stage_starts_nothing(
    before: Runner,
    after: Runner,
    requests: Seq<CancelRequest>,
    start: StageStart,
    originals: Seq<NodeInfo>,
)
    requires
        after.began_stage(before, requests, start),
        before.unstarted(originals),
        before.all_cancelled() || exists|r: int|
            0 <= r < requests.len() && (#[trigger] requests[r]).start is None,
    ensures
        after.unstarted(originals),
        start matches StageStart::Started { run, .. } ==> run@.len() == 0 && after.all_cancelled(),
{
    if start is Started {
        let stage = before.plan.stages[before.stage as int];
        let ids = ids_of(before.infos@);
        let more = cancelled_by(ids, requests);
        assert forall|i: int| 0 <= i < before.infos.len() implies after.cancelled@.contains(
            (#[trigger] before.infos[i]).node_id,
        ) by {
            let id = before.infos[i].node_id;
            if before.all_cancelled() {
                let k = choose|k: int|
                    0 <= k < before.cancelled@.len() && before.cancelled@[k] == id;
                assert((before.cancelled@ + more)[k] == id);
            } else {
                let r = choose|r: int|
                    0 <= r < requests.len() && (#[trigger] requests[r]).start is None;
                assert(ids[i] == id);
                lemma_cancel_all(ids, requests, r, i);
                let k = choose|k: int| 0 <= k < more.len() && more[k] == id;
                assert((before.cancelled@ + more)[before.cancelled@.len() + k] == id);
            }
        }
        lemma_cancelled_stage_runs_nothing(stage.steps@, before.infos@, after.cancelled@);
        assert forall|i: int| 0 <= i < originals.len() implies after.infos[i] == originals[i]
            || after.infos[i] == (#[trigger] originals[i]).scheduled() by {
            assert(after.infos@[i] == begun(before.infos@[i], stage, after.cancelled@));
            assert(after.cancelled@.contains(before.infos[i].node_id));
        }
        assert forall|i: int| 0 <= i < after.infos.len() implies after.cancelled@.contains(
            (#[trigger] after.infos[i]).node_id,
        ) by {
            assert(after.infos@[i] == begun(before.infos@[i], stage, after.cancelled@));
            assert(after.cancelled@.contains(before.infos[i].node_id));
        }
    }
}

/// A run that was cancelled before any step started leaves, once it is
/// over and ended, each node exactly as it was handed to the run.
pub proof fn lemma_cancelled_run_changes_nothing(
    before: Runner,
    after: Runner,
    originals: Seq<NodeInfo>,
)
    requires
        before.wf(),
        before.is_over(),
        before.unstarted(originals),
        after.infos@ == before.infos@.map_values(
            |info: NodeInfo|
                if before.dependencies_failed {
                    info.restored()
                } else {
                    info
                },
        ),
    ensures
        after.infos@ == originals,
{
    assert forall|i: int| 0 <= i < originals.len() implies after.infos@[i] == originals[i] by {
        assert(originals[i].is_fresh());
        if !before.dependencies_failed {
            assert(before.infos[i].is_settled());
        }
    }
    assert(after.infos@ =~= originals);
}

/// At the beginning of a stage no step starts unless each of its
/// dependencies that is known has run, and has neither failed nor been
/// cancelled.
pub proof fn lemma_steps_start_after_dependencies(
    before: Runner,
    after: Runner,
    requests: Seq<CancelRequest>,
    start: StageStart,
    t: int,
    d: int,
)
    requires
        after.began_stage(before, requests, start),
        start is Started,
        0 <= t < before.plan.stages[before.stage as int].steps.len(),
        0 <= d < before.plan.stages[before.stage as int].steps[t].dependencies.len(),
    ensures
        dependency_status(
            before.infos@,
            before.outside@,
            before.plan.stages[before.stage as int].steps[t].dependencies[d],
        ) matches Some(status) ==> status is Some && status != Some(ExecutionStatus::Failed)
            && status != Some(ExecutionStatus::Cancelled),
{
    let stage = before.plan.stages[before.stage as int];
    assert(!stage_blocked(stage, before.infos@, before.outside@));
    assert(!step_blocked(stage, before.infos@, before.outside@, t));
    assert(!dependency_blocks(stage.steps[t], before.infos@, before.outside@, d));
}

/// Where a stage does not begin because every stage was begun, or because
/// the run was stopped, the run is over: once it is ended, no node is left
/// scheduled or running.
pub proof fn lemma_run_is_over(
    before: Runner,
    after: Runner,
    requests: Seq<CancelRequest>,
    start: StageStart,
)
    requires
        before.wf(),
        after.began_stage(before, requests, start),
        start is Finished || start is Stopped,
    ensures
        after.is_over(),
{
}

/// A plan without steps schedules no node.
pub proof fn lemma_empty_plan(plan: Plan, snapshot: Seq<NodeInfo>)
    requires
        forall|s: int| 0 <= s < plan.stages.len() ==> (#[trigger] plan.stages[s]).steps.len() == 0,
    ensures
        planned(plan, snapshot) == Seq::<NodeInfo>::empty(),
    decreases snapshot.len(),
{
    if snapshot.len() > 0 {
        lemma_empty_plan(plan, snapshot.drop_last());
        let id = snapshot.last().node_id;
        if plan.runs(id) {
            let s = choose|s: int| 0 <= s && #[trigger] plan.runs_in(s, id);
            let t = choose|t: int| 0 <= t && #[trigger] plan.stages[s].runs_at(t, id);
            assert(plan.stages[s].steps.len() == 0);
        }
    }
}

} // verus!
