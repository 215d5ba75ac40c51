//! Execution plans: stages of steps, each stage safe to run at once.

use vstd::prelude::*;
use crate::node::NodeId;

verus! {

/// The execution of one node within a plan.
#[derive(Debug)]
pub struct Step {
    /// The node to execute
    pub node_id: NodeId,
    /// The kernel to execute it in, from the node's language
    pub kernel_name: Option<String>,
    /// Whether the node is pure and runs on a fork of the kernel
    pub is_fork: bool,
    /// The nodes whose failure should keep this step from starting
    pub dependencies: Vec<NodeId>,
}

/// Steps that may run at the same time.
#[derive(Debug)]
pub struct Stage {
    pub steps: Vec<Step>,
}

/// Stages to run one after the other.
#[derive(Debug)]
pub struct Plan {
    pub stages: Vec<Stage>,
}

impl Stage {
    /// Step `t` of the stage executes node `id`.
    pub open spec fn runs_at(self, t: int, id: NodeId) -> bool {
        0 <= t < self.steps.len() && self.steps[t].node_id == id
    }

    /// Some step of the stage, from step `from` on, executes node `id`.
    pub open spec fn runs_from(self, from: int, id: NodeId) -> bool {
        exists|t: int| from <= t && #[trigger] self.runs_at(t, id)
    }

    /// Some step of the stage executes node `id`.
    pub open spec fn runs(self, id: NodeId) -> bool {
        self.runs_from(0, id)
    }

    /// Whether some step of the stage executes node `id`.
    pub fn has_node(&self, id: NodeId) -> (b: bool)
        ensures
            b == self.runs(id),
    {
        let mut t: usize = 0;
        while t < self.steps.len()
            invariant
                t <= self.steps.len(),
                forall|k: int| 0 <= k < t ==> !#[trigger] self.runs_at(k, id),
            decreases self.steps.len() - t,
        {
            if self.steps[t].node_id == id {
                assert(self.runs_at(t as int, id));
                return true;
            }
            t += 1;
        }
        false
    }
}

impl Plan {
    /// Stage `s` of the plan executes node `id`.
    pub open spec fn runs_in(self, s: int, id: NodeId) -> bool {
        0 <= s < self.stages.len() && self.stages[s].runs(id)
    }

    /// Some stage of the plan, from stage `from` on, executes node `id`.
    pub open spec fn runs_from(self, from: int, id: NodeId) -> bool {
        exists|s: int| from <= s && #[trigger] self.runs_in(s, id)
    }

    /// The plan executes node `id`.
    pub open spec fn runs(self, id: NodeId) -> bool {
        self.runs_from(0, id)
    }

    /// The plan has a step `t` in its stage `s`.
    pub open spec fn has_step(self, s: int, t: int) -> bool {
        0 <= s < self.stages.len() && 0 <= t < self.stages[s].steps.len()
    }

    /// The node that step `t` of stage `s` executes.
    pub open spec fn node_at(self, s: int, t: int) -> NodeId {
        self.stages[s].steps[t].node_id
    }

    /// No node is executed twice: neither by two steps of one stage nor in
    /// two stages.
    pub open spec fn each_node_once(self) -> bool {
        forall|s1: int, t1: int, s2: int, t2: int|
            self.has_step(s1, t1) && self.has_step(s2, t2) && #[trigger] self.node_at(s1, t1)
                == #[trigger] self.node_at(s2, t2) ==> s1 == s2 && t1 == t2
    }

    /// Whether the plan executes node `id`.
    pub fn has_node(&self, id: NodeId) -> (b: bool)
        ensures
            b == self.runs(id),
    {
        let mut s: usize = 0;
        while s < self.stages.len()
            invariant
                s <= self.stages.len(),
                forall|k: int| 0 <= k < s ==> !#[trigger] self.runs_in(k, id),
            decreases self.stages.len() - s,
        {
            if self.stages[s].has_node(id) {
                assert(self.runs_in(s as int, id));
                return true;
            }
            s += 1;
        }
        false
    }

    /// Whether the plan has no step at all.
    pub fn is_empty(&self) -> (b: bool)
        ensures
            b == (forall|s: int| 0 <= s < self.stages.len() ==> (#[trigger] self.stages[s]).steps.len() == 0),
    {
        let mut s: usize = 0;
        while s < self.stages.len()
            invariant
                s <= self.stages.len(),
                forall|k: int| 0 <= k < s ==> (#[trigger] self.stages[k]).steps.len() == 0,
            decreases self.stages.len() - s,
        {
            if self.stages[s].steps.len() > 0 {
                return false;
            }
            s += 1;
        }
        true
    }
}

} // verus!
