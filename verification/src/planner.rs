//! From the nodes of a document and their dependencies to a plan.
//!
//! The nodes to execute are those asked for and those that need it, as far
//! as their mode lets them be executed, and every node that depends on one
//! of them. They are laid out in stages: a node stands in the first stage
//! in which everything it depends on has been executed.

use vstd::prelude::*;
use crate::node::{contains_id, copy_ids, NodeId};
use crate::plan::{Plan, Stage, Step};
use crate::status::ExecutionRequired;

verus! {

/// Under which circumstances a node is executed.
#[derive(Clone, Copy, Debug, PartialEq, Eq, Structural)]
pub enum ExecutionMode {
    /// Whenever a plan is made
    Always,
    /// When asked for, or when it needs it
    Auto,
    /// Never
    Locked,
    /// When asked for, or when it needs it
    Need,
}

/// What the planner knows of an executable node.
#[derive(Debug)]
pub struct PlanNode {
    pub node_id: NodeId,
    /// The kernel for the language of the node
    pub kernel_name: Option<String>,
    /// Whether the code of the node has no side effect
    pub is_pure: bool,
    pub execution_mode: ExecutionMode,
    pub execution_required: ExecutionRequired,
    /// The nodes whose results this node uses
    pub dependencies: Vec<NodeId>,
}

impl PlanNode {
    /// The node is executed for its own sake: it is not locked, and it is
    /// asked for, needs it, or is executed always. Where no node is asked
    /// for, all are.
    pub open spec fn is_seed(self, requested: Seq<NodeId>) -> bool {
        !(self.execution_mode is Locked) && (requested.len() == 0 || requested.contains(
            self.node_id,
        ) || !(self.execution_required is No) || self.execution_mode is Always)
    }

    /// The node uses the results of the node `id`.
    pub open spec fn depends_on(self, id: NodeId) -> bool {
        self.dependencies@.contains(id)
    }
}

/// Node `i` uses the results of a node that `chosen` holds.
pub open spec fn follows_chosen(nodes: Seq<PlanNode>, chosen: Seq<bool>, i: int) -> bool {
    exists|j: int|
        0 <= j < nodes.len() && chosen[j] && #[trigger] nodes[i].depends_on(nodes[j].node_id)
}

/// The nodes to execute after `rounds` rounds: at first those executed for
/// their own sake, then in each round also the nodes, unless locked, that
/// use the results of a node of the round before.
pub open spec fn chosen_after(nodes: Seq<PlanNode>, requested: Seq<NodeId>, rounds: nat) -> Seq<
    bool,
>
    decreases rounds,
{
    if rounds == 0 {
        Seq::new(nodes.len(), |i: int| nodes[i].is_seed(requested))
    } else {
        let before = chosen_after(nodes, requested, (rounds - 1) as nat);
        Seq::new(
            nodes.len(),
            |i: int|
                before[i] || (!(nodes[i].execution_mode is Locked) && follows_chosen(
                    nodes,
                    before,
                    i,
                )),
        )
    }
}

/// The nodes to execute: those executed for their own sake, and every node
/// that, through any number of nodes, uses the results of one of them.
/// After as many rounds as there are nodes no round adds a node.
pub open spec fn chosen(nodes: Seq<PlanNode>, requested: Seq<NodeId>) -> Seq<bool> {
    chosen_after(nodes, requested, nodes.len())
}

/// Once a round adds no node, no later round does.
pub proof fn lemma_chosen_stable(nodes: Seq<PlanNode>, requested: Seq<NodeId>, k: nat, more: nat)
    requires
        chosen_after(nodes, requested, k + 1) == chosen_after(nodes, requested, k),
    ensures
        chosen_after(nodes, requested, k + more) == chosen_after(nodes, requested, k),
    decreases more,
{
    if more > 0 {
        lemma_chosen_stable(nodes, requested, k, (more - 1) as nat);
        let a = chosen_after(nodes, requested, (k + more - 1) as nat);
        assert(a == chosen_after(nodes, requested, k));
        assert(chosen_after(nodes, requested, k + more) =~= chosen_after(nodes, requested, k + 1));
    }
}

/// Whether `ids` holds `id`.
fn holds(ids: &Vec<NodeId>, id: NodeId) -> (b: bool)
    ensures
        b == ids@.contains(id),
{
    contains_id(ids, id)
}

/// Whether node `i` uses the results of a node that `chosen` holds.
fn follows(nodes: &Vec<PlanNode>, chosen: &Vec<bool>, i: usize) -> (b: bool)
    requires
        i < nodes.len(),
        chosen.len() == nodes.len(),
    ensures
        b == follows_chosen(nodes@, chosen@, i as int),
{
    let mut j: usize = 0;
    while j < nodes.len()
        invariant
            i < nodes.len(),
            chosen.len() == nodes.len(),
            j <= nodes.len(),
            forall|k: int|
                0 <= k < j ==> !(chosen@[k] && #[trigger] nodes@[i as int].depends_on(
                    nodes@[k].node_id,
                )),
        decreases nodes.len() - j,
    {
        if chosen[j] && holds(&nodes[i].dependencies, nodes[j].node_id) {
            assert(chosen@[j as int] && nodes@[i as int].depends_on(nodes@[j as int].node_id));
            return true;
        }
        j += 1;
    }
    false
}

/// Which nodes to execute.
pub fn choose_nodes(nodes: &Vec<PlanNode>, requested: &Vec<NodeId>) -> (picked: Vec<bool>)
    ensures
        picked@ == chosen(nodes@, requested@),
{
    let n = nodes.len();
    let mut picked: Vec<bool> = Vec::new();
    let mut i: usize = 0;
    while i < n
        invariant
            n == nodes.len(),
            i <= n,
            picked.len() == i,
            forall|k: int| 0 <= k < i ==> picked@[k] == (#[trigger] nodes@[k]).is_seed(requested@),
        decreases n - i,
    {
        let node = &nodes[i];
        let locked = match node.execution_mode {
            ExecutionMode::Locked => true,
            _ => false,
        };
        let needed = match node.execution_required {
            ExecutionRequired::No => false,
            _ => true,
        };
        let always = match node.execution_mode {
            ExecutionMode::Always => true,
            _ => false,
        };
        picked.push(
            !locked && (requested.len() == 0 || holds(requested, node.node_id) || needed || always),
        );
        i += 1;
    }
    assert(picked@ =~= chosen_after(nodes@, requested@, 0));
    let mut round: usize = 0;
    while round < n
        invariant
            n == nodes.len(),
            round <= n,
            picked.len() == n,
            picked@ == chosen_after(nodes@, requested@, round as nat),
        decreases n - round,
    {
        let mut next: Vec<bool> = Vec::new();
        let mut changed = false;
        let mut i: usize = 0;
        while i < n
            invariant
                n == nodes.len(),
                picked.len() == n,
                i <= n,
                next.len() == i,
                forall|k: int|
                    0 <= k < i ==> next@[k] == (picked@[k] || (!((
                    #[trigger] nodes@[k]).execution_mode is Locked) && follows_chosen(
                        nodes@,
                        picked@,
                        k,
                    ))),
                !changed ==> forall|k: int| 0 <= k < i ==> #[trigger] next@[k] == picked@[k],
            decreases n - i,
        {
            let locked = match nodes[i].execution_mode {
                ExecutionMode::Locked => true,
                _ => false,
            };
            let value = picked[i] || (!locked && follows(nodes, &picked, i));
            if value != picked[i] {
                changed = true;
            }
            next.push(value);
            assert(next@[i as int] == value);
            i += 1;
        }
        assert(next@ =~= chosen_after(nodes@, requested@, (round + 1) as nat));
        if !changed {
            proof {
                assert(next@ =~= picked@);
                lemma_chosen_stable(nodes@, requested@, round as nat, (n - round) as nat);
            }
            return picked;
        }
        picked = next;
        round += 1;
    }
    picked
}


/// Where the nodes stand in a plan.
#[derive(Debug)]
pub struct Layout {
    /// The stage of each node; none for a node that is not executed
    pub stage_of: Vec<Option<usize>>,
    /// Whether a node was put into its stage although a node it depends on
    /// had not been executed by then: it stands on a cycle of dependencies
    pub forced: Vec<bool>,
    /// The number of stages
    pub stages: usize,
}

/// Node `j` stands in a stage before stage `k`.
pub open spec fn placed_before(stage_of: Seq<Option<usize>>, j: int, k: int) -> bool {
    stage_of[j] matches Some(s) && s < k
}

/// Every node that node `i` depends on, of those to execute, stands in a
/// stage before stage `k`.
pub open spec fn is_ready(
    nodes: Seq<PlanNode>,
    picked: Seq<bool>,
    stage_of: Seq<Option<usize>>,
    k: int,
    i: int,
) -> bool {
    forall|j: int|
        0 <= j < nodes.len() && picked[j] && #[trigger] nodes[i].depends_on(nodes[j].node_id)
            ==> placed_before(stage_of, j, k)
}

/// Node `i` depends on a node that stands in stage `s`.
pub open spec fn follows_stage(
    nodes: Seq<PlanNode>,
    stage_of: Seq<Option<usize>>,
    i: int,
    s: int,
) -> bool {
    exists|j: int|
        0 <= j < nodes.len() && stage_of[j] == Some(s as usize) && #[trigger] nodes[i].depends_on(
            nodes[j].node_id,
        )
}

/// Node `i` depends on a node to execute that stands in no stage before
/// stage `k`.
pub open spec fn held_back(
    nodes: Seq<PlanNode>,
    picked: Seq<bool>,
    stage_of: Seq<Option<usize>>,
    k: int,
    i: int,
) -> bool {
    exists|j: int|
        0 <= j < nodes.len() && picked[j] && !placed_before(stage_of, j, k)
            && #[trigger] nodes[i].depends_on(nodes[j].node_id)
}

/// Some node stands in stage `s`.
pub open spec fn stage_used(stage_of: Seq<Option<usize>>, s: int) -> bool {
    exists|i: int| 0 <= i < stage_of.len() && #[trigger] stage_of[i] == Some(s as usize)
}

/// Node `i` was forced by the rule. When it got its stage no node could be
/// put into a stage: every node without a stage depended on a node without
/// a stage. Of those nodes it was the first in the order of the document,
/// and it stands alone in its stage.
pub open spec fn forced_by_rule(
    nodes: Seq<PlanNode>,
    picked: Seq<bool>,
    stage_of: Seq<Option<usize>>,
    i: int,
) -> bool {
    let k = stage_of[i]->0;
    &&& forall|m: int| 0 <= m < nodes.len() && m != i ==> #[trigger] stage_of[m] != Some(k)
    &&& forall|m: int|
        0 <= m < nodes.len() && picked[m] && !#[trigger] placed_before(stage_of, m, k as int)
            ==> held_back(nodes, picked, stage_of, k as int, m)
    &&& forall|m: int| 0 <= m < i && picked[m] ==> #[trigger] placed_before(stage_of, m, k as int)
}

/// The first `k` stages are laid out by the rules:
/// - the nodes in them are nodes to execute, and no stage is empty;
/// - a node stands after every node to execute that it depends on, unless
///   it was forced;
/// - a node that was not forced stands right after the last of the nodes
///   it depends on, and in the first stage if it depends on none;
/// - a node is forced only where no node can be put into a stage, and then
///   the first of the nodes without a stage, alone.
pub open spec fn laid_out(
    nodes: Seq<PlanNode>,
    picked: Seq<bool>,
    stage_of: Seq<Option<usize>>,
    forced: Seq<bool>,
    k: int,
) -> bool {
    &&& stage_of.len() == nodes.len()
    &&& forced.len() == nodes.len()
    &&& picked.len() == nodes.len()
    &&& forall|i: int|
        0 <= i < nodes.len() ==> (#[trigger] stage_of[i] matches Some(s) ==> s < k && picked[i])
    &&& forall|s: int| 0 <= s < k ==> #[trigger] stage_used(stage_of, s)
    &&& forall|i: int|
        0 <= i < nodes.len() && #[trigger] stage_of[i] is Some && !forced[i] ==> is_ready(
            nodes,
            picked,
            stage_of,
            stage_of[i]->0 as int,
            i,
        )
    &&& forall|i: int|
        0 <= i < nodes.len() && #[trigger] stage_of[i] is Some && !forced[i] && stage_of[i]->0 > 0
            ==> follows_stage(nodes, stage_of, i, stage_of[i]->0 - 1)
    &&& forall|i: int|
        0 <= i < nodes.len() && #[trigger] forced[i] ==> stage_of[i] is Some && forced_by_rule(
            nodes,
            picked,
            stage_of,
            i,
        )
}

/// The nodes to execute are all laid out in `k` stages.
pub open spec fn fully_laid_out(
    nodes: Seq<PlanNode>,
    picked: Seq<bool>,
    stage_of: Seq<Option<usize>>,
    forced: Seq<bool>,
    k: int,
) -> bool {
    &&& laid_out(nodes, picked, stage_of, forced, k)
    &&& forall|i: int| 0 <= i < nodes.len() && picked[i] ==> (#[trigger] stage_of[i]) is Some
}

/// The number of nodes to execute that have no stage yet.
pub open spec fn waiting(picked: Seq<bool>, stage_of: Seq<Option<usize>>) -> nat
    decreases picked.len(),
{
    if picked.len() == 0 || stage_of.len() != picked.len() {
        0
    } else {
        waiting(picked.drop_last(), stage_of.drop_last()) + if picked.last()
            && stage_of.last() is None {
            1nat
        } else {
            0nat
        }
    }
}

/// Giving a waiting node a stage leaves one node less waiting.
pub proof fn lemma_waiting_less(picked: Seq<bool>, stage_of: Seq<Option<usize>>, i: int, s: usize)
    requires
        stage_of.len() == picked.len(),
        0 <= i < picked.len(),
        picked[i],
        stage_of[i] is None,
    ensures
        waiting(picked, stage_of.update(i, Some(s))) + 1 == waiting(picked, stage_of),
    decreases picked.len(),
{
    let after = stage_of.update(i, Some(s));
    if i == picked.len() - 1 {
        assert(after.drop_last() =~= stage_of.drop_last());
    } else {
        assert(after.drop_last() =~= stage_of.drop_last().update(i, Some(s)));
        lemma_waiting_less(picked.drop_last(), stage_of.drop_last(), i, s);
    }
}

/// Where no node waits, every node to execute has a stage.
pub proof fn lemma_waiting_none(picked: Seq<bool>, stage_of: Seq<Option<usize>>)
    requires
        stage_of.len() == picked.len(),
    ensures
        waiting(picked, stage_of) == 0 <==> (forall|i: int|
            0 <= i < picked.len() && picked[i] ==> (#[trigger] stage_of[i]) is Some),
    decreases picked.len(),
{
    if picked.len() > 0 {
        lemma_waiting_none(picked.drop_last(), stage_of.drop_last());
        if waiting(picked, stage_of) == 0 {
            assert forall|i: int| 0 <= i < picked.len() && picked[i] implies (
            #[trigger] stage_of[i]) is Some by {
                if i < picked.len() - 1 {
                    assert(picked.drop_last()[i]);
                    assert(stage_of.drop_last()[i] is Some);
                }
            }
        } else {
            if waiting(picked.drop_last(), stage_of.drop_last()) != 0 {
                let i = choose|i: int|
                    0 <= i < picked.drop_last().len() && picked.drop_last()[i] && !((
                    #[trigger] stage_of.drop_last()[i]) is Some);
                assert(picked[i] && !(stage_of[i] is Some));
            } else {
                assert(picked[picked.len() - 1] && !(stage_of[picked.len() - 1] is Some));
            }
        }
    }
}

/// Whether every node that node `i` depends on, of those to execute,
/// stands in a stage before stage `k`.
fn ready(
    nodes: &Vec<PlanNode>,
    picked: &Vec<bool>,
    stage_of: &Vec<Option<usize>>,
    k: usize,
    i: usize,
) -> (b: bool)
    requires
        i < nodes.len(),
        picked.len() == nodes.len(),
        stage_of.len() == nodes.len(),
    ensures
        b == is_ready(nodes@, picked@, stage_of@, k as int, i as int),
        !b ==> held_back(nodes@, picked@, stage_of@, k as int, i as int),
{
    let mut j: usize = 0;
    while j < nodes.len()
        invariant
            i < nodes.len(),
            picked.len() == nodes.len(),
            stage_of.len() == nodes.len(),
            j <= nodes.len(),
            forall|m: int|
                0 <= m < j && picked@[m] && #[trigger] nodes@[i as int].depends_on(
                    nodes@[m].node_id,
                ) ==> placed_before(stage_of@, m, k as int),
        decreases nodes.len() - j,
    {
        if picked[j] {
            let placed = match stage_of[j] {
                Some(s) => s < k,
                None => false,
            };
            if !placed && holds(&nodes[i].dependencies, nodes[j].node_id) {
                assert(nodes@[i as int].depends_on(nodes@[j as int].node_id));
                return false;
            }
        }
        j += 1;
    }
    true
}


/// The stages `after` are the stages `before` with some nodes that had no
/// stage put into stage `k`.
pub open spec fn grown(before: Seq<Option<usize>>, after: Seq<Option<usize>>, k: usize) -> bool {
    &&& after.len() == before.len()
    &&& forall|m: int|
        0 <= m < before.len() ==> #[trigger] after[m] == before[m] || (before[m] is None
            && after[m] == Some(k))
}

/// What holds of the stages before stage `k` is not changed by putting
/// nodes into stage `k` or later.
pub proof fn lemma_grown(
    nodes: Seq<PlanNode>,
    picked: Seq<bool>,
    before: Seq<Option<usize>>,
    after: Seq<Option<usize>>,
    k: usize,
    s: int,
    i: int,
)
    requires
        grown(before, after, k),
        before.len() == nodes.len(),
        0 <= s <= k,
        0 <= i < nodes.len(),
    ensures
        is_ready(nodes, picked, before, s, i) == is_ready(nodes, picked, after, s, i),
        held_back(nodes, picked, before, s, i) == held_back(nodes, picked, after, s, i),
        s < k ==> (follows_stage(nodes, before, i, s) ==> follows_stage(nodes, after, i, s)),
        s < k ==> (stage_used(before, s) ==> stage_used(after, s)),
{
    assert forall|j: int| 0 <= j < nodes.len() implies #[trigger] placed_before(before, j, s)
        == placed_before(after, j, s) by {
        assert(after[j] == before[j] || (before[j] is None && after[j] == Some(k)));
    }
    if held_back(nodes, picked, before, s, i) {
        let j = choose|j: int|
            0 <= j < nodes.len() && picked[j] && !placed_before(before, j, s)
                && #[trigger] nodes[i].depends_on(nodes[j].node_id);
        assert(!placed_before(after, j, s));
    }
    if held_back(nodes, picked, after, s, i) {
        let j = choose|j: int|
            0 <= j < nodes.len() && picked[j] && !placed_before(after, j, s)
                && #[trigger] nodes[i].depends_on(nodes[j].node_id);
        assert(!placed_before(before, j, s));
    }
    if s < k && follows_stage(nodes, before, i, s) {
        let j = choose|j: int|
            0 <= j < nodes.len() && before[j] == Some(s as usize) && #[trigger] nodes[i].depends_on(
                nodes[j].node_id,
            );
        assert(after[j] == before[j] || (before[j] is None && after[j] == Some(k)));
    }
    if s < k && stage_used(before, s) {
        let m = choose|m: int| 0 <= m < before.len() && #[trigger] before[m] == Some(s as usize);
        assert(after[m] == before[m] || (before[m] is None && after[m] == Some(k)));
        assert(after[m] == Some(s as usize));
    }
}

/// No more nodes wait than there are nodes.
pub proof fn lemma_waiting_bound(picked: Seq<bool>, stage_of: Seq<Option<usize>>)
    ensures
        waiting(picked, stage_of) <= picked.len(),
    decreases picked.len(),
{
    if picked.len() > 0 && stage_of.len() == picked.len() {
        lemma_waiting_bound(picked.drop_last(), stage_of.drop_last());
    }
}

/// Every node to execute that has no stage depends on a node to execute
/// that stands in no stage before stage `k`.
pub open spec fn all_held_back(
    nodes: Seq<PlanNode>,
    picked: Seq<bool>,
    stage_of: Seq<Option<usize>>,
    k: int,
) -> bool {
    forall|m: int|
        0 <= m < nodes.len() && picked[m] && (#[trigger] stage_of[m]) is None ==> held_back(
            nodes,
            picked,
            stage_of,
            k,
            m,
        )
}

/// A stage added by the rules leaves the stages laid out by the rules.
pub proof fn lemma_stage_added(
    nodes: Seq<PlanNode>,
    picked: Seq<bool>,
    before: Seq<Option<usize>>,
    after: Seq<Option<usize>>,
    forced_before: Seq<bool>,
    forced_after: Seq<bool>,
    k: usize,
)
    requires
        laid_out(nodes, picked, before, forced_before, k as int),
        k > 0 ==> all_held_back(nodes, picked, before, k - 1),
        grown(before, after, k),
        stage_used(after, k as int),
        forced_after.len() == nodes.len(),
        forall|m: int|
            0 <= m < nodes.len() && #[trigger] after[m] == before[m] ==> forced_after[m]
                == forced_before[m],
        forall|m: int|
            0 <= m < nodes.len() && #[trigger] after[m] != before[m] ==> picked[m] && if forced_after[m] {
                held_back(nodes, picked, before, k as int, m)
            } else {
                is_ready(nodes, picked, before, k as int, m)
            },
        forall|m: int|
            0 <= m < nodes.len() && picked[m] && (#[trigger] after[m]) is None ==> held_back(
                nodes,
                picked,
                before,
                k as int,
                m,
            ),
        forall|m: int|
            0 <= m < nodes.len() && #[trigger] after[m] != before[m] && forced_after[m] ==> after
                == before.update(m, Some(k)) && forall|w: int|
                0 <= w < m && picked[w] ==> (#[trigger] before[w]) is Some,
    ensures
        laid_out(nodes, picked, after, forced_after, k + 1),
        all_held_back(nodes, picked, after, k as int),
{
    let n = nodes.len() as int;
    assert forall|m: int| 0 <= m < n implies (#[trigger] after[m] matches Some(s) ==> s < k + 1
        && picked[m]) by {
        assert(after[m] == before[m] || (before[m] is None && after[m] == Some(k)));
        assert(before[m] matches Some(s) ==> s < k && picked[m]);
    }
    assert forall|s: int| 0 <= s < k + 1 implies #[trigger] stage_used(after, s) by {
        if s < k {
            assert(stage_used(before, s));
            lemma_grown(nodes, picked, before, after, k, s, 0);
        }
    }
    assert forall|m: int|
        0 <= m < n && #[trigger] after[m] is Some && !forced_after[m] implies is_ready(
        nodes,
        picked,
        after,
        after[m]->0 as int,
        m,
    ) by {
        assert(after[m] == before[m] || (before[m] is None && after[m] == Some(k)));
        if after[m] == before[m] {
            assert(before[m] is Some && !forced_before[m]);
            lemma_grown(nodes, picked, before, after, k, before[m]->0 as int, m);
        } else {
            lemma_grown(nodes, picked, before, after, k, k as int, m);
        }
    }
    assert forall|m: int|
        0 <= m < n && #[trigger] after[m] is Some && !forced_after[m] && after[m]->0
            > 0 implies follows_stage(nodes, after, m, after[m]->0 - 1) by {
        assert(after[m] == before[m] || (before[m] is None && after[m] == Some(k)));
        if after[m] == before[m] {
            assert(before[m] is Some && !forced_before[m]);
            lemma_grown(nodes, picked, before, after, k, before[m]->0 - 1, m);
        } else {
            // the node waited through the stage before, held back by a node
            // that has its stage now
            assert(held_back(nodes, picked, before, k - 1, m));
            let j = choose|j: int|
                0 <= j < n && picked[j] && !placed_before(before, j, k - 1)
                    && #[trigger] nodes[m].depends_on(nodes[j].node_id);
            assert(is_ready(nodes, picked, before, k as int, m));
            assert(placed_before(before, j, k as int));
            assert(before[j] == Some((k - 1) as usize));
            assert(after[j] == before[j] || (before[j] is None && after[j] == Some(k)));
        }
    }
    assert forall|m: int| 0 <= m < n && #[trigger] forced_after[m] implies after[m] is Some
        && forced_by_rule(nodes, picked, after, m) by {
        assert(after[m] == before[m] || (before[m] is None && after[m] == Some(k)));
        if after[m] == before[m] {
            assert(forced_before[m]);
            assert(forced_by_rule(nodes, picked, before, m));
            let at = before[m]->0;
            assert forall|w: int| 0 <= w < n && w != m implies #[trigger] after[w] != Some(at) by {
                assert(after[w] == before[w] || (before[w] is None && after[w] == Some(k)));
                assert(before[w] != Some(at));
            }
            assert forall|w: int|
                0 <= w < n && picked[w] && !#[trigger] placed_before(
                    after,
                    w,
                    at as int,
                ) implies held_back(nodes, picked, after, at as int, w) by {
                lemma_grown(nodes, picked, before, after, k, at as int, w);
                assert(after[w] == before[w] || (before[w] is None && after[w] == Some(k)));
                assert(!placed_before(before, w, at as int));
            }
            assert forall|w: int| 0 <= w < m && picked[w] implies #[trigger] placed_before(
                after,
                w,
                at as int,
            ) by {
                assert(placed_before(before, w, at as int));
                assert(after[w] == before[w] || (before[w] is None && after[w] == Some(k)));
            }
        } else {
            assert(after == before.update(m, Some(k)));
            assert forall|w: int| 0 <= w < n && w != m implies #[trigger] after[w] != Some(k) by {
                assert(after[w] == before[w]);
                assert(before[w] matches Some(s) ==> s < k);
            }
            assert forall|w: int|
                0 <= w < n && picked[w] && !#[trigger] placed_before(
                    after,
                    w,
                    k as int,
                ) implies held_back(nodes, picked, after, k as int, w) by {
                lemma_grown(nodes, picked, before, after, k, k as int, w);
                if w != m {
                    assert(after[w] == before[w]);
                    assert(before[w] matches Some(s) ==> s < k);
                    assert(after[w] is None);
                }
            }
            assert forall|w: int| 0 <= w < m && picked[w] implies #[trigger] placed_before(
                after,
                w,
                k as int,
            ) by {
                assert(before[w] is Some);
                assert(before[w] matches Some(s) ==> s < k);
                assert(after[w] == before[w]);
            }
        }
    }
    assert forall|m: int| 0 <= m < n && picked[m] && (#[trigger] after[m]) is None implies held_back(
        nodes,
        picked,
        after,
        k as int,
        m,
    ) by {
        lemma_grown(nodes, picked, before, after, k, k as int, m);
    }
}

/// Put every waiting node that depends on no waiting node into stage `k`,
/// and say how many there were.
fn place_ready(
    nodes: &Vec<PlanNode>,
    picked: &Vec<bool>,
    stage_of: &mut Vec<Option<usize>>,
    k: usize,
) -> (placed: usize)
    requires
        picked.len() == nodes.len(),
        old(stage_of).len() == nodes.len(),
    ensures
        grown(old(stage_of)@, final(stage_of)@, k),
        forall|m: int|
            0 <= m < nodes.len() && #[trigger] final(stage_of)@[m] != old(stage_of)@[m] ==> picked@[m]
                && is_ready(nodes@, picked@, old(stage_of)@, k as int, m),
        forall|m: int|
            0 <= m < nodes.len() && picked@[m] && (#[trigger] final(stage_of)@[m]) is None
                ==> held_back(nodes@, picked@, old(stage_of)@, k as int, m),
        waiting(picked@, final(stage_of)@) + placed == waiting(picked@, old(stage_of)@),
        placed > 0 ==> stage_used(final(stage_of)@, k as int),
        placed == 0 ==> final(stage_of)@ == old(stage_of)@,
{
    let n = nodes.len();
    let ghost before = stage_of@;
    let mut placed: usize = 0;
    let mut i: usize = 0;
    proof {
        lemma_waiting_bound(picked@, before);
    }
    while i < n
        invariant
            n == nodes.len(),
            picked.len() == n,
            before.len() == n,
            i <= n,
            grown(before, stage_of@, k),
            forall|m: int|
                0 <= m < n && #[trigger] stage_of@[m] != before[m] ==> m < i && picked@[m]
                    && is_ready(nodes@, picked@, before, k as int, m),
            forall|m: int|
                0 <= m < i && picked@[m] && (#[trigger] stage_of@[m]) is None ==> held_back(
                    nodes@,
                    picked@,
                    before,
                    k as int,
                    m,
                ),
            waiting(picked@, stage_of@) + placed == waiting(picked@, before),
            waiting(picked@, before) <= n,
            placed > 0 ==> stage_used(stage_of@, k as int),
            placed == 0 ==> stage_of@ == before,
        decreases n - i,
    {
        if picked[i] && stage_of[i].is_none() {
            let is = ready(nodes, picked, stage_of, k, i);
            proof {
                lemma_grown(nodes@, picked@, before, stage_of@, k, k as int, i as int);
            }
            if is {
                proof {
                    lemma_waiting_less(picked@, stage_of@, i as int, k);
                }
                stage_of[i] = Some(k);
                placed += 1;
                assert(stage_of@[i as int] == Some(k));
            }
        }
        i += 1;
    }
    placed
}

/// Force the first waiting node, in the order of the document, into
/// stage `k`.
fn force_first(
    picked: &Vec<bool>,
    stage_of: &mut Vec<Option<usize>>,
    forced: &mut Vec<bool>,
    k: usize,
) -> (first: usize)
    requires
        old(stage_of).len() == picked.len(),
        old(forced).len() == picked.len(),
        waiting(picked@, old(stage_of)@) > 0,
    ensures
        first < picked.len(),
        picked@[first as int],
        old(stage_of)@[first as int] is None,
        forall|m: int| 0 <= m < first ==> !(picked@[m] && (#[trigger] old(stage_of)@[m]) is None),
        final(stage_of)@ == old(stage_of)@.update(first as int, Some(k)),
        final(forced)@ == old(forced)@.update(first as int, true),
        waiting(picked@, final(stage_of)@) + 1 == waiting(picked@, old(stage_of)@),
{
    let n = picked.len();
    proof {
        lemma_waiting_none(picked@, stage_of@);
    }
    let mut first: usize = 0;
    while first < n && !(picked[first] && stage_of[first].is_none())
        invariant
            n == picked.len(),
            stage_of.len() == n,
            stage_of@ == old(stage_of)@,
            first <= n,
            forall|m: int| 0 <= m < first ==> !(picked@[m] && (#[trigger] stage_of@[m]) is None),
            exists|m: int| 0 <= m < n && picked@[m] && !((#[trigger] stage_of@[m]) is Some),
        decreases n - first,
    {
        first += 1;
    }
    proof {
        lemma_waiting_less(picked@, stage_of@, first as int, k);
    }
    stage_of[first] = Some(k);
    forced[first] = true;
    first
}

/// Lay the nodes to execute out in stages.
///
/// Stage by stage, every node that waits and depends on no node that still
/// waits is put into the stage. Where nodes wait but each depends on a
/// waiting node, they stand on a cycle of dependencies: the first of them,
/// in the order of the document, is forced into a stage of its own.
pub fn lay_out(nodes: &Vec<PlanNode>, picked: &Vec<bool>) -> (layout: Layout)
    requires
        picked.len() == nodes.len(),
    ensures
        fully_laid_out(nodes@, picked@, layout.stage_of@, layout.forced@, layout.stages as int),
        layout.stages <= nodes.len(),
{
    let n = nodes.len();
    let mut stage_of: Vec<Option<usize>> = Vec::new();
    let mut forced: Vec<bool> = Vec::new();
    let mut i: usize = 0;
    while i < n
        invariant
            n == nodes.len(),
            i <= n,
            stage_of.len() == i,
            forced.len() == i,
            forall|m: int| 0 <= m < i ==> (#[trigger] stage_of@[m]) is None,
            forall|m: int| 0 <= m < i ==> !#[trigger] forced@[m],
        decreases n - i,
    {
        stage_of.push(None);
        forced.push(false);
        i += 1;
    }
    proof {
        lemma_waiting_bound(picked@, stage_of@);
    }
    let mut k: usize = 0;
    loop
        invariant
            n == nodes.len(),
            picked.len() == n,
            laid_out(nodes@, picked@, stage_of@, forced@, k as int),
            k + waiting(picked@, stage_of@) <= n,
            k > 0 ==> all_held_back(nodes@, picked@, stage_of@, k - 1),
        ensures
            fully_laid_out(nodes@, picked@, stage_of@, forced@, k as int),
            k <= n,
        decreases waiting(picked@, stage_of@),
    {
        let ghost before = stage_of@;
        let ghost forced_before = forced@;
        let placed = place_ready(nodes, picked, &mut stage_of, k);
        if placed == 0 {
            proof {
                lemma_waiting_none(picked@, stage_of@);
            }
            // either no node waits, or every waiting node depends on a waiting one
            let mut waits = false;
            let mut m: usize = 0;
            while m < n
                invariant
                    n == picked.len(),
                    stage_of.len() == n,
                    m <= n,
                    !waits ==> forall|w: int|
                        0 <= w < m ==> !(picked@[w] && (#[trigger] stage_of@[w]) is None),
                    waits ==> waiting(picked@, stage_of@) > 0,
                decreases n - m,
            {
                if picked[m] && stage_of[m].is_none() {
                    proof {
                        lemma_waiting_none(picked@, stage_of@);
                    }
                    waits = true;
                }
                m += 1;
            }
            if !waits {
                proof {
                    lemma_waiting_none(picked@, stage_of@);
                }
                break ;
            }
            let first = force_first(picked, &mut stage_of, &mut forced, k);
            proof {
                assert(stage_of@[first as int] == Some(k));
                assert(stage_used(stage_of@, k as int));
            }
        }
        proof {
            lemma_stage_added(nodes@, picked@, before, stage_of@, forced_before, forced@, k);
        }
        k += 1;
    }
    Layout { stage_of, forced, stages: k }
}


/// The nodes that stand in stage `s`, of the first `upto` nodes, in the
/// order of the document.
pub open spec fn members(stage_of: Seq<Option<usize>>, s: usize, upto: int) -> Seq<int>
    decreases upto,
{
    if upto <= 0 {
        Seq::empty()
    } else {
        let before = members(stage_of, s, upto - 1);
        if stage_of[upto - 1] == Some(s) {
            before.push(upto - 1)
        } else {
            before
        }
    }
}

/// The members of a stage are the nodes that stand in it, each once, in
/// the order of the document.
pub proof fn lemma_members(stage_of: Seq<Option<usize>>, s: usize, upto: int)
    requires
        0 <= upto <= stage_of.len(),
    ensures
        forall|t: int|
            0 <= t < members(stage_of, s, upto).len() ==> 0 <= (#[trigger] members(
                stage_of,
                s,
                upto,
            )[t]) < upto && stage_of[members(stage_of, s, upto)[t]] == Some(s),
        forall|t: int, u: int|
            0 <= t < u < members(stage_of, s, upto).len() ==> (#[trigger] members(
                stage_of,
                s,
                upto,
            )[t]) < (#[trigger] members(stage_of, s, upto)[u]),
        forall|i: int|
            0 <= i < upto && #[trigger] stage_of[i] == Some(s) ==> members(
                stage_of,
                s,
                upto,
            ).contains(i),
    decreases upto,
{
    if upto > 0 {
        lemma_members(stage_of, s, upto - 1);
        let before = members(stage_of, s, upto - 1);
        let all = members(stage_of, s, upto);
        assert forall|i: int| 0 <= i < upto && #[trigger] stage_of[i] == Some(s) implies all.contains(
            i,
        ) by {
            if i < upto - 1 {
                let t = choose|t: int| 0 <= t < before.len() && before[t] == i;
                assert(all[t] == i);
            } else {
                assert(all[all.len() - 1] == i);
            }
        }
    }
}

/// The step is the execution of the node.
pub open spec fn step_for(step: Step, node: PlanNode) -> bool {
    &&& step.node_id == node.node_id
    &&& step.kernel_name == node.kernel_name
    &&& step.is_fork == node.is_pure
    &&& step.dependencies@ == node.dependencies@
}

/// The stage holds a step for each node that stands in stage `s`, in the
/// order of the document.
pub open spec fn stage_built(
    stage: Stage,
    nodes: Seq<PlanNode>,
    stage_of: Seq<Option<usize>>,
    s: usize,
) -> bool {
    let inside = members(stage_of, s, nodes.len() as int);
    &&& stage.steps.len() == inside.len()
    &&& forall|t: int|
        0 <= t < inside.len() ==> step_for(#[trigger] stage.steps[t], nodes[inside[t]])
}

/// The plan holds the stages of the layout.
pub open spec fn built(plan: Plan, nodes: Seq<PlanNode>, stage_of: Seq<Option<usize>>, count: int) -> bool {
    &&& plan.stages.len() == count
    &&& forall|s: int|
        0 <= s < count ==> stage_built(#[trigger] plan.stages[s], nodes, stage_of, s as usize)
}

/// No two nodes have the same id.
pub open spec fn distinct(nodes: Seq<PlanNode>) -> bool {
    forall|i: int, j: int|
        0 <= i < nodes.len() && 0 <= j < nodes.len() && (#[trigger] nodes[i]).node_id == (
        #[trigger] nodes[j]).node_id ==> i == j
}

/// A plan built from a layout of nodes with distinct ids executes no node
/// twice, and executes exactly the nodes that have a stage.
pub proof fn lemma_built_once(
    plan: Plan,
    nodes: Seq<PlanNode>,
    stage_of: Seq<Option<usize>>,
    count: int,
)
    requires
        distinct(nodes),
        stage_of.len() == nodes.len(),
        built(plan, nodes, stage_of, count),
    ensures
        plan.each_node_once(),
        forall|i: int|
            0 <= i < nodes.len() && (#[trigger] stage_of[i] matches Some(s) && s < count)
                ==> plan.runs_in(stage_of[i]->0 as int, nodes[i].node_id),
{
    let n = nodes.len() as int;
    assert forall|s1: int, t1: int, s2: int, t2: int|
        plan.has_step(s1, t1) && plan.has_step(s2, t2) && #[trigger] plan.node_at(s1, t1)
            == #[trigger] plan.node_at(s2, t2) implies s1 == s2 && t1 == t2 by {
        lemma_members(stage_of, s1 as usize, n);
        lemma_members(stage_of, s2 as usize, n);
        assert(stage_built(plan.stages[s1], nodes, stage_of, s1 as usize));
        assert(stage_built(plan.stages[s2], nodes, stage_of, s2 as usize));
        let i1 = members(stage_of, s1 as usize, n)[t1];
        let i2 = members(stage_of, s2 as usize, n)[t2];
        assert(step_for(plan.stages[s1].steps[t1], nodes[i1]));
        assert(step_for(plan.stages[s2].steps[t2], nodes[i2]));
        assert(nodes[i1].node_id == nodes[i2].node_id);
        assert(i1 == i2);
        if t1 < t2 {
            assert(members(stage_of, s1 as usize, n)[t1] < members(stage_of, s1 as usize, n)[t2]);
        }
        if t2 < t1 {
            assert(members(stage_of, s1 as usize, n)[t2] < members(stage_of, s1 as usize, n)[t1]);
        }
    }
    assert forall|i: int|
        0 <= i < n && (#[trigger] stage_of[i] matches Some(s) && s < count) implies plan.runs_in(
        stage_of[i]->0 as int,
        nodes[i].node_id,
    ) by {
        let s = stage_of[i]->0;
        lemma_members(stage_of, s, n);
        assert(stage_built(plan.stages[s as int], nodes, stage_of, s));
        let inside = members(stage_of, s, n);
        let t = choose|t: int| 0 <= t < inside.len() && inside[t] == i;
        assert(step_for(plan.stages[s as int].steps[t], nodes[i]));
        assert(plan.stages[s as int].runs_at(t, nodes[i].node_id));
    }
}

/// The plan of a layout: for each stage the steps of the nodes that stand
/// in it, in the order of the document.
pub fn build(nodes: &Vec<PlanNode>, layout: &Layout) -> (plan: Plan)
    requires
        layout.stage_of.len() == nodes.len(),
    ensures
        built(plan, nodes@, layout.stage_of@, layout.stages as int),
{
    let n = nodes.len();
    let mut stages: Vec<Stage> = Vec::new();
    let mut s: usize = 0;
    while s < layout.stages
        invariant
            n == nodes.len(),
            layout.stage_of.len() == n,
            s <= layout.stages,
            stages.len() == s,
            forall|r: int|
                0 <= r < s ==> stage_built(
                    #[trigger] stages@[r],
                    nodes@,
                    layout.stage_of@,
                    r as usize,
                ),
        decreases layout.stages - s,
    {
        let mut steps: Vec<Step> = Vec::new();
        let mut i: usize = 0;
        while i < n
            invariant
                n == nodes.len(),
                layout.stage_of.len() == n,
                i <= n,
                steps.len() == members(layout.stage_of@, s, i as int).len(),
                forall|t: int|
                    0 <= t < steps.len() ==> step_for(
                        #[trigger] steps@[t],
                        nodes@[members(layout.stage_of@, s, i as int)[t]],
                    ),
            decreases n - i,
        {
            let here = match layout.stage_of[i] {
                Some(stage) => stage == s,
                None => false,
            };
            if here {
                let node = &nodes[i];
                let kernel_name = match &node.kernel_name {
                    Some(name) => Some(name.clone()),
                    None => None,
                };
                let step = Step {
                    node_id: node.node_id,
                    kernel_name,
                    is_fork: node.is_pure,
                    dependencies: copy_ids(&node.dependencies),
                };
                steps.push(step);
            }
            i += 1;
        }
        stages.push(Stage { steps });
        s += 1;
    }
    Plan { stages }
}

/// What the planner gives: the plan, and where each node stands in it.
#[derive(Debug)]
pub struct Planned {
    pub plan: Plan,
    pub layout: Layout,
}

/// Two nodes have the same id.
#[derive(Clone, Copy, Debug, PartialEq, Eq, Structural)]
pub struct DuplicateNode {
    pub node_id: NodeId,
}

/// The first node, in the order of the document, whose id a later node
/// has too.
fn first_duplicate(nodes: &Vec<PlanNode>) -> (found: Option<NodeId>)
    ensures
        match found {
            Some(id) => exists|i: int, j: int|
                0 <= i < j < nodes.len() && (#[trigger] nodes@[i]).node_id == id && (
                #[trigger] nodes@[j]).node_id == id,
            None => distinct(nodes@),
        },
{
    let n = nodes.len();
    let mut i: usize = 0;
    while i < n
        invariant
            n == nodes.len(),
            i <= n,
            forall|a: int, b: int|
                0 <= a < i && a < b < n ==> (#[trigger] nodes@[a]).node_id != (
                #[trigger] nodes@[b]).node_id,
        decreases n - i,
    {
        let mut j: usize = i + 1;
        while j < n
            invariant
                n == nodes.len(),
                i < n,
                i < j <= n,
                forall|b: int| i < b < j ==> nodes@[i as int].node_id != (#[trigger] nodes@[b]).node_id,
            decreases n - j,
        {
            if nodes[i].node_id == nodes[j].node_id {
                return Some(nodes[i].node_id);
            }
            j += 1;
        }
        i += 1;
    }
    proof {
        assert forall|a: int, b: int|
            0 <= a < n && 0 <= b < n && (#[trigger] nodes@[a]).node_id == (
            #[trigger] nodes@[b]).node_id implies a == b by {
            if a < b {
                assert(nodes@[a].node_id != nodes@[b].node_id);
            }
            if b < a {
                assert(nodes@[b].node_id != nodes@[a].node_id);
            }
        }
    }
    None
}

/// Make the plan for the nodes of a document, given in the order of the
/// document, and the nodes asked for; none asked for means all.
///
/// The nodes to execute are those of `chosen`. They are laid out by the
/// rules of `laid_out`, and the plan holds a step for each, stage by stage.
/// There is no plan where two nodes have the same id.
pub fn plan(nodes: &Vec<PlanNode>, requested: &Vec<NodeId>) -> (planned: Result<
    Planned,
    DuplicateNode,
>)
    ensures
        match planned {
            Ok(planned) => {
                &&& distinct(nodes@)
                &&& fully_laid_out(
                    nodes@,
                    chosen(nodes@, requested@),
                    planned.layout.stage_of@,
                    planned.layout.forced@,
                    planned.layout.stages as int,
                )
                &&& built(
                    planned.plan,
                    nodes@,
                    planned.layout.stage_of@,
                    planned.layout.stages as int,
                )
                &&& planned.plan.each_node_once()
            },
            Err(duplicate) => exists|i: int, j: int|
                0 <= i < j < nodes.len() && (#[trigger] nodes@[i]).node_id == duplicate.node_id && (
                #[trigger] nodes@[j]).node_id == duplicate.node_id,
        },
{
    match first_duplicate(nodes) {
        Some(node_id) => Err(DuplicateNode { node_id }),
        None => {
            let picked = choose_nodes(nodes, requested);
            let layout = lay_out(nodes, &picked);
            let plan = build(nodes, &layout);
            proof {
                lemma_built_once(plan, nodes@, layout.stage_of@, layout.stages as int);
            }
            Ok(Planned { plan, layout })
        },
    }
}

/// In a layout, a node that was not forced stands in a later stage than
/// each node to execute that it depends on.
pub proof fn lemma_dependencies_first(
    nodes: Seq<PlanNode>,
    picked: Seq<bool>,
    stage_of: Seq<Option<usize>>,
    forced: Seq<bool>,
    count: int,
    i: int,
    j: int,
)
    requires
        fully_laid_out(nodes, picked, stage_of, forced, count),
        0 <= i < nodes.len(),
        0 <= j < nodes.len(),
        picked[i],
        picked[j],
        !forced[i],
        nodes[i].depends_on(nodes[j].node_id),
    ensures
        stage_of[i] is Some,
        stage_of[j] is Some,
        stage_of[j]->0 < stage_of[i]->0,
{
    assert(stage_of[i] is Some);
    assert(is_ready(nodes, picked, stage_of, stage_of[i]->0 as int, i));
    assert(placed_before(stage_of, j, stage_of[i]->0 as int));
}

/// The layout of a single node that is to be executed and depends on
/// nothing is one stage, in which the node stands.
pub proof fn lemma_single_node(
    nodes: Seq<PlanNode>,
    picked: Seq<bool>,
    stage_of: Seq<Option<usize>>,
    forced: Seq<bool>,
    count: int,
)
    requires
        nodes.len() == 1,
        picked[0],
        fully_laid_out(nodes, picked, stage_of, forced, count),
    ensures
        count == 1,
        stage_of[0] == Some(0usize),
        members(stage_of, 0, 1) == seq![0int],
{
    assert(stage_of[0] is Some);
    let s = stage_of[0]->0;
    assert(s < count);
    assert(stage_used(stage_of, 0));
    if count > 1 {
        assert(stage_used(stage_of, 1));
    }
    assert(members(stage_of, 0, 0) =~= Seq::<int>::empty());
    assert(members(stage_of, 0, 1) =~= seq![0int]);
}

/// The plan of a single node that is to be executed is one stage of one
/// step, that of the node.
pub proof fn lemma_single_node_plan(
    nodes: Seq<PlanNode>,
    picked: Seq<bool>,
    stage_of: Seq<Option<usize>>,
    forced: Seq<bool>,
    count: int,
    plan: Plan,
)
    requires
        nodes.len() == 1,
        picked[0],
        fully_laid_out(nodes, picked, stage_of, forced, count),
        built(plan, nodes, stage_of, count),
    ensures
        plan.stages.len() == 1,
        plan.stages[0].steps.len() == 1,
        step_for(plan.stages[0].steps[0], nodes[0]),
{
    lemma_single_node(nodes, picked, stage_of, forced, count);
    assert(stage_built(plan.stages[0], nodes, stage_of, 0));
}

/// Where no node is to be executed the plan has no stage.
pub proof fn lemma_nothing_to_execute(
    nodes: Seq<PlanNode>,
    picked: Seq<bool>,
    stage_of: Seq<Option<usize>>,
    forced: Seq<bool>,
    count: int,
    plan: Plan,
)
    requires
        forall|i: int| 0 <= i < nodes.len() ==> !#[trigger] picked[i],
        fully_laid_out(nodes, picked, stage_of, forced, count),
        built(plan, nodes, stage_of, count),
        0 <= count,
    ensures
        plan.stages.len() == 0,
{
    if count > 0 {
        assert(stage_used(stage_of, 0));
        let i = choose|i: int| 0 <= i < stage_of.len() && #[trigger] stage_of[i] == Some(0usize);
        assert(picked[i]);
    }
}

} // verus!
