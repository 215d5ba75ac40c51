//! Compiling the nodes of code of a document: what each depends on, and the
//! digest of each.

use vstd::prelude::*;
use vstd::bytes::{spec_u64_to_le_bytes, u64_to_le_bytes};
use crate::digest::{
    execution_required_digests, hash_of_bytes, hashed, sea_hash, spec_execution_required_digests,
    CompilationDigest,
};
use crate::graph::{no_side_effects, ParseInfo, Relation, Resource};
use crate::node::{copy_ids, NodeId};
use crate::planner::{ExecutionMode, PlanNode};
use crate::status::ExecutionRequired;
use crate::text::str_eq;

verus! {

/// A node of code as its parser left it.
#[derive(Clone, Debug, PartialEq, Eq)]
pub struct CodeNode {
    pub node_id: NodeId,
    /// The code
    pub code: String,
    /// The programming language of the code
    pub programming_language: String,
    /// What the parser found of the code
    pub info: ParseInfo,
    /// The digest of the node when it was last executed
    pub execution_digest: Option<CompilationDigest>,
}

/// Two resources are the same: the same node, or symbols, files or modules
/// of the same name.
pub open spec fn spec_same_resource(a: Resource, b: Resource) -> bool {
    match (a, b) {
        (Resource::Code(a), Resource::Code(b)) => a == b,
        (Resource::Symbol(a), Resource::Symbol(b)) => a.name@ == b.name@,
        (Resource::File(a), Resource::File(b)) => a@ == b@,
        (Resource::Module(a), Resource::Module(b)) => a@ == b@,
        _ => false,
    }
}

/// Whether two resources are the same.
pub fn same_resource(a: &Resource, b: &Resource) -> (same: bool)
    ensures
        same == spec_same_resource(*a, *b),
{
    match (a, b) {
        (Resource::Code(a), Resource::Code(b)) => *a == *b,
        (Resource::Symbol(a), Resource::Symbol(b)) => str_eq(a.name.as_str(), b.name.as_str()),
        (Resource::File(a), Resource::File(b)) => str_eq(a.as_str(), b.as_str()),
        (Resource::Module(a), Resource::Module(b)) => str_eq(a.as_str(), b.as_str()),
        _ => false,
    }
}

/// The relation takes something in: it uses, reads or imports.
pub open spec fn takes(relation: Relation) -> bool {
    relation is Use || relation is Read || relation is Import
}

/// The relation gives something out: it assigns, alters or writes.
pub open spec fn gives(relation: Relation) -> bool {
    relation is Assign || relation is Alter || relation is Write
}

/// Relation `k` of `relations` gives out the resource `resource`.
pub open spec fn gives_at(relations: Seq<(Relation, Resource)>, resource: Resource, k: int) -> bool {
    0 <= k < relations.len() && gives(relations[k].0) && spec_same_resource(
        relations[k].1,
        resource,
    )
}

/// Relation `k` of `taker` takes in a resource that `giver` gives out.
pub open spec fn taken_at(
    taker: Seq<(Relation, Resource)>,
    giver: Seq<(Relation, Resource)>,
    k: int,
) -> bool {
    0 <= k < taker.len() && takes(taker[k].0) && exists|g: int| #[trigger]
        gives_at(giver, taker[k].1, g)
}

/// The node with the relations `taker` depends on the node with the
/// relations `giver`: it takes in a resource that the other gives out.
pub open spec fn depends(taker: Seq<(Relation, Resource)>, giver: Seq<(Relation, Resource)>) -> bool {
    exists|k: int| #[trigger] taken_at(taker, giver, k)
}

/// Whether `relations` give out the resource `resource`.
fn is_given(relations: &Vec<(Relation, Resource)>, resource: &Resource) -> (b: bool)
    ensures
        b == exists|g: int| #[trigger] gives_at(relations@, *resource, g),
{
    let mut g: usize = 0;
    while g < relations.len()
        invariant
            g <= relations.len(),
            forall|k: int| 0 <= k < g ==> !#[trigger] gives_at(relations@, *resource, k),
        decreases relations.len() - g,
    {
        let gives = match relations[g].0 {
            Relation::Assign | Relation::Alter | Relation::Write => true,
            _ => false,
        };
        if gives && same_resource(&relations[g].1, resource) {
            assert(gives_at(relations@, *resource, g as int));
            return true;
        }
        g += 1;
    }
    false
}

/// Whether the node with the relations `taker` depends on the node with
/// the relations `giver`.
pub fn depends_on(taker: &Vec<(Relation, Resource)>, giver: &Vec<(Relation, Resource)>) -> (b: bool)
    ensures
        b == depends(taker@, giver@),
{
    let mut k: usize = 0;
    while k < taker.len()
        invariant
            k <= taker.len(),
            forall|j: int| 0 <= j < k ==> !#[trigger] taken_at(taker@, giver@, j),
        decreases taker.len() - k,
    {
        let takes = match taker[k].0 {
            Relation::Use | Relation::Read | Relation::Import => true,
            _ => false,
        };
        if takes && is_given(giver, &taker[k].1) {
            assert(taken_at(taker@, giver@, k as int));
            return true;
        }
        k += 1;
    }
    false
}

/// The ids of the nodes, of the first `upto`, that node `i` depends on, in
/// the order of the document. No node depends on itself.
pub open spec fn dependencies_of(nodes: Seq<CodeNode>, i: int, upto: int) -> Seq<NodeId>
    decreases upto,
{
    if upto <= 0 {
        Seq::empty()
    } else {
        let before = dependencies_of(nodes, i, upto - 1);
        let j = upto - 1;
        if j != i && depends(nodes[i].info.relations@, nodes[j].info.relations@) {
            before.push(nodes[j].node_id)
        } else {
            before
        }
    }
}

/// The ids of the nodes, of the first `upto`, that depend on node `i`, in
/// the order of the document.
pub open spec fn dependants_of(nodes: Seq<CodeNode>, i: int, upto: int) -> Seq<NodeId>
    decreases upto,
{
    if upto <= 0 {
        Seq::empty()
    } else {
        let before = dependants_of(nodes, i, upto - 1);
        let j = upto - 1;
        if j != i && depends(nodes[j].info.relations@, nodes[i].info.relations@) {
            before.push(nodes[j].node_id)
        } else {
            before
        }
    }
}

/// The nodes that node `i` depends on: those that give out what it takes
/// in.
pub fn dependencies(nodes: &Vec<CodeNode>, i: usize) -> (ids: Vec<NodeId>)
    requires
        i < nodes.len(),
    ensures
        ids@ == dependencies_of(nodes@, i as int, nodes.len() as int),
{
    let mut ids: Vec<NodeId> = Vec::new();
    let mut j: usize = 0;
    while j < nodes.len()
        invariant
            i < nodes.len(),
            j <= nodes.len(),
            ids@ == dependencies_of(nodes@, i as int, j as int),
        decreases nodes.len() - j,
    {
        if j != i && depends_on(&nodes[i].info.relations, &nodes[j].info.relations) {
            ids.push(nodes[j].node_id);
        }
        j += 1;
    }
    ids
}

/// The nodes that depend on node `i`: those that take in what it gives
/// out.
pub fn dependants(nodes: &Vec<CodeNode>, i: usize) -> (ids: Vec<NodeId>)
    requires
        i < nodes.len(),
    ensures
        ids@ == dependants_of(nodes@, i as int, nodes.len() as int),
{
    let mut ids: Vec<NodeId> = Vec::new();
    let mut j: usize = 0;
    while j < nodes.len()
        invariant
            i < nodes.len(),
            j <= nodes.len(),
            ids@ == dependants_of(nodes@, i as int, j as int),
        decreases nodes.len() - j,
    {
        if j != i && depends_on(&nodes[j].info.relations, &nodes[i].info.relations) {
            ids.push(nodes[j].node_id);
        }
        j += 1;
    }
    ids
}

/// One id stands before another: by the letters of its nickname, then by
/// its unique part.
pub open spec fn spec_before(a: NodeId, b: NodeId) -> bool {
    a.nick0 < b.nick0 || (a.nick0 == b.nick0 && (a.nick1 < b.nick1 || (a.nick1 == b.nick1 && (
    a.nick2 < b.nick2 || (a.nick2 == b.nick2 && a.uid.0 < b.uid.0)))))
}

/// Whether one id stands before another.
pub fn before(a: NodeId, b: NodeId) -> (b_: bool)
    ensures
        b_ == spec_before(a, b),
{
    a.nick0 < b.nick0 || (a.nick0 == b.nick0 && (a.nick1 < b.nick1 || (a.nick1 == b.nick1 && (
    a.nick2 < b.nick2 || (a.nick2 == b.nick2 && a.uid.0 < b.uid.0)))))
}

/// Each of `ids` stands before the next: they are in order, and none is
/// there twice.
pub open spec fn in_order(ids: Seq<NodeId>) -> bool {
    forall|a: int, b: int| 0 <= a < b < ids.len() ==> spec_before(#[trigger] ids[a], #[trigger] ids[b])
}

/// The ids of `ids`, each once, in order.
pub fn sorted(ids: &Vec<NodeId>) -> (out: Vec<NodeId>)
    ensures
        in_order(out@),
        forall|id: NodeId| out@.contains(id) <==> ids@.contains(id),
{
    let mut out: Vec<NodeId> = Vec::new();
    let mut i: usize = 0;
    while i < ids.len()
        invariant
            i <= ids.len(),
            in_order(out@),
            forall|id: NodeId| out@.contains(id) <==> ids@.take(i as int).contains(id),
        decreases ids.len() - i,
    {
        let id = ids[i];
        let mut place: usize = 0;
        while place < out.len() && before(out[place], id)
            invariant
                place <= out.len(),
                forall|k: int| 0 <= k < place ==> spec_before(#[trigger] out@[k], id),
            decreases out.len() - place,
        {
            place += 1;
        }
        let ghost held = out@;
        let present = place < out.len() && out[place] == id;
        if !present {
            out.insert(place, id);
        }
        proof {
            let taken = ids@.take(i as int);
            let more = ids@.take(i + 1);
            assert(more =~= taken.push(id));
            assert forall|other: NodeId| out@.contains(other) <==> more.contains(other) by {
                if more.contains(other) {
                    let k = choose|k: int| 0 <= k < more.len() && more[k] == other;
                    if k < taken.len() {
                        assert(taken[k] == other);
                        assert(held.contains(other));
                        let h = choose|h: int| 0 <= h < held.len() && held[h] == other;
                        if present {
                            assert(out@[h] == other);
                        } else if h < place {
                            assert(out@[h] == other);
                        } else {
                            assert(out@[h + 1] == other);
                        }
                    } else {
                        assert(other == id);
                        assert(out@[place as int] == id);
                    }
                }
                if out@.contains(other) {
                    let h = choose|h: int| 0 <= h < out@.len() && out@[h] == other;
                    if present {
                        assert(held[h] == other);
                        assert(held.contains(other));
                        assert(taken.contains(other));
                        let k = choose|k: int| 0 <= k < taken.len() && taken[k] == other;
                        assert(more[k] == other);
                    } else if h == place {
                        assert(more[more.len() - 1] == other);
                    } else {
                        if h < place {
                            assert(held[h] == other);
                        } else {
                            assert(held[h - 1] == other);
                        }
                        assert(held.contains(other));
                        assert(taken.contains(other));
                        let k = choose|k: int| 0 <= k < taken.len() && taken[k] == other;
                        assert(more[k] == other);
                    }
                }
            }
            if !present {
                assert forall|a: int, b: int| 0 <= a < b < out@.len() implies spec_before(
                    #[trigger] out@[a],
                    #[trigger] out@[b],
                ) by {
                    let x = if a < place {
                        held[a]
                    } else if a == place {
                        id
                    } else {
                        held[a - 1]
                    };
                    let y = if b < place {
                        held[b]
                    } else if b == place {
                        id
                    } else {
                        held[b - 1]
                    };
                    assert(out@[a] == x && out@[b] == y);
                    if b > place && a <= place {
                        // what stands from `place` on does not stand before `id`, and is not `id`
                        assert(!spec_before(held[place as int], id));
                        assert(held[place as int] != id);
                        if b - 1 > place {
                            assert(spec_before(held[place as int], held[b - 1]));
                        }
                    }
                }
            }
        }
        i += 1;
    }
    proof {
        assert(ids@.take(ids.len() as int) =~= ids@);
    }
    out
}


/// Ids in order with the same members are the same ids.
pub proof fn lemma_in_order_unique(a: Seq<NodeId>, b: Seq<NodeId>)
    requires
        in_order(a),
        in_order(b),
        forall|id: NodeId| a.contains(id) <==> b.contains(id),
    ensures
        a == b,
    decreases a.len(),
{
    if a.len() == 0 {
        if b.len() > 0 {
            assert(b.contains(b[0]));
        }
        assert(a =~= b);
    } else {
        let top = a.last();
        assert(a.contains(top));
        assert(b.contains(top));
        let k = choose|k: int| 0 <= k < b.len() && b[k] == top;
        assert(b.contains(b.last()));
        assert(a.contains(b.last()));
        let j = choose|j: int| 0 <= j < a.len() && a[j] == b.last();
        // the last of each is the greatest of all
        assert(k == b.len() - 1) by {
            if k < b.len() - 1 {
                assert(spec_before(b[k], b[b.len() - 1]));
                if j < a.len() - 1 {
                    assert(spec_before(a[j], a[a.len() - 1]));
                }
            }
        }
        let a_front = a.drop_last();
        let b_front = b.drop_last();
        assert forall|id: NodeId| a_front.contains(id) <==> b_front.contains(id) by {
            if a_front.contains(id) {
                let x = choose|x: int| 0 <= x < a_front.len() && a_front[x] == id;
                assert(a[x] == id);
                assert(spec_before(a[x], a[a.len() - 1]));
                assert(a.contains(id));
                let y = choose|y: int| 0 <= y < b.len() && b[y] == id;
                assert(y != b.len() - 1);
                assert(b_front[y] == id);
            }
            if b_front.contains(id) {
                let y = choose|y: int| 0 <= y < b_front.len() && b_front[y] == id;
                assert(b[y] == id);
                assert(spec_before(b[y], b[b.len() - 1]));
                assert(b.contains(id));
                let x = choose|x: int| 0 <= x < a.len() && a[x] == id;
                assert(x != a.len() - 1);
                assert(a_front[x] == id);
            }
        }
        assert(in_order(a_front)) by {
            assert forall|x: int, y: int| 0 <= x < y < a_front.len() implies spec_before(
                #[trigger] a_front[x],
                #[trigger] a_front[y],
            ) by {
                assert(a_front[x] == a[x] && a_front[y] == a[y]);
            }
        }
        assert(in_order(b_front)) by {
            assert forall|x: int, y: int| 0 <= x < y < b_front.len() implies spec_before(
                #[trigger] b_front[x],
                #[trigger] b_front[y],
            ) by {
                assert(b_front[x] == b[x] && b_front[y] == b[y]);
            }
        }
        lemma_in_order_unique(a_front, b_front);
        assert(a =~= a_front.push(top));
        assert(b =~= b_front.push(top));
    }
}

/// The bytes of an id: the letters of its nickname, and its unique part
/// with the lowest byte first.
pub open spec fn id_bytes(id: NodeId) -> Seq<u8> {
    seq![id.nick0, id.nick1, id.nick2] + spec_u64_to_le_bytes(id.uid.0)
}

/// The bytes of a list of ids, one after the other.
pub open spec fn ids_bytes(ids: Seq<NodeId>) -> Seq<u8>
    decreases ids.len(),
{
    if ids.len() == 0 {
        Seq::empty()
    } else {
        ids_bytes(ids.drop_last()) + id_bytes(ids.last())
    }
}

/// The bytes of a list of digests, one after the other, each with its
/// lowest byte first.
pub open spec fn digests_bytes(digests: Seq<u64>) -> Seq<u8>
    decreases digests.len(),
{
    if digests.len() == 0 {
        Seq::empty()
    } else {
        digests_bytes(digests.drop_last()) + spec_u64_to_le_bytes(digests.last())
    }
}

/// The digest of the state of a node: the hash of its code and its
/// language.
pub open spec fn state_of(node: CodeNode) -> u64 {
    sea_hash(hashed(Some(node.code@)) + hashed(Some(node.programming_language@)))
}

/// The digest of the state of a node.
pub fn state_digest(node: &CodeNode) -> (digest: u64)
    ensures
        digest == state_of(*node),
{
    let mut bytes: Vec<u8> = Vec::new();
    bytes.extend_from_slice(node.code.as_str().as_bytes());
    bytes.push(0xff);
    bytes.extend_from_slice(node.programming_language.as_str().as_bytes());
    bytes.push(0xff);
    assert(bytes@ =~= hashed(Some(node.code@)) + hashed(Some(node.programming_language@)));
    hash_of_bytes(&bytes)
}

/// The digest of the state of the first node with the id `id`; zero where
/// no node has the id.
pub open spec fn state_by_id(nodes: Seq<CodeNode>, id: NodeId) -> u64
    decreases nodes.len(),
{
    if nodes.len() == 0 {
        0
    } else if nodes[0].node_id == id {
        state_of(nodes[0])
    } else {
        state_by_id(nodes.skip(1), id)
    }
}

/// The digest of the state of the first node with the id `id`.
fn find_state(nodes: &Vec<CodeNode>, states: &Vec<u64>, id: NodeId) -> (state: u64)
    requires
        states.len() == nodes.len(),
        forall|k: int| 0 <= k < nodes.len() ==> #[trigger] states@[k] == state_of(nodes@[k]),
    ensures
        state == state_by_id(nodes@, id),
{
    let mut i: usize = 0;
    proof {
        assert(nodes@.skip(0) =~= nodes@);
    }
    while i < nodes.len()
        invariant
            states.len() == nodes.len(),
            forall|k: int| 0 <= k < nodes.len() ==> #[trigger] states@[k] == state_of(nodes@[k]),
            i <= nodes.len(),
            state_by_id(nodes@, id) == state_by_id(nodes@.skip(i as int), id),
        decreases nodes.len() - i,
    {
        proof {
            assert(nodes@.skip(i as int)[0] == nodes@[i as int]);
            assert(nodes@.skip(i as int).skip(1) =~= nodes@.skip(i + 1));
        }
        if nodes[i].node_id == id {
            return states[i];
        }
        i += 1;
    }
    proof {
        assert(nodes@.skip(i as int).len() == 0);
    }
    0
}

/// What the compilation of a node of code gives.
#[derive(Clone, Debug, PartialEq, Eq)]
pub struct Compiled {
    /// The nodes that the node depends on, in the order of their ids
    pub execution_dependencies: Vec<NodeId>,
    /// The nodes that depend on the node, in the order of the document
    pub execution_dependants: Vec<NodeId>,
    /// The digest of the node
    pub compilation_digest: CompilationDigest,
    /// Whether, and why, the node has to be executed
    pub execution_required: ExecutionRequired,
    /// Whether the code of the node has no side effect
    pub is_pure: bool,
}

/// What the compilation of node `i` gives.
///
/// The node depends on the nodes that give out what it takes in; they are
/// listed in the order of their ids, each once. Its digest is made of the
/// hash of its code and language, the hash of the ids of the nodes it
/// depends on, and the hash of the digests of the states of those nodes.
/// It has to be executed as its digest and the digest of its last execution
/// show, and it is pure as its parser found.
pub open spec fn compiled_for(nodes: Seq<CodeNode>, i: int, compiled: Compiled) -> bool {
    let depends_on = compiled.execution_dependencies@;
    let digest = CompilationDigest {
        state_digest: state_of(nodes[i]),
        semantic_digest: sea_hash(ids_bytes(depends_on)),
        dependencies_digest: sea_hash(
            digests_bytes(depends_on.map_values(|id: NodeId| state_by_id(nodes, id))),
        ),
    };
    &&& in_order(depends_on)
    &&& forall|id: NodeId|
        depends_on.contains(id) <==> dependencies_of(nodes, i, nodes.len() as int).contains(id)
    &&& compiled.execution_dependants@ == dependants_of(nodes, i, nodes.len() as int)
    &&& compiled.compilation_digest == digest
    &&& compiled.execution_required == spec_execution_required_digests(
        nodes[i].execution_digest,
        digest,
    )
    &&& compiled.is_pure == match nodes[i].info.pure {
        Some(tagged) => tagged,
        None => no_side_effects(nodes[i].info.relations@),
    }
}

/// Compile node `i` of the nodes of code of a document, given the digests
/// of the states of all of them.
fn compile_node(nodes: &Vec<CodeNode>, states: &Vec<u64>, i: usize) -> (compiled: Compiled)
    requires
        i < nodes.len(),
        states.len() == nodes.len(),
        forall|k: int| 0 <= k < nodes.len() ==> #[trigger] states@[k] == state_of(nodes@[k]),
    ensures
        compiled_for(nodes@, i as int, compiled),
{
    let found = dependencies(nodes, i);
    let depends_on = sorted(&found);
    let mut id_buffer: Vec<u8> = Vec::new();
    let mut digest_buffer: Vec<u8> = Vec::new();
    let ghost upstream = depends_on@.map_values(|id: NodeId| state_by_id(nodes@, id));
    let mut k: usize = 0;
    proof {
        assert(depends_on@.take(0) =~= Seq::<NodeId>::empty());
        assert(upstream.take(0) =~= Seq::<u64>::empty());
    }
    while k < depends_on.len()
        invariant
            states.len() == nodes.len(),
            forall|j: int| 0 <= j < nodes.len() ==> #[trigger] states@[j] == state_of(nodes@[j]),
            upstream == depends_on@.map_values(|id: NodeId| state_by_id(nodes@, id)),
            k <= depends_on.len(),
            id_buffer@ == ids_bytes(depends_on@.take(k as int)),
            digest_buffer@ == digests_bytes(upstream.take(k as int)),
        decreases depends_on.len() - k,
    {
        let id = depends_on[k];
        proof {
            assert(depends_on@.take(k + 1).drop_last() =~= depends_on@.take(k as int));
            assert(depends_on@.take(k + 1).last() == id);
            assert(upstream.take(k + 1).drop_last() =~= upstream.take(k as int));
            assert(upstream.take(k + 1).last() == state_by_id(nodes@, id));
        }
        let ghost ids_before = id_buffer@;
        id_buffer.push(id.nick0);
        id_buffer.push(id.nick1);
        id_buffer.push(id.nick2);
        let mut unique = u64_to_le_bytes(id.uid.0);
        id_buffer.append(&mut unique);
        assert(id_buffer@ =~= ids_before + id_bytes(id));
        let state = find_state(nodes, states, id);
        let mut state_bytes = u64_to_le_bytes(state);
        digest_buffer.append(&mut state_bytes);
        k += 1;
    }
    proof {
        assert(depends_on@.take(depends_on.len() as int) =~= depends_on@);
        assert(upstream.take(upstream.len() as int) =~= upstream);
    }
    let digest = CompilationDigest {
        state_digest: states[i],
        semantic_digest: hash_of_bytes(&id_buffer),
        dependencies_digest: hash_of_bytes(&digest_buffer),
    };
    Compiled {
        execution_dependencies: depends_on,
        execution_dependants: dependants(nodes, i),
        compilation_digest: digest,
        execution_required: execution_required_digests(&nodes[i].execution_digest, &digest),
        is_pure: nodes[i].info.is_pure(),
    }
}

/// Compile the nodes of code of a document, given in the order of the
/// document.
pub fn compile(nodes: &Vec<CodeNode>) -> (compiled: Vec<Compiled>)
    ensures
        compiled.len() == nodes.len(),
        forall|i: int| 0 <= i < nodes.len() ==> compiled_for(nodes@, i, #[trigger] compiled@[i]),
{
    let mut states: Vec<u64> = Vec::new();
    let mut i: usize = 0;
    while i < nodes.len()
        invariant
            i <= nodes.len(),
            states.len() == i,
            forall|k: int| 0 <= k < i ==> #[trigger] states@[k] == state_of(nodes@[k]),
        decreases nodes.len() - i,
    {
        states.push(state_digest(&nodes[i]));
        i += 1;
    }
    let mut compiled: Vec<Compiled> = Vec::new();
    let mut i: usize = 0;
    while i < nodes.len()
        invariant
            i <= nodes.len(),
            states.len() == nodes.len(),
            forall|k: int| 0 <= k < nodes.len() ==> #[trigger] states@[k] == state_of(nodes@[k]),
            compiled.len() == i,
            forall|k: int| 0 <= k < i ==> compiled_for(nodes@, k, #[trigger] compiled@[k]),
        decreases nodes.len() - i,
    {
        compiled.push(compile_node(nodes, &states, i));
        i += 1;
    }
    compiled
}

/// Relation `k` of `relations` assigns a symbol whose name `lost` holds.
pub open spec fn assigns_lost_at(
    relations: Seq<(Relation, Resource)>,
    lost: Seq<String>,
    k: int,
) -> bool {
    &&& 0 <= k < relations.len()
    &&& relations[k].0 is Assign
    &&& relations[k].1 matches Resource::Symbol(symbol)
    &&& exists|j: int| 0 <= j < lost.len() && (#[trigger] lost[j])@ == symbol.name@
}

/// The node assigns a symbol whose name `lost` holds.
pub open spec fn assigns_lost(node: CodeNode, lost: Seq<String>) -> bool {
    exists|k: int| #[trigger] assigns_lost_at(node.info.relations@, lost, k)
}

/// Node `j` assigns a lost symbol, and node `i` depends on it.
pub open spec fn follows_lost(nodes: Seq<CodeNode>, lost: Seq<String>, i: int, j: int) -> bool {
    0 <= j < nodes.len() && j != i && assigns_lost(nodes[j], lost) && depends(
        nodes[i].info.relations@,
        nodes[j].info.relations@,
    )
}

/// Node `i` has to be executed again after the kernel that held the
/// symbols `lost` was restarted: it assigns one of them, or depends on a
/// node that does.
pub open spec fn restarted(nodes: Seq<CodeNode>, lost: Seq<String>, i: int) -> bool {
    assigns_lost(nodes[i], lost) || exists|j: int| #[trigger] follows_lost(nodes, lost, i, j)
}

/// Whether the node assigns a symbol whose name `lost` holds.
fn assigns_any(node: &CodeNode, lost: &Vec<String>) -> (b: bool)
    ensures
        b == assigns_lost(*node, lost@),
{
    let mut k: usize = 0;
    while k < node.info.relations.len()
        invariant
            k <= node.info.relations.len(),
            forall|m: int| 0 <= m < k ==> !#[trigger] assigns_lost_at(node.info.relations@, lost@, m),
        decreases node.info.relations.len() - k,
    {
        match &node.info.relations[k] {
            (Relation::Assign, Resource::Symbol(symbol)) => {
                let mut j: usize = 0;
                while j < lost.len()
                    invariant
                        j <= lost.len(),
                        k < node.info.relations.len(),
                        node.info.relations@[k as int].0 is Assign,
                        node.info.relations@[k as int].1 == Resource::Symbol(*symbol),
                        forall|m: int| 0 <= m < j ==> (#[trigger] lost@[m])@ != symbol.name@,
                    decreases lost.len() - j,
                {
                    if str_eq(lost[j].as_str(), symbol.name.as_str()) {
                        assert(lost@[j as int]@ == symbol.name@);
                        assert(assigns_lost_at(node.info.relations@, lost@, k as int));
                        return true;
                    }
                    j += 1;
                }
            },
            _ => {},
        }
        k += 1;
    }
    false
}

/// Which nodes have to be executed again after the kernel that held the
/// symbols `lost` was restarted; the need of each is then
/// `KernelRestarted`.
pub fn kernel_restarted(nodes: &Vec<CodeNode>, lost: &Vec<String>) -> (marked: Vec<bool>)
    ensures
        marked.len() == nodes.len(),
        forall|i: int| 0 <= i < nodes.len() ==> #[trigger] marked@[i] == restarted(nodes@, lost@, i),
{
    let n = nodes.len();
    let mut assigns: Vec<bool> = Vec::new();
    let mut i: usize = 0;
    while i < n
        invariant
            n == nodes.len(),
            i <= n,
            assigns.len() == i,
            forall|k: int| 0 <= k < i ==> #[trigger] assigns@[k] == assigns_lost(nodes@[k], lost@),
        decreases n - i,
    {
        assigns.push(assigns_any(&nodes[i], lost));
        i += 1;
    }
    let mut marked: Vec<bool> = Vec::new();
    let mut i: usize = 0;
    while i < n
        invariant
            n == nodes.len(),
            assigns.len() == n,
            forall|k: int| 0 <= k < n ==> #[trigger] assigns@[k] == assigns_lost(nodes@[k], lost@),
            i <= n,
            marked.len() == i,
            forall|k: int| 0 <= k < i ==> #[trigger] marked@[k] == restarted(nodes@, lost@, k),
        decreases n - i,
    {
        let mut mark = assigns[i];
        let mut j: usize = 0;
        while j < n && !mark
            invariant
                n == nodes.len(),
                assigns.len() == n,
                forall|k: int| 0 <= k < n ==> #[trigger] assigns@[k] == assigns_lost(nodes@[k], lost@),
                i < n,
                j <= n,
                mark ==> restarted(nodes@, lost@, i as int),
                !mark ==> !assigns_lost(nodes@[i as int], lost@) && forall|k: int|
                    0 <= k < j ==> !#[trigger] follows_lost(nodes@, lost@, i as int, k),
            decreases n - j + if mark {
                0int
            } else {
                1int
            },
        {
            if j != i && assigns[j] && depends_on(&nodes[i].info.relations, &nodes[j].info.relations) {
                assert(follows_lost(nodes@, lost@, i as int, j as int));
                mark = true;
            } else {
                j += 1;
            }
        }
        marked.push(mark);
        i += 1;
    }
    marked
}

/// What the planner is told of a compiled node: its kernel is that of its
/// language, or none where it names no language.
pub fn plan_node(node: &CodeNode, compiled: &Compiled, execution_mode: ExecutionMode) -> (planned:
    PlanNode)
    ensures
        planned.node_id == node.node_id,
        planned.is_pure == compiled.is_pure,
        planned.execution_mode == execution_mode,
        planned.execution_required == compiled.execution_required,
        planned.dependencies@ == compiled.execution_dependencies@,
        match planned.kernel_name {
            Some(name) => node.programming_language@.len() > 0 && name@
                == node.programming_language@,
            None => node.programming_language@.len() == 0,
        },
{
    let kernel_name = if node.programming_language.as_str().is_empty() {
        None
    } else {
        Some(node.programming_language.clone())
    };
    PlanNode {
        node_id: node.node_id,
        kernel_name,
        is_pure: compiled.is_pure,
        execution_mode,
        execution_required: compiled.execution_required,
        dependencies: copy_ids(&compiled.execution_dependencies),
    }
}

/// Compiled twice without an edit, the nodes of a document have the same
/// digests, and depend on the same nodes.
pub proof fn lemma_compile_again(nodes: Seq<CodeNode>, i: int, first: Compiled, second: Compiled)
    requires
        0 <= i < nodes.len(),
        compiled_for(nodes, i, first),
        compiled_for(nodes, i, second),
    ensures
        first.execution_dependencies@ == second.execution_dependencies@,
        first.compilation_digest == second.compilation_digest,
        first.execution_required == second.execution_required,
{
    lemma_in_order_unique(first.execution_dependencies@, second.execution_dependencies@);
}

} // verus!
