use docengine::compile::{
    compile, dependants, dependencies, depends_on, plan_node, same_resource, sorted, state_digest,
    CodeNode,
};
use docengine::digest::CompilationDigest;
use docengine::graph::{ParseInfo, Relation, Resource, Symbol};
use docengine::node::{NodeId, NodeType, NodeUid};
use docengine::planner::{plan, ExecutionMode};
use docengine::status::ExecutionRequired;

fn chunk(uid: u64) -> NodeId {
    NodeId::new(&NodeType::CodeChunk.nick(), &NodeUid(uid))
}

fn symbol(name: &str) -> Resource {
    Resource::Symbol(Symbol { name: String::from(name), kind: String::new() })
}

fn node(uid: u64, code: &str, relations: Vec<(Relation, Resource)>) -> CodeNode {
    CodeNode {
        node_id: chunk(uid),
        code: String::from(code),
        programming_language: String::from("python"),
        info: ParseInfo { pure: None, relations },
        execution_digest: None,
    }
}

// A: x = 2, B: y = x + 3 (uses A), C: z = y * y (uses B)
fn document() -> Vec<CodeNode> {
    vec![
        node(3, "x = 2", vec![(Relation::Assign, symbol("x"))]),
        node(2, "y = x + 3", vec![(Relation::Use, symbol("x")), (Relation::Assign, symbol("y"))]),
        node(1, "z = y * y", vec![(Relation::Use, symbol("y")), (Relation::Assign, symbol("z"))]),
    ]
}

#[test]
fn node_depends_on_what_gives_out_what_it_takes_in() {
    let nodes = document();
    assert_eq!(dependencies(&nodes, 0), vec![]);
    assert_eq!(dependencies(&nodes, 1), vec![chunk(3)]);
    assert_eq!(dependencies(&nodes, 2), vec![chunk(2)]);
    assert_eq!(dependants(&nodes, 0), vec![chunk(2)]);
    assert_eq!(dependants(&nodes, 1), vec![chunk(1)]);
    assert_eq!(dependants(&nodes, 2), vec![]);
    // a node that uses what it assigns itself does not depend on itself
    let own = vec![node(1, "x += 1", vec![(Relation::Use, symbol("x")), (Relation::Alter, symbol("x"))])];
    assert_eq!(dependencies(&own, 0), vec![]);
}

#[test]
fn relations_that_take_meet_relations_that_give() {
    let file = |path: &str| Resource::File(String::from(path));
    let writes = vec![(Relation::Write, file("out.csv")), (Relation::Declare, symbol("f"))];
    assert!(depends_on(&vec![(Relation::Read, file("out.csv"))], &writes));
    assert!(!depends_on(&vec![(Relation::Read, file("in.csv"))], &writes));
    assert!(!depends_on(&vec![(Relation::Use, symbol("f"))], &writes));
    assert!(!depends_on(&vec![(Relation::Write, file("out.csv"))], &writes));
    assert!(same_resource(&symbol("x"), &Resource::Symbol(Symbol { name: String::from("x"), kind: String::from("Number") })));
    assert!(!same_resource(&symbol("x"), &file("x")));
    assert!(same_resource(&Resource::Module(String::from("os")), &Resource::Module(String::from("os"))));
    assert!(same_resource(&Resource::Code(chunk(1)), &Resource::Code(chunk(1))));
    assert!(!same_resource(&Resource::Nothing, &Resource::Nothing));
}

#[test]
fn ids_are_sorted_each_once() {
    let table = NodeId::new(&NodeType::Table.nick(), &NodeUid(0));
    let ids = vec![chunk(5), table, chunk(2), chunk(5), chunk(9), chunk(2)];
    assert_eq!(sorted(&ids), vec![chunk(2), chunk(5), chunk(9), table]);
    assert!(sorted(&vec![]).is_empty());
}

#[test]
fn digest_is_made_of_state_semantics_and_dependencies() {
    let nodes = document();
    let compiled = compile(&nodes);
    assert_eq!(compiled.len(), 3);
    let state = |i: usize| state_digest(&nodes[i]);
    assert_eq!(state(0), seahash::hash(b"x = 2\xffpython\xff"));
    assert_eq!(compiled[0].compilation_digest.state_digest, state(0));
    assert_eq!(compiled[0].compilation_digest.semantic_digest, seahash::hash(b""));
    assert_eq!(compiled[0].compilation_digest.dependencies_digest, seahash::hash(b""));
    assert_eq!(compiled[1].execution_dependencies, vec![chunk(3)]);
    assert_eq!(
        compiled[1].compilation_digest.semantic_digest,
        seahash::hash(&[b'c', b'o', b'd', 3, 0, 0, 0, 0, 0, 0, 0])
    );
    assert_eq!(compiled[1].compilation_digest.dependencies_digest, seahash::hash(&state(0).to_le_bytes()));
    assert_eq!(compiled[2].execution_dependencies, vec![chunk(2)]);
    assert_eq!(compiled[2].compilation_digest.dependencies_digest, seahash::hash(&state(1).to_le_bytes()));
    for it in &compiled {
        assert_eq!(it.execution_required, ExecutionRequired::NeverExecuted);
        assert!(!it.is_pure);
    }
}

#[test]
fn compiling_twice_without_an_edit_gives_the_same_digests() {
    let first = compile(&document());
    let second = compile(&document());
    assert_eq!(first, second);

    // executed with its digest, a node needs no execution until it is edited
    let mut nodes = document();
    for (node, compiled) in nodes.iter_mut().zip(&first) {
        node.execution_digest = Some(compiled.compilation_digest);
    }
    assert!(compile(&nodes).iter().all(|it| it.execution_required == ExecutionRequired::No));
    nodes[0].code = String::from("x = 3");
    let edited: Vec<_> = compile(&nodes).iter().map(|it| it.execution_required).collect();
    assert_eq!(
        edited,
        vec![ExecutionRequired::StateChanged, ExecutionRequired::DependenciesChanged, ExecutionRequired::No]
    );
    nodes[0].execution_digest = Some(CompilationDigest::new(0));
    assert_eq!(compile(&nodes)[0].execution_required, ExecutionRequired::StateChanged);
}

#[test]
fn compiled_nodes_are_planned_in_the_order_of_their_dependencies() {
    let nodes = document();
    let compiled = compile(&nodes);
    let plan_nodes: Vec<_> = nodes
        .iter()
        .zip(&compiled)
        .map(|(node, compiled)| plan_node(node, compiled, ExecutionMode::Auto))
        .collect();
    assert_eq!(plan_nodes[1].kernel_name.as_deref(), Some("python"));
    assert_eq!(plan_nodes[1].dependencies, vec![chunk(3)]);
    let planned = plan(&plan_nodes, &vec![]).unwrap();
    let stages: Vec<Vec<u64>> = planned
        .plan
        .stages
        .iter()
        .map(|stage| stage.steps.iter().map(|step| step.node_id.uid.0).collect())
        .collect();
    assert_eq!(stages, vec![vec![3], vec![2], vec![1]]);
    let mut bare = document().remove(0);
    bare.programming_language = String::new();
    assert_eq!(plan_node(&bare, &compiled[0], ExecutionMode::Locked).kernel_name, None);
}

#[test]
fn restart_of_a_kernel_marks_what_assigned_its_symbols_and_what_depends_on_that() {
    let mut nodes = document();
    nodes.push(node(9, "w = 1", vec![(Relation::Assign, symbol("w"))]));
    let marked = docengine::compile::kernel_restarted(&nodes, &vec![String::from("x")]);
    // A assigns x, B depends on A; C depends on B only, and the last node on nothing
    assert_eq!(marked, vec![true, true, false, false]);
    let marked = docengine::compile::kernel_restarted(&nodes, &vec![String::from("w"), String::from("y")]);
    assert_eq!(marked, vec![false, true, true, true]);
    assert_eq!(docengine::compile::kernel_restarted(&nodes, &vec![]), vec![false; 4]);
}
