use docengine::node::{NodeId, NodeType, NodeUid};
use docengine::node_property::NodeProperty;
use docengine::patch::{PatchOp, PatchPath, PatchValue};
use docengine::plan::{Plan, Stage, Step};
use docengine::planner::{plan, ExecutionMode, PlanNode};
use docengine::runner::{
    collect_cancelled_nodes, CancelRequest, NodeInfo, NodeKind, Runner, StageStart, StepResult,
};
use docengine::status::{ExecutionRequired, ExecutionStatus};

fn chunk(uid: u64) -> NodeId {
    NodeId::new(&NodeType::CodeChunk.nick(), &NodeUid(uid))
}

fn step(uid: u64, dependencies: &[u64]) -> Step {
    Step {
        node_id: chunk(uid),
        kernel_name: Some(String::from("python")),
        is_fork: false,
        dependencies: dependencies.iter().map(|uid| chunk(*uid)).collect(),
    }
}

fn info(uid: u64, status: Option<ExecutionStatus>) -> NodeInfo {
    NodeInfo::new(chunk(uid), NodeKind::CodeChunk, status)
}

fn status_of(runner: &Runner, uid: u64) -> Option<ExecutionStatus> {
    runner.infos.iter().find(|info| info.node_id == chunk(uid)).unwrap().get_execute_status()
}

fn started(start: StageStart) -> (Vec<docengine::runner::StatusChange>, Vec<usize>) {
    match start {
        StageStart::Started { changes, run } => (changes, run),
        other => panic!("the stage should have begun, not {:?}", other),
    }
}

// A: x = 2, B: y = x + 3 (uses A), C: z = y * y (uses B)
fn chain() -> Plan {
    Plan {
        stages: vec![
            Stage { steps: vec![step(1, &[])] },
            Stage { steps: vec![step(2, &[1])] },
            Stage { steps: vec![step(3, &[2])] },
        ],
    }
}

#[test]
fn node_info_follows_the_status_of_its_kind() {
    let mut chunk_info = info(1, Some(ExecutionStatus::Failed));
    assert_eq!(chunk_info.previous_status, Some(ExecutionStatus::Failed));
    let change = chunk_info.set_execute_status_scheduled();
    assert_eq!(change.before, Some(ExecutionStatus::Failed));
    assert_eq!(change.after, Some(ExecutionStatus::ScheduledPreviouslyFailed));
    chunk_info.set_execute_status_running();
    assert_eq!(chunk_info.get_execute_status(), Some(ExecutionStatus::RunningPreviouslyFailed));
    chunk_info.set_execute_status_cancelled();
    assert_eq!(chunk_info.get_execute_status(), Some(ExecutionStatus::Cancelled));
    // a settled node is not restored
    chunk_info.restore_previous_execute_status();
    assert_eq!(chunk_info.get_execute_status(), Some(ExecutionStatus::Cancelled));

    let mut parameter = NodeInfo::new(chunk(2), NodeKind::Parameter, None);
    assert_eq!(parameter.get_execute_status(), Some(ExecutionStatus::Succeeded));
    let change = parameter.set_execute_status_running();
    assert_eq!(change.before, change.after);
    assert!(change.to_patch().ops.is_empty());
    assert_eq!(parameter.get_execute_status(), Some(ExecutionStatus::Succeeded));

    let other = NodeInfo::new(chunk(3), NodeKind::Other, Some(ExecutionStatus::Running));
    assert_eq!(other.get_execute_status(), None);
}

#[test]
fn dependency_ordering_runs_three_stages_of_one_step() {
    let snapshot = vec![info(1, None), info(2, None), info(3, None)];
    let (mut runner, changes) = Runner::start(chain(), snapshot);
    assert_eq!(changes.len(), 3);
    for uid in 1..=3 {
        assert_eq!(status_of(&runner, uid), Some(ExecutionStatus::Scheduled));
    }
    let mut patches = changes.len();
    for uid in 1..=3u64 {
        let (changes, run) = started(runner.begin_stage(&vec![]));
        assert_eq!(run, vec![0]);
        assert_eq!(changes.len(), 1);
        assert_eq!(changes[0].after, Some(ExecutionStatus::Running));
        assert_eq!(status_of(&runner, uid), Some(ExecutionStatus::Running));
        // later nodes have not started
        for later in (uid + 1)..=3 {
            assert_eq!(status_of(&runner, later), Some(ExecutionStatus::Scheduled));
        }
        // the next stage does not begin while the step is live
        assert!(matches!(runner.begin_stage(&vec![]), StageStart::Busy));
        let completion = runner.step_finished(chunk(uid), StepResult::Succeeded).unwrap();
        assert!(!completion.discard);
        assert_eq!(completion.change.after, Some(ExecutionStatus::Succeeded));
        patches += changes.len() + 1;
    }
    assert!(matches!(runner.begin_stage(&vec![]), StageStart::Finished));
    assert!(runner.finish().is_empty());
    assert!(patches >= 3);
    for uid in 1..=3 {
        assert_eq!(status_of(&runner, uid), Some(ExecutionStatus::Succeeded));
    }
}

#[test]
fn failed_dependency_stops_the_run_and_restores_what_waited() {
    let snapshot = vec![info(1, None), info(2, Some(ExecutionStatus::Succeeded)), info(3, None)];
    let (mut runner, _) = Runner::start(chain(), snapshot);
    started(runner.begin_stage(&vec![]));
    runner.step_finished(chunk(1), StepResult::Failed).unwrap();
    assert!(matches!(runner.begin_stage(&vec![]), StageStart::Stopped));
    assert!(runner.dependencies_failed);
    assert!(matches!(runner.begin_stage(&vec![]), StageStart::Stopped));
    let changes = runner.finish();
    assert_eq!(changes.len(), 3);
    // node 1 has ended; nodes 2 and 3 are told that their dependencies failed
    assert!(changes[0].to_blocked_patch().ops.is_empty());
    let blocked = changes[2].to_blocked_patch();
    assert_eq!(blocked.node_id, Some(chunk(3)));
    assert_eq!(
        blocked.ops,
        vec![
            (PatchPath::from(NodeProperty::ExecutionStatus), PatchOp::Clear),
            (
                PatchPath::from(NodeProperty::ExecutionRequired),
                PatchOp::Assign(PatchValue::Required(ExecutionRequired::DependenciesFailed))
            ),
        ]
    );
    assert_eq!(status_of(&runner, 1), Some(ExecutionStatus::Failed));
    assert_eq!(status_of(&runner, 2), Some(ExecutionStatus::Succeeded));
    assert_eq!(status_of(&runner, 3), None);
}

#[test]
fn dependency_outside_the_plan_is_judged_by_its_status() {
    let plan = Plan { stages: vec![Stage { steps: vec![step(2, &[1, 9])] }] };
    // node 9 is unknown and not judged; node 1 is outside the plan and has failed
    let snapshot = vec![info(1, Some(ExecutionStatus::Failed)), info(2, None)];
    let (mut runner, changes) = Runner::start(plan, snapshot);
    assert_eq!(changes.len(), 1);
    assert_eq!(runner.outside.len(), 1);
    assert!(matches!(runner.begin_stage(&vec![]), StageStart::Stopped));
    runner.finish();
    assert_eq!(status_of(&runner, 2), None);

    let plan = Plan { stages: vec![Stage { steps: vec![step(2, &[1, 9])] }] };
    let snapshot = vec![info(1, Some(ExecutionStatus::Succeeded)), info(2, None)];
    let (mut runner, _) = Runner::start(plan, snapshot);
    let (_, run) = started(runner.begin_stage(&vec![]));
    assert_eq!(run, vec![0]);
}

#[test]
fn cancel_mid_stage_cancels_what_runs_and_keeps_what_finished() {
    let plan = Plan { stages: vec![Stage { steps: (1..=5).map(|uid| step(uid, &[])).collect() }] };
    let snapshot = (1..=5).map(|uid| info(uid, None)).collect();
    let (mut runner, _) = Runner::start(plan, snapshot);
    let (changes, run) = started(runner.begin_stage(&vec![]));
    assert_eq!(changes.len(), 5);
    assert_eq!(run, vec![0, 1, 2, 3, 4]);
    runner.step_finished(chunk(1), StepResult::Succeeded).unwrap();
    runner.step_finished(chunk(2), StepResult::Succeeded).unwrap();

    let out = runner.interrupt();
    assert_eq!(out.aborted, vec![chunk(3), chunk(4), chunk(5)]);
    assert_eq!(out.changes.len(), 5);
    assert_eq!(status_of(&runner, 1), Some(ExecutionStatus::Succeeded));
    assert_eq!(status_of(&runner, 2), Some(ExecutionStatus::Succeeded));
    for uid in 3..=5 {
        assert_eq!(status_of(&runner, uid), Some(ExecutionStatus::Cancelled));
    }
    // a late end of an aborted step is passed over
    assert!(runner.step_finished(chunk(3), StepResult::Succeeded).is_none());
    assert!(matches!(runner.begin_stage(&vec![]), StageStart::Finished));
    assert!(runner.finish().is_empty());
}

#[test]
fn cancel_request_for_one_node_aborts_only_its_step() {
    let plan = Plan { stages: vec![Stage { steps: vec![step(1, &[]), step(2, &[])] }] };
    let (mut runner, _) = Runner::start(plan, vec![info(1, None), info(2, None)]);
    started(runner.begin_stage(&vec![]));
    let out = runner.cancel(CancelRequest { start: Some(chunk(2)) });
    assert_eq!(out.aborted, vec![chunk(2)]);
    assert_eq!(out.changes.len(), 1);
    assert_eq!(out.changes[0].after, Some(ExecutionStatus::Cancelled));
    assert_eq!(runner.live, vec![chunk(1)]);
    // cancelling a step that has ended changes nothing
    runner.step_finished(chunk(1), StepResult::Succeeded).unwrap();
    let out = runner.cancel(CancelRequest { start: Some(chunk(1)) });
    assert!(out.aborted.is_empty() && out.changes.is_empty());
    assert_eq!(status_of(&runner, 1), Some(ExecutionStatus::Succeeded));
    assert_eq!(status_of(&runner, 2), Some(ExecutionStatus::Cancelled));
}

#[test]
fn step_that_ends_after_its_cancellation_is_discarded() {
    let plan = Plan {
        stages: vec![Stage { steps: vec![step(1, &[])] }, Stage { steps: vec![step(2, &[])] }],
    };
    let (mut runner, _) = Runner::start(
        plan,
        vec![info(1, Some(ExecutionStatus::Succeeded)), info(2, Some(ExecutionStatus::Failed))],
    );
    assert_eq!(status_of(&runner, 2), Some(ExecutionStatus::ScheduledPreviouslyFailed));
    started(runner.begin_stage(&vec![]));
    // node 2 is cancelled before its stage: it gets its previous status back
    runner.cancel(CancelRequest { start: Some(chunk(2)) });
    runner.step_finished(chunk(1), StepResult::Exceptions).unwrap();
    assert_eq!(status_of(&runner, 1), Some(ExecutionStatus::Exceptions));
    let (changes, run) = started(runner.begin_stage(&vec![]));
    assert!(run.is_empty());
    assert_eq!(changes.len(), 1);
    assert_eq!(changes[0].after, Some(ExecutionStatus::Failed));
    assert!(matches!(runner.begin_stage(&vec![]), StageStart::Finished));
}

#[test]
fn cancelling_before_the_first_stage_leaves_every_status_as_it_was() {
    let before = vec![
        info(1, None),
        info(2, Some(ExecutionStatus::Succeeded)),
        info(3, Some(ExecutionStatus::Failed)),
    ];
    let (mut runner, _) = Runner::start(chain(), before.clone());
    let out = runner.interrupt();
    assert!(out.aborted.is_empty());
    for was in &before {
        let now = runner.infos.iter().find(|info| info.node_id == was.node_id).unwrap();
        assert_eq!(now, was);
    }

    // the same through a request to cancel that arrives before the first stage
    let (mut runner, _) = Runner::start(chain(), before.clone());
    let (changes, run) = started(runner.begin_stage(&vec![CancelRequest { start: None }]));
    assert!(run.is_empty());
    assert_eq!(changes.len(), 1);
    // node 1 never ran, so the stage after it cannot begin
    assert!(matches!(runner.begin_stage(&vec![]), StageStart::Stopped));
    runner.finish();
    for was in &before {
        let now = runner.infos.iter().find(|info| info.node_id == was.node_id).unwrap();
        assert_eq!(now, was);
    }
}

#[test]
fn empty_plan_finishes_at_once_without_patches() {
    let (mut runner, changes) = Runner::start(Plan { stages: vec![] }, vec![info(1, None)]);
    assert!(changes.is_empty());
    assert!(runner.infos.is_empty());
    assert!(matches!(runner.begin_stage(&vec![]), StageStart::Finished));
    assert!(runner.finish().is_empty());
    assert!(Plan { stages: vec![] }.is_empty());
    assert!(Plan { stages: vec![Stage { steps: vec![] }] }.is_empty());
    assert!(!chain().is_empty());
}

#[test]
fn errored_and_timed_out_steps_fail() {
    assert_eq!(StepResult::Errored.status(), ExecutionStatus::Failed);
    assert_eq!(StepResult::TimedOut.status(), ExecutionStatus::Failed);
    assert_eq!(StepResult::Failed.status(), ExecutionStatus::Failed);
    assert_eq!(StepResult::Exceptions.status(), ExecutionStatus::Exceptions);
    assert_eq!(StepResult::Succeeded.status(), ExecutionStatus::Succeeded);
}

#[test]
fn cancel_requests_are_collected_in_order() {
    let infos = vec![info(1, None), info(2, None)];
    let requests = vec![
        CancelRequest { start: Some(chunk(7)) },
        CancelRequest { start: None },
        CancelRequest { start: Some(chunk(1)) },
    ];
    assert_eq!(collect_cancelled_nodes(&infos, &requests), vec![chunk(7), chunk(1), chunk(2), chunk(1)]);
    assert!(collect_cancelled_nodes(&infos, &vec![]).is_empty());
}

fn plan_node(uid: u64, dependencies: &[u64], required: ExecutionRequired) -> PlanNode {
    PlanNode {
        node_id: chunk(uid),
        kernel_name: Some(String::from("python")),
        is_pure: uid % 2 == 0,
        execution_mode: ExecutionMode::Auto,
        execution_required: required,
        dependencies: dependencies.iter().map(|uid| chunk(*uid)).collect(),
    }
}

fn stage_ids(plan: &Plan) -> Vec<Vec<u64>> {
    plan.stages.iter().map(|stage| stage.steps.iter().map(|step| step.node_id.uid.0).collect()).collect()
}

#[test]
fn single_node_without_dependencies_is_one_stage_of_one_step() {
    let nodes = vec![plan_node(1, &[], ExecutionRequired::NeverExecuted)];
    let planned = plan(&nodes, &vec![]).unwrap();
    assert_eq!(stage_ids(&planned.plan), vec![vec![1]]);
    assert_eq!(planned.layout.stages, 1);
    let step = &planned.plan.stages[0].steps[0];
    assert_eq!(step.kernel_name.as_deref(), Some("python"));
    assert!(!step.is_fork);
}

#[test]
fn chain_of_dependencies_is_planned_in_three_stages() {
    let nodes = vec![
        plan_node(1, &[], ExecutionRequired::NeverExecuted),
        plan_node(2, &[1], ExecutionRequired::NeverExecuted),
        plan_node(3, &[2], ExecutionRequired::NeverExecuted),
    ];
    let planned = plan(&nodes, &vec![]).unwrap();
    assert_eq!(stage_ids(&planned.plan), vec![vec![1], vec![2], vec![3]]);
    assert_eq!(planned.plan.stages[1].steps[0].dependencies, vec![chunk(1)]);
    assert!(planned.plan.stages[1].steps[0].is_fork);
    assert_eq!(planned.layout.forced, vec![false, false, false]);
}

#[test]
fn independent_nodes_share_a_stage_in_document_order() {
    let nodes = vec![
        plan_node(5, &[], ExecutionRequired::NeverExecuted),
        plan_node(3, &[], ExecutionRequired::NeverExecuted),
        plan_node(4, &[5, 3], ExecutionRequired::NeverExecuted),
        plan_node(1, &[3], ExecutionRequired::NeverExecuted),
    ];
    let planned = plan(&nodes, &vec![]).unwrap();
    assert_eq!(stage_ids(&planned.plan), vec![vec![5, 3], vec![4, 1]]);
}

#[test]
fn requested_node_brings_the_nodes_that_depend_on_it() {
    let nodes = vec![
        plan_node(1, &[], ExecutionRequired::No),
        plan_node(2, &[1], ExecutionRequired::No),
        plan_node(3, &[2], ExecutionRequired::No),
        plan_node(4, &[], ExecutionRequired::No),
        plan_node(5, &[], ExecutionRequired::StateChanged),
    ];
    // node 2 is asked for: node 3 follows, node 1 does not; node 5 needs it
    let planned = plan(&nodes, &vec![chunk(2)]).unwrap();
    assert_eq!(stage_ids(&planned.plan), vec![vec![2, 5], vec![3]]);
    assert_eq!(planned.layout.stage_of, vec![None, Some(0), Some(1), None, Some(0)]);
}

#[test]
fn locked_nodes_are_left_out_and_always_nodes_are_brought_in() {
    let mut nodes = vec![
        plan_node(1, &[], ExecutionRequired::StateChanged),
        plan_node(2, &[1], ExecutionRequired::NeverExecuted),
        plan_node(3, &[], ExecutionRequired::No),
    ];
    nodes[1].execution_mode = ExecutionMode::Locked;
    nodes[2].execution_mode = ExecutionMode::Always;
    let planned = plan(&nodes, &vec![chunk(1)]).unwrap();
    assert_eq!(stage_ids(&planned.plan), vec![vec![1, 3]]);
}

#[test]
fn cycle_is_broken_at_the_first_node_of_the_document() {
    let nodes = vec![
        plan_node(1, &[3], ExecutionRequired::NeverExecuted),
        plan_node(2, &[1], ExecutionRequired::NeverExecuted),
        plan_node(3, &[2], ExecutionRequired::NeverExecuted),
    ];
    let planned = plan(&nodes, &vec![]).unwrap();
    assert_eq!(stage_ids(&planned.plan), vec![vec![1], vec![2], vec![3]]);
    assert_eq!(planned.layout.forced, vec![true, false, false]);
}

#[test]
fn duplicate_node_has_no_plan() {
    let nodes = vec![
        plan_node(1, &[], ExecutionRequired::NeverExecuted),
        plan_node(2, &[], ExecutionRequired::NeverExecuted),
        plan_node(1, &[], ExecutionRequired::NeverExecuted),
    ];
    assert_eq!(plan(&nodes, &vec![]).unwrap_err().node_id, chunk(1));
}

#[test]
fn planned_chain_runs_to_success() {
    let nodes = vec![
        plan_node(1, &[], ExecutionRequired::NeverExecuted),
        plan_node(2, &[1], ExecutionRequired::NeverExecuted),
        plan_node(3, &[2], ExecutionRequired::NeverExecuted),
    ];
    let planned = plan(&nodes, &vec![]).unwrap();
    let (mut runner, _) = Runner::start(planned.plan, vec![info(1, None), info(2, None), info(3, None)]);
    let mut order = Vec::new();
    loop {
        match runner.begin_stage(&vec![]) {
            StageStart::Started { run, .. } => {
                let stage = runner.stage - 1;
                for t in run {
                    let id = runner.plan.stages[stage].steps[t].node_id;
                    order.push(id.uid.0);
                    runner.step_finished(id, StepResult::Succeeded).unwrap();
                }
            }
            StageStart::Finished => break,
            other => panic!("unexpected {:?}", other),
        }
    }
    assert_eq!(order, vec![1, 2, 3]);
    runner.finish();
    assert!(runner.infos.iter().all(|info| info.get_execute_status() == Some(ExecutionStatus::Succeeded)));
}

#[test]
fn run_cancelled_before_its_first_stage_changes_nothing() {
    // a chain of three nodes, one of them failed before, one never executed
    let before = vec![
        info(1, Some(ExecutionStatus::Succeeded)),
        info(2, Some(ExecutionStatus::Failed)),
        info(3, None),
    ];
    let (mut runner, _) = Runner::start(chain(), before.clone());
    let all = vec![CancelRequest { start: None }];
    let mut requests = all.as_slice();
    loop {
        match runner.begin_stage(&requests.to_vec()) {
            StageStart::Started { run, .. } => assert!(run.is_empty()),
            StageStart::Busy => panic!("no step was started"),
            StageStart::Finished | StageStart::Stopped => break,
        }
        assert!(runner.live.is_empty());
        requests = &[];
    }
    runner.finish();
    assert_eq!(runner.infos, before);
}
