use docengine::command::{
    completion_status, interruption_statuses, no_path_status, reports, save_plan, Action, Command,
    CommandKind, CommandNodes, CommandScope, CommandStatus, ContentType, Coordinator,
    ExecuteOptions, Report, SaveDocumentSidecar, SaveDocumentSource,
};
use docengine::format::Format;
use docengine::node::{NodeId, NodeType, NodeUid};
use docengine::patch::Patch;

fn chunk(uid: u64) -> NodeId {
    NodeId::new(&NodeType::CodeChunk.nick(), &NodeUid(uid))
}

fn nodes(uids: &[u64]) -> CommandNodes {
    CommandNodes { node_ids: uids.iter().map(|uid| chunk(*uid)).collect(), scope: CommandScope::Only }
}

fn options() -> ExecuteOptions {
    ExecuteOptions { force_all: false }
}

fn executing(command: &Command) -> Coordinator {
    let mut coordinator = Coordinator::new();
    assert_eq!(coordinator.receive(command, 1, false, true), Action::Spawn { watched: true });
    coordinator
}

#[test]
fn compile_and_execute_are_ignored_while_executing() {
    let patch = || Patch::new(chunk(1));
    for current in [
        Command::ExecuteDocument(options()),
        Command::ExecuteNodes(nodes(&[1]), options()),
        Command::PatchExecuteNodes(patch(), nodes(&[1]), options()),
    ] {
        for new in [
            Command::CompileDocument,
            Command::ExecuteDocument(options()),
            Command::ExecuteNodes(nodes(&[2]), options()),
            Command::PatchExecuteNodes(patch(), nodes(&[2]), options()),
        ] {
            let mut coordinator = executing(&current);
            assert_eq!(coordinator.receive(&new, 2, false, true), Action::Ignore);
            assert_eq!(coordinator.current.as_ref().unwrap().command_id, 1);
            // once the execution has finished the command runs
            assert_eq!(coordinator.receive(&new, 2, true, true), Action::Spawn { watched: true });
            assert_eq!(coordinator.current.as_ref().unwrap().command_id, 2);
        }
    }
}

#[test]
fn compile_and_execute_run_while_anything_else_runs() {
    let mut coordinator = executing(&Command::CompileDocument);
    assert_eq!(
        coordinator.receive(&Command::ExecuteDocument(options()), 2, false, true),
        Action::Spawn { watched: true }
    );
    assert_eq!(coordinator.current.as_ref().unwrap().kind, CommandKind::ExecuteDocument);
    let mut coordinator = Coordinator::new();
    assert_eq!(
        coordinator.receive(&Command::CompileDocument, 7, false, false),
        Action::Spawn { watched: true }
    );
}

#[test]
fn interrupt_document_aborts_the_running_execution() {
    let mut coordinator = executing(&Command::ExecuteDocument(options()));
    assert_eq!(
        coordinator.receive(&Command::InterruptDocument, 2, false, true),
        Action::Interrupt { abort: true, all: true, current_id: 1 }
    );
    // the interrupted command is still the one that is watched
    assert_eq!(coordinator.current.as_ref().unwrap().command_id, 1);
    let (new, current) = interruption_statuses(CommandKind::InterruptDocument, None);
    assert_eq!(new, CommandStatus::Succeeded);
    assert_eq!(current, Some(CommandStatus::Interrupted));
    let (new, current) = interruption_statuses(CommandKind::InterruptDocument, Some("kernel gone"));
    assert_eq!(new, CommandStatus::Failed(String::from("While interrupting document: kernel gone")));
    assert_eq!(current, None);
}

#[test]
fn interrupt_nodes_aborts_only_an_execution_of_the_same_nodes() {
    let mut coordinator = executing(&Command::ExecuteNodes(nodes(&[1, 2]), options()));
    assert_eq!(
        coordinator.receive(&Command::InterruptNodes(nodes(&[1, 2])), 2, false, true),
        Action::Interrupt { abort: true, all: false, current_id: 1 }
    );
    assert_eq!(
        coordinator.receive(&Command::InterruptNodes(nodes(&[2])), 3, false, true),
        Action::Interrupt { abort: false, all: false, current_id: 1 }
    );
    let mut coordinator = executing(&Command::ExecuteDocument(options()));
    assert_eq!(
        coordinator.receive(&Command::InterruptNodes(nodes(&[])), 2, false, true),
        Action::Interrupt { abort: false, all: false, current_id: 1 }
    );
}

#[test]
fn interruption_with_nothing_to_interrupt_is_ignored() {
    let mut coordinator = Coordinator::new();
    assert_eq!(coordinator.receive(&Command::InterruptDocument, 1, false, true), Action::Ignore);
    assert_eq!(coordinator.receive(&Command::InterruptNodes(nodes(&[1])), 2, false, true), Action::Ignore);
    let mut coordinator = executing(&Command::CompileDocument);
    assert_eq!(coordinator.receive(&Command::InterruptDocument, 2, false, true), Action::Ignore);
    let mut coordinator = executing(&Command::ExecuteDocument(options()));
    assert_eq!(coordinator.receive(&Command::InterruptDocument, 2, true, true), Action::Ignore);
}

#[test]
fn patches_saves_and_exports_run_beside_an_execution() {
    let mut coordinator = executing(&Command::ExecuteDocument(options()));
    let patch = Patch::new(chunk(1));
    assert_eq!(coordinator.receive(&Command::PatchNode(patch.clone()), 2, false, true), Action::SendPatch);
    assert_eq!(
        coordinator.receive(
            &Command::PatchNodeContent(chunk(1), Format::Markdown, String::from("# Hi"), ContentType::Block),
            3,
            false,
            true
        ),
        Action::PatchContent
    );
    assert_eq!(
        coordinator.receive(
            &Command::SaveDocument(SaveDocumentSource::Yes, SaveDocumentSidecar::IfExists),
            4,
            false,
            true
        ),
        Action::Spawn { watched: false }
    );
    assert_eq!(
        coordinator.receive(&Command::ExportDocument(String::from("out.html")), 5, false, true),
        Action::Spawn { watched: false }
    );
    // none of them takes the place of the execution
    assert_eq!(coordinator.current.as_ref().unwrap().command_id, 1);
    // a patch with an execution is an execution: ignored while one runs
    let both = Command::PatchExecuteNodes(patch, nodes(&[1]), options());
    assert_eq!(coordinator.receive(&both, 6, false, true), Action::Ignore);
    assert_eq!(coordinator.current.as_ref().unwrap().command_id, 1);
    // and started once it has finished
    assert_eq!(coordinator.receive(&both, 6, true, true), Action::Spawn { watched: true });
    assert_eq!(coordinator.current.as_ref().unwrap().kind, CommandKind::PatchExecuteNodes);
    assert_eq!(coordinator.current.as_ref().unwrap().node_ids, vec![chunk(1)]);
    // while it runs, nothing else is executed
    assert_eq!(coordinator.receive(&Command::ExecuteDocument(options()), 7, false, true), Action::Ignore);
    assert_eq!(coordinator.receive(&both, 8, false, true), Action::Ignore);
    assert_eq!(
        coordinator.receive(&Command::InterruptDocument, 9, false, true),
        Action::Interrupt { abort: true, all: true, current_id: 6 }
    );
}

#[test]
fn every_command_is_told_how_it_ended() {
    let report = |command_id, status| Report { command_id, status };
    let failed = |message: &str| CommandStatus::Failed(String::from(message));
    assert_eq!(
        reports(Action::Ignore, CommandKind::CompileDocument, 4, None),
        vec![report(4, CommandStatus::Ignored)]
    );
    // the content of a node was patched
    assert_eq!(
        reports(Action::PatchContent, CommandKind::PatchNodeContent, 5, None),
        vec![report(5, CommandStatus::Succeeded)]
    );
    assert_eq!(
        reports(Action::PatchContent, CommandKind::PatchNodeContent, 5, Some("no codec")),
        vec![report(5, failed("Failed to patch node content"))]
    );
    assert_eq!(
        reports(Action::SendPatch, CommandKind::PatchNode, 6, Some("closed")),
        vec![report(6, failed("While sending patch: closed"))]
    );
    assert_eq!(
        reports(Action::Spawn { watched: true }, CommandKind::ExecuteDocument, 7, None),
        vec![report(7, CommandStatus::Succeeded)]
    );
    assert_eq!(
        reports(Action::Spawn { watched: false }, CommandKind::SaveDocument, 8, Some("full")),
        vec![report(8, failed("While saving: full"))]
    );
    assert_eq!(
        reports(Action::FailNoPath, CommandKind::SaveDocument, 9, None),
        vec![report(9, failed("Document does not have a path"))]
    );
    // an interruption tells the interrupted command first
    let interrupt = Action::Interrupt { abort: true, all: true, current_id: 7 };
    assert_eq!(
        reports(interrupt, CommandKind::InterruptDocument, 10, None),
        vec![
            report(10, CommandStatus::Running),
            report(7, CommandStatus::Interrupted),
            report(10, CommandStatus::Succeeded),
        ]
    );
    // one that fails tells nothing of the other
    assert_eq!(
        reports(interrupt, CommandKind::InterruptDocument, 10, Some("busy")),
        vec![report(10, CommandStatus::Running), report(10, failed("While interrupting document: busy"))]
    );
}

#[test]
fn save_without_a_path_fails() {
    let mut coordinator = Coordinator::new();
    let save = Command::SaveDocument(SaveDocumentSource::Yes, SaveDocumentSidecar::Yes);
    assert_eq!(coordinator.receive(&save, 1, false, false), Action::FailNoPath);
    assert_eq!(no_path_status(), CommandStatus::Failed(String::from("Document does not have a path")));
}

#[test]
fn save_writes_source_and_existing_sidecar() {
    // doc.md with the sidecar doc.json in place, kept up if it exists
    assert_eq!(save_plan(SaveDocumentSource::Yes, SaveDocumentSidecar::IfExists, true), (true, true));
    assert_eq!(save_plan(SaveDocumentSource::Yes, SaveDocumentSidecar::IfExists, false), (true, false));
    assert_eq!(save_plan(SaveDocumentSource::No, SaveDocumentSidecar::Yes, false), (false, true));
    assert_eq!(save_plan(SaveDocumentSource::No, SaveDocumentSidecar::No, true), (false, false));
    assert_eq!(completion_status(CommandKind::SaveDocument, None), CommandStatus::Succeeded);
}

#[test]
fn failures_are_reported_with_what_was_being_done() {
    let cases = [
        (CommandKind::PatchNode, "While sending patch: closed"),
        (CommandKind::CompileDocument, "While compiling document: closed"),
        (CommandKind::ExecuteDocument, "While executing document: closed"),
        (CommandKind::ExecuteNodes, "While executing nodes: closed"),
        (CommandKind::PatchExecuteNodes, "While executing nodes: closed"),
        (CommandKind::InterruptNodes, "While interrupting nodes: closed"),
        (CommandKind::SaveDocument, "While saving: closed"),
        (CommandKind::ExportDocument, "While encoding to path: closed"),
        (CommandKind::PatchNodeContent, "Failed to patch node content"),
    ];
    for (kind, message) in cases {
        assert_eq!(completion_status(kind, Some("closed")), CommandStatus::Failed(String::from(message)));
    }
}

#[test]
fn command_knows_its_kind_and_its_nodes() {
    let command = Command::ExecuteNodes(nodes(&[3, 1]), options());
    assert_eq!(command.kind(), CommandKind::ExecuteNodes);
    assert_eq!(command.node_ids(), vec![chunk(3), chunk(1)]);
    assert!(command.kind().is_execute());
    assert!(Command::CompileDocument.node_ids().is_empty());
    assert!(!CommandKind::CompileDocument.is_execute());
    assert!(CommandKind::PatchExecuteNodes.is_execute());
}
