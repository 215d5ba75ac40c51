//! Commands on a document, and what becomes of a new command while another
//! is running.
//!
//! The coordinator decides; its caller performs what was decided, and tells
//! the coordinator whether the task it watches has finished.

use vstd::prelude::*;
use crate::format::Format;
use crate::node::{copy_ids, same_ids, NodeId};
use crate::patch::Patch;

verus! {

/// Whether to write a document to its source when it is saved.
#[derive(Clone, Copy, Debug, PartialEq, Eq, Structural)]
pub enum SaveDocumentSource {
    Yes,
    No,
}

/// Whether to write the sidecar of a document when it is saved.
#[derive(Clone, Copy, Debug, PartialEq, Eq, Structural)]
pub enum SaveDocumentSidecar {
    Yes,
    IfExists,
    No,
}

/// The kind of content that replaces the content of a node.
#[derive(Clone, Copy, Debug, PartialEq, Eq, Structural)]
pub enum ContentType {
    Block,
    Inline,
}

/// How far a command on some nodes reaches beyond them.
#[derive(Clone, Copy, Debug, PartialEq, Eq, Structural)]
pub enum CommandScope {
    Only,
    PlusBefore,
    PlusAfter,
    PlusUpstreamDownstream,
}

/// The nodes that a command is about.
#[derive(Clone, Debug, PartialEq, Eq)]
pub struct CommandNodes {
    pub node_ids: Vec<NodeId>,
    pub scope: CommandScope,
}

/// Options of an execution.
#[derive(Clone, Copy, Debug, PartialEq, Eq, Structural)]
pub struct ExecuteOptions {
    /// Execute every node, whether it needs it or not
    pub force_all: bool,
}

/// The status of a command.
#[derive(Clone, Debug, PartialEq, Eq)]
pub enum CommandStatus {
    Running,
    Succeeded,
    Failed(String),
    Ignored,
    Interrupted,
}

/// A command on a document.
#[derive(Clone, Debug, PartialEq, Eq)]
pub enum Command {
    /// Apply a patch
    PatchNode(Patch),
    /// Replace the content of a node by content decoded from text
    PatchNodeContent(NodeId, Format, String, ContentType),
    /// Compile the document
    CompileDocument,
    /// Execute the document
    ExecuteDocument(ExecuteOptions),
    /// Execute some nodes
    ExecuteNodes(CommandNodes, ExecuteOptions),
    /// Apply a patch, then execute some nodes
    PatchExecuteNodes(Patch, CommandNodes, ExecuteOptions),
    /// Interrupt the execution of the document
    InterruptDocument,
    /// Interrupt the execution of some nodes
    InterruptNodes(CommandNodes),
    /// Save the document
    SaveDocument(SaveDocumentSource, SaveDocumentSidecar),
    /// Export the document to a path
    ExportDocument(String),
}

/// What a command is, without what it carries.
#[derive(Clone, Copy, Debug, PartialEq, Eq, Structural)]
pub enum CommandKind {
    PatchNode,
    PatchNodeContent,
    CompileDocument,
    ExecuteDocument,
    ExecuteNodes,
    PatchExecuteNodes,
    InterruptDocument,
    InterruptNodes,
    SaveDocument,
    ExportDocument,
}

impl CommandKind {
    /// The command executes nodes.
    pub open spec fn spec_is_execute(self) -> bool {
        self is ExecuteDocument || self is ExecuteNodes || self is PatchExecuteNodes
    }

    /// Whether the command executes nodes.
    #[verifier::when_used_as_spec(spec_is_execute)]
    pub fn is_execute(self) -> (b: bool)
        ensures
            b == self.spec_is_execute(),
    {
        match self {
            CommandKind::ExecuteDocument
            | CommandKind::ExecuteNodes
            | CommandKind::PatchExecuteNodes => true,
            _ => false,
        }
    }
}

impl Command {
    /// What the command is.
    pub open spec fn spec_kind(self) -> CommandKind {
        match self {
            Command::PatchNode(..) => CommandKind::PatchNode,
            Command::PatchNodeContent(..) => CommandKind::PatchNodeContent,
            Command::CompileDocument => CommandKind::CompileDocument,
            Command::ExecuteDocument(..) => CommandKind::ExecuteDocument,
            Command::ExecuteNodes(..) => CommandKind::ExecuteNodes,
            Command::PatchExecuteNodes(..) => CommandKind::PatchExecuteNodes,
            Command::InterruptDocument => CommandKind::InterruptDocument,
            Command::InterruptNodes(..) => CommandKind::InterruptNodes,
            Command::SaveDocument(..) => CommandKind::SaveDocument,
            Command::ExportDocument(..) => CommandKind::ExportDocument,
        }
    }

    /// The nodes that the command names; none where it is about the whole
    /// document.
    pub open spec fn spec_node_ids(self) -> Seq<NodeId> {
        match self {
            Command::ExecuteNodes(nodes, _) => nodes.node_ids@,
            Command::PatchExecuteNodes(_, nodes, _) => nodes.node_ids@,
            Command::InterruptNodes(nodes) => nodes.node_ids@,
            _ => Seq::empty(),
        }
    }

    /// What the command is.
    pub fn kind(&self) -> (kind: CommandKind)
        ensures
            kind == self.spec_kind(),
    {
        match self {
            Command::PatchNode(..) => CommandKind::PatchNode,
            Command::PatchNodeContent(..) => CommandKind::PatchNodeContent,
            Command::CompileDocument => CommandKind::CompileDocument,
            Command::ExecuteDocument(..) => CommandKind::ExecuteDocument,
            Command::ExecuteNodes(..) => CommandKind::ExecuteNodes,
            Command::PatchExecuteNodes(..) => CommandKind::PatchExecuteNodes,
            Command::InterruptDocument => CommandKind::InterruptDocument,
            Command::InterruptNodes(..) => CommandKind::InterruptNodes,
            Command::SaveDocument(..) => CommandKind::SaveDocument,
            Command::ExportDocument(..) => CommandKind::ExportDocument,
        }
    }

    /// The nodes that the command names.
    pub fn node_ids(&self) -> (ids: Vec<NodeId>)
        ensures
            ids@ == self.spec_node_ids(),
    {
        match self {
            Command::ExecuteNodes(nodes, _) => copy_ids(&nodes.node_ids),
            Command::PatchExecuteNodes(_, nodes, _) => copy_ids(&nodes.node_ids),
            Command::InterruptNodes(nodes) => copy_ids(&nodes.node_ids),
            _ => Vec::new(),
        }
    }
}

/// The command whose task the coordinator watches.
#[derive(Clone, Debug, PartialEq, Eq)]
pub struct CurrentCommand {
    /// What the command is
    pub kind: CommandKind,
    /// The nodes that it names
    pub node_ids: Vec<NodeId>,
    /// The id that its client gave it
    pub command_id: u64,
}

/// What to do with a new command.
#[derive(Clone, Copy, Debug, PartialEq, Eq, Structural)]
pub enum Action {
    /// Report the command as `Ignored`
    Ignore,
    /// Report the command as `Running`, abort the watched task where
    /// `abort` holds, and interrupt: the whole document where `all`
    /// holds, else the nodes of the command. Then report as
    /// `interruption_statuses` says.
    Interrupt { abort: bool, all: bool, current_id: u64 },
    /// Hand the patch of the command to the patch bus, and report
    /// `Succeeded`, or `Failed` where the bus did not take it
    SendPatch,
    /// Decode the content of the command and hand a patch that clears the
    /// content of the node and appends the decoded content to the patch
    /// bus, and report `Succeeded`, or `Failed` where the content could not
    /// be decoded
    PatchContent,
    /// Spawn the task of the command; where `watched` holds it is the task
    /// that the coordinator watches from now on. The patch of a command that
    /// has one is applied first.
    Spawn { watched: bool },
    /// Report the command as `Failed`: the document has no path
    FailNoPath,
}

/// What is known of the task that the coordinator watches when a command
/// arrives.
pub struct Watched {
    pub kind: CommandKind,
    pub node_ids: Seq<NodeId>,
    pub command_id: u64,
}

/// What becomes of a new command.
///
/// While a command that executes nodes is running, a command to compile or
/// to execute is ignored, and a command to interrupt interrupts: it aborts
/// the running task where it is about the whole document, or names the
/// nodes that the running command names. A command that patches and then
/// executes is a command to execute, as a new command and as the running
/// one: while an execution runs it is ignored, its patch with it. An
/// interruption with nothing to interrupt is ignored. Patches, saves and
/// exports run beside whatever is running; a save of a document without a
/// path fails.
pub open spec fn decide(
    kind: CommandKind,
    node_ids: Seq<NodeId>,
    watched: Option<Watched>,
    finished: bool,
    has_path: bool,
) -> Action {
    let executing = watched matches Some(current) && !finished && current.kind.is_execute();
    match kind {
        CommandKind::CompileDocument
        | CommandKind::ExecuteDocument
        | CommandKind::ExecuteNodes
        | CommandKind::PatchExecuteNodes => {
            if executing {
                Action::Ignore
            } else {
                Action::Spawn { watched: true }
            }
        },
        CommandKind::InterruptDocument => {
            if executing {
                Action::Interrupt { abort: true, all: true, current_id: watched->0.command_id }
            } else {
                Action::Ignore
            }
        },
        CommandKind::InterruptNodes => {
            if executing {
                Action::Interrupt {
                    abort: !(watched->0.kind is ExecuteDocument) && watched->0.node_ids
                        == node_ids,
                    all: false,
                    current_id: watched->0.command_id,
                }
            } else {
                Action::Ignore
            }
        },
        CommandKind::PatchNode => Action::SendPatch,
        CommandKind::PatchNodeContent => Action::PatchContent,
        CommandKind::SaveDocument => {
            if has_path {
                Action::Spawn { watched: false }
            } else {
                Action::FailNoPath
            }
        },
        CommandKind::ExportDocument => Action::Spawn { watched: false },
    }
}

/// The coordinator of the commands on one document.
#[derive(Debug)]
pub struct Coordinator {
    /// The command whose task is watched, if any
    pub current: Option<CurrentCommand>,
}

impl Coordinator {
    /// What is known of the watched task.
    pub open spec fn watched(self) -> Option<Watched> {
        match self.current {
            Some(current) => Some(
                Watched {
                    kind: current.kind,
                    node_ids: current.node_ids@,
                    command_id: current.command_id,
                },
            ),
            None => None,
        }
    }

    /// A coordinator that watches no task.
    pub fn new() -> (coordinator: Coordinator)
        ensures
            coordinator.current is None,
    {
        Coordinator { current: None }
    }

    /// Take a new command. `current_finished` tells whether the watched
    /// task, if there is one, has finished; `has_path` whether the document
    /// has a path to be saved to.
    ///
    /// The action is that of `decide`. A command whose task is to be
    /// watched takes the place of the watched command; any other leaves it.
    pub fn receive(
        &mut self,
        command: &Command,
        command_id: u64,
        current_finished: bool,
        has_path: bool,
    ) -> (action: Action)
        ensures
            action == decide(
                command.spec_kind(),
                command.spec_node_ids(),
                old(self).watched(),
                current_finished,
                has_path,
            ),
            final(self).watched() == if action == (Action::Spawn { watched: true }) {
                Some(
                    Watched {
                        kind: command.spec_kind(),
                        node_ids: command.spec_node_ids(),
                        command_id,
                    },
                )
            } else {
                old(self).watched()
            },
    {
        let kind = command.kind();
        let executing = match &self.current {
            Some(current) => !current_finished && current.kind.is_execute(),
            None => false,
        };
        let action = match kind {
            CommandKind::CompileDocument
            | CommandKind::ExecuteDocument
            | CommandKind::ExecuteNodes
            | CommandKind::PatchExecuteNodes => {
                if executing {
                    Action::Ignore
                } else {
                    Action::Spawn { watched: true }
                }
            },
            CommandKind::InterruptDocument => match &self.current {
                Some(current) if executing => Action::Interrupt {
                    abort: true,
                    all: true,
                    current_id: current.command_id,
                },
                _ => Action::Ignore,
            },
            CommandKind::InterruptNodes => match &self.current {
                Some(current) if executing => {
                    let ids = command.node_ids();
                    Action::Interrupt {
                        abort: current.kind != CommandKind::ExecuteDocument && same_ids(
                            &current.node_ids,
                            &ids,
                        ),
                        all: false,
                        current_id: current.command_id,
                    }
                },
                _ => Action::Ignore,
            },
            CommandKind::PatchNode => Action::SendPatch,
            CommandKind::PatchNodeContent => Action::PatchContent,
            CommandKind::SaveDocument => {
                if has_path {
                    Action::Spawn { watched: false }
                } else {
                    Action::FailNoPath
                }
            },
            CommandKind::ExportDocument => Action::Spawn { watched: false },
        };
        match action {
            Action::Spawn { watched: true } => {
                self.current = Some(
                    CurrentCommand { kind, node_ids: command.node_ids(), command_id },
                );
            },
            _ => {},
        }
        action
    }
}

/// While a command that executes nodes is running, no second command to
/// compile or to execute is started, and every interruption interrupts.
pub proof fn lemma_one_execution_at_a_time(
    kind: CommandKind,
    node_ids: Seq<NodeId>,
    watched: Watched,
    has_path: bool,
)
    requires
        watched.kind.is_execute(),
    ensures
        kind is CompileDocument || kind.is_execute() ==> decide(
            kind,
            node_ids,
            Some(watched),
            false,
            has_path,
        ) == Action::Ignore,
        !(decide(kind, node_ids, Some(watched), false, has_path) matches Action::Spawn {
            watched: true,
        }),
        kind is InterruptDocument || kind is InterruptNodes ==> decide(
            kind,
            node_ids,
            Some(watched),
            false,
            has_path,
        ) is Interrupt,
{
}

/// Patches, saves and exports are never ignored and never interrupt,
/// whatever is running.
pub proof fn lemma_patches_run_beside(
    kind: CommandKind,
    node_ids: Seq<NodeId>,
    watched: Option<Watched>,
    finished: bool,
    has_path: bool,
)
    requires
        kind is PatchNode || kind is PatchNodeContent || kind is SaveDocument
            || kind is ExportDocument,
    ensures
        decide(kind, node_ids, watched, finished, has_path) == (match kind {
            CommandKind::PatchNode => Action::SendPatch,
            CommandKind::PatchNodeContent => Action::PatchContent,
            CommandKind::SaveDocument if !has_path => Action::FailNoPath,
            _ => Action::Spawn { watched: false },
        }),
{
}

/// Which files a save writes: the source where asked for, and the sidecar
/// where asked for, or where it exists and is to be kept up.
pub fn save_plan(source: SaveDocumentSource, sidecar: SaveDocumentSidecar, sidecar_exists: bool) -> (plan:
    (bool, bool))
    ensures
        plan.0 == (source is Yes),
        plan.1 == (sidecar is Yes || (sidecar is IfExists && sidecar_exists)),
{
    let write_source = match source {
        SaveDocumentSource::Yes => true,
        SaveDocumentSource::No => false,
    };
    let write_sidecar = match sidecar {
        SaveDocumentSidecar::Yes => true,
        SaveDocumentSidecar::IfExists => sidecar_exists,
        SaveDocumentSidecar::No => false,
    };
    (write_source, write_sidecar)
}

/// The words that start the report of a failure of a command of this kind.
pub open spec fn failure_context(kind: CommandKind) -> Seq<char> {
    match kind {
        CommandKind::PatchNode => "While sending patch"@,
        CommandKind::PatchNodeContent => "Failed to patch node content"@,
        CommandKind::CompileDocument => "While compiling document"@,
        CommandKind::ExecuteDocument => "While executing document"@,
        CommandKind::ExecuteNodes | CommandKind::PatchExecuteNodes => "While executing nodes"@,
        CommandKind::InterruptDocument => "While interrupting document"@,
        CommandKind::InterruptNodes => "While interrupting nodes"@,
        CommandKind::SaveDocument => "While saving"@,
        CommandKind::ExportDocument => "While encoding to path"@,
    }
}

/// The message of a failure of a command of this kind: the words for the
/// kind, a colon, a space and the error. Of a failure to patch the content
/// of a node only the words are reported.
pub open spec fn failure_message(kind: CommandKind, error: Seq<char>) -> Seq<char> {
    if kind is PatchNodeContent {
        failure_context(kind)
    } else {
        failure_context(kind) + ": "@ + error
    }
}

/// The status of a command of kind `kind` whose task has ended: `Succeeded`
/// without an error, else `Failed` with the message of the failure.
pub fn completion_status(kind: CommandKind, error: Option<&str>) -> (status: CommandStatus)
    ensures
        match error {
            None => status is Succeeded,
            Some(error) => status matches CommandStatus::Failed(message) && message@
                == failure_message(kind, error@),
        },
{
    match error {
        None => CommandStatus::Succeeded,
        Some(error) => {
            let context = match kind {
                CommandKind::PatchNode => "While sending patch",
                CommandKind::PatchNodeContent => "Failed to patch node content",
                CommandKind::CompileDocument => "While compiling document",
                CommandKind::ExecuteDocument => "While executing document",
                CommandKind::ExecuteNodes | CommandKind::PatchExecuteNodes => {
                    "While executing nodes"
                },
                CommandKind::InterruptDocument => "While interrupting document",
                CommandKind::InterruptNodes => "While interrupting nodes",
                CommandKind::SaveDocument => "While saving",
                CommandKind::ExportDocument => "While encoding to path",
            };
            let mut message = String::from_str(context);
            if kind != CommandKind::PatchNodeContent {
                message.append(": ");
                message.append(error);
            }
            CommandStatus::Failed(message)
        },
    }
}

/// The status of a save of a document that has no path.
pub fn no_path_status() -> (status: CommandStatus)
    ensures
        status matches CommandStatus::Failed(message) && message@
            == "Document does not have a path"@,
{
    CommandStatus::Failed(String::from_str("Document does not have a path"))
}

/// The statuses to report after an interruption: for the interrupting
/// command, and for the command that was running. An interruption that
/// went through leaves the running command `Interrupted` and has itself
/// `Succeeded`; one that failed has `Failed`, and nothing is reported of
/// the running command.
pub fn interruption_statuses(kind: CommandKind, error: Option<&str>) -> (statuses: (
    CommandStatus,
    Option<CommandStatus>,
))
    ensures
        match error {
            None => statuses.0 is Succeeded && statuses.1 == Some(CommandStatus::Interrupted),
            Some(error) => statuses.1 is None && (statuses.0 matches CommandStatus::Failed(
                message,
            ) && message@ == failure_message(kind, error@)),
        },
{
    match error {
        None => (CommandStatus::Succeeded, Some(CommandStatus::Interrupted)),
        Some(_) => (completion_status(kind, error), None),
    }
}

/// What a status says, with its message as a sequence of characters.
pub enum CommandStatusView {
    Running,
    Succeeded,
    Failed(Seq<char>),
    Ignored,
    Interrupted,
}

impl View for CommandStatus {
    type V = CommandStatusView;

    open spec fn view(&self) -> CommandStatusView {
        match self {
            CommandStatus::Running => CommandStatusView::Running,
            CommandStatus::Succeeded => CommandStatusView::Succeeded,
            CommandStatus::Failed(message) => CommandStatusView::Failed(message@),
            CommandStatus::Ignored => CommandStatusView::Ignored,
            CommandStatus::Interrupted => CommandStatusView::Interrupted,
        }
    }
}

impl CommandStatusView {
    /// The status is a last one: every status but `Running`.
    pub open spec fn is_terminal(self) -> bool {
        !(self is Running)
    }
}

/// A status that is published, with the id of the command that it is of.
#[derive(Clone, Debug, PartialEq, Eq)]
pub struct Report {
    pub command_id: u64,
    pub status: CommandStatus,
}

/// What a report says.
pub struct ReportView {
    pub command_id: u64,
    pub status: CommandStatusView,
}

impl View for Report {
    type V = ReportView;

    open spec fn view(&self) -> ReportView {
        ReportView { command_id: self.command_id, status: self.status@ }
    }
}

/// The views of a list of reports.
pub open spec fn report_views(reports: Seq<Report>) -> Seq<ReportView> {
    reports.map_values(|report: Report| report@)
}

/// The status that ends a command of kind `kind` whose action went
/// through, or failed with `error`.
pub open spec fn ended(kind: CommandKind, error: Option<Seq<char>>) -> CommandStatusView {
    match error {
        None => CommandStatusView::Succeeded,
        Some(error) => CommandStatusView::Failed(failure_message(kind, error)),
    }
}

/// The statuses that are published for a command of kind `kind` and id
/// `command_id`, in their order, where `action` was decided for it and was
/// performed without an error, or with `error`.
///
/// An ignored command is `Ignored`. An interruption is `Running`, then
/// `Succeeded` after the interrupted command was told `Interrupted`, or
/// `Failed` with nothing told to the other. A patch, and a task that ran to
/// its end, is `Succeeded` or `Failed`. A save without a path is `Failed`.
pub open spec fn spec_reports(
    action: Action,
    kind: CommandKind,
    command_id: u64,
    error: Option<Seq<char>>,
) -> Seq<ReportView> {
    let end = ReportView { command_id, status: ended(kind, error) };
    match action {
        Action::Ignore => seq![ReportView { command_id, status: CommandStatusView::Ignored }],
        Action::Interrupt { current_id, .. } => {
            let running = ReportView { command_id, status: CommandStatusView::Running };
            if error is None {
                seq![
                    running,
                    ReportView { command_id: current_id, status: CommandStatusView::Interrupted },
                    end,
                ]
            } else {
                seq![running, end]
            }
        },
        Action::SendPatch | Action::PatchContent | Action::Spawn { .. } => seq![end],
        Action::FailNoPath => seq![
            ReportView {
                command_id,
                status: CommandStatusView::Failed("Document does not have a path"@),
            },
        ],
    }
}

/// The statuses to publish for a command, in their order, once the action
/// that was decided for it has been performed; `error` tells what went
/// wrong, if anything did.
pub fn reports(action: Action, kind: CommandKind, command_id: u64, error: Option<&str>) -> (out:
    Vec<Report>)
    ensures
        report_views(out@) == spec_reports(
            action,
            kind,
            command_id,
            match error {
                Some(error) => Some(error@),
                None => None,
            },
        ),
{
    let mut out: Vec<Report> = Vec::new();
    match action {
        Action::Ignore => {
            out.push(Report { command_id, status: CommandStatus::Ignored });
        },
        Action::Interrupt { abort: _, all: _, current_id } => {
            out.push(Report { command_id, status: CommandStatus::Running });
            let (status, other) = interruption_statuses(kind, error);
            if let Some(other) = other {
                out.push(Report { command_id: current_id, status: other });
            }
            out.push(Report { command_id, status });
        },
        Action::SendPatch | Action::PatchContent | Action::Spawn { .. } => {
            out.push(Report { command_id, status: completion_status(kind, error) });
        },
        Action::FailNoPath => {
            out.push(Report { command_id, status: no_path_status() });
        },
    }
    assert(report_views(out@) =~= spec_reports(
        action,
        kind,
        command_id,
        match error {
            Some(error) => Some(error@),
            None => None,
        },
    ));
    out
}

/// Every command is told of: at least one status is published for it, and
/// the last status that is published is its own and is a last one. Every
/// status before that is `Running` for the command itself, or `Interrupted`
/// for the command that it interrupted; a failure tells nothing of another
/// command.
pub proof fn lemma_every_command_ends(
    action: Action,
    kind: CommandKind,
    command_id: u64,
    error: Option<Seq<char>>,
)
    ensures
        ({
            let told = spec_reports(action, kind, command_id, error);
            &&& told.len() >= 1
            &&& told.last().command_id == command_id
            &&& told.last().status.is_terminal()
            &&& forall|i: int|
                0 <= i < told.len() - 1 ==> (#[trigger] told[i]) == (ReportView {
                    command_id,
                    status: CommandStatusView::Running,
                }) || (error is None && (action matches Action::Interrupt { current_id, .. }
                    && told[i] == (ReportView {
                    command_id: current_id,
                    status: CommandStatusView::Interrupted,
                })))
        }),
{
}

} // verus!
