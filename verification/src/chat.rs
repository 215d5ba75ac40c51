//! Chats: when they are executed, and the patches that their execution
//! sends.
//!
//! The chat decides and keeps the books; its caller submits the task to
//! the model and hands back what the model gave.

use vstd::prelude::*;
use crate::execution::{
    add_end_ops, end_ops, execution_status, set_status, spec_execution_status, ExecutionMessage,
    WalkControl,
};
use crate::format::Format;
use crate::node::{contains_id, id_of, make_id, NodeId, NodeType, NodeUid};
use crate::node_property::NodeProperty;
use crate::patch::{
    apply_to_values, at_property, op_at, patch_of, patch_views, value_views, values_after, Patch,
    PatchOp, PatchOpView, PatchPath, PatchSlot, PatchValue, PatchValueView, PatchView,
};
use crate::status::{next_execution_count, spec_next_execution_count, ExecutionStatus};
use crate::types::InstructionType;

verus! {

/// Where the content that an instruction is about stands.
#[derive(Clone, Copy, Debug, PartialEq, Eq, Structural)]
pub enum RelativePosition {
    Previous,
    Next,
}

impl RelativePosition {
    /// The name of the position, in lower case.
    pub open spec fn spec_name(self) -> Seq<char> {
        match self {
            RelativePosition::Previous => "previous"@,
            RelativePosition::Next => "next"@,
        }
    }

    /// The name of the position, in lower case.
    pub fn name(&self) -> (name: &'static str)
        ensures
            name@ == self.spec_name(),
    {
        match self {
            RelativePosition::Previous => "previous",
            RelativePosition::Next => "next",
        }
    }
}

/// What a patch is applied with.
#[derive(Clone, Copy, Debug, PartialEq, Eq, Structural)]
pub struct PatchContext {
    /// The format of the source that the patch comes from, if any
    pub format: Option<Format>,
}

impl PatchContext {
    /// The patch comes from no format, or from one that holds everything a
    /// node holds.
    pub open spec fn is_lossless(self) -> bool {
        match self.format {
            Some(format) => format is Json || format is Json5 || format is Yaml || format is Cbor
                || format is CborZst || format is Article,
            None => true,
        }
    }
}

/// What is asked of the model of a chat.
#[derive(Clone, Debug, PartialEq, Eq)]
pub struct ChatPrompt {
    pub query: Option<String>,
    pub instruction_type: Option<InstructionType>,
    pub relative_position: Option<RelativePosition>,
    pub node_type: Option<NodeType>,
}

/// Which models a chat is put to.
#[derive(Clone, Debug, PartialEq, Eq)]
pub struct ModelParameters {
    /// The ids of the models; the router where absent
    pub model_ids: Option<Vec<String>>,
    /// How many answers to ask of each model; one where absent
    pub replicates: Option<usize>,
}

/// What is known of a block in the content of a chat.
#[derive(Clone, Copy, Debug, PartialEq, Eq, Structural)]
pub struct BlockInfo {
    pub node_id: NodeId,
    /// Whether the block is a chat message
    pub is_chat_message: bool,
    /// The execution status of the block
    pub status: Option<ExecutionStatus>,
}

/// A chat.
#[derive(Clone, Debug, PartialEq, Eq)]
pub struct Chat {
    /// A unique identifier for a node within a document
    pub uid: NodeUid,
    /// The blocks of the chat, by id
    pub content: Vec<PatchValue>,
    pub prompt: ChatPrompt,
    pub model_parameters: ModelParameters,
    pub execution_status: Option<ExecutionStatus>,
    pub execution_count: Option<i64>,
    /// Set where the chat stands within another document
    pub is_ephemeral: Option<bool>,
}

impl Chat {
    /// The id of the chat.
    pub open spec fn spec_node_id(self) -> NodeId {
        id_of(NodeType::Chat, self.uid.0)
    }

    /// The id of the chat.
    pub fn node_id(&self) -> (id: NodeId)
        ensures
            id == self.spec_node_id(),
    {
        make_id(NodeType::Chat, self.uid.0)
    }

    /// Apply an operation that is addressed to the chat itself.
    ///
    /// The answer is whether the path leads to the content of the chat. An
    /// operation on the content is applied only if the patch is lossless,
    /// or the chat is a document of its own: a chat within a document is
    /// not changed from a source that cannot hold what a chat holds.
    pub fn apply_with(&mut self, path: &mut PatchPath, op: PatchOp, context: &PatchContext) -> (handled:
        bool)
        ensures
            handled == (old(path)@.len() > 0 && old(path)@[0] == PatchSlot::Property(
                NodeProperty::Content,
            )),
            final(self).uid == old(self).uid,
            final(self).prompt == old(self).prompt,
            final(self).model_parameters == old(self).model_parameters,
            final(self).execution_status == old(self).execution_status,
            final(self).execution_count == old(self).execution_count,
            final(self).is_ephemeral == old(self).is_ephemeral,
            handled && (context.is_lossless() || old(self).is_ephemeral is None) ==> final(path)@
                == old(path)@.skip(1) && value_views(final(self).content@) == values_after(
                value_views(old(self).content@),
                op_at(old(path)@.skip(1), op@),
            ),
            !(handled && (context.is_lossless() || old(self).is_ephemeral is None)) ==> final(path)@
                == old(path)@ && final(self).content@ == old(self).content@,
    {
        let to_content = match path.front() {
            Some(PatchSlot::Property(property)) => property == NodeProperty::Content,
            _ => false,
        };
        if !to_content {
            return false;
        }
        let lossless_format = match context.format {
            Some(format) => format.is_lossless(),
            None => true,
        };
        let is_root = self.is_ephemeral.is_none();
        if lossless_format || is_root {
            path.pop_front();
            let inner = if path.slots.len() == 0 {
                op
            } else if path.slots.len() == 1 {
                match (path.slots[0], op) {
                    (PatchSlot::Index(at), PatchOp::Assign(value)) => PatchOp::Replace(at, value),
                    _ => PatchOp::Nothing,
                }
            } else {
                PatchOp::Nothing
            };
            apply_to_values(&mut self.content, inner);
        }
        true
    }

    /// Prepare the chat for an execution. A chat is executed only when it
    /// is asked for by its id: it is then pending, and the walk does not go
    /// on into its content. Any other chat stays as it is.
    pub fn prepare(&mut self, node_ids: &Option<Vec<NodeId>>) -> (out: (WalkControl, Option<Patch>))
        ensures
            final(self).uid == old(self).uid,
            final(self).content == old(self).content,
            final(self).execution_count == old(self).execution_count,
            match *node_ids {
                Some(ids) if ids@.contains(old(self).spec_node_id()) => {
                    &&& out.0 == WalkControl::Break
                    &&& final(self).execution_status == Some(ExecutionStatus::Pending)
                    &&& out.1 matches Some(patch)
                    &&& patch@ == patch_of(
                        old(self).spec_node_id(),
                        seq![
                            at_property(
                                NodeProperty::ExecutionStatus,
                                PatchOpView::Assign(
                                    PatchValueView::Status(ExecutionStatus::Pending),
                                ),
                            ),
                        ],
                    )
                },
                _ => out.0 == WalkControl::Continue && out.1 is None && final(self).execution_status
                    == old(self).execution_status,
            },
    {
        let node_id = self.node_id();
        let asked = match node_ids {
            Some(ids) => contains_id(ids, node_id),
            None => false,
        };
        if !asked {
            return (WalkControl::Continue, None);
        }
        self.execution_status = Some(ExecutionStatus::Pending);
        let mut patch = Patch::new(node_id);
        patch.set(NodeProperty::ExecutionStatus, PatchValue::Status(ExecutionStatus::Pending));
        assert(patch@.ops =~= seq![
            at_property(
                NodeProperty::ExecutionStatus,
                PatchOpView::Assign(PatchValueView::Status(ExecutionStatus::Pending)),
            ),
        ]);
        (WalkControl::Break, Some(patch))
    }
}


/// A name followed by a space, or nothing where there is no name.
pub open spec fn part(name: Option<Seq<char>>) -> Seq<char> {
    match name {
        Some(name) => name + " "@,
        None => Seq::empty(),
    }
}

impl ChatPrompt {
    /// The text of the first message of a chat: the type of the
    /// instruction, the position in lower case, the type of node and the
    /// query, as far as they are there, with a space between them.
    pub open spec fn spec_first_message(self) -> Seq<char> {
        part(
            match self.instruction_type {
                Some(kind) => Some(kind.spec_name()),
                None => None,
            },
        ) + part(
            match self.relative_position {
                Some(position) => Some(position.spec_name()),
                None => None,
            },
        ) + part(
            match self.node_type {
                Some(kind) => Some(kind.spec_name()),
                None => None,
            },
        ) + match self.query {
            Some(query) => query@,
            None => Seq::empty(),
        }
    }

    /// The text of the first message of a chat.
    pub fn first_message(&self) -> (text: String)
        ensures
            text@ == self.spec_first_message(),
    {
        let mut text = String::new();
        if let Some(kind) = &self.instruction_type {
            text.append(kind.name());
            text.append(" ");
        }
        if let Some(position) = &self.relative_position {
            text.append(position.name());
            text.append(" ");
        }
        if let Some(kind) = &self.node_type {
            text.append(kind.name());
            text.append(" ");
        }
        if let Some(query) = &self.query {
            text.append(query.as_str());
        }
        assert(text@ =~= self.spec_first_message());
        text
    }
}

/// Each of `ids`, `times` times over, in order.
pub open spec fn repeated(ids: Seq<String>, times: nat) -> Seq<Seq<char>>
    decreases ids.len(),
{
    if ids.len() == 0 {
        Seq::empty()
    } else {
        repeated(ids.drop_last(), times) + Seq::new(times, |k: int| ids.last()@)
    }
}

/// The texts of a list of strings.
pub open spec fn texts(strings: Seq<String>) -> Seq<Seq<char>> {
    strings.map_values(|text: String| text@)
}

impl ModelParameters {
    /// The models that answer, one for each answer: each model as often
    /// as there are replicates, and the router where no model is named.
    pub open spec fn spec_authors(self) -> Seq<Seq<char>> {
        let times = match self.replicates {
            Some(times) => times as nat,
            None => 1,
        };
        match self.model_ids {
            Some(ids) => repeated(ids@, times),
            None => Seq::new(times, |k: int| "stencila/router"@),
        }
    }

    /// The models that answer, one for each answer.
    pub fn authors(&self) -> (authors: Vec<String>)
        ensures
            texts(authors@) == self.spec_authors(),
    {
        let times = match self.replicates {
            Some(times) => times,
            None => 1,
        };
        let mut authors: Vec<String> = Vec::new();
        match &self.model_ids {
            Some(ids) => {
                let mut i: usize = 0;
                proof {
                    assert(ids@.take(0) =~= Seq::<String>::empty());
                    assert(texts(authors@) =~= repeated(ids@.take(0), times as nat));
                }
                while i < ids.len()
                    invariant
                        i <= ids.len(),
                        texts(authors@) == repeated(ids@.take(i as int), times as nat),
                    decreases ids.len() - i,
                {
                    let ghost before = texts(authors@);
                    let mut k: usize = 0;
                    while k < times
                        invariant
                            i < ids.len(),
                            k <= times,
                            texts(authors@) == before + Seq::new(k as nat, |j: int| ids@[i as int]@),
                        decreases times - k,
                    {
                        let ghost so_far = authors@;
                        authors.push(ids[i].clone());
                        proof {
                            assert(texts(authors@) =~= texts(so_far).push(ids@[i as int]@));
                            assert(texts(authors@) =~= before + Seq::new(
                                (k + 1) as nat,
                                |j: int| ids@[i as int]@,
                            ));
                        }
                        k += 1;
                    }
                    proof {
                        assert(ids@.take(i + 1).drop_last() =~= ids@.take(i as int));
                        assert(ids@.take(i + 1).last() == ids@[i as int]);
                    }
                    i += 1;
                }
                proof {
                    assert(ids@.take(ids.len() as int) =~= ids@);
                }
            },
            None => {
                let mut k: usize = 0;
                while k < times
                    invariant
                        k <= times,
                        texts(authors@) == Seq::new(k as nat, |j: int| "stencila/router"@),
                    decreases times - k,
                {
                    let ghost so_far = authors@;
                    authors.push(String::from_str("stencila/router"));
                    proof {
                        assert(texts(authors@) =~= texts(so_far).push("stencila/router"@));
                        assert(texts(authors@) =~= Seq::new(
                            (k + 1) as nat,
                            |j: int| "stencila/router"@,
                        ));
                    }
                    k += 1;
                }
            },
        }
        authors
    }
}

/// The block is a chat message that is to be marked as succeeded: one
/// without a status, or, where `strict` holds, one with any status but
/// `Succeeded`.
pub open spec fn to_mark(block: BlockInfo, strict: bool) -> bool {
    block.is_chat_message && if strict {
        block.status != Some(ExecutionStatus::Succeeded)
    } else {
        block.status is None
    }
}

/// The patches that mark chat messages as succeeded, in the order of the
/// blocks.
pub open spec fn marks(blocks: Seq<BlockInfo>, strict: bool) -> Seq<PatchView>
    decreases blocks.len(),
{
    if blocks.len() == 0 {
        Seq::empty()
    } else {
        let before = marks(blocks.drop_last(), strict);
        if to_mark(blocks.last(), strict) {
            before.push(
                patch_of(blocks.last().node_id, seq![set_status(ExecutionStatus::Succeeded)]),
            )
        } else {
            before
        }
    }
}

/// The patches that mark chat messages as succeeded.
pub fn mark_blocks(blocks: &Vec<BlockInfo>, strict: bool) -> (patches: Vec<Patch>)
    ensures
        patch_views(patches@) == marks(blocks@, strict),
{
    let mut patches: Vec<Patch> = Vec::new();
    let mut i: usize = 0;
    proof {
        assert(blocks@.take(0) =~= Seq::<BlockInfo>::empty());
        assert(patch_views(patches@) =~= Seq::<PatchView>::empty());
    }
    while i < blocks.len()
        invariant
            i <= blocks.len(),
            patch_views(patches@) == marks(blocks@.take(i as int), strict),
        decreases blocks.len() - i,
    {
        proof {
            assert(blocks@.take(i + 1).drop_last() =~= blocks@.take(i as int));
            assert(blocks@.take(i + 1).last() == blocks@[i as int]);
        }
        let block = blocks[i];
        let succeeded = match block.status {
            Some(status) => status == ExecutionStatus::Succeeded,
            None => false,
        };
        let mark = block.is_chat_message && if strict {
            !succeeded
        } else {
            block.status.is_none()
        };
        if mark {
            let ghost before = patch_views(patches@);
            let mut patch = Patch::new(block.node_id);
            patch.set(NodeProperty::ExecutionStatus, PatchValue::Status(ExecutionStatus::Succeeded));
            assert(patch@.ops =~= seq![set_status(ExecutionStatus::Succeeded)]);
            patches.push(patch);
            assert(patch_views(patches@) =~= before.push(patch@));
        }
        i += 1;
    }
    proof {
        assert(blocks@.take(blocks.len() as int) =~= blocks@);
    }
    patches
}

/// A message that the execution of a chat has made.
#[derive(Clone, Debug, PartialEq, Eq)]
pub struct NewMessage {
    pub node_id: NodeId,
    /// The text of a message of the user; the id of the model of a message
    /// of a model
    pub text: String,
}

/// What the start of the execution of a chat came to.
#[derive(Debug)]
pub struct ChatStart {
    /// `Break` where the chat is executed, `Continue` where it is not
    pub control: WalkControl,
    /// The patches to send, in order
    pub patches: Vec<Patch>,
    /// The message of the user that was made from the query of the chat
    pub first_message: Option<NewMessage>,
    /// The messages of the models, each running, with the id of its model
    pub model_messages: Vec<NewMessage>,
    /// The group that holds the messages of the models, where there is not
    /// exactly one
    pub group: Option<NodeId>,
}

impl Chat {
    /// The chat makes a first message of its query: it has no content yet,
    /// and has a query.
    pub open spec fn makes_first_message(self) -> bool {
        self.content@.len() == 0 && self.prompt.query is Some
    }

    /// The blocks of the chat once its execution has started: those it
    /// had, and its first message where it makes one.
    pub open spec fn blocks_at_start(self, blocks: Seq<BlockInfo>, first_uid: u64) -> Seq<BlockInfo> {
        if self.makes_first_message() {
            blocks.push(
                BlockInfo {
                    node_id: id_of(NodeType::ChatMessage, first_uid),
                    is_chat_message: true,
                    status: None,
                },
            )
        } else {
            blocks
        }
    }

    /// The block that is added to the chat for the answers of the models:
    /// the one message where there is one, else a group.
    pub open spec fn answer_block(self, first_uid: u64) -> NodeId {
        let count = self.model_parameters.spec_authors().len();
        if count == 1 {
            id_of(NodeType::ChatMessage, (first_uid + 1) as u64)
        } else {
            id_of(NodeType::ChatMessageGroup, (first_uid + 1 + count) as u64)
        }
    }

    /// The patches of the start of the execution of the chat: the chat is
    /// running and without messages; its first message, where it makes
    /// one, is added to it; each chat message without a status is marked
    /// as succeeded; the block for the answers is added.
    pub open spec fn start_patches(self, blocks: Seq<BlockInfo>, first_uid: u64) -> Seq<PatchView> {
        let id = self.spec_node_id();
        let push = |block: NodeId|
            patch_of(
                id,
                seq![
                    at_property(
                        NodeProperty::Content,
                        PatchOpView::Push(PatchValueView::Node(block)),
                    ),
                ],
            );
        seq![
            patch_of(
                id,
                seq![
                    set_status(ExecutionStatus::Running),
                    at_property(NodeProperty::ExecutionMessages, PatchOpView::Clear),
                ],
            ),
        ] + (if self.makes_first_message() {
            seq![push(id_of(NodeType::ChatMessage, first_uid))]
        } else {
            Seq::empty()
        }) + marks(self.blocks_at_start(blocks, first_uid), false) + seq![
            push(self.answer_block(first_uid)),
        ]
    }

    /// Start the execution of the chat. `blocks` tells of the blocks in the
    /// content of the chat; the nodes that are made get the unique parts
    /// from `first_uid` on.
    ///
    /// A chat that is not pending is not executed: nothing is made or sent,
    /// and the walk goes on into its content. A pending chat is executed:
    /// the patches are those of `start_patches`, there is a message for
    /// each answer, and the first message is added to the content of the
    /// chat.
    pub fn execute_begin(&mut self, blocks: &Vec<BlockInfo>, first_uid: u64) -> (start: ChatStart)
        requires
            first_uid + old(self).model_parameters.spec_authors().len() + 2 <= u64::MAX,
        ensures
            final(self).uid == old(self).uid,
            final(self).prompt == old(self).prompt,
            final(self).model_parameters == old(self).model_parameters,
            final(self).execution_status == old(self).execution_status,
            final(self).execution_count == old(self).execution_count,
            final(self).is_ephemeral == old(self).is_ephemeral,
            old(self).execution_status != Some(ExecutionStatus::Pending) ==> {
                &&& start.control == WalkControl::Continue
                &&& start.patches@.len() == 0
                &&& start.first_message is None
                &&& start.model_messages@.len() == 0
                &&& start.group is None
                &&& final(self).content@ == old(self).content@
            },
            old(self).execution_status == Some(ExecutionStatus::Pending) ==> {
                let authors = old(self).model_parameters.spec_authors();
                &&& start.control == WalkControl::Break
                &&& patch_views(start.patches@) == old(self).start_patches(blocks@, first_uid)
                &&& match start.first_message {
                    Some(message) => old(self).makes_first_message() && message.node_id == id_of(
                        NodeType::ChatMessage,
                        first_uid,
                    ) && message.text@ == old(self).prompt.spec_first_message()
                        && final(self).content@ == old(self).content@.push(
                        PatchValue::Node(message.node_id),
                    ),
                    None => !old(self).makes_first_message() && final(self).content@
                        == old(self).content@,
                }
                &&& start.model_messages@.len() == authors.len()
                &&& forall|k: int|
                    0 <= k < authors.len() ==> (#[trigger] start.model_messages@[k]).node_id
                        == id_of(NodeType::ChatMessage, (first_uid + 1 + k) as u64)
                        && start.model_messages@[k].text@ == authors[k]
                &&& start.group == if authors.len() == 1 {
                    None
                } else {
                    Some(id_of(NodeType::ChatMessageGroup, (first_uid + 1 + authors.len()) as u64))
                }
            },
    {
        let pending = match self.execution_status {
            Some(status) => status == ExecutionStatus::Pending,
            None => false,
        };
        if !pending {
            return ChatStart {
                control: WalkControl::Continue,
                patches: Vec::new(),
                first_message: None,
                model_messages: Vec::new(),
                group: None,
            };
        }
        let node_id = self.node_id();
        let ghost before = *self;
        let mut patches: Vec<Patch> = Vec::new();
        let mut patch = Patch::new(node_id);
        patch.set(NodeProperty::ExecutionStatus, PatchValue::Status(ExecutionStatus::Running));
        patch.none(NodeProperty::ExecutionMessages);
        let ghost running = patch@;
        proof {
            assert(running.ops =~= seq![
                set_status(ExecutionStatus::Running),
                at_property(NodeProperty::ExecutionMessages, PatchOpView::Clear),
            ]);
        }
        patches.push(patch);
        proof {
            assert(patch_views(patches@) =~= seq![running]);
        }

        let mut known: Vec<BlockInfo> = Vec::new();
        let mut i: usize = 0;
        while i < blocks.len()
            invariant
                i <= blocks.len(),
                known@ == blocks@.take(i as int),
            decreases blocks.len() - i,
        {
            known.push(blocks[i]);
            proof {
                assert(blocks@.take(i + 1) =~= blocks@.take(i as int).push(blocks@[i as int]));
            }
            i += 1;
        }
        proof {
            assert(blocks@.take(blocks.len() as int) =~= blocks@);
        }
        let mut first_message: Option<NewMessage> = None;
        let makes = self.content.len() == 0 && self.prompt.query.is_some();
        if makes {
            let id = make_id(NodeType::ChatMessage, first_uid);
            let text = self.prompt.first_message();
            self.content.push(PatchValue::Node(id));
            let mut patch = Patch::new(node_id);
            patch.with(NodeProperty::Content, PatchOp::Push(PatchValue::Node(id)));
            let ghost pushed = patch@;
            proof {
                assert(pushed.ops =~= seq![
                    at_property(NodeProperty::Content, PatchOpView::Push(PatchValueView::Node(id))),
                ]);
            }
            patches.push(patch);
            proof {
                assert(patch_views(patches@) =~= seq![running, pushed]);
            }
            known.push(BlockInfo { node_id: id, is_chat_message: true, status: None });
            first_message = Some(NewMessage { node_id: id, text });
        }
        let ghost head = patch_views(patches@);
        let mut marked = mark_blocks(&known, false);
        let ghost middle = patch_views(marked@);
        patches.append(&mut marked);

        let authors = self.model_parameters.authors();
        let count = authors.len();
        let mut model_messages: Vec<NewMessage> = Vec::new();
        let mut rest = authors;
        let ghost all = texts(rest@);
        proof {
            assert(all == before.model_parameters.spec_authors());
        }
        while rest.len() > 0
            invariant
                all.len() == count,
                first_uid + count + 2 <= u64::MAX,
                model_messages.len() + rest.len() == count,
                texts(rest@) == all.skip(model_messages.len() as int),
                forall|k: int|
                    0 <= k < model_messages.len() ==> (#[trigger] model_messages@[k]).node_id
                        == id_of(NodeType::ChatMessage, (first_uid + 1 + k) as u64)
                        && model_messages@[k].text@ == all[k],
            decreases rest.len(),
        {
            let done = model_messages.len();
            let ghost waiting = rest@;
            let text = rest.remove(0);
            proof {
                assert(text@ == texts(waiting)[0]);
                assert forall|j: int| 0 <= j < rest@.len() implies #[trigger] texts(rest@)[j]
                    == all.skip(done + 1)[j] by {
                    assert(rest@[j] == waiting[j + 1]);
                    assert(texts(waiting)[j + 1] == all.skip(done as int)[j + 1]);
                }
                assert(texts(rest@) =~= all.skip(done + 1));
                assert(all.skip(done as int)[0] == all[done as int]);
            }
            let id = make_id(NodeType::ChatMessage, first_uid + 1 + done as u64);
            model_messages.push(NewMessage { node_id: id, text });
        }
        let (block, group) = if count == 1 {
            (model_messages[0].node_id, None)
        } else {
            let id = make_id(NodeType::ChatMessageGroup, first_uid + 1 + count as u64);
            (id, Some(id))
        };
        let mut patch = Patch::new(node_id);
        patch.with(NodeProperty::Content, PatchOp::Push(PatchValue::Node(block)));
        let ghost tail = patch@;
        patches.push(patch);
        proof {
            assert(patch_views(patches@) =~= head + middle + seq![tail]);
            assert(block == before.answer_block(first_uid));
            assert(known@ == before.blocks_at_start(blocks@, first_uid));
            assert(tail.ops =~= seq![
                at_property(NodeProperty::Content, PatchOpView::Push(PatchValueView::Node(block))),
            ]);
            assert(head =~= seq![
                patch_of(
                    node_id,
                    seq![
                        set_status(ExecutionStatus::Running),
                        at_property(NodeProperty::ExecutionMessages, PatchOpView::Clear),
                    ],
                ),
            ] + (if before.makes_first_message() {
                seq![
                    patch_of(
                        node_id,
                        seq![
                            at_property(
                                NodeProperty::Content,
                                PatchOpView::Push(
                                    PatchValueView::Node(id_of(NodeType::ChatMessage, first_uid)),
                                ),
                            ),
                        ],
                    ),
                ]
            } else {
                Seq::empty()
            }));
        }
        ChatStart { control: WalkControl::Break, patches, first_message, model_messages, group }
    }
}


/// The patches that give the messages of the models their answers: each
/// message its status and, added to its content, its answer. A message
/// without an answer, or an answer without a message, is passed over.
pub open spec fn answer_patches(
    messages: Seq<NewMessage>,
    answers: Seq<Vec<PatchValue>>,
    status: ExecutionStatus,
) -> Seq<PatchView> {
    Seq::new(
        if messages.len() <= answers.len() {
            messages.len()
        } else {
            answers.len()
        },
        |k: int|
            patch_of(
                messages[k].node_id,
                seq![
                    set_status(status),
                    at_property(
                        NodeProperty::Content,
                        PatchOpView::Append(value_views(answers[k]@)),
                    ),
                ],
            ),
    )
}

impl Chat {
    /// End the execution of the chat with what the model gave: an answer
    /// for each of its messages, and the messages of the execution.
    ///
    /// Each chat message that has not succeeded is marked as succeeded;
    /// each message of a model gets its answer and the status of the
    /// execution; the chat gets that status and one execution more.
    pub fn execute_end(
        &mut self,
        blocks: &Vec<BlockInfo>,
        model_messages: &Vec<NewMessage>,
        mut answers: Vec<Vec<PatchValue>>,
        messages: &Vec<ExecutionMessage>,
        started: i64,
        ended: i64,
    ) -> (patches: Vec<Patch>)
        ensures
            final(self).uid == old(self).uid,
            final(self).content == old(self).content,
            final(self).prompt == old(self).prompt,
            final(self).model_parameters == old(self).model_parameters,
            final(self).is_ephemeral == old(self).is_ephemeral,
            final(self).execution_status == Some(spec_execution_status(messages@)),
            final(self).execution_count == Some(
                spec_next_execution_count(old(self).execution_count),
            ),
            old(self).execution_count matches Some(count) ==> final(self).execution_count->0
                >= count,
            patch_views(patches@) == marks(blocks@, true) + answer_patches(
                model_messages@,
                answers@,
                spec_execution_status(messages@),
            ) + seq![
                patch_of(
                    old(self).spec_node_id(),
                    end_ops(messages@, old(self).execution_count, started, ended),
                ),
            ],
    {
        let node_id = self.node_id();
        let status = execution_status(messages);
        let mut patches = mark_blocks(blocks, true);
        let ghost head = patch_views(patches@);
        let ghost all = answers@;
        let ghost expected = answer_patches(model_messages@, all, status);
        let mut k: usize = 0;
        while k < model_messages.len() && answers.len() > 0
            invariant
                k <= model_messages.len(),
                k + answers.len() == all.len(),
                answers@ == all.skip(k as int),
                patch_views(patches@) == head + expected.take(k as int),
                expected == answer_patches(model_messages@, all, status),
            decreases answers.len(),
        {
            let answer = answers.remove(0);
            proof {
                assert(answer == all[k as int]);
                assert(answers@ =~= all.skip(k + 1));
            }
            let mut patch = Patch::new(model_messages[k].node_id);
            patch.set(NodeProperty::ExecutionStatus, PatchValue::Status(status));
            patch.with(NodeProperty::Content, PatchOp::Append(answer));
            let ghost made = patch@;
            let ghost so_far = patch_views(patches@);
            patches.push(patch);
            proof {
                assert(made.ops =~= seq![
                    set_status(status),
                    at_property(
                        NodeProperty::Content,
                        PatchOpView::Append(value_views(all[k as int]@)),
                    ),
                ]);
                assert(made == expected[k as int]);
                assert(patch_views(patches@) =~= so_far.push(made));
                assert(expected.take(k + 1) =~= expected.take(k as int).push(expected[k as int]));
            }
            k += 1;
        }
        proof {
            assert(expected.take(k as int) =~= expected);
        }
        let mut patch = Patch::new(node_id);
        add_end_ops(&mut patch, messages, self.execution_count, started, ended);
        let ghost last = patch@;
        let ghost so_far = patch_views(patches@);
        patches.push(patch);
        proof {
            assert(last.ops =~= end_ops(messages@, self.execution_count, started, ended));
            assert(patch_views(patches@) =~= so_far.push(last));
        }
        self.execution_status = Some(status);
        self.execution_count = Some(next_execution_count(self.execution_count));
        patches
    }
}

} // verus!
