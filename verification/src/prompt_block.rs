//! Prompt blocks: their digest, the inference of their target, and the
//! patches that their execution sends.
//!
//! The block decides and keeps the books; its caller infers and fetches
//! prompts, and executes the content of the prompt.

use vstd::prelude::*;
use crate::execution::{
    add_end_ops, end_ops, execution_status, set_status, spec_execution_status, ExecutionMessage,
    WalkControl,
};
use crate::digest::{
    execution_required_digests, hash_of_bytes, hash_text, hashed, sea_hash,
    spec_execution_required_digests, CompilationDigest,
};
use crate::node::{id_of, make_id, NodeId, NodeType, NodeUid};
use crate::node_property::NodeProperty;
use crate::patch::{
    at_property, copy_values, patch_of, value_views, Patch, PatchOp, PatchOpView, PatchValue,
    PatchValueView, PatchView,
};
use crate::planner::ExecutionMode;
use crate::status::{
    next_execution_count, spec_next_execution_count, ExecutionRequired, ExecutionStatus,
};
use crate::text::{chars_of, ends_with};
use crate::types::InstructionType;

verus! {

/// The fields of a prompt block that its execution fills.
#[derive(Clone, Copy, Debug, PartialEq, Eq, Structural)]
pub struct PromptBlockOptions {
    pub compilation_digest: Option<CompilationDigest>,
    pub execution_digest: Option<CompilationDigest>,
    pub execution_required: Option<ExecutionRequired>,
    pub execution_status: Option<ExecutionStatus>,
    pub execution_count: Option<i64>,
}

/// A block that shows a prompt, and executes its content.
#[derive(Clone, Debug, PartialEq, Eq)]
pub struct PromptBlock {
    /// A unique identifier for a node within a document
    pub uid: NodeUid,
    /// The type of instruction that the prompt is for
    pub instruction_type: Option<InstructionType>,
    /// A hint of what the prompt is for
    pub hint: Option<String>,
    /// The id of the prompt; one that ends in `?` was inferred
    pub target: Option<String>,
    /// The content of the prompt, by id
    pub content: Option<Vec<PatchValue>>,
    pub execution_mode: Option<ExecutionMode>,
    pub options: PromptBlockOptions,
}

impl PromptBlock {
    /// The id of the block.
    pub open spec fn spec_node_id(self) -> NodeId {
        id_of(NodeType::PromptBlock, self.uid.0)
    }

    /// The id of the block.
    pub fn node_id(&self) -> (id: NodeId)
        ensures
            id == self.spec_node_id(),
    {
        make_id(NodeType::PromptBlock, self.uid.0)
    }

    /// The target of the block, as text.
    pub open spec fn target_text(self) -> Option<Seq<char>> {
        match self.target {
            Some(target) => Some(target@),
            None => None,
        }
    }

    /// What is hashed for the digest of the block where its target is
    /// `target`: the type of its instruction, its hint and that target, as
    /// far as it has them.
    pub open spec fn input_with(self, target: Option<Seq<char>>) -> Seq<u8> {
        hashed(
            match self.instruction_type {
                Some(kind) => Some(kind.spec_name()),
                None => None,
            },
        ) + hashed(
            match self.hint {
                Some(hint) => Some(hint@),
                None => None,
            },
        ) + hashed(target)
    }

    /// What is hashed for the digest of the block as it stands.
    pub open spec fn digest_input(self) -> Seq<u8> {
        self.input_with(self.target_text())
    }

    /// The digest of the state of the block: the hash of the type of its
    /// instruction, its hint and its target. Blocks that agree in these
    /// have the same digest.
    pub fn state_digest(&self) -> (digest: u64)
        ensures
            digest == sea_hash(self.digest_input()),
    {
        let mut bytes: Vec<u8> = Vec::new();
        if let Some(kind) = &self.instruction_type {
            hash_text(&mut bytes, kind.name());
        }
        if let Some(hint) = &self.hint {
            hash_text(&mut bytes, hint.as_str());
        }
        if let Some(target) = &self.target {
            hash_text(&mut bytes, target.as_str());
        }
        assert(bytes@ =~= self.digest_input());
        hash_of_bytes(&bytes)
    }

    /// The target of the block is to be inferred, where `digest` is that
    /// of its state: it has none, or it has an inferred one and its state
    /// has changed since it was compiled.
    pub open spec fn spec_needs_target(self, digest: CompilationDigest) -> bool {
        match self.target {
            None => true,
            Some(target) => ends_with(target@, "?"@) && Some(digest)
                != self.options.compilation_digest,
        }
    }

    /// Whether the target of the block is to be inferred.
    pub fn needs_target(&self, digest: &CompilationDigest) -> (needed: bool)
        ensures
            needed == self.spec_needs_target(*digest),
    {
        match &self.target {
            None => true,
            Some(target) => {
                let text = chars_of(target.as_str());
                let mark = chars_of("?");
                proof {
                    reveal_strlit("?");
                }
                let inferred = text.len() > 0 && text[text.len() - 1] == '?';
                proof {
                    assert(mark@.len() == 1 && mark@[0] == '?');
                    if text.len() > 0 {
                        assert(text@.skip(text.len() - 1) =~= seq![text@[text.len() - 1]]);
                        assert(mark@ =~= seq!['?']);
                    }
                }
                let same = match self.options.compilation_digest {
                    Some(compiled) => compiled == *digest,
                    None => false,
                };
                inferred && !same
            },
        }
    }

    /// The target of the block, as it stands, is to be inferred.
    pub open spec fn spec_wants_target(self) -> bool {
        self.spec_needs_target(CompilationDigest::spec_new(sea_hash(self.digest_input())))
    }

    /// Whether the target of the block, as it stands, is to be inferred:
    /// the caller then looks for a prompt before it compiles the block.
    pub fn wants_target(&self) -> (wanted: bool)
        ensures
            wanted == self.spec_wants_target(),
    {
        let digest = CompilationDigest::new(self.state_digest());
        self.needs_target(&digest)
    }

    /// The target that a compilation gives the block, where `inferred` is
    /// the prompt that was found for it: that prompt followed by `?` where
    /// the target was to be inferred and one was found, else the target
    /// that the block has.
    pub open spec fn target_after(self, inferred: Option<Seq<char>>) -> Option<Seq<char>> {
        match inferred {
            Some(prompt) if self.spec_wants_target() => Some(prompt + "?"@),
            _ => self.target_text(),
        }
    }

    /// The digest that a compilation gives the block: that of its state
    /// with the target that the compilation gives it.
    pub open spec fn digest_after(self, inferred: Option<Seq<char>>) -> CompilationDigest {
        CompilationDigest::spec_new(sea_hash(self.input_with(self.target_after(inferred))))
    }

    /// The patches of a compilation: the inferred target, where there is
    /// one, and the digest with the need to execute that it shows.
    pub open spec fn compile_patches(self, inferred: Option<Seq<char>>) -> Seq<PatchView> {
        let id = self.spec_node_id();
        let digest = self.digest_after(inferred);
        (match inferred {
            Some(prompt) if self.spec_wants_target() => seq![
                patch_of(
                    id,
                    seq![
                        at_property(
                            NodeProperty::Target,
                            PatchOpView::Assign(PatchValueView::String(prompt + "?"@)),
                        ),
                    ],
                ),
            ],
            _ => Seq::empty(),
        }) + seq![
            patch_of(
                id,
                seq![
                    at_property(
                        NodeProperty::CompilationDigest,
                        PatchOpView::Assign(PatchValueView::Digest(digest)),
                    ),
                    at_property(
                        NodeProperty::ExecutionRequired,
                        PatchOpView::Assign(
                            PatchValueView::Required(
                                spec_execution_required_digests(
                                    self.options.execution_digest,
                                    digest,
                                ),
                            ),
                        ),
                    ),
                ],
            ),
        ]
    }

    /// Compile the block, where `inferred` is the id of the prompt that
    /// was found for it, if one was looked for and found.
    ///
    /// Where the target was to be inferred and a prompt was found, the
    /// target is the id of the prompt followed by `?`. The block takes the
    /// digest of its state with the target it then has, and needs to be
    /// executed as the digest of its last execution and the new digest show.
    /// The walk does not go on into its content.
    pub fn compile_with(&mut self, inferred: Option<&str>) -> (out: (WalkControl, Vec<Patch>))
        ensures
            out.0 == WalkControl::Break,
            crate::patch::patch_views(out.1@) == old(self).compile_patches(
                match inferred {
                    Some(prompt) => Some(prompt@),
                    None => None,
                },
            ),
            final(self).uid == old(self).uid,
            final(self).instruction_type == old(self).instruction_type,
            final(self).hint == old(self).hint,
            final(self).content == old(self).content,
            final(self).execution_mode == old(self).execution_mode,
            final(self).target_text() == old(self).target_after(
                match inferred {
                    Some(prompt) => Some(prompt@),
                    None => None,
                },
            ),
            !(inferred is Some && old(self).spec_wants_target()) ==> final(self).target == old(
                self,
            ).target,
            final(self).options == (PromptBlockOptions {
                compilation_digest: Some(
                    old(self).digest_after(
                        match inferred {
                            Some(prompt) => Some(prompt@),
                            None => None,
                        },
                    ),
                ),
                execution_required: Some(
                    spec_execution_required_digests(
                        old(self).options.execution_digest,
                        old(self).digest_after(
                            match inferred {
                                Some(prompt) => Some(prompt@),
                                None => None,
                            },
                        ),
                    ),
                ),
                ..old(self).options
            }),
    {
        let node_id = self.node_id();
        let mut patches: Vec<Patch> = Vec::new();
        let wanted = self.wants_target();
        if let Some(prompt) = inferred {
            if wanted {
                let mut target = String::from_str(prompt);
                target.append("?");
                let mut patch = Patch::new(node_id);
                patch.set(NodeProperty::Target, PatchValue::String(target.clone()));
                self.target = Some(target);
                assert(patch@.ops =~= seq![
                    at_property(
                        NodeProperty::Target,
                        PatchOpView::Assign(PatchValueView::String(prompt@ + "?"@)),
                    ),
                ]);
                patches.push(patch);
            }
        }
        let digest = CompilationDigest::new(self.state_digest());
        let required = execution_required_digests(&self.options.execution_digest, &digest);
        self.options.compilation_digest = Some(digest);
        self.options.execution_required = Some(required);
        let mut patch = Patch::new(node_id);
        patch.set(NodeProperty::CompilationDigest, PatchValue::Digest(digest));
        patch.set(NodeProperty::ExecutionRequired, PatchValue::Required(required));
        assert(patch@.ops =~= seq![
            at_property(
                NodeProperty::CompilationDigest,
                PatchOpView::Assign(PatchValueView::Digest(digest)),
            ),
            at_property(
                NodeProperty::ExecutionRequired,
                PatchOpView::Assign(PatchValueView::Required(required)),
            ),
        ]);
        let ghost head = crate::patch::patch_views(patches@);
        let ghost last = patch@;
        patches.push(patch);
        proof {
            assert(crate::patch::patch_views(patches@) =~= head.push(last));
        }
        (WalkControl::Break, patches)
    }

    /// Prepare the block for an execution with the status that the
    /// executor gives it, if it gives one. The walk does not go on into the
    /// content of the block.
    pub fn prepare(&mut self, status: Option<ExecutionStatus>) -> (out: (WalkControl, Option<Patch>))
        ensures
            out.0 == WalkControl::Break,
            match status {
                Some(status) => final(self).options == (PromptBlockOptions {
                    execution_status: Some(status),
                    ..old(self).options
                }) && (out.1 matches Some(patch) && patch@ == patch_of(
                    old(self).spec_node_id(),
                    seq![set_status(status)],
                )),
                None => final(self).options == old(self).options && out.1 is None,
            },
            final(self).uid == old(self).uid,
            final(self).target == old(self).target,
            final(self).content == old(self).content,
    {
        match status {
            Some(status) => {
                self.options.execution_status = Some(status);
                let mut patch = Patch::new(self.node_id());
                patch.set(NodeProperty::ExecutionStatus, PatchValue::Status(status));
                assert(patch@.ops =~= seq![set_status(status)]);
                (WalkControl::Break, Some(patch))
            },
            None => (WalkControl::Break, None),
        }
    }

    /// Start the execution of the block: it is running.
    pub fn execute_begin(&mut self) -> (patch: Patch)
        ensures
            final(self).options == (PromptBlockOptions {
                execution_status: Some(ExecutionStatus::Running),
                ..old(self).options
            }),
            final(self).uid == old(self).uid,
            final(self).target == old(self).target,
            final(self).content == old(self).content,
            patch@ == patch_of(old(self).spec_node_id(), seq![set_status(ExecutionStatus::Running)]),
    {
        self.options.execution_status = Some(ExecutionStatus::Running);
        let mut patch = Patch::new(self.node_id());
        patch.set(NodeProperty::ExecutionStatus, PatchValue::Status(ExecutionStatus::Running));
        assert(patch@.ops =~= seq![set_status(ExecutionStatus::Running)]);
        patch
    }

    /// The prompt of the block could not be had: the patch tells of an
    /// execution that ended in exceptions, with the error as its message.
    pub fn execute_failed(&self, error: &str) -> (patch: Patch)
        ensures
            patch@ == patch_of(
                self.spec_node_id(),
                seq![
                    set_status(ExecutionStatus::Exceptions),
                    at_property(
                        NodeProperty::ExecutionMessages,
                        PatchOpView::Append(
                            seq![PatchValueView::String("While getting prompt: "@ + error@)],
                        ),
                    ),
                ],
            ),
    {
        let mut message = String::from_str("While getting prompt: ");
        message.append(error);
        let mut told: Vec<PatchValue> = Vec::new();
        told.push(PatchValue::String(message));
        assert(value_views(told@) =~= seq![
            PatchValueView::String("While getting prompt: "@ + error@),
        ]);
        let mut patch = Patch::new(self.node_id());
        patch.set(NodeProperty::ExecutionStatus, PatchValue::Status(ExecutionStatus::Exceptions));
        patch.with(NodeProperty::ExecutionMessages, PatchOp::Append(told));
        assert(patch@.ops =~= seq![
            set_status(ExecutionStatus::Exceptions),
            at_property(
                NodeProperty::ExecutionMessages,
                PatchOpView::Append(
                    seq![PatchValueView::String("While getting prompt: "@ + error@)],
                ),
            ),
        ]);
        patch
    }

    /// Take the content of the prompt, copied with ids of its own: the
    /// block holds it, and the patch puts it in the place of what the block
    /// held.
    pub fn execute_content(&mut self, content: Vec<PatchValue>) -> (patch: Patch)
        ensures
            final(self).content == Some(content),
            final(self).uid == old(self).uid,
            final(self).target == old(self).target,
            final(self).options == old(self).options,
            patch@ == patch_of(
                old(self).spec_node_id(),
                seq![
                    at_property(NodeProperty::Content, PatchOpView::Clear),
                    at_property(NodeProperty::Content, PatchOpView::Append(value_views(content@))),
                ],
            ),
    {
        let copy = copy_values(&content);
        self.content = Some(content);
        let mut patch = Patch::new(self.node_id());
        patch.none(NodeProperty::Content);
        patch.with(NodeProperty::Content, PatchOp::Append(copy));
        assert(patch@.ops =~= seq![
            at_property(NodeProperty::Content, PatchOpView::Clear),
            at_property(NodeProperty::Content, PatchOpView::Append(value_views(content@))),
        ]);
        patch
    }

    /// End the execution of the block with the messages of the execution
    /// of its content: the block has the status that the messages show, one
    /// execution more, and the digest it was compiled with as the digest of
    /// its execution.
    pub fn execute_end(&mut self, messages: &Vec<ExecutionMessage>, started: i64, ended: i64) -> (patch:
        Patch)
        ensures
            final(self).uid == old(self).uid,
            final(self).target == old(self).target,
            final(self).content == old(self).content,
            final(self).options == (PromptBlockOptions {
                execution_status: Some(spec_execution_status(messages@)),
                execution_count: Some(spec_next_execution_count(old(self).options.execution_count)),
                execution_digest: old(self).options.compilation_digest,
                ..old(self).options
            }),
            old(self).options.execution_count matches Some(count)
                ==> final(self).options.execution_count->0 >= count,
            patch@ == patch_of(
                old(self).spec_node_id(),
                end_ops(messages@, old(self).options.execution_count, started, ended).push(
                    at_property(
                        NodeProperty::ExecutionDigest,
                        match old(self).options.compilation_digest {
                            Some(digest) => PatchOpView::Assign(PatchValueView::Digest(digest)),
                            None => PatchOpView::Clear,
                        },
                    ),
                ),
            ),
    {
        let mut patch = Patch::new(self.node_id());
        add_end_ops(&mut patch, messages, self.options.execution_count, started, ended);
        match self.options.compilation_digest {
            Some(digest) => patch.set(NodeProperty::ExecutionDigest, PatchValue::Digest(digest)),
            None => patch.none(NodeProperty::ExecutionDigest),
        }
        self.options.execution_status = Some(execution_status(messages));
        self.options.execution_count = Some(next_execution_count(self.options.execution_count));
        self.options.execution_digest = self.options.compilation_digest;
        assert(patch@.ops =~= end_ops(messages@, old(self).options.execution_count, started, ended).push(
            at_property(
                NodeProperty::ExecutionDigest,
                match old(self).options.compilation_digest {
                    Some(digest) => PatchOpView::Assign(PatchValueView::Digest(digest)),
                    None => PatchOpView::Clear,
                },
            ),
        ));
        patch
    }
}

/// Blocks that agree in the type of their instruction, their hint and
/// their target are hashed from the same bytes.
pub proof fn lemma_same_state_same_digest(first: PromptBlock, second: PromptBlock)
    requires
        first.instruction_type == second.instruction_type,
        first.hint is Some <==> second.hint is Some,
        first.hint is Some ==> first.hint->0@ == second.hint->0@,
        first.target_text() == second.target_text(),
    ensures
        first.digest_input() == second.digest_input(),
        sea_hash(first.digest_input()) == sea_hash(second.digest_input()),
{
}

/// Compiled again without an edit, and with the same prompt found for it,
/// a block keeps its target, its digest and its need to be executed. Here
/// `compiled` is `block` after a compilation for which `inferred` was
/// found.
pub proof fn lemma_compile_again(
    block: PromptBlock,
    compiled: PromptBlock,
    inferred: Option<Seq<char>>,
)
    requires
        compiled.instruction_type == block.instruction_type,
        compiled.hint == block.hint,
        compiled.target_text() == block.target_after(inferred),
        compiled.options == (PromptBlockOptions {
            compilation_digest: Some(block.digest_after(inferred)),
            execution_required: Some(
                spec_execution_required_digests(
                    block.options.execution_digest,
                    block.digest_after(inferred),
                ),
            ),
            ..block.options
        }),
    ensures
        compiled.target_after(inferred) == compiled.target_text(),
        Some(compiled.digest_after(inferred)) == compiled.options.compilation_digest,
        Some(
            spec_execution_required_digests(
                compiled.options.execution_digest,
                compiled.digest_after(inferred),
            ),
        ) == compiled.options.execution_required,
        compiled.compile_patches(inferred).len() == 1,
{
    assert(compiled.digest_input() == block.input_with(block.target_after(inferred)));
}

} // verus!
