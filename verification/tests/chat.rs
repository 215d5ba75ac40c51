use docengine::chat::{
    mark_blocks, BlockInfo, Chat, ChatPrompt, ModelParameters, PatchContext, RelativePosition,
};
use docengine::digest::CompilationDigest;
use docengine::format::Format;
use docengine::node::{make_id, NodeType, NodeUid};
use docengine::node_property::NodeProperty;
use docengine::patch::{PatchOp, PatchPath, PatchSlot, PatchValue};
use docengine::planner::ExecutionMode;
use docengine::execution::{
    error_to_execution_message, execution_duration, execution_status, ExecutionMessage,
    MessageLevel, WalkControl,
};
use docengine::prompt_block::{PromptBlock, PromptBlockOptions};
use docengine::status::{ExecutionRequired, ExecutionStatus};
use docengine::types::InstructionType;

fn chat() -> Chat {
    Chat {
        uid: NodeUid(5),
        content: vec![],
        prompt: ChatPrompt {
            query: Some(String::from("a table of planets")),
            instruction_type: Some(InstructionType::New),
            relative_position: Some(RelativePosition::Next),
            node_type: Some(NodeType::Table),
        },
        model_parameters: ModelParameters { model_ids: None, replicates: None },
        execution_status: None,
        execution_count: None,
        is_ephemeral: None,
    }
}

fn set(property: NodeProperty, value: PatchValue) -> (PatchPath, PatchOp) {
    (PatchPath::from(property), PatchOp::Assign(value))
}

fn status(status: ExecutionStatus) -> (PatchPath, PatchOp) {
    set(NodeProperty::ExecutionStatus, PatchValue::Status(status))
}

#[test]
fn chat_is_prepared_only_when_asked_for_by_id() {
    let mut it = chat();
    let id = it.node_id();
    assert_eq!(id, make_id(NodeType::Chat, 5));
    assert_eq!(it.prepare(&None), (WalkControl::Continue, None));
    assert_eq!(it.prepare(&Some(vec![make_id(NodeType::Chat, 6)])), (WalkControl::Continue, None));
    assert_eq!(it.execution_status, None);
    let (control, patch) = it.prepare(&Some(vec![make_id(NodeType::Chat, 6), id]));
    assert_eq!(control, WalkControl::Break);
    let patch = patch.unwrap();
    assert_eq!(patch.node_id, Some(id));
    assert_eq!(patch.ops, vec![status(ExecutionStatus::Pending)]);
    assert_eq!(it.execution_status, Some(ExecutionStatus::Pending));
}

#[test]
fn chat_that_is_not_pending_is_not_executed() {
    let mut it = chat();
    let start = it.execute_begin(&vec![], 100);
    assert_eq!(start.control, WalkControl::Continue);
    assert!(start.patches.is_empty() && start.model_messages.is_empty());
    assert!(start.first_message.is_none() && start.group.is_none());
    assert!(it.content.is_empty());
}

#[test]
fn first_message_is_made_from_the_query() {
    let mut it = chat();
    assert_eq!(it.prompt.first_message(), "New next Table a table of planets");
    it.execution_status = Some(ExecutionStatus::Pending);
    let start = it.execute_begin(&vec![], 100);
    assert_eq!(start.control, WalkControl::Break);
    let first = start.first_message.unwrap();
    assert_eq!(first.node_id, make_id(NodeType::ChatMessage, 100));
    assert_eq!(first.text, "New next Table a table of planets");
    assert_eq!(it.content, vec![PatchValue::Node(first.node_id)]);

    assert_eq!(start.model_messages.len(), 1);
    assert_eq!(start.model_messages[0].node_id, make_id(NodeType::ChatMessage, 101));
    assert_eq!(start.model_messages[0].text, "stencila/router");
    assert_eq!(start.group, None);

    let id = it.node_id();
    assert_eq!(start.patches.len(), 4);
    assert!(start.patches.iter().all(|patch| patch.node_id.is_some()));
    assert_eq!(start.patches[0].node_id, Some(id));
    assert_eq!(
        start.patches[0].ops,
        vec![status(ExecutionStatus::Running), (PatchPath::from(NodeProperty::ExecutionMessages), PatchOp::Clear)]
    );
    assert_eq!(
        start.patches[1].ops,
        vec![(PatchPath::from(NodeProperty::Content), PatchOp::Push(PatchValue::Node(first.node_id)))]
    );
    assert_eq!(start.patches[2].node_id, Some(first.node_id));
    assert_eq!(start.patches[2].ops, vec![status(ExecutionStatus::Succeeded)]);
    assert_eq!(start.patches[3].node_id, Some(id));
    assert_eq!(
        start.patches[3].ops,
        vec![(PatchPath::from(NodeProperty::Content), PatchOp::Push(PatchValue::Node(make_id(NodeType::ChatMessage, 101))))]
    );

    let mut bare = chat();
    bare.prompt.instruction_type = None;
    bare.prompt.relative_position = None;
    bare.prompt.node_type = None;
    assert_eq!(bare.prompt.first_message(), "a table of planets");
    bare.prompt.relative_position = Some(RelativePosition::Previous);
    assert_eq!(bare.prompt.first_message(), "previous a table of planets");
}

#[test]
fn several_answers_stand_in_a_group() {
    let mut it = chat();
    it.execution_status = Some(ExecutionStatus::Pending);
    it.content = vec![PatchValue::Node(make_id(NodeType::ChatMessage, 1)), PatchValue::Node(make_id(NodeType::Paragraph, 2))];
    it.model_parameters = ModelParameters {
        model_ids: Some(vec![String::from("a/one"), String::from("b/two")]),
        replicates: Some(2),
    };
    let authors = it.model_parameters.authors();
    assert_eq!(authors, vec!["a/one", "a/one", "b/two", "b/two"]);
    let blocks = vec![
        BlockInfo { node_id: make_id(NodeType::ChatMessage, 1), is_chat_message: true, status: None },
        BlockInfo { node_id: make_id(NodeType::Paragraph, 2), is_chat_message: false, status: None },
    ];
    let start = it.execute_begin(&blocks, 10);
    assert!(start.first_message.is_none());
    assert_eq!(it.content.len(), 2);
    let ids: Vec<_> = start.model_messages.iter().map(|message| message.node_id).collect();
    assert_eq!(ids, (11..15).map(|uid| make_id(NodeType::ChatMessage, uid)).collect::<Vec<_>>());
    let models: Vec<_> = start.model_messages.iter().map(|message| message.text.as_str()).collect();
    assert_eq!(models, vec!["a/one", "a/one", "b/two", "b/two"]);
    let group = make_id(NodeType::ChatMessageGroup, 15);
    assert_eq!(start.group, Some(group));
    assert_eq!(start.patches.len(), 3);
    assert_eq!(start.patches[1].node_id, Some(blocks[0].node_id));
    assert_eq!(
        start.patches[2].ops,
        vec![(PatchPath::from(NodeProperty::Content), PatchOp::Push(PatchValue::Node(group)))]
    );

    it.model_parameters.replicates = Some(0);
    assert!(it.model_parameters.authors().is_empty());
}

#[test]
fn end_of_execution_marks_messages_and_counts_the_execution() {
    let mut it = chat();
    it.execution_status = Some(ExecutionStatus::Pending);
    it.execution_count = Some(2);
    let start = it.execute_begin(&vec![], 100);
    let user = start.first_message.unwrap().node_id;
    let blocks = vec![BlockInfo { node_id: user, is_chat_message: true, status: Some(ExecutionStatus::Running) }];
    let answer = vec![PatchValue::Node(make_id(NodeType::Paragraph, 200))];
    let patches = it.execute_end(&blocks, &start.model_messages, vec![answer.clone()], &vec![], 1_000, 4_000);
    assert_eq!(it.execution_status, Some(ExecutionStatus::Succeeded));
    assert_eq!(it.execution_count, Some(3));
    assert_eq!(patches.len(), 3);
    assert_eq!(patches[0].node_id, Some(user));
    assert_eq!(patches[0].ops, vec![status(ExecutionStatus::Succeeded)]);
    assert_eq!(patches[1].node_id, Some(start.model_messages[0].node_id));
    assert_eq!(
        patches[1].ops,
        vec![status(ExecutionStatus::Succeeded), (PatchPath::from(NodeProperty::Content), PatchOp::Append(answer))]
    );
    assert_eq!(patches[2].node_id, Some(it.node_id()));
    assert_eq!(
        patches[2].ops,
        vec![
            status(ExecutionStatus::Succeeded),
            set(NodeProperty::ExecutionRequired, PatchValue::Required(ExecutionRequired::No)),
            (PatchPath::from(NodeProperty::ExecutionMessages), PatchOp::Clear),
            set(NodeProperty::ExecutionDuration, PatchValue::Integer(3_000)),
            set(NodeProperty::ExecutionEnded, PatchValue::Integer(4_000)),
            set(NodeProperty::ExecutionCount, PatchValue::Integer(3)),
        ]
    );
}

#[test]
fn messages_decide_the_status_of_an_execution() {
    let message = |level| ExecutionMessage { level, message: String::from("m") };
    assert_eq!(execution_status(&vec![]), ExecutionStatus::Succeeded);
    assert_eq!(execution_status(&vec![message(MessageLevel::Warning), message(MessageLevel::Info)]), ExecutionStatus::Succeeded);
    assert_eq!(execution_status(&vec![message(MessageLevel::Warning), message(MessageLevel::Error)]), ExecutionStatus::Failed);
    assert_eq!(execution_status(&vec![message(MessageLevel::Error), message(MessageLevel::Exception)]), ExecutionStatus::Exceptions);
    assert_eq!(execution_duration(5, 12), 7);
    assert_eq!(execution_duration(i64::MIN, i64::MAX), i64::MAX);
    assert_eq!(execution_duration(i64::MAX, i64::MIN), i64::MIN);
    let told = error_to_execution_message("While executing prompt", "no kernel");
    assert_eq!(told.message, "While executing prompt: no kernel");
    assert_eq!(told.level, MessageLevel::Exception);
}

#[test]
fn marking_is_lenient_at_the_start_and_strict_at_the_end() {
    let blocks = vec![
        BlockInfo { node_id: make_id(NodeType::ChatMessage, 1), is_chat_message: true, status: None },
        BlockInfo { node_id: make_id(NodeType::ChatMessage, 2), is_chat_message: true, status: Some(ExecutionStatus::Running) },
        BlockInfo { node_id: make_id(NodeType::ChatMessage, 3), is_chat_message: true, status: Some(ExecutionStatus::Succeeded) },
        BlockInfo { node_id: make_id(NodeType::Paragraph, 4), is_chat_message: false, status: None },
    ];
    let lenient: Vec<_> = mark_blocks(&blocks, false).iter().map(|patch| patch.node_id.unwrap().uid.0).collect();
    assert_eq!(lenient, vec![1]);
    let strict: Vec<_> = mark_blocks(&blocks, true).iter().map(|patch| patch.node_id.unwrap().uid.0).collect();
    assert_eq!(strict, vec![1, 2]);
}

#[test]
fn content_of_a_nested_chat_is_not_patched_from_a_lossy_format() {
    let push = || PatchOp::Push(PatchValue::Node(make_id(NodeType::Paragraph, 1)));
    let lossy = PatchContext { format: Some(Format::Markdown) };
    let lossless = PatchContext { format: Some(Format::Json) };
    let none = PatchContext { format: None };

    // a nested chat
    let mut nested = chat();
    nested.is_ephemeral = Some(true);
    let mut path = PatchPath::from(NodeProperty::Content);
    assert!(nested.apply_with(&mut path, push(), &lossy));
    assert!(nested.content.is_empty());
    assert_eq!(path, PatchPath::from(NodeProperty::Content));
    assert!(nested.apply_with(&mut path, push(), &lossless));
    assert_eq!(nested.content.len(), 1);
    assert!(path.is_empty());
    let mut path = PatchPath::from(NodeProperty::Content);
    assert!(nested.apply_with(&mut path, push(), &none));
    assert_eq!(nested.content.len(), 2);

    // a chat that is a document of its own
    let mut root = chat();
    let mut path = PatchPath::from(NodeProperty::Content);
    assert!(root.apply_with(&mut path, push(), &lossy));
    assert_eq!(root.content.len(), 1);
    let mut path = PatchPath { slots: vec![PatchSlot::Property(NodeProperty::Content), PatchSlot::Index(0)] };
    assert!(root.apply_with(&mut path, PatchOp::Assign(PatchValue::Integer(4)), &lossy));
    assert_eq!(root.content, vec![PatchValue::Integer(4)]);

    // any other path is not the chat's to handle
    let mut path = PatchPath::from(NodeProperty::Target);
    assert!(!root.apply_with(&mut path, PatchOp::Clear, &none));
    assert!(!root.apply_with(&mut PatchPath::new(), PatchOp::Clear, &none));
    assert_eq!(root.content.len(), 1);
}

fn block() -> PromptBlock {
    PromptBlock {
        uid: NodeUid(9),
        instruction_type: Some(InstructionType::Edit),
        hint: Some(String::from("shorter")),
        target: None,
        content: None,
        execution_mode: Some(ExecutionMode::Auto),
        options: PromptBlockOptions {
            compilation_digest: None,
            execution_digest: None,
            execution_required: None,
            execution_status: None,
            execution_count: None,
        },
    }
}

#[test]
fn digest_is_the_hash_of_the_parts_of_the_block() {
    let it = block();
    let digest = it.state_digest();
    assert_ne!(digest, 0);
    // the hash itself, text by text with a byte that ends each
    assert_eq!(digest, seahash::hash(b"Edit\xffshorter\xff"));
    // the same as hashing the texts one after the other
    let mut hasher = seahash::SeaHasher::new();
    std::hash::Hash::hash("Edit", &mut hasher);
    std::hash::Hash::hash("shorter", &mut hasher);
    assert_eq!(digest, std::hash::Hasher::finish(&hasher));
    // compiled twice without an edit, the digest is the same
    assert_eq!(digest, block().state_digest());
    let mut edited = block();
    edited.hint = Some(String::from("longer"));
    assert_ne!(edited.state_digest(), digest);
    let mut targeted = block();
    targeted.target = Some(String::from("edit/text"));
    assert_eq!(targeted.state_digest(), seahash::hash(b"Edit\xffshorter\xffedit/text\xff"));
    let mut bare = block();
    bare.instruction_type = None;
    bare.hint = None;
    assert_eq!(bare.state_digest(), seahash::hash(b""));
}

#[test]
fn target_is_inferred_when_absent_or_stale() {
    let mut it = block();
    assert!(it.wants_target());
    assert!(it.needs_target(&CompilationDigest::new(it.state_digest())));
    let (control, patches) = it.compile_with(Some("edit/text"));
    // the digest is that of the block with its new target
    let digest = CompilationDigest::new(seahash::hash(b"Edit\xffshorter\xffedit/text?\xff"));
    assert_eq!(control, WalkControl::Break);
    assert_eq!(it.target.as_deref(), Some("edit/text?"));
    assert_eq!(it.state_digest(), digest.state_digest);
    assert_eq!(it.options.compilation_digest, Some(digest));
    assert_eq!(it.options.execution_required, Some(ExecutionRequired::NeverExecuted));
    assert_eq!(patches.len(), 2);
    assert_eq!(patches[0].ops, vec![set(NodeProperty::Target, PatchValue::String(String::from("edit/text?")))]);
    assert_eq!(
        patches[1].ops,
        vec![
            set(NodeProperty::CompilationDigest, PatchValue::Digest(digest)),
            set(NodeProperty::ExecutionRequired, PatchValue::Required(ExecutionRequired::NeverExecuted)),
        ]
    );

    // with another digest the target is inferred anew
    assert!(it.needs_target(&CompilationDigest::new(1)));
    // after an edit too
    let mut edited = it.clone();
    edited.hint = Some(String::from("longer"));
    assert!(edited.wants_target());
    let (_, patches) = edited.compile_with(Some("edit/long"));
    assert_eq!(edited.target.as_deref(), Some("edit/long?"));
    assert_eq!(patches.len(), 2);
    assert_eq!(
        edited.options.compilation_digest,
        Some(CompilationDigest::new(seahash::hash(b"Edit\xfflonger\xffedit/long?\xff")))
    );
    // a target that was given is never inferred
    it.target = Some(String::from("edit/text"));
    assert!(!it.needs_target(&CompilationDigest::new(1)));
    assert!(!it.wants_target());
    // no prompt found: the target stays as it is
    let mut none = block();
    let (_, patches) = none.compile_with(None);
    assert_eq!(none.target, None);
    assert_eq!(patches.len(), 1);
    assert_eq!(
        none.options.compilation_digest,
        Some(CompilationDigest::new(seahash::hash(b"Edit\xffshorter\xff")))
    );
}

#[test]
fn compiled_twice_a_prompt_block_keeps_its_digest() {
    // a block without a target gets one at its first compilation
    let mut it = block();
    it.compile_with(Some("edit/text"));
    let first = it.clone();
    assert!(!it.wants_target());
    let (_, patches) = it.compile_with(Some("edit/text"));
    assert_eq!(it, first);
    assert_eq!(it.options.compilation_digest, first.options.compilation_digest);
    assert_eq!(it.options.execution_required, first.options.execution_required);
    assert_eq!(patches.len(), 1);
    assert_eq!(
        patches[0].ops,
        vec![
            set(NodeProperty::CompilationDigest, PatchValue::Digest(first.options.compilation_digest.unwrap())),
            set(NodeProperty::ExecutionRequired, PatchValue::Required(ExecutionRequired::NeverExecuted)),
        ]
    );
    // whatever prompt would be found now, the inferred target stays
    it.compile_with(Some("other"));
    assert_eq!(it, first);

    // a block for which no prompt is found
    let mut none = block();
    none.compile_with(None);
    let first = none.clone();
    none.compile_with(None);
    assert_eq!(none, first);

    // a block with a target that was given
    let mut given = block();
    given.target = Some(String::from("edit/text"));
    given.compile_with(Some("other"));
    let first = given.clone();
    assert_eq!(given.target.as_deref(), Some("edit/text"));
    given.compile_with(Some("other"));
    assert_eq!(given, first);
}

#[test]
fn execution_of_a_prompt_block_ends_with_its_digest() {
    let mut it = block();
    it.compile_with(None);
    let compiled = CompilationDigest::new(seahash::hash(b"Edit\xffshorter\xff"));
    assert_eq!(it.prepare(None), (WalkControl::Break, None));
    let (_, patch) = it.prepare(Some(ExecutionStatus::Pending));
    assert_eq!(patch.unwrap().ops, vec![status(ExecutionStatus::Pending)]);
    let patch = it.execute_begin();
    assert_eq!(patch.ops, vec![status(ExecutionStatus::Running)]);
    assert_eq!(it.options.execution_status, Some(ExecutionStatus::Running));

    let failed = it.execute_failed("not found");
    assert_eq!(
        failed.ops,
        vec![
            status(ExecutionStatus::Exceptions),
            (PatchPath::from(NodeProperty::ExecutionMessages), PatchOp::Append(vec![PatchValue::String(String::from("While getting prompt: not found"))])),
        ]
    );

    let content = vec![PatchValue::Node(make_id(NodeType::Paragraph, 1))];
    let patch = it.execute_content(content.clone());
    assert_eq!(it.content, Some(content.clone()));
    assert_eq!(
        patch.ops,
        vec![
            (PatchPath::from(NodeProperty::Content), PatchOp::Clear),
            (PatchPath::from(NodeProperty::Content), PatchOp::Append(content)),
        ]
    );

    let messages = vec![error_to_execution_message("While executing prompt", "boom")];
    let patch = it.execute_end(&messages, 10, 25);
    assert_eq!(it.options.execution_status, Some(ExecutionStatus::Exceptions));
    assert_eq!(it.options.execution_count, Some(1));
    assert_eq!(it.options.execution_digest, Some(compiled));
    assert_eq!(
        patch.ops,
        vec![
            status(ExecutionStatus::Exceptions),
            set(NodeProperty::ExecutionRequired, PatchValue::Required(ExecutionRequired::StateChanged)),
            (PatchPath::from(NodeProperty::ExecutionMessages), PatchOp::Append(vec![PatchValue::String(String::from("While executing prompt: boom"))])),
            set(NodeProperty::ExecutionDuration, PatchValue::Integer(15)),
            set(NodeProperty::ExecutionEnded, PatchValue::Integer(25)),
            set(NodeProperty::ExecutionCount, PatchValue::Integer(1)),
            set(NodeProperty::ExecutionDigest, PatchValue::Digest(compiled)),
        ]
    );
    let again = it.execute_end(&vec![], 30, 40);
    assert_eq!(it.options.execution_count, Some(2));
    assert_eq!(again.ops[0], status(ExecutionStatus::Succeeded));
}
