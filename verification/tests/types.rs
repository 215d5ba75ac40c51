use docengine::agent::{agent_name, supports_from_to, AgentIO, GenerateContext};
use docengine::node::{NodeId, NodeType, NodeUid};
use docengine::paragraphs::{Paragraph, Paragraphs};
use docengine::types::{
    CodeChunk, CodeChunkOptions, CreativeWorkType, CreativeWorkTypeOrString, ExecutionError,
    FormDeriveAction, InstructionType, ModifyInline, ModifyOperation, MonetaryGrant,
    SoftwareSourceCode, Thing,
};

#[test]
fn node_ids_start_with_the_nickname_of_their_kind() {
    let chunk = CodeChunk::new(String::from("x = 2"));
    assert_eq!(chunk.node_type(), NodeType::CodeChunk);
    assert_eq!(chunk.node_id().nick(), *b"cod");
    assert_eq!(chunk.node_id().uid, NodeUid(0));
    let thing = Thing::new();
    assert_eq!(thing.node_type(), NodeType::Thing);
    assert_eq!(thing.node_id().nick(), [116, 104, 105]);
    let code = SoftwareSourceCode::new(String::from("tool"), String::from("rust"));
    assert_eq!(code.node_type(), NodeType::SoftwareSourceCode);
    assert_eq!(code.node_id().nick(), [115, 115, 99]);
    assert_eq!(NodeId::new(b"cod", &NodeUid(7)), NodeId { nick0: 99, nick1: 111, nick2: 100, uid: NodeUid(7) });
    assert_eq!(NodeType::Chat.name(), "Chat");
    assert_eq!(NodeUid::default(), NodeUid(0));
}

#[test]
fn new_nodes_hold_what_they_are_given_and_nothing_else() {
    let chunk = CodeChunk::new(String::from("x = 2"));
    assert_eq!(chunk.code, "x = 2");
    assert_eq!(chunk.id, None);
    assert_eq!(chunk.programming_language, None);
    assert_eq!(chunk.outputs, None);
    assert_eq!(*chunk.options, CodeChunkOptions::default());
    assert_eq!(chunk.options.execution_count, None);
    assert_eq!(chunk.options.execution_status, None);

    let code = SoftwareSourceCode::new(String::from("tool"), String::from("rust"));
    assert_eq!(code.name, "tool");
    assert_eq!(code.programming_language, "rust");
    assert_eq!(code.code_repository, None);
    assert_eq!(code.options.runtime_platform, None);

    let thing = Thing::new();
    assert_eq!(thing.id, None);
    assert_eq!(thing.options.name, None);

    let grant = MonetaryGrant::new();
    assert_eq!(grant.id, None);
    assert_eq!(grant.options.funded_items, None);

    let error = ExecutionError::new(String::from("boom"));
    assert_eq!(error.error_message, "boom");
    assert_eq!(error.error_type, None);
    assert_eq!(error.stack_trace, None);

    let operation = ModifyOperation { target: String::from("value"), value: String::from("1") };
    let content = vec![NodeId::new(b"txt", &NodeUid(1))];
    let modify = ModifyInline::new(content.clone(), vec![operation.clone()]);
    assert_eq!(modify.content, content);
    assert_eq!(modify.operations, vec![operation]);
    assert_eq!(modify.id, None);
}

#[test]
fn enumerations_have_their_defaults_and_names() {
    assert_eq!(InstructionType::default(), InstructionType::New);
    assert_eq!(FormDeriveAction::default(), FormDeriveAction::Create);
    assert_eq!(InstructionType::Describe.name(), "Describe");
    assert_ne!(
        CreativeWorkTypeOrString::CreativeWorkType(CreativeWorkType::Article),
        CreativeWorkTypeOrString::String(String::from("Article"))
    );
}

#[test]
fn paragraphs_are_walked_with_a_cursor() {
    let mut paragraphs = Paragraphs::new(vec![Paragraph::new("one"), Paragraph::new("two")]);
    paragraphs.push(Paragraph::new("three"));
    assert_eq!(paragraphs.count(), 3);
    assert_eq!(paragraphs.all().len(), 3);
    assert_eq!(paragraphs.first(), Some(Paragraph::new("one")));
    assert_eq!(paragraphs.last(), Some(Paragraph::new("three")));
    assert_eq!(paragraphs.previous(), None);
    assert_eq!(paragraphs.next(), Some(Paragraph::new("one")));
    paragraphs.forward();
    assert_eq!(paragraphs.cursor, Some(0));
    assert_eq!(paragraphs.previous(), Some(Paragraph::new("one")));
    assert_eq!(paragraphs.next(), Some(Paragraph::new("two")));
    paragraphs.forward();
    paragraphs.forward();
    assert_eq!(paragraphs.previous(), Some(Paragraph::new("three")));
    assert_eq!(paragraphs.next(), None);
    paragraphs.forward();
    assert_eq!(paragraphs.cursor, Some(3));
    assert_eq!(paragraphs.previous(), None);

    let empty = Paragraphs::new(vec![]);
    assert_eq!(empty.first(), None);
    assert_eq!(empty.last(), None);
    assert_eq!(empty.next(), None);
    assert_eq!(empty.count(), 0);
}

#[test]
fn context_gives_the_rendered_prompt_or_the_instruction() {
    let document = NodeId::new(b"art", &NodeUid(1));
    let mut context = GenerateContext::new("summarise this", Some(document), None);
    assert_eq!(context.user_instruction, "summarise this");
    assert_eq!(context.document, Some(document));
    assert_eq!(context.node, None);
    assert_eq!(context.user_prompt(), "summarise this");
    assert_eq!(context.system_prompt(), None);
    context.user_prompt = Some(String::from("Summarise the following"));
    context.system_prompt = Some(String::from("You are terse"));
    assert_eq!(context.user_prompt(), "Summarise the following");
    assert_eq!(context.system_prompt(), Some("You are terse"));
}

#[test]
fn agent_supports_what_it_takes_and_gives() {
    assert_eq!(agent_name("openai", "gpt-4"), "openai/gpt-4");
    let inputs = vec![AgentIO::Text, AgentIO::Image];
    let outputs = vec![AgentIO::Text];
    assert!(supports_from_to(&inputs, &outputs, AgentIO::Image, AgentIO::Text));
    assert!(!supports_from_to(&inputs, &outputs, AgentIO::Text, AgentIO::Image));
    assert!(!supports_from_to(&inputs, &outputs, AgentIO::Audio, AgentIO::Text));
    assert!(!supports_from_to(&vec![], &vec![], AgentIO::Text, AgentIO::Text));
    assert_eq!(docengine::agent::supported(&vec![]), vec![AgentIO::Text]);
    assert_eq!(docengine::agent::supported(&vec![AgentIO::Image, AgentIO::Audio]), vec![AgentIO::Image, AgentIO::Audio]);
    assert_eq!(
        docengine::kernel_space::Kernel::available(vec![String::from("python3")]),
        vec![String::from("calc"), String::from("python3")]
    );
}
