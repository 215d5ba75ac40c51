//! The types of nodes, as far as the engine holds them.

use vstd::prelude::*;
use crate::digest::CompilationDigest;
use crate::node::{NodeId, NodeType, NodeUid};
use crate::status::{ExecutionRequired, ExecutionStatus};
use crate::value::Value;

verus! {

/// The type of an instruction describing the operation to be performed.
#[derive(Clone, Copy, Debug, PartialEq, Eq, Structural, Hash)]
pub enum InstructionType {
    /// Create new document content
    New,
    /// Edit existing document content
    Edit,
    /// Transform document content from one node type to another
    Transform,
    /// Describe other document content
    Describe,
    /// Update a description of other document content
    Update,
}

impl Default for InstructionType {
    fn default() -> (kind: InstructionType)
        ensures
            kind == InstructionType::New,
    {
        InstructionType::New
    }
}

impl InstructionType {
    /// The name of the type of instruction.
    pub open spec fn spec_name(self) -> Seq<char> {
        match self {
            InstructionType::New => "New"@,
            InstructionType::Edit => "Edit"@,
            InstructionType::Transform => "Transform"@,
            InstructionType::Describe => "Describe"@,
            InstructionType::Update => "Update"@,
        }
    }

    /// The name of the type of instruction.
    pub fn name(&self) -> (name: &'static str)
        ensures
            name@ == self.spec_name(),
    {
        match self {
            InstructionType::New => "New",
            InstructionType::Edit => "Edit",
            InstructionType::Transform => "Transform",
            InstructionType::Describe => "Describe",
            InstructionType::Update => "Update",
        }
    }
}

/// Indicates the action (create, update or delete) to derive for a `Form`.
#[derive(Clone, Copy, Debug, PartialEq, Eq, Structural, Hash)]
pub enum FormDeriveAction {
    Create,
    Update,
    Delete,
    UpdateOrDelete,
}

impl Default for FormDeriveAction {
    fn default() -> (action: FormDeriveAction)
        ensures
            action == FormDeriveAction::Create,
    {
        FormDeriveAction::Create
    }
}

/// The kind of a creative work.
#[derive(Clone, Copy, Debug, PartialEq, Eq, Structural, Hash)]
pub enum CreativeWorkType {
    Article,
    Chat,
    Figure,
    Prompt,
    SoftwareSourceCode,
    Table,
}

/// [`CreativeWorkType`] or [`String`]
#[derive(Clone, Debug, PartialEq, Eq)]
pub enum CreativeWorkTypeOrString {
    CreativeWorkType(CreativeWorkType),
    String(String),
}

/// An error that occurred when executing a node.
#[derive(Clone, Debug, PartialEq, Eq)]
pub struct ExecutionError {
    /// The identifier for this item.
    pub id: Option<String>,
    /// The error message or brief description of the error.
    pub error_message: String,
    /// The type of error e.g. "SyntaxError", "ZeroDivisionError".
    pub error_type: Option<String>,
    /// Stack trace leading up to the error.
    pub stack_trace: Option<String>,
}

impl ExecutionError {
    /// An error with a message and nothing else.
    pub fn new(error_message: String) -> (error: ExecutionError)
        ensures
            error.error_message == error_message,
            error.id is None,
            error.error_type is None,
            error.stack_trace is None,
    {
        ExecutionError { id: None, error_message, error_type: None, stack_trace: None }
    }
}

/// A executable chunk of code.
#[derive(Clone, Debug, PartialEq, Eq)]
pub struct CodeChunk {
    /// The identifier for this item.
    pub id: Option<String>,
    /// The code.
    pub code: String,
    /// The programming language of the code.
    pub programming_language: Option<String>,
    /// A short label for the chunk.
    pub label: Option<String>,
    /// A caption for the chunk: the blocks of the caption, by id.
    pub caption: Option<Vec<NodeId>>,
    /// Outputs from executing the chunk.
    pub outputs: Option<Vec<Value>>,
    /// Non-core optional fields
    pub options: Box<CodeChunkOptions>,
    /// A unique identifier for a node within a document
    pub uid: NodeUid,
}

/// The fields of a chunk of code that its execution fills.
#[derive(Clone, Debug, PartialEq, Eq)]
pub struct CodeChunkOptions {
    /// A digest of the content, semantics and dependencies of the node.
    pub compilation_digest: Option<CompilationDigest>,
    /// The `compilationDigest` of the node when it was last executed.
    pub execution_digest: Option<CompilationDigest>,
    /// The upstream dependencies of this node.
    pub execution_dependencies: Option<Vec<NodeId>>,
    /// The downstream dependants of this node.
    pub execution_dependants: Option<Vec<NodeId>>,
    /// A count of the number of times that the node has been executed.
    pub execution_count: Option<i64>,
    /// Whether, and why, the code requires execution or re-execution.
    pub execution_required: Option<ExecutionRequired>,
    /// Status of the most recent, including any current, execution.
    pub execution_status: Option<ExecutionStatus>,
    /// The timestamp when the last execution ended.
    pub execution_ended: Option<i64>,
    /// Duration of the last execution.
    pub execution_duration: Option<i64>,
    /// Errors when executing the node.
    pub execution_errors: Option<Vec<ExecutionError>>,
    /// Whether the code should be treated as side-effect free when executed.
    pub execution_pure: Option<bool>,
}

impl CodeChunkOptions {
    /// No field is filled.
    pub open spec fn is_blank(self) -> bool {
        &&& self.compilation_digest is None
        &&& self.execution_digest is None
        &&& self.execution_dependencies is None
        &&& self.execution_dependants is None
        &&& self.execution_count is None
        &&& self.execution_required is None
        &&& self.execution_status is None
        &&& self.execution_ended is None
        &&& self.execution_duration is None
        &&& self.execution_errors is None
        &&& self.execution_pure is None
    }
}

impl Default for CodeChunkOptions {
    fn default() -> (options: CodeChunkOptions)
        ensures
            options.is_blank(),
    {
        CodeChunkOptions {
            compilation_digest: None,
            execution_digest: None,
            execution_dependencies: None,
            execution_dependants: None,
            execution_count: None,
            execution_required: None,
            execution_status: None,
            execution_ended: None,
            execution_duration: None,
            execution_errors: None,
            execution_pure: None,
        }
    }
}

impl CodeChunk {
    /// The type of the node.
    pub fn node_type(&self) -> (node_type: NodeType)
        ensures
            node_type == NodeType::CodeChunk,
    {
        NodeType::CodeChunk
    }

    /// The id of the node: the nickname of chunks of code and the unique
    /// part of this one.
    pub fn node_id(&self) -> (id: NodeId)
        ensures
            id == (NodeId { nick0: 99, nick1: 111, nick2: 100, uid: self.uid }),
    {
        NodeId::new(&NodeType::CodeChunk.nick(), &self.uid)
    }

    /// A chunk of the code `code`, with nothing else.
    pub fn new(code: String) -> (chunk: CodeChunk)
        ensures
            chunk.code == code,
            chunk.id is None,
            chunk.programming_language is None,
            chunk.label is None,
            chunk.caption is None,
            chunk.outputs is None,
            chunk.options.is_blank(),
            chunk.uid == NodeUid(0),
    {
        CodeChunk {
            id: None,
            code,
            programming_language: None,
            label: None,
            caption: None,
            outputs: None,
            options: Box::new(CodeChunkOptions::default()),
            uid: NodeUid(0),
        }
    }
}

/// An operation that is part of a suggestion to modify content.
#[derive(Clone, Debug, PartialEq, Eq)]
pub struct ModifyOperation {
    /// The target property of each node to be modified.
    pub target: String,
    /// The new value of the property.
    pub value: String,
}

/// A suggestion to modify some inline content.
#[derive(Clone, Debug, PartialEq, Eq)]
pub struct ModifyInline {
    /// The identifier for this item.
    pub id: Option<String>,
    /// The content that is suggested to be inserted or deleted, by id.
    pub content: Vec<NodeId>,
    /// The operations to be applied to the nodes.
    pub operations: Vec<ModifyOperation>,
}

impl ModifyInline {
    /// A suggestion to apply `operations` to `content`.
    pub fn new(content: Vec<NodeId>, operations: Vec<ModifyOperation>) -> (suggestion: ModifyInline)
        ensures
            suggestion.content == content,
            suggestion.operations == operations,
            suggestion.id is None,
    {
        ModifyInline { id: None, content, operations }
    }
}

/// The most generic type of item.
#[derive(Clone, Debug, PartialEq, Eq)]
pub struct Thing {
    /// The identifier for this item.
    pub id: Option<String>,
    /// Non-core optional fields
    pub options: Box<ThingOptions>,
    /// A unique identifier for a node within a document
    pub uid: NodeUid,
}

/// The optional fields of a thing.
#[derive(Clone, Debug, PartialEq, Eq)]
pub struct ThingOptions {
    /// Alternate names (aliases) for the item.
    pub alternate_names: Option<Vec<String>>,
    /// A description of the item.
    pub description: Option<String>,
    /// The name of the item.
    pub name: Option<String>,
    /// The URL of the item.
    pub url: Option<String>,
}

impl ThingOptions {
    /// No field is filled.
    pub open spec fn is_blank(self) -> bool {
        self.alternate_names is None && self.description is None && self.name is None
            && self.url is None
    }
}

impl Default for ThingOptions {
    fn default() -> (options: ThingOptions)
        ensures
            options.is_blank(),
    {
        ThingOptions { alternate_names: None, description: None, name: None, url: None }
    }
}

impl Thing {
    /// The type of the node.
    pub fn node_type(&self) -> (node_type: NodeType)
        ensures
            node_type == NodeType::Thing,
    {
        NodeType::Thing
    }

    /// The id of the node: the nickname of things and the unique part of
    /// this one.
    pub fn node_id(&self) -> (id: NodeId)
        ensures
            id == (NodeId { nick0: 116, nick1: 104, nick2: 105, uid: self.uid }),
    {
        NodeId::new(&NodeType::Thing.nick(), &self.uid)
    }

    /// A thing with no field filled.
    pub fn new() -> (thing: Thing)
        ensures
            thing.id is None,
            thing.options.is_blank(),
            thing.uid == NodeUid(0),
    {
        Thing { id: None, options: Box::new(ThingOptions::default()), uid: NodeUid(0) }
    }
}

/// A monetary grant.
#[derive(Clone, Debug, PartialEq, Eq)]
pub struct MonetaryGrant {
    /// The identifier for this item
    pub id: Option<String>,
    /// Non-core optional fields
    pub options: Box<MonetaryGrantOptions>,
}

/// The optional fields of a monetary grant.
#[derive(Clone, Debug, PartialEq, Eq)]
pub struct MonetaryGrantOptions {
    /// Alternate names (aliases) for the item.
    pub alternate_names: Option<Vec<String>>,
    /// The name of the item.
    pub name: Option<String>,
    /// The URL of the item.
    pub url: Option<String>,
    /// Indicates an item funded or sponsored through a Grant.
    pub funded_items: Option<Vec<Thing>>,
}

impl MonetaryGrantOptions {
    /// No field is filled.
    pub open spec fn is_blank(self) -> bool {
        self.alternate_names is None && self.name is None && self.url is None
            && self.funded_items is None
    }
}

impl Default for MonetaryGrantOptions {
    fn default() -> (options: MonetaryGrantOptions)
        ensures
            options.is_blank(),
    {
        MonetaryGrantOptions { alternate_names: None, name: None, url: None, funded_items: None }
    }
}

impl MonetaryGrant {
    /// A grant with no field filled.
    pub fn new() -> (grant: MonetaryGrant)
        ensures
            grant.id is None,
            grant.options.is_blank(),
    {
        MonetaryGrant { id: None, options: Box::new(MonetaryGrantOptions::default()) }
    }
}

/// Computer programming source code. Example: Full (compile ready)
/// solutions, code snippet samples, scripts, templates.
#[derive(Clone, Debug, PartialEq, Eq)]
pub struct SoftwareSourceCode {
    /// The identifier for this item.
    pub id: Option<String>,
    /// The name of the item.
    pub name: String,
    /// The computer programming language.
    pub programming_language: String,
    /// Link to the repository where the un-compiled, human readable code and
    /// related code is located.
    pub code_repository: Option<String>,
    /// Non-core optional fields
    pub options: Box<SoftwareSourceCodeOptions>,
    /// A unique identifier for a node within a document
    pub uid: NodeUid,
}

/// The optional fields of source code.
#[derive(Clone, Debug, PartialEq, Eq)]
pub struct SoftwareSourceCodeOptions {
    /// Alternate names (aliases) for the item.
    pub alternate_names: Option<Vec<String>>,
    /// A description of the item.
    pub description: Option<String>,
    /// The URL of the item.
    pub url: Option<String>,
    /// Runtime platform or script interpreter dependencies
    pub runtime_platform: Option<Vec<String>>,
}

impl SoftwareSourceCodeOptions {
    /// No field is filled.
    pub open spec fn is_blank(self) -> bool {
        self.alternate_names is None && self.description is None && self.url is None
            && self.runtime_platform is None
    }
}

impl Default for SoftwareSourceCodeOptions {
    fn default() -> (options: SoftwareSourceCodeOptions)
        ensures
            options.is_blank(),
    {
        SoftwareSourceCodeOptions {
            alternate_names: None,
            description: None,
            url: None,
            runtime_platform: None,
        }
    }
}

impl SoftwareSourceCode {
    /// The type of the node.
    pub fn node_type(&self) -> (node_type: NodeType)
        ensures
            node_type == NodeType::SoftwareSourceCode,
    {
        NodeType::SoftwareSourceCode
    }

    /// The id of the node: the nickname of source code and the unique part
    /// of this one.
    pub fn node_id(&self) -> (id: NodeId)
        ensures
            id == (NodeId { nick0: 115, nick1: 115, nick2: 99, uid: self.uid }),
    {
        NodeId::new(&NodeType::SoftwareSourceCode.nick(), &self.uid)
    }

    /// Source code with a name and a language, and nothing else.
    pub fn new(name: String, programming_language: String) -> (code: SoftwareSourceCode)
        ensures
            code.name == name,
            code.programming_language == programming_language,
            code.id is None,
            code.code_repository is None,
            code.options.is_blank(),
            code.uid == NodeUid(0),
    {
        SoftwareSourceCode {
            id: None,
            name,
            programming_language,
            code_repository: None,
            options: Box::new(SoftwareSourceCodeOptions::default()),
            uid: NodeUid(0),
        }
    }
}

} // verus!
