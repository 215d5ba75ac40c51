//! Kinds and identifiers of document nodes.

use vstd::prelude::*;

verus! {

/// The kind of a node of the document tree.
#[derive(Clone, Copy, Debug, PartialEq, Eq, Structural)]
pub enum NodeType {
    Article,
    CallBlock,
    Chat,
    ChatMessage,
    ChatMessageGroup,
    CodeBlock,
    CodeChunk,
    CodeExpression,
    ExecutionError,
    Figure,
    ForBlock,
    Heading,
    IfBlock,
    IncludeBlock,
    List,
    ModifyInline,
    MonetaryGrant,
    Paragraph,
    Parameter,
    PromptBlock,
    SoftwareSourceCode,
    Table,
    Thing,
}

impl NodeType {
    /// The name of the kind.
    pub open spec fn spec_name(self) -> Seq<char> {
        match self {
            NodeType::Article => "Article"@,
            NodeType::CallBlock => "CallBlock"@,
            NodeType::Chat => "Chat"@,
            NodeType::ChatMessage => "ChatMessage"@,
            NodeType::ChatMessageGroup => "ChatMessageGroup"@,
            NodeType::CodeBlock => "CodeBlock"@,
            NodeType::CodeChunk => "CodeChunk"@,
            NodeType::CodeExpression => "CodeExpression"@,
            NodeType::ExecutionError => "ExecutionError"@,
            NodeType::Figure => "Figure"@,
            NodeType::ForBlock => "ForBlock"@,
            NodeType::Heading => "Heading"@,
            NodeType::IfBlock => "IfBlock"@,
            NodeType::IncludeBlock => "IncludeBlock"@,
            NodeType::List => "List"@,
            NodeType::ModifyInline => "ModifyInline"@,
            NodeType::MonetaryGrant => "MonetaryGrant"@,
            NodeType::Paragraph => "Paragraph"@,
            NodeType::Parameter => "Parameter"@,
            NodeType::PromptBlock => "PromptBlock"@,
            NodeType::SoftwareSourceCode => "SoftwareSourceCode"@,
            NodeType::Table => "Table"@,
            NodeType::Thing => "Thing"@,
        }
    }

    /// The name of the kind.
    pub fn name(&self) -> (name: &'static str)
        ensures
            name@ == self.spec_name(),
    {
        match self {
            NodeType::Article => "Article",
            NodeType::CallBlock => "CallBlock",
            NodeType::Chat => "Chat",
            NodeType::ChatMessage => "ChatMessage",
            NodeType::ChatMessageGroup => "ChatMessageGroup",
            NodeType::CodeBlock => "CodeBlock",
            NodeType::CodeChunk => "CodeChunk",
            NodeType::CodeExpression => "CodeExpression",
            NodeType::ExecutionError => "ExecutionError",
            NodeType::Figure => "Figure",
            NodeType::ForBlock => "ForBlock",
            NodeType::Heading => "Heading",
            NodeType::IfBlock => "IfBlock",
            NodeType::IncludeBlock => "IncludeBlock",
            NodeType::List => "List",
            NodeType::ModifyInline => "ModifyInline",
            NodeType::MonetaryGrant => "MonetaryGrant",
            NodeType::Paragraph => "Paragraph",
            NodeType::Parameter => "Parameter",
            NodeType::PromptBlock => "PromptBlock",
            NodeType::SoftwareSourceCode => "SoftwareSourceCode",
            NodeType::Table => "Table",
            NodeType::Thing => "Thing",
        }
    }

    /// The three-letter nickname that starts the identifiers of nodes of
    /// this kind.
    pub open spec fn spec_nick(self) -> [u8; 3] {
        match self {
            NodeType::Article => [97u8, 114u8, 116u8],
            NodeType::CallBlock => [99u8, 108u8, 98u8],
            NodeType::Chat => [99u8, 104u8, 116u8],
            NodeType::ChatMessage => [99u8, 104u8, 109u8],
            NodeType::ChatMessageGroup => [99u8, 109u8, 103u8],
            NodeType::CodeBlock => [99u8, 100u8, 98u8],
            NodeType::CodeChunk => [99u8, 111u8, 100u8],
            NodeType::CodeExpression => [99u8, 100u8, 101u8],
            NodeType::ExecutionError => [101u8, 120u8, 101u8],
            NodeType::Figure => [102u8, 105u8, 103u8],
            NodeType::ForBlock => [102u8, 111u8, 114u8],
            NodeType::Heading => [104u8, 101u8, 97u8],
            NodeType::IfBlock => [105u8, 102u8, 98u8],
            NodeType::IncludeBlock => [105u8, 110u8, 99u8],
            NodeType::List => [108u8, 115u8, 116u8],
            NodeType::ModifyInline => [109u8, 100u8, 105u8],
            NodeType::MonetaryGrant => [109u8, 111u8, 110u8],
            NodeType::Paragraph => [112u8, 103u8, 104u8],
            NodeType::Parameter => [112u8, 97u8, 114u8],
            NodeType::PromptBlock => [112u8, 114u8, 98u8],
            NodeType::SoftwareSourceCode => [115u8, 115u8, 99u8],
            NodeType::Table => [116u8, 98u8, 108u8],
            NodeType::Thing => [116u8, 104u8, 105u8],
        }
    }

    /// The nickname of this kind.
    #[verifier::when_used_as_spec(spec_nick)]
    pub fn nick(self) -> (nick: [u8; 3])
        ensures
            nick == self.spec_nick(),
    {
        match self {
            NodeType::Article => [97u8, 114u8, 116u8],
            NodeType::CallBlock => [99u8, 108u8, 98u8],
            NodeType::Chat => [99u8, 104u8, 116u8],
            NodeType::ChatMessage => [99u8, 104u8, 109u8],
            NodeType::ChatMessageGroup => [99u8, 109u8, 103u8],
            NodeType::CodeBlock => [99u8, 100u8, 98u8],
            NodeType::CodeChunk => [99u8, 111u8, 100u8],
            NodeType::CodeExpression => [99u8, 100u8, 101u8],
            NodeType::ExecutionError => [101u8, 120u8, 101u8],
            NodeType::Figure => [102u8, 105u8, 103u8],
            NodeType::ForBlock => [102u8, 111u8, 114u8],
            NodeType::Heading => [104u8, 101u8, 97u8],
            NodeType::IfBlock => [105u8, 102u8, 98u8],
            NodeType::IncludeBlock => [105u8, 110u8, 99u8],
            NodeType::List => [108u8, 115u8, 116u8],
            NodeType::ModifyInline => [109u8, 100u8, 105u8],
            NodeType::MonetaryGrant => [109u8, 111u8, 110u8],
            NodeType::Paragraph => [112u8, 103u8, 104u8],
            NodeType::Parameter => [112u8, 97u8, 114u8],
            NodeType::PromptBlock => [112u8, 114u8, 98u8],
            NodeType::SoftwareSourceCode => [115u8, 115u8, 99u8],
            NodeType::Table => [116u8, 98u8, 108u8],
            NodeType::Thing => [116u8, 104u8, 105u8],
        }
    }
}

/// The part of a node's identifier that is unique within its document.
#[derive(Clone, Copy, Debug, PartialEq, Eq, Structural, Hash)]
pub struct NodeUid(pub u64);

impl Default for NodeUid {
    fn default() -> (uid: NodeUid)
        ensures
            uid == NodeUid(0),
    {
        NodeUid(0)
    }
}

/// The stable identifier of a node: the three letters of the nickname of
/// its kind, and its unique part.
#[derive(Clone, Copy, Debug, PartialEq, Eq, Structural, Hash)]
pub struct NodeId {
    pub nick0: u8,
    pub nick1: u8,
    pub nick2: u8,
    pub uid: NodeUid,
}

impl NodeId {
    /// The identifier made of a nickname and a unique part.
    pub fn new(nick: &[u8; 3], uid: &NodeUid) -> (id: NodeId)
        ensures
            id == (NodeId { nick0: nick[0], nick1: nick[1], nick2: nick[2], uid: *uid }),
    {
        NodeId { nick0: nick[0], nick1: nick[1], nick2: nick[2], uid: *uid }
    }

    /// The nickname that the identifier starts with.
    pub fn nick(&self) -> (nick: [u8; 3])
        ensures
            nick[0] == self.nick0,
            nick[1] == self.nick1,
            nick[2] == self.nick2,
    {
        [self.nick0, self.nick1, self.nick2]
    }
}

/// The id of a node of kind `kind` with the unique part `uid`.
pub open spec fn id_of(kind: NodeType, uid: u64) -> NodeId {
    NodeId {
        nick0: kind.spec_nick()[0],
        nick1: kind.spec_nick()[1],
        nick2: kind.spec_nick()[2],
        uid: NodeUid(uid),
    }
}

/// The id of a node of kind `kind` with the unique part `uid`.
pub fn make_id(kind: NodeType, uid: u64) -> (id: NodeId)
    ensures
        id == id_of(kind, uid),
{
    NodeId::new(&kind.nick(), &NodeUid(uid))
}

/// Whether `ids` holds `id`.
pub fn contains_id(ids: &Vec<NodeId>, id: NodeId) -> (b: bool)
    ensures
        b == ids@.contains(id),
{
    let mut i: usize = 0;
    while i < ids.len()
        invariant
            i <= ids.len(),
            forall|k: int| 0 <= k < i ==> ids@[k] != id,
        decreases ids.len() - i,
    {
        if ids[i] == id {
            return true;
        }
        i += 1;
    }
    false
}

/// A copy of `ids`.
pub fn copy_ids(ids: &Vec<NodeId>) -> (copy: Vec<NodeId>)
    ensures
        copy@ == ids@,
{
    let mut copy: Vec<NodeId> = Vec::new();
    let mut i: usize = 0;
    while i < ids.len()
        invariant
            i <= ids.len(),
            copy@ == ids@.take(i as int),
        decreases ids.len() - i,
    {
        copy.push(ids[i]);
        proof {
            assert(ids@.take(i + 1) =~= ids@.take(i as int).push(ids@[i as int]));
        }
        i += 1;
    }
    proof {
        assert(ids@.take(ids.len() as int) =~= ids@);
    }
    copy
}

/// Whether `a` and `b` hold the same ids in the same order.
pub fn same_ids(a: &Vec<NodeId>, b: &Vec<NodeId>) -> (same: bool)
    ensures
        same == (a@ == b@),
{
    if a.len() != b.len() {
        return false;
    }
    let mut i: usize = 0;
    while i < a.len()
        invariant
            i <= a.len(),
            a.len() == b.len(),
            a@.take(i as int) == b@.take(i as int),
        decreases a.len() - i,
    {
        if a[i] != b[i] {
            return false;
        }
        proof {
            assert(a@.take(i + 1) =~= a@.take(i as int).push(a@[i as int]));
            assert(b@.take(i + 1) =~= b@.take(i as int).push(b@[i as int]));
        }
        i += 1;
    }
    proof {
        assert(a@.take(a.len() as int) =~= a@);
        assert(b@.take(b.len() as int) =~= b@);
    }
    true
}

} // verus!
