//! What an agent is asked, and what it can take and give.

use vstd::prelude::*;
use crate::node::NodeId;

verus! {

/// The type of input or output an agent can consume or generate
#[derive(Clone, Copy, Debug, PartialEq, Eq, Structural, Hash)]
pub enum AgentIO {
    Text,
    Image,
    Audio,
    Video,
}

/// Context for a generation request
#[derive(Clone, Debug, PartialEq, Eq)]
pub struct GenerateContext {
    /// The instruction provided by the user
    pub user_instruction: String,
    /// The document that the instruction is contained within, by id
    pub document: Option<NodeId>,
    /// The content of the document in the format of the request
    pub document_content: Option<String>,
    /// The specific node in the document to which the instruction
    /// applies (if any), by id
    pub node: Option<NodeId>,
    /// The content of the specific node in the format of the request
    pub node_content: Option<String>,
    /// The name of the agent
    pub agent_name: Option<String>,
    /// The name of the model provider
    pub provider_name: Option<String>,
    /// The name of the model
    pub model_name: Option<String>,
    /// The current timestamp in ISO format
    pub current_timestamp: Option<String>,
    /// The user prompt usually generated from the `user_instruction` and
    /// other fields above by rendering a user prompt template
    pub user_prompt: Option<String>,
    /// An optional system prompt
    pub system_prompt: Option<String>,
}

impl GenerateContext {
    /// Create a [`GenerateContext`] with a user instruction, document and node
    pub fn new(instruction: &str, document: Option<NodeId>, node: Option<NodeId>) -> (context:
        GenerateContext)
        ensures
            context.user_instruction@ == instruction@,
            context.document == document,
            context.node == node,
            context.document_content is None,
            context.node_content is None,
            context.agent_name is None,
            context.provider_name is None,
            context.model_name is None,
            context.current_timestamp is None,
            context.user_prompt is None,
            context.system_prompt is None,
    {
        GenerateContext {
            user_instruction: String::from_str(instruction),
            document,
            document_content: None,
            node,
            node_content: None,
            agent_name: None,
            provider_name: None,
            model_name: None,
            current_timestamp: None,
            user_prompt: None,
            system_prompt: None,
        }
    }

    /// Get the user prompt of the context
    ///
    /// If the `user_prompt` field has been set (e.g. a template rendered into it)
    /// then that is returned. Otherwise, the raw `user_instruction` is returned.
    pub fn user_prompt(&self) -> (prompt: &str)
        ensures
            prompt@ == match self.user_prompt {
                Some(prompt) => prompt@,
                None => self.user_instruction@,
            },
    {
        match &self.user_prompt {
            Some(prompt) => prompt.as_str(),
            None => self.user_instruction.as_str(),
        }
    }

    /// Get the system prompt of the context (if any)
    pub fn system_prompt(&self) -> (prompt: Option<&str>)
        ensures
            match self.system_prompt {
                Some(text) => prompt matches Some(given) && given@ == text@,
                None => prompt is None,
            },
    {
        match &self.system_prompt {
            Some(prompt) => Some(prompt.as_str()),
            None => None,
        }
    }
}

/// The name of an agent: that of its provider, a slash, and that of its
/// model.
pub fn agent_name(provider: &str, model: &str) -> (name: String)
    ensures
        name@ == provider@ + "/"@ + model@,
{
    let mut name = String::from_str(provider);
    name.append("/");
    name.append(model);
    name
}

/// Whether an agent that takes `inputs` and gives `outputs` can turn
/// `input` into `output`.
pub fn supports_from_to(
    inputs: &Vec<AgentIO>,
    outputs: &Vec<AgentIO>,
    input: AgentIO,
    output: AgentIO,
) -> (b: bool)
    ensures
        b == (inputs@.contains(input) && outputs@.contains(output)),
{
    has_io(inputs, input) && has_io(outputs, output)
}

/// The types that an agent takes, or gives: those it names, or text where
/// it names none.
pub fn supported(named: &Vec<AgentIO>) -> (list: Vec<AgentIO>)
    ensures
        list@ == if named@.len() == 0 {
            seq![AgentIO::Text]
        } else {
            named@
        },
{
    let mut list: Vec<AgentIO> = Vec::new();
    if named.len() == 0 {
        list.push(AgentIO::Text);
        return list;
    }
    let mut i: usize = 0;
    while i < named.len()
        invariant
            i <= named.len(),
            named.len() > 0,
            list@ == named@.take(i as int),
        decreases named.len() - i,
    {
        list.push(named[i]);
        proof {
            assert(named@.take(i + 1) =~= named@.take(i as int).push(named@[i as int]));
        }
        i += 1;
    }
    proof {
        assert(named@.take(named.len() as int) =~= named@);
    }
    list
}

/// Whether `list` holds `io`.
fn has_io(list: &Vec<AgentIO>, io: AgentIO) -> (b: bool)
    ensures
        b == list@.contains(io),
{
    let mut i: usize = 0;
    while i < list.len()
        invariant
            i <= list.len(),
            forall|k: int| 0 <= k < i ==> list@[k] != io,
        decreases list.len() - i,
    {
        if list[i] == io {
            return true;
        }
        i += 1;
    }
    false
}

} // verus!
