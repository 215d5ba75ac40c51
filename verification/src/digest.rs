//! Digests of what a node was compiled from, and what they say of the need
//! to execute it.

use vstd::prelude::*;
use vstd::string::StringSliceAdditionalSpecFns;
use crate::status::{ExecutionRequired, ExecutionStatus};

verus! {

/// A digest of the content, the semantics and the dependencies of a node.
#[derive(Clone, Copy, Debug, PartialEq, Eq, Structural, Hash)]
pub struct CompilationDigest {
    /// A digest of the code and the language of the node
    pub state_digest: u64,
    /// A digest of what the code means: the dependencies it names
    pub semantic_digest: u64,
    /// A digest of the state of everything upstream of the node
    pub dependencies_digest: u64,
}

impl CompilationDigest {
    /// The digest of a node without semantics or dependencies.
    pub open spec fn spec_new(state_digest: u64) -> CompilationDigest {
        CompilationDigest { state_digest, semantic_digest: 0, dependencies_digest: 0 }
    }

    /// The digest of a node without semantics or dependencies.
    #[verifier::when_used_as_spec(spec_new)]
    pub fn new(state_digest: u64) -> (digest: CompilationDigest)
        ensures
            digest == CompilationDigest::spec_new(state_digest),
    {
        CompilationDigest { state_digest, semantic_digest: 0, dependencies_digest: 0 }
    }
}

/// Whether, and why, a node has to be executed, by its digest as of its
/// last execution and its digest as compiled now.
///
/// A node that has no digest of an execution was never executed. Of the
/// three parts of the digest the first that differs gives the reason; a node
/// whose digests agree needs no execution.
pub open spec fn spec_execution_required_digests(
    execution_digest: Option<CompilationDigest>,
    compilation_digest: CompilationDigest,
) -> ExecutionRequired {
    match execution_digest {
        None => ExecutionRequired::NeverExecuted,
        Some(executed) => if executed.state_digest != compilation_digest.state_digest {
            ExecutionRequired::StateChanged
        } else if executed.semantic_digest != compilation_digest.semantic_digest {
            ExecutionRequired::SemanticsChanged
        } else if executed.dependencies_digest != compilation_digest.dependencies_digest {
            ExecutionRequired::DependenciesChanged
        } else {
            ExecutionRequired::No
        },
    }
}

/// The need to execute a node, by its two digests.
pub fn execution_required_digests(
    execution_digest: &Option<CompilationDigest>,
    compilation_digest: &CompilationDigest,
) -> (required: ExecutionRequired)
    ensures
        required == spec_execution_required_digests(*execution_digest, *compilation_digest),
        required is No <==> *execution_digest == Some(*compilation_digest),
{
    match execution_digest {
        None => ExecutionRequired::NeverExecuted,
        Some(executed) => {
            if executed.state_digest != compilation_digest.state_digest {
                ExecutionRequired::StateChanged
            } else if executed.semantic_digest != compilation_digest.semantic_digest {
                ExecutionRequired::SemanticsChanged
            } else if executed.dependencies_digest != compilation_digest.dependencies_digest {
                ExecutionRequired::DependenciesChanged
            } else {
                ExecutionRequired::No
            }
        },
    }
}

/// The need to execute a node after an execution that ended in `status`:
/// none after a success; any other end leaves the need to execute it
/// again, as after a change of its state.
pub open spec fn spec_execution_required_status(status: ExecutionStatus) -> ExecutionRequired {
    match status {
        ExecutionStatus::Succeeded => ExecutionRequired::No,
        _ => ExecutionRequired::StateChanged,
    }
}

/// The need to execute a node after an execution that ended in `status`.
pub fn execution_required_status(status: &ExecutionStatus) -> (required: ExecutionRequired)
    ensures
        required == spec_execution_required_status(*status),
{
    match status {
        ExecutionStatus::Succeeded => ExecutionRequired::No,
        _ => ExecutionRequired::StateChanged,
    }
}

/// Whether a node has to be executed again: its digest as compiled now
/// differs from its digest as of its last execution, or a dependency ended
/// otherwise than in success.
pub open spec fn spec_needs_execution(
    execution_digest: Option<CompilationDigest>,
    compilation_digest: CompilationDigest,
    dependencies: Seq<Option<ExecutionStatus>>,
) -> bool {
    execution_digest != Some(compilation_digest) || exists|i: int|
        0 <= i < dependencies.len() && dependency_unsuccessful(#[trigger] dependencies[i])
}

/// A dependency that has ended, and not in success.
pub open spec fn dependency_unsuccessful(status: Option<ExecutionStatus>) -> bool {
    status matches Some(status) && status.is_terminal() && !(status is Succeeded)
}

/// Whether a node has to be executed again, by its digests and the status
/// of each of its dependencies.
pub fn needs_execution(
    execution_digest: &Option<CompilationDigest>,
    compilation_digest: &CompilationDigest,
    dependencies: &Vec<Option<ExecutionStatus>>,
) -> (needed: bool)
    ensures
        needed == spec_needs_execution(*execution_digest, *compilation_digest, dependencies@),
{
    let same = match execution_digest {
        Some(executed) => *executed == *compilation_digest,
        None => false,
    };
    if !same {
        return true;
    }
    let mut i: usize = 0;
    while i < dependencies.len()
        invariant
            i <= dependencies.len(),
            forall|k: int| 0 <= k < i ==> !dependency_unsuccessful(#[trigger] dependencies[k]),
        decreases dependencies.len() - i,
    {
        let unsuccessful = match dependencies[i] {
            Some(status) => status.is_terminal() && status != ExecutionStatus::Succeeded,
            None => false,
        };
        if unsuccessful {
            return true;
        }
        i += 1;
    }
    false
}

/// Compiled twice from the same state, a node has the same need to be
/// executed: the digests of the two compilations agree, and so does what
/// they say.
pub proof fn lemma_recompile_same_digest(
    execution_digest: Option<CompilationDigest>,
    first: CompilationDigest,
    second: CompilationDigest,
)
    requires
        first == second,
    ensures
        spec_execution_required_digests(execution_digest, first)
            == spec_execution_required_digests(execution_digest, second),
        spec_execution_required_digests(Some(first), second) is No,
{
}

/// The hash that `seahash::hash` gives a buffer of bytes.
pub uninterp spec fn sea_hash(bytes: Seq<u8>) -> u64;

/// The hash of a buffer of bytes, by `seahash::hash` with its own seed.
/// The same bytes have the same hash, whenever and wherever it is taken;
/// no more is claimed of the hash.
#[verifier::external_body]
fn hash_bytes(bytes: &Vec<u8>) -> (hash: u64)
    ensures
        hash == sea_hash(bytes@),
{
    seahash::hash(bytes)
}

/// The bytes that a text adds to what is hashed: its bytes, and a byte that
/// ends it.
pub open spec fn hashed(text: Option<Seq<char>>) -> Seq<u8> {
    match text {
        Some(text) => vstd::utf8::encode_utf8(text).push(0xffu8),
        None => Seq::empty(),
    }
}

/// Add the bytes of a text to what is hashed.
pub fn hash_text(bytes: &mut Vec<u8>, text: &str)
    ensures
        final(bytes)@ == old(bytes)@ + hashed(Some(text@)),
{
    bytes.extend_from_slice(text.as_bytes());
    bytes.push(0xff);
    assert(bytes@ =~= old(bytes)@ + hashed(Some(text@)));
}

/// The hash of a buffer of bytes.
pub fn hash_of_bytes(bytes: &Vec<u8>) -> (hash: u64)
    ensures
        hash == sea_hash(bytes@),
{
    hash_bytes(bytes)
}

/// The hash of a text: that of its bytes and the byte that ends it.
pub fn hash_of_text(text: &str) -> (hash: u64)
    ensures
        hash == sea_hash(hashed(Some(text@))),
{
    let mut bytes: Vec<u8> = Vec::new();
    hash_text(&mut bytes, text);
    assert(bytes@ =~= hashed(Some(text@)));
    hash_bytes(&bytes)
}

} // verus!
