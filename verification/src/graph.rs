//! Resources and the relations that code has to them.

use vstd::prelude::*;
use crate::node::NodeId;

verus! {

/// How code relates to a resource.
#[derive(Clone, Copy, Debug, PartialEq, Eq, Structural, Hash)]
pub enum Relation {
    Assign,
    Alter,
    Use,
    Read,
    Write,
    Import,
    Declare,
    Convert,
}

impl Relation {
    /// The relation has an effect beyond the code itself.
    pub open spec fn spec_has_side_effect(self) -> bool {
        self is Assign || self is Alter || self is Import || self is Write
    }

    /// True for `Assign`, `Alter`, `Import` and `Write`.
    #[verifier::when_used_as_spec(spec_has_side_effect)]
    pub fn has_side_effect(self) -> (b: bool)
        ensures
            b == self.spec_has_side_effect(),
    {
        match self {
            Relation::Assign | Relation::Alter | Relation::Import | Relation::Write => true,
            _ => false,
        }
    }
}

/// A symbol that code assigns or uses.
#[derive(Clone, Debug, PartialEq, Eq)]
pub struct Symbol {
    /// The name of the symbol
    pub name: String,
    /// The type of what the symbol refers to, as a hint
    pub kind: String,
}

/// Something that code relates to.
#[derive(Clone, Debug, PartialEq, Eq)]
pub enum Resource {
    /// A node of code
    Code(NodeId),
    /// A symbol in a kernel
    Symbol(Symbol),
    /// A file, by its path
    File(String),
    /// A module, by its name
    Module(String),
    /// Nothing
    Nothing,
}

/// The result of parsing code.
#[derive(Clone, Debug, PartialEq, Eq)]
pub struct ParseInfo {
    /// Whether the code is tagged as pure, or as impure
    pub pure: Option<bool>,
    /// The relations of the code to other resources
    pub relations: Vec<(Relation, Resource)>,
}

/// None of `relations` has a side effect.
pub open spec fn no_side_effects(relations: Seq<(Relation, Resource)>) -> bool {
    forall|i: int| 0 <= i < relations.len() ==> !(#[trigger] relations[i]).0.has_side_effect()
}

impl ParseInfo {
    /// Is the parsed code pure (i.e. has no side effects)?
    ///
    /// Code that is tagged is what its tag says. Code that is not tagged is
    /// pure if it neither assigns, alters, imports nor writes.
    pub fn is_pure(&self) -> (pure: bool)
        ensures
            pure == match self.pure {
                Some(tagged) => tagged,
                None => no_side_effects(self.relations@),
            },
    {
        match self.pure {
            Some(tagged) => tagged,
            None => {
                let mut i: usize = 0;
                while i < self.relations.len()
                    invariant
                        self.pure is None,
                        i <= self.relations.len(),
                        forall|k: int|
                            0 <= k < i ==> !(#[trigger] self.relations[k]).0.has_side_effect(),
                    decreases self.relations.len() - i,
                {
                    if self.relations[i].0.has_side_effect() {
                        assert(self.relations@[i as int].0.has_side_effect());
                        return false;
                    }
                    i += 1;
                }
                true
            },
        }
    }
}

} // verus!
