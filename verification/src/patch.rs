//! Patches: addressed changes to the document tree.

use vstd::prelude::*;
use crate::digest::CompilationDigest;
use crate::node::NodeId;
use crate::node_property::NodeProperty;
use crate::status::{ExecutionRequired, ExecutionStatus};

verus! {

/// One step of the way from a node to what a patch changes.
#[derive(Clone, Copy, Debug, PartialEq, Eq, Structural)]
pub enum PatchSlot {
    /// A property of a node
    Property(NodeProperty),
    /// A place in a list
    Index(usize),
}

/// The way from a node to what a patch changes.
#[derive(Clone, Debug, PartialEq, Eq)]
pub struct PatchPath {
    pub slots: Vec<PatchSlot>,
}

impl View for PatchPath {
    type V = Seq<PatchSlot>;

    open spec fn view(&self) -> Seq<PatchSlot> {
        self.slots@
    }
}

impl PatchPath {
    /// The empty path: the node itself.
    pub fn new() -> (path: PatchPath)
        ensures
            path@ == Seq::<PatchSlot>::empty(),
    {
        PatchPath { slots: Vec::new() }
    }

    /// The path to a property of the node.
    pub fn from(property: NodeProperty) -> (path: PatchPath)
        ensures
            path@ == seq![PatchSlot::Property(property)],
    {
        let mut slots: Vec<PatchSlot> = Vec::new();
        slots.push(PatchSlot::Property(property));
        PatchPath { slots }
    }

    /// The first step of the path.
    pub fn front(&self) -> (slot: Option<PatchSlot>)
        ensures
            slot == if self@.len() == 0 {
                None
            } else {
                Some(self@[0])
            },
    {
        if self.slots.len() == 0 {
            None
        } else {
            Some(self.slots[0])
        }
    }

    /// Take the first step off the path.
    pub fn pop_front(&mut self) -> (slot: Option<PatchSlot>)
        ensures
            slot == if old(self)@.len() == 0 {
                None
            } else {
                Some(old(self)@[0])
            },
            final(self)@ == if old(self)@.len() == 0 {
                old(self)@
            } else {
                old(self)@.skip(1)
            },
    {
        if self.slots.len() == 0 {
            None
        } else {
            let slot = self.slots.remove(0);
            proof {
                assert(self.slots@ =~= old(self)@.skip(1));
            }
            Some(slot)
        }
    }

    /// Whether the path is empty.
    pub fn is_empty(&self) -> (b: bool)
        ensures
            b == (self@.len() == 0),
    {
        self.slots.len() == 0
    }
}

/// A value that a patch carries.
#[derive(Clone, Debug, PartialEq, Eq)]
pub enum PatchValue {
    /// No value
    Null,
    Boolean(bool),
    Integer(i64),
    String(String),
    /// An execution status
    Status(ExecutionStatus),
    /// A need to execute
    Required(ExecutionRequired),
    /// A compilation digest
    Digest(CompilationDigest),
    /// A node of the tree, by its id
    Node(NodeId),
}

/// A change to what a path leads to.
#[derive(Clone, Debug, PartialEq, Eq)]
pub enum PatchOp {
    /// Set the value
    Assign(PatchValue),
    /// Remove the value, or empty the list
    Clear,
    /// Add values to the end of a list
    Append(Vec<PatchValue>),
    /// Add a value to the end of a list
    Push(PatchValue),
    /// Put values into a list at a place
    Insert(usize, Vec<PatchValue>),
    /// Take the values in a range of places out of a list
    Remove(usize, usize),
    /// Put a value in the place of another in a list
    Replace(usize, PatchValue),
    /// Move a value of a list from one place to another
    Move(usize, usize),
    /// Change nothing
    Nothing,
}

/// A set of changes to one node of the tree.
#[derive(Clone, Debug, PartialEq, Eq)]
pub struct Patch {
    /// The node to change; the root of the tree where absent
    pub node_id: Option<NodeId>,
    /// The changes, each with the path it applies at
    pub ops: Vec<(PatchPath, PatchOp)>,
    /// Whether the patch comes from a source that cannot hold everything
    /// a node holds
    pub lossy: bool,
}


/// A value that a patch carries, with its text as characters.
pub enum PatchValueView {
    Null,
    Boolean(bool),
    Integer(i64),
    String(Seq<char>),
    Status(ExecutionStatus),
    Required(ExecutionRequired),
    Digest(CompilationDigest),
    Node(NodeId),
}

impl View for PatchValue {
    type V = PatchValueView;

    open spec fn view(&self) -> PatchValueView {
        match self {
            PatchValue::Null => PatchValueView::Null,
            PatchValue::Boolean(b) => PatchValueView::Boolean(*b),
            PatchValue::Integer(n) => PatchValueView::Integer(*n),
            PatchValue::String(text) => PatchValueView::String(text@),
            PatchValue::Status(status) => PatchValueView::Status(*status),
            PatchValue::Required(required) => PatchValueView::Required(*required),
            PatchValue::Digest(digest) => PatchValueView::Digest(*digest),
            PatchValue::Node(id) => PatchValueView::Node(*id),
        }
    }
}

impl PatchValue {
    /// A copy of the value.
    pub fn copy(&self) -> (value: PatchValue)
        ensures
            value@ == self@,
    {
        match self {
            PatchValue::Null => PatchValue::Null,
            PatchValue::Boolean(b) => PatchValue::Boolean(*b),
            PatchValue::Integer(n) => PatchValue::Integer(*n),
            PatchValue::String(text) => PatchValue::String(text.clone()),
            PatchValue::Status(status) => PatchValue::Status(*status),
            PatchValue::Required(required) => PatchValue::Required(*required),
            PatchValue::Digest(digest) => PatchValue::Digest(*digest),
            PatchValue::Node(id) => PatchValue::Node(*id),
        }
    }
}

/// A copy of a list of values.
pub fn copy_values(values: &Vec<PatchValue>) -> (copy: Vec<PatchValue>)
    ensures
        value_views(copy@) == value_views(values@),
{
    let mut copy: Vec<PatchValue> = Vec::new();
    let mut i: usize = 0;
    while i < values.len()
        invariant
            i <= values.len(),
            value_views(copy@) == value_views(values@.take(i as int)),
        decreases values.len() - i,
    {
        let ghost so_far = copy@;
        copy.push(values[i].copy());
        proof {
            assert(values@.take(i + 1) =~= values@.take(i as int).push(values@[i as int]));
            assert(value_views(copy@) =~= value_views(so_far).push(values@[i as int]@));
            assert(value_views(values@.take(i + 1)) =~= value_views(values@.take(i as int)).push(
                values@[i as int]@,
            ));
        }
        i += 1;
    }
    proof {
        assert(values@.take(values.len() as int) =~= values@);
    }
    copy
}

/// The views of a list of values.
pub open spec fn value_views(values: Seq<PatchValue>) -> Seq<PatchValueView> {
    values.map_values(|value: PatchValue| value@)
}

/// A change, with its values as plain values.
pub enum PatchOpView {
    Assign(PatchValueView),
    Clear,
    Append(Seq<PatchValueView>),
    Push(PatchValueView),
    Insert(usize, Seq<PatchValueView>),
    Remove(usize, usize),
    Replace(usize, PatchValueView),
    Move(usize, usize),
    Nothing,
}

impl View for PatchOp {
    type V = PatchOpView;

    open spec fn view(&self) -> PatchOpView {
        match self {
            PatchOp::Assign(value) => PatchOpView::Assign(value@),
            PatchOp::Clear => PatchOpView::Clear,
            PatchOp::Append(values) => PatchOpView::Append(value_views(values@)),
            PatchOp::Push(value) => PatchOpView::Push(value@),
            PatchOp::Insert(at, values) => PatchOpView::Insert(*at, value_views(values@)),
            PatchOp::Remove(from, to) => PatchOpView::Remove(*from, *to),
            PatchOp::Replace(at, value) => PatchOpView::Replace(*at, value@),
            PatchOp::Move(from, to) => PatchOpView::Move(*from, *to),
            PatchOp::Nothing => PatchOpView::Nothing,
        }
    }
}

/// A patch as plain values: the node it aims at and its changes, each the
/// change of one property.
pub struct PatchView {
    pub node_id: Option<NodeId>,
    pub ops: Seq<(Seq<PatchSlot>, PatchOpView)>,
    pub lossy: bool,
}

/// The views of a list of changes.
pub open spec fn op_views(ops: Seq<(PatchPath, PatchOp)>) -> Seq<(Seq<PatchSlot>, PatchOpView)> {
    ops.map_values(|op: (PatchPath, PatchOp)| (op.0@, op.1@))
}

impl View for Patch {
    type V = PatchView;

    open spec fn view(&self) -> PatchView {
        PatchView { node_id: self.node_id, ops: op_views(self.ops@), lossy: self.lossy }
    }
}

/// The views of a list of patches.
pub open spec fn patch_views(patches: Seq<Patch>) -> Seq<PatchView> {
    patches.map_values(|patch: Patch| patch@)
}

/// The smaller of two numbers.
pub open spec fn spec_least(a: usize, b: usize) -> usize {
    if a <= b {
        a
    } else {
        b
    }
}

/// The smaller of two numbers.
#[verifier::when_used_as_spec(spec_least)]
pub fn least(a: usize, b: usize) -> (m: usize)
    ensures
        m == spec_least(a, b),
{
    if a <= b {
        a
    } else {
        b
    }
}

/// The list that an operation makes of a list of values. Every operation
/// applies to every list: a place beyond the end of the list counts as its
/// end, and an operation on a single place beyond the end changes nothing.
pub open spec fn values_after(values: Seq<PatchValueView>, op: PatchOpView) -> Seq<PatchValueView> {
    let len = values.len() as usize;
    match op {
        PatchOpView::Assign(value) => seq![value],
        PatchOpView::Clear => Seq::empty(),
        PatchOpView::Append(more) => values + more,
        PatchOpView::Push(value) => values.push(value),
        PatchOpView::Insert(at, more) => values.take(least(at, len) as int) + more + values.skip(
            least(at, len) as int,
        ),
        PatchOpView::Remove(from, to) => {
            let from = least(from, len);
            let to = if to < from {
                from
            } else {
                least(to, len)
            };
            values.take(from as int) + values.skip(to as int)
        },
        PatchOpView::Replace(at, value) => if at < len {
            values.update(at as int, value)
        } else {
            values
        },
        PatchOpView::Move(from, to) => if from < len {
            values.remove(from as int).insert(least(to, (len - 1) as usize) as int, values[from as int])
        } else {
            values
        },
        PatchOpView::Nothing => values,
    }
}

/// Apply an operation to a list of values.
pub fn apply_to_values(values: &mut Vec<PatchValue>, op: PatchOp)
    ensures
        value_views(final(values)@) == values_after(value_views(old(values)@), op@),
{
    let len = values.len();
    let ghost before = value_views(values@);
    match op {
        PatchOp::Assign(value) => {
            values.clear();
            values.push(value);
            assert(value_views(values@) =~= seq![value@]);
        },
        PatchOp::Clear => {
            values.clear();
        },
        PatchOp::Append(mut more) => {
            let ghost added = value_views(more@);
            values.append(&mut more);
            assert(value_views(values@) =~= before + added);
        },
        PatchOp::Push(value) => {
            values.push(value);
            assert(value_views(values@) =~= before.push(value@));
        },
        PatchOp::Insert(at, mut more) => {
            let at = least(at, len);
            let ghost added = value_views(more@);
            let mut rest = values.split_off(at);
            values.append(&mut more);
            values.append(&mut rest);
            assert(value_views(values@) =~= before.take(at as int) + added + before.skip(at as int));
        },
        PatchOp::Remove(from, to) => {
            let from = least(from, len);
            let to = if to < from {
                from
            } else {
                least(to, len)
            };
            let mut rest = values.split_off(to);
            values.truncate(from);
            values.append(&mut rest);
            assert(value_views(values@) =~= before.take(from as int) + before.skip(to as int));
        },
        PatchOp::Replace(at, value) => {
            if at < len {
                values[at] = value;
                assert(value_views(values@) =~= before.update(at as int, value@));
            }
        },
        PatchOp::Move(from, to) => {
            if from < len {
                let value = values.remove(from);
                let to = least(to, len - 1);
                values.insert(to, value);
                assert(value_views(values@) =~= before.remove(from as int).insert(
                    to as int,
                    before[from as int],
                ));
            }
        },
        PatchOp::Nothing => {},
    }
}

/// A property of a node with its values. A property with one value holds
/// a list of one.
#[derive(Clone, Debug, PartialEq, Eq)]
pub struct Property {
    pub name: NodeProperty,
    pub values: Vec<PatchValue>,
}

/// A property as plain values.
pub struct PropertyView {
    pub name: NodeProperty,
    pub values: Seq<PatchValueView>,
}

impl View for Property {
    type V = PropertyView;

    open spec fn view(&self) -> PropertyView {
        PropertyView { name: self.name, values: value_views(self.values@) }
    }
}

/// A node of the tree: its id and its properties.
#[derive(Clone, Debug, PartialEq, Eq)]
pub struct TreeNode {
    pub id: NodeId,
    pub properties: Vec<Property>,
}

/// A node as plain values.
pub struct TreeNodeView {
    pub id: NodeId,
    pub properties: Seq<PropertyView>,
}

impl View for TreeNode {
    type V = TreeNodeView;

    open spec fn view(&self) -> TreeNodeView {
        TreeNodeView {
            id: self.id,
            properties: self.properties@.map_values(|property: Property| property@),
        }
    }
}

/// The document tree: its nodes, the root first. Nodes refer to one
/// another by id.
#[derive(Clone, Debug, PartialEq, Eq)]
pub struct Tree {
    pub nodes: Vec<TreeNode>,
}

impl View for Tree {
    type V = Seq<TreeNodeView>;

    open spec fn view(&self) -> Seq<TreeNodeView> {
        self.nodes@.map_values(|node: TreeNode| node@)
    }
}

/// The place of the first of `properties` with the name `name`, or their
/// number where there is none.
pub open spec fn property_place(properties: Seq<PropertyView>, name: NodeProperty) -> int
    decreases properties.len(),
{
    if properties.len() == 0 {
        0
    } else if properties[0].name == name {
        0
    } else {
        1 + property_place(properties.skip(1), name)
    }
}

/// The operation on the values of a property that an operation at a path
/// below the property comes to: the operation itself at the property, the
/// replacement of one value where a value is set at a place, and nothing at
/// any other path.
pub open spec fn op_at(rest: Seq<PatchSlot>, op: PatchOpView) -> PatchOpView {
    if rest.len() == 0 {
        op
    } else if rest.len() == 1 {
        match (rest[0], op) {
            (PatchSlot::Index(at), PatchOpView::Assign(value)) => PatchOpView::Replace(at, value),
            _ => PatchOpView::Nothing,
        }
    } else {
        PatchOpView::Nothing
    }
}

/// The properties of a node after an operation at a path. A path that
/// does not start at a property changes nothing. A property that the node
/// does not have is added, unless the operation leaves it without values.
pub open spec fn properties_after(
    properties: Seq<PropertyView>,
    path: Seq<PatchSlot>,
    op: PatchOpView,
) -> Seq<PropertyView> {
    if path.len() == 0 {
        properties
    } else {
        match path[0] {
            PatchSlot::Index(_) => properties,
            PatchSlot::Property(name) => {
                let place = property_place(properties, name);
                let op = op_at(path.skip(1), op);
                if place < properties.len() {
                    properties.update(
                        place,
                        PropertyView { name, values: values_after(properties[place].values, op) },
                    )
                } else {
                    let values = values_after(Seq::empty(), op);
                    if values.len() == 0 {
                        properties
                    } else {
                        properties.push(PropertyView { name, values })
                    }
                }
            },
        }
    }
}

/// The properties of a node after a series of operations, each at its path.
pub open spec fn properties_after_all(
    properties: Seq<PropertyView>,
    ops: Seq<(Seq<PatchSlot>, PatchOpView)>,
) -> Seq<PropertyView>
    decreases ops.len(),
{
    if ops.len() == 0 {
        properties
    } else {
        properties_after(
            properties_after_all(properties, ops.drop_last()),
            ops.last().0,
            ops.last().1,
        )
    }
}

/// The place of the first node of the tree with the id `id`, or the number
/// of nodes where there is none.
pub open spec fn node_place(nodes: Seq<TreeNodeView>, id: NodeId) -> int
    decreases nodes.len(),
{
    if nodes.len() == 0 {
        0
    } else if nodes[0].id == id {
        0
    } else {
        1 + node_place(nodes.skip(1), id)
    }
}

/// The place that a patch aims at: that of the node with its id, or that
/// of the root where it names no node.
pub open spec fn target_place(nodes: Seq<TreeNodeView>, node_id: Option<NodeId>) -> int {
    match node_id {
        Some(id) => node_place(nodes, id),
        None => 0,
    }
}

/// The tree after a patch. A patch that aims at a node that the tree does
/// not have changes nothing; any other changes the properties of its node,
/// and nothing else.
pub open spec fn tree_after(nodes: Seq<TreeNodeView>, patch: PatchView) -> Seq<TreeNodeView> {
    let place = target_place(nodes, patch.node_id);
    if place < nodes.len() {
        nodes.update(
            place,
            TreeNodeView {
                id: nodes[place].id,
                properties: properties_after_all(nodes[place].properties, patch.ops),
            },
        )
    } else {
        nodes
    }
}

impl TreeNode {
    /// The place of the property with the name `name`.
    pub fn find_property(&self, name: NodeProperty) -> (place: usize)
        ensures
            place == property_place(self@.properties, name),
            place <= self.properties.len(),
            place < self.properties.len() ==> self.properties[place as int].name == name,
    {
        let ghost all = self@.properties;
        let mut i: usize = 0;
        proof {
            assert(all.skip(0) =~= all);
        }
        while i < self.properties.len()
            invariant
                all == self@.properties,
                i <= self.properties.len(),
                property_place(all, name) == i + property_place(all.skip(i as int), name),
            decreases self.properties.len() - i,
        {
            proof {
                assert(all.skip(i as int)[0] == all[i as int]);
                assert(all.skip(i as int).skip(1) =~= all.skip(i + 1));
            }
            if self.properties[i].name == name {
                return i;
            }
            i += 1;
        }
        proof {
            assert(all.skip(i as int).len() == 0);
        }
        i
    }

    /// Apply an operation at a path to the node.
    pub fn apply(&mut self, path: &PatchPath, op: PatchOp)
        ensures
            final(self).id == old(self).id,
            final(self)@.properties == properties_after(old(self)@.properties, path@, op@),
    {
        if path.slots.len() == 0 {
            return ;
        }
        let name = match path.slots[0] {
            PatchSlot::Index(_) => {
                return ;
            },
            PatchSlot::Property(name) => name,
        };
        let ghost rest = path@.skip(1);
        proof {
            assert(rest.len() == path@.len() - 1);
            if path@.len() >= 2 {
                assert(rest[0] == path@[1]);
            }
        }
        let inner = if path.slots.len() == 1 {
            op
        } else if path.slots.len() == 2 {
            match (path.slots[1], op) {
                (PatchSlot::Index(at), PatchOp::Assign(value)) => PatchOp::Replace(at, value),
                _ => PatchOp::Nothing,
            }
        } else {
            PatchOp::Nothing
        };
        assert(inner@ == op_at(rest, op@));
        let place = self.find_property(name);
        if place < self.properties.len() {
            apply_to_values(&mut self.properties[place].values, inner);
            proof {
                assert(self@.properties =~= properties_after(old(self)@.properties, path@, op@));
            }
        } else {
            let mut values: Vec<PatchValue> = Vec::new();
            proof {
                assert(value_views(values@) =~= Seq::<PatchValueView>::empty());
            }
            apply_to_values(&mut values, inner);
            proof {
                assert(value_views(values@).len() == values.len());
            }
            if values.len() > 0 {
                self.properties.push(Property { name, values });
                proof {
                    assert(self@.properties =~= properties_after(
                        old(self)@.properties,
                        path@,
                        op@,
                    ));
                }
            }
        }
    }
}

impl Tree {
    /// The place of the node with the id `id`.
    pub fn find(&self, id: NodeId) -> (place: usize)
        ensures
            place == node_place(self@, id),
            place <= self.nodes.len(),
            place < self.nodes.len() ==> self.nodes[place as int].id == id,
    {
        let ghost all = self@;
        let mut i: usize = 0;
        proof {
            assert(all.skip(0) =~= all);
        }
        while i < self.nodes.len()
            invariant
                all == self@,
                i <= self.nodes.len(),
                node_place(all, id) == i + node_place(all.skip(i as int), id),
            decreases self.nodes.len() - i,
        {
            proof {
                assert(all.skip(i as int)[0] == all[i as int]);
                assert(all.skip(i as int).skip(1) =~= all.skip(i + 1));
            }
            if self.nodes[i].id == id {
                return i;
            }
            i += 1;
        }
        proof {
            assert(all.skip(i as int).len() == 0);
        }
        i
    }

    /// Whether the tree has a node with the id `id`.
    pub fn has_node(&self, id: NodeId) -> (b: bool)
        ensures
            b == (node_place(self@, id) < self.nodes.len()),
    {
        self.find(id) < self.nodes.len()
    }

    /// Apply a patch to the tree. The answer is whether the tree has the
    /// node that the patch aims at; a patch that aims at no node of the
    /// tree is dropped, and the tree stays as it is.
    pub fn apply(&mut self, patch: Patch) -> (applied: bool)
        ensures
            applied == (target_place(old(self)@, patch.node_id) < old(self).nodes.len()),
            final(self)@ == tree_after(old(self)@, patch@),
            !applied ==> final(self)@ == old(self)@,
    {
        let place = match patch.node_id {
            Some(id) => self.find(id),
            None => 0,
        };
        if place >= self.nodes.len() {
            return false;
        }
        let Patch { node_id, mut ops, lossy } = patch;
        let ghost all = patch@.ops;
        let ghost before = old(self)@[place as int].properties;
        let ghost mut done: int = 0;
        // the operations are taken off the front, one by one
        let mut rest: Vec<(PatchPath, PatchOp)> = Vec::new();
        rest.append(&mut ops);
        proof {
            assert(all.take(0) =~= Seq::<(Seq<PatchSlot>, PatchOpView)>::empty());
            assert(op_views(rest@) =~= all.skip(0));
            assert(all.len() == rest.len());
        }
        while rest.len() > 0
            invariant
                place < self.nodes.len(),
                self.nodes.len() == old(self).nodes.len(),
                0 <= done <= all.len(),
                rest.len() + done == all.len(),
                op_views(rest@) == all.skip(done),
                forall|k: int|
                    0 <= k < self.nodes.len() && k != place ==> (#[trigger] self.nodes[k])
                        == old(self).nodes[k],
                self.nodes[place as int].id == old(self).nodes[place as int].id,
                self.nodes[place as int]@.properties == properties_after_all(
                    before,
                    all.take(done),
                ),
            decreases rest.len(),
        {
            let ghost waiting = rest@;
            let (path, op) = rest.remove(0);
            proof {
                assert(all.take(done + 1).drop_last() =~= all.take(done));
                assert(all.take(done + 1).last() == all[done]);
                assert(all.skip(done)[0] == all[done]);
                assert(op_views(waiting)[0] == (
                    path@,
                    op@,
                ));
                assert(op_views(rest@) =~= all.skip(
                    done + 1,
                )) by {
                    assert forall|j: int| 0 <= j < rest@.len() implies #[trigger] op_views(
                        rest@,
                    )[j] == all.skip(done + 1)[j] by {
                        assert(rest@[j] == waiting[j + 1]);
                        assert(op_views(waiting)[j + 1]
                            == all.skip(done)[j + 1]);
                    }
                }
            }
            self.nodes[place].apply(&path, op);
            proof {
                done = done + 1;
            }
        }
        proof {
            assert(all.take(all.len() as int) =~= all);
            assert(self@ =~= tree_after(old(self)@, patch@));
        }
        true
    }
}

/// The tree after a batch of patches, applied one after the other.
pub open spec fn tree_after_all(nodes: Seq<TreeNodeView>, patches: Seq<PatchView>) -> Seq<
    TreeNodeView,
>
    decreases patches.len(),
{
    if patches.len() == 0 {
        nodes
    } else {
        tree_after(tree_after_all(nodes, patches.drop_last()), patches.last())
    }
}

impl Tree {
    /// Apply a batch of patches, one after the other, and say of each
    /// whether the tree had its node. The caller holds the tree for the
    /// whole batch, so that no reader sees a part of it.
    pub fn apply_batch(&mut self, mut patches: Vec<Patch>) -> (applied: Vec<bool>)
        ensures
            final(self)@ == tree_after_all(old(self)@, patch_views(patches@)),
            applied.len() == patches.len(),
            forall|k: int|
                0 <= k < patches.len() ==> #[trigger] applied@[k] == (target_place(
                    tree_after_all(old(self)@, patch_views(patches@).take(k)),
                    patches@[k].node_id,
                ) < old(self).nodes.len()),
    {
        let ghost all = patch_views(patches@);
        let mut applied: Vec<bool> = Vec::new();
        let mut rest: Vec<Patch> = Vec::new();
        rest.append(&mut patches);
        proof {
            assert(all.take(0) =~= Seq::<PatchView>::empty());
            assert(patch_views(rest@) =~= all.skip(0));
        }
        while rest.len() > 0
            invariant
                applied.len() + rest.len() == all.len(),
                patch_views(rest@) == all.skip(applied.len() as int),
                self@ == tree_after_all(old(self)@, all.take(applied.len() as int)),
                self.nodes.len() == old(self).nodes.len(),
                forall|k: int|
                    0 <= k < applied.len() ==> #[trigger] applied@[k] == (target_place(
                        tree_after_all(old(self)@, all.take(k)),
                        all[k].node_id,
                    ) < old(self).nodes.len()),
            decreases rest.len(),
        {
            let done = applied.len();
            let ghost waiting = rest@;
            let patch = rest.remove(0);
            proof {
                assert(all.take(done + 1).drop_last() =~= all.take(done as int));
                assert(all.take(done + 1).last() == all[done as int]);
                assert(all.skip(done as int)[0] == all[done as int]);
                assert(patch_views(waiting)[0] == patch@);
                assert(patch_views(rest@) =~= all.skip(done + 1)) by {
                    assert forall|j: int| 0 <= j < rest@.len() implies #[trigger] patch_views(
                        rest@,
                    )[j] == all.skip(done + 1)[j] by {
                        assert(rest@[j] == waiting[j + 1]);
                        assert(patch_views(waiting)[j + 1] == all.skip(done as int)[j + 1]);
                    }
                }
                lemma_patch_keeps_length(self@, patch@);
            }
            let had = self.apply(patch);
            applied.push(had);
        }
        proof {
            assert(all.take(all.len() as int) =~= all);
        }
        applied
    }
}

/// A patch neither adds a node to the tree nor takes one away.
pub proof fn lemma_patch_keeps_length(nodes: Seq<TreeNodeView>, patch: PatchView)
    ensures
        tree_after(nodes, patch).len() == nodes.len(),
{
    lemma_place_in_range(nodes, patch.node_id);
}

/// The empty patch changes nothing: the tree after it is the tree before
/// it.
pub proof fn lemma_empty_patch(nodes: Seq<TreeNodeView>, patch: PatchView)
    requires
        patch.ops.len() == 0,
    ensures
        tree_after(nodes, patch) == nodes,
{
    let place = target_place(nodes, patch.node_id);
    if place < nodes.len() {
        lemma_place_in_range(nodes, patch.node_id);
        assert(tree_after(nodes, patch) =~= nodes);
    }
}

/// The place that a patch aims at is never before the first node.
pub proof fn lemma_place_in_range(nodes: Seq<TreeNodeView>, node_id: Option<NodeId>)
    ensures
        0 <= target_place(nodes, node_id),
{
    if let Some(id) = node_id {
        lemma_node_place(nodes, id);
    }
}

/// The place of an id is a place of the tree exactly where a node has the
/// id, and then that node has it.
pub proof fn lemma_node_place(nodes: Seq<TreeNodeView>, id: NodeId)
    ensures
        0 <= node_place(nodes, id) <= nodes.len(),
        node_place(nodes, id) < nodes.len() ==> nodes[node_place(nodes, id)].id == id,
        node_place(nodes, id) == nodes.len() <==> forall|k: int|
            0 <= k < nodes.len() ==> (#[trigger] nodes[k]).id != id,
    decreases nodes.len(),
{
    if nodes.len() > 0 && nodes[0].id != id {
        lemma_node_place(nodes.skip(1), id);
        assert forall|k: int| 1 <= k < nodes.len() implies nodes.skip(1)[k - 1] == #[trigger] nodes[k] by {}
        if node_place(nodes, id) == nodes.len() {
            assert forall|k: int| 0 <= k < nodes.len() implies (#[trigger] nodes[k]).id != id by {
                if k > 0 {
                    assert(nodes.skip(1)[k - 1].id != id);
                }
            }
        } else {
            let k = node_place(nodes.skip(1), id);
            assert(nodes.skip(1)[k] == nodes[k + 1]);
        }
    }
}

/// No patch changes a node other than the one it aims at, and a patch that
/// aims at a node that the tree does not have changes no node at all.
pub proof fn lemma_patch_touches_its_node(nodes: Seq<TreeNodeView>, patch: PatchView, k: int)
    requires
        0 <= k < nodes.len(),
    ensures
        tree_after(nodes, patch).len() == nodes.len(),
        tree_after(nodes, patch)[k].id == nodes[k].id,
        k != target_place(nodes, patch.node_id) ==> tree_after(nodes, patch)[k] == nodes[k],
        patch.node_id matches Some(id) && (forall|j: int|
            0 <= j < nodes.len() ==> (#[trigger] nodes[j]).id != id) ==> tree_after(nodes, patch)
            == nodes,
{
    lemma_place_in_range(nodes, patch.node_id);
    if let Some(id) = patch.node_id {
        lemma_node_place(nodes, id);
    }
}


/// The change of one property of a node.
pub open spec fn at_property(property: NodeProperty, op: PatchOpView) -> (Seq<PatchSlot>, PatchOpView) {
    (seq![PatchSlot::Property(property)], op)
}

/// The patch of a node with the changes `ops`.
pub open spec fn patch_of(node_id: NodeId, ops: Seq<(Seq<PatchSlot>, PatchOpView)>) -> PatchView {
    PatchView { node_id: Some(node_id), ops, lossy: false }
}

impl Patch {
    /// A patch of the node `node_id` without changes.
    pub fn new(node_id: NodeId) -> (patch: Patch)
        ensures
            patch@ == patch_of(node_id, Seq::empty()),
    {
        let patch = Patch { node_id: Some(node_id), ops: Vec::new(), lossy: false };
        assert(patch@.ops =~= Seq::empty());
        patch
    }

    /// Add the change `op` of the property `property`.
    pub fn with(&mut self, property: NodeProperty, op: PatchOp)
        ensures
            final(self)@ == (PatchView {
                ops: old(self)@.ops.push(at_property(property, op@)),
                ..old(self)@
            }),
    {
        self.ops.push((PatchPath::from(property), op));
        assert(self@.ops =~= old(self)@.ops.push(at_property(property, op@)));
    }

    /// Add a change that sets the property `property` to `value`.
    pub fn set(&mut self, property: NodeProperty, value: PatchValue)
        ensures
            final(self)@ == (PatchView {
                ops: old(self)@.ops.push(at_property(property, PatchOpView::Assign(value@))),
                ..old(self)@
            }),
    {
        self.with(property, PatchOp::Assign(value));
    }

    /// Add a change that leaves the property `property` without a value.
    pub fn none(&mut self, property: NodeProperty)
        ensures
            final(self)@ == (PatchView {
                ops: old(self)@.ops.push(at_property(property, PatchOpView::Clear)),
                ..old(self)@
            }),
    {
        self.with(property, PatchOp::Clear);
    }
}

/// The value of a status, or the lack of one.
pub open spec fn status_op(status: Option<ExecutionStatus>) -> PatchOpView {
    match status {
        Some(status) => PatchOpView::Assign(PatchValueView::Status(status)),
        None => PatchOpView::Clear,
    }
}

/// The patch that gives a node a status; empty where `changed` does not
/// hold.
pub fn status_patch(node_id: NodeId, status: Option<ExecutionStatus>, changed: bool) -> (patch:
    Patch)
    ensures
        patch@ == patch_of(
            node_id,
            if changed {
                seq![at_property(NodeProperty::ExecutionStatus, status_op(status))]
            } else {
                Seq::empty()
            },
        ),
{
    let mut patch = Patch::new(node_id);
    if changed {
        match status {
            Some(status) => patch.set(NodeProperty::ExecutionStatus, PatchValue::Status(status)),
            None => patch.none(NodeProperty::ExecutionStatus),
        }
        assert(patch@.ops =~= seq![at_property(NodeProperty::ExecutionStatus, status_op(status))]);
    }
    patch
}

} // verus!
