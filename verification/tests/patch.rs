use docengine::codec::{schema_url, CodecSupport, JsonCodec, LatexCodec, Status, YamlCodec};
use docengine::format::Format;
use docengine::node::{NodeId, NodeType, NodeUid};
use docengine::node_property::NodeProperty;
use docengine::patch::{
    apply_to_values, status_patch, Patch, PatchOp, PatchPath, PatchSlot, PatchValue, Property,
    Tree, TreeNode,
};
use docengine::status::ExecutionStatus;

fn id(uid: u64) -> NodeId {
    NodeId::new(&NodeType::Paragraph.nick(), &NodeUid(uid))
}

fn ints(values: &[i64]) -> Vec<PatchValue> {
    values.iter().map(|n| PatchValue::Integer(*n)).collect()
}

fn after(values: &[i64], op: PatchOp) -> Vec<PatchValue> {
    let mut values = ints(values);
    apply_to_values(&mut values, op);
    values
}

fn tree() -> Tree {
    Tree {
        nodes: vec![
            TreeNode { id: id(0), properties: vec![Property { name: NodeProperty::Content, values: vec![PatchValue::Node(id(1)), PatchValue::Node(id(2))] }] },
            TreeNode { id: id(1), properties: vec![] },
            TreeNode { id: id(2), properties: vec![Property { name: NodeProperty::Code, values: vec![PatchValue::String(String::from("x = 2"))] }] },
        ],
    }
}

#[test]
fn operations_apply_to_every_list() {
    assert_eq!(after(&[1, 2], PatchOp::Assign(PatchValue::Integer(9))), ints(&[9]));
    assert_eq!(after(&[1, 2], PatchOp::Clear), ints(&[]));
    assert_eq!(after(&[], PatchOp::Clear), ints(&[]));
    assert_eq!(after(&[1], PatchOp::Append(ints(&[2, 3]))), ints(&[1, 2, 3]));
    assert_eq!(after(&[1], PatchOp::Push(PatchValue::Integer(2))), ints(&[1, 2]));
    assert_eq!(after(&[1, 4], PatchOp::Insert(1, ints(&[2, 3]))), ints(&[1, 2, 3, 4]));
    assert_eq!(after(&[1, 2], PatchOp::Insert(9, ints(&[3]))), ints(&[1, 2, 3]));
    assert_eq!(after(&[1, 2, 3, 4], PatchOp::Remove(1, 3)), ints(&[1, 4]));
    assert_eq!(after(&[1, 2, 3, 4], PatchOp::Remove(2, 9)), ints(&[1, 2]));
    assert_eq!(after(&[1, 2, 3, 4], PatchOp::Remove(3, 1)), ints(&[1, 2, 3, 4]));
    assert_eq!(after(&[1, 2, 3, 4], PatchOp::Remove(7, 9)), ints(&[1, 2, 3, 4]));
    assert_eq!(after(&[1, 2, 3], PatchOp::Replace(1, PatchValue::Integer(9))), ints(&[1, 9, 3]));
    assert_eq!(after(&[1, 2, 3], PatchOp::Replace(3, PatchValue::Integer(9))), ints(&[1, 2, 3]));
    assert_eq!(after(&[1, 2, 3], PatchOp::Move(0, 2)), ints(&[2, 3, 1]));
    assert_eq!(after(&[1, 2, 3], PatchOp::Move(2, 0)), ints(&[3, 1, 2]));
    assert_eq!(after(&[1, 2, 3], PatchOp::Move(0, 9)), ints(&[2, 3, 1]));
    assert_eq!(after(&[1, 2, 3], PatchOp::Move(5, 0)), ints(&[1, 2, 3]));
    assert_eq!(after(&[1, 2, 3], PatchOp::Nothing), ints(&[1, 2, 3]));
}

#[test]
fn patch_for_a_node_that_is_not_there_is_dropped() {
    let mut document = tree();
    let mut patch = Patch::new(id(7));
    patch.set(NodeProperty::Code, PatchValue::String(String::from("y = 3")));
    assert!(!document.has_node(id(7)));
    assert!(!document.apply(patch));
    assert_eq!(document, tree());
}

#[test]
fn empty_patch_changes_nothing() {
    let mut document = tree();
    assert!(document.apply(Patch::new(id(2))));
    assert_eq!(document, tree());
    assert!(document.apply(Patch { node_id: None, ops: vec![], lossy: false }));
    assert_eq!(document, tree());
    let mut empty = Tree { nodes: vec![] };
    assert!(!empty.apply(Patch { node_id: None, ops: vec![], lossy: false }));
}

#[test]
fn patch_changes_its_node_and_no_other() {
    let mut document = tree();
    let mut patch = Patch::new(id(2));
    patch.set(NodeProperty::Code, PatchValue::String(String::from("x = 3")));
    patch.set(NodeProperty::ExecutionStatus, PatchValue::Status(ExecutionStatus::Running));
    patch.none(NodeProperty::ExecutionMessages);
    assert!(document.apply(patch));
    let expected = tree();
    assert_eq!(document.nodes[0], expected.nodes[0]);
    assert_eq!(document.nodes[1], expected.nodes[1]);
    assert_eq!(
        document.nodes[2].properties,
        vec![
            Property { name: NodeProperty::Code, values: vec![PatchValue::String(String::from("x = 3"))] },
            Property { name: NodeProperty::ExecutionStatus, values: vec![PatchValue::Status(ExecutionStatus::Running)] },
        ]
    );
}

#[test]
fn patch_without_a_node_goes_to_the_root() {
    let mut document = tree();
    let patch = Patch {
        node_id: None,
        ops: vec![
            (PatchPath::from(NodeProperty::Content), PatchOp::Push(PatchValue::Node(id(3)))),
            (
                PatchPath { slots: vec![PatchSlot::Property(NodeProperty::Content), PatchSlot::Index(0)] },
                PatchOp::Assign(PatchValue::Node(id(9))),
            ),
            (PatchPath { slots: vec![PatchSlot::Index(0)] }, PatchOp::Clear),
            (PatchPath::new(), PatchOp::Clear),
        ],
        lossy: false,
    };
    assert!(document.apply(patch));
    assert_eq!(
        document.nodes[0].properties[0].values,
        vec![PatchValue::Node(id(9)), PatchValue::Node(id(2)), PatchValue::Node(id(3))]
    );
}

#[test]
fn path_is_a_queue_of_slots() {
    let mut path = PatchPath::from(NodeProperty::Content);
    path.slots.push(PatchSlot::Index(4));
    assert!(!path.is_empty());
    assert_eq!(path.front(), Some(PatchSlot::Property(NodeProperty::Content)));
    assert_eq!(path.pop_front(), Some(PatchSlot::Property(NodeProperty::Content)));
    assert_eq!(path.pop_front(), Some(PatchSlot::Index(4)));
    assert_eq!(path.pop_front(), None);
    assert!(path.is_empty() && PatchPath::new().is_empty());
}

#[test]
fn status_patch_sets_or_clears_the_status() {
    let patch = status_patch(id(1), Some(ExecutionStatus::Scheduled), true);
    assert_eq!(patch.node_id, Some(id(1)));
    assert_eq!(
        patch.ops,
        vec![(PatchPath::from(NodeProperty::ExecutionStatus), PatchOp::Assign(PatchValue::Status(ExecutionStatus::Scheduled)))]
    );
    assert_eq!(
        status_patch(id(1), None, true).ops,
        vec![(PatchPath::from(NodeProperty::ExecutionStatus), PatchOp::Clear)]
    );
    assert!(status_patch(id(1), Some(ExecutionStatus::Scheduled), false).ops.is_empty());
}

#[test]
fn batch_is_applied_patch_by_patch() {
    let mut document = tree();
    let mut first = Patch::new(id(1));
    first.set(NodeProperty::Code, PatchValue::String(String::from("a")));
    let missing = Patch::new(id(8));
    let mut second = Patch::new(id(1));
    second.with(NodeProperty::Code, PatchOp::Push(PatchValue::String(String::from("b"))));
    assert_eq!(document.apply_batch(vec![first, missing, second]), vec![true, false, true]);
    assert_eq!(
        document.nodes[1].properties,
        vec![Property {
            name: NodeProperty::Code,
            values: vec![PatchValue::String(String::from("a")), PatchValue::String(String::from("b"))]
        }]
    );
    assert!(document.apply_batch(vec![]).is_empty());
}

#[test]
fn codecs_are_known_by_name() {
    assert_eq!(JsonCodec.name(), "json");
    assert_eq!(JsonCodec.status(), Status::Unstable);
    assert_eq!(JsonCodec.supported_formats(), vec![Format::Json]);
    assert_eq!(JsonCodec.supports_format(&Format::Json), CodecSupport::NoLoss);
    assert_eq!(JsonCodec.supports_format(&Format::Yaml), CodecSupport::Unsupported);
    assert_eq!(YamlCodec.name(), "yaml");
    assert_eq!(YamlCodec.status(), Status::Stable);
    assert_eq!(YamlCodec.supported_formats(), vec![Format::Yaml]);
    assert!(YamlCodec.supports_format(&Format::Yaml).is_supported());
    assert!(!YamlCodec.supports_format(&Format::Json).is_supported());
    assert_eq!(LatexCodec.name(), "latex");
    assert_eq!(LatexCodec.status(), Status::UnderDevelopment);
    assert_eq!(schema_url("Article"), "https://stencila.dev/Article.schema.json");
}
