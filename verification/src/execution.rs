//! The end of an execution: its status, its duration, and the changes that
//! tell of it.

use vstd::prelude::*;
use crate::digest::{execution_required_status, spec_execution_required_status};
use crate::node_property::NodeProperty;
use crate::patch::{
    at_property, value_views, Patch, PatchOp, PatchOpView, PatchSlot, PatchValue, PatchValueView,
    PatchView,
};
use crate::status::{next_execution_count, spec_next_execution_count, ExecutionStatus};

verus! {

/// Whether a walk over the tree goes on into the nodes below a node.
#[derive(Clone, Copy, Debug, PartialEq, Eq, Structural)]
pub enum WalkControl {
    Continue,
    Break,
}

/// How grave a message of an execution is.
#[derive(Clone, Copy, Debug, PartialEq, Eq, Structural)]
pub enum MessageLevel {
    Trace,
    Debug,
    Info,
    Warning,
    Error,
    Exception,
}

/// A message of an execution.
#[derive(Clone, Debug, PartialEq, Eq)]
pub struct ExecutionMessage {
    pub level: MessageLevel,
    pub message: String,
}

/// Some message is an exception.
pub open spec fn has_exception(messages: Seq<ExecutionMessage>) -> bool {
    exists|i: int| 0 <= i < messages.len() && (#[trigger] messages[i]).level is Exception
}

/// Some message is an error.
pub open spec fn has_error(messages: Seq<ExecutionMessage>) -> bool {
    exists|i: int| 0 <= i < messages.len() && (#[trigger] messages[i]).level is Error
}

/// The status that an execution with these messages ends in: `Exceptions`
/// where one is an exception, else `Failed` where one is an error, else
/// `Succeeded`.
pub open spec fn spec_execution_status(messages: Seq<ExecutionMessage>) -> ExecutionStatus {
    if has_exception(messages) {
        ExecutionStatus::Exceptions
    } else if has_error(messages) {
        ExecutionStatus::Failed
    } else {
        ExecutionStatus::Succeeded
    }
}

/// The status that an execution with these messages ends in.
pub fn execution_status(messages: &Vec<ExecutionMessage>) -> (status: ExecutionStatus)
    ensures
        status == spec_execution_status(messages@),
{
    let mut error = false;
    let mut i: usize = 0;
    while i < messages.len()
        invariant
            i <= messages.len(),
            forall|k: int| 0 <= k < i ==> !((#[trigger] messages@[k]).level is Exception),
            error <==> exists|k: int| 0 <= k < i && (#[trigger] messages@[k]).level is Error,
        decreases messages.len() - i,
    {
        match messages[i].level {
            MessageLevel::Exception => {
                assert(messages@[i as int].level is Exception);
                return ExecutionStatus::Exceptions;
            },
            MessageLevel::Error => {
                assert(messages@[i as int].level is Error);
                error = true;
            },
            _ => {},
        }
        i += 1;
    }
    if error {
        ExecutionStatus::Failed
    } else {
        ExecutionStatus::Succeeded
    }
}

/// The time from `started` to `ended`, kept within what a number holds.
pub open spec fn spec_execution_duration(started: i64, ended: i64) -> i64 {
    let span = ended - started;
    if span > i64::MAX {
        i64::MAX
    } else if span < i64::MIN {
        i64::MIN
    } else {
        span as i64
    }
}

/// The time from `started` to `ended`.
pub fn execution_duration(started: i64, ended: i64) -> (duration: i64)
    ensures
        duration == spec_execution_duration(started, ended),
{
    let span: i128 = ended as i128 - started as i128;
    if span > i64::MAX as i128 {
        i64::MAX
    } else if span < i64::MIN as i128 {
        i64::MIN
    } else {
        span as i64
    }
}

/// The change that sets the execution status of a node.
pub open spec fn set_status(status: ExecutionStatus) -> (Seq<PatchSlot>, PatchOpView) {
    at_property(NodeProperty::ExecutionStatus, PatchOpView::Assign(PatchValueView::Status(status)))
}

/// The change that tells of the messages of an execution: none where there
/// are none, else their texts.
pub open spec fn messages_op(messages: Seq<ExecutionMessage>) -> PatchOpView {
    if messages.len() == 0 {
        PatchOpView::Clear
    } else {
        PatchOpView::Append(
            messages.map_values(|message: ExecutionMessage| PatchValueView::String(message.message@)),
        )
    }
}

/// The changes that tell of the end of an execution: its status, the need
/// to execute again, its messages, its duration, its end and the count of
/// executions.
pub open spec fn end_ops(
    messages: Seq<ExecutionMessage>,
    count: Option<i64>,
    started: i64,
    ended: i64,
) -> Seq<(Seq<PatchSlot>, PatchOpView)> {
    let status = spec_execution_status(messages);
    seq![
        set_status(status),
        at_property(
            NodeProperty::ExecutionRequired,
            PatchOpView::Assign(PatchValueView::Required(spec_execution_required_status(status))),
        ),
        at_property(NodeProperty::ExecutionMessages, messages_op(messages)),
        at_property(
            NodeProperty::ExecutionDuration,
            PatchOpView::Assign(PatchValueView::Integer(spec_execution_duration(started, ended))),
        ),
        at_property(
            NodeProperty::ExecutionEnded,
            PatchOpView::Assign(PatchValueView::Integer(ended)),
        ),
        at_property(
            NodeProperty::ExecutionCount,
            PatchOpView::Assign(PatchValueView::Integer(spec_next_execution_count(count))),
        ),
    ]
}

/// Add the changes that tell of the end of an execution to a patch.
pub fn add_end_ops(
    patch: &mut Patch,
    messages: &Vec<ExecutionMessage>,
    count: Option<i64>,
    started: i64,
    ended: i64,
)
    ensures
        final(patch)@ == (PatchView {
            ops: old(patch)@.ops + end_ops(messages@, count, started, ended),
            ..old(patch)@
        }),
{
    let status = execution_status(messages);
    patch.set(NodeProperty::ExecutionStatus, PatchValue::Status(status));
    patch.set(
        NodeProperty::ExecutionRequired,
        PatchValue::Required(execution_required_status(&status)),
    );
    if messages.len() == 0 {
        patch.none(NodeProperty::ExecutionMessages);
    } else {
        let mut told: Vec<PatchValue> = Vec::new();
        let mut i: usize = 0;
        while i < messages.len()
            invariant
                i <= messages.len(),
                value_views(told@) == messages@.take(i as int).map_values(
                    |message: ExecutionMessage| PatchValueView::String(message.message@),
                ),
            decreases messages.len() - i,
        {
            let ghost so_far = told@;
            told.push(PatchValue::String(messages[i].message.clone()));
            proof {
                assert(value_views(told@) =~= value_views(so_far).push(
                    PatchValueView::String(messages@[i as int].message@),
                ));
                assert(messages@.take(i + 1) =~= messages@.take(i as int).push(messages@[i as int]));
            }
            i += 1;
        }
        proof {
            assert(messages@.take(messages.len() as int) =~= messages@);
        }
        patch.with(NodeProperty::ExecutionMessages, PatchOp::Append(told));
    }
    patch.set(
        NodeProperty::ExecutionDuration,
        PatchValue::Integer(execution_duration(started, ended)),
    );
    patch.set(NodeProperty::ExecutionEnded, PatchValue::Integer(ended));
    patch.set(NodeProperty::ExecutionCount, PatchValue::Integer(next_execution_count(count)));
    proof {
        assert(patch@.ops =~= old(patch)@.ops + end_ops(messages@, count, started, ended));
    }
}

/// The message of an execution that tells of an error: the words that say
/// what was being done, a colon, a space and the error.
pub fn error_to_execution_message(context: &str, error: &str) -> (message: ExecutionMessage)
    ensures
        message.level == MessageLevel::Exception,
        message.message@ == context@ + ": "@ + error@,
{
    let mut text = String::from_str(context);
    text.append(": ");
    text.append(error);
    ExecutionMessage { level: MessageLevel::Exception, message: text }
}

} // verus!
