use docengine::digest::{
    execution_required_digests, execution_required_status, needs_execution, CompilationDigest,
};
use docengine::status::{
    blocks_dependants, next_execution_count, recovered, running_from, scheduled_from,
    ExecutionRequired, ExecutionStatus,
};
use docengine::value::Value;

#[test]
fn scheduling_remembers_a_failure() {
    assert_eq!(scheduled_from(None), ExecutionStatus::Scheduled);
    assert_eq!(scheduled_from(Some(ExecutionStatus::Succeeded)), ExecutionStatus::Scheduled);
    assert_eq!(
        scheduled_from(Some(ExecutionStatus::Failed)),
        ExecutionStatus::ScheduledPreviouslyFailed
    );
    assert_eq!(running_from(Some(ExecutionStatus::Scheduled)), ExecutionStatus::Running);
    assert_eq!(
        running_from(Some(ExecutionStatus::ScheduledPreviouslyFailed)),
        ExecutionStatus::RunningPreviouslyFailed
    );
    assert_eq!(running_from(Some(ExecutionStatus::Failed)), ExecutionStatus::RunningPreviouslyFailed);
}

#[test]
fn transient_and_terminal_statuses() {
    for status in [
        ExecutionStatus::Scheduled,
        ExecutionStatus::ScheduledPreviouslyFailed,
        ExecutionStatus::Running,
        ExecutionStatus::RunningPreviouslyFailed,
    ] {
        assert!(status.is_transient() && !status.is_terminal());
    }
    for status in [
        ExecutionStatus::Succeeded,
        ExecutionStatus::Failed,
        ExecutionStatus::Cancelled,
        ExecutionStatus::Exceptions,
    ] {
        assert!(status.is_terminal() && !status.is_transient());
    }
    assert!(!ExecutionStatus::Pending.is_transient() && !ExecutionStatus::Pending.is_terminal());
}

#[test]
fn dependants_are_blocked_by_failure_cancellation_and_absence() {
    assert!(blocks_dependants(None));
    assert!(blocks_dependants(Some(ExecutionStatus::Failed)));
    assert!(blocks_dependants(Some(ExecutionStatus::Cancelled)));
    assert!(!blocks_dependants(Some(ExecutionStatus::Succeeded)));
    assert!(!blocks_dependants(Some(ExecutionStatus::Exceptions)));
}

#[test]
fn execution_count_never_goes_down() {
    assert_eq!(next_execution_count(None), 1);
    assert_eq!(next_execution_count(Some(0)), 1);
    assert_eq!(next_execution_count(Some(41)), 42);
    assert_eq!(next_execution_count(Some(i64::MAX)), i64::MAX);
    let mut count = Some(-3);
    for _ in 0..10 {
        let next = next_execution_count(count);
        assert!(next >= count.unwrap());
        count = Some(next);
    }
    assert_eq!(count, Some(7));
}

#[test]
fn digests_tell_why_to_execute() {
    let compiled = CompilationDigest { state_digest: 1, semantic_digest: 2, dependencies_digest: 3 };
    assert_eq!(execution_required_digests(&None, &compiled), ExecutionRequired::NeverExecuted);
    assert_eq!(execution_required_digests(&Some(compiled), &compiled), ExecutionRequired::No);
    let mut executed = compiled;
    executed.dependencies_digest = 9;
    assert_eq!(
        execution_required_digests(&Some(executed), &compiled),
        ExecutionRequired::DependenciesChanged
    );
    executed.semantic_digest = 9;
    assert_eq!(
        execution_required_digests(&Some(executed), &compiled),
        ExecutionRequired::SemanticsChanged
    );
    executed.state_digest = 9;
    assert_eq!(
        execution_required_digests(&Some(executed), &compiled),
        ExecutionRequired::StateChanged
    );
    assert_eq!(CompilationDigest::new(7), CompilationDigest {
        state_digest: 7,
        semantic_digest: 0,
        dependencies_digest: 0
    });
}

#[test]
fn recompiling_without_an_edit_needs_no_execution() {
    let first = CompilationDigest::new(12345);
    let second = CompilationDigest::new(12345);
    assert_eq!(first, second);
    assert_eq!(execution_required_digests(&Some(first), &second), ExecutionRequired::No);
}

#[test]
fn node_needs_execution_when_digest_differs_or_a_dependency_did_not_succeed() {
    let digest = CompilationDigest::new(1);
    assert!(needs_execution(&None, &digest, &vec![]));
    assert!(needs_execution(&Some(CompilationDigest::new(2)), &digest, &vec![]));
    assert!(!needs_execution(&Some(digest), &digest, &vec![Some(ExecutionStatus::Succeeded), None]));
    assert!(needs_execution(&Some(digest), &digest, &vec![Some(ExecutionStatus::Failed)]));
    assert!(needs_execution(&Some(digest), &digest, &vec![Some(ExecutionStatus::Cancelled)]));
    assert!(!needs_execution(&Some(digest), &digest, &vec![Some(ExecutionStatus::Running)]));
    assert_eq!(execution_required_status(&ExecutionStatus::Succeeded), ExecutionRequired::No);
    assert_eq!(execution_required_status(&ExecutionStatus::Failed), ExecutionRequired::StateChanged);
}

#[test]
fn values_read_as_conditions() {
    assert!(!Value::Null.is_truthy());
    assert!(Value::Boolean(true).is_truthy());
    assert!(!Value::Boolean(false).is_truthy());
    assert!(!Value::Integer(0).is_truthy());
    assert!(Value::Integer(-1).is_truthy());
    assert!(!Value::Number(0.0f64.to_bits()).is_truthy());
    assert!(!Value::Number((-0.0f64).to_bits()).is_truthy());
    assert!(Value::Number(0.5f64.to_bits()).is_truthy());
    assert!(Value::Number(f64::NAN.to_bits()).is_truthy());
    assert!(!Value::String(String::new()).is_truthy());
    assert!(Value::String(String::from("False")).is_truthy());
    assert!(!Value::Array(0).is_truthy());
    assert!(Value::Array(2).is_truthy());
    assert!(!Value::Object(0).is_truthy());
    assert!(Value::Object(1).is_truthy());
    assert!(!Value::Datatable(0).is_truthy());
    assert!(Value::Datatable(3).is_truthy());
    assert!(Value::Other.is_truthy());
}

#[test]
fn stale_status_is_recovered_when_a_document_is_opened() {
    assert_eq!(recovered(Some(ExecutionStatus::Running), Some(ExecutionStatus::Failed)), Some(ExecutionStatus::Failed));
    assert_eq!(recovered(Some(ExecutionStatus::Scheduled), None), None);
    assert_eq!(recovered(Some(ExecutionStatus::RunningPreviouslyFailed), Some(ExecutionStatus::Running)), None);
    assert_eq!(recovered(Some(ExecutionStatus::Succeeded), Some(ExecutionStatus::Failed)), Some(ExecutionStatus::Succeeded));
    assert_eq!(recovered(None, Some(ExecutionStatus::Failed)), None);
}
