//! Conditional blocks: clauses tried in order, the first that holds active.
//!
//! The block decides which clause to evaluate next and what an outcome
//! means; its caller evaluates the expression of a clause in a kernel.

use vstd::prelude::*;
use crate::text::{
    chars_of, decimal, fold, is_blank, same_ignoring_case, spec_is_blank, to_decimal,
};
use crate::types::ExecutionError;
use crate::value::Value;

verus! {

/// One clause of a conditional block.
#[derive(Clone, Debug, PartialEq, Eq)]
pub struct IfClause {
    /// The expression of the clause; an empty one on the last clause makes
    /// it the `else` of the block
    pub code: String,
    /// The language of the expression
    pub programming_language: String,
    /// Whether the language of the expression is to be guessed
    pub guess_language: Option<bool>,
    /// Whether the clause is the active one; unknown before the block is
    /// executed, and after an error of the expression
    pub is_active: Option<bool>,
    /// The errors of the expression
    pub errors: Option<Vec<ExecutionError>>,
}

impl IfClause {
    /// The language of the clause is to be guessed: it asks for it, or
    /// names no language, or names the unknown one.
    pub open spec fn spec_needs_language(self) -> bool {
        self.guess_language == Some(true) || self.programming_language@.len() == 0
            || same_ignoring_case(self.programming_language@, "unknown"@)
    }

    /// Whether the language of the clause is to be guessed.
    pub fn needs_language(&self) -> (needed: bool)
        ensures
            needed == self.spec_needs_language(),
    {
        let asked = match self.guess_language {
            Some(asked) => asked,
            None => false,
        };
        if asked || self.programming_language.as_str().is_empty() {
            return true;
        }
        let name = chars_of(self.programming_language.as_str());
        let unknown = chars_of("unknown");
        if name.len() != unknown.len() {
            return false;
        }
        let mut i: usize = 0;
        while i < name.len()
            invariant
                self.guess_language != Some(true),
                self.programming_language@.len() > 0,
                name@ == self.programming_language@,
                unknown@ == "unknown"@,
                name.len() == unknown.len(),
                i <= name.len(),
                forall|k: int|
                    0 <= k < i ==> fold(#[trigger] name@[k]) == fold(
                        unknown@[k],
                    ),
            decreases name.len() - i,
        {
            if fold(name[i]) != fold(unknown[i]) {
                assert(fold(self.programming_language@[i as int])
                    != fold("unknown"@[i as int]));
                return false;
            }
            i += 1;
        }
        true
    }
}

/// A conditional block.
#[derive(Clone, Debug, PartialEq, Eq)]
pub struct If {
    pub clauses: Vec<IfClause>,
}

/// What the evaluation of the expression of a clause came to.
#[derive(Clone, Debug, PartialEq, Eq)]
pub enum ClauseOutcome {
    /// The one value of the expression
    Value(Value),
    /// The errors of the expression
    Errors(Vec<ExecutionError>),
}

impl ClauseOutcome {
    /// What the outcome says of the clause: whether it holds, or nothing
    /// after an error.
    pub open spec fn condition(self) -> Option<bool> {
        match self {
            ClauseOutcome::Value(value) => Some(value.spec_is_truthy()),
            ClauseOutcome::Errors(_) => None,
        }
    }
}

/// The outcome of a clause, by the messages and the outputs of the task
/// that evaluated its expression: the messages where there are any, else
/// the output where there is exactly one, else an error that says how many
/// outputs there were.
pub fn clause_outcome(messages: Vec<ExecutionError>, mut outputs: Vec<Value>) -> (outcome:
    ClauseOutcome)
    ensures
        messages.len() > 0 ==> outcome == ClauseOutcome::Errors(messages),
        messages.len() == 0 && outputs.len() == 1 ==> outcome == ClauseOutcome::Value(outputs[0]),
        messages.len() == 0 && outputs.len() != 1 ==> (outcome matches ClauseOutcome::Errors(errors)
            && errors.len() == 1 && errors[0].error_message@
            == "Expected one output from expression, got "@ + decimal(outputs.len() as nat)
            + " outputs"@ && errors[0].id is None && errors[0].error_type is None
            && errors[0].stack_trace is None),
{
    if messages.len() > 0 {
        ClauseOutcome::Errors(messages)
    } else if outputs.len() == 1 {
        ClauseOutcome::Value(outputs.remove(0))
    } else {
        let mut message = String::from_str("Expected one output from expression, got ");
        let count = to_decimal(outputs.len());
        message.append(count.as_str());
        message.append(" outputs");
        let mut errors: Vec<ExecutionError> = Vec::new();
        errors.push(ExecutionError::new(message));
        ClauseOutcome::Errors(errors)
    }
}

/// How far the execution of a block has come.
#[derive(Clone, Copy, Debug, PartialEq, Eq, Structural)]
pub struct IfRun {
    /// The number of clauses dealt with
    pub index: usize,
    /// Whether one of them is active
    pub activated: bool,
}

/// A clause with its activity known.
pub open spec fn with_activity(clause: IfClause, active: bool) -> IfClause {
    IfClause { is_active: Some(active), ..clause }
}

/// A clause once the outcome of its evaluation is taken: active where its
/// value holds, not active where it does not, unknown after an error, with
/// the errors of the outcome.
pub open spec fn recorded(clause: IfClause, outcome: ClauseOutcome) -> IfClause {
    IfClause {
        is_active: outcome.condition(),
        errors: match outcome {
            ClauseOutcome::Value(_) => None,
            ClauseOutcome::Errors(errors) => Some(errors),
        },
        ..clause
    }
}

/// The clauses of a block once it is executed from clause `index` on,
/// where `activated` tells whether a clause before that is active and
/// `outcomes[i]` is what the evaluation of clause `i` gives.
///
/// A clause after the active one is not active, and is not evaluated. A
/// last clause with a blank expression, reached with no clause active, is
/// active, and is not evaluated. Any other clause is evaluated; where the
/// outcomes do not reach that far, the clauses from there on stay as they
/// are.
pub open spec fn executed(
    clauses: Seq<IfClause>,
    outcomes: Seq<ClauseOutcome>,
    index: int,
    activated: bool,
) -> Seq<IfClause>
    decreases clauses.len() - index,
{
    if index < 0 || index >= clauses.len() {
        clauses
    } else if activated {
        executed(
            clauses.update(index, with_activity(clauses[index], false)),
            outcomes,
            index + 1,
            true,
        )
    } else if index == clauses.len() - 1 && spec_is_blank(clauses[index].code@) {
        clauses.update(index, with_activity(clauses[index], true))
    } else if index >= outcomes.len() {
        clauses
    } else {
        executed(
            clauses.update(index, recorded(clauses[index], outcomes[index])),
            outcomes,
            index + 1,
            outcomes[index].condition() == Some(true),
        )
    }
}

/// Once a clause is active, every clause from `index` on is not active and
/// is otherwise as it was.
pub proof fn lemma_executed_after(
    clauses: Seq<IfClause>,
    outcomes: Seq<ClauseOutcome>,
    index: int,
    result: Seq<IfClause>,
)
    requires
        0 <= index,
        result.len() == clauses.len(),
        forall|j: int|
            0 <= j < clauses.len() ==> #[trigger] result[j] == if index <= j {
                with_activity(clauses[j], false)
            } else {
                clauses[j]
            },
    ensures
        executed(clauses, outcomes, index, true) == result,
    decreases clauses.len() - index,
{
    if index >= clauses.len() {
        assert(result =~= clauses);
    } else {
        lemma_executed_after(
            clauses.update(index, with_activity(clauses[index], false)),
            outcomes,
            index + 1,
            result,
        );
    }
}

/// Executed from clause `index` on with no clause active yet, where every
/// clause before clause `i` proves false and clause `i` holds, a block has
/// clause `i` active, every other clause from `index` on not active, and
/// the clauses before `index` as they were.
pub proof fn lemma_executed_from(
    clauses: Seq<IfClause>,
    outcomes: Seq<ClauseOutcome>,
    index: int,
    i: int,
)
    requires
        0 <= index <= i < clauses.len(),
        forall|k: int|
            index <= k < i ==> k < outcomes.len() && (#[trigger] outcomes[k]).condition() == Some(
                false,
            ),
        (i == clauses.len() - 1 && spec_is_blank(clauses[i].code@)) || (i < outcomes.len()
            && outcomes[i].condition() == Some(true)),
    ensures
        executed(clauses, outcomes, index, false).len() == clauses.len(),
        forall|j: int|
            0 <= j < index ==> #[trigger] executed(clauses, outcomes, index, false)[j]
                == clauses[j],
        forall|j: int|
            index <= j < clauses.len() ==> (#[trigger] executed(
                clauses,
                outcomes,
                index,
                false,
            )[j]).is_active == Some(j == i),
    decreases i - index,
{
    if index == i {
        if !(i == clauses.len() - 1 && spec_is_blank(clauses[i].code@)) {
            let next = clauses.update(i, recorded(clauses[i], outcomes[i]));
            let result = Seq::new(
                clauses.len(),
                |j: int|
                    if i + 1 <= j {
                        with_activity(next[j], false)
                    } else {
                        next[j]
                    },
            );
            lemma_executed_after(next, outcomes, i + 1, result);
        }
    } else {
        assert(outcomes[index].condition() == Some(false));
        let next = clauses.update(index, recorded(clauses[index], outcomes[index]));
        lemma_executed_from(next, outcomes, index + 1, i);
    }
}

impl If {
    /// Clause `i` of the block is active.
    pub open spec fn active_at(self, i: int) -> bool {
        0 <= i < self.clauses.len() && self.clauses[i].is_active == Some(true)
    }

    /// The last clause is an `else`: its expression is blank.
    pub open spec fn last_is_else(self) -> bool {
        self.clauses.len() > 0 && spec_is_blank(self.clauses[self.clauses.len() - 1].code@)
    }

    /// The clauses dealt with so far are as the rules leave them: at most
    /// one of them is active, every clause after it is not, and the run
    /// knows whether there is one.
    pub open spec fn consistent(self, run: IfRun) -> bool {
        &&& run.index <= self.clauses.len()
        &&& run.activated <==> exists|i: int| i < run.index && #[trigger] self.active_at(i)
        &&& forall|i: int, j: int|
            i < j < run.index && #[trigger] self.active_at(i) && 0 <= j ==> (
            #[trigger] self.clauses[j]).is_active == Some(false)
    }

    /// The place of the first clause, from the place `from` on, whose
    /// language is to be guessed; none where there is none. The guess for a
    /// clause starts from the language that was guessed for the clause
    /// before it.
    pub fn next_to_guess(&self, from: usize) -> (next: Option<usize>)
        ensures
            match next {
                Some(i) => from <= i < self.clauses.len() && self.clauses[i as int].spec_needs_language()
                    && forall|k: int|
                    from <= k < i ==> !(#[trigger] self.clauses[k]).spec_needs_language(),
                None => forall|k: int|
                    from <= k < self.clauses.len() ==> !(
                    #[trigger] self.clauses[k]).spec_needs_language(),
            },
    {
        let mut i: usize = from;
        while i < self.clauses.len()
            invariant
                from <= i,
                forall|k: int|
                    from <= k < i && k < self.clauses.len() ==> !(
                    #[trigger] self.clauses[k]).spec_needs_language(),
            decreases self.clauses.len() - i,
        {
            if self.clauses[i].needs_language() {
                return Some(i);
            }
            i += 1;
        }
        None
    }

    /// Give clause `i` the language that was guessed for it.
    pub fn set_language(&mut self, i: usize, language: String)
        requires
            i < old(self).clauses.len(),
        ensures
            final(self).clauses.len() == old(self).clauses.len(),
            final(self).clauses[i as int] == (IfClause {
                programming_language: language,
                ..old(self).clauses[i as int]
            }),
            forall|k: int|
                0 <= k < old(self).clauses.len() && k != i ==> (#[trigger] final(self).clauses[k])
                    == old(self).clauses[k],
    {
        self.clauses[i].programming_language = language;
    }

    /// The clauses from `from` up to `to` are as in `before` but for their
    /// activity, which is `active`; every other clause is as in `before`.
    pub open spec fn marked(self, before: If, from: int, to: int, active: bool) -> bool {
        &&& self.clauses.len() == before.clauses.len()
        &&& forall|i: int|
            0 <= i < self.clauses.len() ==> (#[trigger] self.clauses[i]) == (if from <= i < to {
                IfClause { is_active: Some(active), ..before.clauses[i] }
            } else {
                before.clauses[i]
            })
    }

    /// The clause that the run has come to is the `else` of the block: the
    /// last clause, with a blank expression, reached with no clause active.
    pub open spec fn at_else(self, run: IfRun) -> bool {
        !run.activated && run.index == self.clauses.len() - 1 && self.last_is_else()
    }

    /// Start the execution of the block.
    pub fn begin(&self) -> (run: IfRun)
        ensures
            run == (IfRun { index: 0, activated: false }),
            self.consistent(run),
    {
        IfRun { index: 0, activated: false }
    }

    /// Deal with the clauses that need no evaluation, and give the place of
    /// the next clause whose expression is to be evaluated; none when the
    /// block is done.
    ///
    /// A clause after the active one is not active. A last clause with a
    /// blank expression, reached with no clause active, is the `else`: it
    /// is active.
    pub fn next_clause(&mut self, run: &mut IfRun) -> (next: Option<usize>)
        requires
            old(self).consistent(*old(run)),
        ensures
            final(self).consistent(*final(run)),
            old(run).activated ==> next is None && *final(run) == (IfRun {
                index: old(self).clauses.len(),
                activated: true,
            }) && final(self).marked(
                *old(self),
                old(run).index as int,
                old(self).clauses.len() as int,
                false,
            ),
            old(self).at_else(*old(run)) ==> next is None && *final(run) == (IfRun {
                index: old(self).clauses.len(),
                activated: true,
            }) && final(self).marked(
                *old(self),
                old(run).index as int,
                old(self).clauses.len() as int,
                true,
            ),
            !old(run).activated && !old(self).at_else(*old(run)) ==> *final(run) == *old(run)
                && *final(self) == *old(self) && next == (if old(run).index < old(
                self,
            ).clauses.len() {
                Some(old(run).index)
            } else {
                None
            }),
    {
        let count = self.clauses.len();
        while run.index < count
            invariant
                count == self.clauses.len(),
                self.consistent(*run),
                old(run).index <= run.index,
                run.activated == old(run).activated,
                self.marked(*old(self), old(run).index as int, run.index as int, false),
                run.index > old(run).index ==> run.activated,
                run.index == old(run).index ==> *self == *old(self),
            decreases count - run.index,
        {
            let i = run.index;
            let ghost before = *self;
            if !run.activated && i == count - 1 && is_blank(self.clauses[i].code.as_str()) {
                self.clauses[i].is_active = Some(true);
                run.activated = true;
                run.index = count;
                proof {
                    assert(self.active_at(i as int));
                    assert forall|a: int, b: int|
                        a < b < run.index && #[trigger] self.active_at(a) && 0 <= b implies (
                    #[trigger] self.clauses[b]).is_active == Some(false) by {
                        if a != i {
                            assert(before.active_at(a));
                        }
                    }
                }
                return None;
            }
            if !run.activated {
                return Some(i);
            }
            self.clauses[i].is_active = Some(false);
            run.index = i + 1;
            proof {
                assert forall|a: int| a < i && before.active_at(a) implies self.active_at(a) by {}
                assert forall|a: int| a < run.index && self.active_at(a) implies before.active_at(
                    a,
                ) by {}
                let w = choose|w: int| w < i && #[trigger] before.active_at(w);
                assert(self.active_at(w));
                assert forall|a: int, b: int|
                    a < b < run.index && #[trigger] self.active_at(a) && 0 <= b implies (
                #[trigger] self.clauses[b]).is_active == Some(false) by {
                    assert(before.active_at(a));
                    if b < i {
                        assert(before.clauses[b].is_active == Some(false));
                    }
                }
            }
        }
        None
    }

    /// Take the outcome of the evaluation of the clause that the run has
    /// come to. The clause is active where its value holds, not active
    /// where it does not, and unknown after an error; its errors are those
    /// of the outcome.
    pub fn record(&mut self, run: &mut IfRun, outcome: ClauseOutcome)
        requires
            old(self).consistent(*old(run)),
            old(run).index < old(self).clauses.len(),
            !old(run).activated,
        ensures
            final(self).consistent(*final(run)),
            final(run).index == old(run).index + 1,
            final(run).activated == (outcome.condition() == Some(true)),
            final(self).clauses@ == old(self).clauses@.update(
                old(run).index as int,
                recorded(old(self).clauses[old(run).index as int], outcome),
            ),
    {
        let i = run.index;
        let ghost before = *self;
        let (condition, errors) = match outcome {
            ClauseOutcome::Value(value) => (Some(value.is_truthy()), None),
            ClauseOutcome::Errors(errors) => (None, Some(errors)),
        };
        self.clauses[i].errors = errors;
        self.clauses[i].is_active = condition;
        if let Some(true) = condition {
            run.activated = true;
        }
        run.index = i + 1;
        proof {
            assert forall|a: int| a < i implies !self.active_at(a) by {
                if self.active_at(a) {
                    assert(before.active_at(a));
                }
            }
            if condition == Some(true) {
                assert(self.active_at(i as int));
            }
        }
    }

    /// Execute the block, where `outcomes` holds for each clause what the
    /// evaluation of its expression gives. The clauses are dealt with in
    /// order, and an outcome is taken only for a clause that is evaluated:
    /// a clause is not evaluated after the active one, and neither is the
    /// `else` of the block.
    pub fn execute_begin(&mut self, outcomes: Vec<ClauseOutcome>)
        ensures
            final(self).clauses@ == executed(old(self).clauses@, outcomes@, 0, false),
    {
        let ghost all = outcomes@;
        let mut left = outcomes;
        let mut run = self.begin();
        let mut done = false;
        proof {
            assert(all.skip(0) =~= all);
        }
        while !done
            invariant
                self.consistent(run),
                self.clauses.len() == old(self).clauses.len(),
                !done ==> executed(self.clauses@, all, run.index as int, run.activated) == executed(
                    old(self).clauses@,
                    all,
                    0,
                    false,
                ),
                !done && !run.activated ==> run.index <= all.len() && left@ == all.skip(
                    run.index as int,
                ),
                done ==> self.clauses@ == executed(old(self).clauses@, all, 0, false),
            decreases self.clauses.len() - run.index + (if done { 0int } else { 1int }),
        {
            let ghost before = *self;
            let ghost at = run;
            match self.next_clause(&mut run) {
                None => {
                    proof {
                        if at.activated {
                            lemma_executed_after(before.clauses@, all, at.index as int, self.clauses@);
                        } else if before.at_else(at) {
                            assert(self.clauses@ =~= before.clauses@.update(
                                at.index as int,
                                with_activity(before.clauses@[at.index as int], true),
                            ));
                        }
                    }
                    done = true;
                },
                Some(i) => {
                    if left.len() == 0 {
                        done = true;
                    } else {
                        let outcome = left.remove(0);
                        assert(outcome == all[i as int]);
                        self.record(&mut run, outcome);
                        proof {
                            assert(left@ =~= all.skip(i + 1));
                        }
                    }
                },
            }
        }
    }
}

/// Once every clause is dealt with, of two clauses not both are active, and
/// no clause after an active one is other than not active.
pub proof fn lemma_one_active_clause(block: If, run: IfRun, i: int, j: int)
    requires
        block.consistent(run),
        run.index == block.clauses.len(),
        block.active_at(i),
        0 <= j < block.clauses.len(),
        i != j,
    ensures
        !block.active_at(j),
        i < j ==> block.clauses[j].is_active == Some(false),
{
    if j < i {
        if block.active_at(j) {
            assert(block.clauses[i].is_active == Some(false));
        }
    }
}

/// Where every clause before clause `i` proves false, without an error,
/// and clause `i` is the first that holds, or is the `else` of the block,
/// the executed block has clause `i` active and every other clause not
/// active.
pub proof fn lemma_first_truthy_is_active(
    clauses: Seq<IfClause>,
    outcomes: Seq<ClauseOutcome>,
    i: int,
    j: int,
)
    requires
        0 <= i < clauses.len(),
        forall|k: int|
            0 <= k < i ==> k < outcomes.len() && (#[trigger] outcomes[k]).condition() == Some(
                false,
            ),
        (i == clauses.len() - 1 && spec_is_blank(clauses[i].code@)) || (i < outcomes.len()
            && outcomes[i].condition() == Some(true)),
        0 <= j < clauses.len(),
    ensures
        executed(clauses, outcomes, 0, false).len() == clauses.len(),
        executed(clauses, outcomes, 0, false)[j].is_active == Some(j == i),
{
    lemma_executed_from(clauses, outcomes, 0, i);
}

/// A clause whose evaluation ends in an error has the errors and an
/// unknown activity, and the execution goes on with the clause after it.
pub proof fn lemma_error_goes_on(clauses: Seq<IfClause>, outcomes: Seq<ClauseOutcome>, index: int)
    requires
        0 <= index < clauses.len(),
        index < outcomes.len(),
        outcomes[index] is Errors,
        !(index == clauses.len() - 1 && spec_is_blank(clauses[index].code@)),
    ensures
        executed(clauses, outcomes, index, false) == executed(
            clauses.update(
                index,
                IfClause { is_active: None, errors: Some(outcomes[index]->Errors_0), ..clauses[index] },
            ),
            outcomes,
            index + 1,
            false,
        ),
{
}

} // verus!
