use docengine::if_block::{clause_outcome, ClauseOutcome, If, IfClause};
use docengine::text::{is_blank, is_white_space, to_decimal};
use docengine::types::ExecutionError;
use docengine::value::Value;

fn clause(code: &str) -> IfClause {
    IfClause {
        code: String::from(code),
        programming_language: String::from("py"),
        guess_language: None,
        is_active: None,
        errors: None,
    }
}

fn run(block: &mut If, outcomes: Vec<ClauseOutcome>) -> Vec<usize> {
    let mut evaluated = Vec::new();
    let mut outcomes = outcomes.into_iter();
    let mut run = block.begin();
    while let Some(i) = block.next_clause(&mut run) {
        evaluated.push(i);
        block.record(&mut run, outcomes.next().unwrap());
    }
    evaluated
}

fn active(block: &If) -> Vec<Option<bool>> {
    block.clauses.iter().map(|clause| clause.is_active).collect()
}

#[test]
fn else_clause_is_active_when_no_other_is() {
    let mut block = If { clauses: vec![clause("False"), clause("")] };
    let evaluated = run(&mut block, vec![ClauseOutcome::Value(Value::Boolean(false))]);
    assert_eq!(evaluated, vec![0]);
    assert_eq!(active(&block), vec![Some(false), Some(true)]);
}

#[test]
fn first_truthy_clause_is_the_only_active_one() {
    let mut block = If { clauses: vec![clause("a"), clause("b"), clause("c"), clause("  ")] };
    let evaluated = run(
        &mut block,
        vec![ClauseOutcome::Value(Value::Integer(0)), ClauseOutcome::Value(Value::Integer(3))],
    );
    // the clauses after the active one are not evaluated
    assert_eq!(evaluated, vec![0, 1]);
    assert_eq!(active(&block), vec![Some(false), Some(true), Some(false), Some(false)]);
}

#[test]
fn error_leaves_the_clause_unknown_and_the_next_is_tried() {
    let mut block = If { clauses: vec![clause("1/0"), clause("True"), clause("")] };
    let errors = vec![ExecutionError::new(String::from("division by zero"))];
    let evaluated = run(
        &mut block,
        vec![ClauseOutcome::Errors(errors.clone()), ClauseOutcome::Value(Value::Boolean(true))],
    );
    assert_eq!(evaluated, vec![0, 1]);
    assert_eq!(active(&block), vec![None, Some(true), Some(false)]);
    assert_eq!(block.clauses[0].errors, Some(errors));
    assert_eq!(block.clauses[1].errors, None);
}

#[test]
fn no_clause_is_active_when_none_holds() {
    let mut block = If { clauses: vec![clause("a"), clause("b")] };
    let evaluated = run(
        &mut block,
        vec![ClauseOutcome::Value(Value::Null), ClauseOutcome::Value(Value::String(String::new()))],
    );
    assert_eq!(evaluated, vec![0, 1]);
    assert_eq!(active(&block), vec![Some(false), Some(false)]);
    let mut empty = If { clauses: vec![] };
    assert!(run(&mut empty, vec![]).is_empty());
}

#[test]
fn blank_clause_that_is_not_last_is_evaluated() {
    let mut block = If { clauses: vec![clause(""), clause("x")] };
    let evaluated = run(
        &mut block,
        vec![ClauseOutcome::Errors(vec![]), ClauseOutcome::Value(Value::Array(1))],
    );
    assert_eq!(evaluated, vec![0, 1]);
    assert_eq!(active(&block), vec![None, Some(true)]);
}

#[test]
fn outcome_is_the_one_output_or_an_error() {
    assert_eq!(
        clause_outcome(vec![], vec![Value::Integer(1)]),
        ClauseOutcome::Value(Value::Integer(1))
    );
    let messages = vec![ExecutionError::new(String::from("boom"))];
    assert_eq!(
        clause_outcome(messages.clone(), vec![Value::Integer(1)]),
        ClauseOutcome::Errors(messages)
    );
    assert_eq!(
        clause_outcome(vec![], vec![]),
        ClauseOutcome::Errors(vec![ExecutionError::new(String::from(
            "Expected one output from expression, got 0 outputs"
        ))])
    );
    let many = (0..12).map(Value::Integer).collect();
    assert_eq!(
        clause_outcome(vec![], many),
        ClauseOutcome::Errors(vec![ExecutionError::new(String::from(
            "Expected one output from expression, got 12 outputs"
        ))])
    );
}

#[test]
fn blank_text_and_decimal_digits() {
    assert!(is_blank(""));
    assert!(is_blank(" \t\n\u{a0}\u{3000}"));
    assert!(!is_blank("  x "));
    for c in ['\u{0}', ' ', '\t', '\n', '\r', 'a', '\u{85}', '\u{a0}', '\u{1680}', '\u{2000}', '\u{200a}', '\u{200b}', '\u{2028}', '\u{202f}', '\u{205f}', '\u{3000}', '\u{feff}'] {
        assert_eq!(is_white_space(c), c.is_whitespace());
    }
    for n in [0usize, 7, 10, 99, 100, 12345, usize::MAX] {
        assert_eq!(to_decimal(n), n.to_string());
    }
}

#[test]
fn language_is_guessed_where_it_is_asked_for_or_not_known() {
    let mut block = If { clauses: vec![clause("a"), clause("b"), clause("c"), clause("d")] };
    block.clauses[1].programming_language = String::new();
    block.clauses[2].programming_language = String::from("Unknown");
    block.clauses[3].guess_language = Some(true);
    assert!(!block.clauses[0].needs_language());
    assert_eq!(block.next_to_guess(0), Some(1));
    block.set_language(1, String::from("r"));
    assert_eq!(block.clauses[1].programming_language, "r");
    assert_eq!(block.next_to_guess(1), Some(2));
    assert_eq!(block.next_to_guess(3), Some(3));
    assert_eq!(block.next_to_guess(4), None);
    block.clauses[3].guess_language = Some(false);
    assert_eq!(block.next_to_guess(3), None);
}

#[test]
fn whole_block_is_executed_from_the_outcomes_of_its_clauses() {
    // a clause that proves false, then the else
    let mut block = If { clauses: vec![clause("False"), clause("")] };
    block.execute_begin(vec![ClauseOutcome::Value(Value::Boolean(false))]);
    assert_eq!(active(&block), vec![Some(false), Some(true)]);
    assert_eq!(block.clauses[0].errors, None);

    // the integer 0 does not hold
    let mut block = If { clauses: vec![clause("0"), clause("")] };
    block.execute_begin(vec![ClauseOutcome::Value(Value::Integer(0))]);
    assert_eq!(active(&block), vec![Some(false), Some(true)]);

    // an outcome for the else is not taken
    let mut block = If { clauses: vec![clause("0"), clause("")] };
    block.execute_begin(vec![
        ClauseOutcome::Value(Value::Integer(0)),
        ClauseOutcome::Value(Value::Boolean(false)),
    ]);
    assert_eq!(active(&block), vec![Some(false), Some(true)]);

    // after an error the next clause is evaluated
    let wrong = clause_outcome(vec![], vec![]);
    let mut block = If { clauses: vec![clause("x"), clause("y"), clause("z"), clause("")] };
    block.clauses[3].is_active = Some(true);
    block.execute_begin(vec![wrong.clone(), ClauseOutcome::Value(Value::Integer(7))]);
    assert_eq!(active(&block), vec![None, Some(true), Some(false), Some(false)]);
    assert_eq!(
        block.clauses[0].errors,
        Some(vec![ExecutionError::new(String::from("Expected one output from expression, got 0 outputs"))])
    );
    assert_eq!(block.clauses[1].errors, None);
    assert_eq!(block.clauses[2].code, "z");
    assert_eq!(block.clauses[2].programming_language, "py");

    // where the outcomes run out the clauses from there on stay
    let mut block = If { clauses: vec![clause("a"), clause("b"), clause("c")] };
    block.execute_begin(vec![ClauseOutcome::Value(Value::Null)]);
    assert_eq!(active(&block), vec![Some(false), None, None]);

    // a block without clauses
    let mut block = If { clauses: vec![] };
    block.execute_begin(vec![]);
    assert!(block.clauses.is_empty());
}

#[test]
fn clause_to_evaluate_is_given_and_nothing_is_changed() {
    let mut block = If { clauses: vec![clause("True"), clause("")] };
    let before = block.clone();
    let mut run = block.begin();
    // the first clause is to be evaluated
    assert_eq!(block.next_clause(&mut run), Some(0));
    assert_eq!(block, before);
    assert_eq!((run.index, run.activated), (0, false));
    // asked again, the answer is the same
    assert_eq!(block.next_clause(&mut run), Some(0));
    block.record(&mut run, ClauseOutcome::Value(Value::Boolean(true)));
    assert_eq!(block.next_clause(&mut run), None);
    assert_eq!(active(&block), vec![Some(true), Some(false)]);
    assert_eq!(block.clauses[1].errors, None);
    assert_eq!(block.clauses[1].guess_language, None);
}
