//! A function body read as one flat sequence of steps.
//!
//! A block opens no scope, so the nesting of `if` blocks has no part in
//! what the walk decides: it goes through the conditions, declarations and
//! expression statements of the body exactly as they follow one another in
//! the text. This module names that sequence and proves that walking it
//! step by step ends where the walk of the tree ends.

use vstd::prelude::*;
use crate::ast::{Binding, ExpressionView, StatementView, Type};
use crate::error::ConditionSite;
use crate::rules::{
    accepted,
    block_outcome,
    condition_error,
    declaration_outcome,
    expression_type,
    rejected,
    statement_outcome,
    Outcome,
};

verus! {

/// One thing the walk does: each types exactly one expression.
pub enum Step {
    /// A declaration: types the initializer, then binds the name.
    Declare { declared_type: Type, name: Seq<char>, initializer: ExpressionView },
    /// The condition of an `if` or of an `assert`.
    Check { site: ConditionSite, condition: ExpressionView },
    /// An expression statement.
    Evaluate { expression: ExpressionView },
}

impl Step {
    /// The expression that the step types.
    pub open spec fn expression(self) -> ExpressionView {
        match self {
            Step::Declare { initializer, .. } => initializer,
            Step::Check { condition, .. } => condition,
            Step::Evaluate { expression } => expression,
        }
    }

    /// The binding that the step adds when it is accepted: one for a
    /// declaration, none for any other step.
    pub open spec fn bindings(self) -> Seq<Binding> {
        match self {
            Step::Declare { declared_type, name, .. } => seq![Binding { declared_type, name }],
            _ => Seq::empty(),
        }
    }
}

/// The steps of one statement, in the order of the text.
pub open spec fn statement_steps(statement: StatementView) -> Seq<Step>
    decreases statement,
{
    match statement {
        StatementView::Declaration { declared_type, name, initializer } => {
            seq![Step::Declare { declared_type, name, initializer }]
        },
        StatementView::If { condition, if_block } => {
            seq![Step::Check { site: ConditionSite::If, condition }] + block_steps(if_block)
        },
        StatementView::Expression(expression) => seq![Step::Evaluate { expression }],
        StatementView::Assert { condition } => seq![Step::Check { site: ConditionSite::Assert, condition }],
    }
}

/// The steps of a run of statements, in the order of the text.
pub open spec fn block_steps(statements: Seq<StatementView>) -> Seq<Step>
    decreases statements,
{
    if statements.len() == 0 {
        Seq::empty()
    } else {
        statement_steps(statements.first()) + block_steps(statements.drop_first())
    }
}

/// Where one step ends, begun under `table`.
pub open spec fn step_outcome(table: Map<Seq<char>, Type>, step: Step) -> Outcome {
    match step {
        Step::Declare { declared_type, name, initializer } => {
            declaration_outcome(table, declared_type, name, initializer)
        },
        Step::Check { site, condition } => match condition_error(table, site, condition) {
            Some(error) => rejected(table, error),
            None => accepted(table),
        },
        Step::Evaluate { expression } => match expression_type(table, expression) {
            Err(error) => rejected(table, error),
            Ok(_) => accepted(table),
        },
    }
}

/// Where a sequence of steps ends, begun under `table`: each step is made
/// under the table that the one before it left, up to the first rejection.
pub open spec fn steps_outcome(table: Map<Seq<char>, Type>, steps: Seq<Step>) -> Outcome
    decreases steps.len(),
{
    if steps.len() == 0 {
        accepted(table)
    } else {
        let first = step_outcome(table, steps.first());
        if first.error is Some {
            first
        } else {
            steps_outcome(first.table, steps.drop_first())
        }
    }
}

/// Goes on from `outcome` with `steps`, unless `outcome` is a rejection.
pub open spec fn continue_with(outcome: Outcome, steps: Seq<Step>) -> Outcome {
    if outcome.error is Some {
        outcome
    } else {
        steps_outcome(outcome.table, steps)
    }
}

/// The bindings that `steps` declare, in the order of the text.
pub open spec fn declarations(steps: Seq<Step>) -> Seq<Binding>
    decreases steps.len(),
{
    if steps.len() == 0 {
        Seq::empty()
    } else {
        declarations(steps.drop_last()) + steps.last().bindings()
    }
}

/// Walking a single step is making that step.
pub proof fn lemma_single_step(table: Map<Seq<char>, Type>, step: Step)
    ensures
        steps_outcome(table, seq![step]) == step_outcome(table, step),
{
    let made = step_outcome(table, step);
    assert(steps_outcome(made.table, seq![step].drop_first()) == accepted(made.table));
}

/// Walking `first + rest` is walking `first` and going on with `rest`.
pub proof fn lemma_steps_outcome_concat(table: Map<Seq<char>, Type>, first: Seq<Step>, rest: Seq<Step>)
    ensures
        steps_outcome(table, first + rest) == continue_with(steps_outcome(table, first), rest),
    decreases first.len(),
{
    if first.len() > 0 {
        let head = step_outcome(table, first.first());
        assert((first + rest).drop_first() == first.drop_first() + rest);
        if head.error is None {
            lemma_steps_outcome_concat(head.table, first.drop_first(), rest);
        }
    }
}

/// Walking `steps` is walking its first `k` steps and going on with the
/// others.
pub proof fn lemma_steps_outcome_split(table: Map<Seq<char>, Type>, steps: Seq<Step>, k: int)
    requires
        0 <= k <= steps.len(),
    ensures
        steps_outcome(table, steps) == continue_with(steps_outcome(table, steps.take(k)), steps.skip(k)),
{
    assert(steps.take(k) + steps.skip(k) == steps);
    lemma_steps_outcome_concat(table, steps.take(k), steps.skip(k));
}

/// The walk of a statement ends where the walk of its steps ends.
pub proof fn lemma_statement_is_linear(table: Map<Seq<char>, Type>, statement: StatementView)
    ensures
        statement_outcome(table, statement) == steps_outcome(table, statement_steps(statement)),
    decreases statement,
{
    let steps = statement_steps(statement);
    match statement {
        StatementView::If { condition, if_block } => {
            let check = seq![Step::Check { site: ConditionSite::If, condition }];
            lemma_block_is_linear(table, if_block);
            lemma_steps_outcome_concat(table, check, block_steps(if_block));
            lemma_single_step(table, check.first());
        },
        _ => {
            lemma_single_step(table, steps.first());
        },
    }
}

/// The walk of a run of statements ends where the walk of its steps ends:
/// the nesting of blocks decides nothing.
pub proof fn lemma_block_is_linear(table: Map<Seq<char>, Type>, statements: Seq<StatementView>)
    ensures
        block_outcome(table, statements) == steps_outcome(table, block_steps(statements)),
    decreases statements,
{
    if statements.len() > 0 {
        let first = statement_outcome(table, statements.first());
        lemma_statement_is_linear(table, statements.first());
        lemma_steps_outcome_concat(
            table,
            statement_steps(statements.first()),
            block_steps(statements.drop_first()),
        );
        if first.error is None {
            lemma_block_is_linear(first.table, statements.drop_first());
        }
    }
}

/// Walking `steps` is walking all but the last, then making the last.
pub proof fn lemma_steps_outcome_last(table: Map<Seq<char>, Type>, steps: Seq<Step>)
    requires
        steps.len() > 0,
    ensures
        steps_outcome(table, steps) == continue_with(
            steps_outcome(table, steps.drop_last()),
            seq![steps.last()],
        ),
{
    let n = steps.len() - 1;
    lemma_steps_outcome_split(table, steps, n);
    assert(steps.skip(n) == seq![steps.last()]);
}

/// A step whose expression is rejected is rejected for the same rule: the
/// expression of a step is typed before anything else is asked of it.
pub proof fn lemma_step_rejected_with_expression(table: Map<Seq<char>, Type>, step: Step)
    requires
        expression_type(table, step.expression()) is Err,
    ensures
        step_outcome(table, step) == rejected(table, expression_type(table, step.expression())->Err_0),
{
}

/// The declarations of `first + rest` are those of `first`, then those of
/// `rest`.
pub proof fn lemma_declarations_concat(first: Seq<Step>, rest: Seq<Step>)
    ensures
        declarations(first + rest) == declarations(first) + declarations(rest),
    decreases rest.len(),
{
    if rest.len() > 0 {
        assert((first + rest).drop_last() == first + rest.drop_last());
        lemma_declarations_concat(first, rest.drop_last());
    }
}

/// The declarations of `steps` are that of the first step, if it is one,
/// then those of the others.
pub proof fn lemma_declarations_first(steps: Seq<Step>)
    requires
        steps.len() > 0,
    ensures
        declarations(steps) == steps.first().bindings() + declarations(steps.drop_first()),
{
    let head = seq![steps.first()];
    assert(head + steps.drop_first() == steps);
    lemma_declarations_concat(head, steps.drop_first());
    assert(declarations(head.drop_last()) + head.last().bindings() == steps.first().bindings());
}

} // verus!
