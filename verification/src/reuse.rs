//! What an analyzer does when it is used a second time.
//!
//! Nothing ever leaves the symbol table, so a second analysis begins under
//! the bindings that the first one left. Each function should get an
//! analyzer of its own.

use vstd::prelude::*;
use crate::acceptance::{
    theorem_accepted_declares_once,
    theorem_accepted_iff_well_typed,
    theorem_declarations_fresh,
    theorem_steps_accepted_iff_well_typed,
};
use crate::ast::{Binding, ExpressionView, FunctionView, Type};
use crate::bindings::{lemma_bind_all_concat, lemma_bind_all_domain, lemma_bind_all_keeps, lemma_bind_all_rebinds};
use crate::error::ErrorView;
use crate::linear::{
    block_steps,
    declarations,
    lemma_block_is_linear,
    lemma_declarations_first,
    lemma_steps_outcome_split,
    steps_outcome,
    Step,
};
use crate::rejection::theorem_first_violation;
use crate::rules::{accepted, analysis, bind_all, binds, expression_type, rejected};
use crate::typing::{all_fresh, comes_to, function_scope_at, step_allowed};

verus! {

/// An expression that is given a type keeps it when bindings are added
/// to the table.
pub proof fn theorem_typing_is_monotone(
    small: Map<Seq<char>, Type>,
    big: Map<Seq<char>, Type>,
    expression: ExpressionView,
)
    requires
        small.submap_of(big),
        expression_type(small, expression) is Ok,
    ensures
        expression_type(big, expression) == expression_type(small, expression),
    decreases expression,
{
    match expression {
        ExpressionView::BinaryOp { op: _, left, right } => {
            theorem_typing_is_monotone(small, big, *left);
            theorem_typing_is_monotone(small, big, *right);
        },
        ExpressionView::Assignment { name: _, value } => {
            theorem_typing_is_monotone(small, big, *value);
        },
        _ => {},
    }
}

/// Steps that were accepted under a table, walked again under a table
/// that holds those bindings and binds every name that the steps declare:
/// the walk stops at the first declaration, as a redeclaration; if there
/// is none, the steps are accepted again.
pub proof fn lemma_steps_walked_again(
    small: Map<Seq<char>, Type>,
    big: Map<Seq<char>, Type>,
    steps: Seq<Step>,
)
    requires
        small.submap_of(big),
        steps_outcome(small, steps).error is None,
        forall|j: int|
            0 <= j < declarations(steps).len() ==> big.contains_key((#[trigger] declarations(steps)[j]).name),
    ensures
        declarations(steps).len() == 0 ==> steps_outcome(big, steps) == accepted(big),
        declarations(steps).len() > 0 ==> steps_outcome(big, steps) == rejected(
            big,
            ErrorView::Redeclaration { name: declarations(steps)[0].name },
        ),
    decreases steps.len(),
{
    if steps.len() > 0 {
        let first = steps.first();
        let rest = steps.drop_first();
        lemma_declarations_first(steps);
        theorem_typing_is_monotone(small, big, first.expression());
        if first !is Declare {
            lemma_steps_walked_again(small, big, rest);
        }
    }
}

/// The table that a walk leaves, bound again with the parameters that it
/// began with, is as it was: the parameters are in it as they were bound,
/// and no declaration has rebound one of them.
pub proof fn lemma_parameters_bound_again(
    table: Map<Seq<char>, Type>,
    params: Seq<Binding>,
    declared: Seq<Binding>,
)
    requires
        all_fresh(bind_all(table, params), declared),
    ensures
        bind_all(bind_all(bind_all(table, params), declared), params) == bind_all(
            bind_all(table, params),
            declared,
        ),
        bind_all(table, params).submap_of(bind_all(bind_all(table, params), declared)),
        forall|j: int|
            0 <= j < declared.len() ==> bind_all(bind_all(table, params), declared).contains_key(
                (#[trigger] declared[j]).name,
            ),
{
    let bound = bind_all(table, params);
    let after = bind_all(bound, declared);
    let again = bind_all(after, params);
    assert forall|name: Seq<char>| bound.contains_key(name) implies !binds(declared, name) by {
        if binds(declared, name) {
            let j = choose|j: int| 0 <= j < declared.len() && (#[trigger] declared[j]).name == name;
            assert(!bound.contains_key(declared[j].name));
        }
    }
    assert forall|name: Seq<char>| bound.dom().contains(name) implies #[trigger] after.dom().contains(name)
        && bound[name] == after[name] by {
        lemma_bind_all_domain(bound, declared, name);
        lemma_bind_all_keeps(bound, declared, name);
    }
    assert forall|name: Seq<char>| #[trigger] again.dom().contains(name) == after.dom().contains(name) by {
        lemma_bind_all_domain(after, params, name);
        lemma_bind_all_domain(table, params, name);
    }
    assert forall|name: Seq<char>| after.dom().contains(name) implies #[trigger] again[name]
        == after[name] by {
        if binds(params, name) {
            lemma_bind_all_rebinds(after, table, params, name);
            lemma_bind_all_domain(table, params, name);
        } else {
            lemma_bind_all_keeps(after, params, name);
        }
    }
    assert(again =~= after);
    assert forall|j: int| 0 <= j < declared.len() implies after.contains_key((#[trigger] declared[j]).name) by {
        lemma_bind_all_domain(bound, declared, declared[j].name);
    }
}

/// An analyzer that has accepted a function does not accept it again.
///
/// The second analysis begins under the table that the first one left. If
/// the body declares anything, it is rejected for a redeclaration of the
/// first name that the body declares, and the table stays as it was; a
/// body that declares nothing is accepted again.
pub proof fn theorem_second_analysis(table: Map<Seq<char>, Type>, function: FunctionView)
    requires
        analysis(table, function).error is None,
    ensures
        declarations(block_steps(function.body)).len() > 0 ==> analysis(
            analysis(table, function).table,
            function,
        ) == rejected(
            analysis(table, function).table,
            ErrorView::Redeclaration { name: declarations(block_steps(function.body))[0].name },
        ),
        declarations(block_steps(function.body)).len() == 0 ==> analysis(
            analysis(table, function).table,
            function,
        ) == accepted(analysis(table, function).table),
{
    let steps = block_steps(function.body);
    let bound = bind_all(table, function.params);
    let after = analysis(table, function).table;
    theorem_accepted_iff_well_typed(table, function);
    theorem_accepted_declares_once(table, function);
    lemma_bind_all_concat(table, function.params, declarations(steps));
    lemma_parameters_bound_again(table, function.params, declarations(steps));
    lemma_block_is_linear(bound, function.body);
    lemma_block_is_linear(after, function.body);
    lemma_steps_walked_again(bound, after, steps);
}

/// An analyzer that has rejected a function rejects it again.
///
/// The second analysis begins under the table that the first one left. If
/// the first one had accepted a declaration before it stopped, the second
/// is rejected for a redeclaration of the first name that the body
/// declares; if not, the second ends as the first did. Either way the
/// table stays as the first analysis left it.
pub proof fn theorem_second_analysis_after_rejection(
    table: Map<Seq<char>, Type>,
    function: FunctionView,
    k: int,
)
    requires
        comes_to(table, function, k),
        !step_allowed(function_scope_at(table, function, k), block_steps(function.body)[k]),
    ensures
        analysis(table, function).table == function_scope_at(table, function, k),
        declarations(block_steps(function.body).take(k)).len() > 0 ==> analysis(
            analysis(table, function).table,
            function,
        ) == rejected(
            analysis(table, function).table,
            ErrorView::Redeclaration { name: declarations(block_steps(function.body).take(k))[0].name },
        ),
        declarations(block_steps(function.body).take(k)).len() == 0 ==> analysis(
            analysis(table, function).table,
            function,
        ) == analysis(table, function),
{
    let steps = block_steps(function.body);
    let walked = steps.take(k);
    let bound = bind_all(table, function.params);
    let after = function_scope_at(table, function, k);
    theorem_first_violation(table, function, k);
    theorem_declarations_fresh(bound, walked);
    theorem_steps_accepted_iff_well_typed(bound, walked);
    lemma_parameters_bound_again(table, function.params, declarations(walked));
    lemma_block_is_linear(bound, function.body);
    lemma_block_is_linear(after, function.body);
    lemma_steps_walked_again(bound, after, walked);
    lemma_steps_outcome_split(after, steps, k);
    lemma_steps_outcome_split(bound, steps, k);
}

} // verus!
