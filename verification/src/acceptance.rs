//! The functions that are accepted are the well-typed ones, and the table
//! that the analysis of one leaves is known.

use vstd::prelude::*;
use crate::ast::{ExpressionView, FunctionView, Type};
use crate::bindings::{lemma_bind_all_concat, lemma_bind_all_domain, lemma_bind_all_keeps, lemma_bind_all_last_wins};
use crate::error::ErrorView;
use crate::linear::{
    block_steps,
    declarations,
    lemma_block_is_linear,
    lemma_single_step,
    lemma_steps_outcome_last,
    step_outcome,
    steps_outcome,
    Step,
};
use crate::rules::{analysis, bind_all, binds, expression_type};
use crate::typing::{
    all_fresh,
    scope_at,
    static_type,
    step_allowed,
    step_allowed_at,
    well_typed,
    well_typed_function,
    well_typed_steps,
};

verus! {

/// An expression is given a type exactly if it is well typed, and the type
/// it is given is its static type.
pub proof fn theorem_typed_iff_well_typed(table: Map<Seq<char>, Type>, expression: ExpressionView)
    ensures
        expression_type(table, expression) is Ok <==> well_typed(table, expression),
        well_typed(table, expression) ==> expression_type(table, expression) == Ok::<Type, ErrorView>(
            static_type(table, expression),
        ),
    decreases expression,
{
    match expression {
        ExpressionView::BinaryOp { op: _, left, right } => {
            theorem_typed_iff_well_typed(table, *left);
            theorem_typed_iff_well_typed(table, *right);
        },
        ExpressionView::Assignment { name: _, value } => {
            theorem_typed_iff_well_typed(table, *value);
        },
        _ => {},
    }
}

/// A step is accepted exactly if it is allowed, and it then adds its
/// bindings to the table and changes nothing else.
pub proof fn lemma_step_accepted_iff_allowed(table: Map<Seq<char>, Type>, step: Step)
    ensures
        step_outcome(table, step).error is None <==> step_allowed(table, step),
        step_allowed(table, step) ==> step_outcome(table, step).table == bind_all(table, step.bindings()),
        step_outcome(table, step).error is Some ==> step_outcome(table, step).table == table,
{
    theorem_typed_iff_well_typed(table, step.expression());
    let added = step.bindings();
    if added.len() == 1 {
        assert(bind_all(table, added.drop_last()) == table);
    }
}

/// What holds of a step in a sequence holds of it in any longer sequence
/// that begins alike: the bindings in force at it are the same.
pub proof fn lemma_step_allowed_at_prefix(table: Map<Seq<char>, Type>, steps: Seq<Step>, n: int, k: int)
    requires
        0 <= k < n <= steps.len(),
    ensures
        scope_at(table, steps.take(n), k) == scope_at(table, steps, k),
        step_allowed_at(table, steps.take(n), k) == step_allowed_at(table, steps, k),
{
    assert(steps.take(n).take(k) == steps.take(k));
}

/// `steps` are well typed exactly if all but the last are, and the last
/// is allowed under the bindings that they leave.
pub proof fn lemma_well_typed_steps_last(table: Map<Seq<char>, Type>, steps: Seq<Step>)
    requires
        steps.len() > 0,
    ensures
        well_typed_steps(table, steps) <==> well_typed_steps(table, steps.drop_last()) && step_allowed(
            bind_all(table, declarations(steps.drop_last())),
            steps.last(),
        ),
{
    let n = steps.len() - 1;
    let front = steps.drop_last();
    if well_typed_steps(table, steps) {
        assert forall|k: int| 0 <= k < front.len() implies #[trigger] step_allowed_at(table, front, k) by {
            lemma_step_allowed_at_prefix(table, steps, n, k);
        }
    }
    if well_typed_steps(table, front) && step_allowed_at(table, steps, n) {
        assert forall|k: int| 0 <= k < steps.len() implies #[trigger] step_allowed_at(table, steps, k) by {
            if k < n {
                lemma_step_allowed_at_prefix(table, steps, n, k);
            }
        }
    }
}

/// A sequence of steps is accepted exactly if it is well typed, and the
/// table it then leaves is the one it began under with the declarations
/// of the steps added in order.
pub proof fn theorem_steps_accepted_iff_well_typed(table: Map<Seq<char>, Type>, steps: Seq<Step>)
    ensures
        steps_outcome(table, steps).error is None <==> well_typed_steps(table, steps),
        well_typed_steps(table, steps) ==> steps_outcome(table, steps).table == bind_all(
            table,
            declarations(steps),
        ),
    decreases steps.len(),
{
    if steps.len() > 0 {
        let front = steps.drop_last();
        let last = steps.last();
        let reached = steps_outcome(table, front);
        theorem_steps_accepted_iff_well_typed(table, front);
        lemma_steps_outcome_last(table, steps);
        lemma_well_typed_steps_last(table, steps);
        if reached.error is None {
            lemma_single_step(reached.table, last);
            lemma_step_accepted_iff_allowed(reached.table, last);
            lemma_bind_all_concat(table, declarations(front), last.bindings());
        }
    }
}

/// A function is accepted exactly if it is well typed, and the symbol
/// table then holds the bindings it began with, the parameters, and every
/// declaration of the body, added in the order of the text.
pub proof fn theorem_accepted_iff_well_typed(table: Map<Seq<char>, Type>, function: FunctionView)
    ensures
        analysis(table, function).error is None <==> well_typed_function(table, function),
        well_typed_function(table, function) ==> analysis(table, function).table == bind_all(
            table,
            function.params + declarations(block_steps(function.body)),
        ),
{
    let bound = bind_all(table, function.params);
    let steps = block_steps(function.body);
    lemma_block_is_linear(bound, function.body);
    theorem_steps_accepted_iff_well_typed(bound, steps);
    lemma_bind_all_concat(table, function.params, declarations(steps));
}

/// Well-typed steps declare no name twice, and none that was bound before
/// them.
pub proof fn theorem_declarations_fresh(table: Map<Seq<char>, Type>, steps: Seq<Step>)
    requires
        well_typed_steps(table, steps),
    ensures
        all_fresh(table, declarations(steps)),
    decreases steps.len(),
{
    let declared = declarations(steps);
    if steps.len() > 0 {
        let front = steps.drop_last();
        let before = declarations(front);
        lemma_well_typed_steps_last(table, steps);
        theorem_declarations_fresh(table, front);
        assert forall|j: int| 0 <= j < declared.len() implies {
            &&& !table.contains_key((#[trigger] declared[j]).name)
            &&& !binds(declared.take(j), declared[j].name)
        } by {
            if j < before.len() {
                assert(declared.take(j) == before.take(j));
            } else {
                lemma_bind_all_domain(table, before, declared[j].name);
            }
        }
    }
}

/// A function that is accepted declares no name twice, and none that a
/// parameter has or that was bound when the analysis began.
pub proof fn theorem_accepted_declares_once(table: Map<Seq<char>, Type>, function: FunctionView)
    requires
        analysis(table, function).error is None,
    ensures
        all_fresh(bind_all(table, function.params), declarations(block_steps(function.body))),
{
    theorem_accepted_iff_well_typed(table, function);
    theorem_declarations_fresh(bind_all(table, function.params), block_steps(function.body));
}

/// The table that an accepted function leaves.
///
/// It binds the names that were bound at the start, the parameters' names
/// and the declared names, and no other. A declared name is bound to its
/// declared type. A parameter's name is bound to that parameter's type,
/// unless a later parameter has the same name. Any other name is bound as
/// it was at the start.
pub proof fn theorem_accepted_table(table: Map<Seq<char>, Type>, function: FunctionView)
    requires
        analysis(table, function).error is None,
    ensures
        forall|name: Seq<char>| #[trigger]
            analysis(table, function).table.contains_key(name) <==> {
                ||| table.contains_key(name)
                ||| binds(function.params, name)
                ||| binds(declarations(block_steps(function.body)), name)
            },
        forall|j: int|
            0 <= j < declarations(block_steps(function.body)).len() ==> {
                let declared = #[trigger] declarations(block_steps(function.body))[j];
                analysis(table, function).table[declared.name] == declared.declared_type
            },
        forall|i: int|
            0 <= i < function.params.len() && (forall|later: int|
                i < later < function.params.len() ==> (#[trigger] function.params[later]).name
                    != function.params[i].name) ==> {
                let param = #[trigger] function.params[i];
                analysis(table, function).table[param.name] == param.declared_type
            },
        forall|name: Seq<char>|
            table.contains_key(name) && !binds(function.params, name) ==> #[trigger] analysis(
                table,
                function,
            ).table[name] == table[name],
{
    let params = function.params;
    let bound = bind_all(table, params);
    let declared = declarations(block_steps(function.body));
    let end = analysis(table, function).table;
    theorem_accepted_iff_well_typed(table, function);
    theorem_declarations_fresh(bound, block_steps(function.body));
    lemma_bind_all_concat(table, params, declared);
    assert forall|name: Seq<char>| #[trigger]
        end.contains_key(name) <==> {
            ||| table.contains_key(name)
            ||| binds(params, name)
            ||| binds(declared, name)
        } by {
        lemma_bind_all_domain(table, params, name);
        lemma_bind_all_domain(bound, declared, name);
    }
    assert forall|j: int| 0 <= j < declared.len() implies end[(#[trigger] declared[j]).name]
        == declared[j].declared_type by {
        assert forall|later: int| j < later < declared.len() implies (#[trigger] declared[later]).name
            != declared[j].name by {
            assert(declared.take(later)[j] == declared[j]);
        }
        lemma_bind_all_last_wins(bound, declared, j);
    }
    assert forall|name: Seq<char>| bound.contains_key(name) implies !binds(declared, name) by {
        if binds(declared, name) {
            let j = choose|j: int| 0 <= j < declared.len() && (#[trigger] declared[j]).name == name;
            assert(!bound.contains_key(declared[j].name));
        }
    }
    assert forall|i: int|
        0 <= i < params.len() && (forall|later: int|
            i < later < params.len() ==> (#[trigger] params[later]).name != params[i].name) implies end[(
    #[trigger] params[i]).name] == params[i].declared_type by {
        lemma_bind_all_last_wins(table, params, i);
        lemma_bind_all_domain(table, params, params[i].name);
        lemma_bind_all_keeps(bound, declared, params[i].name);
    }
    assert forall|name: Seq<char>| table.contains_key(name) && !binds(params, name) implies #[trigger] end[name]
        == table[name] by {
        lemma_bind_all_domain(table, params, name);
        lemma_bind_all_keeps(table, params, name);
        lemma_bind_all_keeps(bound, declared, name);
    }
}

/// The table that a well-typed function leaves in a new analyzer.
///
/// The function is accepted. The table binds the parameters' names and
/// the declared names, and no other. A declared name is bound to its
/// declared type, and a parameter's name to that parameter's type, unless
/// a later parameter has the same name.
pub proof fn theorem_fresh_analysis_table(function: FunctionView)
    requires
        well_typed_function(Map::empty(), function),
    ensures
        analysis(Map::empty(), function).error is None,
        forall|name: Seq<char>| #[trigger]
            analysis(Map::empty(), function).table.contains_key(name) <==> {
                ||| binds(function.params, name)
                ||| binds(declarations(block_steps(function.body)), name)
            },
        forall|j: int|
            0 <= j < declarations(block_steps(function.body)).len() ==> {
                let declared = #[trigger] declarations(block_steps(function.body))[j];
                analysis(Map::empty(), function).table[declared.name] == declared.declared_type
            },
        forall|i: int|
            0 <= i < function.params.len() && (forall|later: int|
                i < later < function.params.len() ==> (#[trigger] function.params[later]).name
                    != function.params[i].name) ==> {
                let param = #[trigger] function.params[i];
                analysis(Map::empty(), function).table[param.name] == param.declared_type
            },
{
    theorem_accepted_iff_well_typed(Map::empty(), function);
    theorem_accepted_table(Map::empty(), function);
}

/// Well-typed steps leave every binding that they began under as it was.
pub proof fn lemma_well_typed_steps_keep_bindings(table: Map<Seq<char>, Type>, steps: Seq<Step>)
    requires
        well_typed_steps(table, steps),
    ensures
        table.submap_of(bind_all(table, declarations(steps))),
{
    let declared = declarations(steps);
    theorem_declarations_fresh(table, steps);
    assert forall|name: Seq<char>| #[trigger] table.dom().contains(name) implies bind_all(
        table,
        declared,
    ).dom().contains(name) && table[name] == bind_all(table, declared)[name] by {
        if binds(declared, name) {
            let j = choose|j: int| 0 <= j < declared.len() && (#[trigger] declared[j]).name == name;
            assert(!table.contains_key(declared[j].name));
        }
        lemma_bind_all_domain(table, declared, name);
        lemma_bind_all_keeps(table, declared, name);
    }
}

} // verus!
