//! A function that is rejected is rejected for the first rule that the
//! walk finds broken, and each kind of error is reported exactly where the
//! walk comes to what it names.

use vstd::prelude::*;
use crate::acceptance::{
    lemma_step_accepted_iff_allowed,
    lemma_well_typed_steps_keep_bindings,
    lemma_well_typed_steps_last,
    theorem_accepted_iff_well_typed,
    theorem_steps_accepted_iff_well_typed,
};
use crate::ast::{ExpressionView, FunctionView, StatementView, Type};
use crate::bindings::{lemma_bind_all_concat, lemma_bind_all_domain};
use crate::error::{ConditionSite, ErrorView, Usage};
use crate::linear::{
    block_steps,
    declarations,
    lemma_block_is_linear,
    lemma_step_rejected_with_expression,
    lemma_steps_outcome_last,
    lemma_steps_outcome_split,
    step_outcome,
    steps_outcome,
    Step,
};
use crate::rules::{accepted, analysis, bind_all, block_outcome, expression_type, rejected, statement_outcome};
use crate::typing::{
    comes_to,
    function_scope_at,
    mentions,
    reaches,
    scope_at,
    step_allowed,
    step_allowed_at,
    unbound_use,
    well_typed_steps,
};

verus! {

/// The first broken rule that the walk of an expression comes to is the
/// one that is reported for the whole expression.
pub proof fn theorem_first_error_in_expression(
    table: Map<Seq<char>, Type>,
    expression: ExpressionView,
    part: ExpressionView,
)
    requires
        reaches(table, expression, part),
        expression_type(table, part) is Err,
    ensures
        expression_type(table, expression) == expression_type(table, part),
    decreases expression,
{
    if expression != part {
        match expression {
            ExpressionView::BinaryOp { op: _, left, right } => {
                if reaches(table, *left, part) {
                    theorem_first_error_in_expression(table, *left, part);
                } else {
                    theorem_first_error_in_expression(table, *right, part);
                }
            },
            ExpressionView::Assignment { name: _, value } => {
                theorem_first_error_in_expression(table, *value, part);
            },
            _ => {},
        }
    }
}

/// Where the walk of an expression comes to a use of a name that is not
/// bound, the expression is rejected for that use of that name.
pub proof fn theorem_unbound_use_in_expression(
    table: Map<Seq<char>, Type>,
    expression: ExpressionView,
    part: ExpressionView,
    name: Seq<char>,
    usage: Usage,
)
    requires
        reaches(table, expression, part),
        unbound_use(table, part, name, usage),
    ensures
        expression_type(table, expression) == Err::<Type, ErrorView>(
            ErrorView::UndeclaredVariable { name, usage },
        ),
{
    theorem_first_error_in_expression(table, expression, part);
}

/// An expression that is rejected for an undeclared variable holds a use
/// of that name, of the kind reported, which the walk comes to and under
/// which the name is not bound. The use is returned.
pub proof fn theorem_undeclared_names_unbound_use(
    table: Map<Seq<char>, Type>,
    expression: ExpressionView,
    name: Seq<char>,
    usage: Usage,
) -> (part: ExpressionView)
    requires
        expression_type(table, expression) == Err::<Type, ErrorView>(
            ErrorView::UndeclaredVariable { name, usage },
        ),
    ensures
        reaches(table, expression, part),
        unbound_use(table, part, name, usage),
        mentions(expression, name),
    decreases expression,
{
    match expression {
        ExpressionView::BinaryOp { op: _, left, right } => {
            if expression_type(table, *left) is Err {
                theorem_undeclared_names_unbound_use(table, *left, name, usage)
            } else {
                theorem_undeclared_names_unbound_use(table, *right, name, usage)
            }
        },
        ExpressionView::Assignment { name: target, value } => {
            if !table.contains_key(target) {
                expression
            } else {
                theorem_undeclared_names_unbound_use(table, *value, name, usage)
            }
        },
        _ => expression,
    }
}

/// An expression that is given a type uses bound names only: one that
/// uses a name that is not bound is rejected.
pub proof fn theorem_typed_expression_is_closed(
    table: Map<Seq<char>, Type>,
    expression: ExpressionView,
    name: Seq<char>,
)
    requires
        mentions(expression, name),
        !table.contains_key(name),
    ensures
        expression_type(table, expression) is Err,
    decreases expression,
{
    match expression {
        ExpressionView::BinaryOp { op: _, left, right } => {
            if mentions(*left, name) {
                theorem_typed_expression_is_closed(table, *left, name);
            } else {
                theorem_typed_expression_is_closed(table, *right, name);
            }
        },
        ExpressionView::Assignment { name: target, value } => {
            if target != name {
                theorem_typed_expression_is_closed(table, *value, name);
            }
        },
        _ => {},
    }
}

/// The first step that is not allowed ends the walk: the walk of `steps`
/// ends where that step ends, made under the bindings in force at it.
pub proof fn theorem_first_violation_in_steps(table: Map<Seq<char>, Type>, steps: Seq<Step>, k: int)
    requires
        0 <= k < steps.len(),
        well_typed_steps(table, steps.take(k)),
        !step_allowed(scope_at(table, steps, k), steps[k]),
    ensures
        steps_outcome(table, steps) == step_outcome(scope_at(table, steps, k), steps[k]),
        steps_outcome(table, steps).error is Some,
        steps_outcome(table, steps).table == scope_at(table, steps, k),
{
    let scope = scope_at(table, steps, k);
    lemma_steps_outcome_split(table, steps, k);
    theorem_steps_accepted_iff_well_typed(table, steps.take(k));
    lemma_step_accepted_iff_allowed(scope, steps[k]);
}

/// A walk that is rejected has a first step that is not allowed: every
/// step before it is, and the walk ends where that step ends. Its index
/// is returned.
pub proof fn theorem_rejection_has_first_violation(table: Map<Seq<char>, Type>, steps: Seq<Step>) -> (k: int)
    requires
        steps_outcome(table, steps).error is Some,
    ensures
        0 <= k < steps.len(),
        well_typed_steps(table, steps.take(k)),
        !step_allowed(scope_at(table, steps, k), steps[k]),
        steps_outcome(table, steps) == step_outcome(scope_at(table, steps, k), steps[k]),
    decreases steps.len(),
{
    let front = steps.drop_last();
    lemma_steps_outcome_last(table, steps);
    if steps_outcome(table, front).error is Some {
        let k = theorem_rejection_has_first_violation(table, front);
        assert(front.take(k) == steps.take(k));
        k
    } else {
        let k = steps.len() - 1;
        theorem_steps_accepted_iff_well_typed(table, front);
        theorem_steps_accepted_iff_well_typed(table, steps);
        lemma_well_typed_steps_last(table, steps);
        theorem_first_violation_in_steps(table, steps, k);
        k
    }
}

/// The first step of a function's body that is not allowed ends the
/// analysis: it ends where that step ends, made under the bindings in
/// force at it.
pub proof fn theorem_first_violation(table: Map<Seq<char>, Type>, function: FunctionView, k: int)
    requires
        comes_to(table, function, k),
        !step_allowed(function_scope_at(table, function, k), block_steps(function.body)[k]),
    ensures
        analysis(table, function) == step_outcome(
            function_scope_at(table, function, k),
            block_steps(function.body)[k],
        ),
        analysis(table, function).error is Some,
        analysis(table, function).table == function_scope_at(table, function, k),
{
    let bound = bind_all(table, function.params);
    lemma_block_is_linear(bound, function.body);
    theorem_first_violation_in_steps(bound, block_steps(function.body), k);
}

/// A function that is rejected has a first step that is not allowed: the
/// walk comes to it, and the analysis ends where that step ends. Its
/// index is returned.
pub proof fn theorem_rejected_at_first_violation(table: Map<Seq<char>, Type>, function: FunctionView) -> (k:
    int)
    requires
        analysis(table, function).error is Some,
    ensures
        comes_to(table, function, k),
        !step_allowed(function_scope_at(table, function, k), block_steps(function.body)[k]),
        analysis(table, function) == step_outcome(
            function_scope_at(table, function, k),
            block_steps(function.body)[k],
        ),
{
    let bound = bind_all(table, function.params);
    lemma_block_is_linear(bound, function.body);
    theorem_rejection_has_first_violation(bound, block_steps(function.body))
}

/// A use of a name that is bound neither in the table the analysis began
/// with, nor by a parameter, nor by a declaration before it in the text
/// is reported as an undeclared variable of that name, wherever the walk
/// comes to it.
pub proof fn theorem_unbound_use_reported(
    table: Map<Seq<char>, Type>,
    function: FunctionView,
    k: int,
    part: ExpressionView,
    name: Seq<char>,
    usage: Usage,
)
    requires
        comes_to(table, function, k),
        reaches(function_scope_at(table, function, k), block_steps(function.body)[k].expression(), part),
        unbound_use(function_scope_at(table, function, k), part, name, usage),
    ensures
        analysis(table, function) == rejected(
            function_scope_at(table, function, k),
            ErrorView::UndeclaredVariable { name, usage },
        ),
{
    let scope = function_scope_at(table, function, k);
    let step = block_steps(function.body)[k];
    theorem_unbound_use_in_expression(scope, step.expression(), part, name, usage);
    lemma_step_rejected_with_expression(scope, step);
    lemma_step_accepted_iff_allowed(scope, step);
    theorem_first_violation(table, function, k);
}

/// A function that is accepted uses bound names only: whatever name a
/// step of its body uses is bound in the table the analysis began with,
/// by a parameter, or by a declaration before that step in the text. So a
/// function that uses a name where it is not bound is rejected.
pub proof fn theorem_accepted_uses_bound_names(
    table: Map<Seq<char>, Type>,
    function: FunctionView,
    k: int,
    name: Seq<char>,
)
    requires
        analysis(table, function).error is None,
        0 <= k < block_steps(function.body).len(),
        mentions(block_steps(function.body)[k].expression(), name),
    ensures
        function_scope_at(table, function, k).contains_key(name),
{
    let scope = function_scope_at(table, function, k);
    let step = block_steps(function.body)[k];
    theorem_accepted_iff_well_typed(table, function);
    assert(step_allowed_at(bind_all(table, function.params), block_steps(function.body), k));
    lemma_step_accepted_iff_allowed(scope, step);
    if !scope.contains_key(name) {
        theorem_typed_expression_is_closed(scope, step.expression(), name);
        lemma_step_rejected_with_expression(scope, step);
    }
}

/// A function that is rejected for an undeclared variable uses that name,
/// in the way reported, at a place that the walk comes to and where the
/// name is bound neither in the table the analysis began with, nor by a
/// parameter, nor by a declaration before it in the text. The step and
/// the use in it are returned.
pub proof fn theorem_undeclared_report_is_exact(
    table: Map<Seq<char>, Type>,
    function: FunctionView,
    name: Seq<char>,
    usage: Usage,
) -> (place: (int, ExpressionView))
    requires
        analysis(table, function).error == Some(ErrorView::UndeclaredVariable { name, usage }),
    ensures
        comes_to(table, function, place.0),
        reaches(
            function_scope_at(table, function, place.0),
            block_steps(function.body)[place.0].expression(),
            place.1,
        ),
        unbound_use(function_scope_at(table, function, place.0), place.1, name, usage),
{
    let k = theorem_rejected_at_first_violation(table, function);
    let scope = function_scope_at(table, function, k);
    let step = block_steps(function.body)[k];
    let part = theorem_undeclared_names_unbound_use(scope, step.expression(), name, usage);
    (k, part)
}

/// A declaration binds its name for every step after it.
pub proof fn lemma_declared_name_in_scope(table: Map<Seq<char>, Type>, steps: Seq<Step>, i: int, k: int)
    requires
        0 <= i < k <= steps.len(),
        steps[i] is Declare,
    ensures
        scope_at(table, steps, k).contains_key(steps[i]->Declare_name),
    decreases k,
{
    let name = steps[i]->Declare_name;
    let before = steps.take(k);
    let declared = declarations(before);
    assert(before.drop_last() == steps.take(k - 1));
    if i < k - 1 {
        lemma_declared_name_in_scope(table, steps, i, k - 1);
        lemma_bind_all_concat(table, declarations(steps.take(k - 1)), steps[k - 1].bindings());
        lemma_bind_all_domain(scope_at(table, steps, k - 1), steps[k - 1].bindings(), name);
    } else {
        assert(declared.last().name == name);
    }
    lemma_bind_all_domain(table, declared, name);
}

/// A declaration of a name that is already bound, whose initializer is
/// given a type, is reported as a redeclaration of that name, wherever the
/// walk comes to it and whatever the declared type.
pub proof fn theorem_redeclaration_reported(table: Map<Seq<char>, Type>, function: FunctionView, k: int)
    requires
        comes_to(table, function, k),
        block_steps(function.body)[k] is Declare,
        expression_type(
            function_scope_at(table, function, k),
            block_steps(function.body)[k]->Declare_initializer,
        ) is Ok,
        function_scope_at(table, function, k).contains_key(block_steps(function.body)[k]->Declare_name),
    ensures
        analysis(table, function) == rejected(
            function_scope_at(table, function, k),
            ErrorView::Redeclaration { name: block_steps(function.body)[k]->Declare_name },
        ),
{
    let scope = function_scope_at(table, function, k);
    let step = block_steps(function.body)[k];
    lemma_step_accepted_iff_allowed(scope, step);
    theorem_first_violation(table, function, k);
}

/// The second of two declarations of one name is reported as a
/// redeclaration, wherever the walk comes to it with an initializer that
/// is given a type, and whatever the types that the two declare.
pub proof fn theorem_second_declaration_rejected(
    table: Map<Seq<char>, Type>,
    function: FunctionView,
    i: int,
    k: int,
)
    requires
        comes_to(table, function, k),
        0 <= i < k,
        block_steps(function.body)[i] is Declare,
        block_steps(function.body)[k] is Declare,
        block_steps(function.body)[i]->Declare_name == block_steps(function.body)[k]->Declare_name,
        expression_type(
            function_scope_at(table, function, k),
            block_steps(function.body)[k]->Declare_initializer,
        ) is Ok,
    ensures
        analysis(table, function) == rejected(
            function_scope_at(table, function, k),
            ErrorView::Redeclaration { name: block_steps(function.body)[k]->Declare_name },
        ),
{
    lemma_declared_name_in_scope(bind_all(table, function.params), block_steps(function.body), i, k);
    theorem_redeclaration_reported(table, function, k);
}

/// A function whose body declares one name twice is rejected, whatever
/// the types that the two declare.
pub proof fn theorem_two_declarations_rejected(
    table: Map<Seq<char>, Type>,
    function: FunctionView,
    i: int,
    k: int,
)
    requires
        0 <= i < k < block_steps(function.body).len(),
        block_steps(function.body)[i] is Declare,
        block_steps(function.body)[k] is Declare,
        block_steps(function.body)[i]->Declare_name == block_steps(function.body)[k]->Declare_name,
    ensures
        analysis(table, function).error is Some,
{
    let bound = bind_all(table, function.params);
    let steps = block_steps(function.body);
    theorem_accepted_iff_well_typed(table, function);
    lemma_declared_name_in_scope(bound, steps, i, k);
    if well_typed_steps(bound, steps) {
        assert(step_allowed_at(bound, steps, k));
    }
}

/// A condition that is given another type than `Bool` is reported as not
/// boolean, for an `if` and for an `assert` alike, wherever the walk comes
/// to it.
pub proof fn theorem_non_boolean_condition_reported(
    table: Map<Seq<char>, Type>,
    function: FunctionView,
    k: int,
)
    requires
        comes_to(table, function, k),
        block_steps(function.body)[k] is Check,
        expression_type(
            function_scope_at(table, function, k),
            block_steps(function.body)[k]->Check_condition,
        ) is Ok,
        expression_type(
            function_scope_at(table, function, k),
            block_steps(function.body)[k]->Check_condition,
        ) != Ok::<Type, ErrorView>(Type::Bool),
    ensures
        analysis(table, function) == rejected(
            function_scope_at(table, function, k),
            ErrorView::ConditionNotBoolean { site: block_steps(function.body)[k]->Check_site },
        ),
{
    let scope = function_scope_at(table, function, k);
    let step = block_steps(function.body)[k];
    lemma_step_accepted_iff_allowed(scope, step);
    theorem_first_violation(table, function, k);
}

/// An `if` or an `assert` whose condition is given another type than
/// `Bool` is rejected as such, and the block of the `if` is not walked.
pub proof fn theorem_non_boolean_condition(
    table: Map<Seq<char>, Type>,
    condition: ExpressionView,
    if_block: Seq<StatementView>,
)
    requires
        expression_type(table, condition) is Ok,
        expression_type(table, condition) != Ok::<Type, ErrorView>(Type::Bool),
    ensures
        statement_outcome(table, StatementView::If { condition, if_block }) == rejected(
            table,
            ErrorView::ConditionNotBoolean { site: ConditionSite::If },
        ),
        statement_outcome(table, StatementView::Assert { condition }) == rejected(
            table,
            ErrorView::ConditionNotBoolean { site: ConditionSite::Assert },
        ),
{
}

/// An `if` whose condition is of type `Bool` ends where the walk of its
/// block ends, and an `assert` whose condition is of type `Bool` is
/// accepted.
pub proof fn theorem_boolean_condition(
    table: Map<Seq<char>, Type>,
    condition: ExpressionView,
    if_block: Seq<StatementView>,
)
    requires
        expression_type(table, condition) == Ok::<Type, ErrorView>(Type::Bool),
    ensures
        statement_outcome(table, StatementView::If { condition, if_block }) == block_outcome(
            table,
            if_block,
        ),
        statement_outcome(table, StatementView::Assert { condition }) == accepted(table),
{
}

/// `if (true) {}` and `assert(true)` are accepted under every table, and
/// leave it as it was.
pub proof fn theorem_true_condition_accepted(table: Map<Seq<char>, Type>)
    ensures
        statement_outcome(
            table,
            StatementView::If { condition: ExpressionView::BoolLiteral(true), if_block: Seq::empty() },
        ) == accepted(table),
        statement_outcome(table, StatementView::Assert { condition: ExpressionView::BoolLiteral(true) })
            == accepted(table),
{
    theorem_boolean_condition(table, ExpressionView::BoolLiteral(true), Seq::empty());
}

/// Nothing leaves the symbol table, and no binding in it changes, while
/// statements are walked: whether the walk is accepted or rejected, the
/// table it leaves holds every binding that it began under.
pub proof fn theorem_bindings_persist(table: Map<Seq<char>, Type>, statements: Seq<StatementView>)
    ensures
        table.submap_of(block_outcome(table, statements).table),
{
    let steps = block_steps(statements);
    lemma_block_is_linear(table, statements);
    if steps_outcome(table, steps).error is Some {
        let k = theorem_rejection_has_first_violation(table, steps);
        lemma_step_accepted_iff_allowed(scope_at(table, steps, k), steps[k]);
        lemma_well_typed_steps_keep_bindings(table, steps.take(k));
    } else {
        theorem_steps_accepted_iff_well_typed(table, steps);
        lemma_well_typed_steps_keep_bindings(table, steps);
    }
}

} // verus!
