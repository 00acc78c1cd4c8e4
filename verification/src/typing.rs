//! What it is for a function to be well typed, said without a walk.
//!
//! The rules in [`crate::rules`] follow the walk: they say what happens
//! first and where the walk stops. This module says the same of a function
//! that is accepted, as one condition on each step under the bindings that
//! stand before it in the text; [`crate::acceptance`] proves that the two
//! agree.

use vstd::prelude::*;
use crate::ast::{Binding, ExpressionView, FunctionView, Type};
use crate::error::Usage;
use crate::linear::{block_steps, declarations, Step};
use crate::rules::{bind_all, binds, expression_type};

verus! {

/// The type of a well-typed expression: a literal's own type, the type
/// that an identifier or the target of an assignment is bound to, and the
/// type of the left operand of a binary operation.
pub open spec fn static_type(table: Map<Seq<char>, Type>, expression: ExpressionView) -> Type
    decreases expression,
{
    match expression {
        ExpressionView::Identifier(name) => table[name],
        ExpressionView::IntLiteral(_) => Type::Int,
        ExpressionView::FloatLiteral(_) => Type::Float,
        ExpressionView::BoolLiteral(_) => Type::Bool,
        ExpressionView::BinaryOp { op: _, left, right: _ } => static_type(table, *left),
        ExpressionView::Assignment { name, value: _ } => table[name],
    }
}

/// Every name in `expression` is bound in `table`, and every assignment in
/// it gives its target a value of the type the target is bound to.
pub open spec fn well_typed(table: Map<Seq<char>, Type>, expression: ExpressionView) -> bool
    decreases expression,
{
    match expression {
        ExpressionView::Identifier(name) => table.contains_key(name),
        ExpressionView::IntLiteral(_) => true,
        ExpressionView::FloatLiteral(_) => true,
        ExpressionView::BoolLiteral(_) => true,
        ExpressionView::BinaryOp { op: _, left, right } => {
            well_typed(table, *left) && well_typed(table, *right)
        },
        ExpressionView::Assignment { name, value } => {
            &&& table.contains_key(name)
            &&& well_typed(table, *value)
            &&& static_type(table, *value) == table[name]
        },
    }
}

/// `expression` uses `name`, as an identifier or as the target of an
/// assignment, somewhere in it.
pub open spec fn mentions(expression: ExpressionView, name: Seq<char>) -> bool
    decreases expression,
{
    match expression {
        ExpressionView::Identifier(used) => used == name,
        ExpressionView::IntLiteral(_) => false,
        ExpressionView::FloatLiteral(_) => false,
        ExpressionView::BoolLiteral(_) => false,
        ExpressionView::BinaryOp { op: _, left, right } => mentions(*left, name) || mentions(*right, name),
        ExpressionView::Assignment { name: target, value } => target == name || mentions(*value, name),
    }
}

/// The walk of `expression` under `table` comes to `part`: `part` is
/// `expression` itself, or it stands in `expression` and all that the walk
/// types before it there breaks no rule. The left operand of a binary
/// operation comes before the right one, and the target of an assignment
/// before its value.
pub open spec fn reaches(table: Map<Seq<char>, Type>, expression: ExpressionView, part: ExpressionView) -> bool
    decreases expression,
{
    expression == part || match expression {
        ExpressionView::BinaryOp { op: _, left, right } => {
            ||| reaches(table, *left, part)
            ||| (expression_type(table, *left) is Ok && reaches(table, *right, part))
        },
        ExpressionView::Assignment { name, value } => {
            table.contains_key(name) && reaches(table, *value, part)
        },
        _ => false,
    }
}

/// `part` uses `name` in the way `usage`, and `table` does not bind it.
pub open spec fn unbound_use(
    table: Map<Seq<char>, Type>,
    part: ExpressionView,
    name: Seq<char>,
    usage: Usage,
) -> bool {
    &&& !table.contains_key(name)
    &&& match usage {
        Usage::Read => part == ExpressionView::Identifier(name),
        Usage::Assignment => part matches ExpressionView::Assignment { name: target, .. } && target == name,
    }
}

/// `step` breaks no rule under `table`: its expression is well typed; a
/// declaration also binds a new name to the type of its initializer; a
/// condition is also of type `Bool`.
pub open spec fn step_allowed(table: Map<Seq<char>, Type>, step: Step) -> bool {
    match step {
        Step::Declare { declared_type, name, initializer } => {
            &&& well_typed(table, initializer)
            &&& !table.contains_key(name)
            &&& static_type(table, initializer) == declared_type
        },
        Step::Check { site: _, condition } => {
            &&& well_typed(table, condition)
            &&& static_type(table, condition) == Type::Bool
        },
        Step::Evaluate { expression } => well_typed(table, expression),
    }
}

/// The bindings in force at step `k` of `steps`: those of `table`, and
/// the declarations among the steps before it.
pub open spec fn scope_at(table: Map<Seq<char>, Type>, steps: Seq<Step>, k: int) -> Map<Seq<char>, Type> {
    bind_all(table, declarations(steps.take(k)))
}

/// Step `k` of `steps` breaks no rule under the bindings in force at it.
pub open spec fn step_allowed_at(table: Map<Seq<char>, Type>, steps: Seq<Step>, k: int) -> bool {
    step_allowed(scope_at(table, steps, k), steps[k])
}

/// Each of `steps` breaks no rule under the bindings in force at it.
pub open spec fn well_typed_steps(table: Map<Seq<char>, Type>, steps: Seq<Step>) -> bool {
    forall|k: int| 0 <= k < steps.len() ==> #[trigger] step_allowed_at(table, steps, k)
}

/// The bindings in force at step `k` of the body of `function`: those of
/// `table`, the parameters, and the declarations before that step.
pub open spec fn function_scope_at(table: Map<Seq<char>, Type>, function: FunctionView, k: int) -> Map<
    Seq<char>,
    Type,
> {
    scope_at(bind_all(table, function.params), block_steps(function.body), k)
}

/// The walk of `function` comes to step `k` of its body: there is such a
/// step, and no step before it breaks a rule.
pub open spec fn comes_to(table: Map<Seq<char>, Type>, function: FunctionView, k: int) -> bool {
    &&& 0 <= k < block_steps(function.body).len()
    &&& well_typed_steps(bind_all(table, function.params), block_steps(function.body).take(k))
}

/// Each of `bindings` binds a name that neither `table` nor an earlier
/// one of them binds.
pub open spec fn all_fresh(table: Map<Seq<char>, Type>, bindings: Seq<Binding>) -> bool {
    forall|j: int|
        0 <= j < bindings.len() ==> {
            &&& !table.contains_key((#[trigger] bindings[j]).name)
            &&& !binds(bindings.take(j), bindings[j].name)
        }
}

/// `function` is well typed where `table` is already bound: each step of
/// its body breaks no rule under the bindings of `table`, the parameters
/// and the declarations before that step.
pub open spec fn well_typed_function(table: Map<Seq<char>, Type>, function: FunctionView) -> bool {
    well_typed_steps(bind_all(table, function.params), block_steps(function.body))
}

} // verus!
