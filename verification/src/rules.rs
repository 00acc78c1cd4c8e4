//! What the analysis decides, as specification functions over views.
//!
//! There is one symbol table for the whole function body: a map from a
//! name to the type it is bound to. The parameters are bound first. The
//! body is then walked top-down and left to right; a declaration adds its
//! binding once it has been accepted; the block of an `if` opens no scope.
//! The walk stops at the first rule that is broken.

use vstd::prelude::*;
use crate::ast::{Binding, ExpressionView, FunctionView, StatementView, Type};
use crate::error::{ConditionSite, ErrorView, Usage};

verus! {

/// Where a walk ends: the symbol table it has built, and the broken rule
/// it stopped at, if any.
pub struct Outcome {
    pub table: Map<Seq<char>, Type>,
    pub error: Option<ErrorView>,
}

/// The walk went through, and built `table`.
pub open spec fn accepted(table: Map<Seq<char>, Type>) -> Outcome {
    Outcome { table, error: None }
}

/// The walk stopped at `error`, having built `table`.
pub open spec fn rejected(table: Map<Seq<char>, Type>, error: ErrorView) -> Outcome {
    Outcome { table, error: Some(error) }
}

/// The type of `expression` under `table`, or the first broken rule.
///
/// A literal has its own type. An identifier has the type its name is
/// bound to. An assignment needs a bound target and a value of the
/// target's type, and has that type. A binary operation types its left
/// operand, then its right one, and has the type of the left one whatever
/// the operator.
pub open spec fn expression_type(table: Map<Seq<char>, Type>, expression: ExpressionView) -> Result<
    Type,
    ErrorView,
>
    decreases expression,
{
    match expression {
        ExpressionView::Identifier(name) => {
            if table.contains_key(name) {
                Ok(table[name])
            } else {
                Err(ErrorView::UndeclaredVariable { name, usage: Usage::Read })
            }
        },
        ExpressionView::IntLiteral(_) => Ok(Type::Int),
        ExpressionView::FloatLiteral(_) => Ok(Type::Float),
        ExpressionView::BoolLiteral(_) => Ok(Type::Bool),
        ExpressionView::BinaryOp { op: _, left, right } => {
            match expression_type(table, *left) {
                Err(error) => Err(error),
                Ok(left_type) => match expression_type(table, *right) {
                    Err(error) => Err(error),
                    Ok(_) => Ok(left_type),
                },
            }
        },
        ExpressionView::Assignment { name, value } => {
            if !table.contains_key(name) {
                Err(ErrorView::UndeclaredVariable { name, usage: Usage::Assignment })
            } else {
                match expression_type(table, *value) {
                    Err(error) => Err(error),
                    Ok(assigned) => {
                        if assigned == table[name] {
                            Ok(table[name])
                        } else {
                            Err(
                                ErrorView::AssignmentTypeMismatch {
                                    name,
                                    variable: table[name],
                                    assigned,
                                },
                            )
                        }
                    },
                }
            }
        },
    }
}

/// What a condition of `site` does to the walk: it must be of type `Bool`.
pub open spec fn condition_error(
    table: Map<Seq<char>, Type>,
    site: ConditionSite,
    condition: ExpressionView,
) -> Option<ErrorView> {
    match expression_type(table, condition) {
        Err(error) => Some(error),
        Ok(found) => {
            if found == Type::Bool {
                None
            } else {
                Some(ErrorView::ConditionNotBoolean { site })
            }
        },
    }
}

/// What a declaration does to the walk. The initializer is typed first,
/// under the table without the new name; then the name must be unbound;
/// then the initializer must have the declared type. Only then is the
/// name bound.
pub open spec fn declaration_outcome(
    table: Map<Seq<char>, Type>,
    declared_type: Type,
    name: Seq<char>,
    initializer: ExpressionView,
) -> Outcome {
    match expression_type(table, initializer) {
        Err(error) => rejected(table, error),
        Ok(found) => {
            if table.contains_key(name) {
                rejected(table, ErrorView::Redeclaration { name })
            } else if found != declared_type {
                rejected(table, ErrorView::DeclarationTypeMismatch { name, declared: declared_type, found })
            } else {
                accepted(table.insert(name, declared_type))
            }
        },
    }
}

/// Where the walk of one statement ends, begun under `table`.
pub open spec fn statement_outcome(table: Map<Seq<char>, Type>, statement: StatementView) -> Outcome
    decreases statement,
{
    match statement {
        StatementView::Declaration { declared_type, name, initializer } => {
            declaration_outcome(table, declared_type, name, initializer)
        },
        StatementView::If { condition, if_block } => {
            match condition_error(table, ConditionSite::If, condition) {
                Some(error) => rejected(table, error),
                None => block_outcome(table, if_block),
            }
        },
        StatementView::Expression(expression) => {
            match expression_type(table, expression) {
                Err(error) => rejected(table, error),
                Ok(_) => accepted(table),
            }
        },
        StatementView::Assert { condition } => {
            match condition_error(table, ConditionSite::Assert, condition) {
                Some(error) => rejected(table, error),
                None => accepted(table),
            }
        },
    }
}

/// Where the walk of a run of statements ends, begun under `table`: each
/// statement is walked under the table that the one before it left, and
/// the first rejection ends the walk.
pub open spec fn block_outcome(table: Map<Seq<char>, Type>, statements: Seq<StatementView>) -> Outcome
    decreases statements,
{
    if statements.len() == 0 {
        accepted(table)
    } else {
        let first = statement_outcome(table, statements.first());
        if first.error is Some {
            first
        } else {
            block_outcome(first.table, statements.drop_first())
        }
    }
}

/// `table` with each of `bindings` added in order; a later binding of a
/// name replaces an earlier one.
pub open spec fn bind_all(table: Map<Seq<char>, Type>, bindings: Seq<Binding>) -> Map<Seq<char>, Type>
    decreases bindings.len(),
{
    if bindings.len() == 0 {
        table
    } else {
        bind_all(table, bindings.drop_last()).insert(bindings.last().name, bindings.last().declared_type)
    }
}

/// One of `bindings` is a binding of `name`.
pub open spec fn binds(bindings: Seq<Binding>, name: Seq<char>) -> bool {
    exists|i: int| 0 <= i < bindings.len() && (#[trigger] bindings[i]).name == name
}

/// Where the analysis of `function` ends, begun under `table`: the
/// parameters are bound, unchecked, and the body is walked.
pub open spec fn analysis(table: Map<Seq<char>, Type>, function: FunctionView) -> Outcome {
    block_outcome(bind_all(table, function.params), function.body)
}

} // verus!
