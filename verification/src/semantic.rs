//! The analyzer: an executable walk of the tree, proved against the rules.

use vstd::prelude::*;
use vstd::hash_map::StringHashMap;
use crate::acceptance::{
    theorem_accepted_iff_well_typed,
    theorem_steps_accepted_iff_well_typed,
    theorem_typed_iff_well_typed,
};
use crate::ast::{block_view, lemma_block_view, Expression, FunctionDefinition, Statement, Type};
use crate::error::{ConditionSite, ErrorView, SemanticError, Usage};
use crate::linear::{block_steps, declarations, lemma_statement_is_linear, statement_steps};
use crate::rules::{analysis, bind_all, block_outcome, expression_type, statement_outcome};
use crate::typing::{static_type, well_typed, well_typed_function, well_typed_steps};

verus! {

/// Checks one function definition against the scope and type rules.
///
/// The analyzer owns the symbol table. It is empty when the analyzer is
/// made, and nothing ever leaves it: a second analysis with the same
/// analyzer begins under the bindings that the first one left.
pub struct SemanticAnalyzer {
    symbol_table: StringHashMap<Type>,
}

/// The view of what typing an expression returned.
pub open spec fn typed(result: Result<Type, SemanticError>) -> Result<Type, ErrorView> {
    match result {
        Ok(found) => Ok(found),
        Err(error) => Err(error@),
    }
}

/// The view of the error that a walk returned, if it returned one.
pub open spec fn reported(result: Result<(), SemanticError>) -> Option<ErrorView> {
    match result {
        Ok(_) => None,
        Err(error) => Some(error@),
    }
}

impl SemanticAnalyzer {
    /// The symbol table: the type that each bound name is bound to.
    pub closed spec fn view(&self) -> Map<Seq<char>, Type> {
        self.symbol_table@
    }

    /// An analyzer with an empty symbol table.
    pub fn new() -> (analyzer: Self)
        ensures
            analyzer@ == Map::<Seq<char>, Type>::empty(),
    {
        SemanticAnalyzer { symbol_table: StringHashMap::new() }
    }

    /// The type that `name` is bound to, if it is bound.
    pub fn lookup(&self, name: &str) -> (bound: Option<Type>)
        ensures
            bound == (if self@.contains_key(name@) {
                Some(self@[name@])
            } else {
                None
            }),
    {
        match self.symbol_table.get(name) {
            Some(found) => Some(*found),
            None => None,
        }
    }

    /// The number of names that are bound.
    pub fn symbol_count(&self) -> (count: usize)
        ensures
            count == self@.len(),
    {
        self.symbol_table.len()
    }

    /// Analyzes `ast`: binds its parameters, then walks its body.
    ///
    /// Returns `Ok` if no rule is broken, and else the first broken rule in
    /// the order of the walk. Either way the symbol table is left as the
    /// walk built it: the bindings it began with, the parameters, and each
    /// declaration that was accepted before the walk ended.
    ///
    /// The functions that are accepted are the well-typed ones, and the
    /// table then holds the bindings it began with, the parameters and
    /// every declaration of the body.
    pub fn analyze(&mut self, ast: &FunctionDefinition) -> (result: Result<(), SemanticError>)
        ensures
            final(self)@ == analysis(old(self)@, ast@).table,
            reported(result) == analysis(old(self)@, ast@).error,
            result is Ok <==> well_typed_function(old(self)@, ast@),
            result is Ok ==> final(self)@ == bind_all(
                old(self)@,
                ast@.params + declarations(block_steps(ast@.body)),
            ),
    {
        proof {
            theorem_accepted_iff_well_typed(old(self)@, ast@);
        }
        let ghost params = ast@.params;
        let ghost body = ast@.body;
        let mut p: usize = 0;
        while p < ast.params.len()
            invariant
                p <= ast.params.len(),
                params == ast@.params,
                self@ == bind_all(old(self)@, params.take(p as int)),
            decreases ast.params.len() - p,
        {
            let param = &ast.params[p];
            proof {
                assert(params.take(p + 1).drop_last() == params.take(p as int));
            }
            self.symbol_table.insert(param.name.clone(), param.declared_type);
            p += 1;
        }
        proof {
            assert(params.take(p as int) == params);
            assert(body.skip(0) == body);
            lemma_block_view(ast.body@);
        }
        let mut s: usize = 0;
        while s < ast.body.len()
            invariant
                s <= ast.body.len(),
                body == block_view(ast.body@),
                body.len() == ast.body.len(),
                forall|i: int| 0 <= i < body.len() ==> (#[trigger] body[i]) == ast.body@[i].view(),
                analysis(old(self)@, ast@) == block_outcome(self@, body.skip(s as int)),
                analysis(old(self)@, ast@).error is None <==> well_typed_function(old(self)@, ast@),
            decreases ast.body.len() - s,
        {
            proof {
                assert(body.skip(s as int).drop_first() == body.skip(s + 1));
            }
            match self.visit_statement(&ast.body[s]) {
                Err(error) => {
                    return Err(error);
                },
                Ok(_) => {},
            }
            s += 1;
        }
        Ok(())
    }

    /// Walks one statement; the block of an `if` is walked with it.
    ///
    /// Returns `Ok` if the statement breaks no rule, and else the first
    /// broken rule. A declaration that is accepted binds its name; nothing
    /// else changes the symbol table.
    ///
    /// The statements that are accepted are those whose steps are well
    /// typed, and the table then holds the bindings it began with and
    /// every declaration of the statement.
    pub fn visit_statement(&mut self, statement: &Statement) -> (result: Result<(), SemanticError>)
        ensures
            final(self)@ == statement_outcome(old(self)@, statement@).table,
            reported(result) == statement_outcome(old(self)@, statement@).error,
            result is Ok <==> well_typed_steps(old(self)@, statement_steps(statement@)),
            result is Ok ==> final(self)@ == bind_all(old(self)@, declarations(statement_steps(statement@))),
        decreases statement,
    {
        proof {
            lemma_statement_is_linear(old(self)@, statement@);
            theorem_steps_accepted_iff_well_typed(old(self)@, statement_steps(statement@));
        }
        match statement {
            Statement::Declaration { declared_type, name, initializer } => {
                let found = match self.visit_expression(initializer) {
                    Err(error) => {
                        return Err(error);
                    },
                    Ok(found) => found,
                };
                if self.symbol_table.contains_key(name.as_str()) {
                    return Err(SemanticError::Redeclaration { name: name.clone() });
                }
                if found != *declared_type {
                    return Err(
                        SemanticError::DeclarationTypeMismatch {
                            name: name.clone(),
                            declared: *declared_type,
                            found,
                        },
                    );
                }
                self.symbol_table.insert(name.clone(), *declared_type);
                Ok(())
            },
            Statement::If { condition, if_block } => {
                let found = match self.visit_expression(condition) {
                    Err(error) => {
                        return Err(error);
                    },
                    Ok(found) => found,
                };
                if found != Type::Bool {
                    return Err(SemanticError::ConditionNotBoolean { site: ConditionSite::If });
                }
                let ghost block = block_view(if_block@);
                proof {
                    assert(block.skip(0) == block);
                    lemma_block_view(if_block@);
                }
                let mut s: usize = 0;
                while s < if_block.len()
                    invariant
                        s <= if_block.len(),
                        statement matches Statement::If { if_block: owned, .. } && owned == if_block,
                        block.len() == if_block.len(),
                        forall|i: int| 0 <= i < block.len() ==> (#[trigger] block[i]) == if_block@[i].view(),
                        statement_outcome(old(self)@, statement@) == block_outcome(
                            self@,
                            block.skip(s as int),
                        ),
                        statement_outcome(old(self)@, statement@).error is None <==> well_typed_steps(
                            old(self)@,
                            statement_steps(statement@),
                        ),
                    decreases if_block.len() - s,
                {
                    proof {
                        assert(block.skip(s as int).drop_first() == block.skip(s + 1));
                    }
                    match self.visit_statement(&if_block[s]) {
                        Err(error) => {
                            return Err(error);
                        },
                        Ok(_) => {},
                    }
                    s += 1;
                }
                Ok(())
            },
            Statement::Expression(expression) => {
                match self.visit_expression(expression) {
                    Err(error) => Err(error),
                    Ok(_) => Ok(()),
                }
            },
            Statement::Assert { condition } => {
                let found = match self.visit_expression(condition) {
                    Err(error) => {
                        return Err(error);
                    },
                    Ok(found) => found,
                };
                if found != Type::Bool {
                    return Err(SemanticError::ConditionNotBoolean { site: ConditionSite::Assert });
                }
                Ok(())
            },
        }
    }

    /// Types one expression under the symbol table as it stands.
    ///
    /// Returns the expression's type, or the first broken rule in it. The
    /// expressions that are given a type are the well-typed ones, and the
    /// type is the static type.
    pub fn visit_expression(&self, expression: &Expression) -> (result: Result<Type, SemanticError>)
        ensures
            typed(result) == expression_type(self@, expression@),
            result is Ok <==> well_typed(self@, expression@),
            result is Ok ==> result == Ok::<Type, SemanticError>(static_type(self@, expression@)),
        decreases expression,
    {
        proof {
            theorem_typed_iff_well_typed(self@, expression@);
        }
        match expression {
            Expression::Identifier(name) => {
                match self.symbol_table.get(name.as_str()) {
                    Some(bound) => Ok(*bound),
                    None => Err(SemanticError::UndeclaredVariable { name: name.clone(), usage: Usage::Read }),
                }
            },
            Expression::Assignment { name, value } => {
                let variable = match self.symbol_table.get(name.as_str()) {
                    Some(bound) => *bound,
                    None => {
                        return Err(
                            SemanticError::UndeclaredVariable { name: name.clone(), usage: Usage::Assignment },
                        );
                    },
                };
                let assigned = match self.visit_expression(value) {
                    Err(error) => {
                        return Err(error);
                    },
                    Ok(assigned) => assigned,
                };
                if assigned != variable {
                    return Err(
                        SemanticError::AssignmentTypeMismatch { name: name.clone(), variable, assigned },
                    );
                }
                Ok(variable)
            },
            Expression::BinaryOp { op: _, left, right } => {
                let left_type = match self.visit_expression(left) {
                    Err(error) => {
                        return Err(error);
                    },
                    Ok(found) => found,
                };
                match self.visit_expression(right) {
                    Err(error) => Err(error),
                    Ok(_) => Ok(left_type),
                }
            },
            Expression::IntLiteral(_) => Ok(Type::Int),
            Expression::FloatLiteral(_) => Ok(Type::Float),
            Expression::BoolLiteral(_) => Ok(Type::Bool),
        }
    }
}

} // verus!
