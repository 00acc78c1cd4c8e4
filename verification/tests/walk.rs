//! The rules of the walk, one at a time.

use shader_compiler::ast::{BinaryOp, Expression, FunctionDefinition, Parameter, Statement, Type};
use shader_compiler::error::{ConditionSite, SemanticError, Usage};
use shader_compiler::semantic::SemanticAnalyzer;

fn text(value: &str) -> String {
    String::from(value)
}

fn var(value: &str) -> Box<Expression> {
    Box::new(Expression::Identifier(text(value)))
}

fn lit_int(value: i64) -> Box<Expression> {
    Box::new(Expression::IntLiteral(value))
}

fn lit_float(value: f64) -> Box<Expression> {
    Box::new(Expression::FloatLiteral(value.to_bits()))
}

fn lit_bool(value: bool) -> Box<Expression> {
    Box::new(Expression::BoolLiteral(value))
}

fn op(op: BinaryOp, left: Box<Expression>, right: Box<Expression>) -> Box<Expression> {
    Box::new(Expression::BinaryOp { op, left, right })
}

fn set(target: &str, value: Box<Expression>) -> Box<Expression> {
    Box::new(Expression::Assignment { name: text(target), value })
}

fn decl(declared_type: Type, variable: &str, initializer: Box<Expression>) -> Statement {
    Statement::Declaration { declared_type, name: text(variable), initializer }
}

fn param(declared_type: Type, variable: &str) -> Parameter {
    Parameter { declared_type, name: text(variable) }
}

fn func(params: Vec<Parameter>, body: Vec<Statement>) -> FunctionDefinition {
    FunctionDefinition { return_type: Type::Float, name: text("f"), params, body }
}

/// An analyzer that has bound `i: Int`, `x: Float` and `b: Bool`.
fn bound_analyzer() -> SemanticAnalyzer {
    let mut analyzer = SemanticAnalyzer::new();
    let function =
        func(vec![param(Type::Int, "i"), param(Type::Float, "x"), param(Type::Bool, "b")], vec![]);
    assert_eq!(analyzer.analyze(&function), Ok(()));
    analyzer
}

#[test]
fn literals_have_their_own_type() {
    let analyzer = SemanticAnalyzer::new();
    assert_eq!(analyzer.visit_expression(&Expression::IntLiteral(-7)), Ok(Type::Int));
    assert_eq!(analyzer.visit_expression(&Expression::IntLiteral(i64::MAX)), Ok(Type::Int));
    assert_eq!(analyzer.visit_expression(&Expression::FloatLiteral(0.5f64.to_bits())), Ok(Type::Float));
    assert_eq!(analyzer.visit_expression(&Expression::FloatLiteral(f64::NAN.to_bits())), Ok(Type::Float));
    assert_eq!(analyzer.visit_expression(&Expression::BoolLiteral(true)), Ok(Type::Bool));
    assert_eq!(analyzer.visit_expression(&Expression::BoolLiteral(false)), Ok(Type::Bool));
}

#[test]
fn identifier_has_the_bound_type() {
    let analyzer = bound_analyzer();
    assert_eq!(analyzer.visit_expression(&var("i")), Ok(Type::Int));
    assert_eq!(analyzer.visit_expression(&var("x")), Ok(Type::Float));
    assert_eq!(analyzer.visit_expression(&var("b")), Ok(Type::Bool));
}

#[test]
fn unbound_identifier_is_undeclared() {
    let analyzer = bound_analyzer();
    assert_eq!(
        analyzer.visit_expression(&var("y")),
        Err(SemanticError::UndeclaredVariable { name: text("y"), usage: Usage::Read })
    );
    assert_eq!(
        analyzer.visit_expression(&var("")),
        Err(SemanticError::UndeclaredVariable { name: text(""), usage: Usage::Read })
    );
}

#[test]
fn names_differ_by_case() {
    let analyzer = bound_analyzer();
    assert_eq!(
        analyzer.visit_expression(&var("I")),
        Err(SemanticError::UndeclaredVariable { name: text("I"), usage: Usage::Read })
    );
}

#[test]
fn binary_operation_has_the_type_of_its_left_operand() {
    let analyzer = bound_analyzer();
    assert_eq!(analyzer.visit_expression(&op(BinaryOp::Add, lit_int(1), lit_float(2.0))), Ok(Type::Int));
    assert_eq!(analyzer.visit_expression(&op(BinaryOp::Add, lit_float(2.0), lit_int(1))), Ok(Type::Float));
    assert_eq!(analyzer.visit_expression(&op(BinaryOp::Equal, var("b"), var("i"))), Ok(Type::Bool));
    assert_eq!(analyzer.visit_expression(&op(BinaryOp::LessThan, var("i"), var("i"))), Ok(Type::Int));
    assert_eq!(analyzer.visit_expression(&op(BinaryOp::Divide, var("x"), var("b"))), Ok(Type::Float));
}

#[test]
fn every_operator_is_typed_alike() {
    let analyzer = bound_analyzer();
    let operators = [
        BinaryOp::Add,
        BinaryOp::Subtract,
        BinaryOp::Multiply,
        BinaryOp::Divide,
        BinaryOp::Equal,
        BinaryOp::NotEqual,
        BinaryOp::LessThan,
        BinaryOp::GreaterThan,
        BinaryOp::LessThanOrEqual,
        BinaryOp::GreaterThanOrEqual,
    ];
    for operator in operators {
        assert_eq!(analyzer.visit_expression(&op(operator, var("x"), lit_int(1))), Ok(Type::Float));
        assert_eq!(analyzer.visit_expression(&op(operator, lit_bool(true), var("x"))), Ok(Type::Bool));
    }
}

#[test]
fn binary_operation_types_both_operands() {
    let analyzer = bound_analyzer();
    assert_eq!(
        analyzer.visit_expression(&op(BinaryOp::Add, lit_int(1), var("right"))),
        Err(SemanticError::UndeclaredVariable { name: text("right"), usage: Usage::Read })
    );
    assert_eq!(
        analyzer.visit_expression(&op(BinaryOp::Add, var("left"), lit_int(1))),
        Err(SemanticError::UndeclaredVariable { name: text("left"), usage: Usage::Read })
    );
}

#[test]
fn binary_operation_reports_the_left_operand_first() {
    let analyzer = bound_analyzer();
    assert_eq!(
        analyzer.visit_expression(&op(BinaryOp::Multiply, var("left"), var("right"))),
        Err(SemanticError::UndeclaredVariable { name: text("left"), usage: Usage::Read })
    );
    // A mismatch on the left hides an undeclared name on the right.
    assert_eq!(
        analyzer.visit_expression(&op(BinaryOp::Multiply, set("i", lit_float(1.0)), var("right"))),
        Err(SemanticError::AssignmentTypeMismatch {
            name: text("i"),
            variable: Type::Int,
            assigned: Type::Float,
        })
    );
}

#[test]
fn assignment_has_the_type_of_its_target() {
    let analyzer = bound_analyzer();
    assert_eq!(analyzer.visit_expression(&set("i", lit_int(3))), Ok(Type::Int));
    assert_eq!(analyzer.visit_expression(&set("x", var("x"))), Ok(Type::Float));
    assert_eq!(analyzer.visit_expression(&set("b", op(BinaryOp::Equal, var("b"), var("i")))), Ok(Type::Bool));
}

#[test]
fn assignment_can_be_chained() {
    // x = (x = 1.0) is accepted; i = (x = 1.0) is not.
    let analyzer = bound_analyzer();
    assert_eq!(analyzer.visit_expression(&set("x", set("x", lit_float(1.0)))), Ok(Type::Float));
    assert_eq!(
        analyzer.visit_expression(&set("i", set("x", lit_float(1.0)))),
        Err(SemanticError::AssignmentTypeMismatch {
            name: text("i"),
            variable: Type::Int,
            assigned: Type::Float,
        })
    );
}

#[test]
fn assignment_mismatch_names_both_types() {
    let analyzer = bound_analyzer();
    assert_eq!(
        analyzer.visit_expression(&set("b", lit_int(1))),
        Err(SemanticError::AssignmentTypeMismatch {
            name: text("b"),
            variable: Type::Bool,
            assigned: Type::Int,
        })
    );
    assert_eq!(
        analyzer.visit_expression(&set("x", var("b"))),
        Err(SemanticError::AssignmentTypeMismatch {
            name: text("x"),
            variable: Type::Float,
            assigned: Type::Bool,
        })
    );
}

#[test]
fn assignment_looks_its_target_up_before_its_value() {
    let analyzer = bound_analyzer();
    assert_eq!(
        analyzer.visit_expression(&set("target", var("value"))),
        Err(SemanticError::UndeclaredVariable { name: text("target"), usage: Usage::Assignment })
    );
    assert_eq!(
        analyzer.visit_expression(&set("i", var("value"))),
        Err(SemanticError::UndeclaredVariable { name: text("value"), usage: Usage::Read })
    );
    assert_eq!(
        analyzer.visit_expression(&set("i", set("inner", lit_int(1)))),
        Err(SemanticError::UndeclaredVariable { name: text("inner"), usage: Usage::Assignment })
    );
}

#[test]
fn typing_an_expression_changes_nothing() {
    let analyzer = bound_analyzer();
    assert_eq!(analyzer.visit_expression(&set("i", lit_int(3))), Ok(Type::Int));
    assert!(analyzer.visit_expression(&var("y")).is_err());
    assert_eq!(analyzer.symbol_count(), 3);
    assert_eq!(analyzer.lookup("i"), Some(Type::Int));
    assert_eq!(analyzer.lookup("y"), None);
}

#[test]
fn declaration_binds_its_name() {
    let mut analyzer = bound_analyzer();
    assert_eq!(analyzer.visit_statement(&decl(Type::Bool, "flag", var("b"))), Ok(()));
    assert_eq!(analyzer.lookup("flag"), Some(Type::Bool));
    assert_eq!(analyzer.symbol_count(), 4);
}

#[test]
fn declaration_mismatch_names_both_types() {
    let mut analyzer = bound_analyzer();
    assert_eq!(
        analyzer.visit_statement(&decl(Type::Float, "y", op(BinaryOp::Add, lit_int(1), lit_float(2.0)))),
        Err(SemanticError::DeclarationTypeMismatch {
            name: text("y"),
            declared: Type::Float,
            found: Type::Int,
        })
    );
    assert_eq!(analyzer.lookup("y"), None);
    assert_eq!(analyzer.symbol_count(), 3);
    assert_eq!(analyzer.visit_statement(&decl(Type::Int, "y", op(BinaryOp::Add, lit_int(1), lit_float(2.0)))), Ok(()));
    assert_eq!(analyzer.lookup("y"), Some(Type::Int));
}

#[test]
fn declaration_cannot_read_itself() {
    // int y = y;
    let mut analyzer = bound_analyzer();
    assert_eq!(
        analyzer.visit_statement(&decl(Type::Int, "y", var("y"))),
        Err(SemanticError::UndeclaredVariable { name: text("y"), usage: Usage::Read })
    );
    // int z = (z = 1);
    assert_eq!(
        analyzer.visit_statement(&decl(Type::Int, "z", set("z", lit_int(1)))),
        Err(SemanticError::UndeclaredVariable { name: text("z"), usage: Usage::Assignment })
    );
    assert_eq!(analyzer.symbol_count(), 3);
}

#[test]
fn declaration_types_its_initializer_before_it_looks_at_the_name() {
    // `i` is bound, and the initializer is broken: the initializer is reported.
    let mut analyzer = bound_analyzer();
    assert_eq!(
        analyzer.visit_statement(&decl(Type::Int, "i", var("nowhere"))),
        Err(SemanticError::UndeclaredVariable { name: text("nowhere"), usage: Usage::Read })
    );
    assert_eq!(
        analyzer.visit_statement(&decl(Type::Int, "i", set("b", lit_int(1)))),
        Err(SemanticError::AssignmentTypeMismatch {
            name: text("b"),
            variable: Type::Bool,
            assigned: Type::Int,
        })
    );
}

#[test]
fn redeclaration_comes_before_the_type_mismatch() {
    // `i` is bound, the initializer is typed, and its type is not the declared one.
    let mut analyzer = bound_analyzer();
    assert_eq!(
        analyzer.visit_statement(&decl(Type::Float, "i", lit_bool(true))),
        Err(SemanticError::Redeclaration { name: text("i") })
    );
    assert_eq!(analyzer.lookup("i"), Some(Type::Int));
}

#[test]
fn parameter_cannot_be_redeclared() {
    let mut analyzer = SemanticAnalyzer::new();
    let function = func(vec![param(Type::Int, "a")], vec![decl(Type::Int, "a", lit_int(1))]);
    assert_eq!(analyzer.analyze(&function), Err(SemanticError::Redeclaration { name: text("a") }));
    assert_eq!(analyzer.lookup("a"), Some(Type::Int));
    assert_eq!(analyzer.symbol_count(), 1);
}

#[test]
fn parameters_of_one_name_are_not_rejected() {
    // The later parameter stands.
    let mut analyzer = SemanticAnalyzer::new();
    let function = func(
        vec![param(Type::Int, "a"), param(Type::Bool, "a")],
        vec![Statement::Assert { condition: var("a") }],
    );
    assert_eq!(analyzer.analyze(&function), Ok(()));
    assert_eq!(analyzer.symbol_count(), 1);
    assert_eq!(analyzer.lookup("a"), Some(Type::Bool));
}

#[test]
fn parameters_are_bound_before_the_body() {
    let mut analyzer = SemanticAnalyzer::new();
    let function = func(
        vec![param(Type::Float, "first"), param(Type::Bool, "second")],
        vec![decl(Type::Float, "copy", var("first")), Statement::Assert { condition: var("second") }],
    );
    assert_eq!(analyzer.analyze(&function), Ok(()));
    assert_eq!(analyzer.lookup("copy"), Some(Type::Float));
}

#[test]
fn return_type_and_function_name_are_not_bound() {
    let mut analyzer = SemanticAnalyzer::new();
    let function = FunctionDefinition {
        return_type: Type::Bool,
        name: text("f"),
        params: vec![],
        body: vec![Statement::Expression(var("f"))],
    };
    assert_eq!(
        analyzer.analyze(&function),
        Err(SemanticError::UndeclaredVariable { name: text("f"), usage: Usage::Read })
    );
}

#[test]
fn expression_statement_drops_its_type() {
    let mut analyzer = bound_analyzer();
    assert_eq!(analyzer.visit_statement(&Statement::Expression(var("x"))), Ok(()));
    assert_eq!(analyzer.visit_statement(&Statement::Expression(lit_int(1))), Ok(()));
    assert_eq!(analyzer.visit_statement(&Statement::Expression(set("b", lit_bool(false)))), Ok(()));
    assert_eq!(analyzer.symbol_count(), 3);
}

#[test]
fn expression_statement_hands_on_the_error() {
    let mut analyzer = bound_analyzer();
    assert_eq!(
        analyzer.visit_statement(&Statement::Expression(set("gone", lit_int(1)))),
        Err(SemanticError::UndeclaredVariable { name: text("gone"), usage: Usage::Assignment })
    );
}

#[test]
fn condition_must_be_boolean() {
    let mut analyzer = bound_analyzer();
    for condition in [lit_int(1), lit_float(1.0), var("i"), var("x"), set("i", lit_int(0))] {
        let as_if = Statement::If {
            condition: Box::new(copy_of(&condition)),
            if_block: vec![],
        };
        assert_eq!(
            analyzer.visit_statement(&as_if),
            Err(SemanticError::ConditionNotBoolean { site: ConditionSite::If })
        );
        assert_eq!(
            analyzer.visit_statement(&Statement::Assert { condition }),
            Err(SemanticError::ConditionNotBoolean { site: ConditionSite::Assert })
        );
    }
    for condition in [lit_bool(false), var("b"), set("b", lit_bool(true)), op(BinaryOp::Equal, var("b"), lit_int(1))] {
        let as_if = Statement::If {
            condition: Box::new(copy_of(&condition)),
            if_block: vec![],
        };
        assert_eq!(analyzer.visit_statement(&as_if), Ok(()));
        assert_eq!(analyzer.visit_statement(&Statement::Assert { condition }), Ok(()));
    }
}

fn copy_of(expression: &Expression) -> Expression {
    match expression {
        Expression::Identifier(name) => Expression::Identifier(name.clone()),
        Expression::IntLiteral(value) => Expression::IntLiteral(*value),
        Expression::FloatLiteral(bits) => Expression::FloatLiteral(*bits),
        Expression::BoolLiteral(value) => Expression::BoolLiteral(*value),
        Expression::BinaryOp { op, left, right } => Expression::BinaryOp {
            op: *op,
            left: Box::new(copy_of(left)),
            right: Box::new(copy_of(right)),
        },
        Expression::Assignment { name, value } => {
            Expression::Assignment { name: name.clone(), value: Box::new(copy_of(value)) }
        },
    }
}

#[test]
fn broken_condition_is_reported_as_it_is() {
    let mut analyzer = bound_analyzer();
    assert_eq!(
        analyzer.visit_statement(&Statement::If { condition: var("c"), if_block: vec![] }),
        Err(SemanticError::UndeclaredVariable { name: text("c"), usage: Usage::Read })
    );
    assert_eq!(
        analyzer.visit_statement(&Statement::Assert { condition: set("b", lit_int(1)) }),
        Err(SemanticError::AssignmentTypeMismatch {
            name: text("b"),
            variable: Type::Bool,
            assigned: Type::Int,
        })
    );
}

#[test]
fn block_is_not_walked_after_a_rejected_condition() {
    let mut analyzer = bound_analyzer();
    let statement = Statement::If {
        condition: var("i"),
        if_block: vec![decl(Type::Int, "inside", lit_int(1)), Statement::Expression(var("nowhere"))],
    };
    assert_eq!(
        analyzer.visit_statement(&statement),
        Err(SemanticError::ConditionNotBoolean { site: ConditionSite::If })
    );
    assert_eq!(analyzer.lookup("inside"), None);
}

#[test]
fn block_opens_no_scope() {
    // if (b) { int inside = 1; } inside = 2; int inside = 3;
    let mut analyzer = bound_analyzer();
    let block = Statement::If { condition: var("b"), if_block: vec![decl(Type::Int, "inside", lit_int(1))] };
    assert_eq!(analyzer.visit_statement(&block), Ok(()));
    assert_eq!(analyzer.lookup("inside"), Some(Type::Int));
    assert_eq!(analyzer.visit_statement(&Statement::Expression(set("inside", lit_int(2)))), Ok(()));
    assert_eq!(
        analyzer.visit_statement(&decl(Type::Int, "inside", lit_int(3))),
        Err(SemanticError::Redeclaration { name: text("inside") })
    );
}

#[test]
fn block_cannot_shadow() {
    // int v = 1; if (b) { float v = 1.0; }
    let mut analyzer = SemanticAnalyzer::new();
    let function = func(
        vec![param(Type::Bool, "b")],
        vec![
            decl(Type::Int, "v", lit_int(1)),
            Statement::If { condition: var("b"), if_block: vec![decl(Type::Float, "v", lit_float(1.0))] },
        ],
    );
    assert_eq!(analyzer.analyze(&function), Err(SemanticError::Redeclaration { name: text("v") }));
    assert_eq!(analyzer.lookup("v"), Some(Type::Int));
}

#[test]
fn nested_blocks_are_walked_in_the_order_of_the_text() {
    // if (b) { int one = 1; if (b) { int two = one; } int three = two; } int four = three;
    let mut analyzer = bound_analyzer();
    let statement = Statement::If {
        condition: var("b"),
        if_block: vec![
            decl(Type::Int, "one", lit_int(1)),
            Statement::If { condition: var("b"), if_block: vec![decl(Type::Int, "two", var("one"))] },
            decl(Type::Int, "three", var("two")),
        ],
    };
    assert_eq!(analyzer.visit_statement(&statement), Ok(()));
    assert_eq!(analyzer.visit_statement(&decl(Type::Int, "four", var("three"))), Ok(()));
    assert_eq!(analyzer.symbol_count(), 7);
}

#[test]
fn walk_stops_at_the_first_error() {
    // int one = 1; two = 1; int one = 2; assert(1);
    let mut analyzer = SemanticAnalyzer::new();
    let function = func(
        vec![],
        vec![
            decl(Type::Int, "one", lit_int(1)),
            Statement::Expression(set("two", lit_int(1))),
            decl(Type::Int, "one", lit_int(2)),
            Statement::Assert { condition: lit_int(1) },
        ],
    );
    assert_eq!(
        analyzer.analyze(&function),
        Err(SemanticError::UndeclaredVariable { name: text("two"), usage: Usage::Assignment })
    );
    assert_eq!(analyzer.symbol_count(), 1);
    assert_eq!(analyzer.lookup("one"), Some(Type::Int));
}

#[test]
fn error_in_a_block_ends_the_walk() {
    // if (true) { int kept = 1; assert(kept); int lost = 2; } int after = 3;
    let mut analyzer = SemanticAnalyzer::new();
    let function = func(
        vec![],
        vec![
            Statement::If {
                condition: lit_bool(true),
                if_block: vec![
                    decl(Type::Int, "kept", lit_int(1)),
                    Statement::Assert { condition: var("kept") },
                    decl(Type::Int, "lost", lit_int(2)),
                ],
            },
            decl(Type::Int, "after", lit_int(3)),
        ],
    );
    assert_eq!(
        analyzer.analyze(&function),
        Err(SemanticError::ConditionNotBoolean { site: ConditionSite::Assert })
    );
    assert_eq!(analyzer.lookup("kept"), Some(Type::Int));
    assert_eq!(analyzer.lookup("lost"), None);
    assert_eq!(analyzer.lookup("after"), None);
    assert_eq!(analyzer.symbol_count(), 1);
}

#[test]
fn use_before_declaration_is_undeclared() {
    // int early = late; int late = 1;
    let mut analyzer = SemanticAnalyzer::new();
    let function =
        func(vec![], vec![decl(Type::Int, "early", var("late")), decl(Type::Int, "late", lit_int(1))]);
    assert_eq!(
        analyzer.analyze(&function),
        Err(SemanticError::UndeclaredVariable { name: text("late"), usage: Usage::Read })
    );
    assert_eq!(analyzer.symbol_count(), 0);
}

#[test]
fn deep_expression_is_typed() {
    let analyzer = bound_analyzer();
    let mut expression = var("x");
    for _ in 0..200 {
        expression = op(BinaryOp::Add, expression, lit_int(1));
    }
    assert_eq!(analyzer.visit_expression(&expression), Ok(Type::Float));
    let mut broken = var("missing");
    for _ in 0..200 {
        broken = op(BinaryOp::Add, lit_int(1), broken);
    }
    assert_eq!(
        analyzer.visit_expression(&broken),
        Err(SemanticError::UndeclaredVariable { name: text("missing"), usage: Usage::Read })
    );
}

#[test]
fn new_analyzer_binds_nothing() {
    let analyzer = SemanticAnalyzer::new();
    assert_eq!(analyzer.symbol_count(), 0);
    assert_eq!(analyzer.lookup("a"), None);
    assert_eq!(analyzer.lookup(""), None);
}
