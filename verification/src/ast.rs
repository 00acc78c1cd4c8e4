//! The syntax tree of one function definition, and its view.
//!
//! Each node owns its children. The view of a node is the same tree with
//! every `String` read as a `Seq<char>` and every `Vec` as a `Seq`; the
//! rules of the analysis are stated over views.

use vstd::prelude::*;
use vstd::std_specs::cmp::PartialEqSpecImpl;

verus! {

/// The type of a value. No two variants convert into one another.
#[derive(Debug, Clone, Copy, PartialEq, Eq, Structural)]
pub enum Type {
    Float,
    Int,
    Bool,
}

/// The operator of a binary expression.
#[derive(Debug, Clone, Copy, PartialEq, Eq, Structural)]
pub enum BinaryOp {
    Add,
    Subtract,
    Multiply,
    Divide,
    Equal,
    NotEqual,
    LessThan,
    GreaterThan,
    LessThanOrEqual,
    GreaterThanOrEqual,
}

/// A parameter of the function: a name and the type it is bound to.
#[derive(Debug, Eq)]
pub struct Parameter {
    pub declared_type: Type,
    pub name: String,
}

/// An expression.
#[derive(Debug, Eq)]
pub enum Expression {
    /// A read of a variable.
    Identifier(String),
    IntLiteral(i64),
    /// A floating-point literal, held as the IEEE 754 bit pattern of the
    /// double-precision value.
    FloatLiteral(u64),
    BoolLiteral(bool),
    BinaryOp { op: BinaryOp, left: Box<Expression>, right: Box<Expression> },
    /// A write to an existing variable; its value is the variable's.
    Assignment { name: String, value: Box<Expression> },
}

/// A statement.
#[derive(Debug, Eq)]
pub enum Statement {
    /// Introduces a variable, bound from the next statement on.
    Declaration { declared_type: Type, name: String, initializer: Box<Expression> },
    /// A conditional without an else branch. Its block opens no scope.
    If { condition: Box<Expression>, if_block: Vec<Statement> },
    /// An expression whose value is dropped.
    Expression(Box<Expression>),
    Assert { condition: Box<Expression> },
}

/// A function definition: the unit that is analyzed.
#[derive(Debug, Eq)]
pub struct FunctionDefinition {
    pub return_type: Type,
    pub name: String,
    pub params: Vec<Parameter>,
    pub body: Vec<Statement>,
}

/// A name together with the type it is bound to: the view of a parameter,
/// and what a declaration adds to the symbol table.
pub struct Binding {
    pub declared_type: Type,
    pub name: Seq<char>,
}

/// The view of an [`Expression`].
pub enum ExpressionView {
    Identifier(Seq<char>),
    IntLiteral(i64),
    FloatLiteral(u64),
    BoolLiteral(bool),
    BinaryOp { op: BinaryOp, left: Box<ExpressionView>, right: Box<ExpressionView> },
    Assignment { name: Seq<char>, value: Box<ExpressionView> },
}

/// The view of a [`Statement`].
pub enum StatementView {
    Declaration { declared_type: Type, name: Seq<char>, initializer: ExpressionView },
    If { condition: ExpressionView, if_block: Seq<StatementView> },
    Expression(ExpressionView),
    Assert { condition: ExpressionView },
}

/// The view of a [`FunctionDefinition`].
pub struct FunctionView {
    pub return_type: Type,
    pub name: Seq<char>,
    pub params: Seq<Binding>,
    pub body: Seq<StatementView>,
}

impl Type {
    /// The variant's name, as a diagnostic spells it.
    pub open spec fn spelling(self) -> Seq<char> {
        match self {
            Type::Float => "Float"@,
            Type::Int => "Int"@,
            Type::Bool => "Bool"@,
        }
    }

    /// The variant's name.
    pub fn name(self) -> (text: &'static str)
        ensures
            text@ == self.spelling(),
    {
        match self {
            Type::Float => "Float",
            Type::Int => "Int",
            Type::Bool => "Bool",
        }
    }
}

impl Parameter {
    pub open spec fn view(&self) -> Binding {
        Binding { declared_type: self.declared_type, name: self.name@ }
    }
}

impl Expression {
    pub open spec fn view(&self) -> ExpressionView
        decreases self,
    {
        match self {
            Expression::Identifier(name) => ExpressionView::Identifier(name@),
            Expression::IntLiteral(value) => ExpressionView::IntLiteral(*value),
            Expression::FloatLiteral(bits) => ExpressionView::FloatLiteral(*bits),
            Expression::BoolLiteral(value) => ExpressionView::BoolLiteral(*value),
            Expression::BinaryOp { op, left, right } => ExpressionView::BinaryOp {
                op: *op,
                left: Box::new(left.view()),
                right: Box::new(right.view()),
            },
            Expression::Assignment { name, value } => ExpressionView::Assignment {
                name: name@,
                value: Box::new(value.view()),
            },
        }
    }
}

impl Statement {
    pub open spec fn view(&self) -> StatementView
        decreases self,
    {
        match self {
            Statement::Declaration { declared_type, name, initializer } => StatementView::Declaration {
                declared_type: *declared_type,
                name: name@,
                initializer: initializer.view(),
            },
            Statement::If { condition, if_block } => StatementView::If {
                condition: condition.view(),
                if_block: block_view(if_block@),
            },
            Statement::Expression(expression) => StatementView::Expression(expression.view()),
            Statement::Assert { condition } => StatementView::Assert { condition: condition.view() },
        }
    }
}

impl FunctionDefinition {
    pub open spec fn view(&self) -> FunctionView {
        FunctionView {
            return_type: self.return_type,
            name: self.name@,
            params: params_view(self.params@),
            body: block_view(self.body@),
        }
    }
}

/// The views of a run of statements, in order.
pub open spec fn block_view(statements: Seq<Statement>) -> Seq<StatementView>
    decreases statements,
{
    if statements.len() == 0 {
        Seq::empty()
    } else {
        block_view(statements.drop_last()).push(statements.last().view())
    }
}

/// The views of a parameter list, in order.
pub open spec fn params_view(params: Seq<Parameter>) -> Seq<Binding> {
    Seq::new(params.len(), |i: int| params[i].view())
}

/// `block_view` keeps the length and views each statement in its place.
pub proof fn lemma_block_view(statements: Seq<Statement>)
    ensures
        block_view(statements).len() == statements.len(),
        forall|i: int| 0 <= i < statements.len() ==> (#[trigger] block_view(statements)[i]) == statements[i].view(),
    decreases statements.len(),
{
    if statements.len() > 0 {
        lemma_block_view(statements.drop_last());
    }
}

impl PartialEq for Expression {
    fn eq(&self, other: &Self) -> (equal: bool)
        decreases self,
    {
        match self {
            Expression::Identifier(name) => match other {
                Expression::Identifier(other_name) => *name == *other_name,
                _ => false,
            },
            Expression::IntLiteral(value) => match other {
                Expression::IntLiteral(other_value) => *value == *other_value,
                _ => false,
            },
            Expression::FloatLiteral(bits) => match other {
                Expression::FloatLiteral(other_bits) => *bits == *other_bits,
                _ => false,
            },
            Expression::BoolLiteral(value) => match other {
                Expression::BoolLiteral(other_value) => *value == *other_value,
                _ => false,
            },
            Expression::BinaryOp { op, left, right } => match other {
                Expression::BinaryOp { op: other_op, left: other_left, right: other_right } => {
                    *op == *other_op && **left == **other_left && **right == **other_right
                },
                _ => false,
            },
            Expression::Assignment { name, value } => match other {
                Expression::Assignment { name: other_name, value: other_value } => {
                    *name == *other_name && **value == **other_value
                },
                _ => false,
            },
        }
    }
}

impl PartialEqSpecImpl for Expression {
    open spec fn obeys_eq_spec() -> bool {
        true
    }

    open spec fn eq_spec(&self, other: &Self) -> bool {
        self.view() == other.view()
    }
}

/// Whether two runs of statements are the same, one by one.
fn same_block(block: &Vec<Statement>, other: &Vec<Statement>) -> (equal: bool)
    ensures
        equal == (block_view(block@) == block_view(other@)),
    decreases block@,
{
    proof {
        lemma_block_view(block@);
        lemma_block_view(other@);
    }
    if block.len() != other.len() {
        return false;
    }
    let mut at: usize = 0;
    while at < block.len()
        invariant
            at <= block.len(),
            block.len() == other.len(),
            block_view(block@).len() == block.len(),
            block_view(other@).len() == other.len(),
            forall|i: int| 0 <= i < block.len() ==> (#[trigger] block_view(block@)[i]) == block@[i].view(),
            forall|i: int| 0 <= i < other.len() ==> (#[trigger] block_view(other@)[i]) == other@[i].view(),
            forall|i: int| 0 <= i < at ==> (#[trigger] block@[i]).view() == other@[i].view(),
        decreases block.len() - at,
    {
        if !(block[at] == other[at]) {
            assert(block_view(block@)[at as int] != block_view(other@)[at as int]);
            return false;
        }
        at += 1;
    }
    assert(block_view(block@) =~= block_view(other@));
    true
}

impl PartialEq for Statement {
    fn eq(&self, other: &Self) -> (equal: bool)
        decreases self,
    {
        match self {
            Statement::Declaration { declared_type, name, initializer } => match other {
                Statement::Declaration {
                    declared_type: other_type,
                    name: other_name,
                    initializer: other_initializer,
                } => *declared_type == *other_type && *name == *other_name && **initializer == **other_initializer,
                _ => false,
            },
            Statement::If { condition, if_block } => match other {
                Statement::If { condition: other_condition, if_block: other_block } => {
                    **condition == **other_condition && same_block(if_block, other_block)
                },
                _ => false,
            },
            Statement::Expression(expression) => match other {
                Statement::Expression(other_expression) => **expression == **other_expression,
                _ => false,
            },
            Statement::Assert { condition } => match other {
                Statement::Assert { condition: other_condition } => **condition == **other_condition,
                _ => false,
            },
        }
    }
}

impl PartialEqSpecImpl for Statement {
    open spec fn obeys_eq_spec() -> bool {
        true
    }

    open spec fn eq_spec(&self, other: &Self) -> bool {
        self.view() == other.view()
    }
}

impl PartialEq for Parameter {
    fn eq(&self, other: &Self) -> (equal: bool) {
        self.declared_type == other.declared_type && self.name == other.name
    }
}

impl PartialEqSpecImpl for Parameter {
    open spec fn obeys_eq_spec() -> bool {
        true
    }

    open spec fn eq_spec(&self, other: &Self) -> bool {
        self.view() == other.view()
    }
}

/// Whether two parameter lists are the same, one by one.
fn same_params(params: &Vec<Parameter>, other: &Vec<Parameter>) -> (equal: bool)
    ensures
        equal == (params_view(params@) == params_view(other@)),
{
    if params.len() != other.len() {
        assert(params_view(params@).len() != params_view(other@).len());
        return false;
    }
    let mut at: usize = 0;
    while at < params.len()
        invariant
            at <= params.len(),
            params.len() == other.len(),
            forall|i: int| 0 <= i < at ==> (#[trigger] params@[i]).view() == other@[i].view(),
        decreases params.len() - at,
    {
        if !(params[at] == other[at]) {
            assert(params_view(params@)[at as int] != params_view(other@)[at as int]);
            return false;
        }
        at += 1;
    }
    assert(params_view(params@) =~= params_view(other@));
    true
}

impl PartialEq for FunctionDefinition {
    fn eq(&self, other: &Self) -> (equal: bool) {
        self.return_type == other.return_type && self.name == other.name && same_params(
            &self.params,
            &other.params,
        ) && same_block(&self.body, &other.body)
    }
}

impl PartialEqSpecImpl for FunctionDefinition {
    open spec fn obeys_eq_spec() -> bool {
        true
    }

    open spec fn eq_spec(&self, other: &Self) -> bool {
        self.view() == other.view()
    }
}

} // verus!
