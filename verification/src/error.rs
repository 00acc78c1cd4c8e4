//! The diagnostic that a rejected function gets.
//!
//! An analysis stops at the first rule that is broken, so a rejected
//! function gets exactly one [`SemanticError`]. It carries what a caller
//! needs to render it: the variable's name and, for a mismatch, both types.

use vstd::prelude::*;
use vstd::std_specs::cmp::PartialEqSpecImpl;
use vstd::string::*;
use crate::ast::Type;

verus! {

/// How an expression uses a variable's name.
#[derive(Debug, Clone, Copy, PartialEq, Eq, Structural)]
pub enum Usage {
    /// The name is read, as an identifier.
    Read,
    /// The name is the target of an assignment.
    Assignment,
}

/// The statement that a condition belongs to.
#[derive(Debug, Clone, Copy, PartialEq, Eq, Structural)]
pub enum ConditionSite {
    If,
    Assert,
}

/// Why a function was rejected.
#[derive(Debug, Eq)]
pub enum SemanticError {
    /// A declaration names a variable that is already bound.
    Redeclaration { name: String },
    /// An identifier or an assignment names a variable that is not bound yet.
    UndeclaredVariable { name: String, usage: Usage },
    /// An initializer has another type than the declaration gives.
    DeclarationTypeMismatch { name: String, declared: Type, found: Type },
    /// An assigned value has another type than the variable is bound to.
    AssignmentTypeMismatch { name: String, variable: Type, assigned: Type },
    /// The condition of an `if` or an `assert` is not of type `Bool`.
    ConditionNotBoolean { site: ConditionSite },
}

/// The view of a [`SemanticError`].
pub enum ErrorView {
    Redeclaration { name: Seq<char> },
    UndeclaredVariable { name: Seq<char>, usage: Usage },
    DeclarationTypeMismatch { name: Seq<char>, declared: Type, found: Type },
    AssignmentTypeMismatch { name: Seq<char>, variable: Type, assigned: Type },
    ConditionNotBoolean { site: ConditionSite },
}

impl ErrorView {
    /// The text of the diagnostic.
    pub open spec fn message(self) -> Seq<char> {
        match self {
            ErrorView::Redeclaration { name } => "Redeclaration of variable: "@ + name,
            ErrorView::UndeclaredVariable { name, usage: Usage::Read } => "Undeclared variable: "@ + name,
            ErrorView::UndeclaredVariable { name, usage: Usage::Assignment } => {
                "Undeclared variable in assignment: "@ + name
            },
            ErrorView::DeclarationTypeMismatch { name, declared, found } => {
                "Type mismatch in declaration of '"@ + name + "': declared "@ + declared.spelling()
                    + ", got "@ + found.spelling()
            },
            ErrorView::AssignmentTypeMismatch { name, variable, assigned } => {
                "Type mismatch in assignment to '"@ + name + "': variable "@ + variable.spelling()
                    + ", assigned "@ + assigned.spelling()
            },
            ErrorView::ConditionNotBoolean { site: ConditionSite::If } => "If condition must be a bool"@,
            ErrorView::ConditionNotBoolean { site: ConditionSite::Assert } => {
                "Assert condition must be a bool"@
            },
        }
    }
}

impl SemanticError {
    pub open spec fn view(&self) -> ErrorView {
        match self {
            SemanticError::Redeclaration { name } => ErrorView::Redeclaration { name: name@ },
            SemanticError::UndeclaredVariable { name, usage } => ErrorView::UndeclaredVariable {
                name: name@,
                usage: *usage,
            },
            SemanticError::DeclarationTypeMismatch { name, declared, found } => {
                ErrorView::DeclarationTypeMismatch { name: name@, declared: *declared, found: *found }
            },
            SemanticError::AssignmentTypeMismatch { name, variable, assigned } => {
                ErrorView::AssignmentTypeMismatch { name: name@, variable: *variable, assigned: *assigned }
            },
            SemanticError::ConditionNotBoolean { site } => ErrorView::ConditionNotBoolean { site: *site },
        }
    }

    /// Renders the diagnostic as one line of text.
    pub fn message(&self) -> (text: String)
        ensures
            text@ == self@.message(),
    {
        match self {
            SemanticError::Redeclaration { name } => {
                let mut text = String::from_str("Redeclaration of variable: ");
                text.append(name.as_str());
                text
            },
            SemanticError::UndeclaredVariable { name, usage } => {
                let mut text = match usage {
                    Usage::Read => String::from_str("Undeclared variable: "),
                    Usage::Assignment => String::from_str("Undeclared variable in assignment: "),
                };
                text.append(name.as_str());
                text
            },
            SemanticError::DeclarationTypeMismatch { name, declared, found } => {
                let mut text = String::from_str("Type mismatch in declaration of '");
                text.append(name.as_str());
                text.append("': declared ");
                text.append(declared.name());
                text.append(", got ");
                text.append(found.name());
                text
            },
            SemanticError::AssignmentTypeMismatch { name, variable, assigned } => {
                let mut text = String::from_str("Type mismatch in assignment to '");
                text.append(name.as_str());
                text.append("': variable ");
                text.append(variable.name());
                text.append(", assigned ");
                text.append(assigned.name());
                text
            },
            SemanticError::ConditionNotBoolean { site } => {
                match site {
                    ConditionSite::If => String::from_str("If condition must be a bool"),
                    ConditionSite::Assert => String::from_str("Assert condition must be a bool"),
                }
            },
        }
    }
}

impl PartialEq for SemanticError {
    fn eq(&self, other: &Self) -> (equal: bool) {
        match self {
            SemanticError::Redeclaration { name } => match other {
                SemanticError::Redeclaration { name: other_name } => *name == *other_name,
                _ => false,
            },
            SemanticError::UndeclaredVariable { name, usage } => match other {
                SemanticError::UndeclaredVariable { name: other_name, usage: other_usage } => {
                    *name == *other_name && *usage == *other_usage
                },
                _ => false,
            },
            SemanticError::DeclarationTypeMismatch { name, declared, found } => match other {
                SemanticError::DeclarationTypeMismatch {
                    name: other_name,
                    declared: other_declared,
                    found: other_found,
                } => *name == *other_name && *declared == *other_declared && *found == *other_found,
                _ => false,
            },
            SemanticError::AssignmentTypeMismatch { name, variable, assigned } => match other {
                SemanticError::AssignmentTypeMismatch {
                    name: other_name,
                    variable: other_variable,
                    assigned: other_assigned,
                } => *name == *other_name && *variable == *other_variable && *assigned == *other_assigned,
                _ => false,
            },
            SemanticError::ConditionNotBoolean { site } => match other {
                SemanticError::ConditionNotBoolean { site: other_site } => *site == *other_site,
                _ => false,
            },
        }
    }
}

impl PartialEqSpecImpl for SemanticError {
    open spec fn obeys_eq_spec() -> bool {
        true
    }

    open spec fn eq_spec(&self, other: &Self) -> bool {
        self.view() == other.view()
    }
}

} // verus!
