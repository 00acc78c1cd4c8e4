//! Semantic analysis for a small shading language.
//!
//! The crate holds the syntax tree of a single function definition and the
//! analyzer that walks it: every identifier must be bound before it is used,
//! every declaration and assignment must agree in type, and the condition of
//! an `if` or an `assert` must be boolean. The first rule that is broken, in
//! the order in which the tree is walked, is the one that is reported.
//!
//! * [`ast`] is the tree and its mathematical view.
//! * [`error`] is the diagnostic that a rejected function gets.
//! * [`rules`] states, as specification functions, what the walk decides.
//! * [`semantic`] is the executable analyzer, proved against [`rules`].
//! * [`linear`] reads a function body as one flat sequence of steps.
//! * [`typing`] says what a well-typed function is, without a walk.
//! * [`bindings`], [`acceptance`], [`rejection`] and [`reuse`] prove what
//!   follows from the rules: which functions are accepted and what table
//!   they leave, which error a rejected one gets, and what a second use of
//!   an analyzer does.

pub mod ast;
pub mod error;
pub mod rules;
pub mod semantic;
pub mod linear;
pub mod typing;
pub mod bindings;
pub mod acceptance;
pub mod rejection;
pub mod reuse;


