//! Static analysis for a small expression-oriented teaching language.
//!
//! Programs are supplied as in-memory syntax trees. Two independent passes
//! are offered: a type checker, which infers the type of every expression
//! and holds it against the declared annotations, and a borrow checker,
//! which enforces a shared-xor-exclusive discipline on references. Both
//! passes are pure traversals that stop at the first fault.

pub mod ast;
pub mod borrow;
pub mod typing;
