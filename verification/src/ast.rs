//! The syntax trees of the language: types, expressions and statements.
//!
//! These are pure data. A program is an ordered sequence of statements;
//! each composite node exclusively owns its children, so every tree is
//! finite and strictly tree-shaped.

use vstd::prelude::*;

verus! {

/// A type of the language. The variant set is closed; equality is
/// structural: two types are equal exactly when they carry the same
/// variant and, recursively, equal components.
#[derive(Debug)]
pub enum Type {
    Int32,
    String,
    Pair(Box<Type>, Box<Type>),
    Reference(Box<Type>),
}

/// An expression of the language. Literals carry their value; `ReferenceOf`
/// and `Get` name a binding of the enclosing scope.
#[derive(Debug)]
pub enum Expr {
    IntLiteral(i32),
    StringLiteral(String),
    Pair(Box<Expr>, Box<Expr>),
    First(Box<Expr>),
    Second(Box<Expr>),
    ReferenceOf(String),
    Add(Box<Expr>, Box<Expr>),
    Get(String),
    Dereference(Box<Expr>),
}

/// A statement: a nested scope, or a binding with an explicit type
/// annotation. `Let` introduces a binding meant for shared use, `LetMut`
/// one meant for exclusive (mutable) reference use; the distinction
/// matters only to the borrow checker.
#[derive(Debug)]
pub enum Statement {
    Scope(Vec<Statement>),
    Let(String, Type, Box<Expr>),
    LetMut(String, Type, Box<Expr>),
}

/// Structural equality of two types, spelled out variant by variant:
/// the same variant with recursively equal components.
pub open spec fn type_structural_eq(a: Type, b: Type) -> bool
    decreases a,
{
    match (a, b) {
        (Type::Int32, Type::Int32) => true,
        (Type::String, Type::String) => true,
        (Type::Pair(a1, a2), Type::Pair(b1, b2)) => {
            type_structural_eq(*a1, *b1) && type_structural_eq(*a2, *b2)
        },
        (Type::Reference(a1), Type::Reference(b1)) => type_structural_eq(*a1, *b1),
        _ => false,
    }
}

/// Equality of types is structural, reflexive and symmetric: `a == b`
/// holds exactly when the two are the same variant with equal components,
/// every type equals itself, and the relation does not depend on the
/// order of its arguments.
pub proof fn lemma_type_eq_structural(a: Type, b: Type)
    ensures
        (a == b) <==> type_structural_eq(a, b),
        type_structural_eq(a, a),
        type_structural_eq(a, b) == type_structural_eq(b, a),
    decreases a,
{
    match (a, b) {
        (Type::Pair(a1, a2), Type::Pair(b1, b2)) => {
            lemma_type_eq_structural(*a1, *b1);
            lemma_type_eq_structural(*a2, *b2);
            lemma_type_eq_structural(*a1, *a1);
            lemma_type_eq_structural(*a2, *a2);
        },
        (Type::Reference(a1), Type::Reference(b1)) => {
            lemma_type_eq_structural(*a1, *b1);
            lemma_type_eq_structural(*a1, *a1);
        },
        (Type::Pair(a1, a2), _) => {
            lemma_type_eq_structural(*a1, *a1);
            lemma_type_eq_structural(*a2, *a2);
        },
        (Type::Reference(a1), _) => {
            lemma_type_eq_structural(*a1, *a1);
        },
        _ => {},
    }
}

/// Decides equality of two types; the result agrees with spec-level
/// equality of the operands.
pub fn type_eq(a: &Type, b: &Type) -> (r: bool)
    ensures
        r <==> (*a == *b),
    decreases *a,
{
    match (a, b) {
        (Type::Int32, Type::Int32) => true,
        (Type::String, Type::String) => true,
        (Type::Pair(a1, a2), Type::Pair(b1, b2)) => type_eq(&**a1, &**b1) && type_eq(&**a2, &**b2),
        (Type::Reference(a1), Type::Reference(b1)) => type_eq(&**a1, &**b1),
        _ => false,
    }
}

impl PartialEq for Type {
    fn eq(&self, other: &Type) -> bool {
        type_eq(self, other)
    }
}

impl Eq for Type {
}

impl vstd::std_specs::cmp::PartialEqSpecImpl for Type {
    open spec fn obeys_eq_spec() -> bool {
        true
    }

    open spec fn eq_spec(&self, other: &Type) -> bool {
        *self == *other
    }
}

impl Clone for Type {
    /// Deep copy: the clone is equal to the original.
    fn clone(&self) -> (r: Type)
        ensures
            r == *self,
        decreases *self,
    {
        match self {
            Type::Int32 => Type::Int32,
            Type::String => Type::String,
            Type::Pair(a, b) => Type::Pair(Box::new((&**a).clone()), Box::new((&**b).clone())),
            Type::Reference(t) => Type::Reference(Box::new((&**t).clone())),
        }
    }
}

} // verus!
