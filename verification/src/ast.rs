//! Syntax trees of the language: the untyped tree that the parser produces,
//! and the typed tree that the type checker produces from it.
use vstd::prelude::*;

pub mod typed;
pub mod untyped;

verus! {

/// A binary operation between two expressions.
#[derive(Clone, Copy, Debug, PartialEq, Eq, Hash, Structural)]
pub enum InfixOperation {
    Plus,
    Minus,
    Multiply,
    Divide,
    And,
    Or,
    Eq,
    NotEq,
    Greater,
    Less,
    GreaterEq,
    LessEq,
}

} // verus!
