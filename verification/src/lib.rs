//! A small expression-oriented language: a lexer and parser, scopes, types and
//! a type checker, lowering to an intermediate representation of basic blocks,
//! and, for the first version of the language, a tree-walking interpreter, a
//! type checker and a compiler to bytecode.
use vstd::prelude::*;

pub mod ast;
pub mod codegen;
pub mod compiler;
pub mod ident;
pub mod ir;
pub mod lower;
pub mod parse;
pub mod scope;
pub mod stages;
pub mod ty;
pub mod type_check;

verus! {

} // verus!
