//! The first version of the language: its tokens and syntax tree, a tree-walking
//! interpreter, a type checker and a compiler to bytecode.
use vstd::prelude::*;

pub mod ast;
pub mod code;
pub mod compiler;
pub mod interpreter;
pub mod object;
pub mod token;
pub mod type_checker;

verus! {

} // verus!
