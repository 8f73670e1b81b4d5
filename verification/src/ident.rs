//! Identifiers shared by the stages of the compiler.
use vstd::prelude::*;

verus! {

/// An interned string, as handed out by the symbol map.
#[derive(Clone, Copy, Debug, PartialEq, Eq, Hash, Structural)]
pub struct Symbol(pub usize);

/// The identifier of a registered function.
#[derive(Clone, Copy, Debug, PartialEq, Eq, Hash, Structural)]
pub struct FunctionIdx(pub usize);

/// A binding within a specific scope: the scope's index and the binding's index in it.
#[derive(Clone, Copy, Debug, PartialEq, Eq, Hash, Structural)]
pub struct ScopedBinding(pub usize, pub usize);

/// A range of bytes in the source text.
#[derive(Clone, Copy, Debug, PartialEq, Eq, Hash, Default, Structural)]
pub struct Span {
    pub start: usize,
    pub end: usize,
}

} // verus!
