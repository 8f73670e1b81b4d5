//! The intermediate representation: functions made of basic blocks of
//! three-address instructions, each block ended by a terminator.
use vstd::prelude::*;

use crate::ast::InfixOperation;
use crate::ident::{FunctionIdx, ScopedBinding};
use crate::ty::FunctionSignature;

verus! {

/// The index of a basic block within its function.
#[derive(Clone, Copy, Debug, PartialEq, Eq, Structural)]
pub struct BasicBlockIdx(pub usize);

/// The index of an instruction within its basic block.
#[derive(Clone, Copy, Debug, PartialEq, Eq, Structural)]
pub struct TripleIdx(pub usize);

/// Where an instruction is: its basic block and its index there.
#[derive(Clone, Copy, Debug, PartialEq, Eq, Structural)]
pub struct TripleRef {
    pub basic_block: BasicBlockIdx,
    pub triple: TripleIdx,
}

/// A constant.
#[derive(Clone, Copy, Debug, PartialEq, Eq, Structural)]
pub enum ConstantValue {
    Integer(i64),
    Boolean(bool),
}

/// An operand.
#[derive(Clone, Copy, Debug, PartialEq, Eq, Structural)]
pub enum Value {
    /// A constant.
    Constant(ConstantValue),
    /// The result of an instruction.
    Triple(TripleRef),
    /// The parameter of the function at this position.
    Parameter(usize),
    /// The address of the memory that an instruction allocated.
    Pointer(TripleRef),
    /// No value.
    Unit,
}

impl Value {
    /// An integer constant.
    pub fn integer(value: i64) -> (r: Value)
        ensures
            r == Value::Constant(ConstantValue::Integer(value)),
    {
        Value::Constant(ConstantValue::Integer(value))
    }

    /// A boolean constant.
    pub fn boolean(value: bool) -> (r: Value)
        ensures
            r == Value::Constant(ConstantValue::Boolean(value)),
    {
        Value::Constant(ConstantValue::Boolean(value))
    }
}

/// An operation on two operands.
#[derive(Clone, Copy, Debug, PartialEq, Eq, Structural)]
pub enum BinaryOp {
    Add,
    Sub,
    Mul,
    Div,
    Eq,
    NotEq,
    Greater,
    Less,
    GreaterEq,
    LessEq,
    And,
    Or,
}

/// The operation of an infix operator.
pub open spec fn binary_op(op: InfixOperation) -> BinaryOp {
    match op {
        InfixOperation::Plus => BinaryOp::Add,
        InfixOperation::Minus => BinaryOp::Sub,
        InfixOperation::Multiply => BinaryOp::Mul,
        InfixOperation::Divide => BinaryOp::Div,
        InfixOperation::Eq => BinaryOp::Eq,
        InfixOperation::NotEq => BinaryOp::NotEq,
        InfixOperation::Greater => BinaryOp::Greater,
        InfixOperation::Less => BinaryOp::Less,
        InfixOperation::GreaterEq => BinaryOp::GreaterEq,
        InfixOperation::LessEq => BinaryOp::LessEq,
        InfixOperation::And => BinaryOp::And,
        InfixOperation::Or => BinaryOp::Or,
    }
}

impl From<InfixOperation> for BinaryOp {
    fn from(op: InfixOperation) -> (r: BinaryOp) {
        match op {
            InfixOperation::Plus => BinaryOp::Add,
            InfixOperation::Minus => BinaryOp::Sub,
            InfixOperation::Multiply => BinaryOp::Mul,
            InfixOperation::Divide => BinaryOp::Div,
            InfixOperation::Eq => BinaryOp::Eq,
            InfixOperation::NotEq => BinaryOp::NotEq,
            InfixOperation::Greater => BinaryOp::Greater,
            InfixOperation::Less => BinaryOp::Less,
            InfixOperation::GreaterEq => BinaryOp::GreaterEq,
            InfixOperation::LessEq => BinaryOp::LessEq,
            InfixOperation::And => BinaryOp::And,
            InfixOperation::Or => BinaryOp::Or,
        }
    }
}

impl vstd::std_specs::convert::FromSpecImpl<InfixOperation> for BinaryOp {
    open spec fn obeys_from_spec() -> bool {
        true
    }

    open spec fn from_spec(op: InfixOperation) -> BinaryOp {
        binary_op(op)
    }
}

/// An instruction.
#[derive(Debug)]
pub enum Triple {
    BinaryOp { lhs: Value, rhs: Value, op: BinaryOp },
    /// Read the value bound to a name.
    Load(ScopedBinding),
    /// Bind a value to a name.
    Assign(ScopedBinding, Value),
    /// Call a function with arguments.
    Call(FunctionIdx, Vec<Value>),
    /// The value that came from the predecessor block that was run.
    Phi(Vec<(Value, BasicBlockIdx)>),
    /// Read an item of the array bound to a name.
    Index { value: ScopedBinding, index: Value },
    /// Write an item of an allocated array.
    SetIndex { array_ptr: TripleRef, index: Value, value: Value },
    /// Allocate an array of this many items.
    AllocArray(u32),
}

/// The model of an instruction: lists as sequences.
pub ghost enum TripleView {
    BinaryOp { lhs: Value, rhs: Value, op: BinaryOp },
    Load(ScopedBinding),
    Assign(ScopedBinding, Value),
    Call(FunctionIdx, Seq<Value>),
    Phi(Seq<(Value, BasicBlockIdx)>),
    Index { value: ScopedBinding, index: Value },
    SetIndex { array_ptr: TripleRef, index: Value, value: Value },
    AllocArray(u32),
}

impl View for Triple {
    type V = TripleView;

    open spec fn view(&self) -> TripleView {
        match self {
            Triple::BinaryOp { lhs, rhs, op } => TripleView::BinaryOp { lhs: *lhs, rhs: *rhs, op: *op },
            Triple::Load(b) => TripleView::Load(*b),
            Triple::Assign(b, v) => TripleView::Assign(*b, *v),
            Triple::Call(f, args) => TripleView::Call(*f, args@),
            Triple::Phi(values) => TripleView::Phi(values@),
            Triple::Index { value, index } => TripleView::Index { value: *value, index: *index },
            Triple::SetIndex { array_ptr, index, value } => TripleView::SetIndex { array_ptr: *array_ptr, index: *index, value: *value },
            Triple::AllocArray(n) => TripleView::AllocArray(*n),
        }
    }
}

/// How a basic block ends.
#[derive(Debug)]
pub enum Terminator {
    /// Return from the function.
    Return(Value),
    /// Continue in another block.
    Jump(BasicBlockIdx),
    /// Continue in the block paired with the first value equal to `value`, or
    /// in `default`.
    Switch { value: Value, default: BasicBlockIdx, branches: Vec<(Value, BasicBlockIdx)> },
}

/// The model of a terminator.
pub ghost enum TerminatorView {
    Return(Value),
    Jump(BasicBlockIdx),
    Switch { value: Value, default: BasicBlockIdx, branches: Seq<(Value, BasicBlockIdx)> },
}

impl View for Terminator {
    type V = TerminatorView;

    open spec fn view(&self) -> TerminatorView {
        match self {
            Terminator::Return(v) => TerminatorView::Return(*v),
            Terminator::Jump(b) => TerminatorView::Jump(*b),
            Terminator::Switch { value, default, branches } => TerminatorView::Switch {
                value: *value,
                default: *default,
                branches: branches@,
            },
        }
    }
}

/// A basic block: instructions, then a terminator.
#[derive(Debug)]
pub struct BasicBlock {
    pub triples: Vec<Triple>,
    pub terminator: Terminator,
}

/// A function in the intermediate representation.
#[derive(Debug)]
pub struct Function {
    pub identifier: FunctionIdx,
    pub signature: FunctionSignature,
    pub basic_blocks: Vec<BasicBlock>,
    pub scope: Vec<ScopedBinding>,
}

} // verus!

verus! {

/// Each infix operation becomes the binary operation of the same meaning: `+`
/// adds, `-` subtracts, `*` multiplies, `/` divides, the comparisons compare in
/// the same direction, and `&&` and `||` are conjunction and disjunction; so
/// distinct operations become distinct binary operations.
pub proof fn law_binary_op_meaning(a: InfixOperation, b: InfixOperation)
    ensures
        binary_op(InfixOperation::Plus) == BinaryOp::Add,
        binary_op(InfixOperation::Minus) == BinaryOp::Sub,
        binary_op(InfixOperation::Multiply) == BinaryOp::Mul,
        binary_op(InfixOperation::Divide) == BinaryOp::Div,
        binary_op(InfixOperation::Eq) == BinaryOp::Eq,
        binary_op(InfixOperation::NotEq) == BinaryOp::NotEq,
        binary_op(InfixOperation::Greater) == BinaryOp::Greater,
        binary_op(InfixOperation::Less) == BinaryOp::Less,
        binary_op(InfixOperation::GreaterEq) == BinaryOp::GreaterEq,
        binary_op(InfixOperation::LessEq) == BinaryOp::LessEq,
        binary_op(InfixOperation::And) == BinaryOp::And,
        binary_op(InfixOperation::Or) == BinaryOp::Or,
        binary_op(a) == binary_op(b) ==> a == b,
{
}

} // verus!
