//! The syntax tree of the first version of the language.
use vstd::prelude::*;

use std::rc::Rc;

verus! {

/// A name.
#[derive(Debug)]
pub struct Identifier {
    pub value: String,
}

#[derive(Debug)]
pub struct IntegerLiteral {
    pub value: i64,
}

impl IntegerLiteral {
    pub fn new(value: i64) -> (r: IntegerLiteral)
        ensures
            r.value == value,
    {
        IntegerLiteral { value }
    }
}

#[derive(Debug)]
pub struct BooleanLiteral {
    pub value: bool,
}

impl BooleanLiteral {
    pub fn new(value: bool) -> (r: BooleanLiteral)
        ensures
            r.value == value,
    {
        BooleanLiteral { value }
    }
}

#[derive(Debug)]
pub struct StringLiteral {
    pub value: String,
}

/// The operator of a prefix expression.
#[derive(Debug, Clone, Copy, PartialEq, Eq, Structural)]
pub enum PrefixToken {
    Plus,
    Minus,
    Bang,
}

#[derive(Debug)]
pub struct PrefixExpression {
    pub prefix_token: PrefixToken,
    pub right: Box<Expression>,
}

/// The operator of an infix expression.
#[derive(Debug, Clone, Copy, PartialEq, Eq, Structural)]
pub enum InfixOperatorToken {
    Plus,
    Minus,
    Asterisk,
    Slash,
    LeftAngle,
    RightAngle,
    Eq,
    NotEq,
}

#[derive(Debug)]
pub struct InfixExpression {
    pub operator_token: InfixOperatorToken,
    pub left: Box<Expression>,
    pub right: Box<Expression>,
}

/// A list of statements between braces.
#[derive(Debug)]
pub struct BlockStatement {
    pub statements: Vec<Statement>,
}

#[derive(Debug)]
pub struct ElseBranch {
    pub statement: BlockStatement,
}

#[derive(Debug)]
pub struct IfExpression {
    pub condition: Expression,
    pub consequence: BlockStatement,
    pub else_branch: Option<ElseBranch>,
}

/// A function literal. Function literals are shared between the syntax tree and
/// the function values made from them.
#[derive(Debug)]
pub struct FunctionLiteral {
    pub parameters: Vec<Identifier>,
    pub body: BlockStatement,
}

/// What a call expression calls.
#[derive(Debug)]
pub enum CallableFunction {
    Identifier(Identifier),
    FunctionLiteral(Rc<FunctionLiteral>),
}

#[derive(Debug)]
pub struct CallExpression {
    pub function: CallableFunction,
    pub arguments: Vec<Expression>,
}

/// An expression.
#[derive(Debug)]
pub enum Expression {
    Identifier(Identifier),
    Integer(IntegerLiteral),
    String(StringLiteral),
    Boolean(BooleanLiteral),
    Prefix(PrefixExpression),
    Infix(InfixExpression),
    Block(BlockStatement),
    If(Box<IfExpression>),
    Function(Rc<FunctionLiteral>),
    Call(CallExpression),
}

#[derive(Debug)]
pub struct LetStatement {
    pub name: Identifier,
    pub value: Expression,
}

#[derive(Debug)]
pub struct ReturnStatement {
    pub value: Expression,
}

/// A statement.
#[derive(Debug)]
pub enum Statement {
    Let(LetStatement),
    Return(ReturnStatement),
    Expression { expression: Expression, semicolon: bool },
}

/// A program: a list of statements.
#[derive(Debug)]
pub struct Program {
    pub statements: Vec<Statement>,
}

} // verus!
