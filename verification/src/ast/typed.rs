//! The syntax tree after type checking: every node carries its type information,
//! and every name is resolved to the binding or function it refers to.
use vstd::prelude::*;

use crate::ast::InfixOperation;
use crate::ident::{FunctionIdx, ScopedBinding, Span};
use crate::ty::{Ty, TyInfo};

verus! {

/// A typed expression.
#[derive(Debug)]
pub enum Expression {
    Infix(Infix),
    Integer(Integer),
    Boolean(Boolean),
    Ident(Ident),
    Block(Block),
    If(If),
    Loop(Loop),
    Call(Call),
    Assign(Assign),
    Cast(Cast),
    Index(Index),
    Array(Array),
}

#[derive(Debug)]
pub struct Infix {
    pub left: Box<Expression>,
    pub operation: InfixOperation,
    pub right: Box<Expression>,
    pub span: Span,
    pub ty_info: TyInfo,
}

#[derive(Debug)]
pub struct Integer {
    pub value: i64,
    pub span: Span,
    pub ty_info: TyInfo,
}

#[derive(Debug)]
pub struct Boolean {
    pub value: bool,
    pub span: Span,
    pub ty_info: TyInfo,
}

#[derive(Debug)]
pub struct Ident {
    pub binding: ScopedBinding,
    pub span: Span,
    pub ty_info: TyInfo,
}

#[derive(Debug)]
pub struct Block {
    pub statements: Vec<Statement>,
    pub span: Span,
    pub ty_info: TyInfo,
}

#[derive(Debug)]
pub struct If {
    pub condition: Box<Expression>,
    pub success: Block,
    pub otherwise: Option<Block>,
    pub span: Span,
    pub ty_info: TyInfo,
}

#[derive(Debug)]
pub struct Loop {
    pub body: Block,
    pub span: Span,
    pub ty_info: TyInfo,
}

#[derive(Debug)]
pub struct Call {
    pub name: FunctionIdx,
    pub args: Vec<Expression>,
    pub span: Span,
    pub ty_info: TyInfo,
}

#[derive(Debug)]
pub struct Assign {
    pub binding: ScopedBinding,
    pub value: Box<Expression>,
    pub span: Span,
    pub ty_info: TyInfo,
}

#[derive(Debug)]
pub struct Cast {
    pub value: Box<Expression>,
    pub target_ty: Ty,
    pub span: Span,
    pub ty_info: TyInfo,
}

#[derive(Debug)]
pub struct Index {
    pub value: ScopedBinding,
    pub index: Box<Expression>,
    pub span: Span,
    pub ty_info: TyInfo,
}

#[derive(Debug)]
pub struct Array {
    pub init: Vec<Expression>,
    pub span: Span,
    pub ty_info: TyInfo,
}

/// A typed statement.
#[derive(Debug)]
pub enum Statement {
    Return(ReturnStatement),
    Let(LetStatement),
    ExpressionStatement(ExpressionStatement),
    Break(BreakStatement),
    Continue(ContinueStatement),
}

#[derive(Debug)]
pub struct ReturnStatement {
    pub value: Expression,
    pub span: Span,
    pub ty_info: TyInfo,
}

#[derive(Debug)]
pub struct LetStatement {
    pub binding: ScopedBinding,
    pub value: Expression,
    pub span: Span,
    pub ty_info: TyInfo,
}

#[derive(Debug)]
pub struct ExpressionStatement {
    pub expression: Expression,
    pub implicit_return: bool,
    pub span: Span,
    pub ty_info: TyInfo,
}

#[derive(Debug)]
pub struct BreakStatement {
    pub span: Span,
    pub ty_info: TyInfo,
}

#[derive(Debug)]
pub struct ContinueStatement {
    pub span: Span,
    pub ty_info: TyInfo,
}

/// A typed function.
#[derive(Debug)]
pub struct Function {
    pub name: FunctionIdx,
    pub parameters: Vec<(ScopedBinding, Ty)>,
    pub return_ty: Ty,
    pub body: Block,
    pub span: Span,
}

/// A typed program.
#[derive(Debug)]
pub struct Program {
    pub main: Function,
    pub functions: Vec<Function>,
    pub span: Span,
}

impl Expression {
    /// The type information of this expression.
    pub open spec fn info(&self) -> TyInfo {
        match self {
            Expression::Infix(e) => e.ty_info,
            Expression::Integer(e) => e.ty_info,
            Expression::Boolean(e) => e.ty_info,
            Expression::Ident(e) => e.ty_info,
            Expression::Block(e) => e.ty_info,
            Expression::If(e) => e.ty_info,
            Expression::Loop(e) => e.ty_info,
            Expression::Call(e) => e.ty_info,
            Expression::Assign(e) => e.ty_info,
            Expression::Cast(e) => e.ty_info,
            Expression::Index(e) => e.ty_info,
            Expression::Array(e) => e.ty_info,
        }
    }

    /// The type information of this expression.
    pub fn get_ty_info(&self) -> (r: &TyInfo)
        ensures
            *r == self.info(),
    {
        match self {
            Expression::Infix(e) => &e.ty_info,
            Expression::Integer(e) => &e.ty_info,
            Expression::Boolean(e) => &e.ty_info,
            Expression::Ident(e) => &e.ty_info,
            Expression::Block(e) => &e.ty_info,
            Expression::If(e) => &e.ty_info,
            Expression::Loop(e) => &e.ty_info,
            Expression::Call(e) => &e.ty_info,
            Expression::Assign(e) => &e.ty_info,
            Expression::Cast(e) => &e.ty_info,
            Expression::Index(e) => &e.ty_info,
            Expression::Array(e) => &e.ty_info,
        }
    }
}

impl Statement {
    /// The type information of this statement.
    pub open spec fn info(&self) -> TyInfo {
        match self {
            Statement::Return(s) => s.ty_info,
            Statement::Let(s) => s.ty_info,
            Statement::ExpressionStatement(s) => s.ty_info,
            Statement::Break(s) => s.ty_info,
            Statement::Continue(s) => s.ty_info,
        }
    }

    /// The type information of this statement.
    pub fn get_ty_info(&self) -> (r: &TyInfo)
        ensures
            *r == self.info(),
    {
        match self {
            Statement::Return(s) => &s.ty_info,
            Statement::Let(s) => &s.ty_info,
            Statement::ExpressionStatement(s) => &s.ty_info,
            Statement::Break(s) => &s.ty_info,
            Statement::Continue(s) => &s.ty_info,
        }
    }
}

} // verus!
