//! The syntax tree as parsed, before any types are known.
use vstd::prelude::*;

use crate::ast::InfixOperation;
use crate::ident::{Span, Symbol};
use crate::ty::Ty;

verus! {

/// An expression.
#[derive(Debug)]
pub enum Expression {
    Infix(Infix),
    Integer(Integer),
    Boolean(Boolean),
    Ident(Ident),
    Block(Block),
    If(If),
    Loop(Loop),
    Call(Call),
    Assign(Assign),
    Cast(Cast),
    Index(Index),
    Array(Array),
}

#[derive(Debug)]
pub struct Infix {
    pub left: Box<Expression>,
    pub operation: InfixOperation,
    pub right: Box<Expression>,
    pub span: Span,
}

#[derive(Debug)]
pub struct Integer {
    pub value: i64,
    pub span: Span,
}

#[derive(Debug)]
pub struct Boolean {
    pub value: bool,
    pub span: Span,
}

#[derive(Debug)]
pub struct Ident {
    pub binding: Symbol,
    pub span: Span,
}

#[derive(Debug)]
pub struct Block {
    pub statements: Vec<Statement>,
    pub span: Span,
}

#[derive(Debug)]
pub struct If {
    pub condition: Box<Expression>,
    pub success: Block,
    pub otherwise: Option<Block>,
    pub span: Span,
}

#[derive(Debug)]
pub struct Loop {
    pub body: Block,
    pub span: Span,
}

#[derive(Debug)]
pub struct Call {
    pub name: Symbol,
    pub args: Vec<Expression>,
    pub span: Span,
}

#[derive(Debug)]
pub struct Assign {
    pub binding: Symbol,
    pub value: Box<Expression>,
    pub span: Span,
}

#[derive(Debug)]
pub struct Cast {
    pub value: Box<Expression>,
    pub target_ty: Ty,
    pub span: Span,
}

#[derive(Debug)]
pub struct Index {
    pub value: Symbol,
    pub index: Box<Expression>,
    pub span: Span,
}

#[derive(Debug)]
pub struct Array {
    pub init: Vec<Expression>,
    pub span: Span,
}

/// A statement.
#[derive(Debug)]
pub enum Statement {
    Return(ReturnStatement),
    Let(LetStatement),
    ExpressionStatement(ExpressionStatement),
    Break(BreakStatement),
    Continue(ContinueStatement),
}

#[derive(Debug)]
pub struct ReturnStatement {
    pub value: Expression,
    pub span: Span,
}

/// `let binding = value;`, optionally annotated with the type the value must have.
#[derive(Debug)]
pub struct LetStatement {
    pub binding: Symbol,
    pub value: Expression,
    pub ty: Option<Ty>,
    pub span: Span,
}

/// An expression used as a statement; `implicit_return` is set when it is not
/// followed by a semicolon, so that its value becomes the value of its block.
#[derive(Debug)]
pub struct ExpressionStatement {
    pub expression: Expression,
    pub implicit_return: bool,
    pub span: Span,
}

#[derive(Debug)]
pub struct BreakStatement {
    pub span: Span,
}

#[derive(Debug)]
pub struct ContinueStatement {
    pub span: Span,
}

/// A function declaration.
#[derive(Debug)]
pub struct Function {
    pub name: Symbol,
    pub parameters: Vec<(Symbol, Ty)>,
    pub return_ty: Ty,
    pub body: Block,
    pub span: Span,
}

/// A whole program: its `main` function and every other function.
#[derive(Debug)]
pub struct Program {
    pub functions: Vec<Function>,
    pub main: Function,
    pub span: Span,
}

impl Expression {
    /// The span of source text that this expression covers.
    pub open spec fn spec_span(&self) -> Span {
        match self {
            Expression::Infix(e) => e.span,
            Expression::Integer(e) => e.span,
            Expression::Boolean(e) => e.span,
            Expression::Ident(e) => e.span,
            Expression::Block(e) => e.span,
            Expression::If(e) => e.span,
            Expression::Loop(e) => e.span,
            Expression::Call(e) => e.span,
            Expression::Assign(e) => e.span,
            Expression::Cast(e) => e.span,
            Expression::Index(e) => e.span,
            Expression::Array(e) => e.span,
        }
    }

    /// The span of source text that this expression covers.
    #[verifier::when_used_as_spec(spec_span)]
    pub fn span(&self) -> (r: Span)
        ensures
            r == self.spec_span(),
    {
        match self {
            Expression::Infix(e) => e.span,
            Expression::Integer(e) => e.span,
            Expression::Boolean(e) => e.span,
            Expression::Ident(e) => e.span,
            Expression::Block(e) => e.span,
            Expression::If(e) => e.span,
            Expression::Loop(e) => e.span,
            Expression::Call(e) => e.span,
            Expression::Assign(e) => e.span,
            Expression::Cast(e) => e.span,
            Expression::Index(e) => e.span,
            Expression::Array(e) => e.span,
        }
    }
}

/// The model of an expression: lists as sequences.
pub ghost enum ExprView {
    Infix { left: Box<ExprView>, operation: InfixOperation, right: Box<ExprView>, span: Span },
    Integer { value: i64, span: Span },
    Boolean { value: bool, span: Span },
    Ident { binding: Symbol, span: Span },
    Block(BlockView),
    If { condition: Box<ExprView>, success: BlockView, otherwise: Option<BlockView>, span: Span },
    Loop { body: BlockView, span: Span },
    Call { name: Symbol, args: Seq<ExprView>, span: Span },
    Assign { binding: Symbol, value: Box<ExprView>, span: Span },
    Cast { value: Box<ExprView>, target_ty: Ty, span: Span },
    Index { value: Symbol, index: Box<ExprView>, span: Span },
    Array { init: Seq<ExprView>, span: Span },
}

/// The model of a block.
pub ghost struct BlockView {
    pub statements: Seq<StmtView>,
    pub span: Span,
}

/// The model of a statement.
pub ghost enum StmtView {
    Return { value: ExprView, span: Span },
    Let { binding: Symbol, value: ExprView, ty: Option<Ty>, span: Span },
    Expression { expression: ExprView, implicit_return: bool, span: Span },
    Break { span: Span },
    Continue { span: Span },
}

impl ExprView {
    /// The span of source text that this expression covers.
    pub open spec fn span(self) -> Span {
        match self {
            ExprView::Infix { span, .. } => span,
            ExprView::Integer { span, .. } => span,
            ExprView::Boolean { span, .. } => span,
            ExprView::Ident { span, .. } => span,
            ExprView::Block(b) => b.span,
            ExprView::If { span, .. } => span,
            ExprView::Loop { span, .. } => span,
            ExprView::Call { span, .. } => span,
            ExprView::Assign { span, .. } => span,
            ExprView::Cast { span, .. } => span,
            ExprView::Index { span, .. } => span,
            ExprView::Array { span, .. } => span,
        }
    }
}

/// The model of an expression.
pub open spec fn expr_view(e: Expression) -> ExprView
    decreases e,
{
    match e {
        Expression::Infix(x) => ExprView::Infix {
            left: Box::new(expr_view(*x.left)),
            operation: x.operation,
            right: Box::new(expr_view(*x.right)),
            span: x.span,
        },
        Expression::Integer(x) => ExprView::Integer { value: x.value, span: x.span },
        Expression::Boolean(x) => ExprView::Boolean { value: x.value, span: x.span },
        Expression::Ident(x) => ExprView::Ident { binding: x.binding, span: x.span },
        Expression::Block(b) => ExprView::Block(block_view(b)),
        Expression::If(x) => ExprView::If {
            condition: Box::new(expr_view(*x.condition)),
            success: block_view(x.success),
            otherwise: match x.otherwise {
                Some(o) => Some(block_view(o)),
                None => None,
            },
            span: x.span,
        },
        Expression::Loop(x) => ExprView::Loop { body: block_view(x.body), span: x.span },
        Expression::Call(x) => ExprView::Call { name: x.name, args: exprs_view(x.args@), span: x.span },
        Expression::Assign(x) => ExprView::Assign { binding: x.binding, value: Box::new(expr_view(*x.value)), span: x.span },
        Expression::Cast(x) => ExprView::Cast { value: Box::new(expr_view(*x.value)), target_ty: x.target_ty, span: x.span },
        Expression::Index(x) => ExprView::Index { value: x.value, index: Box::new(expr_view(*x.index)), span: x.span },
        Expression::Array(x) => ExprView::Array { init: exprs_view(x.init@), span: x.span },
    }
}

/// The models of a list of expressions.
pub open spec fn exprs_view(es: Seq<Expression>) -> Seq<ExprView>
    decreases es,
{
    if es.len() == 0 {
        Seq::empty()
    } else {
        seq![expr_view(es[0])] + exprs_view(es.drop_first())
    }
}

/// The model of a block.
pub open spec fn block_view(b: Block) -> BlockView
    decreases b,
{
    BlockView { statements: stmts_view(b.statements@), span: b.span }
}

/// The models of a list of statements.
pub open spec fn stmts_view(ss: Seq<Statement>) -> Seq<StmtView>
    decreases ss,
{
    if ss.len() == 0 {
        Seq::empty()
    } else {
        seq![stmt_view(ss[0])] + stmts_view(ss.drop_first())
    }
}

/// The model of a statement.
pub open spec fn stmt_view(s: Statement) -> StmtView
    decreases s,
{
    match s {
        Statement::Return(r) => StmtView::Return { value: expr_view(r.value), span: r.span },
        Statement::Let(l) => StmtView::Let { binding: l.binding, value: expr_view(l.value), ty: l.ty, span: l.span },
        Statement::ExpressionStatement(x) => StmtView::Expression {
            expression: expr_view(x.expression),
            implicit_return: x.implicit_return,
            span: x.span,
        },
        Statement::Break(b) => StmtView::Break { span: b.span },
        Statement::Continue(c) => StmtView::Continue { span: c.span },
    }
}

/// The models of the expressions of a list are those of its prefix followed by
/// that of its last one.
pub proof fn lemma_exprs_view_push(es: Seq<Expression>, e: Expression)
    ensures
        exprs_view(es.push(e)) == exprs_view(es).push(expr_view(e)),
    decreases es.len(),
{
    if es.len() == 0 {
        assert(es.push(e).drop_first() =~= Seq::<Expression>::empty());
        assert(es.push(e)[0] == e);
        assert(exprs_view(Seq::<Expression>::empty()) == Seq::<ExprView>::empty());
        assert(exprs_view(es.push(e)) =~= seq![expr_view(e)]);
    } else {
        assert(es.push(e).drop_first() =~= es.drop_first().push(e));
        lemma_exprs_view_push(es.drop_first(), e);
        assert(exprs_view(es.push(e)) =~= exprs_view(es).push(expr_view(e)));
    }
}

/// The models of the statements of a list are those of its prefix followed by
/// that of its last one.
pub proof fn lemma_stmts_view_push(ss: Seq<Statement>, s: Statement)
    ensures
        stmts_view(ss.push(s)) == stmts_view(ss).push(stmt_view(s)),
    decreases ss.len(),
{
    if ss.len() == 0 {
        assert(ss.push(s).drop_first() =~= Seq::<Statement>::empty());
        assert(ss.push(s)[0] == s);
        assert(stmts_view(Seq::<Statement>::empty()) == Seq::<StmtView>::empty());
        assert(stmts_view(ss.push(s)) =~= seq![stmt_view(s)]);
    } else {
        assert(ss.push(s).drop_first() =~= ss.drop_first().push(s));
        lemma_stmts_view_push(ss.drop_first(), s);
        assert(stmts_view(ss.push(s)) =~= stmts_view(ss).push(stmt_view(s)));
    }
}

/// The span of an expression is that of its model.
pub proof fn lemma_expr_view_span(e: Expression)
    ensures
        expr_view(e).span() == e.spec_span(),
{
    if let Expression::Block(b) = e {
        assert(block_view(b).span == b.span);
    }
}

/// The model of a function declaration.
pub ghost struct FunctionView {
    pub name: Symbol,
    pub parameters: Seq<(Symbol, Ty)>,
    pub return_ty: Ty,
    pub body: BlockView,
    pub span: Span,
}

/// The model of a function declaration.
pub open spec fn function_view(f: Function) -> FunctionView {
    FunctionView { name: f.name, parameters: f.parameters@, return_ty: f.return_ty, body: block_view(f.body), span: f.span }
}

/// The model of a program.
pub ghost struct ProgramView {
    pub functions: Seq<FunctionView>,
    pub main: FunctionView,
    pub span: Span,
}

/// The model of a program.
pub open spec fn program_view(p: Program) -> ProgramView {
    ProgramView {
        functions: p.functions@.map_values(|f: Function| function_view(f)),
        main: function_view(p.main),
        span: p.span,
    }
}

} // verus!
