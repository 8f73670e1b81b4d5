//! What it means for a typed tree to be the one that checking an untyped tree
//! gives, and the lemmas that build that relation one node at a time.
use vstd::prelude::*;

use crate::ast::typed;
use crate::ast::untyped;
use crate::compiler::{lookup_function, FunctionView};
use crate::ident::{FunctionIdx, ScopedBinding, Symbol};
use crate::scope::{spec_register_binding, spec_resolve, ScopePartView};
use crate::ty::{Ty, TyError, TyInfo};
use crate::type_check::{function_scopes, solve_block, solve_expr, solve_exprs, solve_stmt, solve_stmts, Solved};

verus! {

/// The scopes that a successful check leaves, or the given ones where it failed.
pub open spec fn scopes_after<T>(r: Result<(T, Seq<ScopePartView>), TyError>, sc: Seq<ScopePartView>) -> Seq<ScopePartView> {
    match r {
        Ok((_, after)) => after,
        Err(_) => sc,
    }
}

/// Whether a check succeeded with the given type information.
pub open spec fn solved_as(r: Solved, info: TyInfo) -> bool {
    r matches Ok((i, _)) && i == info
}

/// Whether `symbol` resolves to `binding` in the given scopes.
pub open spec fn resolves_to(sc: Seq<ScopePartView>, symbol: Symbol, binding: ScopedBinding) -> bool {
    spec_resolve(sc, symbol) matches Some((b, _)) && b == binding
}

/// The typed expression is what checking `u` within the scopes `sc` gives: a
/// node of the same kind with the same span, literal, operator and target type,
/// carrying the type information that its check yields and, for a name, the
/// binding that it resolves to; each child is in turn what checking it gives
/// within the scopes that the checks before it left.
pub closed spec fn typed_expr(t: typed::Expression, u: untyped::Expression, fns: Seq<FunctionView>, sc: Seq<ScopePartView>) -> bool
    decreases u,
{
    solved_as(solve_expr(u, fns, sc), t.info()) && match u {
        untyped::Expression::Infix(x) => t matches typed::Expression::Infix(y) && y.operation == x.operation
            && y.span == x.span && typed_expr(*y.left, *x.left, fns, sc)
            && typed_expr(*y.right, *x.right, fns, scopes_after(solve_expr(*x.left, fns, sc), sc)),
        untyped::Expression::Integer(x) => t matches typed::Expression::Integer(y) && y.value == x.value && y.span == x.span,
        untyped::Expression::Boolean(x) => t matches typed::Expression::Boolean(y) && y.value == x.value && y.span == x.span,
        untyped::Expression::Ident(x) => t matches typed::Expression::Ident(y) && y.span == x.span
            && resolves_to(sc, x.binding, y.binding),
        untyped::Expression::Block(x) => t matches typed::Expression::Block(y) && typed_block(y, x, fns, sc),
        untyped::Expression::If(x) => t matches typed::Expression::If(y) && y.span == x.span
            && typed_expr(*y.condition, *x.condition, fns, sc)
            && typed_block(y.success, x.success, fns, scopes_after(solve_expr(*x.condition, fns, sc), sc))
            && match x.otherwise {
                Some(b) => y.otherwise matches Some(a) && typed_block(
                    a,
                    b,
                    fns,
                    scopes_after(
                        solve_block(x.success, fns, scopes_after(solve_expr(*x.condition, fns, sc), sc)),
                        scopes_after(solve_expr(*x.condition, fns, sc), sc),
                    ),
                ),
                None => y.otherwise is None,
            },
        untyped::Expression::Loop(x) => t matches typed::Expression::Loop(y) && y.span == x.span
            && typed_block(y.body, x.body, fns, sc),
        untyped::Expression::Call(x) => t matches typed::Expression::Call(y) && y.span == x.span
            && y.name == FunctionIdx(lookup_function(fns, x.name) as usize)
            && typed_exprs(y.args@, x.args@, fns, sc),
        untyped::Expression::Assign(x) => t matches typed::Expression::Assign(y) && y.span == x.span
            && resolves_to(sc, x.binding, y.binding) && typed_expr(*y.value, *x.value, fns, sc),
        untyped::Expression::Cast(x) => t matches typed::Expression::Cast(y) && y.span == x.span
            && y.target_ty == x.target_ty && typed_expr(*y.value, *x.value, fns, sc),
        untyped::Expression::Index(x) => t matches typed::Expression::Index(y) && y.span == x.span
            && typed_expr(*y.index, *x.index, fns, sc)
            && resolves_to(scopes_after(solve_expr(*x.index, fns, sc), sc), x.value, y.value),
        untyped::Expression::Array(x) => t matches typed::Expression::Array(y) && y.span == x.span
            && typed_exprs(y.init@, x.init@, fns, sc),
    }
}

/// Typed expressions that are, one for one, what checking untyped ones in order gives.
pub closed spec fn typed_exprs(ts: Seq<typed::Expression>, us: Seq<untyped::Expression>, fns: Seq<FunctionView>, sc: Seq<ScopePartView>) -> bool
    decreases us,
{
    if us.len() == 0 {
        ts.len() == 0
    } else {
        ts.len() == us.len() && typed_exprs(ts.drop_last(), us.drop_last(), fns, sc)
            && typed_expr(ts.last(), us.last(), fns, scopes_after(solve_exprs(us.drop_last(), fns, sc), sc))
    }
}

/// A typed block that is what checking an untyped one gives.
pub closed spec fn typed_block(t: typed::Block, u: untyped::Block, fns: Seq<FunctionView>, sc: Seq<ScopePartView>) -> bool
    decreases u,
{
    solved_as(solve_block(u, fns, sc), t.ty_info) && t.span == u.span && typed_stmts(t.statements@, u.statements@, fns, sc)
}

/// Typed statements that are, one for one, what checking untyped ones in order gives.
pub closed spec fn typed_stmts(ts: Seq<typed::Statement>, us: Seq<untyped::Statement>, fns: Seq<FunctionView>, sc: Seq<ScopePartView>) -> bool
    decreases us,
{
    if us.len() == 0 {
        ts.len() == 0
    } else {
        ts.len() == us.len() && typed_stmts(ts.drop_last(), us.drop_last(), fns, sc)
            && typed_stmt(ts.last(), us.last(), fns, scopes_after(solve_stmts(us.drop_last(), fns, sc), sc))
    }
}

/// A typed statement that is what checking an untyped one gives; a `let`
/// carries the binding that it registers.
pub closed spec fn typed_stmt(t: typed::Statement, u: untyped::Statement, fns: Seq<FunctionView>, sc: Seq<ScopePartView>) -> bool
    decreases u,
{
    solved_as(solve_stmt(u, fns, sc), t.info()) && match u {
        untyped::Statement::Return(x) => t matches typed::Statement::Return(y) && y.span == x.span
            && typed_expr(y.value, x.value, fns, sc),
        untyped::Statement::Let(x) => t matches typed::Statement::Let(y) && y.span == x.span
            && typed_expr(y.value, x.value, fns, sc)
            && y.binding == spec_register_binding(scopes_after(solve_expr(x.value, fns, sc), sc)),
        untyped::Statement::ExpressionStatement(x) => t matches typed::Statement::ExpressionStatement(y) && y.span == x.span
            && y.implicit_return == x.implicit_return && typed_expr(y.expression, x.expression, fns, sc),
        untyped::Statement::Break(x) => t matches typed::Statement::Break(y) && y.span == x.span,
        untyped::Statement::Continue(x) => t matches typed::Statement::Continue(y) && y.span == x.span,
    }
}


/// A typed function is what checking an untyped one gives: the same name,
/// return type and span, each parameter bound in order in the function's own
/// scope, and the body that checking it with the parameters in scope gives.
pub closed spec fn typed_function(t: typed::Function, f: untyped::Function, fns: Seq<FunctionView>) -> bool {
    &&& t.name == FunctionIdx(lookup_function(fns, f.name) as usize)
    &&& t.return_ty == f.return_ty
    &&& t.span == f.span
    &&& t.parameters@.len() == f.parameters@.len()
    &&& forall|i: int| 0 <= i < f.parameters@.len()
        ==> #[trigger] t.parameters@[i] == (ScopedBinding(0, i as usize), f.parameters@[i].1)
    &&& typed_block(t.body, f.body, fns, function_scopes(f))
}

// What follows builds the relations above one node at a time: each lemma says
// that a node whose parts are what checking gives is itself what checking gives.

pub proof fn lemma_typed_integer(t: typed::Integer, x: untyped::Integer, fns: Seq<FunctionView>, sc: Seq<ScopePartView>)
    requires
        t.value == x.value,
        t.span == x.span,
        t.ty_info == (TyInfo { ty: Ty::Int, return_ty: None }),
    ensures
        typed_expr(typed::Expression::Integer(t), untyped::Expression::Integer(x), fns, sc),
{
}

pub proof fn lemma_typed_boolean(t: typed::Boolean, x: untyped::Boolean, fns: Seq<FunctionView>, sc: Seq<ScopePartView>)
    requires
        t.value == x.value,
        t.span == x.span,
        t.ty_info == (TyInfo { ty: Ty::Boolean, return_ty: None }),
    ensures
        typed_expr(typed::Expression::Boolean(t), untyped::Expression::Boolean(x), fns, sc),
{
}

pub proof fn lemma_typed_ident(t: typed::Ident, x: untyped::Ident, fns: Seq<FunctionView>, sc: Seq<ScopePartView>)
    requires
        spec_resolve(sc, x.binding) == Some((t.binding, t.ty_info.ty)),
        t.ty_info.return_ty is None,
        t.span == x.span,
    ensures
        typed_expr(typed::Expression::Ident(t), untyped::Expression::Ident(x), fns, sc),
{
}

pub proof fn lemma_typed_infix(t: typed::Infix, x: untyped::Infix, fns: Seq<FunctionView>, sc: Seq<ScopePartView>)
    requires
        solved_as(solve_expr(untyped::Expression::Infix(x), fns, sc), t.ty_info),
        t.operation == x.operation,
        t.span == x.span,
        typed_expr(*t.left, *x.left, fns, sc),
        typed_expr(*t.right, *x.right, fns, scopes_after(solve_expr(*x.left, fns, sc), sc)),
    ensures
        typed_expr(typed::Expression::Infix(t), untyped::Expression::Infix(x), fns, sc),
{
}

pub proof fn lemma_typed_block_expr(t: typed::Block, x: untyped::Block, fns: Seq<FunctionView>, sc: Seq<ScopePartView>)
    requires
        typed_block(t, x, fns, sc),
    ensures
        typed_expr(typed::Expression::Block(t), untyped::Expression::Block(x), fns, sc),
{
}

pub proof fn lemma_typed_if(t: typed::If, x: untyped::If, fns: Seq<FunctionView>, sc: Seq<ScopePartView>)
    requires
        solved_as(solve_expr(untyped::Expression::If(x), fns, sc), t.ty_info),
        t.span == x.span,
        typed_expr(*t.condition, *x.condition, fns, sc),
        typed_block(t.success, x.success, fns, scopes_after(solve_expr(*x.condition, fns, sc), sc)),
        match x.otherwise {
            Some(b) => t.otherwise matches Some(a) && typed_block(
                a,
                b,
                fns,
                scopes_after(
                    solve_block(x.success, fns, scopes_after(solve_expr(*x.condition, fns, sc), sc)),
                    scopes_after(solve_expr(*x.condition, fns, sc), sc),
                ),
            ),
            None => t.otherwise is None,
        },
    ensures
        typed_expr(typed::Expression::If(t), untyped::Expression::If(x), fns, sc),
{
}

pub proof fn lemma_typed_loop(t: typed::Loop, x: untyped::Loop, fns: Seq<FunctionView>, sc: Seq<ScopePartView>)
    requires
        solved_as(solve_expr(untyped::Expression::Loop(x), fns, sc), t.ty_info),
        t.span == x.span,
        typed_block(t.body, x.body, fns, sc),
    ensures
        typed_expr(typed::Expression::Loop(t), untyped::Expression::Loop(x), fns, sc),
{
}

pub proof fn lemma_typed_call(t: typed::Call, x: untyped::Call, fns: Seq<FunctionView>, sc: Seq<ScopePartView>)
    requires
        solved_as(solve_expr(untyped::Expression::Call(x), fns, sc), t.ty_info),
        t.span == x.span,
        t.name == FunctionIdx(lookup_function(fns, x.name) as usize),
        typed_exprs(t.args@, x.args@, fns, sc),
    ensures
        typed_expr(typed::Expression::Call(t), untyped::Expression::Call(x), fns, sc),
{
}

pub proof fn lemma_typed_assign(t: typed::Assign, x: untyped::Assign, fns: Seq<FunctionView>, sc: Seq<ScopePartView>)
    requires
        solved_as(solve_expr(untyped::Expression::Assign(x), fns, sc), t.ty_info),
        t.span == x.span,
        resolves_to(sc, x.binding, t.binding),
        typed_expr(*t.value, *x.value, fns, sc),
    ensures
        typed_expr(typed::Expression::Assign(t), untyped::Expression::Assign(x), fns, sc),
{
}

pub proof fn lemma_typed_cast(t: typed::Cast, x: untyped::Cast, fns: Seq<FunctionView>, sc: Seq<ScopePartView>)
    requires
        solved_as(solve_expr(untyped::Expression::Cast(x), fns, sc), t.ty_info),
        t.span == x.span,
        t.target_ty == x.target_ty,
        typed_expr(*t.value, *x.value, fns, sc),
    ensures
        typed_expr(typed::Expression::Cast(t), untyped::Expression::Cast(x), fns, sc),
{
}

pub proof fn lemma_typed_index(t: typed::Index, x: untyped::Index, fns: Seq<FunctionView>, sc: Seq<ScopePartView>)
    requires
        solved_as(solve_expr(untyped::Expression::Index(x), fns, sc), t.ty_info),
        t.span == x.span,
        typed_expr(*t.index, *x.index, fns, sc),
        resolves_to(scopes_after(solve_expr(*x.index, fns, sc), sc), x.value, t.value),
    ensures
        typed_expr(typed::Expression::Index(t), untyped::Expression::Index(x), fns, sc),
{
}

pub proof fn lemma_typed_array(t: typed::Array, x: untyped::Array, fns: Seq<FunctionView>, sc: Seq<ScopePartView>)
    requires
        solved_as(solve_expr(untyped::Expression::Array(x), fns, sc), t.ty_info),
        t.span == x.span,
        typed_exprs(t.init@, x.init@, fns, sc),
    ensures
        typed_expr(typed::Expression::Array(t), untyped::Expression::Array(x), fns, sc),
{
}

pub proof fn lemma_typed_exprs_empty(fns: Seq<FunctionView>, sc: Seq<ScopePartView>)
    ensures
        typed_exprs(Seq::empty(), Seq::empty(), fns, sc),
{
}

pub proof fn lemma_typed_exprs_push(
    ts: Seq<typed::Expression>,
    us: Seq<untyped::Expression>,
    t: typed::Expression,
    u: untyped::Expression,
    fns: Seq<FunctionView>,
    sc: Seq<ScopePartView>,
)
    requires
        typed_exprs(ts, us, fns, sc),
        typed_expr(t, u, fns, scopes_after(solve_exprs(us, fns, sc), sc)),
    ensures
        typed_exprs(ts.push(t), us.push(u), fns, sc),
{
    assert(ts.push(t).drop_last() =~= ts);
    assert(us.push(u).drop_last() =~= us);
    if us.len() == 0 {
        assert(ts.len() == 0);
    }
}

pub proof fn lemma_typed_return(t: typed::ReturnStatement, x: untyped::ReturnStatement, fns: Seq<FunctionView>, sc: Seq<ScopePartView>)
    requires
        solved_as(solve_stmt(untyped::Statement::Return(x), fns, sc), t.ty_info),
        t.span == x.span,
        typed_expr(t.value, x.value, fns, sc),
    ensures
        typed_stmt(typed::Statement::Return(t), untyped::Statement::Return(x), fns, sc),
{
}

pub proof fn lemma_typed_let(t: typed::LetStatement, x: untyped::LetStatement, fns: Seq<FunctionView>, sc: Seq<ScopePartView>)
    requires
        solved_as(solve_stmt(untyped::Statement::Let(x), fns, sc), t.ty_info),
        t.span == x.span,
        typed_expr(t.value, x.value, fns, sc),
        t.binding == spec_register_binding(scopes_after(solve_expr(x.value, fns, sc), sc)),
    ensures
        typed_stmt(typed::Statement::Let(t), untyped::Statement::Let(x), fns, sc),
{
}

pub proof fn lemma_typed_expression_statement(
    t: typed::ExpressionStatement,
    x: untyped::ExpressionStatement,
    fns: Seq<FunctionView>,
    sc: Seq<ScopePartView>,
)
    requires
        solved_as(solve_stmt(untyped::Statement::ExpressionStatement(x), fns, sc), t.ty_info),
        t.span == x.span,
        t.implicit_return == x.implicit_return,
        typed_expr(t.expression, x.expression, fns, sc),
    ensures
        typed_stmt(typed::Statement::ExpressionStatement(t), untyped::Statement::ExpressionStatement(x), fns, sc),
{
}

pub proof fn lemma_typed_break(t: typed::BreakStatement, x: untyped::BreakStatement, fns: Seq<FunctionView>, sc: Seq<ScopePartView>)
    requires
        t.span == x.span,
        t.ty_info == (TyInfo { ty: Ty::Never, return_ty: None }),
    ensures
        typed_stmt(typed::Statement::Break(t), untyped::Statement::Break(x), fns, sc),
{
}

pub proof fn lemma_typed_continue(
    t: typed::ContinueStatement,
    x: untyped::ContinueStatement,
    fns: Seq<FunctionView>,
    sc: Seq<ScopePartView>,
)
    requires
        t.span == x.span,
        t.ty_info == (TyInfo { ty: Ty::Never, return_ty: None }),
    ensures
        typed_stmt(typed::Statement::Continue(t), untyped::Statement::Continue(x), fns, sc),
{
}

pub proof fn lemma_typed_stmts_empty(fns: Seq<FunctionView>, sc: Seq<ScopePartView>)
    ensures
        typed_stmts(Seq::empty(), Seq::empty(), fns, sc),
{
}

pub proof fn lemma_typed_stmts_push(
    ts: Seq<typed::Statement>,
    us: Seq<untyped::Statement>,
    t: typed::Statement,
    u: untyped::Statement,
    fns: Seq<FunctionView>,
    sc: Seq<ScopePartView>,
)
    requires
        typed_stmts(ts, us, fns, sc),
        typed_stmt(t, u, fns, scopes_after(solve_stmts(us, fns, sc), sc)),
    ensures
        typed_stmts(ts.push(t), us.push(u), fns, sc),
{
    assert(ts.push(t).drop_last() =~= ts);
    assert(us.push(u).drop_last() =~= us);
    if us.len() == 0 {
        assert(ts.len() == 0);
    }
}

pub proof fn lemma_typed_block(t: typed::Block, x: untyped::Block, fns: Seq<FunctionView>, sc: Seq<ScopePartView>)
    requires
        solved_as(solve_block(x, fns, sc), t.ty_info),
        t.span == x.span,
        typed_stmts(t.statements@, x.statements@, fns, sc),
    ensures
        typed_block(t, x, fns, sc),
{
}

pub proof fn lemma_typed_function(t: typed::Function, f: untyped::Function, fns: Seq<FunctionView>)
    requires
        t.name == FunctionIdx(lookup_function(fns, f.name) as usize),
        t.return_ty == f.return_ty,
        t.span == f.span,
        t.parameters@.len() == f.parameters@.len(),
        forall|i: int| 0 <= i < f.parameters@.len()
            ==> #[trigger] t.parameters@[i] == (ScopedBinding(0, i as usize), f.parameters@[i].1),
        typed_block(t.body, f.body, fns, function_scopes(f)),
    ensures
        typed_function(t, f, fns),
{
}

} // verus!
