//! Type checking: turns the untyped syntax tree into the typed one, resolving
//! every name and attaching type information to every node.
use vstd::prelude::*;

pub mod checked;

use crate::ast::typed;
use crate::ast::untyped;
use crate::ast::InfixOperation;
use crate::compiler::{lookup_function, lemma_lookup_function, signature_view, Compiler, FunctionView};
use crate::ident::{FunctionIdx, ScopedBinding, Symbol};
use crate::scope::{all_bindings, last_active, spec_register, spec_resolve, Scope, ScopePartView};
use crate::type_check::checked::{
    lemma_typed_array, lemma_typed_assign, lemma_typed_block, lemma_typed_block_expr, lemma_typed_boolean, lemma_typed_break,
    lemma_typed_call, lemma_typed_cast, lemma_typed_continue, lemma_typed_expression_statement, lemma_typed_exprs_empty,
    lemma_typed_exprs_push, lemma_typed_function, lemma_typed_ident, lemma_typed_if, lemma_typed_index, lemma_typed_infix,
    lemma_typed_integer, lemma_typed_let, lemma_typed_loop, lemma_typed_return, lemma_typed_stmts_empty,
    lemma_typed_stmts_push, typed_block, typed_expr, typed_exprs, typed_function, typed_stmt, typed_stmts,
};
use crate::ty::{
    drop_never, duplicate_option, flatten_tys, spec_collapse, FunctionSignature, spec_ty_info, spec_ty_info_with,
    ty_compatible, Ty, TyError, TyInfo,
};

verus! {

/// The result of checking one node: its type information and the scopes after it.
pub type Solved = Result<(TyInfo, Seq<ScopePartView>), TyError>;

/// The result of checking a list of nodes in order.
pub type SolvedList = Result<(Seq<TyInfo>, Seq<ScopePartView>), TyError>;

/// The type that an infix operation produces from operands of the given types.
pub open spec fn spec_result_ty(op: InfixOperation, left: Ty, right: Ty) -> Result<Ty, TyError> {
    match op {
        InfixOperation::Plus | InfixOperation::Minus => if left is Int && right is Int {
            Ok(Ty::Int)
        } else {
            Err(TyError::Mismatch(left, right))
        },
        InfixOperation::Eq | InfixOperation::NotEq => if ty_compatible(left, right) {
            Ok(Ty::Boolean)
        } else {
            Err(TyError::Mismatch(left, right))
        },
        InfixOperation::And | InfixOperation::Or => if left is Boolean && right is Boolean {
            Ok(Ty::Boolean)
        } else {
            Err(TyError::Mismatch(left, right))
        },
        _ => Err(TyError::Mismatch(left, right)),
    }
}

/// The types of a list of type informations.
pub open spec fn tys_of(infos: Seq<TyInfo>) -> Seq<Ty> {
    infos.map_values(|i: TyInfo| i.ty)
}

/// The return types of a list of type informations.
pub open spec fn return_tys_of(infos: Seq<TyInfo>) -> Seq<Option<Ty>> {
    infos.map_values(|i: TyInfo| i.return_ty)
}

/// The first position, from `i` on, where an argument's type is not the parameter's type, or -1.
pub open spec fn first_arg_mismatch(params: Seq<Ty>, args: Seq<Ty>, i: int) -> int
    decreases params.len() - i,
{
    if i < 0 || i >= params.len() || i >= args.len() {
        -1
    } else if params[i] != args[i] {
        i
    } else {
        first_arg_mismatch(params, args, i + 1)
    }
}

/// The value type of a block: that of its last statement when it is an
/// expression statement without a semicolon, and `Unit` otherwise.
pub open spec fn block_value_ty(statements: Seq<untyped::Statement>, infos: Seq<TyInfo>) -> Ty {
    if statements.len() > 0 && infos.len() == statements.len() && (match statements.last() {
        untyped::Statement::ExpressionStatement(s) => s.implicit_return,
        _ => false,
    }) {
        infos.last().ty
    } else {
        Ty::Unit
    }
}

/// The type information of a call of a registered function with arguments of the given types.
pub open spec fn spec_call_info(f: FunctionView, args: Seq<TyInfo>) -> Result<TyInfo, TyError> {
    let params = f.1;
    if args.len() != params.len() {
        Err(TyError::ArgumentCount { parameters: params.len() as usize, arguments: args.len() as usize })
    } else if first_arg_mismatch(params, tys_of(args), 0) >= 0 {
        let k = first_arg_mismatch(params, tys_of(args), 0);
        Err(TyError::Mismatch(params[k], args[k].ty))
    } else {
        spec_ty_info_with(f.2, return_tys_of(args))
    }
}

/// Pairs a type information with the scopes after it.
pub open spec fn with_scopes(r: Result<TyInfo, TyError>, sc: Seq<ScopePartView>) -> Solved {
    match r {
        Ok(i) => Ok((i, sc)),
        Err(e) => Err(e),
    }
}

/// The type information of an `if` expression from those of its parts.
pub open spec fn spec_if_info(condition: TyInfo, success: TyInfo, otherwise: Option<TyInfo>) -> Result<TyInfo, TyError> {
    spec_ty_info(
        seq![success.ty, match otherwise { Some(o) => o.ty, None => Ty::Unit }],
        seq![condition.return_ty, success.return_ty, match otherwise { Some(o) => o.return_ty, None => None }],
    )
}

/// Type checking an expression.
pub open spec fn solve_expr(e: untyped::Expression, fns: Seq<FunctionView>, sc: Seq<ScopePartView>) -> Solved
    decreases e,
{
    match e {
        untyped::Expression::Integer(_) => Ok((TyInfo { ty: Ty::Int, return_ty: None }, sc)),
        untyped::Expression::Boolean(_) => Ok((TyInfo { ty: Ty::Boolean, return_ty: None }, sc)),
        untyped::Expression::Ident(i) => match spec_resolve(sc, i.binding) {
            None => Err(TyError::SymbolNotFound(i.binding)),
            Some((_, t)) => Ok((TyInfo { ty: t, return_ty: None }, sc)),
        },
        untyped::Expression::Infix(x) => match solve_expr(*x.left, fns, sc) {
            Err(e) => Err(e),
            Ok((l, sc1)) => match solve_expr(*x.right, fns, sc1) {
                Err(e) => Err(e),
                Ok((r, sc2)) => match spec_result_ty(x.operation, l.ty, r.ty) {
                    Err(e) => Err(e),
                    Ok(t) => with_scopes(spec_ty_info_with(t, seq![l.return_ty, r.return_ty]), sc2),
                },
            },
        },
        untyped::Expression::Block(b) => solve_block(b, fns, sc),
        untyped::Expression::If(x) => match solve_expr(*x.condition, fns, sc) {
            Err(e) => Err(e),
            Ok((c, sc1)) => if !ty_compatible(c.ty, Ty::Boolean) {
                Err(TyError::Mismatch(Ty::Boolean, c.ty))
            } else {
                match solve_block(x.success, fns, sc1) {
                    Err(e) => Err(e),
                    Ok((s, sc2)) => match x.otherwise {
                        None => with_scopes(spec_if_info(c, s, None), sc2),
                        Some(o) => match solve_block(o, fns, sc2) {
                            Err(e) => Err(e),
                            Ok((oi, sc3)) => with_scopes(spec_if_info(c, s, Some(oi)), sc3),
                        },
                    },
                }
            },
        },
        untyped::Expression::Loop(l) => match solve_block(l.body, fns, sc) {
            Err(e) => Err(e),
            Ok((b, sc1)) => if b.ty is Unit || b.ty is Never {
                Ok((b, sc1))
            } else {
                Err(TyError::Mismatch(Ty::Unit, b.ty))
            },
        },
        untyped::Expression::Call(c) => match solve_exprs(c.args@, fns, sc) {
            Err(e) => Err(e),
            Ok((args, sc1)) => if lookup_function(fns, c.name) < 0 {
                Err(TyError::SymbolNotFound(c.name))
            } else {
                with_scopes(spec_call_info(fns[lookup_function(fns, c.name)], args), sc1)
            },
        },
        untyped::Expression::Assign(a) => match spec_resolve(sc, a.binding) {
            None => Err(TyError::SymbolNotFound(a.binding)),
            Some((_, t)) => match solve_expr(*a.value, fns, sc) {
                Err(e) => Err(e),
                Ok((v, sc1)) => if v.ty != t {
                    Err(TyError::Mismatch(t, v.ty))
                } else {
                    Ok((TyInfo { ty: Ty::Unit, return_ty: v.return_ty }, sc1))
                },
            },
        },
        untyped::Expression::Cast(c) => match solve_expr(*c.value, fns, sc) {
            Err(e) => Err(e),
            Ok((v, sc1)) => if (v.ty is Uint && c.target_ty is Int) || (v.ty is Int && c.target_ty is Uint) {
                Ok((TyInfo { ty: c.target_ty, return_ty: v.return_ty }, sc1))
            } else {
                Err(TyError::Cast(v.ty, c.target_ty))
            },
        },
        untyped::Expression::Index(x) => match solve_expr(*x.index, fns, sc) {
            Err(e) => Err(e),
            Ok((i, sc1)) => if i.ty != Ty::Int {
                Err(TyError::Mismatch(i.ty, Ty::Int))
            } else {
                match spec_resolve(sc1, x.value) {
                    None => Err(TyError::SymbolNotFound(x.value)),
                    Some((_, t)) => match t {
                        Ty::Array { inner, size: _ } => Ok((TyInfo { ty: *inner, return_ty: i.return_ty }, sc1)),
                        _ => Err(TyError::Index(t)),
                    },
                }
            },
        },
        untyped::Expression::Array(a) => match solve_exprs(a.init@, fns, sc) {
            Err(e) => Err(e),
            Ok((items, sc1)) => match spec_ty_info(tys_of(items), return_tys_of(items)) {
                Err(e) => Err(e),
                Ok(i) => Ok((
                    TyInfo { ty: Ty::Array { inner: Box::new(i.ty), size: items.len() as u32 }, return_ty: i.return_ty },
                    sc1,
                )),
            },
        },
    }
}

/// Type checking a list of expressions, in order.
pub open spec fn solve_exprs(es: Seq<untyped::Expression>, fns: Seq<FunctionView>, sc: Seq<ScopePartView>) -> SolvedList
    decreases es,
{
    if es.len() == 0 {
        Ok((Seq::empty(), sc))
    } else {
        match solve_exprs(es.drop_last(), fns, sc) {
            Err(e) => Err(e),
            Ok((infos, sc1)) => match solve_expr(es.last(), fns, sc1) {
                Err(e) => Err(e),
                Ok((i, sc2)) => Ok((infos.push(i), sc2)),
            },
        }
    }
}

/// Type checking a statement.
pub open spec fn solve_stmt(s: untyped::Statement, fns: Seq<FunctionView>, sc: Seq<ScopePartView>) -> Solved
    decreases s,
{
    match s {
        untyped::Statement::Return(r) => match solve_expr(r.value, fns, sc) {
            Err(e) => Err(e),
            Ok((v, sc1)) => with_scopes(spec_ty_info_with(Ty::Never, seq![Some(v.ty), v.return_ty]), sc1),
        },
        untyped::Statement::Let(l) => match solve_expr(l.value, fns, sc) {
            Err(e) => Err(e),
            Ok((v, sc1)) => match l.ty {
                Some(t) if !ty_compatible(t, v.ty) => Err(TyError::Mismatch(t, v.ty)),
                _ => Ok((TyInfo { ty: Ty::Unit, return_ty: v.return_ty }, spec_register(sc1, l.binding, v.ty))),
            },
        },
        untyped::Statement::ExpressionStatement(x) => match solve_expr(x.expression, fns, sc) {
            Err(e) => Err(e),
            Ok((v, sc1)) => Ok((
                TyInfo { ty: if x.implicit_return { v.ty } else { Ty::Unit }, return_ty: v.return_ty },
                sc1,
            )),
        },
        untyped::Statement::Break(_) => Ok((TyInfo { ty: Ty::Never, return_ty: None }, sc)),
        untyped::Statement::Continue(_) => Ok((TyInfo { ty: Ty::Never, return_ty: None }, sc)),
    }
}

/// Type checking a list of statements, in order.
pub open spec fn solve_stmts(ss: Seq<untyped::Statement>, fns: Seq<FunctionView>, sc: Seq<ScopePartView>) -> SolvedList
    decreases ss,
{
    if ss.len() == 0 {
        Ok((Seq::empty(), sc))
    } else {
        match solve_stmts(ss.drop_last(), fns, sc) {
            Err(e) => Err(e),
            Ok((infos, sc1)) => match solve_stmt(ss.last(), fns, sc1) {
                Err(e) => Err(e),
                Ok((i, sc2)) => Ok((infos.push(i), sc2)),
            },
        }
    }
}

/// Type checking a block: its type is the value type of its statements, and
/// every statement's return type must agree.
pub open spec fn solve_block(b: untyped::Block, fns: Seq<FunctionView>, sc: Seq<ScopePartView>) -> Solved
    decreases b,
{
    match solve_stmts(b.statements@, fns, sc) {
        Err(e) => Err(e),
        Ok((infos, sc1)) => with_scopes(
            spec_ty_info_with(block_value_ty(b.statements@, infos), return_tys_of(infos)),
            sc1,
        ),
    }
}

} // verus!

verus! {


/// Whether an expression checking outcome agrees with its specification.
pub open spec fn agrees_expr(r: Result<typed::Expression, TyError>, s: Solved, after: Seq<ScopePartView>) -> bool {
    match r {
        Ok(t) => s == Ok::<(TyInfo, Seq<ScopePartView>), TyError>((t.info(), after)),
        Err(e) => s == Err::<(TyInfo, Seq<ScopePartView>), TyError>(e),
    }
}

/// Whether a statement checking outcome agrees with its specification.
pub open spec fn agrees_stmt(r: Result<typed::Statement, TyError>, s: Solved, after: Seq<ScopePartView>) -> bool {
    match r {
        Ok(t) => s == Ok::<(TyInfo, Seq<ScopePartView>), TyError>((t.info(), after)),
        Err(e) => s == Err::<(TyInfo, Seq<ScopePartView>), TyError>(e),
    }
}

/// Whether a block checking outcome agrees with its specification.
pub open spec fn agrees_block(r: Result<typed::Block, TyError>, s: Solved, after: Seq<ScopePartView>) -> bool {
    match r {
        Ok(t) => s == Ok::<(TyInfo, Seq<ScopePartView>), TyError>((t.ty_info, after)),
        Err(e) => s == Err::<(TyInfo, Seq<ScopePartView>), TyError>(e),
    }
}

/// The type informations of a list of typed expressions.
pub open spec fn expr_infos(ts: Seq<typed::Expression>) -> Seq<TyInfo> {
    ts.map_values(|t: typed::Expression| t.info())
}

/// The type informations of a list of typed statements.
pub open spec fn stmt_infos(ts: Seq<typed::Statement>) -> Seq<TyInfo> {
    ts.map_values(|t: typed::Statement| t.info())
}

impl InfixOperation {
    /// Determine the resulting type if this operator is applied to the provided operand types.
    pub fn result_ty(&self, left: &Ty, right: &Ty) -> (r: Result<Ty, TyError>)
        ensures
            r == spec_result_ty(*self, *left, *right),
    {
        match self {
            InfixOperation::Plus | InfixOperation::Minus => {
                if matches!(left, Ty::Int) && matches!(right, Ty::Int) {
                    return Ok(Ty::Int);
                }
            },
            InfixOperation::Eq | InfixOperation::NotEq => {
                if left.check(right) {
                    return Ok(Ty::Boolean);
                }
            },
            InfixOperation::And | InfixOperation::Or => {
                if matches!(left, Ty::Boolean) && matches!(right, Ty::Boolean) {
                    return Ok(Ty::Boolean);
                }
            },
            _ => {},
        }
        Err(TyError::Mismatch(left.duplicate(), right.duplicate()))
    }
}

/// The return types of the given typed expressions, in order.
fn expression_return_tys(ts: &Vec<typed::Expression>) -> (r: Vec<Option<Ty>>)
    ensures
        r@ == return_tys_of(expr_infos(ts@)),
{
    let mut out: Vec<Option<Ty>> = Vec::new();
    let mut i: usize = 0;
    while i < ts.len()
        invariant
            i <= ts.len(),
            out@ == return_tys_of(expr_infos(ts@)).take(i as int),
        decreases ts.len() - i,
    {
        let info = ts[i].get_ty_info();
        out.push(match &info.return_ty {
            Some(t) => Some(t.duplicate()),
            None => None,
        });
        assert(out@ =~= return_tys_of(expr_infos(ts@)).take(i + 1));
        i = i + 1;
    }
    assert(return_tys_of(expr_infos(ts@)).take(ts.len() as int) =~= return_tys_of(expr_infos(ts@)));
    out
}

/// The types of the given typed expressions, in order.
fn expression_tys(ts: &Vec<typed::Expression>) -> (r: Vec<Ty>)
    ensures
        r@ == tys_of(expr_infos(ts@)),
{
    let mut out: Vec<Ty> = Vec::new();
    let mut i: usize = 0;
    while i < ts.len()
        invariant
            i <= ts.len(),
            out@ == tys_of(expr_infos(ts@)).take(i as int),
        decreases ts.len() - i,
    {
        out.push(ts[i].get_ty_info().ty.duplicate());
        assert(out@ =~= tys_of(expr_infos(ts@)).take(i + 1));
        i = i + 1;
    }
    assert(tys_of(expr_infos(ts@)).take(ts.len() as int) =~= tys_of(expr_infos(ts@)));
    out
}

/// The return types of the given typed statements, in order.
fn statement_return_tys(ts: &Vec<typed::Statement>) -> (r: Vec<Option<Ty>>)
    ensures
        r@ == return_tys_of(stmt_infos(ts@)),
{
    let mut out: Vec<Option<Ty>> = Vec::new();
    let mut i: usize = 0;
    while i < ts.len()
        invariant
            i <= ts.len(),
            out@ == return_tys_of(stmt_infos(ts@)).take(i as int),
        decreases ts.len() - i,
    {
        let info = ts[i].get_ty_info();
        out.push(match &info.return_ty {
            Some(t) => Some(t.duplicate()),
            None => None,
        });
        assert(out@ =~= return_tys_of(stmt_infos(ts@)).take(i + 1));
        i = i + 1;
    }
    assert(return_tys_of(stmt_infos(ts@)).take(ts.len() as int) =~= return_tys_of(stmt_infos(ts@)));
    out
}

proof fn lemma_exprs_err_prefix(all: Seq<untyped::Expression>, k: int, n: int, fns: Seq<FunctionView>, sc: Seq<ScopePartView>)
    requires
        0 <= k <= n <= all.len(),
        solve_exprs(all.take(k), fns, sc) is Err,
    ensures
        solve_exprs(all.take(n), fns, sc) == solve_exprs(all.take(k), fns, sc),
    decreases n - k,
{
    if n > k {
        lemma_exprs_err_prefix(all, k, n - 1, fns, sc);
        assert(all.take(n).drop_last() =~= all.take(n - 1));
    }
}

proof fn lemma_stmts_err_prefix(all: Seq<untyped::Statement>, k: int, n: int, fns: Seq<FunctionView>, sc: Seq<ScopePartView>)
    requires
        0 <= k <= n <= all.len(),
        solve_stmts(all.take(k), fns, sc) is Err,
    ensures
        solve_stmts(all.take(n), fns, sc) == solve_stmts(all.take(k), fns, sc),
    decreases n - k,
{
    if n > k {
        lemma_stmts_err_prefix(all, k, n - 1, fns, sc);
        assert(all.take(n).drop_last() =~= all.take(n - 1));
    }
}

/// Type check a list of expressions in order.
fn solve_expression_list(es: Vec<untyped::Expression>, compiler: &Compiler, scope: &mut Scope) -> (r: Result<Vec<typed::Expression>, TyError>)
    requires
        old(scope).has_active(),
    ensures
        last_active(final(scope)@) == last_active(old(scope)@),
        match r {
            Ok(ts) => solve_exprs(es@, compiler.functions@, old(scope)@) == Ok::<(Seq<TyInfo>, Seq<ScopePartView>), TyError>((expr_infos(ts@), final(scope)@)),
            Err(e) => solve_exprs(es@, compiler.functions@, old(scope)@) == Err::<(Seq<TyInfo>, Seq<ScopePartView>), TyError>(e),
        },
        r matches Ok(ts) ==> typed_exprs(ts@, es@, compiler.functions@, old(scope)@),
    decreases es,
{
    let ghost all = es@;
    let n = es.len();
    let mut rest = es;
    let mut out: Vec<typed::Expression> = Vec::new();
    let mut i: usize = 0;
    assert(all.take(0) =~= Seq::<untyped::Expression>::empty());
    assert(expr_infos(out@) =~= Seq::<TyInfo>::empty());
    assert(out@ =~= Seq::<typed::Expression>::empty());
    proof {
        lemma_typed_exprs_empty(compiler.functions@, old(scope)@);
    }
    while rest.len() > 0
        invariant
            i + rest.len() == all.len(),
            rest@ == all.skip(i as int),
            scope.has_active(),
            last_active(scope@) == last_active(old(scope)@),
            solve_exprs(all.take(i as int), compiler.functions@, old(scope)@) == Ok::<(Seq<TyInfo>, Seq<ScopePartView>), TyError>((expr_infos(out@), scope@)),
            typed_exprs(out@, all.take(i as int), compiler.functions@, old(scope)@),
            all == es@,
            all.len() <= usize::MAX,
        decreases rest.len(),
    {
        let e = rest.remove(0);
        assert(e == all[i as int]);
        assert(all.take(i + 1).drop_last() =~= all.take(i as int));
        assert(all.take(i + 1).last() == all[i as int]);
        let t = match e.ty_solve(compiler, scope) {
            Ok(t) => t,
            Err(err) => {
                proof {
                    lemma_exprs_err_prefix(all, i + 1, all.len() as int, compiler.functions@, old(scope)@);
                    assert(all.take(all.len() as int) =~= all);
                }
                return Err(err);
            },
        };
        let ghost prev = out@;
        proof {
            lemma_typed_exprs_push(prev, all.take(i as int), t, e, compiler.functions@, old(scope)@);
            assert(all.take(i as int).push(e) =~= all.take(i + 1));
        }
        out.push(t);
        assert(expr_infos(out@) =~= expr_infos(prev).push(out@.last().info()));
        i = i + 1;
        assert(rest@ =~= all.skip(i as int));
    }
    assert(all.take(i as int) =~= all);
    Ok(out)
}

} // verus!

verus! {

impl untyped::Expression {
    /// Type check this expression within the given scopes.
    pub fn ty_solve(self, compiler: &Compiler, scope: &mut Scope) -> (r: Result<typed::Expression, TyError>)
        requires
            old(scope).has_active(),
        ensures
            last_active(final(scope)@) == last_active(old(scope)@),
            agrees_expr(r, solve_expr(self, compiler.functions@, old(scope)@), final(scope)@),
            r matches Ok(t) ==> typed_expr(t, self, compiler.functions@, old(scope)@),
        decreases self,
    {
        match self {
            untyped::Expression::Integer(e) => {
                let t = e.ty_solve();
                proof {
                    lemma_typed_integer(t, e, compiler.functions@, old(scope)@);
                }
                Ok(typed::Expression::Integer(t))
            },
            untyped::Expression::Boolean(e) => {
                let t = e.ty_solve();
                proof {
                    lemma_typed_boolean(t, e, compiler.functions@, old(scope)@);
                }
                Ok(typed::Expression::Boolean(t))
            },
            untyped::Expression::Ident(e) => {
                let t = e.ty_solve(scope)?;
                proof {
                    lemma_typed_ident(t, e, compiler.functions@, old(scope)@);
                }
                Ok(typed::Expression::Ident(t))
            },
            untyped::Expression::Infix(e) => Ok(typed::Expression::Infix(e.ty_solve(compiler, scope)?)),
            untyped::Expression::Block(e) => {
                let t = e.ty_solve(compiler, scope)?;
                proof {
                    lemma_typed_block_expr(t, e, compiler.functions@, old(scope)@);
                }
                Ok(typed::Expression::Block(t))
            },
            untyped::Expression::If(e) => Ok(typed::Expression::If(e.ty_solve(compiler, scope)?)),
            untyped::Expression::Loop(e) => Ok(typed::Expression::Loop(e.ty_solve(compiler, scope)?)),
            untyped::Expression::Call(e) => Ok(typed::Expression::Call(e.ty_solve(compiler, scope)?)),
            untyped::Expression::Assign(e) => Ok(typed::Expression::Assign(e.ty_solve(compiler, scope)?)),
            untyped::Expression::Cast(e) => Ok(typed::Expression::Cast(e.ty_solve(compiler, scope)?)),
            untyped::Expression::Index(e) => Ok(typed::Expression::Index(e.ty_solve(compiler, scope)?)),
            untyped::Expression::Array(e) => Ok(typed::Expression::Array(e.ty_solve(compiler, scope)?)),
        }
    }
}

impl untyped::Integer {
    /// An integer literal is an `Int`, and returns nothing.
    pub fn ty_solve(self) -> (r: typed::Integer)
        ensures
            r.ty_info == (TyInfo { ty: Ty::Int, return_ty: None }),
            r.value == self.value,
            r.span == self.span,
    {
        typed::Integer { value: self.value, span: self.span, ty_info: TyInfo { ty: Ty::Int, return_ty: None } }
    }
}

impl untyped::Boolean {
    /// A boolean literal is a `Boolean`, and returns nothing.
    pub fn ty_solve(self) -> (r: typed::Boolean)
        ensures
            r.ty_info == (TyInfo { ty: Ty::Boolean, return_ty: None }),
            r.value == self.value,
            r.span == self.span,
    {
        typed::Boolean { value: self.value, span: self.span, ty_info: TyInfo { ty: Ty::Boolean, return_ty: None } }
    }
}

impl untyped::Ident {
    /// An identifier has the type of the binding it resolves to.
    pub fn ty_solve(self, scope: &mut Scope) -> (r: Result<typed::Ident, TyError>)
        ensures
            final(scope)@ == old(scope)@,
            match spec_resolve(old(scope)@, self.binding) {
                None => r == Err::<typed::Ident, TyError>(TyError::SymbolNotFound(self.binding)),
                Some((b, t)) => r is Ok && r->Ok_0.binding == b && r->Ok_0.span == self.span
                    && r->Ok_0.ty_info == (TyInfo { ty: t, return_ty: None }),
            },
    {
        match scope.resolve(self.binding) {
            None => Err(TyError::SymbolNotFound(self.binding)),
            Some((binding, ty)) => Ok(typed::Ident { binding, span: self.span, ty_info: TyInfo { ty, return_ty: None } }),
        }
    }
}

impl untyped::Infix {
    /// Both operands are checked, and the operation decides the result type.
    pub fn ty_solve(self, compiler: &Compiler, scope: &mut Scope) -> (r: Result<typed::Infix, TyError>)
        requires
            old(scope).has_active(),
        ensures
            last_active(final(scope)@) == last_active(old(scope)@),
            agrees_expr(
                match r { Ok(t) => Ok(typed::Expression::Infix(t)), Err(e) => Err(e) },
                solve_expr(untyped::Expression::Infix(self), compiler.functions@, old(scope)@),
                final(scope)@,
            ),
            r matches Ok(t) ==> typed_expr(typed::Expression::Infix(t), untyped::Expression::Infix(self), compiler.functions@, old(scope)@),
        decreases self,
    {
        let ghost sc0 = scope@;
        let untyped::Infix { left, operation, right, span } = self;
        let left = (*left).ty_solve(compiler, scope)?;
        let right = (*right).ty_solve(compiler, scope)?;
        let left_info = left.get_ty_info();
        let right_info = right.get_ty_info();
        let ty = operation.result_ty(&left_info.ty, &right_info.ty)?;
        let ty_info = TyInfo::with_ty(ty, vec![duplicate_option(&left_info.return_ty), duplicate_option(&right_info.return_ty)])?;
        let r = typed::Infix { left: Box::new(left), operation, right: Box::new(right), span, ty_info };
        proof {
            lemma_typed_infix(r, self, compiler.functions@, sc0);
        }
        Ok(r)
    }
}


impl untyped::Block {
    /// Check every statement in order; the block's type is the value type of its
    /// last statement, and all return types within it must agree.
    #[verifier::rlimit(40)]
    pub fn ty_solve(self, compiler: &Compiler, scope: &mut Scope) -> (r: Result<typed::Block, TyError>)
        requires
            old(scope).has_active(),
        ensures
            last_active(final(scope)@) == last_active(old(scope)@),
            agrees_block(r, solve_block(self, compiler.functions@, old(scope)@), final(scope)@),
            r matches Ok(t) ==> typed_block(t, self, compiler.functions@, old(scope)@),
        decreases self,
    {
        let ghost sc0 = scope@;
        let untyped::Block { statements, span } = self;
        let ghost all = statements@;
        let n = statements.len();
        let last_implicit = if n > 0 {
            match &statements[n - 1] {
                untyped::Statement::ExpressionStatement(s) => s.implicit_return,
                _ => false,
            }
        } else {
            false
        };
        let mut rest = statements;
        let mut out: Vec<typed::Statement> = Vec::new();
        let mut i: usize = 0;
        assert(all.take(0) =~= Seq::<untyped::Statement>::empty());
        assert(stmt_infos(out@) =~= Seq::<TyInfo>::empty());
        assert(out@ =~= Seq::<typed::Statement>::empty());
        proof {
            lemma_typed_stmts_empty(compiler.functions@, old(scope)@);
        }
        while rest.len() > 0
            invariant
                i + rest.len() == all.len(),
                rest@ == all.skip(i as int),
                scope.has_active(),
                last_active(scope@) == last_active(old(scope)@),
                solve_stmts(all.take(i as int), compiler.functions@, old(scope)@) == Ok::<(Seq<TyInfo>, Seq<ScopePartView>), TyError>((stmt_infos(out@), scope@)),
                typed_stmts(out@, all.take(i as int), compiler.functions@, old(scope)@),
                all == self.statements@,
                all.len() <= usize::MAX,
                out.len() == i,
            decreases rest.len(),
        {
            let st = rest.remove(0);
            assert(st == all[i as int]);
            assert(all.take(i + 1).drop_last() =~= all.take(i as int));
            assert(all.take(i + 1).last() == all[i as int]);
            let t = match st.ty_solve(compiler, scope) {
                Ok(t) => t,
                Err(err) => {
                    proof {
                        lemma_stmts_err_prefix(all, i + 1, all.len() as int, compiler.functions@, old(scope)@);
                        assert(all.take(all.len() as int) =~= all);
                    }
                    return Err(err);
                },
            };
            let ghost prev = out@;
            proof {
                lemma_typed_stmts_push(prev, all.take(i as int), t, st, compiler.functions@, old(scope)@);
                assert(all.take(i as int).push(st) =~= all.take(i + 1));
            }
            out.push(t);
            assert(stmt_infos(out@) =~= stmt_infos(prev).push(out@.last().info()));
            i = i + 1;
            assert(rest@ =~= all.skip(i as int));
        }
        assert(all.take(i as int) =~= all);
        let ty = if last_implicit && out.len() > 0 {
            out[out.len() - 1].get_ty_info().ty.duplicate()
        } else {
            Ty::Unit
        };
        assert(out@.len() == all.len());
        assert(all.len() > 0 ==> stmt_infos(out@).last() == out@[out@.len() - 1].info());
        assert(ty == block_value_ty(all, stmt_infos(out@)));
        let ty_info = TyInfo::with_ty(ty, statement_return_tys(&out))?;
        let r = typed::Block { statements: out, span, ty_info };
        proof {
            lemma_typed_block(r, self, compiler.functions@, sc0);
        }
        Ok(r)
    }
}

impl untyped::Statement {
    /// Type check this statement within the given scopes.
    pub fn ty_solve(self, compiler: &Compiler, scope: &mut Scope) -> (r: Result<typed::Statement, TyError>)
        requires
            old(scope).has_active(),
        ensures
            last_active(final(scope)@) == last_active(old(scope)@),
            agrees_stmt(r, solve_stmt(self, compiler.functions@, old(scope)@), final(scope)@),
            r matches Ok(t) ==> typed_stmt(t, self, compiler.functions@, old(scope)@),
        decreases self,
    {
        let ghost sc0 = scope@;
        let ghost fns = compiler.functions@;
        match self {
            untyped::Statement::Return(s) => {
                let value = s.value.ty_solve(compiler, scope)?;
                let info = value.get_ty_info();
                let ty_info = TyInfo::with_ty(Ty::Never, vec![Some(info.ty.duplicate()), duplicate_option(&info.return_ty)])?;
                let t = typed::ReturnStatement { value, span: s.span, ty_info };
                proof {
                    lemma_typed_return(t, s, fns, sc0);
                }
                Ok(typed::Statement::Return(t))
            },
            untyped::Statement::Let(s) => {
                let value = s.value.ty_solve(compiler, scope)?;
                let info = value.get_ty_info();
                if let Some(ty) = &s.ty {
                    if !ty.check(&info.ty) {
                        return Err(TyError::Mismatch(ty.duplicate(), info.ty.duplicate()));
                    }
                }
                let ty_info = TyInfo { ty: Ty::Unit, return_ty: duplicate_option(&info.return_ty) };
                proof {
                    crate::scope::lemma_register_keeps_active(scope@, s.binding, info.ty);
                }
                let binding = scope.register(s.binding, info.ty.duplicate());
                let t = typed::LetStatement { binding, value, span: s.span, ty_info };
                proof {
                    lemma_typed_let(t, s, fns, sc0);
                }
                Ok(typed::Statement::Let(t))
            },
            untyped::Statement::ExpressionStatement(s) => {
                let expression = s.expression.ty_solve(compiler, scope)?;
                let info = expression.get_ty_info();
                let ty_info = TyInfo {
                    ty: if s.implicit_return { info.ty.duplicate() } else { Ty::Unit },
                    return_ty: duplicate_option(&info.return_ty),
                };
                let t = typed::ExpressionStatement { expression, implicit_return: s.implicit_return, span: s.span, ty_info };
                proof {
                    lemma_typed_expression_statement(t, s, fns, sc0);
                }
                Ok(typed::Statement::ExpressionStatement(t))
            },
            untyped::Statement::Break(s) => {
                let t = typed::BreakStatement { span: s.span, ty_info: TyInfo { ty: Ty::Never, return_ty: None } };
                proof {
                    lemma_typed_break(t, s, fns, sc0);
                }
                Ok(typed::Statement::Break(t))
            },
            untyped::Statement::Continue(s) => {
                let t = typed::ContinueStatement { span: s.span, ty_info: TyInfo { ty: Ty::Never, return_ty: None } };
                proof {
                    lemma_typed_continue(t, s, fns, sc0);
                }
                Ok(typed::Statement::Continue(t))
            },
        }
    }
}

/// Type check the `else` branch of an `if`, if there is one.
fn solve_otherwise(otherwise: Option<untyped::Block>, compiler: &Compiler, scope: &mut Scope) -> (r: Result<Option<typed::Block>, TyError>)
    requires
        old(scope).has_active(),
    ensures
        last_active(final(scope)@) == last_active(old(scope)@),
        match otherwise {
            None => r == Ok::<Option<typed::Block>, TyError>(None) && final(scope)@ == old(scope)@,
            Some(b) => match r {
                Ok(Some(t)) => agrees_block(Ok(t), solve_block(b, compiler.functions@, old(scope)@), final(scope)@)
                    && typed_block(t, b, compiler.functions@, old(scope)@),
                Ok(None) => false,
                Err(e) => agrees_block(Err(e), solve_block(b, compiler.functions@, old(scope)@), final(scope)@),
            },
        },
    decreases otherwise,
{
    match otherwise {
        Some(o) => {
            let t = o.ty_solve(compiler, scope)?;
            Ok(Some(t))
        },
        None => Ok(None),
    }
}

impl untyped::If {
    /// The condition must be a boolean; the branches must agree on their type,
    /// and every return type within them must agree.
    pub fn ty_solve(self, compiler: &Compiler, scope: &mut Scope) -> (r: Result<typed::If, TyError>)
        requires
            old(scope).has_active(),
        ensures
            last_active(final(scope)@) == last_active(old(scope)@),
            agrees_expr(
                match r { Ok(t) => Ok(typed::Expression::If(t)), Err(e) => Err(e) },
                solve_expr(untyped::Expression::If(self), compiler.functions@, old(scope)@),
                final(scope)@,
            ),
            r matches Ok(t) ==> typed_expr(typed::Expression::If(t), untyped::Expression::If(self), compiler.functions@, old(scope)@),
        decreases self,
    {
        let ghost fns = compiler.functions@;
        let ghost sc0 = scope@;
        let untyped::If { condition, success, otherwise, span } = self;
        let condition = (*condition).ty_solve(compiler, scope)?;
        let ghost sc1 = scope@;
        let condition_info = condition.get_ty_info();
        if !condition_info.ty.check(&Ty::Boolean) {
            return Err(TyError::Mismatch(Ty::Boolean, condition_info.ty.duplicate()));
        }
        assert(solve_expr(*self.condition, fns, sc0) == Ok::<(TyInfo, Seq<ScopePartView>), TyError>((*condition_info, sc1)));
        let success = success.ty_solve(compiler, scope)?;
        let ghost sc2 = scope@;
        assert(solve_block(self.success, fns, sc1) == Ok::<(TyInfo, Seq<ScopePartView>), TyError>((success.ty_info, sc2)));
        let otherwise = solve_otherwise(otherwise, compiler, scope)?;
        let ghost other_info = match &otherwise {
            Some(o) => Some(o.ty_info),
            None => None,
        };
        let other_ty = match &otherwise {
            Some(o) => o.ty_info.ty.duplicate(),
            None => Ty::Unit,
        };
        let other_return_ty = match &otherwise {
            Some(o) => duplicate_option(&o.ty_info.return_ty),
            None => None,
        };
        let tys = vec![success.ty_info.ty.duplicate(), other_ty];
        let return_tys = vec![
            duplicate_option(&condition_info.return_ty),
            duplicate_option(&success.ty_info.return_ty),
            other_return_ty,
        ];
        assert(tys@ == seq![success.ty_info.ty, match other_info { Some(o) => o.ty, None => Ty::Unit }]);
        assert(return_tys@ == seq![condition_info.return_ty, success.ty_info.return_ty, match other_info { Some(o) => o.return_ty, None => None }]);
        let ty_info = TyInfo::from_parts(tys, return_tys);
        assert(ty_info == spec_if_info(*condition_info, success.ty_info, other_info));
        let ty_info = ty_info?;
        let r = typed::If { condition: Box::new(condition), success, otherwise, span, ty_info };
        proof {
            lemma_typed_if(r, self, fns, sc0);
        }
        Ok(r)
    }
}

impl untyped::Loop {
    /// The body of a loop must not produce a value.
    pub fn ty_solve(self, compiler: &Compiler, scope: &mut Scope) -> (r: Result<typed::Loop, TyError>)
        requires
            old(scope).has_active(),
        ensures
            last_active(final(scope)@) == last_active(old(scope)@),
            agrees_expr(
                match r { Ok(t) => Ok(typed::Expression::Loop(t)), Err(e) => Err(e) },
                solve_expr(untyped::Expression::Loop(self), compiler.functions@, old(scope)@),
                final(scope)@,
            ),
            r matches Ok(t) ==> typed_expr(typed::Expression::Loop(t), untyped::Expression::Loop(self), compiler.functions@, old(scope)@),
        decreases self,
    {
        let body = self.body.ty_solve(compiler, scope)?;
        match body.ty_info.ty {
            Ty::Unit | Ty::Never => {},
            _ => {
                return Err(TyError::Mismatch(Ty::Unit, body.ty_info.ty.duplicate()));
            },
        }
        let ty_info = body.ty_info.duplicate();
        let r = typed::Loop { body, span: self.span, ty_info };
        proof {
            lemma_typed_loop(r, self, compiler.functions@, old(scope)@);
        }
        Ok(r)
    }
}

impl untyped::Call {
    /// The arguments must match the parameter types of the called function; the
    /// call has the function's return type.
    #[verifier::loop_isolation(false)]
    pub fn ty_solve(self, compiler: &Compiler, scope: &mut Scope) -> (r: Result<typed::Call, TyError>)
        requires
            old(scope).has_active(),
        ensures
            last_active(final(scope)@) == last_active(old(scope)@),
            agrees_expr(
                match r { Ok(t) => Ok(typed::Expression::Call(t)), Err(e) => Err(e) },
                solve_expr(untyped::Expression::Call(self), compiler.functions@, old(scope)@),
                final(scope)@,
            ),
            r matches Ok(t) ==> typed_expr(typed::Expression::Call(t), untyped::Expression::Call(self), compiler.functions@, old(scope)@),
            r is Ok ==> r->Ok_0.name == FunctionIdx(lookup_function(compiler.functions@, self.name) as usize),
        decreases self,
    {
        let ghost sc0 = scope@;
        let untyped::Call { name, args, span } = self;
        let args = solve_expression_list(args, compiler, scope)?;
        let idx = match compiler.functions.get_idx(name) {
            Some(idx) => idx,
            None => {
                return Err(TyError::SymbolNotFound(name));
            },
        };
        proof {
            lemma_lookup_function(compiler.functions@, name);
        }
        let signature = compiler.functions.get(idx);
        let ghost f = compiler.functions@[lookup_function(compiler.functions@, name)];
        assert(idx.0 as int == lookup_function(compiler.functions@, name));
        assert(signature_view(*signature) == (f.1, f.2));
        assert(signature.arguments@ == f.1 && signature.return_ty == f.2);
        if args.len() != signature.arguments.len() {
            return Err(TyError::ArgumentCount { parameters: signature.arguments.len(), arguments: args.len() });
        }
        let arg_tys = expression_tys(&args);
        let mut i: usize = 0;
        while i < args.len()
            invariant
                i <= args.len(),
                args.len() == signature.arguments.len(),
                arg_tys@ == tys_of(expr_infos(args@)),
                first_arg_mismatch(signature.arguments@, arg_tys@, 0) == first_arg_mismatch(signature.arguments@, arg_tys@, i as int),
            decreases args.len() - i,
        {
            if !arg_tys[i].same(&signature.arguments[i]) {
                assert(first_arg_mismatch(signature.arguments@, arg_tys@, i as int) == i);
                return Err(TyError::Mismatch(signature.arguments[i].duplicate(), arg_tys[i].duplicate()));
            }
            i = i + 1;
        }
        assert(first_arg_mismatch(signature.arguments@, arg_tys@, i as int) == -1);
        let ty_info = TyInfo::with_ty(signature.return_ty.duplicate(), expression_return_tys(&args))?;
        let r = typed::Call { name: idx, args, span, ty_info };
        proof {
            lemma_typed_call(r, self, compiler.functions@, sc0);
        }
        Ok(r)
    }
}

impl untyped::Assign {
    /// The binding must exist, and the value must have exactly its type.
    pub fn ty_solve(self, compiler: &Compiler, scope: &mut Scope) -> (r: Result<typed::Assign, TyError>)
        requires
            old(scope).has_active(),
        ensures
            last_active(final(scope)@) == last_active(old(scope)@),
            agrees_expr(
                match r { Ok(t) => Ok(typed::Expression::Assign(t)), Err(e) => Err(e) },
                solve_expr(untyped::Expression::Assign(self), compiler.functions@, old(scope)@),
                final(scope)@,
            ),
            r matches Ok(t) ==> typed_expr(typed::Expression::Assign(t), untyped::Expression::Assign(self), compiler.functions@, old(scope)@),
        decreases self,
    {
        let ghost sc0 = scope@;
        let untyped::Assign { binding, value, span } = self;
        let (resolved, ty) = match scope.resolve(binding) {
            Some(found) => found,
            None => {
                return Err(TyError::SymbolNotFound(binding));
            },
        };
        let value = (*value).ty_solve(compiler, scope)?;
        let info = value.get_ty_info();
        if !info.ty.same(&ty) {
            return Err(TyError::Mismatch(ty, info.ty.duplicate()));
        }
        let ty_info = TyInfo { ty: Ty::Unit, return_ty: duplicate_option(&info.return_ty) };
        let r = typed::Assign { binding: resolved, value: Box::new(value), span, ty_info };
        proof {
            lemma_typed_assign(r, self, compiler.functions@, sc0);
        }
        Ok(r)
    }
}

impl untyped::Cast {
    /// Only casts between `Int` and `Uint` are allowed.
    pub fn ty_solve(self, compiler: &Compiler, scope: &mut Scope) -> (r: Result<typed::Cast, TyError>)
        requires
            old(scope).has_active(),
        ensures
            last_active(final(scope)@) == last_active(old(scope)@),
            agrees_expr(
                match r { Ok(t) => Ok(typed::Expression::Cast(t)), Err(e) => Err(e) },
                solve_expr(untyped::Expression::Cast(self), compiler.functions@, old(scope)@),
                final(scope)@,
            ),
            r matches Ok(t) ==> typed_expr(typed::Expression::Cast(t), untyped::Expression::Cast(self), compiler.functions@, old(scope)@),
        decreases self,
    {
        let ghost sc0 = scope@;
        let untyped::Cast { value, target_ty, span } = self;
        let value = (*value).ty_solve(compiler, scope)?;
        let info = value.get_ty_info();
        let allowed = match (&info.ty, &target_ty) {
            (Ty::Uint, Ty::Int) => true,
            (Ty::Int, Ty::Uint) => true,
            _ => false,
        };
        if !allowed {
            return Err(TyError::Cast(info.ty.duplicate(), target_ty));
        }
        let ty_info = TyInfo { ty: target_ty.duplicate(), return_ty: duplicate_option(&info.return_ty) };
        let r = typed::Cast { value: Box::new(value), target_ty, span, ty_info };
        proof {
            lemma_typed_cast(r, self, compiler.functions@, sc0);
        }
        Ok(r)
    }
}

impl untyped::Index {
    /// The index must be an `Int`, and the indexed binding an array.
    pub fn ty_solve(self, compiler: &Compiler, scope: &mut Scope) -> (r: Result<typed::Index, TyError>)
        requires
            old(scope).has_active(),
        ensures
            last_active(final(scope)@) == last_active(old(scope)@),
            agrees_expr(
                match r { Ok(t) => Ok(typed::Expression::Index(t)), Err(e) => Err(e) },
                solve_expr(untyped::Expression::Index(self), compiler.functions@, old(scope)@),
                final(scope)@,
            ),
            r matches Ok(t) ==> typed_expr(typed::Expression::Index(t), untyped::Expression::Index(self), compiler.functions@, old(scope)@),
        decreases self,
    {
        let ghost sc0 = scope@;
        let untyped::Index { value, index, span } = self;
        let index = (*index).ty_solve(compiler, scope)?;
        let info = index.get_ty_info();
        if !info.ty.same(&Ty::Int) {
            return Err(TyError::Mismatch(info.ty.duplicate(), Ty::Int));
        }
        let (resolved, ty) = match scope.resolve(value) {
            Some(found) => found,
            None => {
                return Err(TyError::SymbolNotFound(value));
            },
        };
        let result_ty = match ty {
            Ty::Array { inner, size: _ } => *inner,
            other => {
                return Err(TyError::Index(other));
            },
        };
        let ty_info = TyInfo { ty: result_ty, return_ty: duplicate_option(&info.return_ty) };
        let r = typed::Index { value: resolved, index: Box::new(index), span, ty_info };
        proof {
            lemma_typed_index(r, self, compiler.functions@, sc0);
        }
        Ok(r)
    }
}

impl untyped::Array {
    /// The items of an array must agree on their type; the array's size is its
    /// number of items.
    pub fn ty_solve(self, compiler: &Compiler, scope: &mut Scope) -> (r: Result<typed::Array, TyError>)
        requires
            old(scope).has_active(),
        ensures
            last_active(final(scope)@) == last_active(old(scope)@),
            agrees_expr(
                match r { Ok(t) => Ok(typed::Expression::Array(t)), Err(e) => Err(e) },
                solve_expr(untyped::Expression::Array(self), compiler.functions@, old(scope)@),
                final(scope)@,
            ),
            r matches Ok(t) ==> typed_expr(typed::Expression::Array(t), untyped::Expression::Array(self), compiler.functions@, old(scope)@),
        decreases self,
    {
        let ghost sc0 = scope@;
        let untyped::Array { init, span } = self;
        let init = solve_expression_list(init, compiler, scope)?;
        let item_info = TyInfo::from_parts(expression_tys(&init), expression_return_tys(&init))?;
        let size = init.len() as u32;
        let ty_info = TyInfo {
            ty: Ty::Array { inner: Box::new(item_info.ty), size },
            return_ty: item_info.return_ty,
        };
        let r = typed::Array { init, span, ty_info };
        proof {
            lemma_typed_array(r, self, compiler.functions@, sc0);
        }
        Ok(r)
    }
}

} // verus!

verus! {

/// The parameter types of a function's parameters.
pub open spec fn parameter_tys(parameters: Seq<(Symbol, Ty)>) -> Seq<Ty> {
    parameters.map_values(|p: (Symbol, Ty)| p.1)
}

/// The scopes in which a function's body is checked: a single open scope
/// holding its parameters.
pub open spec fn function_scopes(f: untyped::Function) -> Seq<ScopePartView> {
    seq![(true, f.parameters@)]
}


/// Type checking a function: its body is checked with the parameters in scope,
/// and any returned value and the body's value must agree with the declared
/// return type. The result is the body's type information and the scopes after it.
pub open spec fn solve_function(f: untyped::Function, fns: Seq<FunctionView>) -> Solved {
    match solve_block(f.body, fns, function_scopes(f)) {
        Err(e) => Err(e),
        Ok((b, sc)) => match b.return_ty {
            Some(rt) if !ty_compatible(f.return_ty, rt) => Err(TyError::Mismatch(f.return_ty, rt)),
            _ => if !ty_compatible(b.ty, Ty::Unit) && !ty_compatible(f.return_ty, b.ty) {
                Err(TyError::Mismatch(f.return_ty, b.ty))
            } else {
                Ok((b, sc))
            },
        },
    }
}

impl FunctionSignature {
    /// The signature of a declared function.
    pub fn from_function(function: &untyped::Function) -> (r: FunctionSignature)
        ensures
            r.arguments@ == parameter_tys(function.parameters@),
            r.return_ty == function.return_ty,
    {
        let mut arguments: Vec<Ty> = Vec::new();
        let mut i: usize = 0;
        while i < function.parameters.len()
            invariant
                i <= function.parameters.len(),
                arguments@ == parameter_tys(function.parameters@).take(i as int),
            decreases function.parameters.len() - i,
        {
            arguments.push(function.parameters[i].1.duplicate());
            assert(arguments@ =~= parameter_tys(function.parameters@).take(i + 1));
            i = i + 1;
        }
        assert(parameter_tys(function.parameters@).take(i as int) =~= parameter_tys(function.parameters@));
        FunctionSignature { arguments, return_ty: function.return_ty.duplicate() }
    }
}

impl untyped::Function {
    /// Type check a function that has already been registered. The bindings made
    /// while checking its body are recorded against its registration.
    pub fn ty_solve(self, compiler: &mut Compiler) -> (r: Result<typed::Function, TyError>)
        requires
            lookup_function(old(compiler).functions@, self.name) >= 0,
        ensures
            final(compiler).functions@ == old(compiler).functions@,
            final(compiler).symbols@ == old(compiler).symbols@,
            match r {
                Ok(t) => solve_function(self, old(compiler).functions@) == Ok::<(TyInfo, Seq<ScopePartView>), TyError>((t.body.ty_info, solve_function(self, old(compiler).functions@)->Ok_0.1))
                    && typed_function(t, self, old(compiler).functions@),
                Err(e) => solve_function(self, old(compiler).functions@) == Err::<(TyInfo, Seq<ScopePartView>), TyError>(e),
            },
            match solve_block(self.body, old(compiler).functions@, function_scopes(self)) {
                Ok((_, sc)) => final(compiler).functions.bindings() == old(compiler).functions.bindings().update(
                    lookup_function(old(compiler).functions@, self.name),
                    old(compiler).functions.bindings()[lookup_function(old(compiler).functions@, self.name)] + all_bindings(sc),
                ),
                Err(_) => final(compiler).functions.bindings() == old(compiler).functions.bindings(),
            },
    {
        let idx = compiler.functions.get_idx(self.name).unwrap();
        proof {
            lemma_lookup_function(compiler.functions@, self.name);
        }
        let ghost fns = compiler.functions@;
        let untyped::Function { name, parameters: untyped_parameters, return_ty, body, span } = self;
        // Create the scope for this function, holding its parameters
        let mut scope = Scope::new();
        let mut parameters: Vec<(ScopedBinding, Ty)> = Vec::new();
        let mut i: usize = 0;
        assert(untyped_parameters@.take(0) =~= Seq::<(Symbol, Ty)>::empty());
        while i < untyped_parameters.len()
            invariant
                i <= untyped_parameters.len(),
                scope@ == seq![(true, untyped_parameters@.take(i as int))],
                parameters.len() == i,
                forall|k: int| 0 <= k < i ==> #[trigger] parameters@[k] == (ScopedBinding(0, k as usize), untyped_parameters@[k].1),
            decreases untyped_parameters.len() - i,
        {
            proof {
                crate::scope::lemma_last_active_bounds(scope@);
            }
            assert(last_active(scope@) == 0);
            let binding = scope.register(untyped_parameters[i].0, untyped_parameters[i].1.duplicate());
            parameters.push((binding, untyped_parameters[i].1.duplicate()));
            assert(untyped_parameters@.take(i + 1) =~= untyped_parameters@.take(i as int).push(untyped_parameters@[i as int]));
            assert(scope@ =~= seq![(true, untyped_parameters@.take(i + 1))]);
            i = i + 1;
        }
        assert(untyped_parameters@.take(i as int) =~= untyped_parameters@);
        proof {
            crate::scope::lemma_last_active_bounds(scope@);
        }
        // Type check the body, allowing it to use the function's scope
        let body = body.ty_solve(compiler, &mut scope)?;
        // Record the bindings from the scope against the function
        let bindings = scope.bindings();
        let ghost start = compiler.functions.bindings();
        proof {
            compiler.functions.lemma_bindings_len();
            assert(start[idx.0 as int] + bindings@.take(0) =~= start[idx.0 as int]);
            assert(start.update(idx.0 as int, start[idx.0 as int]) =~= start);
        }
        let mut k: usize = 0;
        while k < bindings.len()
            invariant
                k <= bindings.len(),
                idx.0 < compiler.functions@.len(),
                compiler.functions@ == fns,
                compiler.symbols@ == old(compiler).symbols@,
                idx.0 as int == lookup_function(fns, name),
                compiler.functions.bindings() == start.update(idx.0 as int, start[idx.0 as int] + bindings@.take(k as int)),
                start.len() == fns.len(),
            decreases bindings.len() - k,
        {
            let entry = &bindings[k];
            compiler.functions.register_binding(idx, entry.0, entry.1, entry.2.duplicate());
            assert(start[idx.0 as int] + bindings@.take(k + 1) =~= (start[idx.0 as int] + bindings@.take(k as int)).push(bindings@[k as int]));
            k = k + 1;
        }
        assert(bindings@.take(k as int) =~= bindings@);
        // Any returned value must agree with the annotated return type
        if let Some(found) = &body.ty_info.return_ty {
            if !return_ty.check(found) {
                return Err(TyError::Mismatch(return_ty, found.duplicate()));
            }
        }
        // The value of the body must agree with the annotated return type
        if !body.ty_info.ty.check(&Ty::Unit) && !return_ty.check(&body.ty_info.ty) {
            return Err(TyError::Mismatch(return_ty, body.ty_info.ty.duplicate()));
        }
        let r = typed::Function { name: idx, parameters, return_ty, body, span };
        proof {
            lemma_typed_function(r, self, fns);
        }
        Ok(r)
    }
}

} // verus!

verus! {

/// The model of a function's registration.
pub open spec fn function_view(f: untyped::Function) -> FunctionView {
    (f.name, parameter_tys(f.parameters@), f.return_ty)
}

/// The registry once `main` and then every other function of a program are registered.
pub open spec fn registered_program(p: untyped::Program, fns: Seq<FunctionView>) -> Seq<FunctionView> {
    fns.push(function_view(p.main)) + p.functions@.map_values(|f: untyped::Function| function_view(f))
}

/// The first error met while checking the given functions in order, if any.
pub open spec fn first_function_error(fs: Seq<untyped::Function>, fns: Seq<FunctionView>) -> Option<TyError>
    decreases fs.len(),
{
    if fs.len() == 0 {
        None
    } else {
        match first_function_error(fs.drop_last(), fns) {
            Some(e) => Some(e),
            None => match solve_function(fs.last(), fns) {
                Err(e) => Some(e),
                Ok(_) => None,
            },
        }
    }
}

/// Type checking a program: `main` must return an `Int`; every function is
/// registered, and then `main` and every other function are checked in order.
pub open spec fn solve_program(p: untyped::Program, fns: Seq<FunctionView>) -> Result<(), TyError> {
    if !ty_compatible(p.main.return_ty, Ty::Int) {
        Err(TyError::Mismatch(Ty::Int, p.main.return_ty))
    } else {
        match solve_function(p.main, registered_program(p, fns)) {
            Err(e) => Err(e),
            Ok(_) => match first_function_error(p.functions@, registered_program(p, fns)) {
                Some(e) => Err(e),
                None => Ok(()),
            },
        }
    }
}

proof fn lemma_first_error_prefix(all: Seq<untyped::Function>, k: int, n: int, fns: Seq<FunctionView>)
    requires
        0 <= k <= n <= all.len(),
        first_function_error(all.take(k), fns) is Some,
    ensures
        first_function_error(all.take(n), fns) == first_function_error(all.take(k), fns),
    decreases n - k,
{
    if n > k {
        lemma_first_error_prefix(all, k, n - 1, fns);
        assert(all.take(n).drop_last() =~= all.take(n - 1));
    }
}

proof fn lemma_registered_lookup(p: untyped::Program, fns: Seq<FunctionView>, i: int)
    requires
        -1 <= i < p.functions@.len(),
    ensures
        i < 0 ==> lookup_function(registered_program(p, fns), p.main.name) >= 0,
        i >= 0 ==> lookup_function(registered_program(p, fns), p.functions@[i].name) >= 0,
{
    let reg = registered_program(p, fns);
    let name = if i < 0 { p.main.name } else { p.functions@[i].name };
    let at = if i < 0 { fns.len() as int } else { fns.len() + 1 + i };
    assert(reg[at].0 == name);
    lemma_lookup_present(reg, name, at);
}

proof fn lemma_lookup_present(fns: Seq<FunctionView>, symbol: Symbol, at: int)
    requires
        0 <= at < fns.len(),
        fns[at].0 == symbol,
    ensures
        lookup_function(fns, symbol) >= at,
    decreases fns.len(),
{
    if at < fns.len() - 1 && fns.last().0 != symbol {
        assert(fns.drop_last()[at] == fns[at]);
        lemma_lookup_present(fns.drop_last(), symbol, at);
    }
}

impl untyped::Program {
    /// Type check a whole program.
    #[verifier::rlimit(30)]
    pub fn ty_solve(self, compiler: &mut Compiler) -> (r: Result<typed::Program, TyError>)
        ensures
            final(compiler).symbols@ == old(compiler).symbols@,
            r is Ok <==> solve_program(self, old(compiler).functions@) is Ok,
            r is Err ==> solve_program(self, old(compiler).functions@) == Err::<(), TyError>(r->Err_0),
            !ty_compatible(self.main.return_ty, Ty::Int) ==> final(compiler).functions@ == old(compiler).functions@,
            ty_compatible(self.main.return_ty, Ty::Int) ==> final(compiler).functions@ == registered_program(self, old(compiler).functions@),
            r is Ok ==> r->Ok_0.functions.len() == self.functions.len()
                && r->Ok_0.main.body.ty_info == solve_function(self.main, registered_program(self, old(compiler).functions@))->Ok_0.0
                && forall|i: int| 0 <= i < self.functions.len() ==>
                    (#[trigger] r->Ok_0.functions@[i]).body.ty_info
                        == solve_function(self.functions@[i], registered_program(self, old(compiler).functions@))->Ok_0.0,
            r is Ok ==> typed_function(r->Ok_0.main, self.main, registered_program(self, old(compiler).functions@))
                && forall|i: int| 0 <= i < self.functions.len() ==>
                    typed_function(#[trigger] r->Ok_0.functions@[i], self.functions@[i], registered_program(self, old(compiler).functions@)),
    {
        let ghost fns0 = compiler.functions@;
        let untyped::Program { functions, main, span } = self;
        // Main function must return int
        if !main.return_ty.check(&Ty::Int) {
            return Err(TyError::Mismatch(Ty::Int, main.return_ty));
        }
        compiler.functions.register(main.name, FunctionSignature::from_function(&main));
        // Pre-register all functions
        let mut i: usize = 0;
        while i < functions.len()
            invariant
                i <= functions.len(),
                compiler.symbols@ == old(compiler).symbols@,
                compiler.functions@ == fns0.push(function_view(main)) + functions@.take(i as int).map_values(|f: untyped::Function| function_view(f)),
            decreases functions.len() - i,
        {
            compiler.functions.register(functions[i].name, FunctionSignature::from_function(&functions[i]));
            assert(functions@.take(i + 1).map_values(|f: untyped::Function| function_view(f))
                =~= functions@.take(i as int).map_values(|f: untyped::Function| function_view(f)).push(function_view(functions@[i as int])));
            i = i + 1;
        }
        assert(functions@.take(i as int) =~= functions@);
        let ghost reg = compiler.functions@;
        assert(reg == registered_program(self, fns0));
        proof {
            lemma_registered_lookup(self, fns0, -1);
        }
        // Check main, then every other function
        let main = main.ty_solve(compiler)?;
        let ghost all = functions@;
        let mut rest = functions;
        let mut out: Vec<typed::Function> = Vec::new();
        let mut i: usize = 0;
        let n = rest.len();
        assert(all.take(0) =~= Seq::<untyped::Function>::empty());
        while rest.len() > 0
            invariant
                i + rest.len() == all.len(),
                all.len() == n,
                rest@ == all.skip(i as int),
                all == self.functions@,
                out.len() == i,
                compiler.functions@ == reg,
                reg == registered_program(self, fns0),
                fns0 == old(compiler).functions@,
                compiler.symbols@ == old(compiler).symbols@,
                ty_compatible(self.main.return_ty, Ty::Int),
                solve_function(self.main, reg) is Ok,
                main.body.ty_info == solve_function(self.main, reg)->Ok_0.0,
                first_function_error(all.take(i as int), reg) is None,
                forall|k: int| 0 <= k < i ==> (#[trigger] out@[k]).body.ty_info == solve_function(all[k], reg)->Ok_0.0,
                forall|k: int| 0 <= k < i ==> typed_function(#[trigger] out@[k], all[k], reg),
                typed_function(main, self.main, reg),
            decreases rest.len(),
        {
            let f = rest.remove(0);
            assert(f == all[i as int]);
            proof {
                lemma_registered_lookup(self, fns0, i as int);
            }
            assert(all.take(i + 1).drop_last() =~= all.take(i as int));
            assert(all.take(i + 1).last() == all[i as int]);
            let t = match f.ty_solve(compiler) {
                Ok(t) => t,
                Err(err) => {
                    proof {
                        lemma_first_error_prefix(all, i + 1, all.len() as int, reg);
                        assert(all.take(all.len() as int) =~= all);
                    }
                    return Err(err);
                },
            };
            out.push(t);
            i = i + 1;
            assert(rest@ =~= all.skip(i as int));
        }
        assert(all.take(i as int) =~= all);
        Ok(typed::Program { main, functions: out, span })
    }
}

} // verus!

verus! {

/// The types of infix operations: `+` and `-` take two `Int`s and give an
/// `Int`; `==` and `!=` take two compatible types and give a `Boolean`; `&&` and
/// `||` take two `Boolean`s and give a `Boolean`; any other pairing is a
/// mismatch of the two operand types, and so is every other operator.
pub proof fn law_infix_types(op: InfixOperation, left: Ty, right: Ty)
    ensures
        (op == InfixOperation::Plus || op == InfixOperation::Minus) ==> spec_result_ty(op, left, right) == (if left
            == Ty::Int && right == Ty::Int {
            Ok(Ty::Int)
        } else {
            Err(TyError::Mismatch(left, right))
        }),
        (op == InfixOperation::Eq || op == InfixOperation::NotEq) ==> spec_result_ty(op, left, right) == (if ty_compatible(
            left,
            right,
        ) {
            Ok(Ty::Boolean)
        } else {
            Err(TyError::Mismatch(left, right))
        }),
        (op == InfixOperation::And || op == InfixOperation::Or) ==> spec_result_ty(op, left, right) == (if left
            == Ty::Boolean && right == Ty::Boolean {
            Ok(Ty::Boolean)
        } else {
            Err(TyError::Mismatch(left, right))
        }),
        !(op == InfixOperation::Plus || op == InfixOperation::Minus || op == InfixOperation::Eq || op
            == InfixOperation::NotEq || op == InfixOperation::And || op == InfixOperation::Or) ==> spec_result_ty(
            op,
            left,
            right,
        ) == Err::<Ty, TyError>(TyError::Mismatch(left, right)),
{
}


/// Adding or subtracting two operands of type `Int` that return nothing checks
/// as an `Int` that returns nothing, in the scopes the right operand leaves.
pub proof fn law_int_arithmetic_checks(
    x: untyped::Infix,
    fns: Seq<FunctionView>,
    sc: Seq<ScopePartView>,
    sc1: Seq<ScopePartView>,
    sc2: Seq<ScopePartView>,
)
    requires
        x.operation == InfixOperation::Plus || x.operation == InfixOperation::Minus,
        solve_expr(*x.left, fns, sc) == Ok::<(TyInfo, Seq<ScopePartView>), TyError>((TyInfo { ty: Ty::Int, return_ty: None }, sc1)),
        solve_expr(*x.right, fns, sc1) == Ok::<(TyInfo, Seq<ScopePartView>), TyError>((TyInfo { ty: Ty::Int, return_ty: None }, sc2)),
    ensures
        solve_expr(untyped::Expression::Infix(x), fns, sc)
            == Ok::<(TyInfo, Seq<ScopePartView>), TyError>((TyInfo { ty: Ty::Int, return_ty: None }, sc2)),
{
    let rets = seq![None::<Ty>, None::<Ty>];
    assert(rets.drop_last().drop_last() =~= Seq::<Option<Ty>>::empty());
    assert(flatten_tys(rets.drop_last().drop_last()) =~= Seq::<Ty>::empty());
    assert(flatten_tys(rets.drop_last()) =~= Seq::<Ty>::empty());
    assert(flatten_tys(rets) =~= Seq::<Ty>::empty());
    assert(drop_never(Seq::<Ty>::empty()) =~= Seq::<Ty>::empty());
    reveal(spec_collapse);
    assert(spec_collapse(flatten_tys(rets)) == Ok::<Option<Ty>, TyError>(None));
}

} // verus!
