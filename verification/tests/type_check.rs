use language::ast::typed;
use language::ident::ScopedBinding;
use language::ast::untyped::{Call, Cast, Index};
use language::ty::FunctionSignature;
use language::ast::untyped::{
    Block, Boolean, Expression, ExpressionStatement, Ident, Infix, Integer, LetStatement,
    ReturnStatement, Statement,
};
use language::ast::InfixOperation;
use language::compiler::Compiler;
use language::ident::{Span, Symbol};
use language::scope::Scope;
use language::ty::{Ty, TyError};

fn span() -> Span {
    Span { start: 0, end: 0 }
}

fn integer(value: i64) -> Expression {
    Expression::Integer(Integer { value, span: span() })
}

fn boolean(value: bool) -> Expression {
    Expression::Boolean(Boolean { value, span: span() })
}

fn let_stmt(binding: Symbol, value: Expression) -> Statement {
    Statement::Let(LetStatement { binding, value, ty: None, span: span() })
}

fn expression_statement(expression: Expression, implicit_return: bool) -> Statement {
    Statement::ExpressionStatement(ExpressionStatement { expression, implicit_return, span: span() })
}

fn ret_stmt(value: Expression) -> Statement {
    Statement::Return(ReturnStatement { value, span: span() })
}

#[test]
fn ty_check_block() {
    let b = Block {
        statements: vec![
            let_stmt(Symbol(0), integer(1)),
            expression_statement(integer(1), false),
            ret_stmt(integer(1)),
        ],
        span: span(),
    };
    let ty_info = b.ty_solve(&Compiler::new(), &mut Scope::new()).unwrap().ty_info;
    assert_eq!(ty_info.ty, Ty::Unit);
    assert_eq!(ty_info.return_ty, Some(Ty::Int));
}

#[test]
fn return_block_conflicting_return() {
    let b = Block {
        statements: vec![
            let_stmt(Symbol(0), integer(1)),
            expression_statement(integer(1), false),
            ret_stmt(integer(1)),
            ret_stmt(boolean(true)),
        ],
        span: span(),
    };
    assert!(b.ty_solve(&Compiler::new(), &mut Scope::new()).is_err());
}

#[test]
fn return_block_no_return() {
    let b = Block {
        statements: vec![let_stmt(Symbol(0), integer(1)), expression_statement(integer(1), false)],
        span: span(),
    };
    let ty_info = b.ty_solve(&Compiler::new(), &mut Scope::new()).unwrap().ty_info;
    assert_eq!(ty_info.ty, Ty::Unit);
    assert_eq!(ty_info.return_ty, None);
}

#[test]
fn boolean_infer() {
    assert_eq!(Boolean { value: false, span: span() }.ty_solve().ty_info.ty, Ty::Boolean);
}

#[test]
fn boolean_return() {
    assert_eq!(Boolean { value: false, span: span() }.ty_solve().ty_info.return_ty, None);
}

#[test]
fn ident_present() {
    let symbol = Symbol(0);
    let mut scope = Scope::new();
    scope.register(symbol, Ty::Int);
    let ty_info = Ident { binding: symbol, span: span() }.ty_solve(&mut scope).unwrap().ty_info;
    assert_eq!(ty_info.ty, Ty::Int);
    assert_eq!(ty_info.return_ty, None);
}

#[test]
fn ident_infer_missing() {
    let result = Ident { binding: Symbol(0), span: span() }.ty_solve(&mut Scope::new());
    assert!(result.is_err());
    assert!(matches!(result, Err(TyError::SymbolNotFound(Symbol(0)))));
}

#[test]
fn infix_same() {
    let infix = Infix { left: Box::new(integer(0)), operation: InfixOperation::Plus, right: Box::new(integer(0)), span: span() };
    let ty_info = infix.ty_solve(&Compiler::new(), &mut Scope::new()).unwrap().ty_info;
    assert_eq!(ty_info.ty, Ty::Int);
    assert_eq!(ty_info.return_ty, None);
}

#[test]
fn infix_different() {
    let infix = Infix { left: Box::new(integer(0)), operation: InfixOperation::Plus, right: Box::new(boolean(false)), span: span() };
    let result = infix.ty_solve(&Compiler::new(), &mut Scope::new());
    assert!(result.is_err());
}

#[test]
fn return_statement() {
    let s = ret_stmt(integer(0));
    let typed = s.ty_solve(&Compiler::new(), &mut Scope::new()).unwrap();
    let ty_info = typed.get_ty_info();
    assert_eq!(ty_info.ty, Ty::Never);
    assert_eq!(ty_info.return_ty, Some(Ty::Int));
}

#[test]
fn let_statement() {
    let s = let_stmt(Symbol(0), integer(0));
    let mut scope = Scope::new();
    let typed = s.ty_solve(&Compiler::new(), &mut scope).unwrap();
    let ty_info = typed.get_ty_info();
    assert_eq!(ty_info.ty, Ty::Unit);
    assert_eq!(ty_info.return_ty, None);
    assert_eq!(scope.resolve(Symbol(0)).unwrap().1, Ty::Int);
}

#[test]
fn infer_expression() {
    let s = expression_statement(integer(0), false);
    let typed = s.ty_solve(&Compiler::new(), &mut Scope::new()).unwrap();
    assert_eq!(typed.get_ty_info().ty, Ty::Unit);
    assert_eq!(typed.get_ty_info().return_ty, None);
}

#[test]
fn infer_expression_implicit() {
    let s = expression_statement(integer(0), true);
    let typed = s.ty_solve(&Compiler::new(), &mut Scope::new()).unwrap();
    assert_eq!(typed.get_ty_info().ty, Ty::Int);
    assert_eq!(typed.get_ty_info().return_ty, None);
}

#[test]
fn check_is_compatibility() {
    assert!(Ty::Int.check(&Ty::Int));
    assert!(Ty::Never.check(&Ty::Boolean));
    assert!(Ty::Uint.check(&Ty::Never));
    assert!(!Ty::Int.check(&Ty::Boolean));
}

#[test]
fn scope_shadowing_and_leaving() {
    let mut scope = Scope::new();
    scope.register(Symbol(1), Ty::Int);
    scope.enter();
    scope.register(Symbol(1), Ty::Boolean);
    assert_eq!(scope.resolve(Symbol(1)).unwrap().1, Ty::Boolean);
    scope.leave();
    assert_eq!(scope.resolve(Symbol(1)).unwrap().1, Ty::Int);
    assert!(scope.resolve(Symbol(2)).is_none());
}

#[test]
fn cast_errors_and_successes() {
    let bad = Cast { value: Box::new(integer(1)), target_ty: Ty::Boolean, span: span() };
    let r = bad.ty_solve(&Compiler::new(), &mut Scope::new());
    assert!(matches!(r, Err(TyError::Cast(Ty::Int, Ty::Boolean))));
    let good = Cast { value: Box::new(integer(1)), target_ty: Ty::Uint, span: span() };
    assert_eq!(good.ty_solve(&Compiler::new(), &mut Scope::new()).unwrap().ty_info.ty, Ty::Uint);
}

#[test]
fn index_errors() {
    let mut scope = Scope::new();
    scope.register(Symbol(0), Ty::Int);
    let r = Index { value: Symbol(0), index: Box::new(integer(0)), span: span() }.ty_solve(&Compiler::new(), &mut scope);
    assert!(matches!(r, Err(TyError::Index(Ty::Int))));
    let r = Index { value: Symbol(0), index: Box::new(boolean(true)), span: span() }.ty_solve(&Compiler::new(), &mut scope);
    assert!(matches!(r, Err(TyError::Mismatch(Ty::Boolean, Ty::Int))));
    let r = Index { value: Symbol(5), index: Box::new(integer(0)), span: span() }.ty_solve(&Compiler::new(), &mut scope);
    assert!(matches!(r, Err(TyError::SymbolNotFound(Symbol(5)))));
}

#[test]
fn call_argument_count() {
    let mut compiler = Compiler::new();
    let name = compiler.symbols.get_or_intern("f");
    compiler.functions.register(name, FunctionSignature { arguments: vec![Ty::Int], return_ty: Ty::Int });
    let r = Call { name, args: vec![], span: span() }.ty_solve(&compiler, &mut Scope::new());
    assert!(matches!(r, Err(TyError::ArgumentCount { parameters: 1, arguments: 0 })));
    let r = Call { name, args: vec![integer(1)], span: span() }.ty_solve(&compiler, &mut Scope::new());
    assert_eq!(r.unwrap().ty_info.ty, Ty::Int);
    let r = Call { name, args: vec![boolean(true)], span: span() }.ty_solve(&compiler, &mut Scope::new());
    assert!(matches!(r, Err(TyError::Mismatch(Ty::Int, Ty::Boolean)) | Err(TyError::Mismatch(Ty::Boolean, Ty::Int))));
}

#[test]
fn interning_is_idempotent_and_injective() {
    let mut compiler = Compiler::new();
    let a = compiler.symbols.get_or_intern("alpha");
    let b = compiler.symbols.get_or_intern("beta");
    assert_eq!(compiler.symbols.get_or_intern("alpha"), a);
    assert_ne!(a, b);
    assert_eq!(compiler.symbols.resolve(a).unwrap(), "alpha");
    assert_eq!(compiler.symbols.get("beta"), Some(b));
    assert_eq!(compiler.symbols.get("gamma"), None);
}

#[test]
fn conflicting_returns_error_kind() {
    let b = Block {
        statements: vec![ret_stmt(integer(1)), ret_stmt(boolean(true))],
        span: span(),
    };
    let r = b.ty_solve(&Compiler::new(), &mut Scope::new());
    assert!(matches!(r, Err(TyError::Mismatch(_, _)) | Err(TyError::Return { .. })));
}

#[test]
fn nested_nodes_carry_bindings_and_types() {
    let sum = Expression::Infix(Infix {
        left: Box::new(Expression::Ident(Ident { binding: Symbol(0), span: span() })),
        operation: InfixOperation::Plus,
        right: Box::new(integer(2)),
        span: span(),
    });
    let b = Block {
        statements: vec![
            let_stmt(Symbol(0), integer(1)),
            let_stmt(Symbol(1), boolean(true)),
            expression_statement(sum, true),
        ],
        span: span(),
    };
    let typed_block = b.ty_solve(&Compiler::new(), &mut Scope::new()).unwrap();
    assert_eq!(typed_block.ty_info.ty, Ty::Int);
    match &typed_block.statements[1] {
        typed::Statement::Let(l) => {
            assert_eq!(l.binding, ScopedBinding(0, 1));
            assert_eq!(l.value.get_ty_info().ty, Ty::Boolean);
        },
        _ => panic!("expected a let statement"),
    }
    match &typed_block.statements[2] {
        typed::Statement::ExpressionStatement(s) => match &s.expression {
            typed::Expression::Infix(i) => {
                assert_eq!(i.ty_info.ty, Ty::Int);
                match &*i.left {
                    typed::Expression::Ident(id) => {
                        assert_eq!(id.binding, ScopedBinding(0, 0));
                        assert_eq!(id.ty_info.ty, Ty::Int);
                    },
                    _ => panic!("expected an identifier"),
                }
                assert_eq!(i.right.get_ty_info().ty, Ty::Int);
            },
            _ => panic!("expected an infix expression"),
        },
        _ => panic!("expected an expression statement"),
    }
}

#[test]
fn resolve_gives_latest_registration_in_an_open_scope() {
    let mut scope = Scope::new();
    let outer = scope.register(Symbol(1), Ty::Int);
    scope.enter();
    let inner = scope.register(Symbol(1), Ty::Boolean);
    scope.enter();
    scope.register(Symbol(2), Ty::Uint);
    scope.leave();
    assert_eq!(scope.resolve(Symbol(1)), Some((inner, Ty::Boolean)));
    assert!(scope.resolve(Symbol(2)).is_none());
    // Leaving closes the most recently entered scope, which is closed already
    scope.leave();
    let again = scope.register(Symbol(1), Ty::Uint);
    assert_eq!(again, ScopedBinding(1, 1));
    assert_eq!(scope.resolve(Symbol(1)), Some((again, Ty::Uint)));
    assert_eq!(outer, ScopedBinding(0, 0));
}
