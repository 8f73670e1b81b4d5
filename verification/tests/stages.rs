use std::rc::Rc;

use language::stages::ast::{
    BlockStatement, BooleanLiteral, CallExpression, CallableFunction, ElseBranch, Expression,
    FunctionLiteral, Identifier, IfExpression, InfixExpression, InfixOperatorToken,
    IntegerLiteral, LetStatement, PrefixExpression, PrefixToken, Program, ReturnStatement,
    Statement, StringLiteral,
};
use language::stages::code::Instruction;
use language::stages::compiler::{Compiler, SymbolTable};
use language::stages::interpreter::{interpret, interpret_expression, try_interpret, CALL_BUDGET};
use language::stages::object::{Environment, Object, Return};
use language::stages::type_checker::{try_type_check_program, type_check_block, type_check_program, Context, Type};

fn num(value: i64) -> Expression {
    Expression::Integer(IntegerLiteral::new(value))
}

fn ident(name: &str) -> Expression {
    Expression::Identifier(Identifier { value: name.to_string() })
}

fn infix(left: Expression, operator_token: InfixOperatorToken, right: Expression) -> Expression {
    Expression::Infix(InfixExpression { operator_token, left: Box::new(left), right: Box::new(right) })
}

fn expr_stmt(expression: Expression) -> Statement {
    Statement::Expression { expression, semicolon: false }
}

fn let_stmt(name: &str, value: Expression) -> Statement {
    Statement::Let(LetStatement { name: Identifier { value: name.to_string() }, value })
}

fn block(statements: Vec<Statement>) -> BlockStatement {
    BlockStatement { statements }
}

#[test]
fn addition() {
    let mut compiler = Compiler::default();
    compiler
        .compile_infix(&InfixExpression {
            operator_token: InfixOperatorToken::Plus,
            left: Box::new(num(1)),
            right: Box::new(num(2)),
        })
        .unwrap();
    assert!(matches!(
        compiler.constants[0..2],
        [Object::Integer(language::stages::object::IntegerObject { value: 1 }), Object::Integer(language::stages::object::IntegerObject { value: 2 })]
    ));
    assert_eq!(
        compiler.instructions,
        [Instruction::Constant(0).encode(), Instruction::Constant(1).encode(), Instruction::Add.encode()].concat()
    );
}

#[test]
fn int_compile() {
    let mut compiler = Compiler::default();
    compiler.compile_integer(&IntegerLiteral::new(5)).unwrap();
    assert_eq!(compiler.constants.len(), 1);
    assert!(matches!(compiler.constants[0], Object::Integer(_)));
    if let Object::Integer(int) = &compiler.constants[0] {
        assert_eq!(int.value, 5);
    }
    assert_eq!(compiler.instructions, Instruction::Constant(0).encode());
}

#[test]
fn simple_if() {
    let mut compiler = Compiler::default();
    compiler
        .compile_if_expression(&IfExpression {
            condition: Expression::Boolean(BooleanLiteral::new(true)),
            consequence: block(vec![expr_stmt(num(10))]),
            else_branch: None,
        })
        .unwrap();
    assert_eq!(
        compiler.instructions,
        [Instruction::True.encode(), Instruction::JumpNotTrue(5).encode(), Instruction::Constant(0).encode()].concat()
    );
}

#[test]
fn simple_if_else() {
    let mut compiler = Compiler::default();
    compiler
        .compile_if_expression(&IfExpression {
            condition: Expression::Boolean(BooleanLiteral::new(true)),
            consequence: block(vec![expr_stmt(num(10))]),
            else_branch: Some(ElseBranch { statement: block(vec![expr_stmt(num(99))]) }),
        })
        .unwrap();
    assert_eq!(
        compiler.instructions,
        [
            Instruction::True.encode(),
            Instruction::JumpNotTrue(8).encode(),
            Instruction::Constant(0).encode(),
            Instruction::Jump(5).encode(),
            Instruction::Constant(1).encode(),
        ]
        .concat()
    );
}

#[test]
fn encodings_are_exact() {
    assert_eq!(Instruction::Constant(0x0102_0304).encode(), vec![0, 1, 2, 3, 4]);
    assert_eq!(Instruction::Jump(-2).encode(), vec![14, 0xff, 0xfe]);
    assert_eq!(Instruction::SetGlobal(258).encode(), vec![15, 1, 2]);
    assert_eq!(Instruction::Pop.encode(), vec![1]);
}

#[test]
fn less_than_swaps_operands() {
    let mut compiler = Compiler::default();
    compiler.compile_expression(&infix(num(1), InfixOperatorToken::LeftAngle, num(2))).unwrap();
    assert!(matches!(compiler.constants[0], Object::Integer(language::stages::object::IntegerObject { value: 2 })));
    assert_eq!(
        compiler.instructions,
        [Instruction::Constant(0).encode(), Instruction::Constant(1).encode(), Instruction::GreaterThan.encode()].concat()
    );
}

#[test]
fn compile_program_with_globals() {
    let program = Program {
        statements: vec![
            let_stmt("a", num(1)),
            let_stmt("b", Expression::Prefix(PrefixExpression { prefix_token: PrefixToken::Minus, right: Box::new(num(2)) })),
            let_stmt("a", Expression::Boolean(BooleanLiteral::new(false))),
            expr_stmt(num(3)),
        ],
    };
    let bytecode = Compiler::compile(&program).unwrap();
    assert_eq!(
        bytecode.instructions,
        [
            Instruction::Constant(0).encode(),
            Instruction::SetGlobal(0).encode(),
            Instruction::Constant(1).encode(),
            Instruction::Negate.encode(),
            Instruction::SetGlobal(1).encode(),
            Instruction::False.encode(),
            Instruction::SetGlobal(0).encode(),
            Instruction::Constant(2).encode(),
            Instruction::Pop.encode(),
        ]
        .concat()
    );
    assert_eq!(bytecode.constants.len(), 3);
}

#[test]
fn symbol_table_resolves_in_order() {
    let mut table = SymbolTable::default();
    assert_eq!(table.resolve("x"), 0);
    assert_eq!(table.resolve("y"), 1);
    assert_eq!(table.resolve("x"), 0);
    assert_eq!(table.resolve("z"), 2);
}

#[test]
fn simple_expression() {
    let e = infix(ident("x"), InfixOperatorToken::Plus, ident("y"));
    let mut ctx = Context::new();
    ctx.insert("x".to_string(), Type::Integer);
    ctx.insert("y".to_string(), Type::Integer);
    assert_eq!(language::stages::type_checker::type_check_expression(&e, &mut ctx).unwrap(), Type::Integer);
}

#[test]
fn simple_program() {
    let p = Program {
        statements: vec![
            let_stmt("a", num(5)),
            let_stmt("b", num(10)),
            let_stmt("c", infix(ident("a"), InfixOperatorToken::Plus, ident("b"))),
        ],
    };
    let ctx = type_check_program(&p).unwrap();
    assert_eq!(ctx.get("a").unwrap(), Type::Integer);
    assert_eq!(ctx.get("b").unwrap(), Type::Integer);
    assert_eq!(ctx.get("c").unwrap(), Type::Integer);
}

#[test]
fn type_checker_errors() {
    let mut ctx = Context::new();
    let e = infix(num(1), InfixOperatorToken::Plus, Expression::Boolean(BooleanLiteral::new(true)));
    assert_eq!(
        language::stages::type_checker::type_check_expression(&e, &mut ctx),
        Err("expected left and right side of infix operation to be identical")
    );
    assert_eq!(language::stages::type_checker::type_check_expression(&ident("q"), &mut ctx), Err("expected ident in context"));
    let p = Program { statements: vec![Statement::Expression { expression: num(1), semicolon: false }] };
    assert!(matches!(type_check_program(&p), Err("cannot return a value from a program")));
}

fn run(statements: Vec<Statement>) -> Return<Object> {
    interpret(&Program { statements })
}

#[test]
fn interpret_arithmetic() {
    let r = run(vec![expr_stmt(infix(num(6), InfixOperatorToken::Asterisk, infix(num(3), InfixOperatorToken::Minus, num(1))))]);
    assert!(matches!(r, Return::Implicit(Object::Integer(language::stages::object::IntegerObject { value: 12 }))));
}

#[test]
fn interpret_let_and_identifier() {
    let r = run(vec![let_stmt("x", num(4)), expr_stmt(infix(ident("x"), InfixOperatorToken::Slash, num(2)))]);
    assert!(matches!(r, Return::Implicit(Object::Integer(language::stages::object::IntegerObject { value: 2 }))));
    let r = run(vec![expr_stmt(ident("missing"))]);
    match r {
        Return::Error(e) => assert_eq!(e.message, "identifier not found: \"missing\""),
        _ => panic!("expected an error"),
    }
}

#[test]
fn interpret_if_and_return() {
    let r = run(vec![
        expr_stmt(Expression::If(Box::new(IfExpression {
            condition: infix(num(1), InfixOperatorToken::LeftAngle, num(2)),
            consequence: block(vec![Statement::Return(ReturnStatement { value: num(7) })]),
            else_branch: None,
        }))),
        expr_stmt(num(9)),
    ]);
    assert!(matches!(r, Return::Explicit(Object::Integer(language::stages::object::IntegerObject { value: 7 }))));
}

#[test]
fn interpret_function_call() {
    let add = Rc::new(FunctionLiteral {
        parameters: vec![Identifier { value: "a".to_string() }, Identifier { value: "b".to_string() }],
        body: block(vec![expr_stmt(infix(ident("a"), InfixOperatorToken::Plus, ident("b")))]),
    });
    let r = run(vec![
        let_stmt("add", Expression::Function(add)),
        expr_stmt(Expression::Call(CallExpression {
            function: CallableFunction::Identifier(Identifier { value: "add".to_string() }),
            arguments: vec![num(2), num(3)],
        })),
    ]);
    assert!(matches!(r, Return::Implicit(Object::Integer(language::stages::object::IntegerObject { value: 5 }))));
    let r = run(vec![expr_stmt(Expression::Call(CallExpression {
        function: CallableFunction::Identifier(Identifier { value: "add".to_string() }),
        arguments: vec![],
    }))]);
    assert!(matches!(r, Return::Error(_)));
}

#[test]
fn interpret_strings_and_prefix() {
    let r = run(vec![expr_stmt(infix(
        Expression::String(StringLiteral { value: "ab".to_string() }),
        InfixOperatorToken::Plus,
        Expression::String(StringLiteral { value: "cd".to_string() }),
    ))]);
    match r {
        Return::Implicit(Object::String(s)) => assert_eq!(s.value, "abcd"),
        _ => panic!("expected a string"),
    }
    let r = run(vec![expr_stmt(Expression::Prefix(PrefixExpression {
        prefix_token: PrefixToken::Bang,
        right: Box::new(Expression::Boolean(BooleanLiteral::new(true))),
    }))]);
    assert!(matches!(r, Return::Implicit(Object::Boolean(language::stages::object::BooleanObject { value: false }))));
    let r = run(vec![expr_stmt(Expression::Prefix(PrefixExpression { prefix_token: PrefixToken::Minus, right: Box::new(Expression::Boolean(BooleanLiteral::new(true))) }))]);
    match r {
        Return::Error(e) => assert_eq!(e.message, "prefix operation not supported"),
        _ => panic!("expected an error"),
    }
}

#[test]
fn interpret_expression_in_environment() {
    let mut env = Environment::new();
    env.set("v", Object::integer(41));
    let r = interpret_expression(&mut env, &infix(ident("v"), InfixOperatorToken::Plus, num(1)), CALL_BUDGET);
    assert!(matches!(r, Return::Implicit(Object::Integer(language::stages::object::IntegerObject { value: 42 }))));
}

#[test]
fn environment_get_after_set() {
    let mut env = Environment::new();
    env.set("a", Object::integer(1));
    env.set("b", Object::integer(2));
    env.set("a", Object::integer(3));
    assert!(matches!(env.get("a"), Some(Object::Integer(language::stages::object::IntegerObject { value: 3 }))));
    assert!(matches!(env.get("b"), Some(Object::Integer(language::stages::object::IntegerObject { value: 2 }))));
    let nested = env.nest();
    assert!(matches!(nested.get("a"), Some(Object::Integer(language::stages::object::IntegerObject { value: 3 }))));
    assert!(env.get("c").is_none());
}

#[test]
fn compile_concatenates_statements() {
    let first = Compiler::compile(&Program { statements: vec![let_stmt("a", num(1))] }).unwrap();
    let both = Compiler::compile(&Program { statements: vec![let_stmt("a", num(1)), expr_stmt(num(2))] }).unwrap();
    let mut expected = first.instructions.clone();
    expected.extend([Instruction::Constant(1).encode(), Instruction::Pop.encode()].concat());
    assert_eq!(both.instructions, expected);
}

#[test]
fn distinct_instructions_encode_differently() {
    let all = [
        Instruction::Constant(1), Instruction::Pop, Instruction::Add, Instruction::Sub, Instruction::Mul,
        Instruction::Div, Instruction::True, Instruction::False, Instruction::Equal, Instruction::NotEqual,
        Instruction::GreaterThan, Instruction::Negate, Instruction::Bang, Instruction::JumpNotTrue(1),
        Instruction::Jump(1), Instruction::SetGlobal(1),
    ];
    for (i, a) in all.iter().enumerate() {
        for (j, b) in all.iter().enumerate() {
            assert_eq!(i == j, a.encode() == b.encode());
        }
    }
}

#[test]
fn type_checking_reaches_an_unhandled_construct() {
    let conditional = Expression::If(Box::new(IfExpression {
        condition: Expression::Boolean(BooleanLiteral::new(true)),
        consequence: BlockStatement { statements: vec![expr_stmt(num(1))] },
        else_branch: None,
    }));
    let p = Program { statements: vec![let_stmt("a", num(1)), let_stmt("b", conditional)] };
    assert!(try_type_check_program(&p).is_none());
    let mut ctx = Context::new();
    assert!(!ctx.has_reached_unhandled());
    let reached = Expression::If(Box::new(IfExpression {
        condition: Expression::Boolean(BooleanLiteral::new(true)),
        consequence: BlockStatement { statements: vec![] },
        else_branch: None,
    }));
    assert!(language::stages::type_checker::type_check_expression(&reached, &mut ctx).is_err());
    assert!(ctx.has_reached_unhandled());
    let handled = Program { statements: vec![let_stmt("a", num(1))] };
    let ctx = try_type_check_program(&handled).unwrap().unwrap();
    assert_eq!(ctx.get("a").unwrap(), Type::Integer);
}

#[test]
fn compiling_reaches_an_unhandled_construct() {
    let returning = Program { statements: vec![Statement::Return(ReturnStatement { value: num(1) })] };
    assert!(Compiler::try_compile(&returning).is_none());
    let naming = Program { statements: vec![expr_stmt(ident("a"))] };
    assert!(Compiler::try_compile(&naming).is_none());
    let mut compiler = Compiler::default();
    assert!(compiler.compile_block_statement(&BlockStatement { statements: vec![] }).is_err());
    let handled = Program { statements: vec![let_stmt("a", num(1))] };
    let bytecode = Compiler::try_compile(&handled).unwrap();
    assert_eq!(bytecode.constants.len(), 1);
}

#[test]
fn evaluation_meets_overflow_and_division_by_zero() {
    let overflow = Program { statements: vec![expr_stmt(infix(num(i64::MAX), InfixOperatorToken::Plus, num(1)))] };
    assert!(try_interpret(&overflow).is_none());
    let division = Program { statements: vec![expr_stmt(infix(num(1), InfixOperatorToken::Slash, num(0)))] };
    assert!(try_interpret(&division).is_none());
    let negation = Program {
        statements: vec![expr_stmt(Expression::Prefix(PrefixExpression {
            prefix_token: PrefixToken::Minus,
            right: Box::new(num(i64::MIN)),
        }))],
    };
    assert!(try_interpret(&negation).is_none());
    let mut env = Environment::new();
    let _ = interpret_expression(&mut env, &infix(num(1), InfixOperatorToken::Slash, num(0)), CALL_BUDGET);
    assert!(env.has_faulted());
    let fine = Program { statements: vec![expr_stmt(infix(num(6), InfixOperatorToken::Slash, num(3)))] };
    assert!(matches!(try_interpret(&fine), Some(Return::Implicit(Object::Integer(_)))));
}

#[test]
fn implicit_return_has_no_semicolon() {
    let mut ctx = Context::new();
    let with_semicolon = BlockStatement { statements: vec![Statement::Expression { expression: num(5), semicolon: true }] };
    assert_eq!(type_check_block(&with_semicolon, &mut ctx), Ok(Type::Unit));
    let without = BlockStatement { statements: vec![Statement::Expression { expression: num(5), semicolon: false }] };
    assert_eq!(type_check_block(&without, &mut ctx), Ok(Type::Integer));
    assert_eq!(type_check_block(&BlockStatement { statements: vec![] }, &mut ctx), Ok(Type::Unit));
    let program = Program { statements: vec![Statement::Expression { expression: num(5), semicolon: true }] };
    assert!(type_check_program(&program).is_ok());
}
