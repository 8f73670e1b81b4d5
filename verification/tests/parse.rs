use language::ast::untyped::{Expression, Integer, Statement};
use language::ast::InfixOperation;
use language::compiler::Compiler;
use language::ident::Span;
use language::parse::expression::{
    parse_boolean, parse_expression, parse_grouped, parse_ident, parse_if, parse_integer, parse_statement,
    Precedence,
};
use language::parse::function::{parse, parse_ty, try_parse};
use language::ty::Ty;
use language::parse::lexer::lex;
use language::parse::token::Token;
use language::parse::{Lexer, ParseError};

fn lexer(source: &str) -> Lexer {
    Lexer::from_source(source).unwrap()
}

#[test]
fn e_boolean_fail() {
    assert!(parse_boolean(&mut Compiler::new(), &mut lexer("someident")).is_err());
}

#[test]
fn success() {
    let mut tokens = lexer("someident");
    let mut compiler = Compiler::new();
    let ident = parse_ident(&mut compiler, &mut tokens).unwrap();
    assert_eq!(compiler.symbols.resolve(ident.binding).unwrap(), "someident");
}

#[test]
fn e_ident_fail() {
    assert!(parse_ident(&mut Compiler::new(), &mut lexer("1")).is_err());
}

#[test]
fn integer_condition() {
    let mut tokens = lexer("if 123 { 1 }");
    let e_if = parse_if(&mut Compiler::new(), &mut tokens).unwrap();
    assert!(matches!(*e_if.condition, Expression::Integer(Integer { value: 123, .. })));
}

#[test]
fn ident_condition() {
    let mut tokens = lexer("if someident { 1 }");
    let e_if = parse_if(&mut Compiler::new(), &mut tokens).unwrap();
    assert!(matches!(*e_if.condition, Expression::Ident(_)));
}

#[test]
fn otherwise_branch() {
    let mut tokens = lexer("if someident { 1 } else { 2 }");
    let e_if = parse_if(&mut Compiler::new(), &mut tokens).unwrap();
    assert!(e_if.otherwise.is_some());
}

#[test]
fn e_integer_fail() {
    assert!(parse_integer(&mut Compiler::new(), &mut lexer("someident")).is_err());
}

#[test]
fn if_fails_on_malformed_input() {
    assert!(parse_if(&mut Compiler::new(), &mut lexer("if 1 2")).is_err());
    assert!(parse_if(&mut Compiler::new(), &mut lexer("if 1 { 3 } else else { 3 }")).is_err());
}

#[test]
fn integer_success() {
    assert_eq!(parse_integer(&mut Compiler::new(), &mut lexer("123")).unwrap().value, 123);
    assert!(parse_boolean(&mut Compiler::new(), &mut lexer("false")).unwrap().value == false);
}

#[test]
fn single_token_read() {
    let mut tokens = lexer("someident;");
    let _ = parse_ident(&mut Compiler::new(), &mut tokens);
    assert_eq!(tokens.count(), 1);
    let mut tokens = lexer("1;");
    let _ = parse_ident(&mut Compiler::new(), &mut tokens);
    assert_eq!(tokens.count(), 1);
}

#[test]
fn lexes_operators_longest_first() {
    let tokens = lex("a += 10 -> b == c;").unwrap();
    let kinds: Vec<Token> = tokens.iter().map(|(t, _)| t.clone()).collect();
    assert!(matches!(kinds[0], Token::Ident(ref s) if s == "a"));
    assert!(matches!(kinds[1], Token::AddAssign));
    assert!(matches!(kinds[2], Token::Integer(10)));
    assert!(matches!(kinds[3], Token::ThinArrow));
    assert!(matches!(kinds[5], Token::DoubleEq));
    assert!(matches!(kinds[7], Token::SemiColon));
    assert_eq!(tokens[2].1, Span { start: 5, end: 7 });
    assert_eq!(tokens.len(), 8);
}

#[test]
fn lexes_keywords() {
    let tokens = lex("fn let return if else loop break continue true false as int uint bool").unwrap();
    assert_eq!(tokens.len(), 14);
    assert!(matches!(tokens[0].0, Token::Fn));
    assert!(matches!(tokens[13].0, Token::Bool));
}

#[test]
fn lex_rejects_bad_input() {
    assert!(lex("a $ b").is_none());
    assert!(lex("99999999999999999999").is_none());
    assert!(lex("é").is_none());
    assert!(lex("9223372036854775807").is_some());
}

#[test]
fn simple_addition() {
    let e = parse_expression(&mut Compiler::new(), &mut lexer("3 + 4"), Precedence::Lowest).unwrap();
    match e {
        Expression::Infix(infix) => {
            assert_eq!(infix.operation, InfixOperation::Plus);
            assert_eq!(infix.span, Span { start: 0, end: 5 });
            assert!(matches!(*infix.left, Expression::Integer(Integer { value: 3, .. })));
            assert!(matches!(*infix.right, Expression::Integer(Integer { value: 4, .. })));
        }
        _ => panic!("expected infix"),
    }
}

#[test]
fn multi_addition_is_left_associative() {
    let e = parse_expression(&mut Compiler::new(), &mut lexer("3 + 4 + 10"), Precedence::Lowest).unwrap();
    match e {
        Expression::Infix(infix) => {
            assert!(matches!(*infix.left, Expression::Infix(_)));
            assert_eq!(infix.span, Span { start: 0, end: 10 });
        }
        _ => panic!("expected infix"),
    }
}

#[test]
fn complex_equality_binds_sum_tighter() {
    let e = parse_expression(&mut Compiler::new(), &mut lexer("1 == 1 + 2"), Precedence::Lowest).unwrap();
    match e {
        Expression::Infix(infix) => {
            assert_eq!(infix.operation, InfixOperation::Eq);
            assert!(matches!(*infix.right, Expression::Infix(_)));
        }
        _ => panic!("expected infix"),
    }
}

#[test]
fn function_call_with_trailing_comma() {
    let e = parse_expression(&mut Compiler::new(), &mut lexer("func(1 + 2, 3,)"), Precedence::Lowest).unwrap();
    match e {
        Expression::Call(call) => {
            assert_eq!(call.args.len(), 2);
            assert_eq!(call.span, Span { start: 0, end: 15 });
        }
        _ => panic!("expected call"),
    }
}

#[test]
fn grouped_expression() {
    let e = parse_expression(&mut Compiler::new(), &mut lexer("1 * (2 + 3) * 4"), Precedence::Lowest).unwrap();
    match e {
        Expression::Infix(infix) => {
            assert_eq!(infix.operation, InfixOperation::Multiply);
            assert!(matches!(*infix.left, Expression::Infix(_)));
        }
        _ => panic!("expected infix"),
    }
}

#[test]
fn statements() {
    let mut compiler = Compiler::new();
    let s = parse_statement(&mut compiler, &mut lexer("let a = 1;")).unwrap();
    assert!(matches!(s, Statement::Let(_)));
    let s = parse_statement(&mut compiler, &mut lexer("a }")).unwrap();
    match s {
        Statement::ExpressionStatement(e) => assert!(e.implicit_return),
        _ => panic!("expected expression statement"),
    }
    let r = parse_statement(&mut compiler, &mut lexer("let 1 = 1;"));
    match r {
        Err(ParseError::ExpectedToken { reason, .. }) => assert_eq!(reason, "ident must follow let binding"),
        _ => panic!("expected error"),
    }
}

#[test]
fn whole_program() {
    let mut compiler = Compiler::new();
    let program = parse(&mut compiler, "fn add(a: int, b: int) -> int { a + b } fn main() -> int { add(1, 2) }").unwrap();
    assert_eq!(program.functions.len(), 1);
    assert_eq!(program.main.parameters.len(), 0);
    assert_eq!(program.functions[0].parameters.len(), 2);
    assert_eq!(compiler.symbols.resolve(program.main.name).unwrap(), "main");
}

#[test]
fn program_without_main() {
    let r = parse(&mut Compiler::new(), "fn other() -> int { 1 }");
    assert!(matches!(r, Err(ParseError::MissingMain)));
    let r = parse(&mut Compiler::new(), "let a = 1;");
    assert!(matches!(r, Err(ParseError::ExpectedToken { .. })));
}

#[test]
fn type_names_carry_their_span() {
    let mut lexer = Lexer::from_source("uint bool").unwrap();
    let first = parse_ty(&mut lexer).unwrap();
    assert_eq!(first.ty, Ty::Uint);
    assert_eq!(first.span, Span { start: 0, end: 4 });
    let second = parse_ty(&mut lexer).unwrap();
    assert_eq!(second.ty, Ty::Boolean);
    assert_eq!(second.span, Span { start: 5, end: 9 });
    assert!(parse_ty(&mut lexer).is_err());
}

#[test]
fn tokens_ending_inside_a_construct() {
    assert!(try_parse(&mut Compiler::new(), "fn main() -> int { 1 + ").is_none());
    assert!(try_parse(&mut Compiler::new(), "fn main(").is_none());
    assert!(try_parse(&mut Compiler::new(), "fn main() -> int { $ }").is_none());
    let complete = try_parse(&mut Compiler::new(), "fn main() -> int { 1 }").unwrap();
    assert!(complete.is_ok());
    let missing_main = try_parse(&mut Compiler::new(), "fn other() -> int { 1 }").unwrap();
    assert!(matches!(missing_main, Err(ParseError::MissingMain)));
}

#[test]
fn lexer_records_running_out() {
    let mut compiler = Compiler::new();
    let mut lexer = lexer("(1");
    assert!(!lexer.has_run_out());
    assert!(parse_grouped(&mut compiler, &mut lexer).is_err());
    assert!(lexer.has_run_out());
}

#[test]
fn errors_name_the_token_their_reason_asks_for() {
    let mut compiler = Compiler::new();
    match parse_statement(&mut compiler, &mut lexer("let a = 1 2")) {
        Err(ParseError::ExpectedToken { expected, .. }) => assert!(matches!(*expected, Token::SemiColon)),
        other => panic!("unexpected {:?}", other),
    }
    match parse_grouped(&mut compiler, &mut lexer("1")) {
        Err(ParseError::ExpectedToken { expected, .. }) => assert!(matches!(*expected, Token::LeftParen)),
        other => panic!("unexpected {:?}", other),
    }
    match parse_grouped(&mut compiler, &mut lexer("(1 2")) {
        Err(ParseError::ExpectedToken { expected, .. }) => assert!(matches!(*expected, Token::RightParen)),
        other => panic!("unexpected {:?}", other),
    }
}
