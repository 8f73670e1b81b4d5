//! Parsing expressions, blocks and statements.
//!
//! Each function parses one construct from the lexer's position, and its
//! contract says that the node or error, the new position and the interned
//! strings are those that [`crate::parse::grammar`] gives.
use vstd::prelude::*;

use crate::ast::untyped::{
    block_view, expr_view, exprs_view, lemma_expr_view_span, lemma_exprs_view_push,
    lemma_stmts_view_push, stmt_view, stmts_view, Array, Assign, Block, Boolean, BreakStatement,
    Call, ContinueStatement, Expression, ExpressionStatement, Ident, If, Index, Infix, Integer,
    LetStatement, Loop, ReturnStatement, Statement,
};
use crate::ast::InfixOperation;
use crate::compiler::{distinct_strings, Compiler};
use crate::ident::Span;
use crate::parse::grammar::{
    infix_operation, op_assign_operation, p_args, p_array, p_assign, p_block, p_boolean, p_call,
    p_expr, p_grouped, p_ident, p_if, p_index, p_infix, p_integer, p_items, p_loop, p_loop_expr,
    p_op_assign, p_prefix, p_stmt, p_stmt_body, p_stmts, tok, Parsed,
};
use crate::parse::token::{Token, TokenView};
use crate::parse::{expected_token, Lexer, ParseError, ParseErrorView};

verus! {

/// How tightly an operator binds inside an expression, loosest first.
#[derive(Clone, Copy, Debug, PartialEq, Eq, PartialOrd, Ord, Structural)]
pub enum Precedence {
    Lowest,
    Assign,
    Binary,
    Equality,
    Sum,
    Multiply,
    Call,
}

/// The position of a precedence in the order, loosest first.
pub open spec fn expr_rank(p: Precedence) -> u8 {
    match p {
        Precedence::Lowest => 0,
        Precedence::Assign => 1,
        Precedence::Binary => 2,
        Precedence::Equality => 3,
        Precedence::Sum => 4,
        Precedence::Multiply => 5,
        Precedence::Call => 6,
    }
}

/// The precedence of a token in infix position.
pub open spec fn expr_precedence_of(token: TokenView) -> Precedence {
    match token {
        TokenView::Minus | TokenView::Plus => Precedence::Sum,
        TokenView::Asterix | TokenView::ForwardSlash => Precedence::Multiply,
        TokenView::And | TokenView::Or => Precedence::Binary,
        TokenView::DoubleEq | TokenView::NotEq | TokenView::LeftAngle | TokenView::RightAngle
        | TokenView::LeftAngleEq | TokenView::RightAngleEq => Precedence::Equality,
        TokenView::LeftParen | TokenView::LeftSquare => Precedence::Call,
        TokenView::Eq | TokenView::AddAssign | TokenView::MinusAssign | TokenView::DivAssign
        | TokenView::MulAssign => Precedence::Assign,
        _ => Precedence::Lowest,
    }
}

impl Precedence {
    /// The precedence of a token in infix position.
    pub fn of(token: &Token) -> (r: Precedence)
        ensures
            r == expr_precedence_of(token@),
    {
        match token {
            Token::Minus | Token::Plus => Precedence::Sum,
            Token::Asterix | Token::ForwardSlash => Precedence::Multiply,
            Token::And | Token::Or => Precedence::Binary,
            Token::DoubleEq | Token::NotEq | Token::LeftAngle | Token::RightAngle | Token::LeftAngleEq
            | Token::RightAngleEq => Precedence::Equality,
            Token::LeftParen | Token::LeftSquare => Precedence::Call,
            Token::Eq | Token::AddAssign | Token::MinusAssign | Token::DivAssign | Token::MulAssign => Precedence::Assign,
            _ => Precedence::Lowest,
        }
    }

    /// The position of this precedence in the order, loosest first.
    pub fn rank(&self) -> (r: u8)
        ensures
            r == expr_rank(*self),
    {
        match self {
            Precedence::Lowest => 0,
            Precedence::Assign => 1,
            Precedence::Binary => 2,
            Precedence::Equality => 3,
            Precedence::Sum => 4,
            Precedence::Multiply => 5,
            Precedence::Call => 6,
        }
    }
}

/// The infix operation a token stands for, if any.
fn infix_operation_of(token: &Token) -> (r: Option<InfixOperation>)
    ensures
        r == infix_operation(token@),
{
    match token {
        Token::Plus => Some(InfixOperation::Plus),
        Token::Minus => Some(InfixOperation::Minus),
        Token::Asterix => Some(InfixOperation::Multiply),
        Token::ForwardSlash => Some(InfixOperation::Divide),
        Token::And => Some(InfixOperation::And),
        Token::Or => Some(InfixOperation::Or),
        Token::DoubleEq => Some(InfixOperation::Eq),
        Token::NotEq => Some(InfixOperation::NotEq),
        Token::LeftAngle => Some(InfixOperation::Less),
        Token::RightAngle => Some(InfixOperation::Greater),
        Token::LeftAngleEq => Some(InfixOperation::LessEq),
        Token::RightAngleEq => Some(InfixOperation::GreaterEq),
        _ => None,
    }
}

/// A parse result as a value: the node by its model, the error by its view.
pub open spec fn parse_result<T, V>(r: Result<T, ParseError>, view: spec_fn(T) -> V) -> Result<V, ParseErrorView> {
    match r {
        Ok(t) => Ok(view(t)),
        Err(e) => Err(e@),
    }
}

/// What every parsing function needs: a lexer with its position in range, and
/// interned strings that are all distinct.
pub open spec fn ready(l: Lexer, c: Compiler) -> bool {
    l.wf() && !l.ran_out() && distinct_strings(c.symbols@)
}

/// The contract of a parsing step from `l0` and `c0` to `l1` and `c1` with
/// result `r`: the tokens and registered functions are kept, the position only
/// moves forward, and the result, position and interned strings are `g`.
pub open spec fn stepped<T, V>(
    l0: Lexer,
    l1: Lexer,
    c0: Compiler,
    c1: Compiler,
    r: Result<T, ParseError>,
    view: spec_fn(T) -> V,
    g: Parsed<V>,
) -> bool {
    &&& l1.wf()
    &&& l1.tokens() == l0.tokens()
    &&& l0.position() <= l1.position() <= l1.tokens().len()
    &&& distinct_strings(c1.symbols@)
    &&& c1.functions == c0.functions
    &&& g == Some((parse_result(r, view), l1.position(), c1.symbols@))
}

/// The contract of a parsing function: where the grammar gives an outcome, the
/// step is `stepped` and the tokens did not run out; where the grammar needs a
/// token past the end, the lexer records that the tokens ran out, an error is
/// returned, and the tokens, registered functions and distinct interned strings
/// are kept.
pub open spec fn parsed<T, V>(
    l0: Lexer,
    l1: Lexer,
    c0: Compiler,
    c1: Compiler,
    r: Result<T, ParseError>,
    view: spec_fn(T) -> V,
    g: Parsed<V>,
) -> bool {
    match g {
        Some(_) => !l1.ran_out() && stepped(l0, l1, c0, c1, r, view, g),
        None => {
            &&& l1.ran_out()
            &&& r is Err
            &&& l1.wf()
            &&& l1.tokens() == l0.tokens()
            &&& distinct_strings(c1.symbols@)
            &&& c1.functions == c0.functions
        },
    }
}

/// Parse an integer literal.
pub fn parse_integer(_compiler: &mut Compiler, lexer: &mut Lexer) -> (r: Result<Integer, ParseError>)
    requires
        ready(*old(lexer), *old(_compiler)),
    ensures
        parsed(*old(lexer), *final(lexer), *old(_compiler), *final(_compiler), r, (|i: Integer| i),
            p_integer(old(lexer).tokens(), old(lexer).position(), old(_compiler).symbols@)),
        !final(lexer).ran_out() ==> old(lexer).position() < final(lexer).position(),
{
    match lexer.next_spanned() {
        Some((Token::Integer(value), span)) => Ok(Integer { value, span }),
        Some((token, _)) => Err(expected_token(Token::Integer(0), token, "integer token expected")),
        None => {
            lexer.run_out();
            Err(ParseError::UnexpectedEOF)
        },
    }
}

/// Parse a boolean literal.
pub fn parse_boolean(_compiler: &mut Compiler, lexer: &mut Lexer) -> (r: Result<Boolean, ParseError>)
    requires
        ready(*old(lexer), *old(_compiler)),
    ensures
        parsed(*old(lexer), *final(lexer), *old(_compiler), *final(_compiler), r, (|b: Boolean| b),
            p_boolean(old(lexer).tokens(), old(lexer).position(), old(_compiler).symbols@)),
        !final(lexer).ran_out() ==> old(lexer).position() < final(lexer).position(),
{
    match lexer.next_spanned() {
        Some((Token::True, span)) => Ok(Boolean { value: true, span }),
        Some((Token::False, span)) => Ok(Boolean { value: false, span }),
        Some((token, _)) => Err(expected_token(Token::True, token, "expected boolean token")),
        None => {
            lexer.run_out();
            Err(ParseError::UnexpectedEOF)
        },
    }
}

/// Parse an identifier, interning its name.
pub fn parse_ident(compiler: &mut Compiler, lexer: &mut Lexer) -> (r: Result<Ident, ParseError>)
    requires
        ready(*old(lexer), *old(compiler)),
    ensures
        parsed(*old(lexer), *final(lexer), *old(compiler), *final(compiler), r, (|i: Ident| i),
            p_ident(old(lexer).tokens(), old(lexer).position(), old(compiler).symbols@)),
        !final(lexer).ran_out() ==> old(lexer).position() < final(lexer).position(),
{
    match lexer.next_spanned() {
        Some((Token::Ident(name), span)) => {
            let binding = compiler.symbols.get_or_intern(name.as_str());
            Ok(Ident { binding, span })
        },
        Some((token, _)) => Err(expected_token(Token::Ident(String::new()), token, "expected ident")),
        None => {
            lexer.run_out();
            Err(ParseError::UnexpectedEOF)
        },
    }
}

/// Whether the next token binds tighter than `precedence`.
fn binds_tighter(lexer: &Lexer, precedence: Precedence) -> (r: bool)
    requires
        lexer.wf(),
    ensures
        r == (lexer.position() < lexer.tokens().len()
            && expr_rank(precedence) < expr_rank(expr_precedence_of(tok(lexer.tokens(), lexer.position())))),
{
    match lexer.peek_token() {
        Some(token) => precedence.rank() < Precedence::of(token).rank(),
        None => false,
    }
}

/// Parse an expression whose operators bind tighter than `precedence`.
pub fn parse_expression(compiler: &mut Compiler, lexer: &mut Lexer, precedence: Precedence) -> (r: Result<Expression, ParseError>)
    requires
        ready(*old(lexer), *old(compiler)),
    ensures
        parsed(*old(lexer), *final(lexer), *old(compiler), *final(compiler), r, (|e: Expression| expr_view(e)),
            p_expr(old(lexer).tokens(), old(lexer).position(), old(compiler).symbols@, precedence)),
        r is Ok ==> old(lexer).position() < final(lexer).position(),
    decreases old(lexer).tokens().len() - old(lexer).position(), 4nat,
{
    let ghost ts = lexer.tokens();
    let ghost p0 = lexer.position();
    let ghost s0 = compiler.symbols@;
    let ghost f0 = compiler.functions;
    let mut left = match parse_prefix(compiler, lexer) {
        Ok(e) => e,
        Err(e) => {
            return Err(e);
        },
    };
    let mut go = binds_tighter(lexer, precedence);
    while go
        invariant
            ready(*lexer, *compiler),
            lexer.tokens() == ts,
            compiler.functions == f0,
            f0 == old(compiler).functions,
            p0 < lexer.position() <= ts.len(),
            p0 == old(lexer).position(),
            ts == old(lexer).tokens(),
            s0 == old(compiler).symbols@,
            p_expr(ts, p0, s0, precedence) == p_loop(ts, lexer.position(), compiler.symbols@, precedence, expr_view(left)),
            go == (lexer.position() < ts.len() && expr_rank(precedence) < expr_rank(expr_precedence_of(tok(ts, lexer.position())))),
        decreases ts.len() - lexer.position(),
    {
        let is_paren = matches!(lexer.peek_token(), Some(Token::LeftParen));
        let is_square = matches!(lexer.peek_token(), Some(Token::LeftSquare));
        let step = match left {
            Expression::Ident(ident) => if is_paren {
                parse_function_call(compiler, lexer, ident)
            } else if is_square {
                parse_index(compiler, lexer, ident)
            } else {
                parse_infix(compiler, lexer, Expression::Ident(ident))
            },
            other => parse_infix(compiler, lexer, other),
        };
        left = match step {
            Ok(e) => e,
            Err(e) => {
                return Err(e);
            },
        };
        go = binds_tighter(lexer, precedence);
    }
    Ok(left)
}

/// Parse the infix operation that follows `left`. A token that is no operator is
/// read, and `left` is given back.
pub fn parse_infix(compiler: &mut Compiler, lexer: &mut Lexer, left: Expression) -> (r: Result<Expression, ParseError>)
    requires
        ready(*old(lexer), *old(compiler)),
    ensures
        parsed(*old(lexer), *final(lexer), *old(compiler), *final(compiler), r, (|e: Expression| expr_view(e)),
            p_infix(old(lexer).tokens(), old(lexer).position(), old(compiler).symbols@, expr_view(left))),
        !final(lexer).ran_out() ==> old(lexer).position() < final(lexer).position(),
    decreases old(lexer).tokens().len() - old(lexer).position(), 5nat,
{
    let token = match lexer.next_token() {
        Some(t) => t,
        None => {
            lexer.run_out();
            return Err(ParseError::UnexpectedEOF);
        },
    };
    match infix_operation_of(&token) {
        Some(operation) => {
            let precedence = Precedence::of(&token);
            let right = match parse_expression(compiler, lexer, precedence) {
                Ok(e) => e,
                Err(e) => {
                    return Err(e);
                },
            };
            proof {
                lemma_expr_view_span(left);
                lemma_expr_view_span(right);
            }
            let span = Span { start: left.span().start, end: right.span().end };
            Ok(Expression::Infix(Infix { left: Box::new(left), operation, right: Box::new(right), span }))
        },
        None => Ok(left),
    }
}

/// Parse an index into the array bound to `ident`.
pub fn parse_index(compiler: &mut Compiler, lexer: &mut Lexer, ident: Ident) -> (r: Result<Expression, ParseError>)
    requires
        ready(*old(lexer), *old(compiler)),
    ensures
        parsed(*old(lexer), *final(lexer), *old(compiler), *final(compiler), r, (|e: Expression| expr_view(e)),
            p_index(old(lexer).tokens(), old(lexer).position(), old(compiler).symbols@, ident)),
        !final(lexer).ran_out() ==> old(lexer).position() < final(lexer).position(),
    decreases old(lexer).tokens().len() - old(lexer).position(), 5nat,
{
    match lexer.next_token() {
        Some(Token::LeftSquare) => {},
        Some(token) => {
            return Err(expected_token(Token::LeftSquare, token, "index must be performed with square bracket"));
        },
        None => {
            lexer.run_out();
            return Err(ParseError::UnexpectedEOF);
        },
    }
    let index = match parse_expression(compiler, lexer, Precedence::Lowest) {
        Ok(e) => e,
        Err(e) => {
            return Err(e);
        },
    };
    let end = match lexer.next_spanned() {
        Some((Token::RightSquare, span)) => span.end,
        Some((token, _)) => {
            return Err(expected_token(Token::RightSquare, token, "index must be performed with square bracket"));
        },
        None => {
            lexer.run_out();
            return Err(ParseError::UnexpectedEOF);
        },
    };
    Ok(Expression::Index(Index { value: ident.binding, index: Box::new(index), span: Span { start: ident.span.start, end } }))
}

/// Parse the arguments of a call of the function named by `ident`, through the
/// closing parenthesis.
pub fn parse_function_call(compiler: &mut Compiler, lexer: &mut Lexer, ident: Ident) -> (r: Result<Expression, ParseError>)
    requires
        ready(*old(lexer), *old(compiler)),
    ensures
        parsed(*old(lexer), *final(lexer), *old(compiler), *final(compiler), r, (|e: Expression| expr_view(e)),
            p_call(old(lexer).tokens(), old(lexer).position(), old(compiler).symbols@, ident)),
        r is Ok ==> old(lexer).position() < final(lexer).position(),
    decreases old(lexer).tokens().len() - old(lexer).position(), 5nat,
{
    let ghost ts = lexer.tokens();
    let ghost p0 = lexer.position();
    let ghost s0 = compiler.symbols@;
    let ghost f0 = compiler.functions;
    let mut args: Vec<Expression> = Vec::new();
    let mut done = false;
    assert(exprs_view(args@) =~= Seq::<crate::ast::untyped::ExprView>::empty());
    while !done
        invariant
            ready(*lexer, *compiler),
            lexer.tokens() == ts,
            ts == old(lexer).tokens(),
            p0 == old(lexer).position(),
            s0 == old(compiler).symbols@,
            compiler.functions == f0,
            f0 == old(compiler).functions,
            p0 <= lexer.position() <= ts.len(),
            p_args(ts, p0, s0, Seq::empty()) == (if done {
                Some((Ok(exprs_view(args@)), lexer.position(), compiler.symbols@))
            } else {
                p_args(ts, lexer.position(), compiler.symbols@, exprs_view(args@))
            }),
        decreases ts.len() - lexer.position() + (if done { 0int } else { 1int }),
    {
        match lexer.peek_token() {
            Some(Token::RightParen) => {
                done = true;
            },
            Some(Token::LeftParen) | Some(Token::Comma) => {
                let _ = lexer.next_token();
                match lexer.peek_token() {
                    Some(Token::RightParen) => {
                        done = true;
                    },
                    Some(_) => {
                        let ghost before = args@;
                        match parse_expression(compiler, lexer, Precedence::Lowest) {
                            Ok(e) => {
                                args.push(e);
                                proof {
                                    lemma_exprs_view_push(before, e);
                                }
                            },
                            Err(e) => {
                                return Err(e);
                            },
                        }
                    },
                    None => {
                        lexer.run_out();
                        return Err(ParseError::UnexpectedEOF);
                    },
                }
            },
            Some(token) => {
                return Err(expected_token(Token::Comma, token.duplicate(), "function arguments must be separated by a comma"));
            },
            None => {
                lexer.run_out();
                return Err(ParseError::UnexpectedEOF);
            },
        }
    }
    let end = match lexer.next_spanned() {
        Some((Token::RightParen, span)) => span.end,
        Some((token, _)) => {
            return Err(expected_token(Token::RightParen, token, "argument list must end with right paren"));
        },
        None => {
            lexer.run_out();
            return Err(ParseError::UnexpectedEOF);
        },
    };
    Ok(Expression::Call(Call { name: ident.binding, args, span: Span { start: ident.span.start, end } }))
}

/// Parse an expression in parentheses.
pub fn parse_grouped(compiler: &mut Compiler, lexer: &mut Lexer) -> (r: Result<Expression, ParseError>)
    requires
        ready(*old(lexer), *old(compiler)),
    ensures
        parsed(*old(lexer), *final(lexer), *old(compiler), *final(compiler), r, (|e: Expression| expr_view(e)),
            p_grouped(old(lexer).tokens(), old(lexer).position(), old(compiler).symbols@)),
        !final(lexer).ran_out() ==> old(lexer).position() < final(lexer).position(),
    decreases old(lexer).tokens().len() - old(lexer).position(), 2nat,
{
    match lexer.next_token() {
        Some(Token::LeftParen) => {},
        Some(token) => {
            return Err(expected_token(Token::LeftParen, token, "open paren for grouped expression"));
        },
        None => {
            lexer.run_out();
            return Err(ParseError::UnexpectedEOF);
        },
    }
    let e = match parse_expression(compiler, lexer, Precedence::Lowest) {
        Ok(e) => e,
        Err(e) => {
            return Err(e);
        },
    };
    match lexer.next_token() {
        Some(Token::RightParen) => {},
        Some(token) => {
            return Err(expected_token(Token::RightParen, token, "close paren must end grouped expression"));
        },
        None => {
            lexer.run_out();
            return Err(ParseError::UnexpectedEOF);
        },
    }
    Ok(e)
}

/// Parse a conditional.
pub fn parse_if(compiler: &mut Compiler, lexer: &mut Lexer) -> (r: Result<If, ParseError>)
    requires
        ready(*old(lexer), *old(compiler)),
    ensures
        parsed(*old(lexer), *final(lexer), *old(compiler), *final(compiler), r, (|i: If| expr_view(Expression::If(i))),
            p_if(old(lexer).tokens(), old(lexer).position(), old(compiler).symbols@)),
        !final(lexer).ran_out() ==> old(lexer).position() < final(lexer).position(),
    decreases old(lexer).tokens().len() - old(lexer).position(), 2nat,
{
    let start = match lexer.next_spanned() {
        Some((Token::If, span)) => span.start,
        Some((token, _)) => {
            return Err(expected_token(Token::If, token, "if statement expected"));
        },
        None => {
            lexer.run_out();
            return Err(ParseError::UnexpectedEOF);
        },
    };
    let condition = match parse_expression(compiler, lexer, Precedence::Lowest) {
        Ok(e) => e,
        Err(e) => {
            return Err(e);
        },
    };
    let success = match parse_block(compiler, lexer) {
        Ok(b) => b,
        Err(e) => {
            return Err(e);
        },
    };
    let otherwise = if matches!(lexer.peek_token(), Some(Token::Else)) {
        let _ = lexer.next_token();
        match parse_block(compiler, lexer) {
            Ok(b) => Some(b),
            Err(e) => {
                return Err(e);
            },
        }
    } else {
        None
    };
    let end = match &otherwise {
        Some(o) => o.span.end,
        None => success.span.end,
    };
    Ok(If { condition: Box::new(condition), success, otherwise, span: Span { start, end } })
}

/// Parse a loop.
pub fn parse_loop(compiler: &mut Compiler, lexer: &mut Lexer) -> (r: Result<Loop, ParseError>)
    requires
        ready(*old(lexer), *old(compiler)),
    ensures
        parsed(*old(lexer), *final(lexer), *old(compiler), *final(compiler), r, (|l: Loop| expr_view(Expression::Loop(l))),
            p_loop_expr(old(lexer).tokens(), old(lexer).position(), old(compiler).symbols@)),
        !final(lexer).ran_out() ==> old(lexer).position() < final(lexer).position(),
    decreases old(lexer).tokens().len() - old(lexer).position(), 2nat,
{
    let start = match lexer.next_spanned() {
        Some((Token::Loop, span)) => span.start,
        Some((token, _)) => {
            return Err(expected_token(Token::Loop, token, "loop must start with keyword"));
        },
        None => {
            lexer.run_out();
            return Err(ParseError::UnexpectedEOF);
        },
    };
    let body = match parse_block(compiler, lexer) {
        Ok(b) => b,
        Err(e) => {
            return Err(e);
        },
    };
    let end = body.span.end;
    Ok(Loop { body, span: Span { start, end } })
}

/// Parse an assignment.
pub fn parse_assign(compiler: &mut Compiler, lexer: &mut Lexer) -> (r: Result<Assign, ParseError>)
    requires
        ready(*old(lexer), *old(compiler)),
    ensures
        parsed(*old(lexer), *final(lexer), *old(compiler), *final(compiler), r, (|a: Assign| expr_view(Expression::Assign(a))),
            p_assign(old(lexer).tokens(), old(lexer).position(), old(compiler).symbols@)),
        !final(lexer).ran_out() ==> old(lexer).position() < final(lexer).position(),
    decreases old(lexer).tokens().len() - old(lexer).position(), 2nat,
{
    let (name, start) = match lexer.next_spanned() {
        Some((Token::Ident(name), span)) => (name, span),
        Some((token, _)) => {
            return Err(expected_token(Token::Ident(String::new()), token, "assign must start with ident"));
        },
        None => {
            lexer.run_out();
            return Err(ParseError::UnexpectedEOF);
        },
    };
    let binding = compiler.symbols.get_or_intern(name.as_str());
    match lexer.next_token() {
        Some(Token::Eq) => {},
        Some(token) => {
            return Err(expected_token(Token::Eq, token, "equals sign following binding for assign"));
        },
        None => {
            lexer.run_out();
            return Err(ParseError::UnexpectedEOF);
        },
    }
    let value = match parse_expression(compiler, lexer, Precedence::Lowest) {
        Ok(e) => e,
        Err(e) => {
            return Err(e);
        },
    };
    proof {
        lemma_expr_view_span(value);
    }
    let span = Span { start: start.start, end: value.span().end };
    Ok(Assign { binding, value: Box::new(value), span })
}

/// Parse a compound assignment `x op= value` as the assignment of `x op value`.
pub fn parse_op_assign(compiler: &mut Compiler, lexer: &mut Lexer) -> (r: Result<Assign, ParseError>)
    requires
        ready(*old(lexer), *old(compiler)),
    ensures
        parsed(*old(lexer), *final(lexer), *old(compiler), *final(compiler), r, (|a: Assign| expr_view(Expression::Assign(a))),
            p_op_assign(old(lexer).tokens(), old(lexer).position(), old(compiler).symbols@)),
        !final(lexer).ran_out() ==> old(lexer).position() < final(lexer).position(),
    decreases old(lexer).tokens().len() - old(lexer).position(), 2nat,
{
    let (name, binding_span) = match lexer.next_spanned() {
        Some((Token::Ident(name), span)) => (name, span),
        Some((token, _)) => {
            return Err(expected_token(Token::Ident(String::new()), token, "assign must start with ident"));
        },
        None => {
            lexer.run_out();
            return Err(ParseError::UnexpectedEOF);
        },
    };
    let binding = compiler.symbols.get_or_intern(name.as_str());
    let operation = match lexer.next_token() {
        Some(Token::AddAssign) => InfixOperation::Plus,
        Some(Token::MinusAssign) => InfixOperation::Minus,
        Some(Token::MulAssign) => InfixOperation::Multiply,
        Some(Token::DivAssign) => InfixOperation::Divide,
        Some(token) => {
            return Err(ParseError::UnexpectedToken(token));
        },
        None => {
            lexer.run_out();
            return Err(ParseError::UnexpectedEOF);
        },
    };
    let right = match parse_expression(compiler, lexer, Precedence::Lowest) {
        Ok(e) => e,
        Err(e) => {
            return Err(e);
        },
    };
    proof {
        lemma_expr_view_span(right);
    }
    let right_span = right.span();
    let ghost right_view = expr_view(right);
    let target = Expression::Ident(Ident { binding, span: binding_span });
    assert(expr_view(target) == crate::ast::untyped::ExprView::Ident { binding, span: binding_span });
    let infix = Expression::Infix(Infix { left: Box::new(target), operation, right: Box::new(right), span: right_span });
    assert(expr_view(infix) == crate::ast::untyped::ExprView::Infix {
        left: Box::new(crate::ast::untyped::ExprView::Ident { binding, span: binding_span }),
        operation,
        right: Box::new(right_view),
        span: right_span,
    });
    Ok(Assign { binding, value: Box::new(infix), span: Span { start: binding_span.start, end: right_span.end } })
}

/// Parse an array literal.
#[verifier::loop_isolation(false)]
pub fn parse_array(compiler: &mut Compiler, lexer: &mut Lexer) -> (r: Result<Array, ParseError>)
    requires
        ready(*old(lexer), *old(compiler)),
    ensures
        parsed(*old(lexer), *final(lexer), *old(compiler), *final(compiler), r, (|a: Array| expr_view(Expression::Array(a))),
            p_array(old(lexer).tokens(), old(lexer).position(), old(compiler).symbols@)),
        !final(lexer).ran_out() ==> old(lexer).position() < final(lexer).position(),
    decreases old(lexer).tokens().len() - old(lexer).position(), 2nat,
{
    let start = match lexer.next_spanned() {
        Some((Token::LeftSquare, span)) => span.start,
        Some((token, _)) => {
            return Err(expected_token(Token::LeftSquare, token, "array literal must start with square brace"));
        },
        None => {
            lexer.run_out();
            return Err(ParseError::UnexpectedEOF);
        },
    };
    let ghost ts = lexer.tokens();
    let ghost p1 = lexer.position();
    let ghost s1 = compiler.symbols@;
    let ghost f0 = compiler.functions;
    let mut init: Vec<Expression> = Vec::new();
    let mut expect_item = true;
    let mut end: Option<usize> = None;
    assert(exprs_view(init@) =~= Seq::<crate::ast::untyped::ExprView>::empty());
    while end.is_none()
        invariant
            ready(*lexer, *compiler),
            lexer.tokens() == ts,
            ts == old(lexer).tokens(),
            compiler.functions == f0,
            f0 == old(compiler).functions,
            old(lexer).position() < p1 <= lexer.position() <= ts.len(),
            p1 == old(lexer).position() + 1,
            s1 == old(compiler).symbols@,
            p_items(ts, p1, s1, Seq::empty(), true) == (match end {
                Some(e) => Some((Ok((exprs_view(init@), e)), lexer.position(), compiler.symbols@)),
                None => p_items(ts, lexer.position(), compiler.symbols@, exprs_view(init@), expect_item),
            }),
        decreases ts.len() - lexer.position() + (if end is Some { 0int } else { 1int }),
    {
        let is_comma = matches!(lexer.peek_token(), Some(Token::Comma));
        let is_close = matches!(lexer.peek_token(), Some(Token::RightSquare));
        if lexer.peek_token().is_none() {
            lexer.run_out();
            return Err(ParseError::UnexpectedEOF);
        }
        if is_comma && !expect_item {
            expect_item = true;
            let _ = lexer.next_token();
        } else if is_close {
            match lexer.next_spanned() {
                Some((_, span)) => {
                    end = Some(span.end);
                },
                None => {
                    lexer.run_out();
                    return Err(ParseError::UnexpectedEOF);
                },
            }
        } else if expect_item {
            let ghost before = init@;
            match parse_expression(compiler, lexer, Precedence::Lowest) {
                Ok(e) => {
                    init.push(e);
                    proof {
                        lemma_exprs_view_push(before, e);
                    }
                },
                Err(e) => {
                    return Err(e);
                },
            }
            expect_item = false;
        } else {
            let found = match lexer.peek_token() {
                Some(token) => token.duplicate(),
                None => {
                    lexer.run_out();
                    return Err(ParseError::UnexpectedEOF);
                },
            };
            return Err(expected_token(Token::RightSquare, found, "expected a comma or closing brace"));
        }
    }
    let end = match end {
        Some(e) => e,
        None => {
            proof {
                assert(false);
            }
            0
        },
    };
    Ok(Array { init, span: Span { start, end } })
}

/// Parse the expression that the next token starts.
pub fn parse_prefix(compiler: &mut Compiler, lexer: &mut Lexer) -> (r: Result<Expression, ParseError>)
    requires
        ready(*old(lexer), *old(compiler)),
    ensures
        parsed(*old(lexer), *final(lexer), *old(compiler), *final(compiler), r, (|e: Expression| expr_view(e)),
            p_prefix(old(lexer).tokens(), old(lexer).position(), old(compiler).symbols@)),
        r is Ok ==> old(lexer).position() < final(lexer).position(),
    decreases old(lexer).tokens().len() - old(lexer).position(), 3nat,
{
    let after = match lexer.double_peek_token() {
        Some(Token::Eq) => 1u8,
        Some(Token::AddAssign) | Some(Token::MinusAssign) => 2u8,
        _ => 0u8,
    };
    match lexer.peek_token() {
        Some(Token::Integer(_)) => match parse_integer(compiler, lexer) {
            Ok(n) => Ok(Expression::Integer(n)),
            Err(e) => Err(e),
        },
        Some(Token::Ident(_)) => if after == 1 {
            match parse_assign(compiler, lexer) {
                Ok(a) => Ok(Expression::Assign(a)),
                Err(e) => Err(e),
            }
        } else if after == 2 {
            match parse_op_assign(compiler, lexer) {
                Ok(a) => Ok(Expression::Assign(a)),
                Err(e) => Err(e),
            }
        } else {
            match parse_ident(compiler, lexer) {
                Ok(i) => Ok(Expression::Ident(i)),
                Err(e) => Err(e),
            }
        },
        Some(Token::True) | Some(Token::False) => match parse_boolean(compiler, lexer) {
            Ok(b) => Ok(Expression::Boolean(b)),
            Err(e) => Err(e),
        },
        Some(Token::LeftBrace) => match parse_block(compiler, lexer) {
            Ok(b) => Ok(Expression::Block(b)),
            Err(e) => Err(e),
        },
        Some(Token::LeftParen) => parse_grouped(compiler, lexer),
        Some(Token::LeftSquare) => match parse_array(compiler, lexer) {
            Ok(a) => Ok(Expression::Array(a)),
            Err(e) => Err(e),
        },
        Some(Token::If) => match parse_if(compiler, lexer) {
            Ok(i) => Ok(Expression::If(i)),
            Err(e) => Err(e),
        },
        Some(Token::Loop) => match parse_loop(compiler, lexer) {
            Ok(l) => Ok(Expression::Loop(l)),
            Err(e) => Err(e),
        },
        Some(token) => Err(ParseError::UnexpectedToken(token.duplicate())),
        None => {
            lexer.run_out();
            Err(ParseError::UnexpectedEOF)
        },
    }
}

/// Parse a block.
#[verifier::loop_isolation(false)]
pub fn parse_block(compiler: &mut Compiler, lexer: &mut Lexer) -> (r: Result<Block, ParseError>)
    requires
        ready(*old(lexer), *old(compiler)),
    ensures
        parsed(*old(lexer), *final(lexer), *old(compiler), *final(compiler), r, (|b: Block| block_view(b)),
            p_block(old(lexer).tokens(), old(lexer).position(), old(compiler).symbols@)),
        !final(lexer).ran_out() ==> old(lexer).position() < final(lexer).position(),
    decreases old(lexer).tokens().len() - old(lexer).position(), 2nat,
{
    let start = match lexer.next_spanned() {
        Some((Token::LeftBrace, span)) => span.start,
        Some((token, _)) => {
            return Err(expected_token(Token::LeftBrace, token, "block must begin with an opening brace"));
        },
        None => {
            lexer.run_out();
            return Err(ParseError::UnexpectedEOF);
        },
    };
    let ghost ts = lexer.tokens();
    let ghost p1 = lexer.position();
    let ghost s1 = compiler.symbols@;
    let ghost f0 = compiler.functions;
    let mut statements: Vec<Statement> = Vec::new();
    assert(stmts_view(statements@) =~= Seq::<crate::ast::untyped::StmtView>::empty());
    let mut done = false;
    while !done
        invariant
            ready(*lexer, *compiler),
            lexer.tokens() == ts,
            ts == old(lexer).tokens(),
            compiler.functions == f0,
            f0 == old(compiler).functions,
            old(lexer).position() < p1 <= lexer.position() <= ts.len(),
            p1 == old(lexer).position() + 1,
            s1 == old(compiler).symbols@,
            p_stmts(ts, p1, s1, Seq::empty()) == (if done {
                Some((Ok(stmts_view(statements@)), lexer.position(), compiler.symbols@))
            } else {
                p_stmts(ts, lexer.position(), compiler.symbols@, stmts_view(statements@))
            }),
        decreases ts.len() - lexer.position() + (if done { 0int } else { 1int }),
    {
        match lexer.peek_token() {
            Some(Token::RightBrace) => {
                done = true;
            },
            Some(_) => {
                let ghost before = statements@;
                match parse_statement(compiler, lexer) {
                    Ok(s) => {
                        statements.push(s);
                        proof {
                            lemma_stmts_view_push(before, s);
                        }
                    },
                    Err(e) => {
                        return Err(e);
                    },
                }
            },
            None => {
                lexer.run_out();
                return Err(ParseError::UnexpectedEOF);
            },
        }
    }
    let end = match lexer.next_spanned() {
        Some((Token::RightBrace, span)) => span.end,
        Some((token, _)) => {
            return Err(expected_token(Token::RightBrace, token, "block must end with a closing brace"));
        },
        None => {
            lexer.run_out();
            return Err(ParseError::UnexpectedEOF);
        },
    };
    Ok(Block { statements, span: Span { start, end } })
}

/// Parse a statement, with the semicolon that must follow it where one must.
#[verifier::rlimit(30)]
pub fn parse_statement(compiler: &mut Compiler, lexer: &mut Lexer) -> (r: Result<Statement, ParseError>)
    requires
        ready(*old(lexer), *old(compiler)),
    ensures
        parsed(*old(lexer), *final(lexer), *old(compiler), *final(compiler), r, (|s: Statement| stmt_view(s)),
            p_stmt(old(lexer).tokens(), old(lexer).position(), old(compiler).symbols@)),
        r is Ok ==> old(lexer).position() < final(lexer).position(),
    decreases old(lexer).tokens().len() - old(lexer).position(), 6nat,
{
    let mut expecting_semicolon = true;
    let kind = match lexer.peek_token() {
        Some(Token::Return) => 1u8,
        Some(Token::Let) => 2u8,
        Some(Token::Break) => 3u8,
        Some(Token::Continue) => 4u8,
        Some(_) => 0u8,
        None => {
            lexer.run_out();
            return Err(ParseError::UnexpectedEOF);
        },
    };
    let statement = if kind == 1 {
        let start = match lexer.next_spanned() {
            Some((_, span)) => span.start,
            None => {
                lexer.run_out();
                return Err(ParseError::UnexpectedEOF);
            },
        };
        let value = match parse_expression(compiler, lexer, Precedence::Lowest) {
            Ok(e) => e,
            Err(e) => {
                return Err(e);
            },
        };
        proof {
            lemma_expr_view_span(value);
        }
        let span = Span { start, end: value.span().end };
        Statement::Return(ReturnStatement { value, span })
    } else if kind == 2 {
        let start = match lexer.next_spanned() {
            Some((_, span)) => span.start,
            None => {
                lexer.run_out();
                return Err(ParseError::UnexpectedEOF);
            },
        };
        let name = match lexer.next_token() {
            Some(Token::Ident(name)) => name,
            Some(token) => {
                return Err(expected_token(Token::Ident(String::new()), token, "ident must follow let binding"));
            },
            None => {
                lexer.run_out();
                return Err(ParseError::UnexpectedEOF);
            },
        };
        match lexer.next_token() {
            Some(Token::Eq) => {},
            Some(token) => {
                return Err(expected_token(Token::Eq, token, "equals sign must follow ident"));
            },
            None => {
                lexer.run_out();
                return Err(ParseError::UnexpectedEOF);
            },
        }
        let value = match parse_expression(compiler, lexer, Precedence::Lowest) {
            Ok(e) => e,
            Err(e) => {
                return Err(e);
            },
        };
        proof {
            lemma_expr_view_span(value);
        }
        let span = Span { start, end: value.span().end };
        let binding = compiler.symbols.get_or_intern(name.as_str());
        Statement::Let(LetStatement { binding, value, ty: None, span })
    } else if kind == 3 || kind == 4 {
        let span = match lexer.next_spanned() {
            Some((_, span)) => span,
            None => {
                lexer.run_out();
                return Err(ParseError::UnexpectedEOF);
            },
        };
        if kind == 3 {
            Statement::Break(BreakStatement { span })
        } else {
            Statement::Continue(ContinueStatement { span })
        }
    } else {
        let expression = match parse_expression(compiler, lexer, Precedence::Lowest) {
            Ok(e) => e,
            Err(e) => {
                return Err(e);
            },
        };
        let semicolon = match lexer.peek_token() {
            Some(Token::SemiColon) => true,
            Some(_) => false,
            None => {
                lexer.run_out();
                return Err(ParseError::UnexpectedEOF);
            },
        };
        if !semicolon {
            expecting_semicolon = false;
        }
        proof {
            lemma_expr_view_span(expression);
        }
        let span = expression.span();
        Statement::ExpressionStatement(ExpressionStatement { expression, implicit_return: !semicolon, span })
    };
    if expecting_semicolon {
        match lexer.next_token() {
            Some(Token::SemiColon) => {},
            Some(token) => {
                return Err(expected_token(Token::SemiColon, token, "semicolon must follow statement"));
            },
            None => {
                lexer.run_out();
                return Err(ParseError::UnexpectedEOF);
            },
        }
    }
    Ok(statement)
}

} // verus!

verus! {

/// Whether a token is one of the additive operators `+` and `-`.
pub open spec fn is_additive(t: TokenView) -> bool {
    t == TokenView::Plus || t == TokenView::Minus
}

/// Whether a token is one of the multiplicative operators `*` and `/`.
pub open spec fn is_multiplicative(t: TokenView) -> bool {
    t == TokenView::Asterix || t == TokenView::ForwardSlash
}

/// Whether a token is one of the comparison operators.
pub open spec fn is_comparison(t: TokenView) -> bool {
    t == TokenView::DoubleEq || t == TokenView::NotEq || t == TokenView::LeftAngle || t == TokenView::RightAngle
        || t == TokenView::LeftAngleEq || t == TokenView::RightAngleEq
}

/// Whether a token is one of the logical operators `&&` and `||`.
pub open spec fn is_logical(t: TokenView) -> bool {
    t == TokenView::And || t == TokenView::Or
}

/// Whether a token is `=` or a compound assignment.
pub open spec fn is_assignment(t: TokenView) -> bool {
    t == TokenView::Eq || t == TokenView::AddAssign || t == TokenView::MinusAssign || t == TokenView::DivAssign
        || t == TokenView::MulAssign
}

/// Operators bind in the usual order, tightest first: calls and indexing,
/// then `*` and `/`, then `+` and `-`, then comparisons, then `&&` and `||`,
/// then assignments; every operator binds tighter than the lowest precedence
/// an expression starts from. So in `a + b * c` the product is the right
/// operand of `+` (the right operand of `+` is parsed at the precedence of `+`,
/// and `*` binds tighter than it), and operators of one level associate to the
/// left (none binds tighter than its own level).
pub proof fn law_expression_precedence(p: TokenView, q: TokenView)
    ensures
        is_multiplicative(p) && is_additive(q) ==> expr_rank(expr_precedence_of(p)) > expr_rank(expr_precedence_of(q)),
        is_additive(p) && is_comparison(q) ==> expr_rank(expr_precedence_of(p)) > expr_rank(expr_precedence_of(q)),
        is_comparison(p) && is_logical(q) ==> expr_rank(expr_precedence_of(p)) > expr_rank(expr_precedence_of(q)),
        is_logical(p) && is_assignment(q) ==> expr_rank(expr_precedence_of(p)) > expr_rank(expr_precedence_of(q)),
        (p == TokenView::LeftParen || p == TokenView::LeftSquare) && is_multiplicative(q) ==> expr_rank(
            expr_precedence_of(p),
        ) > expr_rank(expr_precedence_of(q)),
        is_assignment(p) ==> expr_rank(expr_precedence_of(p)) > expr_rank(Precedence::Lowest),
        is_additive(p) ==> !(expr_rank(expr_precedence_of(p)) < expr_rank(expr_precedence_of(p))),
        is_additive(p) ==> expr_rank(expr_precedence_of(p)) == expr_rank(Precedence::Sum),
        is_multiplicative(p) ==> expr_rank(Precedence::Sum) < expr_rank(expr_precedence_of(p)),
{
}

} // verus!
