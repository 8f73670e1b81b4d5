//! The grammar of the language, as the result of parsing a token sequence from
//! a position.
//!
//! Each function gives the outcome of one parsing step on the tokens `ts` from
//! position `pos` with the interned strings `syms`: the node or the error, the
//! position after the step and the interned strings after it. Identifiers are
//! interned as they are read. A step gives `None` where it needs a token past
//! the end of the sequence.
use vstd::prelude::*;

use crate::ast::untyped::{BlockView, Boolean, ExprView, Ident, Integer, StmtView};
use crate::ast::InfixOperation;
use crate::compiler::spec_intern;
use crate::ident::{Span, Symbol};
use crate::parse::expression::{expr_precedence_of, expr_rank, Precedence};
use crate::parse::token::TokenView;
use crate::parse::{ParseErrorView, TokensView};

verus! {

/// The interned strings; a symbol is an index into them.
pub type Symbols = Seq<Seq<char>>;

/// The outcome of a parsing step: its result, the position after it and the
/// interned strings after it, or `None` where it needs a token past the end.
pub type Parsed<T> = Option<(Result<T, ParseErrorView>, int, Symbols)>;

/// The symbol of a string and the interned strings after interning it.
pub open spec fn intern(syms: Symbols, s: Seq<char>) -> (Symbol, Symbols) {
    spec_intern(syms, s)
}

/// The token at a position.
pub open spec fn tok(ts: TokensView, pos: int) -> TokenView {
    ts[pos].0
}

/// The span of the token at a position.
pub open spec fn span_at(ts: TokensView, pos: int) -> Span {
    ts[pos].1
}

/// The span from the start of one span to the end of another.
pub open spec fn join(a: Span, b: Span) -> Span {
    Span { start: a.start, end: b.end }
}

/// An error for a token other than the one the grammar requires.
pub open spec fn expected(expected: TokenView, found: TokenView, reason: Seq<char>) -> ParseErrorView {
    ParseErrorView::ExpectedToken { expected, found, reason }
}

/// The infix operation a token stands for, if any.
pub open spec fn infix_operation(t: TokenView) -> Option<InfixOperation> {
    match t {
        TokenView::Plus => Some(InfixOperation::Plus),
        TokenView::Minus => Some(InfixOperation::Minus),
        TokenView::Asterix => Some(InfixOperation::Multiply),
        TokenView::ForwardSlash => Some(InfixOperation::Divide),
        TokenView::And => Some(InfixOperation::And),
        TokenView::Or => Some(InfixOperation::Or),
        TokenView::DoubleEq => Some(InfixOperation::Eq),
        TokenView::NotEq => Some(InfixOperation::NotEq),
        TokenView::LeftAngle => Some(InfixOperation::Less),
        TokenView::RightAngle => Some(InfixOperation::Greater),
        TokenView::LeftAngleEq => Some(InfixOperation::LessEq),
        TokenView::RightAngleEq => Some(InfixOperation::GreaterEq),
        _ => None,
    }
}

/// An integer literal.
pub open spec fn p_integer(ts: TokensView, pos: int, syms: Symbols) -> Parsed<Integer> {
    if pos < 0 || pos >= ts.len() {
        None
    } else {
        match tok(ts, pos) {
            TokenView::Integer(value) => Some((Ok(Integer { value, span: span_at(ts, pos) }), pos + 1, syms)),
            t => Some((Err(expected(TokenView::Integer(0), t, "integer token expected"@)), pos + 1, syms)),
        }
    }
}

/// A boolean literal.
pub open spec fn p_boolean(ts: TokensView, pos: int, syms: Symbols) -> Parsed<Boolean> {
    if pos < 0 || pos >= ts.len() {
        None
    } else {
        match tok(ts, pos) {
            TokenView::True => Some((Ok(Boolean { value: true, span: span_at(ts, pos) }), pos + 1, syms)),
            TokenView::False => Some((Ok(Boolean { value: false, span: span_at(ts, pos) }), pos + 1, syms)),
            t => Some((Err(expected(TokenView::True, t, "expected boolean token"@)), pos + 1, syms)),
        }
    }
}

/// An identifier.
pub open spec fn p_ident(ts: TokensView, pos: int, syms: Symbols) -> Parsed<Ident> {
    if pos < 0 || pos >= ts.len() {
        None
    } else {
        match tok(ts, pos) {
            TokenView::Ident(name) => {
                let (binding, s1) = intern(syms, name);
                Some((Ok(Ident { binding, span: span_at(ts, pos) }), pos + 1, s1))
            },
            t => Some((Err(expected(TokenView::Ident(Seq::empty()), t, "expected ident"@)), pos + 1, syms)),
        }
    }
}

/// An expression whose operators bind tighter than `prec`: a prefix expression
/// followed by infix operations.
pub open spec fn p_expr(ts: TokensView, pos: int, syms: Symbols, prec: Precedence) -> Parsed<ExprView>
    decreases ts.len() - pos, 4nat,
{
    if pos < 0 || pos > ts.len() {
        None
    } else {
        match p_prefix(ts, pos, syms) {
            Some((Ok(left), p1, s1)) => if pos < p1 <= ts.len() {
                p_loop(ts, p1, s1, prec, left)
            } else {
                None
            },
            other => other,
        }
    }
}

/// The infix operations that follow `left`, for as long as the next token binds
/// tighter than `prec`. A call or an index is an operation on an identifier.
pub open spec fn p_loop(ts: TokensView, pos: int, syms: Symbols, prec: Precedence, left: ExprView) -> Parsed<ExprView>
    decreases ts.len() - pos, 6nat,
{
    if pos < 0 || pos > ts.len() {
        None
    } else if pos < ts.len() && expr_rank(prec) < expr_rank(expr_precedence_of(tok(ts, pos))) {
        let step = match left {
            ExprView::Ident { binding, span } => if tok(ts, pos) == TokenView::LeftParen {
                p_call(ts, pos, syms, Ident { binding, span })
            } else if tok(ts, pos) == TokenView::LeftSquare {
                p_index(ts, pos, syms, Ident { binding, span })
            } else {
                p_infix(ts, pos, syms, left)
            },
            _ => p_infix(ts, pos, syms, left),
        };
        match step {
            Some((Ok(e), p2, s2)) => if pos < p2 <= ts.len() {
                p_loop(ts, p2, s2, prec, e)
            } else {
                None
            },
            other => other,
        }
    } else {
        Some((Ok(left), pos, syms))
    }
}

/// An infix operation on `left`: the operator, then the right operand at the
/// operator's precedence. A token that is no operator is read and dropped.
pub open spec fn p_infix(ts: TokensView, pos: int, syms: Symbols, left: ExprView) -> Parsed<ExprView>
    decreases ts.len() - pos, 5nat,
{
    if pos < 0 || pos >= ts.len() {
        None
    } else {
        match infix_operation(tok(ts, pos)) {
            Some(operation) => match p_expr(ts, pos + 1, syms, expr_precedence_of(tok(ts, pos))) {
                Some((Ok(right), p2, s2)) => Some((
                    Ok(ExprView::Infix {
                        left: Box::new(left),
                        operation,
                        right: Box::new(right),
                        span: join(left.span(), right.span()),
                    }),
                    p2,
                    s2,
                )),
                other => other,
            },
            None => Some((Ok(left), pos + 1, syms)),
        }
    }
}

/// An index into the array bound to `ident`: `[`, the index, `]`.
pub open spec fn p_index(ts: TokensView, pos: int, syms: Symbols, ident: Ident) -> Parsed<ExprView>
    decreases ts.len() - pos, 5nat,
{
    if pos < 0 || pos >= ts.len() {
        None
    } else if tok(ts, pos) != TokenView::LeftSquare {
        Some((Err(expected(TokenView::LeftSquare, tok(ts, pos), "index must be performed with square bracket"@)), pos + 1, syms))
    } else {
        match p_expr(ts, pos + 1, syms, Precedence::Lowest) {
            Some((Ok(index), p2, s2)) => if 0 <= p2 < ts.len() {
                if tok(ts, p2) == TokenView::RightSquare {
                    Some((
                        Ok(ExprView::Index {
                            value: ident.binding,
                            index: Box::new(index),
                            span: join(ident.span, span_at(ts, p2)),
                        }),
                        p2 + 1,
                        s2,
                    ))
                } else {
                    Some((Err(expected(TokenView::RightSquare, tok(ts, p2), "index must be performed with square bracket"@)), p2 + 1, s2))
                }
            } else {
                None
            },
            other => other,
        }
    }
}

/// A call of the function named by `ident`: its arguments, then `)`.
pub open spec fn p_call(ts: TokensView, pos: int, syms: Symbols, ident: Ident) -> Parsed<ExprView>
    decreases ts.len() - pos, 5nat,
{
    match p_args(ts, pos, syms, Seq::empty()) {
        Some((Ok(args), p2, s2)) => if 0 <= p2 < ts.len() {
            if tok(ts, p2) == TokenView::RightParen {
                Some((
                    Ok(ExprView::Call { name: ident.binding, args, span: join(ident.span, span_at(ts, p2)) }),
                    p2 + 1,
                    s2,
                ))
            } else {
                Some((Err(expected(TokenView::RightParen, tok(ts, p2), "argument list must end with right paren"@)), p2 + 1, s2))
            }
        } else {
            None
        },
        Some((Err(e), p2, s2)) => Some((Err(e), p2, s2)),
        None => None,
    }
}

/// Call arguments after `acc`: each starts after `(` or `,`, and they end
/// before `)`, which may follow a trailing comma.
pub open spec fn p_args(ts: TokensView, pos: int, syms: Symbols, acc: Seq<ExprView>) -> Parsed<Seq<ExprView>>
    decreases ts.len() - pos, 4nat,
{
    if pos < 0 || pos >= ts.len() {
        None
    } else {
        match tok(ts, pos) {
            TokenView::RightParen => Some((Ok(acc), pos, syms)),
            TokenView::LeftParen | TokenView::Comma => if pos + 1 >= ts.len() {
                None
            } else if tok(ts, pos + 1) == TokenView::RightParen {
                Some((Ok(acc), pos + 1, syms))
            } else {
                match p_expr(ts, pos + 1, syms, Precedence::Lowest) {
                    Some((Ok(e), p2, s2)) => if pos < p2 <= ts.len() {
                        p_args(ts, p2, s2, acc.push(e))
                    } else {
                        None
                    },
                    Some((Err(e), p2, s2)) => Some((Err(e), p2, s2)),
                    None => None,
                }
            },
            t => Some((Err(expected(TokenView::Comma, t, "function arguments must be separated by a comma"@)), pos, syms)),
        }
    }
}

/// An expression in parentheses.
pub open spec fn p_grouped(ts: TokensView, pos: int, syms: Symbols) -> Parsed<ExprView>
    decreases ts.len() - pos, 2nat,
{
    if pos < 0 || pos >= ts.len() {
        None
    } else if tok(ts, pos) != TokenView::LeftParen {
        Some((Err(expected(TokenView::LeftParen, tok(ts, pos), "open paren for grouped expression"@)), pos + 1, syms))
    } else {
        match p_expr(ts, pos + 1, syms, Precedence::Lowest) {
            Some((Ok(e), p2, s2)) => if 0 <= p2 < ts.len() {
                if tok(ts, p2) == TokenView::RightParen {
                    Some((Ok(e), p2 + 1, s2))
                } else {
                    Some((Err(expected(TokenView::RightParen, tok(ts, p2), "close paren must end grouped expression"@)), p2 + 1, s2))
                }
            } else {
                None
            },
            other => other,
        }
    }
}

/// A conditional: `if`, the condition, a block, and optionally `else` and a block.
pub open spec fn p_if(ts: TokensView, pos: int, syms: Symbols) -> Parsed<ExprView>
    decreases ts.len() - pos, 2nat,
{
    if pos < 0 || pos >= ts.len() {
        None
    } else if tok(ts, pos) != TokenView::If {
        Some((Err(expected(TokenView::If, tok(ts, pos), "if statement expected"@)), pos + 1, syms))
    } else {
        match p_expr(ts, pos + 1, syms, Precedence::Lowest) {
            Some((Ok(condition), p2, s2)) => if pos < p2 <= ts.len() {
                match p_block(ts, p2, s2) {
                    Some((Ok(success), p3, s3)) => if pos < p3 <= ts.len() {
                        if p3 < ts.len() && tok(ts, p3) == TokenView::Else {
                            match p_block(ts, p3 + 1, s3) {
                                Some((Ok(otherwise), p4, s4)) => Some((
                                    Ok(ExprView::If {
                                        condition: Box::new(condition),
                                        success,
                                        otherwise: Some(otherwise),
                                        span: join(span_at(ts, pos), otherwise.span),
                                    }),
                                    p4,
                                    s4,
                                )),
                                Some((Err(e), p4, s4)) => Some((Err(e), p4, s4)),
                                None => None,
                            }
                        } else {
                            Some((
                                Ok(ExprView::If { condition: Box::new(condition), success, otherwise: None, span: join(span_at(ts, pos), success.span) }),
                                p3,
                                s3,
                            ))
                        }
                    } else {
                        None
                    },
                    Some((Err(e), p3, s3)) => Some((Err(e), p3, s3)),
                    None => None,
                }
            } else {
                None
            },
            Some((Err(e), p2, s2)) => Some((Err(e), p2, s2)),
            None => None,
        }
    }
}

/// A loop: `loop` and its body.
pub open spec fn p_loop_expr(ts: TokensView, pos: int, syms: Symbols) -> Parsed<ExprView>
    decreases ts.len() - pos, 2nat,
{
    if pos < 0 || pos >= ts.len() {
        None
    } else if tok(ts, pos) != TokenView::Loop {
        Some((Err(expected(TokenView::Loop, tok(ts, pos), "loop must start with keyword"@)), pos + 1, syms))
    } else {
        match p_block(ts, pos + 1, syms) {
            Some((Ok(body), p2, s2)) => Some((Ok(ExprView::Loop { body, span: join(span_at(ts, pos), body.span) }), p2, s2)),
            Some((Err(e), p2, s2)) => Some((Err(e), p2, s2)),
            None => None,
        }
    }
}

/// An assignment: an identifier, `=`, and the value.
pub open spec fn p_assign(ts: TokensView, pos: int, syms: Symbols) -> Parsed<ExprView>
    decreases ts.len() - pos, 2nat,
{
    if pos < 0 || pos >= ts.len() {
        None
    } else {
        match tok(ts, pos) {
            TokenView::Ident(name) => {
                let (binding, s1) = intern(syms, name);
                if pos + 1 >= ts.len() {
                    None
                } else if tok(ts, pos + 1) != TokenView::Eq {
                    Some((Err(expected(TokenView::Eq, tok(ts, pos + 1), "equals sign following binding for assign"@)), pos + 2, s1))
                } else {
                    match p_expr(ts, pos + 2, s1, Precedence::Lowest) {
                        Some((Ok(value), p3, s3)) => Some((
                            Ok(ExprView::Assign { binding, value: Box::new(value), span: join(span_at(ts, pos), value.span()) }),
                            p3,
                            s3,
                        )),
                        Some((Err(e), p3, s3)) => Some((Err(e), p3, s3)),
                        None => None,
                    }
                }
            },
            t => Some((Err(expected(TokenView::Ident(Seq::empty()), t, "assign must start with ident"@)), pos + 1, syms)),
        }
    }
}

/// The operation of a compound assignment token, if it is one.
pub open spec fn op_assign_operation(t: TokenView) -> Option<InfixOperation> {
    match t {
        TokenView::AddAssign => Some(InfixOperation::Plus),
        TokenView::MinusAssign => Some(InfixOperation::Minus),
        TokenView::MulAssign => Some(InfixOperation::Multiply),
        TokenView::DivAssign => Some(InfixOperation::Divide),
        _ => None,
    }
}

/// A compound assignment `x op= value`, which assigns `x op value` to `x`.
pub open spec fn p_op_assign(ts: TokensView, pos: int, syms: Symbols) -> Parsed<ExprView>
    decreases ts.len() - pos, 2nat,
{
    if pos < 0 || pos >= ts.len() {
        None
    } else {
        match tok(ts, pos) {
            TokenView::Ident(name) => {
                let (binding, s1) = intern(syms, name);
                if pos + 1 >= ts.len() {
                    None
                } else {
                    match op_assign_operation(tok(ts, pos + 1)) {
                        None => Some((Err(ParseErrorView::UnexpectedToken(tok(ts, pos + 1))), pos + 2, s1)),
                        Some(operation) => match p_expr(ts, pos + 2, s1, Precedence::Lowest) {
                            Some((Ok(right), p3, s3)) => Some((
                                Ok(ExprView::Assign {
                                    binding,
                                    value: Box::new(ExprView::Infix {
                                        left: Box::new(ExprView::Ident { binding, span: span_at(ts, pos) }),
                                        operation,
                                        right: Box::new(right),
                                        span: right.span(),
                                    }),
                                    span: join(span_at(ts, pos), right.span()),
                                }),
                                p3,
                                s3,
                            )),
                            Some((Err(e), p3, s3)) => Some((Err(e), p3, s3)),
                            None => None,
                        },
                    }
                }
            },
            t => Some((Err(expected(TokenView::Ident(Seq::empty()), t, "assign must start with ident"@)), pos + 1, syms)),
        }
    }
}

/// An array literal: `[`, items separated by commas, `]`.
pub open spec fn p_array(ts: TokensView, pos: int, syms: Symbols) -> Parsed<ExprView>
    decreases ts.len() - pos, 2nat,
{
    if pos < 0 || pos >= ts.len() {
        None
    } else if tok(ts, pos) != TokenView::LeftSquare {
        Some((Err(expected(TokenView::LeftSquare, tok(ts, pos), "array literal must start with square brace"@)), pos + 1, syms))
    } else {
        match p_items(ts, pos + 1, syms, Seq::empty(), true) {
            Some((Ok((init, end)), p2, s2)) => Some((Ok(ExprView::Array { init, span: Span { start: span_at(ts, pos).start, end } }), p2, s2)),
            Some((Err(e), p2, s2)) => Some((Err(e), p2, s2)),
            None => None,
        }
    }
}

/// Array items after `acc`, through the closing `]`; the result holds the items
/// and the end of the closing bracket's span.
pub open spec fn p_items(ts: TokensView, pos: int, syms: Symbols, acc: Seq<ExprView>, expect_item: bool) -> Parsed<(Seq<ExprView>, usize)>
    decreases ts.len() - pos, 5nat,
{
    if pos < 0 || pos >= ts.len() {
        None
    } else if tok(ts, pos) == TokenView::Comma && !expect_item {
        p_items(ts, pos + 1, syms, acc, true)
    } else if tok(ts, pos) == TokenView::RightSquare {
        Some((Ok((acc, span_at(ts, pos).end)), pos + 1, syms))
    } else if expect_item {
        match p_expr(ts, pos, syms, Precedence::Lowest) {
            Some((Ok(e), p2, s2)) => if pos < p2 <= ts.len() {
                p_items(ts, p2, s2, acc.push(e), false)
            } else {
                None
            },
            Some((Err(e), p2, s2)) => Some((Err(e), p2, s2)),
            None => None,
        }
    } else {
        Some((Err(expected(TokenView::RightSquare, tok(ts, pos), "expected a comma or closing brace"@)), pos, syms))
    }
}

/// The expression that a token starts, chosen by that token (and, for an
/// identifier, by the token after it).
pub open spec fn p_prefix(ts: TokensView, pos: int, syms: Symbols) -> Parsed<ExprView>
    decreases ts.len() - pos, 3nat,
{
    if pos < 0 || pos >= ts.len() {
        None
    } else {
        match tok(ts, pos) {
            TokenView::Integer(_) => match p_integer(ts, pos, syms) {
                Some((Ok(n), p, s)) => Some((Ok(ExprView::Integer { value: n.value, span: n.span }), p, s)),
                Some((Err(e), p, s)) => Some((Err(e), p, s)),
                None => None,
            },
            TokenView::Ident(_) => if pos + 1 < ts.len() && tok(ts, pos + 1) == TokenView::Eq {
                p_assign(ts, pos, syms)
            } else if pos + 1 < ts.len() && (tok(ts, pos + 1) == TokenView::AddAssign || tok(ts, pos + 1) == TokenView::MinusAssign) {
                p_op_assign(ts, pos, syms)
            } else {
                match p_ident(ts, pos, syms) {
                    Some((Ok(i), p, s)) => Some((Ok(ExprView::Ident { binding: i.binding, span: i.span }), p, s)),
                    Some((Err(e), p, s)) => Some((Err(e), p, s)),
                    None => None,
                }
            },
            TokenView::True | TokenView::False => match p_boolean(ts, pos, syms) {
                Some((Ok(b), p, s)) => Some((Ok(ExprView::Boolean { value: b.value, span: b.span }), p, s)),
                Some((Err(e), p, s)) => Some((Err(e), p, s)),
                None => None,
            },
            TokenView::LeftBrace => match p_block(ts, pos, syms) {
                Some((Ok(b), p, s)) => Some((Ok(ExprView::Block(b)), p, s)),
                Some((Err(e), p, s)) => Some((Err(e), p, s)),
                None => None,
            },
            TokenView::LeftParen => p_grouped(ts, pos, syms),
            TokenView::LeftSquare => p_array(ts, pos, syms),
            TokenView::If => p_if(ts, pos, syms),
            TokenView::Loop => p_loop_expr(ts, pos, syms),
            t => Some((Err(ParseErrorView::UnexpectedToken(t)), pos, syms)),
        }
    }
}

/// A block: `{`, statements, `}`.
pub open spec fn p_block(ts: TokensView, pos: int, syms: Symbols) -> Parsed<BlockView>
    decreases ts.len() - pos, 2nat,
{
    if pos < 0 || pos >= ts.len() {
        None
    } else if tok(ts, pos) != TokenView::LeftBrace {
        Some((Err(expected(TokenView::LeftBrace, tok(ts, pos), "block must begin with an opening brace"@)), pos + 1, syms))
    } else {
        match p_stmts(ts, pos + 1, syms, Seq::empty()) {
            Some((Ok(statements), p2, s2)) => if 0 <= p2 < ts.len() {
                if tok(ts, p2) == TokenView::RightBrace {
                    Some((Ok(BlockView { statements, span: join(span_at(ts, pos), span_at(ts, p2)) }), p2 + 1, s2))
                } else {
                    Some((Err(expected(TokenView::RightBrace, tok(ts, p2), "block must end with a closing brace"@)), p2 + 1, s2))
                }
            } else {
                None
            },
            Some((Err(e), p2, s2)) => Some((Err(e), p2, s2)),
            None => None,
        }
    }
}

/// Statements after `acc`, up to a `}`, which is not read.
pub open spec fn p_stmts(ts: TokensView, pos: int, syms: Symbols, acc: Seq<StmtView>) -> Parsed<Seq<StmtView>>
    decreases ts.len() - pos, 7nat,
{
    if pos < 0 || pos >= ts.len() {
        None
    } else if tok(ts, pos) == TokenView::RightBrace {
        Some((Ok(acc), pos, syms))
    } else {
        match p_stmt(ts, pos, syms) {
            Some((Ok(s), p2, s2)) => if pos < p2 <= ts.len() {
                p_stmts(ts, p2, s2, acc.push(s))
            } else {
                None
            },
            Some((Err(e), p2, s2)) => Some((Err(e), p2, s2)),
            None => None,
        }
    }
}

/// A statement and whether a semicolon must follow it.
pub open spec fn p_stmt_body(ts: TokensView, pos: int, syms: Symbols) -> Parsed<(StmtView, bool)>
    decreases ts.len() - pos, 5nat,
{
    if pos < 0 || pos >= ts.len() {
        None
    } else {
        match tok(ts, pos) {
            TokenView::Return => match p_expr(ts, pos + 1, syms, Precedence::Lowest) {
                Some((Ok(value), p2, s2)) => Some((
                    Ok((StmtView::Return { value, span: join(span_at(ts, pos), value.span()) }, true)),
                    p2,
                    s2,
                )),
                Some((Err(e), p2, s2)) => Some((Err(e), p2, s2)),
                None => None,
            },
            TokenView::Let => if pos + 1 >= ts.len() {
                None
            } else {
                match tok(ts, pos + 1) {
                    TokenView::Ident(name) => if pos + 2 >= ts.len() {
                        None
                    } else if tok(ts, pos + 2) != TokenView::Eq {
                        Some((Err(expected(TokenView::Eq, tok(ts, pos + 2), "equals sign must follow ident"@)), pos + 3, syms))
                    } else {
                        match p_expr(ts, pos + 3, syms, Precedence::Lowest) {
                            Some((Ok(value), p3, s3)) => {
                                let (binding, s4) = intern(s3, name);
                                Some((
                                    Ok((StmtView::Let { binding, value, ty: None, span: join(span_at(ts, pos), value.span()) }, true)),
                                    p3,
                                    s4,
                                ))
                            },
                            Some((Err(e), p3, s3)) => Some((Err(e), p3, s3)),
                            None => None,
                        }
                    },
                    t => Some((Err(expected(TokenView::Ident(Seq::empty()), t, "ident must follow let binding"@)), pos + 2, syms)),
                }
            },
            TokenView::Break => Some((Ok((StmtView::Break { span: span_at(ts, pos) }, true)), pos + 1, syms)),
            TokenView::Continue => Some((Ok((StmtView::Continue { span: span_at(ts, pos) }, true)), pos + 1, syms)),
            _ => match p_expr(ts, pos, syms, Precedence::Lowest) {
                Some((Ok(expression), p2, s2)) => if 0 <= p2 < ts.len() {
                    let semicolon = tok(ts, p2) == TokenView::SemiColon;
                    Some((
                        Ok((StmtView::Expression {
                            expression,
                            implicit_return: !semicolon,
                            span: expression.span(),
                        }, semicolon)),
                        p2,
                        s2,
                    ))
                } else {
                    None
                },
                Some((Err(e), p2, s2)) => Some((Err(e), p2, s2)),
                None => None,
            },
        }
    }
}

/// A statement, with the semicolon that must follow it where one must.
pub open spec fn p_stmt(ts: TokensView, pos: int, syms: Symbols) -> Parsed<StmtView>
    decreases ts.len() - pos, 6nat,
{
    match p_stmt_body(ts, pos, syms) {
        Some((Ok((s, true)), p2, s2)) => if 0 <= p2 < ts.len() {
            if tok(ts, p2) == TokenView::SemiColon {
                Some((Ok(s), p2 + 1, s2))
            } else {
                Some((Err(expected(TokenView::SemiColon, tok(ts, p2), "semicolon must follow statement"@)), p2 + 1, s2))
            }
        } else {
            None
        },
        Some((Ok((s, false)), p2, s2)) => Some((Ok(s), p2, s2)),
        Some((Err(e), p2, s2)) => Some((Err(e), p2, s2)),
        None => None,
    }
}

/// The integer literal read at a position.
pub open spec fn literal_at(ts: TokensView, pos: int, value: i64) -> ExprView {
    ExprView::Integer { value, span: span_at(ts, pos) }
}

/// The infix expression `left operation right`, spanning both operands.
pub open spec fn infix_node(left: ExprView, operation: InfixOperation, right: ExprView) -> ExprView {
    ExprView::Infix { left: Box::new(left), operation, right: Box::new(right), span: join(left.span(), right.span()) }
}

/// Whether the expression ends at a position: there is no token there, or one
/// that continues no expression.
pub open spec fn ends_at(ts: TokensView, pos: int) -> bool {
    pos == ts.len() || expr_precedence_of(tok(ts, pos)) == Precedence::Lowest
}

/// `a + b * c` (and `a - b / c`): a product or quotient to the right of a sum
/// or difference binds tighter, so it becomes the right operand of `+` or `-`.
pub proof fn law_product_binds_tighter_on_the_right(
    ts: TokensView,
    p: int,
    syms: Symbols,
    a: i64,
    b: i64,
    c: i64,
    sum: InfixOperation,
    product: InfixOperation,
)
    requires
        0 <= p,
        p + 5 <= ts.len(),
        tok(ts, p) == TokenView::Integer(a),
        tok(ts, p + 2) == TokenView::Integer(b),
        tok(ts, p + 4) == TokenView::Integer(c),
        sum == InfixOperation::Plus ==> tok(ts, p + 1) == TokenView::Plus,
        sum == InfixOperation::Minus ==> tok(ts, p + 1) == TokenView::Minus,
        sum == InfixOperation::Plus || sum == InfixOperation::Minus,
        product == InfixOperation::Multiply ==> tok(ts, p + 3) == TokenView::Asterix,
        product == InfixOperation::Divide ==> tok(ts, p + 3) == TokenView::ForwardSlash,
        product == InfixOperation::Multiply || product == InfixOperation::Divide,
        ends_at(ts, p + 5),
    ensures
        p_expr(ts, p, syms, Precedence::Lowest) == Some((
            Ok::<ExprView, ParseErrorView>(infix_node(
                literal_at(ts, p, a),
                sum,
                infix_node(literal_at(ts, p + 2, b), product, literal_at(ts, p + 4, c)),
            )),
            p + 5,
            syms,
        )),
{
    let ea = literal_at(ts, p, a);
    let eb = literal_at(ts, p + 2, b);
    let ec = literal_at(ts, p + 4, c);
    let inner = infix_node(eb, product, ec);
    let outer = infix_node(ea, sum, inner);
    assert(p_prefix(ts, p + 4, syms) == Some((Ok::<ExprView, ParseErrorView>(ec), p + 5, syms)));
    assert(p_loop(ts, p + 5, syms, Precedence::Multiply, ec) == Some((Ok::<ExprView, ParseErrorView>(ec), p + 5, syms)));
    assert(p_expr(ts, p + 4, syms, Precedence::Multiply) == Some((Ok::<ExprView, ParseErrorView>(ec), p + 5, syms)));
    assert(p_infix(ts, p + 3, syms, eb) == Some((Ok::<ExprView, ParseErrorView>(inner), p + 5, syms)));
    assert(p_loop(ts, p + 5, syms, Precedence::Sum, inner) == Some((Ok::<ExprView, ParseErrorView>(inner), p + 5, syms)));
    assert(p_loop(ts, p + 3, syms, Precedence::Sum, eb) == Some((Ok::<ExprView, ParseErrorView>(inner), p + 5, syms)));
    assert(p_prefix(ts, p + 2, syms) == Some((Ok::<ExprView, ParseErrorView>(eb), p + 3, syms)));
    assert(p_expr(ts, p + 2, syms, Precedence::Sum) == Some((Ok::<ExprView, ParseErrorView>(inner), p + 5, syms)));
    assert(p_infix(ts, p + 1, syms, ea) == Some((Ok::<ExprView, ParseErrorView>(outer), p + 5, syms)));
    assert(p_loop(ts, p + 5, syms, Precedence::Lowest, outer) == Some((Ok::<ExprView, ParseErrorView>(outer), p + 5, syms)));
    assert(p_loop(ts, p + 1, syms, Precedence::Lowest, ea) == Some((Ok::<ExprView, ParseErrorView>(outer), p + 5, syms)));
    assert(p_prefix(ts, p, syms) == Some((Ok::<ExprView, ParseErrorView>(ea), p + 1, syms)));
}

/// `a * b + c` (and `a / b - c`): a product or quotient to the left of a sum or
/// difference binds tighter, so it becomes the left operand of `+` or `-`.
pub proof fn law_product_binds_tighter_on_the_left(
    ts: TokensView,
    p: int,
    syms: Symbols,
    a: i64,
    b: i64,
    c: i64,
    product: InfixOperation,
    sum: InfixOperation,
)
    requires
        0 <= p,
        p + 5 <= ts.len(),
        tok(ts, p) == TokenView::Integer(a),
        tok(ts, p + 2) == TokenView::Integer(b),
        tok(ts, p + 4) == TokenView::Integer(c),
        product == InfixOperation::Multiply ==> tok(ts, p + 1) == TokenView::Asterix,
        product == InfixOperation::Divide ==> tok(ts, p + 1) == TokenView::ForwardSlash,
        product == InfixOperation::Multiply || product == InfixOperation::Divide,
        sum == InfixOperation::Plus ==> tok(ts, p + 3) == TokenView::Plus,
        sum == InfixOperation::Minus ==> tok(ts, p + 3) == TokenView::Minus,
        sum == InfixOperation::Plus || sum == InfixOperation::Minus,
        ends_at(ts, p + 5),
    ensures
        p_expr(ts, p, syms, Precedence::Lowest) == Some((
            Ok::<ExprView, ParseErrorView>(infix_node(
                infix_node(literal_at(ts, p, a), product, literal_at(ts, p + 2, b)),
                sum,
                literal_at(ts, p + 4, c),
            )),
            p + 5,
            syms,
        )),
{
    let ea = literal_at(ts, p, a);
    let eb = literal_at(ts, p + 2, b);
    let ec = literal_at(ts, p + 4, c);
    let inner = infix_node(ea, product, eb);
    let outer = infix_node(inner, sum, ec);
    assert(p_prefix(ts, p + 2, syms) == Some((Ok::<ExprView, ParseErrorView>(eb), p + 3, syms)));
    assert(p_loop(ts, p + 3, syms, Precedence::Multiply, eb) == Some((Ok::<ExprView, ParseErrorView>(eb), p + 3, syms)));
    assert(p_expr(ts, p + 2, syms, Precedence::Multiply) == Some((Ok::<ExprView, ParseErrorView>(eb), p + 3, syms)));
    assert(p_infix(ts, p + 1, syms, ea) == Some((Ok::<ExprView, ParseErrorView>(inner), p + 3, syms)));
    assert(p_prefix(ts, p + 4, syms) == Some((Ok::<ExprView, ParseErrorView>(ec), p + 5, syms)));
    assert(p_loop(ts, p + 5, syms, Precedence::Sum, ec) == Some((Ok::<ExprView, ParseErrorView>(ec), p + 5, syms)));
    assert(p_expr(ts, p + 4, syms, Precedence::Sum) == Some((Ok::<ExprView, ParseErrorView>(ec), p + 5, syms)));
    assert(p_infix(ts, p + 3, syms, inner) == Some((Ok::<ExprView, ParseErrorView>(outer), p + 5, syms)));
    assert(p_loop(ts, p + 5, syms, Precedence::Lowest, outer) == Some((Ok::<ExprView, ParseErrorView>(outer), p + 5, syms)));
    assert(p_loop(ts, p + 3, syms, Precedence::Lowest, inner) == Some((Ok::<ExprView, ParseErrorView>(outer), p + 5, syms)));
    assert(p_loop(ts, p + 1, syms, Precedence::Lowest, ea) == Some((Ok::<ExprView, ParseErrorView>(outer), p + 5, syms)));
    assert(p_prefix(ts, p, syms) == Some((Ok::<ExprView, ParseErrorView>(ea), p + 1, syms)));
}

/// Whether a token is an infix operator.
pub open spec fn is_infix_operator(t: TokenView) -> bool {
    ||| t == TokenView::Plus
    ||| t == TokenView::Minus
    ||| t == TokenView::Asterix
    ||| t == TokenView::ForwardSlash
    ||| t == TokenView::And
    ||| t == TokenView::Or
    ||| t == TokenView::DoubleEq
    ||| t == TokenView::NotEq
    ||| t == TokenView::LeftAngle
    ||| t == TokenView::RightAngle
    ||| t == TokenView::LeftAngleEq
    ||| t == TokenView::RightAngleEq
}

/// `a op b` parses as the operation that the operator token names: `+` adds,
/// `-` subtracts, `*` multiplies, `/` divides, `&&` and `||` are the logical
/// operations, `==` and `!=` compare for equality, and `<`, `>`, `<=`, `>=`
/// compare by order.
pub proof fn law_operator_meaning(ts: TokensView, p: int, syms: Symbols, a: i64, t: TokenView, b: i64)
    requires
        0 <= p,
        p + 3 <= ts.len(),
        tok(ts, p) == TokenView::Integer(a),
        tok(ts, p + 1) == t,
        tok(ts, p + 2) == TokenView::Integer(b),
        is_infix_operator(t),
        ends_at(ts, p + 3),
    ensures
        p_expr(ts, p, syms, Precedence::Lowest) == Some((
            Ok::<ExprView, ParseErrorView>(infix_node(
                literal_at(ts, p, a),
                match t {
                    TokenView::Plus => InfixOperation::Plus,
                    TokenView::Minus => InfixOperation::Minus,
                    TokenView::Asterix => InfixOperation::Multiply,
                    TokenView::ForwardSlash => InfixOperation::Divide,
                    TokenView::And => InfixOperation::And,
                    TokenView::Or => InfixOperation::Or,
                    TokenView::DoubleEq => InfixOperation::Eq,
                    TokenView::NotEq => InfixOperation::NotEq,
                    TokenView::LeftAngle => InfixOperation::Less,
                    TokenView::RightAngle => InfixOperation::Greater,
                    TokenView::LeftAngleEq => InfixOperation::LessEq,
                    _ => InfixOperation::GreaterEq,
                },
                literal_at(ts, p + 2, b),
            )),
            p + 3,
            syms,
        )),
{
    let ea = literal_at(ts, p, a);
    let eb = literal_at(ts, p + 2, b);
    let node = infix_node(ea, infix_operation(t).unwrap(), eb);
    let prec = expr_precedence_of(t);
    assert(p_prefix(ts, p + 2, syms) == Some((Ok::<ExprView, ParseErrorView>(eb), p + 3, syms)));
    assert(p_loop(ts, p + 3, syms, prec, eb) == Some((Ok::<ExprView, ParseErrorView>(eb), p + 3, syms)));
    assert(p_expr(ts, p + 2, syms, prec) == Some((Ok::<ExprView, ParseErrorView>(eb), p + 3, syms)));
    assert(p_infix(ts, p + 1, syms, ea) == Some((Ok::<ExprView, ParseErrorView>(node), p + 3, syms)));
    assert(p_loop(ts, p + 3, syms, Precedence::Lowest, node) == Some((Ok::<ExprView, ParseErrorView>(node), p + 3, syms)));
    assert(p_loop(ts, p + 1, syms, Precedence::Lowest, ea) == Some((Ok::<ExprView, ParseErrorView>(node), p + 3, syms)));
    assert(p_prefix(ts, p, syms) == Some((Ok::<ExprView, ParseErrorView>(ea), p + 1, syms)));
}

} // verus!
