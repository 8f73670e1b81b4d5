//! Parsing: from tokens to the untyped syntax tree.
//!
//! The parser reads tokens from a [`Lexer`], interning every identifier in the
//! compiler's symbol map. Several steps take the next token for granted, as the
//! grammar requires one there; parsing a token sequence that runs out at such a
//! step is outside the contracts, and the specification in [`grammar`] gives
//! `None` for it.
use vstd::prelude::*;

pub mod expression;
pub mod function;
pub mod grammar;
pub mod lexer;
pub mod token;

use crate::ast::untyped::{expr_view, Expression, ExprView};
use crate::ast::InfixOperation;
use crate::ident::Span;
use crate::parse::lexer::{lex, lex_source};
use crate::parse::token::{Token, TokenView};

verus! {

/// Why parsing failed.
#[derive(Debug)]
pub enum ParseError {
    UnexpectedToken(Token),
    ExpectedToken { expected: Box<Token>, found: Box<Token>, reason: String },
    InvalidInfixLhs { found: Box<Expression>, reason: String },
    InvalidLiteral { expected: String },
    MissingMain,
    MissingReturn,
    ExpectedBlock,
    UnexpectedEOF,
    NoRegisteredParsers(String),
}

/// The model of a parse error: tokens by their views, texts as sequences.
pub ghost enum ParseErrorView {
    UnexpectedToken(TokenView),
    ExpectedToken { expected: TokenView, found: TokenView, reason: Seq<char> },
    InvalidInfixLhs { found: ExprView, reason: Seq<char> },
    InvalidLiteral { expected: Seq<char> },
    MissingMain,
    MissingReturn,
    ExpectedBlock,
    UnexpectedEOF,
    NoRegisteredParsers(Seq<char>),
}

impl View for ParseError {
    type V = ParseErrorView;

    open spec fn view(&self) -> ParseErrorView {
        match self {
            ParseError::UnexpectedToken(t) => ParseErrorView::UnexpectedToken(t@),
            ParseError::ExpectedToken { expected, found, reason } => ParseErrorView::ExpectedToken {
                expected: expected@,
                found: found@,
                reason: reason@,
            },
            ParseError::InvalidInfixLhs { found, reason } => ParseErrorView::InvalidInfixLhs {
                found: expr_view(**found),
                reason: reason@,
            },
            ParseError::InvalidLiteral { expected } => ParseErrorView::InvalidLiteral { expected: expected@ },
            ParseError::MissingMain => ParseErrorView::MissingMain,
            ParseError::MissingReturn => ParseErrorView::MissingReturn,
            ParseError::ExpectedBlock => ParseErrorView::ExpectedBlock,
            ParseError::UnexpectedEOF => ParseErrorView::UnexpectedEOF,
            ParseError::NoRegisteredParsers(s) => ParseErrorView::NoRegisteredParsers(s@),
        }
    }
}

/// An error for a token other than the one the grammar requires.
pub fn expected_token(expected: Token, found: Token, reason: &str) -> (r: ParseError)
    ensures
        r@ == (ParseErrorView::ExpectedToken { expected: expected@, found: found@, reason: reason@ }),
{
    ParseError::ExpectedToken { expected: Box::new(expected), found: Box::new(found), reason: reason.to_owned() }
}

/// How tightly an operator binds, loosest first.
#[derive(Clone, Copy, Debug, Default, PartialEq, Eq, PartialOrd, Ord, Structural)]
pub enum Precedence {
    #[default]
    Lowest,
    Assign,
    Binary,
    Equality,
    Sum,
    Multiply,
    Cast,
    Call,
}

/// The position of a precedence in the order, loosest first.
pub open spec fn precedence_rank(p: Precedence) -> u8 {
    match p {
        Precedence::Lowest => 0,
        Precedence::Assign => 1,
        Precedence::Binary => 2,
        Precedence::Equality => 3,
        Precedence::Sum => 4,
        Precedence::Multiply => 5,
        Precedence::Cast => 6,
        Precedence::Call => 7,
    }
}

/// The precedence of a token in infix position.
pub open spec fn precedence_of(token: TokenView) -> Precedence {
    match token {
        TokenView::Minus | TokenView::Plus => Precedence::Sum,
        TokenView::Asterix | TokenView::ForwardSlash => Precedence::Multiply,
        TokenView::And | TokenView::Or => Precedence::Binary,
        TokenView::DoubleEq | TokenView::NotEq | TokenView::LeftAngle | TokenView::RightAngle
        | TokenView::LeftAngleEq | TokenView::RightAngleEq => Precedence::Equality,
        TokenView::LeftParen | TokenView::LeftSquare => Precedence::Call,
        TokenView::Eq | TokenView::AddAssign | TokenView::MinusAssign | TokenView::DivAssign
        | TokenView::MulAssign => Precedence::Assign,
        TokenView::As => Precedence::Cast,
        _ => Precedence::Lowest,
    }
}

/// The precedence of an infix operation.
pub open spec fn operation_precedence(op: InfixOperation) -> Precedence {
    match op {
        InfixOperation::Minus | InfixOperation::Plus => Precedence::Sum,
        InfixOperation::Multiply | InfixOperation::Divide => Precedence::Multiply,
        InfixOperation::And | InfixOperation::Or => Precedence::Binary,
        _ => Precedence::Equality,
    }
}

impl Precedence {
    /// The precedence of a token in infix position.
    pub fn of(token: &Token) -> (r: Precedence)
        ensures
            r == precedence_of(token@),
    {
        match token {
            Token::Minus | Token::Plus => Precedence::Sum,
            Token::Asterix | Token::ForwardSlash => Precedence::Multiply,
            Token::And | Token::Or => Precedence::Binary,
            Token::DoubleEq | Token::NotEq | Token::LeftAngle | Token::RightAngle | Token::LeftAngleEq
            | Token::RightAngleEq => Precedence::Equality,
            Token::LeftParen | Token::LeftSquare => Precedence::Call,
            Token::Eq | Token::AddAssign | Token::MinusAssign | Token::DivAssign | Token::MulAssign => Precedence::Assign,
            Token::As => Precedence::Cast,
            _ => Precedence::Lowest,
        }
    }

    /// The position of this precedence in the order, loosest first.
    pub fn rank(&self) -> (r: u8)
        ensures
            r == precedence_rank(*self),
    {
        match self {
            Precedence::Lowest => 0,
            Precedence::Assign => 1,
            Precedence::Binary => 2,
            Precedence::Equality => 3,
            Precedence::Sum => 4,
            Precedence::Multiply => 5,
            Precedence::Cast => 6,
            Precedence::Call => 7,
        }
    }
}

impl From<InfixOperation> for Precedence {
    fn from(op: InfixOperation) -> (r: Precedence) {
        match op {
            InfixOperation::Minus | InfixOperation::Plus => Precedence::Sum,
            InfixOperation::Multiply | InfixOperation::Divide => Precedence::Multiply,
            InfixOperation::And | InfixOperation::Or => Precedence::Binary,
            InfixOperation::Eq | InfixOperation::NotEq | InfixOperation::Greater | InfixOperation::Less
            | InfixOperation::GreaterEq | InfixOperation::LessEq => Precedence::Equality,
        }
    }
}

impl vstd::std_specs::convert::FromSpecImpl<InfixOperation> for Precedence {
    open spec fn obeys_from_spec() -> bool {
        true
    }

    open spec fn from_spec(op: InfixOperation) -> Precedence {
        operation_precedence(op)
    }
}

/// The model of a token sequence: each token with its span.
pub type TokensView = Seq<(TokenView, Span)>;

/// A sequence of tokens with a read position.
#[derive(Debug)]
pub struct Lexer {
    tokens: Vec<(Token, Span)>,
    position: usize,
    ran_out: bool,
}

impl Lexer {
    /// A lexer at the start of the tokens of a source text, or `None` where the
    /// text holds a character outside ASCII or one that starts no token.
    pub fn from_source(source: &str) -> (r: Option<Lexer>)
        ensures
            match r {
                Some(l) => l.wf() && l.position() == 0 && !l.ran_out() && lex_source(source) == Some(l.tokens()),
                None => lex_source(source) is None,
            },
    {
        match lex(source) {
            Some(tokens) => Some(Lexer { tokens, position: 0, ran_out: false }),
            None => None,
        }
    }

    /// The tokens, read or not.
    pub closed spec fn tokens(&self) -> TokensView {
        self.tokens@.map_values(|t: (Token, Span)| (t.0@, t.1))
    }

    /// The number of tokens read.
    pub closed spec fn position(&self) -> int {
        self.position as int
    }

    /// Whether a construct was cut short by the end of the tokens, where a
    /// token had to follow.
    pub closed spec fn ran_out(&self) -> bool {
        self.ran_out
    }

    /// Whether a construct was cut short by the end of the tokens.
    pub fn has_run_out(&self) -> (r: bool)
        ensures
            r == self.ran_out(),
    {
        self.ran_out
    }

    /// Record that a construct was cut short by the end of the tokens.
    pub fn run_out(&mut self)
        ensures
            final(self).tokens() == old(self).tokens(),
            final(self).position() == old(self).position(),
            final(self).wf() == old(self).wf(),
            final(self).ran_out(),
    {
        self.ran_out = true;
    }

    /// The read position lies within the tokens.
    pub closed spec fn wf(&self) -> bool {
        self.position <= self.tokens@.len()
    }

    /// A lexer at the start of the given tokens.
    pub fn new(tokens: Vec<(Token, Span)>) -> (r: Lexer)
        ensures
            r.wf(),
            r.position() == 0,
            !r.ran_out(),
            r.tokens() == tokens@.map_values(|t: (Token, Span)| (t.0@, t.1)),
    {
        Lexer { tokens, position: 0, ran_out: false }
    }

    /// The next token, if any, without reading it.
    pub fn peek_token(&self) -> (r: Option<&Token>)
        requires
            self.wf(),
        ensures
            match r {
                Some(t) => self.position() < self.tokens().len() && t@ == self.tokens()[self.position()].0,
                None => self.position() >= self.tokens().len(),
            },
    {
        if self.position < self.tokens.len() {
            Some(&self.tokens[self.position].0)
        } else {
            None
        }
    }

    /// The next token and its span, if any, without reading them.
    pub fn peek_spanned(&self) -> (r: Option<(&Token, &Span)>)
        requires
            self.wf(),
        ensures
            match r {
                Some((t, s)) => self.position() < self.tokens().len() && (t@, *s) == self.tokens()[self.position()],
                None => self.position() >= self.tokens().len(),
            },
    {
        if self.position < self.tokens.len() {
            Some((&self.tokens[self.position].0, &self.tokens[self.position].1))
        } else {
            None
        }
    }

    /// The token after the next one, if any.
    pub fn double_peek_token(&self) -> (r: Option<&Token>)
        requires
            self.wf(),
        ensures
            match r {
                Some(t) => self.position() + 1 < self.tokens().len() && t@ == self.tokens()[self.position() + 1].0,
                None => self.position() + 1 >= self.tokens().len(),
            },
    {
        if self.position < self.tokens.len() && self.position + 1 < self.tokens.len() {
            Some(&self.tokens[self.position + 1].0)
        } else {
            None
        }
    }

    /// Read the next token and its span, if any.
    pub fn next_spanned(&mut self) -> (r: Option<(Token, Span)>)
        requires
            old(self).wf(),
        ensures
            final(self).wf(),
            final(self).tokens() == old(self).tokens(),
            final(self).ran_out() == old(self).ran_out(),
            match r {
                Some((t, s)) => old(self).position() < old(self).tokens().len()
                    && (t@, s) == old(self).tokens()[old(self).position()]
                    && final(self).position() == old(self).position() + 1,
                None => old(self).position() >= old(self).tokens().len() && final(self).position() == old(self).position(),
            },
    {
        if self.position < self.tokens.len() {
            let token = self.tokens[self.position].0.duplicate();
            let span = self.tokens[self.position].1;
            self.position = self.position + 1;
            Some((token, span))
        } else {
            None
        }
    }

    /// Read the next token, if any.
    pub fn next_token(&mut self) -> (r: Option<Token>)
        requires
            old(self).wf(),
        ensures
            final(self).wf(),
            final(self).tokens() == old(self).tokens(),
            final(self).ran_out() == old(self).ran_out(),
            match r {
                Some(t) => old(self).position() < old(self).tokens().len()
                    && t@ == old(self).tokens()[old(self).position()].0
                    && final(self).position() == old(self).position() + 1,
                None => old(self).position() >= old(self).tokens().len() && final(self).position() == old(self).position(),
            },
    {
        match self.next_spanned() {
            Some((token, _)) => Some(token),
            None => None,
        }
    }

    /// The number of tokens left to read.
    pub fn count(&self) -> (r: usize)
        requires
            self.wf(),
        ensures
            r == self.tokens().len() - self.position(),
    {
        self.tokens.len() - self.position
    }
}


/// The precedence of infix operations follows the usual order: `*` and `/`
/// bind tighter than `+` and `-`, which bind tighter than the comparisons,
/// which bind tighter than `&&` and `||`; the token order agrees with it, and
/// a cast binds tighter than `*` and `/`.
pub proof fn law_precedence_order(p: TokenView, q: TokenView)
    ensures
        (p == TokenView::Asterix || p == TokenView::ForwardSlash) && (q == TokenView::Plus || q == TokenView::Minus)
            ==> precedence_rank(precedence_of(p)) > precedence_rank(precedence_of(q)),
        (p == TokenView::Plus || p == TokenView::Minus) && (q == TokenView::DoubleEq || q == TokenView::NotEq
            || q == TokenView::LeftAngle || q == TokenView::RightAngle) ==> precedence_rank(precedence_of(p))
            > precedence_rank(precedence_of(q)),
        (p == TokenView::DoubleEq || p == TokenView::NotEq) && (q == TokenView::And || q == TokenView::Or)
            ==> precedence_rank(precedence_of(p)) > precedence_rank(precedence_of(q)),
        p == TokenView::As && (q == TokenView::Asterix || q == TokenView::ForwardSlash) ==> precedence_rank(
            precedence_of(p),
        ) > precedence_rank(precedence_of(q)),
        precedence_rank(operation_precedence(InfixOperation::Multiply)) > precedence_rank(
            operation_precedence(InfixOperation::Plus),
        ),
        precedence_rank(operation_precedence(InfixOperation::Divide)) > precedence_rank(
            operation_precedence(InfixOperation::Minus),
        ),
        precedence_rank(operation_precedence(InfixOperation::Minus)) > precedence_rank(
            operation_precedence(InfixOperation::Eq),
        ),
        precedence_rank(operation_precedence(InfixOperation::Eq)) > precedence_rank(
            operation_precedence(InfixOperation::And),
        ),
{
}

} // verus!
