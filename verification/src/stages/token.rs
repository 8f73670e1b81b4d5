//! The tokens of the first version of the language. Two tokens are equal when
//! they are of the same kind and carry the same literal text; where they were
//! found in the source does not matter.
use vstd::prelude::*;

use crate::ident::Span;

verus! {

/// A token of the first version of the language.
#[derive(Debug)]
pub enum Token {
    Illegal(IllegalToken),
    EOF(EOFToken),
    Ident(IdentToken),
    Int(IntToken),
    String(StringToken),
    Assign(AssignToken),
    Plus(PlusToken),
    Minus(MinusToken),
    Bang(BangToken),
    Asterisk(AsteriskToken),
    Slash(SlashToken),
    LeftAngle(LeftAngleToken),
    RightAngle(RightAngleToken),
    Eq(EqToken),
    NotEq(NotEqToken),
    Comma(CommaToken),
    Semicolon(SemicolonToken),
    LeftParen(LeftParenToken),
    RightParen(RightParenToken),
    LeftBrace(LeftBraceToken),
    RightBrace(RightBraceToken),
    Function(FunctionToken),
    Let(LetToken),
    True(TrueToken),
    False(FalseToken),
    If(IfToken),
    Else(ElseToken),
    Return(ReturnToken),
}

#[derive(Debug, Default)]
pub struct IllegalToken {
    pub span: Span,
}

#[derive(Debug, Default)]
pub struct EOFToken {
    pub span: Span,
}

#[derive(Debug, Default)]
pub struct IdentToken {
    pub span: Span,
    pub literal: String,
}

#[derive(Debug, Default)]
pub struct IntToken {
    pub span: Span,
    pub literal: String,
}

#[derive(Debug, Default)]
pub struct StringToken {
    pub span: Span,
    pub literal: String,
}

#[derive(Debug, Default)]
pub struct AssignToken {
    pub span: Span,
}

#[derive(Debug, Default)]
pub struct PlusToken {
    pub span: Span,
}

#[derive(Debug, Default)]
pub struct MinusToken {
    pub span: Span,
}

#[derive(Debug, Default)]
pub struct BangToken {
    pub span: Span,
}

#[derive(Debug, Default)]
pub struct AsteriskToken {
    pub span: Span,
}

#[derive(Debug, Default)]
pub struct SlashToken {
    pub span: Span,
}

#[derive(Debug, Default)]
pub struct LeftAngleToken {
    pub span: Span,
}

#[derive(Debug, Default)]
pub struct RightAngleToken {
    pub span: Span,
}

#[derive(Debug, Default)]
pub struct EqToken {
    pub span: Span,
}

#[derive(Debug, Default)]
pub struct NotEqToken {
    pub span: Span,
}

#[derive(Debug, Default)]
pub struct CommaToken {
    pub span: Span,
}

#[derive(Debug, Default)]
pub struct SemicolonToken {
    pub span: Span,
}

#[derive(Debug, Default)]
pub struct LeftParenToken {
    pub span: Span,
}

#[derive(Debug, Default)]
pub struct RightParenToken {
    pub span: Span,
}

#[derive(Debug, Default)]
pub struct LeftBraceToken {
    pub span: Span,
}

#[derive(Debug, Default)]
pub struct RightBraceToken {
    pub span: Span,
}

#[derive(Debug, Default)]
pub struct FunctionToken {
    pub span: Span,
}

#[derive(Debug, Default)]
pub struct LetToken {
    pub span: Span,
}

#[derive(Debug, Default)]
pub struct TrueToken {
    pub span: Span,
}

#[derive(Debug, Default)]
pub struct FalseToken {
    pub span: Span,
}

#[derive(Debug, Default)]
pub struct IfToken {
    pub span: Span,
}

#[derive(Debug, Default)]
pub struct ElseToken {
    pub span: Span,
}

#[derive(Debug, Default)]
pub struct ReturnToken {
    pub span: Span,
}

/// Token equality: the same kind, and the same literal text where the kind has one.
pub open spec fn token_eq(a: Token, b: Token) -> bool {
    match (a, b) {
        (Token::Illegal(_), Token::Illegal(_)) => true,
        (Token::EOF(_), Token::EOF(_)) => true,
        (Token::Ident(x), Token::Ident(y)) => x.literal@ == y.literal@,
        (Token::Int(x), Token::Int(y)) => x.literal@ == y.literal@,
        (Token::String(x), Token::String(y)) => x.literal@ == y.literal@,
        (Token::Assign(_), Token::Assign(_)) => true,
        (Token::Plus(_), Token::Plus(_)) => true,
        (Token::Minus(_), Token::Minus(_)) => true,
        (Token::Bang(_), Token::Bang(_)) => true,
        (Token::Asterisk(_), Token::Asterisk(_)) => true,
        (Token::Slash(_), Token::Slash(_)) => true,
        (Token::LeftAngle(_), Token::LeftAngle(_)) => true,
        (Token::RightAngle(_), Token::RightAngle(_)) => true,
        (Token::Eq(_), Token::Eq(_)) => true,
        (Token::NotEq(_), Token::NotEq(_)) => true,
        (Token::Comma(_), Token::Comma(_)) => true,
        (Token::Semicolon(_), Token::Semicolon(_)) => true,
        (Token::LeftParen(_), Token::LeftParen(_)) => true,
        (Token::RightParen(_), Token::RightParen(_)) => true,
        (Token::LeftBrace(_), Token::LeftBrace(_)) => true,
        (Token::RightBrace(_), Token::RightBrace(_)) => true,
        (Token::Function(_), Token::Function(_)) => true,
        (Token::Let(_), Token::Let(_)) => true,
        (Token::True(_), Token::True(_)) => true,
        (Token::False(_), Token::False(_)) => true,
        (Token::If(_), Token::If(_)) => true,
        (Token::Else(_), Token::Else(_)) => true,
        (Token::Return(_), Token::Return(_)) => true,
        _ => false,
    }
}

impl PartialEq for Token {
    fn eq(&self, other: &Token) -> (r: bool) {
        match (self, other) {
            (Token::Illegal(_), Token::Illegal(_)) => true,
            (Token::EOF(_), Token::EOF(_)) => true,
            (Token::Ident(x), Token::Ident(y)) => x.literal == y.literal,
            (Token::Int(x), Token::Int(y)) => x.literal == y.literal,
            (Token::String(x), Token::String(y)) => x.literal == y.literal,
            (Token::Assign(_), Token::Assign(_)) => true,
            (Token::Plus(_), Token::Plus(_)) => true,
            (Token::Minus(_), Token::Minus(_)) => true,
            (Token::Bang(_), Token::Bang(_)) => true,
            (Token::Asterisk(_), Token::Asterisk(_)) => true,
            (Token::Slash(_), Token::Slash(_)) => true,
            (Token::LeftAngle(_), Token::LeftAngle(_)) => true,
            (Token::RightAngle(_), Token::RightAngle(_)) => true,
            (Token::Eq(_), Token::Eq(_)) => true,
            (Token::NotEq(_), Token::NotEq(_)) => true,
            (Token::Comma(_), Token::Comma(_)) => true,
            (Token::Semicolon(_), Token::Semicolon(_)) => true,
            (Token::LeftParen(_), Token::LeftParen(_)) => true,
            (Token::RightParen(_), Token::RightParen(_)) => true,
            (Token::LeftBrace(_), Token::LeftBrace(_)) => true,
            (Token::RightBrace(_), Token::RightBrace(_)) => true,
            (Token::Function(_), Token::Function(_)) => true,
            (Token::Let(_), Token::Let(_)) => true,
            (Token::True(_), Token::True(_)) => true,
            (Token::False(_), Token::False(_)) => true,
            (Token::If(_), Token::If(_)) => true,
            (Token::Else(_), Token::Else(_)) => true,
            (Token::Return(_), Token::Return(_)) => true,
            _ => false,
        }
    }
}

impl vstd::std_specs::cmp::PartialEqSpecImpl for Token {
    open spec fn obeys_eq_spec() -> bool {
        true
    }

    open spec fn eq_spec(&self, other: &Token) -> bool {
        token_eq(*self, *other)
    }
}

} // verus!
