//! The tokens of the language.
use vstd::prelude::*;

verus! {

/// A token of source text.
#[derive(Debug)]
pub enum Token {
    /// The `fn` keyword.
    Fn,
    /// The `let` keyword.
    Let,
    /// The `return` keyword.
    Return,
    /// The `if` keyword.
    If,
    /// The `else` keyword.
    Else,
    /// The `loop` keyword.
    Loop,
    /// The `break` keyword.
    Break,
    /// The `continue` keyword.
    Continue,
    /// The `true` literal.
    True,
    /// The `false` literal.
    False,
    /// The `as` keyword.
    As,
    /// The `int` type.
    Int,
    /// The `uint` type.
    Uint,
    /// The `bool` type.
    Bool,
    /// An identifier.
    Ident(String),
    /// An integer literal.
    Integer(i64),
    /// `(`.
    LeftParen,
    /// `)`.
    RightParen,
    /// `{`.
    LeftBrace,
    /// `}`.
    RightBrace,
    /// `[`.
    LeftSquare,
    /// `]`.
    RightSquare,
    /// `;`.
    SemiColon,
    /// `:`.
    Colon,
    /// `,`.
    Comma,
    /// `->`.
    ThinArrow,
    /// `=`.
    Eq,
    /// `+`.
    Plus,
    /// `-`.
    Minus,
    /// `*`.
    Asterix,
    /// `/`.
    ForwardSlash,
    /// `&&`.
    And,
    /// `||`.
    Or,
    /// `==`.
    DoubleEq,
    /// `!=`.
    NotEq,
    /// `<`.
    LeftAngle,
    /// `>`.
    RightAngle,
    /// `<=`.
    LeftAngleEq,
    /// `>=`.
    RightAngleEq,
    /// `+=`.
    AddAssign,
    /// `-=`.
    MinusAssign,
    /// `*=`.
    MulAssign,
    /// `/=`.
    DivAssign,
}

/// The model of a token: identifiers by their text.
pub ghost enum TokenView {
    Fn,
    Let,
    Return,
    If,
    Else,
    Loop,
    Break,
    Continue,
    True,
    False,
    As,
    Int,
    Uint,
    Bool,
    Ident(Seq<char>),
    Integer(i64),
    LeftParen,
    RightParen,
    LeftBrace,
    RightBrace,
    LeftSquare,
    RightSquare,
    SemiColon,
    Colon,
    Comma,
    ThinArrow,
    Eq,
    Plus,
    Minus,
    Asterix,
    ForwardSlash,
    And,
    Or,
    DoubleEq,
    NotEq,
    LeftAngle,
    RightAngle,
    LeftAngleEq,
    RightAngleEq,
    AddAssign,
    MinusAssign,
    MulAssign,
    DivAssign,
}

impl View for Token {
    type V = TokenView;

    open spec fn view(&self) -> TokenView {
        match self {
            Token::Fn => TokenView::Fn,
            Token::Let => TokenView::Let,
            Token::Return => TokenView::Return,
            Token::If => TokenView::If,
            Token::Else => TokenView::Else,
            Token::Loop => TokenView::Loop,
            Token::Break => TokenView::Break,
            Token::Continue => TokenView::Continue,
            Token::True => TokenView::True,
            Token::False => TokenView::False,
            Token::As => TokenView::As,
            Token::Int => TokenView::Int,
            Token::Uint => TokenView::Uint,
            Token::Bool => TokenView::Bool,
            Token::Ident(s) => TokenView::Ident(s@),
            Token::Integer(i) => TokenView::Integer(*i),
            Token::LeftParen => TokenView::LeftParen,
            Token::RightParen => TokenView::RightParen,
            Token::LeftBrace => TokenView::LeftBrace,
            Token::RightBrace => TokenView::RightBrace,
            Token::LeftSquare => TokenView::LeftSquare,
            Token::RightSquare => TokenView::RightSquare,
            Token::SemiColon => TokenView::SemiColon,
            Token::Colon => TokenView::Colon,
            Token::Comma => TokenView::Comma,
            Token::ThinArrow => TokenView::ThinArrow,
            Token::Eq => TokenView::Eq,
            Token::Plus => TokenView::Plus,
            Token::Minus => TokenView::Minus,
            Token::Asterix => TokenView::Asterix,
            Token::ForwardSlash => TokenView::ForwardSlash,
            Token::And => TokenView::And,
            Token::Or => TokenView::Or,
            Token::DoubleEq => TokenView::DoubleEq,
            Token::NotEq => TokenView::NotEq,
            Token::LeftAngle => TokenView::LeftAngle,
            Token::RightAngle => TokenView::RightAngle,
            Token::LeftAngleEq => TokenView::LeftAngleEq,
            Token::RightAngleEq => TokenView::RightAngleEq,
            Token::AddAssign => TokenView::AddAssign,
            Token::MinusAssign => TokenView::MinusAssign,
            Token::MulAssign => TokenView::MulAssign,
            Token::DivAssign => TokenView::DivAssign,
        }
    }
}

impl Token {
    /// A copy of this token.
    pub fn duplicate(&self) -> (r: Token)
        ensures
            r@ == self@,
    {
        match self {
            Token::Fn => Token::Fn,
            Token::Let => Token::Let,
            Token::Return => Token::Return,
            Token::If => Token::If,
            Token::Else => Token::Else,
            Token::Loop => Token::Loop,
            Token::Break => Token::Break,
            Token::Continue => Token::Continue,
            Token::True => Token::True,
            Token::False => Token::False,
            Token::As => Token::As,
            Token::Int => Token::Int,
            Token::Uint => Token::Uint,
            Token::Bool => Token::Bool,
            Token::Ident(s) => Token::Ident(s.clone()),
            Token::Integer(i) => Token::Integer(*i),
            Token::LeftParen => Token::LeftParen,
            Token::RightParen => Token::RightParen,
            Token::LeftBrace => Token::LeftBrace,
            Token::RightBrace => Token::RightBrace,
            Token::LeftSquare => Token::LeftSquare,
            Token::RightSquare => Token::RightSquare,
            Token::SemiColon => Token::SemiColon,
            Token::Colon => Token::Colon,
            Token::Comma => Token::Comma,
            Token::ThinArrow => Token::ThinArrow,
            Token::Eq => Token::Eq,
            Token::Plus => Token::Plus,
            Token::Minus => Token::Minus,
            Token::Asterix => Token::Asterix,
            Token::ForwardSlash => Token::ForwardSlash,
            Token::And => Token::And,
            Token::Or => Token::Or,
            Token::DoubleEq => Token::DoubleEq,
            Token::NotEq => Token::NotEq,
            Token::LeftAngle => Token::LeftAngle,
            Token::RightAngle => Token::RightAngle,
            Token::LeftAngleEq => Token::LeftAngleEq,
            Token::RightAngleEq => Token::RightAngleEq,
            Token::AddAssign => Token::AddAssign,
            Token::MinusAssign => Token::MinusAssign,
            Token::MulAssign => Token::MulAssign,
            Token::DivAssign => Token::DivAssign,
        }
    }
}

impl Clone for Token {
    fn clone(&self) -> (r: Token)
        ensures
            r@ == self@,
    {
        self.duplicate()
    }
}

} // verus!
