//! Splitting source text into tokens.
//!
//! Whitespace separates tokens. An identifier is a letter or `_` followed by
//! letters, digits and `_`; the keywords are identifiers set apart. An integer
//! is a run of decimal digits whose value fits in an `i64`. Of the operators,
//! the two-character ones are tried first. Any other character, an integer too
//! large, or a character outside ASCII, leaves the text without tokens.
use vstd::prelude::*;

use crate::ident::Span;
use crate::parse::token::{Token, TokenView};
use crate::parse::TokensView;
use vstd::string::StringSliceAdditionalSpecFns;

verus! {

/// Whitespace: space, tab, line feed, carriage return and form feed.
pub open spec fn is_space(b: u8) -> bool {
    b == 32 || b == 9 || b == 10 || b == 13 || b == 12
}

/// A character that may start an identifier.
pub open spec fn is_alpha(b: u8) -> bool {
    (97 <= b <= 122) || (65 <= b <= 90) || b == 95
}

/// A decimal digit.
pub open spec fn is_digit(b: u8) -> bool {
    48 <= b <= 57
}

/// The end of the run of identifier characters from `pos`.
pub open spec fn ident_end(bs: Seq<u8>, pos: int) -> int
    decreases bs.len() - pos,
{
    if 0 <= pos < bs.len() && (is_alpha(bs[pos]) || is_digit(bs[pos])) {
        ident_end(bs, pos + 1)
    } else {
        pos
    }
}

/// The end of the run of digits from `pos`.
pub open spec fn digits_end(bs: Seq<u8>, pos: int) -> int
    decreases bs.len() - pos,
{
    if 0 <= pos < bs.len() && is_digit(bs[pos]) {
        digits_end(bs, pos + 1)
    } else {
        pos
    }
}

/// The decimal value of the digits from `start` to `end`.
pub open spec fn digits_value(bs: Seq<u8>, start: int, end: int) -> int
    decreases end - start,
{
    if end <= start {
        0
    } else {
        digits_value(bs, start, end - 1) * 10 + (bs[end - 1] - 48)
    }
}

/// The keyword a word stands for, if it is one.
pub open spec fn keyword(word: Seq<char>) -> Option<TokenView> {
    if word == "fn"@ {
        Some(TokenView::Fn)
    } else if word == "let"@ {
        Some(TokenView::Let)
    } else if word == "return"@ {
        Some(TokenView::Return)
    } else if word == "if"@ {
        Some(TokenView::If)
    } else if word == "else"@ {
        Some(TokenView::Else)
    } else if word == "loop"@ {
        Some(TokenView::Loop)
    } else if word == "break"@ {
        Some(TokenView::Break)
    } else if word == "continue"@ {
        Some(TokenView::Continue)
    } else if word == "true"@ {
        Some(TokenView::True)
    } else if word == "false"@ {
        Some(TokenView::False)
    } else if word == "as"@ {
        Some(TokenView::As)
    } else if word == "int"@ {
        Some(TokenView::Int)
    } else if word == "uint"@ {
        Some(TokenView::Uint)
    } else if word == "bool"@ {
        Some(TokenView::Bool)
    } else {
        None
    }
}

/// The operator of two characters, if they form one.
pub open spec fn pair_operator(a: u8, b: u8) -> Option<TokenView> {
    if a == 45 && b == 62 {
        Some(TokenView::ThinArrow)
    } else if a == 61 && b == 61 {
        Some(TokenView::DoubleEq)
    } else if a == 33 && b == 61 {
        Some(TokenView::NotEq)
    } else if a == 60 && b == 61 {
        Some(TokenView::LeftAngleEq)
    } else if a == 62 && b == 61 {
        Some(TokenView::RightAngleEq)
    } else if a == 38 && b == 38 {
        Some(TokenView::And)
    } else if a == 124 && b == 124 {
        Some(TokenView::Or)
    } else if a == 43 && b == 61 {
        Some(TokenView::AddAssign)
    } else if a == 45 && b == 61 {
        Some(TokenView::MinusAssign)
    } else if a == 42 && b == 61 {
        Some(TokenView::MulAssign)
    } else if a == 47 && b == 61 {
        Some(TokenView::DivAssign)
    } else {
        None
    }
}

/// The operator or delimiter of one character, if it is one.
pub open spec fn single_operator(a: u8) -> Option<TokenView> {
    if a == 40 {
        Some(TokenView::LeftParen)
    } else if a == 41 {
        Some(TokenView::RightParen)
    } else if a == 123 {
        Some(TokenView::LeftBrace)
    } else if a == 125 {
        Some(TokenView::RightBrace)
    } else if a == 91 {
        Some(TokenView::LeftSquare)
    } else if a == 93 {
        Some(TokenView::RightSquare)
    } else if a == 59 {
        Some(TokenView::SemiColon)
    } else if a == 58 {
        Some(TokenView::Colon)
    } else if a == 44 {
        Some(TokenView::Comma)
    } else if a == 61 {
        Some(TokenView::Eq)
    } else if a == 43 {
        Some(TokenView::Plus)
    } else if a == 45 {
        Some(TokenView::Minus)
    } else if a == 42 {
        Some(TokenView::Asterix)
    } else if a == 47 {
        Some(TokenView::ForwardSlash)
    } else if a == 60 {
        Some(TokenView::LeftAngle)
    } else if a == 62 {
        Some(TokenView::RightAngle)
    } else {
        None
    }
}

/// The operator at `pos` and its length, the longer one first.
pub open spec fn operator_at(bs: Seq<u8>, pos: int) -> Option<(TokenView, int)> {
    if pos + 1 < bs.len() && pair_operator(bs[pos], bs[pos + 1]) is Some {
        Some((pair_operator(bs[pos], bs[pos + 1]).unwrap(), 2))
    } else {
        match single_operator(bs[pos]) {
            Some(t) => Some((t, 1)),
            None => None,
        }
    }
}

/// The token that starts at `pos`, which is no whitespace, and where it ends;
/// `None` where no token starts there.
pub open spec fn token_at(bs: Seq<u8>, chars: Seq<char>, pos: int) -> Option<(TokenView, int)> {
    if is_alpha(bs[pos]) {
        let end = ident_end(bs, pos + 1);
        let word = chars.subrange(pos, end);
        match keyword(word) {
            Some(t) => Some((t, end)),
            None => Some((TokenView::Ident(word), end)),
        }
    } else if is_digit(bs[pos]) {
        let end = digits_end(bs, pos + 1);
        if digits_value(bs, pos, end) <= i64::MAX {
            Some((TokenView::Integer(digits_value(bs, pos, end) as i64), end))
        } else {
            None
        }
    } else {
        match operator_at(bs, pos) {
            Some((t, n)) => Some((t, pos + n)),
            None => None,
        }
    }
}

/// The tokens of the bytes `bs` from `pos`, with the characters `chars` giving
/// identifiers their text; `None` where some character starts no token.
pub open spec fn lex_from(bs: Seq<u8>, chars: Seq<char>, pos: int) -> Option<TokensView>
    decreases bs.len() - pos,
{
    if pos < 0 || pos >= bs.len() {
        Some(Seq::empty())
    } else if is_space(bs[pos]) {
        lex_from(bs, chars, pos + 1)
    } else {
        match token_at(bs, chars, pos) {
            Some((t, end)) => if pos < end <= bs.len() {
                match lex_from(bs, chars, end) {
                    Some(rest) => Some(seq![(t, Span { start: pos as usize, end: end as usize })] + rest),
                    None => None,
                }
            } else {
                None
            },
            None => None,
        }
    }
}

/// The tokens of a source text, or `None` where it holds a character outside
/// ASCII or one that starts no token.
pub open spec fn lex_source(source: &str) -> Option<TokensView> {
    if vstd::string::is_ascii(source) {
        lex_from(source.spec_bytes(), source@, 0)
    } else {
        None
    }
}

proof fn lemma_ident_end(bs: Seq<u8>, pos: int)
    requires
        0 <= pos <= bs.len(),
    ensures
        pos <= ident_end(bs, pos) <= bs.len(),
    decreases bs.len() - pos,
{
    if pos < bs.len() && (is_alpha(bs[pos]) || is_digit(bs[pos])) {
        lemma_ident_end(bs, pos + 1);
    }
}

proof fn lemma_digits_end(bs: Seq<u8>, pos: int)
    requires
        0 <= pos <= bs.len(),
    ensures
        pos <= digits_end(bs, pos) <= bs.len(),
        forall|i: int| pos <= i < digits_end(bs, pos) ==> is_digit(#[trigger] bs[i]),
    decreases bs.len() - pos,
{
    if pos < bs.len() && is_digit(bs[pos]) {
        lemma_digits_end(bs, pos + 1);
    }
}

/// Reading more digits never makes the value smaller.
proof fn lemma_digits_value_grows(bs: Seq<u8>, start: int, mid: int, end: int)
    requires
        start <= mid <= end,
        forall|i: int| start <= i < end ==> is_digit(#[trigger] bs[i]),
    ensures
        0 <= digits_value(bs, start, mid) <= digits_value(bs, start, end),
    decreases end - start,
{
    if mid < end {
        lemma_digits_value_grows(bs, start, mid, end - 1);
        assert(is_digit(bs[end - 1]));
    } else if start < mid {
        lemma_digits_value_grows(bs, start, mid - 1, mid - 1);
        assert(is_digit(bs[mid - 1]));
    }
}

/// The end of the run of identifier characters from `pos`.
fn scan_ident(bytes: &[u8], pos: usize) -> (r: usize)
    requires
        pos <= bytes@.len(),
    ensures
        r == ident_end(bytes@, pos as int),
{
    let mut j = pos;
    while j < bytes.len() && ((97 <= bytes[j] && bytes[j] <= 122) || (65 <= bytes[j] && bytes[j] <= 90)
        || bytes[j] == 95 || (48 <= bytes[j] && bytes[j] <= 57))
        invariant
            pos <= j <= bytes@.len(),
            ident_end(bytes@, pos as int) == ident_end(bytes@, j as int),
        decreases bytes@.len() - j,
    {
        j = j + 1;
    }
    j
}

/// The end of the run of digits from `pos`.
fn scan_digits(bytes: &[u8], pos: usize) -> (r: usize)
    requires
        pos <= bytes@.len(),
    ensures
        r == digits_end(bytes@, pos as int),
{
    let mut j = pos;
    while j < bytes.len() && 48 <= bytes[j] && bytes[j] <= 57
        invariant
            pos <= j <= bytes@.len(),
            digits_end(bytes@, pos as int) == digits_end(bytes@, j as int),
        decreases bytes@.len() - j,
    {
        j = j + 1;
    }
    j
}

/// The value of the digits from `start` to `end`, if it fits in an `i64`.
fn digits_to_i64(bytes: &[u8], start: usize, end: usize) -> (r: Option<i64>)
    requires
        start <= end <= bytes@.len(),
        forall|i: int| start <= i < end ==> is_digit(#[trigger] bytes@[i]),
    ensures
        match r {
            Some(v) => v == digits_value(bytes@, start as int, end as int),
            None => digits_value(bytes@, start as int, end as int) > i64::MAX,
        },
{
    let mut value: i64 = 0;
    let mut j = start;
    while j < end
        invariant
            start <= j <= end <= bytes@.len(),
            forall|i: int| start <= i < end ==> is_digit(#[trigger] bytes@[i]),
            value == digits_value(bytes@, start as int, j as int),
        decreases end - j,
    {
        assert(is_digit(bytes@[j as int]));
        let digit = (bytes[j] - 48) as i64;
        proof {
            lemma_digits_value_grows(bytes@, start as int, j as int, j as int);
        }
        if value > (i64::MAX - digit) / 10 {
            proof {
                assert(digits_value(bytes@, start as int, j + 1) == value * 10 + digit);
                assert(value * 10 + digit > i64::MAX) by (nonlinear_arith)
                    requires
                        value > (i64::MAX - digit) / 10,
                        0 <= digit <= 9,
                ;
                lemma_digits_value_grows(bytes@, start as int, j + 1, end as int);
            }
            return None;
        }
        assert(value * 10 + digit <= i64::MAX) by (nonlinear_arith)
            requires
                value <= (i64::MAX - digit) / 10,
                0 <= digit <= 9,
                value >= 0,
        ;
        value = value * 10 + digit;
        j = j + 1;
    }
    Some(value)
}

/// The keyword token of a word, if it is one.
fn keyword_token(word: &String) -> (r: Option<Token>)
    ensures
        match r {
            Some(t) => keyword(word@) == Some(t@),
            None => keyword(word@) is None,
        },
{
    if *word == "fn".to_owned() {
        Some(Token::Fn)
    } else if *word == "let".to_owned() {
        Some(Token::Let)
    } else if *word == "return".to_owned() {
        Some(Token::Return)
    } else if *word == "if".to_owned() {
        Some(Token::If)
    } else if *word == "else".to_owned() {
        Some(Token::Else)
    } else if *word == "loop".to_owned() {
        Some(Token::Loop)
    } else if *word == "break".to_owned() {
        Some(Token::Break)
    } else if *word == "continue".to_owned() {
        Some(Token::Continue)
    } else if *word == "true".to_owned() {
        Some(Token::True)
    } else if *word == "false".to_owned() {
        Some(Token::False)
    } else if *word == "as".to_owned() {
        Some(Token::As)
    } else if *word == "int".to_owned() {
        Some(Token::Int)
    } else if *word == "uint".to_owned() {
        Some(Token::Uint)
    } else if *word == "bool".to_owned() {
        Some(Token::Bool)
    } else {
        None
    }
}

/// The operator at `pos` and its length, the longer one first.
fn operator_token(bytes: &[u8], pos: usize) -> (r: Option<(Token, usize)>)
    requires
        pos < bytes@.len(),
    ensures
        match r {
            Some((t, n)) => operator_at(bytes@, pos as int) == Some((t@, n as int)),
            None => operator_at(bytes@, pos as int) is None,
        },
{
    let a = bytes[pos];
    if pos + 1 < bytes.len() {
        let b = bytes[pos + 1];
        let pair = if a == 45 && b == 62 {
            Some(Token::ThinArrow)
        } else if a == 61 && b == 61 {
            Some(Token::DoubleEq)
        } else if a == 33 && b == 61 {
            Some(Token::NotEq)
        } else if a == 60 && b == 61 {
            Some(Token::LeftAngleEq)
        } else if a == 62 && b == 61 {
            Some(Token::RightAngleEq)
        } else if a == 38 && b == 38 {
            Some(Token::And)
        } else if a == 124 && b == 124 {
            Some(Token::Or)
        } else if a == 43 && b == 61 {
            Some(Token::AddAssign)
        } else if a == 45 && b == 61 {
            Some(Token::MinusAssign)
        } else if a == 42 && b == 61 {
            Some(Token::MulAssign)
        } else if a == 47 && b == 61 {
            Some(Token::DivAssign)
        } else {
            None
        };
        if let Some(t) = pair {
            return Some((t, 2));
        }
    }
    let single = if a == 40 {
        Some(Token::LeftParen)
    } else if a == 41 {
        Some(Token::RightParen)
    } else if a == 123 {
        Some(Token::LeftBrace)
    } else if a == 125 {
        Some(Token::RightBrace)
    } else if a == 91 {
        Some(Token::LeftSquare)
    } else if a == 93 {
        Some(Token::RightSquare)
    } else if a == 59 {
        Some(Token::SemiColon)
    } else if a == 58 {
        Some(Token::Colon)
    } else if a == 44 {
        Some(Token::Comma)
    } else if a == 61 {
        Some(Token::Eq)
    } else if a == 43 {
        Some(Token::Plus)
    } else if a == 45 {
        Some(Token::Minus)
    } else if a == 42 {
        Some(Token::Asterix)
    } else if a == 47 {
        Some(Token::ForwardSlash)
    } else if a == 60 {
        Some(Token::LeftAngle)
    } else if a == 62 {
        Some(Token::RightAngle)
    } else {
        None
    };
    match single {
        Some(t) => Some((t, 1)),
        None => None,
    }
}

/// The token that starts at `pos`, which is no whitespace, and where it ends.
fn next_token_at(source: &str, bytes: &[u8], pos: usize) -> (r: Option<(Token, usize)>)
    requires
        vstd::string::is_ascii(source),
        bytes@ == source.spec_bytes(),
        bytes@.len() == source@.len(),
        pos < bytes@.len(),
        !is_space(bytes@[pos as int]),
    ensures
        match r {
            Some((t, end)) => token_at(bytes@, source@, pos as int) == Some((t@, end as int)) && pos < end <= bytes@.len(),
            None => token_at(bytes@, source@, pos as int) is None,
        },
{
    let b = bytes[pos];
    if (97 <= b && b <= 122) || (65 <= b && b <= 90) || b == 95 {
        let end = scan_ident(bytes, pos + 1);
        proof {
            lemma_ident_end(bytes@, pos + 1);
        }
        let word = source.substring_ascii(pos, end).to_owned();
        let token = match keyword_token(&word) {
            Some(t) => t,
            None => Token::Ident(word),
        };
        Some((token, end))
    } else if 48 <= b && b <= 57 {
        let end = scan_digits(bytes, pos + 1);
        proof {
            lemma_digits_end(bytes@, pos + 1);
        }
        match digits_to_i64(bytes, pos, end) {
            Some(v) => Some((Token::Integer(v), end)),
            None => None,
        }
    } else {
        match operator_token(bytes, pos) {
            Some((t, n)) => Some((t, pos + n)),
            None => None,
        }
    }
}

/// The tokens of a source text, each with its span of bytes; `None` where the
/// text holds a character outside ASCII or one that starts no token.
pub fn lex(source: &str) -> (r: Option<Vec<(Token, Span)>>)
    ensures
        match r {
            Some(tokens) => lex_source(source) == Some(tokens@.map_values(|t: (Token, Span)| (t.0@, t.1))),
            None => lex_source(source) is None,
        },
{
    if !source.is_ascii() {
        return None;
    }
    let bytes = source.as_bytes();
    proof {
        vstd::string::is_ascii_spec_bytes(source);
    }
    let ghost bs = bytes@;
    let ghost chars = source@;
    assert(bs.len() == chars.len());
    let mut tokens: Vec<(Token, Span)> = Vec::new();
    let mut pos: usize = 0;
    assert(tokens@.map_values(|t: (Token, Span)| (t.0@, t.1)) =~= Seq::<(TokenView, Span)>::empty());
    assert(lex_from(bs, chars, 0) == match lex_from(bs, chars, 0) {
        Some(rest) => Some(Seq::<(TokenView, Span)>::empty() + rest),
        None => None::<TokensView>,
    }) by {
        if let Some(rest) = lex_from(bs, chars, 0) {
            assert(Seq::<(TokenView, Span)>::empty() + rest =~= rest);
        }
    }
    while pos < bytes.len()
        invariant
            bs == bytes@,
            bs == source.spec_bytes(),
            chars == source@,
            bs.len() == chars.len(),
            vstd::string::is_ascii(source),
            pos <= bs.len(),
            lex_from(bs, chars, 0) == match lex_from(bs, chars, pos as int) {
                Some(rest) => Some(tokens@.map_values(|t: (Token, Span)| (t.0@, t.1)) + rest),
                None => None::<TokensView>,
            },
        decreases bs.len() - pos,
    {
        let ghost done = tokens@.map_values(|t: (Token, Span)| (t.0@, t.1));
        let b = bytes[pos];
        if b == 32 || b == 9 || b == 10 || b == 13 || b == 12 {
            pos = pos + 1;
        } else {
            let (token, end) = match next_token_at(source, bytes, pos) {
                Some(t) => t,
                None => {
                    return None;
                },
            };
            let ghost entry = (token@, Span { start: pos, end });
            tokens.push((token, Span { start: pos, end }));
            proof {
                let now = tokens@.map_values(|t: (Token, Span)| (t.0@, t.1));
                assert(now =~= done.push(entry));
                if let Some(rest) = lex_from(bs, chars, end as int) {
                    assert(done + (seq![entry] + rest) =~= now + rest);
                }
            }
            pos = end;
        }
    }
    assert(lex_from(bs, chars, pos as int) == Some(Seq::<(TokenView, Span)>::empty()));
    assert(tokens@.map_values(|t: (Token, Span)| (t.0@, t.1)) + Seq::<(TokenView, Span)>::empty()
        =~= tokens@.map_values(|t: (Token, Span)| (t.0@, t.1)));
    Some(tokens)
}

/// Every token covers a nonempty stretch of the text from `pos` on, and the
/// tokens come in order without overlapping.
pub open spec fn spans_ordered(ts: TokensView, pos: int, len: int) -> bool {
    &&& forall|i: int| 0 <= i < ts.len() ==> pos <= (#[trigger] ts[i]).1.start < ts[i].1.end <= len
    &&& forall|i: int| 0 <= i < ts.len() - 1 ==> (#[trigger] ts[i]).1.end <= ts[i + 1].1.start
}

/// The tokens of a text cover nonempty stretches of it, in order and without
/// overlapping.
pub proof fn law_lex_spans_ordered(bs: Seq<u8>, chars: Seq<char>, pos: int)
    requires
        0 <= pos,
        bs.len() <= usize::MAX,
        lex_from(bs, chars, pos) is Some,
    ensures
        spans_ordered(lex_from(bs, chars, pos).unwrap(), pos, bs.len() as int),
    decreases bs.len() - pos,
{
    if pos < bs.len() {
        if is_space(bs[pos]) {
            law_lex_spans_ordered(bs, chars, pos + 1);
        } else {
            let (t, end) = token_at(bs, chars, pos).unwrap();
            law_lex_spans_ordered(bs, chars, end);
            let rest = lex_from(bs, chars, end).unwrap();
            let all = lex_from(bs, chars, pos).unwrap();
            assert(all == seq![(t, Span { start: pos as usize, end: end as usize })] + rest);
            assert forall|i: int| 0 <= i < all.len() implies pos <= (#[trigger] all[i]).1.start < all[i].1.end <= bs.len() by {
                if i > 0 {
                    assert(all[i] == rest[i - 1]);
                }
            }
            assert forall|i: int| 0 <= i < all.len() - 1 implies (#[trigger] all[i]).1.end <= all[i + 1].1.start by {
                assert(all[i + 1] == rest[i]);
                if i > 0 {
                    assert(all[i] == rest[i - 1]);
                }
            }
        }
    }
}

/// Whether the byte `c` stands at `pos`, followed by the end of the text,
/// whitespace, a letter or a digit.
pub open spec fn alone_at(bs: Seq<u8>, pos: int, c: u8) -> bool {
    &&& bs[pos] == c
    &&& pos + 1 == bs.len() || is_space(bs[pos + 1]) || is_alpha(bs[pos + 1]) || is_digit(bs[pos + 1])
}

/// Whether the bytes `c` and `d` stand at `pos` and after it.
pub open spec fn pair_at(bs: Seq<u8>, pos: int, c: u8, d: u8) -> bool {
    pos + 1 < bs.len() && bs[pos] == c && bs[pos + 1] == d
}

/// Each operator and delimiter is read as its token: `+ - * / < > = ; : , ( ) { } [ ]`
/// alone, and the pairs `== != <= >= && || -> += -= *= /=`, which are read as
/// one token before any of their characters alone.
pub proof fn law_operator_tokens(bs: Seq<u8>, chars: Seq<char>, pos: int)
    requires
        0 <= pos < bs.len(),
    ensures
        alone_at(bs, pos, 43) ==> token_at(bs, chars, pos) == Some((TokenView::Plus, pos + 1)),
        alone_at(bs, pos, 45) ==> token_at(bs, chars, pos) == Some((TokenView::Minus, pos + 1)),
        alone_at(bs, pos, 42) ==> token_at(bs, chars, pos) == Some((TokenView::Asterix, pos + 1)),
        alone_at(bs, pos, 47) ==> token_at(bs, chars, pos) == Some((TokenView::ForwardSlash, pos + 1)),
        alone_at(bs, pos, 60) ==> token_at(bs, chars, pos) == Some((TokenView::LeftAngle, pos + 1)),
        alone_at(bs, pos, 62) ==> token_at(bs, chars, pos) == Some((TokenView::RightAngle, pos + 1)),
        alone_at(bs, pos, 61) ==> token_at(bs, chars, pos) == Some((TokenView::Eq, pos + 1)),
        alone_at(bs, pos, 59) ==> token_at(bs, chars, pos) == Some((TokenView::SemiColon, pos + 1)),
        alone_at(bs, pos, 58) ==> token_at(bs, chars, pos) == Some((TokenView::Colon, pos + 1)),
        alone_at(bs, pos, 44) ==> token_at(bs, chars, pos) == Some((TokenView::Comma, pos + 1)),
        alone_at(bs, pos, 40) ==> token_at(bs, chars, pos) == Some((TokenView::LeftParen, pos + 1)),
        alone_at(bs, pos, 41) ==> token_at(bs, chars, pos) == Some((TokenView::RightParen, pos + 1)),
        alone_at(bs, pos, 123) ==> token_at(bs, chars, pos) == Some((TokenView::LeftBrace, pos + 1)),
        alone_at(bs, pos, 125) ==> token_at(bs, chars, pos) == Some((TokenView::RightBrace, pos + 1)),
        alone_at(bs, pos, 91) ==> token_at(bs, chars, pos) == Some((TokenView::LeftSquare, pos + 1)),
        alone_at(bs, pos, 93) ==> token_at(bs, chars, pos) == Some((TokenView::RightSquare, pos + 1)),
        pair_at(bs, pos, 61, 61) ==> token_at(bs, chars, pos) == Some((TokenView::DoubleEq, pos + 2)),
        pair_at(bs, pos, 33, 61) ==> token_at(bs, chars, pos) == Some((TokenView::NotEq, pos + 2)),
        pair_at(bs, pos, 60, 61) ==> token_at(bs, chars, pos) == Some((TokenView::LeftAngleEq, pos + 2)),
        pair_at(bs, pos, 62, 61) ==> token_at(bs, chars, pos) == Some((TokenView::RightAngleEq, pos + 2)),
        pair_at(bs, pos, 38, 38) ==> token_at(bs, chars, pos) == Some((TokenView::And, pos + 2)),
        pair_at(bs, pos, 124, 124) ==> token_at(bs, chars, pos) == Some((TokenView::Or, pos + 2)),
        pair_at(bs, pos, 45, 62) ==> token_at(bs, chars, pos) == Some((TokenView::ThinArrow, pos + 2)),
        pair_at(bs, pos, 43, 61) ==> token_at(bs, chars, pos) == Some((TokenView::AddAssign, pos + 2)),
        pair_at(bs, pos, 45, 61) ==> token_at(bs, chars, pos) == Some((TokenView::MinusAssign, pos + 2)),
        pair_at(bs, pos, 42, 61) ==> token_at(bs, chars, pos) == Some((TokenView::MulAssign, pos + 2)),
        pair_at(bs, pos, 47, 61) ==> token_at(bs, chars, pos) == Some((TokenView::DivAssign, pos + 2)),
{
}

} // verus!
