//! Parsing types, function declarations and whole programs.
use vstd::prelude::*;

use crate::ast::untyped::{
    block_view, function_view, program_view, BlockView, Function, FunctionView, Program,
    ProgramView,
};
use crate::compiler::{distinct_strings, Compiler};
use crate::ident::{Span, Symbol};
use crate::parse::expression::{parse_block, parse_result, parsed, ready, stepped};
use crate::parse::grammar::{expected, intern, join, p_block, span_at, tok, Parsed, Symbols};
use crate::parse::token::{Token, TokenView};
use crate::parse::lexer::lex_source;
use crate::parse::{expected_token, Lexer, ParseError, ParseErrorView, TokensView};
use crate::ty::{Ty, TySpanned};

verus! {

/// A type name and its span; a sequence that has ended is an error here.
pub open spec fn p_ty(ts: TokensView, pos: int, syms: Symbols) -> Parsed<(Ty, Span)> {
    if pos < 0 || pos >= ts.len() {
        Some((Err(ParseErrorView::UnexpectedEOF), pos, syms))
    } else {
        match tok(ts, pos) {
            TokenView::Int => Some((Ok((Ty::Int, span_at(ts, pos))), pos + 1, syms)),
            TokenView::Uint => Some((Ok((Ty::Uint, span_at(ts, pos))), pos + 1, syms)),
            TokenView::Bool => Some((Ok((Ty::Boolean, span_at(ts, pos))), pos + 1, syms)),
            t => Some((Err(expected(TokenView::Int, t, "expected valid type"@)), pos + 1, syms)),
        }
    }
}

/// Parameters after `acc`, through the closing parenthesis: `name: type` items
/// separated by commas, a trailing comma allowed. `want_item` holds where an
/// item (or the end) is expected, rather than a comma (or the end).
pub open spec fn p_params(ts: TokensView, pos: int, syms: Symbols, acc: Seq<(Symbol, Ty)>, want_item: bool) -> Parsed<Seq<(Symbol, Ty)>>
    decreases ts.len() - pos,
{
    if pos < 0 || pos >= ts.len() {
        None
    } else if tok(ts, pos) == TokenView::RightParen {
        Some((Ok(acc), pos + 1, syms))
    } else if !want_item {
        if tok(ts, pos) == TokenView::Comma {
            p_params(ts, pos + 1, syms, acc, true)
        } else {
            Some((Err(expected(TokenView::Comma, tok(ts, pos), "function arguments must be separated by a comma"@)), pos + 1, syms))
        }
    } else {
        match tok(ts, pos) {
            TokenView::Ident(name) => {
                let (symbol, s1) = intern(syms, name);
                if pos + 1 >= ts.len() {
                    None
                } else if tok(ts, pos + 1) != TokenView::Colon {
                    Some((Err(expected(TokenView::Colon, tok(ts, pos + 1), "param name and type must be separated by a colon"@)), pos + 2, s1))
                } else {
                    match p_ty(ts, pos + 2, s1) {
                        Some((Ok((ty, _)), p3, s3)) => if pos < p3 <= ts.len() {
                            p_params(ts, p3, s3, acc.push((symbol, ty)), false)
                        } else {
                            None
                        },
                        Some((Err(e), p3, s3)) => Some((Err(e), p3, s3)),
                        None => None,
                    }
                }
            },
            t => Some((Err(expected(TokenView::Ident(Seq::empty()), t, "parameter must have identifier"@)), pos + 1, syms)),
        }
    }
}

/// A function declaration: `fn`, its name, its parameters in parentheses, `->`,
/// its return type and its body. Its name is interned after its body is read.
pub open spec fn p_function(ts: TokensView, pos: int, syms: Symbols) -> Parsed<FunctionView> {
    if pos < 0 || pos >= ts.len() {
        None
    } else if tok(ts, pos) != TokenView::Fn {
        Some((Err(expected(TokenView::Fn, tok(ts, pos), "function declaration must begin with keyword"@)), pos + 1, syms))
    } else if pos + 1 >= ts.len() {
        None
    } else {
        match tok(ts, pos + 1) {
            TokenView::Ident(name) => if pos + 2 >= ts.len() {
                None
            } else if tok(ts, pos + 2) != TokenView::LeftParen {
                Some((Err(expected(TokenView::LeftParen, tok(ts, pos + 2), "argument list must begin with opening parenthesis"@)), pos + 3, syms))
            } else {
                match p_params(ts, pos + 3, syms, Seq::empty(), true) {
                    Some((Ok(parameters), p4, s4)) => if 0 <= p4 < ts.len() {
                        if tok(ts, p4) != TokenView::ThinArrow {
                            Some((Err(expected(TokenView::ThinArrow, tok(ts, p4), "thin arrow must preceed return type"@)), p4 + 1, s4))
                        } else {
                            match p_ty(ts, p4 + 1, s4) {
                                Some((Ok((return_ty, _)), p5, s5)) => match p_block(ts, p5, s5) {
                                    Some((Ok(body), p6, s6)) => {
                                        let (symbol, s7) = intern(s6, name);
                                        Some((
                                            Ok(FunctionView { name: symbol, parameters, return_ty, body, span: join(span_at(ts, pos), body.span) }),
                                            p6,
                                            s7,
                                        ))
                                    },
                                    Some((Err(e), p6, s6)) => Some((Err(e), p6, s6)),
                                    None => None,
                                },
                                Some((Err(e), p5, s5)) => Some((Err(e), p5, s5)),
                                None => None,
                            }
                        }
                    } else {
                        None
                    },
                    Some((Err(e), p4, s4)) => Some((Err(e), p4, s4)),
                    None => None,
                }
            },
            t => Some((Err(expected(TokenView::Ident(Seq::empty()), t, "function declaration requires identifier"@)), pos + 2, syms)),
        }
    }
}

/// The index of the function named `name`, or -1.
pub open spec fn function_index(fs: Seq<FunctionView>, name: Symbol) -> int
    decreases fs.len(),
{
    if fs.len() == 0 {
        -1
    } else if fs.last().name == name {
        fs.len() - 1
    } else {
        function_index(fs.drop_last(), name)
    }
}

proof fn lemma_function_index(fs: Seq<FunctionView>, name: Symbol)
    ensures
        -1 <= function_index(fs, name) < fs.len(),
        function_index(fs, name) >= 0 ==> fs[function_index(fs, name)].name == name,
    decreases fs.len(),
{
    if fs.len() > 0 {
        lemma_function_index(fs.drop_last(), name);
    }
}

/// The functions after declaring `f`: it replaces an earlier function of the
/// same name, or comes after the others.
pub open spec fn declare(fs: Seq<FunctionView>, f: FunctionView) -> Seq<FunctionView> {
    if function_index(fs, f.name) >= 0 {
        fs.update(function_index(fs, f.name), f)
    } else {
        fs.push(f)
    }
}

/// The function declarations from a position to the end, declared after those in `acc`.
pub open spec fn p_functions(ts: TokensView, pos: int, syms: Symbols, acc: Seq<FunctionView>) -> Parsed<Seq<FunctionView>>
    decreases ts.len() - pos,
{
    if pos < 0 || pos > ts.len() {
        None
    } else if pos == ts.len() {
        Some((Ok(acc), pos, syms))
    } else if tok(ts, pos) != TokenView::Fn {
        Some((Err(expected(TokenView::Fn, tok(ts, pos), "only functions can be declared at top level"@)), pos, syms))
    } else {
        match p_function(ts, pos, syms) {
            Some((Ok(f), p2, s2)) => if pos < p2 <= ts.len() {
                p_functions(ts, p2, s2, declare(acc, f))
            } else {
                None
            },
            Some((Err(e), p2, s2)) => Some((Err(e), p2, s2)),
            None => None,
        }
    }
}

/// A program: `main` is interned first, then every declaration is read; the
/// function named `main` becomes the entry point and the others keep their order.
pub open spec fn p_program(ts: TokensView, syms: Symbols) -> Parsed<ProgramView> {
    let (main, s0) = intern(syms, "main"@);
    match p_functions(ts, 0, s0, Seq::empty()) {
        Some((Ok(fs), p, s)) => {
            let i = function_index(fs, main);
            if i >= 0 {
                Some((Ok(ProgramView { functions: fs.remove(i), main: fs[i], span: Span { start: 0, end: 0 } }), p, s))
            } else {
                Some((Err(ParseErrorView::MissingMain), p, s))
            }
        },
        Some((Err(e), p, s)) => Some((Err(e), p, s)),
        None => None,
    }
}

/// Parse a type name.
pub fn parse_ty(lexer: &mut Lexer) -> (r: Result<TySpanned, ParseError>)
    requires
        old(lexer).wf(),
    ensures
        final(lexer).wf(),
        final(lexer).tokens() == old(lexer).tokens(),
        final(lexer).ran_out() == old(lexer).ran_out(),
        old(lexer).position() <= final(lexer).position() <= final(lexer).tokens().len(),
        r is Ok ==> old(lexer).position() < final(lexer).position(),
        forall|syms: Symbols| p_ty(old(lexer).tokens(), old(lexer).position(), syms)
            == Some((parse_result(r, (|t: TySpanned| (t.ty, t.span))), final(lexer).position(), syms)),
{
    let (token, span) = match lexer.next_spanned() {
        Some(t) => t,
        None => {
            return Err(ParseError::UnexpectedEOF);
        },
    };
    match token {
        Token::Int => Ok(TySpanned { ty: Ty::Int, span }),
        Token::Uint => Ok(TySpanned { ty: Ty::Uint, span }),
        Token::Bool => Ok(TySpanned { ty: Ty::Boolean, span }),
        token => Err(expected_token(Token::Int, token, "expected valid type")),
    }
}

/// Parse a function declaration.
#[verifier::loop_isolation(false)]
pub fn parse_function(compiler: &mut Compiler, lexer: &mut Lexer) -> (r: Result<Function, ParseError>)
    requires
        ready(*old(lexer), *old(compiler)),
    ensures
        parsed(*old(lexer), *final(lexer), *old(compiler), *final(compiler), r, (|f: Function| function_view(f)),
            p_function(old(lexer).tokens(), old(lexer).position(), old(compiler).symbols@)),
        !final(lexer).ran_out() ==> old(lexer).position() < final(lexer).position(),
{
    let start = match lexer.next_spanned() {
        Some((Token::Fn, span)) => span.start,
        Some((token, _)) => {
            return Err(expected_token(Token::Fn, token, "function declaration must begin with keyword"));
        },
        None => {
            lexer.run_out();
            return Err(ParseError::UnexpectedEOF);
        },
    };
    let name = match lexer.next_token() {
        Some(Token::Ident(name)) => name,
        Some(token) => {
            return Err(expected_token(Token::Ident(String::new()), token, "function declaration requires identifier"));
        },
        None => {
            lexer.run_out();
            return Err(ParseError::UnexpectedEOF);
        },
    };
    match lexer.next_token() {
        Some(Token::LeftParen) => {},
        Some(token) => {
            return Err(expected_token(Token::LeftParen, token, "argument list must begin with opening parenthesis"));
        },
        None => {
            lexer.run_out();
            return Err(ParseError::UnexpectedEOF);
        },
    }
    let ghost ts = lexer.tokens();
    let ghost p3 = lexer.position();
    let ghost s3 = compiler.symbols@;
    let mut parameters: Vec<(Symbol, Ty)> = Vec::new();
    let mut want_item = true;
    let mut done = false;
    while !done
        invariant
            ready(*lexer, *compiler),
            lexer.tokens() == ts,
            compiler.functions == old(compiler).functions,
            p3 <= lexer.position() <= ts.len(),
            p_params(ts, p3, s3, Seq::empty(), true) == (if done {
                Some((Ok(parameters@), lexer.position(), compiler.symbols@))
            } else {
                p_params(ts, lexer.position(), compiler.symbols@, parameters@, want_item)
            }),
        decreases ts.len() - lexer.position() + (if done { 0int } else { 1int }),
    {
        let token = match lexer.next_token() {
            Some(t) => t,
            None => {
                lexer.run_out();
                return Err(ParseError::UnexpectedEOF);
            },
        };
        match token {
            Token::RightParen => {
                done = true;
            },
            Token::Comma if !want_item => {
                want_item = true;
            },
            token if !want_item => {
                return Err(expected_token(Token::Comma, token, "function arguments must be separated by a comma"));
            },
            Token::Ident(ident) => {
                let symbol = compiler.symbols.get_or_intern(ident.as_str());
                match lexer.next_token() {
                    Some(Token::Colon) => {},
                    Some(token) => {
                        return Err(expected_token(Token::Colon, token, "param name and type must be separated by a colon"));
                    },
                    None => {
                        lexer.run_out();
                        return Err(ParseError::UnexpectedEOF);
                    },
                }
                let ty = match parse_ty(lexer) {
                    Ok(t) => t.ty,
                    Err(e) => {
                        return Err(e);
                    },
                };
                parameters.push((symbol, ty));
                want_item = false;
            },
            token => {
                return Err(expected_token(Token::Ident(String::new()), token, "parameter must have identifier"));
            },
        }
    }
    match lexer.next_token() {
        Some(Token::ThinArrow) => {},
        Some(token) => {
            return Err(expected_token(Token::ThinArrow, token, "thin arrow must preceed return type"));
        },
        None => {
            lexer.run_out();
            return Err(ParseError::UnexpectedEOF);
        },
    }
    let return_ty = match parse_ty(lexer) {
        Ok(t) => t.ty,
        Err(e) => {
            return Err(e);
        },
    };
    let body = match parse_block(compiler, lexer) {
        Ok(b) => b,
        Err(e) => {
            return Err(e);
        },
    };
    let end = body.span.end;
    let symbol = compiler.symbols.get_or_intern(name.as_str());
    Ok(Function { name: symbol, parameters, return_ty, body, span: Span { start, end } })
}

/// Parse the tokens of a whole program, from the first.
#[verifier::rlimit(50)]
#[verifier::spinoff_prover]
#[verifier::loop_isolation(false)]
pub fn parse_program(compiler: &mut Compiler, lexer: &mut Lexer) -> (r: Result<Program, ParseError>)
    requires
        ready(*old(lexer), *old(compiler)),
        old(lexer).position() == 0,
    ensures
        parsed(*old(lexer), *final(lexer), *old(compiler), *final(compiler), r, (|p: Program| program_view(p)),
            p_program(old(lexer).tokens(), old(compiler).symbols@)),
{
    let ghost ts = lexer.tokens();
    let main = compiler.symbols.get_or_intern("main");
    let ghost s0 = compiler.symbols@;
    let mut functions: Vec<Function> = Vec::new();
    assert(functions@.map_values(|f: Function| function_view(f)) =~= Seq::<FunctionView>::empty());
    let mut go = lexer.peek_token().is_some();
    while go
        invariant
            ready(*lexer, *compiler),
            lexer.tokens() == ts,
            ts == old(lexer).tokens(),
            compiler.functions == old(compiler).functions,
            0 <= lexer.position() <= ts.len(),
            go == (lexer.position() < ts.len()),
            p_functions(ts, 0, s0, Seq::empty())
                == p_functions(ts, lexer.position(), compiler.symbols@, functions@.map_values(|f: Function| function_view(f))),
        decreases ts.len() - lexer.position(),
    {
        let is_fn = matches!(lexer.peek_token(), Some(Token::Fn));
        if !is_fn {
            let found = match lexer.peek_token() {
                Some(t) => t.duplicate(),
                None => {
                    lexer.run_out();
                    return Err(ParseError::UnexpectedEOF);
                },
            };
            return Err(expected_token(Token::Fn, found, "only functions can be declared at top level"));
        }
        let function = match parse_function(compiler, lexer) {
            Ok(f) => f,
            Err(e) => {
                return Err(e);
            },
        };
        declare_function(&mut functions, function);
        go = lexer.peek_token().is_some();
    }
    let ghost fs = functions@.map_values(|f: Function| function_view(f));
    match find_function(&functions, main) {
        Some(i) => {
            let main_function = functions.remove(i);
            assert(functions@.map_values(|f: Function| function_view(f)) =~= fs.remove(i as int));
            Ok(Program { functions, main: main_function, span: Span { start: 0, end: 0 } })
        },
        None => Err(ParseError::MissingMain),
    }
}

/// Parse a program from source text, or give `None` where the text does not
/// split into tokens or the tokens end inside a construct that needs more.
pub fn try_parse(compiler: &mut Compiler, source: &str) -> (r: Option<Result<Program, ParseError>>)
    requires
        distinct_strings(old(compiler).symbols@),
    ensures
        distinct_strings(final(compiler).symbols@),
        final(compiler).functions == old(compiler).functions,
        match lex_source(source) {
            None => r is None,
            Some(ts) => match p_program(ts, old(compiler).symbols@) {
                None => r is None,
                Some((result, _, symbols)) => r matches Some(p)
                    && result == parse_result(p, (|p: Program| program_view(p)))
                    && symbols == final(compiler).symbols@,
            },
        },
{
    let mut lexer = match Lexer::from_source(source) {
        Some(l) => l,
        None => {
            return None;
        },
    };
    let r = parse_program(compiler, &mut lexer);
    if lexer.has_run_out() {
        None
    } else {
        Some(r)
    }
}

/// Parse a program from source text.
pub fn parse(compiler: &mut Compiler, source: &str) -> (r: Result<Program, ParseError>)
    requires
        distinct_strings(old(compiler).symbols@),
        lex_source(source) matches Some(ts) && p_program(ts, old(compiler).symbols@) is Some,
    ensures
        distinct_strings(final(compiler).symbols@),
        final(compiler).functions == old(compiler).functions,
        lex_source(source) matches Some(ts) && p_program(ts, old(compiler).symbols@) matches Some((result, _, symbols))
            && result == parse_result(r, (|p: Program| program_view(p))) && symbols == final(compiler).symbols@,
{
    match try_parse(compiler, source) {
        Some(r) => r,
        None => {
            proof {
                assert(false);
            }
            Err(ParseError::UnexpectedEOF)
        },
    }
}

/// Declare a function: it replaces an earlier one of the same name, or is added
/// after the others.
fn declare_function(functions: &mut Vec<Function>, function: Function)
    ensures
        final(functions)@.map_values(|f: Function| function_view(f))
            == declare(old(functions)@.map_values(|f: Function| function_view(f)), function_view(function)),
{
    let ghost fs = functions@.map_values(|f: Function| function_view(f));
    let ghost fv = function_view(function);
    proof {
        lemma_function_index(fs, fv.name);
    }
    match find_function(functions, function.name) {
        Some(i) => {
            functions.set(i, function);
            assert(functions@.map_values(|f: Function| function_view(f)) =~= declare(fs, fv));
        },
        None => {
            functions.push(function);
            assert(functions@.map_values(|f: Function| function_view(f)) =~= declare(fs, fv));
        },
    }
}

/// The index of the last function named `name`, if any.
fn find_function(functions: &Vec<Function>, name: Symbol) -> (r: Option<usize>)
    ensures
        match r {
            Some(i) => i as int == function_index(functions@.map_values(|f: Function| function_view(f)), name)
                && i < functions.len(),
            None => function_index(functions@.map_values(|f: Function| function_view(f)), name) < 0,
        },
{
    let ghost fs = functions@.map_values(|f: Function| function_view(f));
    let mut k = functions.len();
    assert(fs.take(k as int) =~= fs);
    while k > 0
        invariant
            k <= functions.len(),
            fs == functions@.map_values(|f: Function| function_view(f)),
            function_index(fs, name) == function_index(fs.take(k as int), name),
        decreases k,
    {
        assert(fs.take(k as int).drop_last() =~= fs.take(k - 1));
        assert(fs[k - 1].name == functions@[k - 1].name);
        if functions[k - 1].name == name {
            return Some(k - 1);
        }
        k = k - 1;
    }
    assert(fs.take(0) =~= Seq::<FunctionView>::empty());
    None
}

} // verus!
