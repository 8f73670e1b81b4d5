//! A tree-walking interpreter for the first version of the language.
//!
//! Function calls may recurse without bound, so every evaluation is given a
//! budget of nested calls (`fuel`); a call made with no budget left is an error.
//! The entry points for whole programs use the largest budget.
use vstd::prelude::*;

use std::rc::Rc;

use crate::stages::ast::{
    BlockStatement, BooleanLiteral, CallExpression, CallableFunction, Expression, FunctionLiteral,
    Identifier, IfExpression, InfixExpression, InfixOperatorToken, IntegerLiteral, LetStatement,
    PrefixExpression, PrefixToken, Program, ReturnStatement, Statement, StringLiteral,
};
use crate::stages::object::{
    concat_str, env_get, env_nest, env_set, BooleanObject, EnvView, Environment, Error,
    FunctionObject, IntegerObject, Object, Outcome, Return, StringObject, Value,
};

verus! {

/// The budget of nested function calls used when interpreting a whole program.
pub const CALL_BUDGET: u64 = 0xffff_ffff_ffff_ffff;

/// The message of the error raised for an unknown identifier.
pub open spec fn unknown_identifier(name: Seq<char>) -> Seq<char> {
    "identifier not found: \""@ + name + "\""@
}

/// What an identifier evaluates to.
pub open spec fn lookup(env: EnvView, name: Seq<char>) -> Outcome {
    match env_get(env, name) {
        Some(v) => Outcome::Implicit(v),
        None => Outcome::Error(unknown_identifier(name)),
    }
}

/// The outcome of a prefix operation, or `None` where it overflows.
pub open spec fn apply_prefix(token: PrefixToken, v: Value) -> Option<Outcome> {
    match (token, v) {
        (PrefixToken::Plus, Value::Integer(i)) => Some(Outcome::Implicit(Value::Integer(i))),
        (PrefixToken::Minus, Value::Integer(i)) => if i == i64::MIN {
            None
        } else {
            Some(Outcome::Implicit(Value::Integer((-i) as i64)))
        },
        (PrefixToken::Bang, Value::Boolean(b)) => Some(Outcome::Implicit(Value::Boolean(!b))),
        (PrefixToken::Bang, Value::Null) => Some(Outcome::Implicit(Value::Boolean(true))),
        _ => Some(Outcome::Error("prefix operation not supported"@)),
    }
}

/// An integer result, or `None` where the operation overflows or divides by zero.
pub open spec fn integer_result(r: Option<i64>) -> Option<Outcome> {
    match r {
        Some(v) => Some(Outcome::Implicit(Value::Integer(v))),
        None => None,
    }
}

/// The outcome of an infix operation, or `None` where it overflows or divides by zero.
pub open spec fn apply_infix(token: InfixOperatorToken, l: Value, r: Value) -> Option<Outcome> {
    match (l, r) {
        (Value::Integer(a), Value::Integer(b)) => match token {
            InfixOperatorToken::Plus => integer_result(a.checked_add(b)),
            InfixOperatorToken::Minus => integer_result(a.checked_sub(b)),
            InfixOperatorToken::Asterisk => integer_result(a.checked_mul(b)),
            InfixOperatorToken::Slash => integer_result(a.checked_div(b)),
            InfixOperatorToken::LeftAngle => Some(Outcome::Implicit(Value::Boolean(a < b))),
            InfixOperatorToken::RightAngle => Some(Outcome::Implicit(Value::Boolean(a > b))),
            InfixOperatorToken::Eq => Some(Outcome::Implicit(Value::Boolean(a == b))),
            InfixOperatorToken::NotEq => Some(Outcome::Implicit(Value::Boolean(a != b))),
        },
        (Value::Boolean(a), Value::Boolean(b)) => match token {
            InfixOperatorToken::LeftAngle => Some(Outcome::Implicit(Value::Boolean(!a && b))),
            InfixOperatorToken::RightAngle => Some(Outcome::Implicit(Value::Boolean(a && !b))),
            InfixOperatorToken::Eq => Some(Outcome::Implicit(Value::Boolean(a == b))),
            InfixOperatorToken::NotEq => Some(Outcome::Implicit(Value::Boolean(a != b))),
            _ => Some(Outcome::Implicit(Value::Null)),
        },
        (Value::Str(a), Value::Str(b)) if token == InfixOperatorToken::Plus => Some(Outcome::Implicit(Value::Str(a + b))),
        _ => match token {
            InfixOperatorToken::Eq => Some(Outcome::Implicit(Value::Boolean(false))),
            InfixOperatorToken::NotEq => Some(Outcome::Implicit(Value::Boolean(true))),
            _ => Some(Outcome::Error("insupported infix operation"@)),
        },
    }
}

/// The value of a function call, from the outcome of its body.
pub open spec fn call_result(o: Outcome) -> Outcome {
    match o {
        Outcome::Implicit(v) => Outcome::Implicit(v),
        Outcome::Explicit(v) => Outcome::Implicit(v),
        Outcome::Error(m) => Outcome::Error(m),
    }
}

/// Evaluating an expression: its outcome and the environment after it, or
/// `None` where evaluation overflows or divides by zero.
pub open spec fn eval_expr(env: EnvView, e: Expression, fuel: u64) -> Option<(Outcome, EnvView)>
    decreases fuel, e,
{
    match e {
        Expression::Identifier(id) => Some((lookup(env, id.value@), env)),
        Expression::Integer(l) => Some((Outcome::Implicit(Value::Integer(l.value)), env)),
        Expression::String(l) => Some((Outcome::Implicit(Value::Str(l.value@)), env)),
        Expression::Boolean(l) => Some((Outcome::Implicit(Value::Boolean(l.value)), env)),
        Expression::Prefix(p) => match eval_expr(env, *p.right, fuel) {
            None => None,
            Some((o, env1)) => match o {
                Outcome::Implicit(v) => match apply_prefix(p.prefix_token, v) {
                    None => None,
                    Some(r) => Some((r, env1)),
                },
                _ => Some((o, env1)),
            },
        },
        Expression::Infix(x) => match eval_expr(env, *x.left, fuel) {
            None => None,
            Some((o1, env1)) => match o1 {
                Outcome::Implicit(l) => match eval_expr(env1, *x.right, fuel) {
                    None => None,
                    Some((o2, env2)) => match o2 {
                        Outcome::Implicit(r) => match apply_infix(x.operator_token, l, r) {
                            None => None,
                            Some(out) => Some((out, env2)),
                        },
                        _ => Some((o2, env2)),
                    },
                },
                _ => Some((o1, env1)),
            },
        },
        Expression::Block(b) => eval_stmts(env, b.statements@, Value::Null, fuel),
        Expression::If(x) => match eval_expr(env, x.condition, fuel) {
            None => None,
            Some((o, env1)) => match o {
                Outcome::Implicit(Value::Boolean(true)) => eval_stmts(env1, x.consequence.statements@, Value::Null, fuel),
                Outcome::Implicit(Value::Boolean(false)) => match x.else_branch {
                    Some(alternative) => eval_stmts(env1, alternative.statement.statements@, Value::Null, fuel),
                    None => Some((Outcome::Implicit(Value::Null), env1)),
                },
                Outcome::Implicit(_) => Some((Outcome::Implicit(Value::Null), env1)),
                _ => Some((o, env1)),
            },
        },
        Expression::Function(lit) => Some((Outcome::Implicit(Value::Function(lit)), env)),
        Expression::Call(c) => eval_call(env, c, fuel),
    }
}

/// Evaluating a call: the callee, then its arguments bound to its parameters in
/// a nested environment, then its body with one call less of budget.
pub open spec fn eval_call(env: EnvView, c: CallExpression, fuel: u64) -> Option<(Outcome, EnvView)>
    decreases fuel, c,
{
    let callee = match c.function {
        CallableFunction::Identifier(id) => lookup(env, id.value@),
        CallableFunction::FunctionLiteral(lit) => Outcome::Implicit(Value::Function(lit)),
    };
    match callee {
        Outcome::Implicit(Value::Function(lit)) => match eval_args(env, env_nest(env), c.arguments@, lit.parameters@, fuel) {
            None => None,
            Some((Err(m), env1)) => Some((Outcome::Error(m), env1)),
            Some((Ok(fenv), env1)) => if fuel == 0 {
                Some((Outcome::Error("call depth exhausted"@), env1))
            } else {
                match eval_stmts(fenv, lit.body.statements@, Value::Null, (fuel - 1) as u64) {
                    None => None,
                    Some((o, _)) => Some((call_result(o), env1)),
                }
            },
        },
        Outcome::Implicit(_) => Some((Outcome::Error("value is not of type function"@), env)),
        _ => Some((callee, env)),
    }
}

/// Evaluating arguments in the caller's environment and binding them to the
/// parameters in the callee's. As many arguments are evaluated as there are
/// parameters, and one more when there are more arguments than parameters.
pub open spec fn eval_args(
    env: EnvView,
    fenv: EnvView,
    args: Seq<Expression>,
    params: Seq<Identifier>,
    fuel: u64,
) -> Option<(Result<EnvView, Seq<char>>, EnvView)>
    decreases fuel, args,
{
    if args.len() == 0 {
        Some((Ok(fenv), env))
    } else {
        match eval_expr(env, args[0], fuel) {
            None => None,
            Some((o, env1)) => if params.len() == 0 {
                Some((Ok(fenv), env1))
            } else {
                match o {
                    Outcome::Implicit(v) => eval_args(env1, env_set(fenv, params[0].value@, v), args.drop_first(), params.drop_first(), fuel),
                    Outcome::Explicit(v) => eval_args(env1, env_set(fenv, params[0].value@, v), args.drop_first(), params.drop_first(), fuel),
                    Outcome::Error(m) => Some((Err(m), env1)),
                }
            },
        }
    }
}

/// Evaluating statements in order: the value of the last one (`last` when there
/// are none left), unless one returns explicitly or fails.
pub open spec fn eval_stmts(env: EnvView, ss: Seq<Statement>, last: Value, fuel: u64) -> Option<(Outcome, EnvView)>
    decreases fuel, ss,
{
    if ss.len() == 0 {
        Some((Outcome::Implicit(last), env))
    } else {
        match eval_stmt(env, ss[0], fuel) {
            None => None,
            Some((o, env1)) => match o {
                Outcome::Implicit(v) => eval_stmts(env1, ss.drop_first(), v, fuel),
                _ => Some((o, env1)),
            },
        }
    }
}

/// Evaluating a statement.
pub open spec fn eval_stmt(env: EnvView, s: Statement, fuel: u64) -> Option<(Outcome, EnvView)>
    decreases fuel, s,
{
    match s {
        Statement::Let(l) => match eval_expr(env, l.value, fuel) {
            None => None,
            Some((o, env1)) => match o {
                Outcome::Implicit(v) => Some((Outcome::Implicit(Value::Null), env_set(env1, l.name.value@, v))),
                _ => Some((o, env1)),
            },
        },
        Statement::Return(r) => match eval_expr(env, r.value, fuel) {
            None => None,
            Some((o, env1)) => match o {
                Outcome::Implicit(v) => Some((Outcome::Explicit(v), env1)),
                Outcome::Explicit(v) => Some((Outcome::Explicit(v), env1)),
                Outcome::Error(m) => Some((Outcome::Error(m), env1)),
            },
        },
        Statement::Expression { expression, semicolon: _ } => eval_expr(env, expression, fuel),
    }
}

} // verus!

verus! {

/// The contract of evaluating a node: where the specification gives an
/// outcome, it is the result and the environment after it, and nothing
/// faulted; where evaluation meets an operation that overflows or divides by
/// zero, the environment records the fault and an error is returned.
pub open spec fn evaluated(env1: Environment, r: Return<Object>, g: Option<(Outcome, EnvView)>) -> bool {
    match g {
        Some(o) => !env1.faulted() && o == (r@, env1@),
        None => env1.faulted() && r is Error,
    }
}

/// Evaluate a boolean literal.
pub fn interpret_boolean(literal: &BooleanLiteral) -> (r: Object)
    ensures
        r@ == Value::Boolean(literal.value),
{
    Object::Boolean(BooleanObject { value: literal.value })
}

/// Evaluate an integer literal.
pub fn interpret_integer(literal: &IntegerLiteral) -> (r: Object)
    ensures
        r@ == Value::Integer(literal.value),
{
    Object::Integer(IntegerObject { value: literal.value })
}

/// Evaluate a string literal.
pub fn interpret_string(literal: &StringLiteral) -> (r: Object)
    ensures
        r@ == Value::Str(literal.value@),
{
    Object::String(StringObject { value: literal.value.clone() })
}

/// Evaluate a function literal into a function value.
pub fn interpret_function(_env: &Environment, literal: &Rc<FunctionLiteral>) -> (r: Object)
    ensures
        r@ == Value::Function(*literal),
{
    Object::Function(FunctionObject { literal: literal.clone() })
}

/// Evaluate an identifier: the value bound to it, or an error.
pub fn interpret_identifier(env: &Environment, identifier: &Identifier) -> (r: Return<Object>)
    ensures
        r@ == lookup(env@, identifier.value@),
{
    match env.get(identifier.value.as_str()) {
        Some(value) => Return::Implicit(value),
        None => {
            let message = concat_str("identifier not found: \"", identifier.value.as_str());
            let message = concat_str(message.as_str(), "\"");
            Error::throw(message)
        },
    }
}

/// Evaluate an expression.
pub fn interpret_expression(env: &mut Environment, expression: &Expression, fuel: u64) -> (r: Return<Object>)
    requires
        !old(env).faulted(),
    ensures
        evaluated(*final(env), r, eval_expr(old(env)@, *expression, fuel)),
    decreases fuel, expression,
{
    match expression {
        Expression::Identifier(identifier) => interpret_identifier(env, identifier),
        Expression::Integer(integer) => Return::Implicit(interpret_integer(integer)),
        Expression::Boolean(boolean) => Return::Implicit(interpret_boolean(boolean)),
        Expression::String(string) => Return::Implicit(interpret_string(string)),
        Expression::Prefix(prefix) => interpret_prefix(env, prefix, fuel),
        Expression::Infix(infix) => interpret_infix(env, infix, fuel),
        Expression::Block(block) => interpret_block(env, block, fuel),
        Expression::If(if_expression) => interpret_if_expression(env, if_expression, fuel),
        Expression::Function(function) => Return::Implicit(interpret_function(env, function)),
        Expression::Call(call) => interpret_call(env, call, fuel),
    }
}

/// Evaluate a prefix expression.
pub fn interpret_prefix(env: &mut Environment, prefix: &PrefixExpression, fuel: u64) -> (r: Return<Object>)
    requires
        !old(env).faulted(),
    ensures
        evaluated(*final(env), r, eval_expr(old(env)@, Expression::Prefix(*prefix), fuel)),
    decreases fuel, prefix,
{
    let right = match interpret_expression(env, &prefix.right, fuel) {
        Return::Implicit(value) => value,
        other => {
            return other;
        },
    };
    match (&prefix.prefix_token, right) {
        (PrefixToken::Plus, Object::Integer(integer)) => Return::Implicit(Object::integer(integer.value)),
        (PrefixToken::Minus, Object::Integer(integer)) => if integer.value == i64::MIN {
            env.fault();
            Error::throw("integer overflow".to_owned())
        } else {
            Return::Implicit(Object::integer(-integer.value))
        },
        (PrefixToken::Bang, Object::Boolean(b)) => Return::Implicit(Object::boolean(!b.value)),
        (PrefixToken::Bang, Object::Null(_)) => Return::Implicit(Object::boolean(true)),
        _ => Error::throw("prefix operation not supported".to_owned()),
    }
}

/// Evaluate an infix expression.
pub fn interpret_infix(env: &mut Environment, infix: &InfixExpression, fuel: u64) -> (r: Return<Object>)
    requires
        !old(env).faulted(),
    ensures
        evaluated(*final(env), r, eval_expr(old(env)@, Expression::Infix(*infix), fuel)),
    decreases fuel, infix,
{
    let left = match interpret_expression(env, &infix.left, fuel) {
        Return::Implicit(value) => value,
        other => {
            return other;
        },
    };
    let right = match interpret_expression(env, &infix.right, fuel) {
        Return::Implicit(value) => value,
        other => {
            return other;
        },
    };
    let token = infix.operator_token;
    let mut overflow = false;
    let result = match (left, right) {
        (Object::Integer(left), Object::Integer(right)) => {
            let a = left.value;
            let b = right.value;
            let value = match token {
                InfixOperatorToken::Plus => a.checked_add(b),
                InfixOperatorToken::Minus => a.checked_sub(b),
                InfixOperatorToken::Asterisk => a.checked_mul(b),
                InfixOperatorToken::Slash => a.checked_div(b),
                InfixOperatorToken::LeftAngle => {
                    return Return::Implicit(Object::boolean(a < b));
                },
                InfixOperatorToken::RightAngle => {
                    return Return::Implicit(Object::boolean(a > b));
                },
                InfixOperatorToken::Eq => {
                    return Return::Implicit(Object::boolean(a == b));
                },
                InfixOperatorToken::NotEq => {
                    return Return::Implicit(Object::boolean(a != b));
                },
            };
            match value {
                Some(v) => Return::Implicit(Object::integer(v)),
                None => {
                    overflow = true;
                    Error::throw("integer overflow or division by zero".to_owned())
                },
            }
        },
        (Object::Boolean(left), Object::Boolean(right)) => {
            let a = left.value;
            let b = right.value;
            Return::Implicit(match token {
                InfixOperatorToken::LeftAngle => Object::boolean(!a && b),
                InfixOperatorToken::RightAngle => Object::boolean(a && !b),
                InfixOperatorToken::Eq => Object::boolean(a == b),
                InfixOperatorToken::NotEq => Object::boolean(a != b),
                _ => Object::null(),
            })
        },
        (Object::String(left), Object::String(right)) if token == InfixOperatorToken::Plus => {
            Return::Implicit(Object::String(StringObject { value: concat_str(left.value.as_str(), right.value.as_str()) }))
        },
        _ => match token {
            InfixOperatorToken::Eq => Return::Implicit(Object::boolean(false)),
            InfixOperatorToken::NotEq => Return::Implicit(Object::boolean(true)),
            _ => Error::throw("insupported infix operation".to_owned()),
        },
    };
    if overflow {
        env.fault();
    }
    result
}

/// Evaluate an `if` expression: the consequence when the condition is `true`,
/// the alternative when it is `false` and there is one, and null otherwise.
pub fn interpret_if_expression(env: &mut Environment, if_expression: &IfExpression, fuel: u64) -> (r: Return<Object>)
    requires
        !old(env).faulted(),
    ensures
        evaluated(*final(env), r, eval_expr(old(env)@, Expression::If(Box::new(*if_expression)), fuel)),
    decreases fuel, if_expression,
{
    let condition = match interpret_expression(env, &if_expression.condition, fuel) {
        Return::Implicit(value) => value,
        other => {
            return other;
        },
    };
    match (condition, &if_expression.else_branch) {
        (Object::Boolean(BooleanObject { value: true }), _) => interpret_block(env, &if_expression.consequence, fuel),
        (Object::Boolean(BooleanObject { value: false }), Some(alternative)) => interpret_block(env, &alternative.statement, fuel),
        _ => Return::Implicit(Object::null()),
    }
}

/// Evaluate a block: its statements in order.
pub fn interpret_block(env: &mut Environment, block: &BlockStatement, fuel: u64) -> (r: Return<Object>)
    requires
        !old(env).faulted(),
    ensures
        evaluated(*final(env), r, eval_stmts(old(env)@, block.statements@, Value::Null, fuel)),
    decreases fuel, block,
{
    let mut result = Object::null();
    let mut i: usize = 0;
    let ghost all = block.statements@;
    assert(all.skip(0) =~= all);
    while i < block.statements.len()
        invariant
            i <= block.statements.len(),
            all == block.statements@,
            !env.faulted(),
            eval_stmts(old(env)@, all, Value::Null, fuel) == eval_stmts(env@, all.skip(i as int), result@, fuel),
        decreases block.statements.len() - i,
    {
        assert(all.skip(i as int)[0] == all[i as int]);
        assert(all.skip(i as int).drop_first() =~= all.skip(i + 1));
        match interpret_statement(env, &block.statements[i], fuel) {
            Return::Implicit(value) => {
                result = value;
            },
            other => {
                return other;
            },
        }
        i = i + 1;
    }
    Return::Implicit(result)
}

/// Evaluate a statement.
pub fn interpret_statement(env: &mut Environment, statement: &Statement, fuel: u64) -> (r: Return<Object>)
    requires
        !old(env).faulted(),
    ensures
        evaluated(*final(env), r, eval_stmt(old(env)@, *statement, fuel)),
    decreases fuel, statement,
{
    match statement {
        Statement::Let(let_statement) => interpret_let_statement(env, let_statement, fuel),
        Statement::Return(return_statement) => interpret_return_statement(env, return_statement, fuel),
        Statement::Expression { expression, .. } => interpret_expression(env, expression, fuel),
    }
}

/// Evaluate a `let` statement: bind the name to the value in the innermost frame.
pub fn interpret_let_statement(env: &mut Environment, let_statement: &LetStatement, fuel: u64) -> (r: Return<Object>)
    requires
        !old(env).faulted(),
    ensures
        evaluated(*final(env), r, eval_stmt(old(env)@, Statement::Let(*let_statement), fuel)),
    decreases fuel, let_statement,
{
    let result = match interpret_expression(env, &let_statement.value, fuel) {
        Return::Implicit(value) => value,
        other => {
            return other;
        },
    };
    env.set(let_statement.name.value.as_str(), result);
    Return::Implicit(Object::null())
}

/// Evaluate a `return` statement: its value, returned explicitly.
pub fn interpret_return_statement(env: &mut Environment, return_statement: &ReturnStatement, fuel: u64) -> (r: Return<Object>)
    requires
        !old(env).faulted(),
    ensures
        evaluated(*final(env), r, eval_stmt(old(env)@, Statement::Return(*return_statement), fuel)),
    decreases fuel, return_statement,
{
    match interpret_expression(env, &return_statement.value, fuel) {
        Return::Explicit(value) | Return::Implicit(value) => Return::Explicit(value),
        Return::Error(err) => Return::Error(err),
    }
}

/// Evaluate a call: the callee must be a function; its arguments are bound to its
/// parameters in a nested copy of the caller's environment, and its body is
/// evaluated there.
#[verifier::loop_isolation(false)]
pub fn interpret_call(env: &mut Environment, call: &CallExpression, fuel: u64) -> (r: Return<Object>)
    requires
        !old(env).faulted(),
    ensures
        evaluated(*final(env), r, eval_call(old(env)@, *call, fuel)),
    decreases fuel, call,
{
    let callee = match &call.function {
        CallableFunction::Identifier(ident) => match interpret_identifier(env, ident) {
            Return::Implicit(value) => value,
            other => {
                return other;
            },
        },
        CallableFunction::FunctionLiteral(lit) => interpret_function(env, lit),
    };
    let literal = match callee {
        Object::Function(function) => function.literal,
        _ => {
            return Error::throw("value is not of type function".to_owned());
        },
    };
    let mut function_env = env.nest();
    // Evaluate the arguments and bind them to the parameters
    let ghost args = call.arguments@;
    let ghost params = literal.parameters@;
    let mut i: usize = 0;
    assert(args.skip(0) =~= args);
    assert(params.skip(0) =~= params);
    while i < call.arguments.len() && i < literal.parameters.len()
        invariant
            i <= call.arguments.len(),
            i <= literal.parameters.len(),
            args == call.arguments@,
            params == literal.parameters@,
            !env.faulted(),
            !function_env.faulted(),
            eval_args(old(env)@, env_nest(old(env)@), args, params, fuel)
                == eval_args(env@, function_env@, args.skip(i as int), params.skip(i as int), fuel),
        decreases call.arguments.len() - i,
    {
        assert(args.skip(i as int)[0] == args[i as int]);
        assert(args.skip(i as int).drop_first() =~= args.skip(i + 1));
        assert(params.skip(i as int)[0] == params[i as int]);
        assert(params.skip(i as int).drop_first() =~= params.skip(i + 1));
        let ghost before = env@;
        let arg = interpret_expression(env, &call.arguments[i], fuel);
        if env.has_faulted() {
            return arg;
        }
        assert(eval_expr(before, args[i as int], fuel) == Some((arg@, env@)));
        match arg {
            Return::Implicit(value) | Return::Explicit(value) => {
                function_env.set(literal.parameters[i].value.as_str(), value);
            },
            Return::Error(err) => {
                assert(eval_args(before, function_env@, args.skip(i as int), params.skip(i as int), fuel)
                    == Some((Err::<EnvView, Seq<char>>(err.message@), env@)));
                return Return::Error(err);
            },
        }
        i = i + 1;
    }
    if i < call.arguments.len() {
        // One argument more than there are parameters is still evaluated
        assert(args.skip(i as int)[0] == args[i as int]);
        assert(params.skip(i as int).len() == 0);
        let extra = interpret_expression(env, &call.arguments[i], fuel);
        if env.has_faulted() {
            return extra;
        }
    }
    if fuel == 0 {
        return Error::throw("call depth exhausted".to_owned());
    }
    let outcome = interpret_block(&mut function_env, &literal.body, fuel - 1);
    if function_env.has_faulted() {
        env.fault();
        return outcome;
    }
    match outcome {
        Return::Explicit(value) | Return::Implicit(value) => Return::Implicit(value),
        Return::Error(err) => Return::Error(err),
    }
}

/// Evaluate a program in the given environment, with the largest call budget.
pub fn interpret_with_env(env: &mut Environment, program: &Program) -> (r: Return<Object>)
    requires
        !old(env).faulted(),
    ensures
        evaluated(*final(env), r, eval_stmts(old(env)@, program.statements@, Value::Null, CALL_BUDGET)),
{
    let mut result = Object::null();
    let mut i: usize = 0;
    let ghost all = program.statements@;
    assert(all.skip(0) =~= all);
    while i < program.statements.len()
        invariant
            i <= program.statements.len(),
            all == program.statements@,
            !env.faulted(),
            eval_stmts(old(env)@, all, Value::Null, CALL_BUDGET) == eval_stmts(env@, all.skip(i as int), result@, CALL_BUDGET),
        decreases program.statements.len() - i,
    {
        assert(all.skip(i as int)[0] == all[i as int]);
        assert(all.skip(i as int).drop_first() =~= all.skip(i + 1));
        match interpret_statement(env, &program.statements[i], CALL_BUDGET) {
            Return::Implicit(value) => {
                result = value;
            },
            other => {
                return other;
            },
        }
        i = i + 1;
    }
    Return::Implicit(result)
}

/// Evaluate a program in a fresh environment, with the largest call budget;
/// or `None` where evaluation meets an operation that overflows or divides by
/// zero.
pub fn try_interpret(program: &Program) -> (r: Option<Return<Object>>)
    ensures
        match eval_stmts(seq![Seq::<(Seq<char>, Value)>::empty()], program.statements@, Value::Null, CALL_BUDGET) {
            Some((o, _)) => r matches Some(v) && v@ == o,
            None => r is None,
        },
{
    let mut env = Environment::new();
    let r = interpret_with_env(&mut env, program);
    if env.has_faulted() {
        None
    } else {
        Some(r)
    }
}

/// Evaluate a program in a fresh environment, with the largest call budget.
pub fn interpret(program: &Program) -> (r: Return<Object>)
    requires
        eval_stmts(seq![Seq::<(Seq<char>, Value)>::empty()], program.statements@, Value::Null, CALL_BUDGET) is Some,
    ensures
        eval_stmts(seq![Seq::<(Seq<char>, Value)>::empty()], program.statements@, Value::Null, CALL_BUDGET) matches Some((o, _)) && o == r@,
{
    match try_interpret(program) {
        Some(r) => r,
        None => {
            proof {
                assert(false);
            }
            Error::throw("integer overflow".to_owned())
        },
    }
}

} // verus!

verus! {

/// The infix expression `left token right`.
pub open spec fn infix_of(left: Expression, token: InfixOperatorToken, right: Expression) -> Expression {
    Expression::Infix(InfixExpression { operator_token: token, left: Box::new(left), right: Box::new(right) })
}

/// Whether an integer lies in the range of `i64`.
pub open spec fn fits_i64(n: int) -> bool {
    i64::MIN <= n <= i64::MAX
}

/// An infix operation on two operands that evaluate to integers `a` and `b`
/// gives what the operator means on integers: `+`, `-` and `*` the sum,
/// difference and product where it fits in an `i64` (and no outcome where it
/// overflows), `/` no outcome when dividing by zero and the quotient of
/// nonnegative integers otherwise, and `<`, `>`, `==`, `!=` the truth of the
/// comparison. The environment is the one the right operand leaves.
pub proof fn law_integer_infix(
    env: EnvView,
    left: Expression,
    right: Expression,
    fuel: u64,
    a: i64,
    b: i64,
    env1: EnvView,
    env2: EnvView,
)
    requires
        eval_expr(env, left, fuel) == Some((Outcome::Implicit(Value::Integer(a)), env1)),
        eval_expr(env1, right, fuel) == Some((Outcome::Implicit(Value::Integer(b)), env2)),
    ensures
        eval_expr(env, infix_of(left, InfixOperatorToken::RightAngle, right), fuel)
            == Some((Outcome::Implicit(Value::Boolean(a > b)), env2)),
        eval_expr(env, infix_of(left, InfixOperatorToken::LeftAngle, right), fuel)
            == Some((Outcome::Implicit(Value::Boolean(a < b)), env2)),
        eval_expr(env, infix_of(left, InfixOperatorToken::Eq, right), fuel)
            == Some((Outcome::Implicit(Value::Boolean(a == b)), env2)),
        eval_expr(env, infix_of(left, InfixOperatorToken::NotEq, right), fuel)
            == Some((Outcome::Implicit(Value::Boolean(a != b)), env2)),
        eval_expr(env, infix_of(left, InfixOperatorToken::Plus, right), fuel) == (if fits_i64(a + b) {
            Some((Outcome::Implicit(Value::Integer((a + b) as i64)), env2))
        } else {
            None
        }),
        eval_expr(env, infix_of(left, InfixOperatorToken::Minus, right), fuel) == (if fits_i64(a - b) {
            Some((Outcome::Implicit(Value::Integer((a - b) as i64)), env2))
        } else {
            None
        }),
        eval_expr(env, infix_of(left, InfixOperatorToken::Asterisk, right), fuel) == (if fits_i64(a * b) {
            Some((Outcome::Implicit(Value::Integer((a * b) as i64)), env2))
        } else {
            None
        }),
        b == 0 ==> eval_expr(env, infix_of(left, InfixOperatorToken::Slash, right), fuel) is None,
        a >= 0 && b > 0 ==> eval_expr(env, infix_of(left, InfixOperatorToken::Slash, right), fuel)
            == Some((Outcome::Implicit(Value::Integer((a / b) as i64)), env2)),
        b != 0 ==> eval_expr(env, infix_of(left, InfixOperatorToken::Slash, right), fuel) == (if fits_i64(
            truncated_quotient(a as int, b as int),
        ) {
            Some((Outcome::Implicit(Value::Integer(truncated_quotient(a as int, b as int) as i64)), env2))
        } else {
            None
        }),
{
    if a >= 0 && b > 0 {
        assert(0 <= a / b <= a) by (nonlinear_arith)
            requires
                a >= 0,
                b > 0,
        ;
    }
    if b != 0 && a == 0 {
        assert(0int / abs_of(b as int) == 0) by (nonlinear_arith)
            requires
                b != 0,
        ;
    }
}

/// The absolute value of an integer.
pub open spec fn abs_of(n: int) -> int {
    if n < 0 {
        -n
    } else {
        n
    }
}

/// The quotient of `a` by `b` rounded toward zero: the quotient of their
/// absolute values, negative where exactly one of them is.
pub open spec fn truncated_quotient(a: int, b: int) -> int {
    let q = abs_of(a) / abs_of(b);
    if (a < 0) == (b < 0) {
        q
    } else {
        -q
    }
}

/// The outcome that gives a value, with the environment after it.
pub open spec fn gives(v: Value, env: EnvView) -> Option<(Outcome, EnvView)> {
    Some((Outcome::Implicit(v), env))
}

/// An infix operation on two operands that evaluate to values other than two
/// integers: on two booleans, `<` and `>` order `false` below `true`, `==` and
/// `!=` compare them, and the arithmetic operators give null; two strings
/// joined by `+` give their concatenation; any other pair of values is equal
/// under neither `==` nor `!=` (`==` gives false, `!=` true), and any other
/// operator on it is an error.
pub proof fn law_other_infix(
    env: EnvView,
    left: Expression,
    right: Expression,
    fuel: u64,
    token: InfixOperatorToken,
    l: Value,
    r: Value,
    env1: EnvView,
    env2: EnvView,
)
    requires
        eval_expr(env, left, fuel) == Some((Outcome::Implicit(l), env1)),
        eval_expr(env1, right, fuel) == Some((Outcome::Implicit(r), env2)),
        !(l is Integer && r is Integer),
    ensures
        l matches Value::Boolean(x) ==> (r matches Value::Boolean(y) ==> eval_expr(env, infix_of(left, token, right), fuel)
            == match token {
            InfixOperatorToken::RightAngle => gives(Value::Boolean(x && !y), env2),
            InfixOperatorToken::LeftAngle => gives(Value::Boolean(!x && y), env2),
            InfixOperatorToken::Eq => gives(Value::Boolean(x == y), env2),
            InfixOperatorToken::NotEq => gives(Value::Boolean(x != y), env2),
            _ => gives(Value::Null, env2),
        }),
        l matches Value::Str(x) ==> (r matches Value::Str(y) ==> (token == InfixOperatorToken::Plus ==> eval_expr(
            env,
            infix_of(left, token, right),
            fuel,
        ) == gives(Value::Str(x + y), env2))),
        !(l is Boolean && r is Boolean) && !(l is Str && r is Str && token == InfixOperatorToken::Plus) ==> eval_expr(
            env,
            infix_of(left, token, right),
            fuel,
        ) == match token {
            InfixOperatorToken::Eq => gives(Value::Boolean(false), env2),
            InfixOperatorToken::NotEq => gives(Value::Boolean(true), env2),
            _ => Some((Outcome::Error("insupported infix operation"@), env2)),
        },
{
}

/// A prefix operation on an operand that evaluates to `v`: `+` gives an
/// integer back, `-` its negation (and no outcome for the one integer whose
/// negation overflows), `!` the negation of a boolean and `true` for null; any
/// other pairing is an error.
pub proof fn law_prefix(env: EnvView, right: Expression, fuel: u64, v: Value, env1: EnvView)
    requires
        eval_expr(env, right, fuel) == Some((Outcome::Implicit(v), env1)),
    ensures
        v matches Value::Integer(n) ==> eval_expr(env, prefix_of(PrefixToken::Plus, right), fuel) == gives(
            Value::Integer(n),
            env1,
        ),
        v matches Value::Integer(n) ==> eval_expr(env, prefix_of(PrefixToken::Minus, right), fuel) == (if fits_i64(-n) {
            gives(Value::Integer((-n) as i64), env1)
        } else {
            None
        }),
        v matches Value::Boolean(b) ==> eval_expr(env, prefix_of(PrefixToken::Bang, right), fuel) == gives(
            Value::Boolean(!b),
            env1,
        ),
        v is Null ==> eval_expr(env, prefix_of(PrefixToken::Bang, right), fuel) == gives(Value::Boolean(true), env1),
        !(v is Integer) ==> eval_expr(env, prefix_of(PrefixToken::Plus, right), fuel) == Some(
            (Outcome::Error("prefix operation not supported"@), env1),
        ),
        !(v is Integer) ==> eval_expr(env, prefix_of(PrefixToken::Minus, right), fuel) == Some(
            (Outcome::Error("prefix operation not supported"@), env1),
        ),
        !(v is Boolean || v is Null) ==> eval_expr(env, prefix_of(PrefixToken::Bang, right), fuel) == Some(
            (Outcome::Error("prefix operation not supported"@), env1),
        ),
{
}

/// The prefix expression `token right`.
pub open spec fn prefix_of(token: PrefixToken, right: Expression) -> Expression {
    Expression::Prefix(PrefixExpression { prefix_token: token, right: Box::new(right) })
}

} // verus!
