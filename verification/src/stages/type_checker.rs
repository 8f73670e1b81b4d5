//! A type checker for the first version of the language.
//!
//! Conditionals, function literals and calls are not handled yet: checking one
//! of them is outside every contract here, and the specification says so by
//! giving `None` for any input whose check reaches one.
use vstd::prelude::*;

use crate::stages::ast::{
    BlockStatement, Expression, InfixExpression, InfixOperatorToken, LetStatement, PrefixExpression,
    PrefixToken, Program, ReturnStatement, Statement,
};

verus! {

/// Primitive types available in the language.
#[derive(Debug, Clone, Copy, PartialEq, Eq, Structural)]
pub enum Type {
    Boolean,
    Integer,
    String,
    Unit,
}

/// The model of a context: the type of each variable name.
pub type ContextView = Map<Seq<char>, Type>;

/// The map given by a list of bindings, the later binding of a name winning.
pub open spec fn bindings_map(bindings: Seq<(Seq<char>, Type)>) -> ContextView
    decreases bindings.len(),
{
    if bindings.len() == 0 {
        Map::empty()
    } else {
        bindings_map(bindings.drop_last()).insert(bindings.last().0, bindings.last().1)
    }
}

/// The index of the last binding of `name`, or -1.
pub open spec fn last_binding_of(bindings: Seq<(Seq<char>, Type)>, name: Seq<char>) -> int
    decreases bindings.len(),
{
    if bindings.len() == 0 {
        -1
    } else if bindings.last().0 == name {
        bindings.len() - 1
    } else {
        last_binding_of(bindings.drop_last(), name)
    }
}

proof fn lemma_last_binding_of(bindings: Seq<(Seq<char>, Type)>, name: Seq<char>)
    ensures
        -1 <= last_binding_of(bindings, name) < bindings.len(),
        bindings_map(bindings).contains_key(name) <==> last_binding_of(bindings, name) >= 0,
        last_binding_of(bindings, name) >= 0 ==> bindings[last_binding_of(bindings, name)].0 == name
            && bindings_map(bindings)[name] == bindings[last_binding_of(bindings, name)].1,
    decreases bindings.len(),
{
    if bindings.len() > 0 {
        lemma_last_binding_of(bindings.drop_last(), name);
    }
}

/// A map between variable names and their types.
#[derive(Debug)]
pub struct Context {
    bindings: Vec<(String, Type)>,
    unhandled: bool,
}

impl View for Context {
    type V = ContextView;

    closed spec fn view(&self) -> ContextView {
        bindings_map(self.bindings@.map_values(|b: (String, Type)| (b.0@, b.1)))
    }
}

impl Context {
    /// Whether a check reached a construct that is not handled yet.
    pub closed spec fn reached_unhandled(&self) -> bool {
        self.unhandled
    }

    /// Whether a check reached a construct that is not handled yet.
    pub fn has_reached_unhandled(&self) -> (r: bool)
        ensures
            r == self.reached_unhandled(),
    {
        self.unhandled
    }

    /// Record that a check reached a construct that is not handled yet.
    fn reach_unhandled(&mut self)
        ensures
            final(self)@ == old(self)@,
            final(self).reached_unhandled(),
    {
        self.unhandled = true;
    }

    /// An empty context.
    pub fn new() -> (r: Context)
        ensures
            r@ == Map::<Seq<char>, Type>::empty(),
            !r.reached_unhandled(),
    {
        let r = Context { bindings: Vec::new(), unhandled: false };
        assert(r.bindings@.map_values(|b: (String, Type)| (b.0@, b.1)).len() == 0);
        r
    }

    /// Give `name` the type `ty`, replacing any type it had.
    pub fn insert(&mut self, name: String, ty: Type)
        ensures
            final(self)@ == old(self)@.insert(name@, ty),
            final(self).reached_unhandled() == old(self).reached_unhandled(),
    {
        let ghost before = self.bindings@.map_values(|b: (String, Type)| (b.0@, b.1));
        let ghost name_view = name@;
        self.bindings.push((name, ty));
        let ghost after = self.bindings@.map_values(|b: (String, Type)| (b.0@, b.1));
        assert(after.drop_last() =~= before);
        assert(after.last() == (name_view, ty));
    }

    /// The type of `name`, if it has one.
    pub fn get(&self, name: &str) -> (r: Option<Type>)
        ensures
            r == (if self@.contains_key(name@) { Some(self@[name@]) } else { None::<Type> }),
    {
        let ghost all = self.bindings@.map_values(|b: (String, Type)| (b.0@, b.1));
        let key = name.to_owned();
        let mut k = self.bindings.len();
        assert(all.take(k as int) =~= all);
        while k > 0
            invariant
                k <= self.bindings.len(),
                all == self.bindings@.map_values(|b: (String, Type)| (b.0@, b.1)),
                key@ == name@,
                last_binding_of(all, name@) == last_binding_of(all.take(k as int), name@),
            decreases k,
        {
            assert(all.take(k as int).drop_last() =~= all.take(k - 1));
            assert(all[k - 1] == (self.bindings@[k - 1].0@, self.bindings@[k - 1].1));
            if self.bindings[k - 1].0 == key {
                proof {
                    lemma_last_binding_of(all, name@);
                }
                return Some(self.bindings[k - 1].1);
            }
            k = k - 1;
        }
        assert(all.take(0) =~= Seq::<(Seq<char>, Type)>::empty());
        proof {
            lemma_last_binding_of(all, name@);
        }
        None
    }
}

/// The outcome of a check as a value: its result (an error carries its message)
/// and the context after it, or `None` where the check reaches a construct that
/// is not handled yet.
pub type CheckView = Option<(Result<Type, Seq<char>>, ContextView)>;

/// The message for an unknown identifier.
pub open spec fn unknown_identifier_message() -> Seq<char> {
    "expected ident in context"@
}

/// The message for an infix operation whose operands differ in type.
pub open spec fn infix_mismatch_message() -> Seq<char> {
    "expected left and right side of infix operation to be identical"@
}

/// The message for a program statement that has a value.
pub open spec fn program_value_message() -> Seq<char> {
    "cannot return a value from a program"@
}

/// Checking an expression.
pub open spec fn check_expr(ctx: ContextView, e: Expression) -> CheckView
    decreases e,
{
    match e {
        Expression::Identifier(id) => Some((
            if ctx.contains_key(id.value@) { Ok(ctx[id.value@]) } else { Err(unknown_identifier_message()) },
            ctx,
        )),
        Expression::Integer(_) => Some((Ok(Type::Integer), ctx)),
        Expression::String(_) => Some((Ok(Type::String), ctx)),
        Expression::Boolean(_) => Some((Ok(Type::Boolean), ctx)),
        Expression::Prefix(p) => check_expr(ctx, *p.right),
        Expression::Infix(x) => match check_expr(ctx, *x.left) {
            Some((Ok(l), c1)) => match check_expr(c1, *x.right) {
                Some((Ok(r), c2)) => Some((if l == r { Ok(l) } else { Err(infix_mismatch_message()) }, c2)),
                other => other,
            },
            other => other,
        },
        Expression::Block(b) => check_stmts(ctx, b.statements@, Type::Unit),
        Expression::If(_) => None,
        Expression::Function(_) => None,
        Expression::Call(_) => None,
    }
}

/// Checking statements in order: the type of the last one (`last` when there
/// are none left), or the first error.
pub open spec fn check_stmts(ctx: ContextView, ss: Seq<Statement>, last: Type) -> CheckView
    decreases ss,
{
    if ss.len() == 0 {
        Some((Ok(last), ctx))
    } else {
        match check_stmt(ctx, ss[0]) {
            Some((Ok(t), c1)) => check_stmts(c1, ss.drop_first(), t),
            other => other,
        }
    }
}

/// Checking a statement. A `let` binds the name to the type of its value and
/// has the unit type; an expression statement without a semicolon is an
/// implicit return and has the type of its expression, and one with a
/// semicolon has the unit type.
pub open spec fn check_stmt(ctx: ContextView, s: Statement) -> CheckView
    decreases s,
{
    match s {
        Statement::Let(l) => match check_expr(ctx, l.value) {
            Some((Ok(t), c1)) => Some((Ok(Type::Unit), c1.insert(l.name.value@, t))),
            other => other,
        },
        Statement::Return(r) => check_expr(ctx, r.value),
        Statement::Expression { expression, semicolon } => match check_expr(ctx, expression) {
            Some((Ok(t), c1)) => Some((Ok(if semicolon { Type::Unit } else { t }), c1)),
            other => other,
        },
    }
}

/// Checking the statements of a program: every one must have the unit type.
/// The result is the final context, or the first error.
pub open spec fn check_program(ctx: ContextView, ss: Seq<Statement>) -> Option<Result<ContextView, Seq<char>>>
    decreases ss.len(),
{
    if ss.len() == 0 {
        Some(Ok(ctx))
    } else {
        match check_stmt(ctx, ss[0]) {
            None => None,
            Some((Err(m), _)) => Some(Err(m)),
            Some((Ok(t), c1)) => if t != Type::Unit {
                Some(Err(program_value_message()))
            } else {
                check_program(c1, ss.drop_first())
            },
        }
    }
}

/// The contract of a check from `c0` to `c1` with result `r`: where the
/// specification gives an outcome, it is the result and the context after it,
/// and no unhandled construct was reached; where the check reaches a construct
/// that is not handled yet, the context records it and an error is returned.
pub open spec fn checked(c1: Context, r: Result<Type, &'static str>, g: CheckView) -> bool {
    match g {
        Some(o) => !c1.reached_unhandled() && o == (result_view(r), c1@),
        None => c1.reached_unhandled() && r is Err,
    }
}

/// The view of a check's result.
pub open spec fn result_view(r: Result<Type, &'static str>) -> Result<Type, Seq<char>> {
    match r {
        Ok(t) => Ok(t),
        Err(m) => Err(m@),
    }
}

/// Type check a program in a fresh context, giving the context it leaves; or
/// `None` where the check reaches a construct that is not handled yet.
pub fn try_type_check_program(p: &Program) -> (r: Option<Result<Context, &'static str>>)
    ensures
        match r {
            Some(res) => check_program(Map::empty(), p.statements@) == Some(match res {
                Ok(c) => Ok::<ContextView, Seq<char>>(c@),
                Err(m) => Err(m@),
            }),
            None => check_program(Map::empty(), p.statements@) is None,
        },
{
    let mut ctx = Context::new();
    let ghost all = p.statements@;
    let mut i: usize = 0;
    assert(all.skip(0) =~= all);
    while i < p.statements.len()
        invariant
            i <= p.statements.len(),
            all == p.statements@,
            !ctx.reached_unhandled(),
            check_program(Map::empty(), all) == check_program(ctx@, all.skip(i as int)),
        decreases p.statements.len() - i,
    {
        assert(all.skip(i as int)[0] == all[i as int]);
        assert(all.skip(i as int).drop_first() =~= all.skip(i + 1));
        let ty = match type_check_statement(&p.statements[i], &mut ctx) {
            Ok(ty) => ty,
            Err(m) => {
                if ctx.has_reached_unhandled() {
                    return None;
                }
                return Some(Err(m));
            },
        };
        if ty != Type::Unit {
            proof {
                reveal_strlit("cannot return a value from a program");
            }
            return Some(Err("cannot return a value from a program"));
        }
        i = i + 1;
    }
    Some(Ok(ctx))
}

/// Type check a program in a fresh context, giving the context it leaves.
pub fn type_check_program(p: &Program) -> (r: Result<Context, &'static str>)
    requires
        check_program(Map::empty(), p.statements@) is Some,
    ensures
        check_program(Map::empty(), p.statements@) == Some(match r {
            Ok(c) => Ok::<ContextView, Seq<char>>(c@),
            Err(m) => Err(m@),
        }),
{
    match try_type_check_program(p) {
        Some(r) => r,
        None => {
            proof {
                assert(false);
            }
            Err("unsupported expression")
        },
    }
}

/// Type check a block: the type of its last statement, or unit when it is empty.
pub fn type_check_block(b: &BlockStatement, ctx: &mut Context) -> (r: Result<Type, &'static str>)
    requires
        !old(ctx).reached_unhandled(),
    ensures
        checked(*final(ctx), r, check_stmts(old(ctx)@, b.statements@, Type::Unit)),
    decreases b,
{
    let mut ty = Type::Unit;
    let ghost all = b.statements@;
    let mut i: usize = 0;
    assert(all.skip(0) =~= all);
    while i < b.statements.len()
        invariant
            i <= b.statements.len(),
            all == b.statements@,
            !ctx.reached_unhandled(),
            check_stmts(old(ctx)@, all, Type::Unit) == check_stmts(ctx@, all.skip(i as int), ty),
        decreases b.statements.len() - i,
    {
        assert(all.skip(i as int)[0] == all[i as int]);
        assert(all.skip(i as int).drop_first() =~= all.skip(i + 1));
        ty = match type_check_statement(&b.statements[i], ctx) {
            Ok(t) => t,
            Err(m) => {
                return Err(m);
            },
        };
        i = i + 1;
    }
    Ok(ty)
}

/// Type check a statement.
pub fn type_check_statement(s: &Statement, ctx: &mut Context) -> (r: Result<Type, &'static str>)
    requires
        !old(ctx).reached_unhandled(),
    ensures
        checked(*final(ctx), r, check_stmt(old(ctx)@, *s)),
    decreases s,
{
    match s {
        Statement::Let(LetStatement { name, value }) => {
            let ty = match type_check_expression(value, ctx) {
                Ok(t) => t,
                Err(m) => {
                    return Err(m);
                },
            };
            ctx.insert(name.value.clone(), ty);
            Ok(Type::Unit)
        },
        Statement::Return(ReturnStatement { value }) => type_check_expression(value, ctx),
        Statement::Expression { expression, semicolon } => {
            let ty = match type_check_expression(expression, ctx) {
                Ok(t) => t,
                Err(m) => {
                    return Err(m);
                },
            };
            // Without a semicolon, the statement is an implicit return
            Ok(if *semicolon { Type::Unit } else { ty })
        },
    }
}

/// Type check an expression.
pub fn type_check_expression(e: &Expression, ctx: &mut Context) -> (r: Result<Type, &'static str>)
    requires
        !old(ctx).reached_unhandled(),
    ensures
        checked(*final(ctx), r, check_expr(old(ctx)@, *e)),
    decreases e,
{
    match e {
        Expression::Identifier(ident) => match ctx.get(ident.value.as_str()) {
            Some(t) => Ok(t),
            None => {
                proof {
                    reveal_strlit("expected ident in context");
                }
                Err("expected ident in context")
            },
        },
        Expression::Integer(_) => Ok(Type::Integer),
        Expression::String(_) => Ok(Type::String),
        Expression::Boolean(_) => Ok(Type::Boolean),
        Expression::Prefix(prefix) => type_check_expression(&prefix.right, ctx),
        Expression::Infix(infix) => {
            let left = match type_check_expression(&infix.left, ctx) {
                Ok(t) => t,
                Err(m) => {
                    return Err(m);
                },
            };
            let right = match type_check_expression(&infix.right, ctx) {
                Ok(t) => t,
                Err(m) => {
                    return Err(m);
                },
            };
            if left == right {
                Ok(left)
            } else {
                proof {
                    reveal_strlit("expected left and right side of infix operation to be identical");
                }
                Err("expected left and right side of infix operation to be identical")
            }
        },
        Expression::Block(block) => type_check_block(block, ctx),
        Expression::If(_) | Expression::Function(_) | Expression::Call(_) => {
            ctx.reach_unhandled();
            Err("unsupported expression")
        },
    }
}

/// An infix operation, whatever its operator, has the type of its operands
/// where both have one type, and is refused where their types differ; a prefix
/// operation has the type of its operand. The context is the one the operands
/// leave.
pub proof fn law_operation_types(
    ctx: ContextView,
    left: Expression,
    right: Expression,
    token: InfixOperatorToken,
    prefix: PrefixToken,
    l: Type,
    c1: ContextView,
    r: Type,
    c2: ContextView,
)
    requires
        check_expr(ctx, left) == Some((Ok::<Type, Seq<char>>(l), c1)),
        check_expr(c1, right) == Some((Ok::<Type, Seq<char>>(r), c2)),
    ensures
        check_expr(
            ctx,
            Expression::Infix(InfixExpression { operator_token: token, left: Box::new(left), right: Box::new(right) }),
        ) == Some((if l == r { Ok::<Type, Seq<char>>(l) } else { Err(infix_mismatch_message()) }, c2)),
        check_expr(ctx, Expression::Prefix(PrefixExpression { prefix_token: prefix, right: Box::new(left) })) == Some(
            (Ok::<Type, Seq<char>>(l), c1),
        ),
{
}

} // verus!
