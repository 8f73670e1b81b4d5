//! A compiler from the first version of the language to bytecode.
//!
//! Integer and boolean literals, prefix and infix operations, conditionals,
//! `let` and expression statements are compiled. Identifiers, strings, blocks
//! used as expressions, function literals, calls and `return` are not handled
//! yet: compiling one of them is outside every contract here, and the
//! specification gives `None` for any input that contains one, as it does for
//! an empty block and for a program with more distinct global names than there
//! are slots.
use vstd::prelude::*;

use crate::compiler::{distinct_strings, index_of, lemma_index_of};
use crate::stages::ast::{
    BlockStatement, BooleanLiteral, Expression, IfExpression, InfixExpression,
    InfixOperatorToken, IntegerLiteral, LetStatement, PrefixExpression, PrefixToken, Program,
    Statement,
};
use crate::stages::code::{encoding, Bytecode, Instruction};
use crate::stages::object::{IntegerObject, Object, Value};

verus! {

/// The largest number of global slots: slot numbers are 16-bit, and the slot
/// after the last one handed out must be representable too.
pub open spec fn max_globals() -> nat {
    0xffff
}

/// Hands out one global slot per distinct name, in order of first use.
#[derive(Debug)]
pub struct SymbolTable {
    names: Vec<String>,
}

impl View for SymbolTable {
    type V = Seq<Seq<char>>;

    /// The names that have slots, by slot number.
    closed spec fn view(&self) -> Seq<Seq<char>> {
        self.names@.map_values(|s: String| s@)
    }
}

/// The slot of `name` and the names with slots after resolving it, or `None`
/// where a new slot would be past the last one.
pub open spec fn resolve_slot(names: Seq<Seq<char>>, name: Seq<char>) -> Option<(u16, Seq<Seq<char>>)> {
    if index_of(names, name) >= 0 {
        Some((index_of(names, name) as u16, names))
    } else if names.len() < max_globals() {
        Some((names.len() as u16, names.push(name)))
    } else {
        None
    }
}

impl SymbolTable {
    /// No name has two slots, and every slot number fits.
    pub open spec fn wf(&self) -> bool {
        distinct_strings(self@) && self@.len() <= max_globals()
    }

    /// Whether `resolve` can give a name a slot: the name has one, or a new
    /// slot fits.
    pub fn can_resolve(&self, ident: &str) -> (r: bool)
        requires
            self.wf(),
        ensures
            r == (resolve_slot(self@, ident@) is Some),
    {
        if self.names.len() < 0xffff {
            return true;
        }
        let owned = ident.to_owned();
        let mut k = self.names.len();
        assert(self@.take(k as int) =~= self@);
        while k > 0
            invariant
                k <= self.names.len(),
                owned@ == ident@,
                self@.len() == self.names.len(),
                index_of(self@, ident@) == index_of(self@.take(k as int), ident@),
            decreases k,
        {
            assert(self@.take(k as int).drop_last() == self@.take(k - 1));
            assert(self@[k - 1] == self.names[k - 1]@);
            if self.names[k - 1] == owned {
                return true;
            }
            k = k - 1;
        }
        assert(self@.take(0) =~= Seq::<Seq<char>>::empty());
        false
    }

    /// The slot of a name, handing out the next free slot to a new name.
    pub fn resolve(&mut self, ident: &str) -> (r: u16)
        requires
            old(self).wf(),
            resolve_slot(old(self)@, ident@) is Some,
        ensures
            final(self).wf(),
            resolve_slot(old(self)@, ident@) == Some((r, final(self)@)),
    {
        let owned = ident.to_owned();
        let mut k = self.names.len();
        assert(self@.take(k as int) =~= self@);
        while k > 0
            invariant
                k <= self.names.len(),
                owned@ == ident@,
                self@ == old(self)@,
                distinct_strings(self@),
                self@.len() == self.names.len(),
                self@.len() <= max_globals(),
                index_of(self@, ident@) == index_of(self@.take(k as int), ident@),
            decreases k,
        {
            assert(self@.take(k as int).drop_last() == self@.take(k - 1));
            assert(self@[k - 1] == self.names[k - 1]@);
            if self.names[k - 1] == owned {
                return (k - 1) as u16;
            }
            k = k - 1;
        }
        assert(self@.take(0) =~= Seq::<Seq<char>>::empty());
        proof {
            lemma_index_of(self@, ident@);
        }
        let slot = self.names.len() as u16;
        self.names.push(owned);
        assert(self@ =~= old(self)@.push(ident@));
        assert(distinct_strings(self@)) by {
            assert forall|i: int, j: int| 0 <= i < j < self@.len() implies self@[i] != self@[j] by {
                assert(self@[i] == old(self)@[i]);
                if j < old(self)@.len() {
                    assert(self@[j] == old(self)@[j]);
                }
            }
        }
        slot
    }
}

impl Default for SymbolTable {
    fn default() -> (r: SymbolTable)
        ensures
            r@ == Seq::<Seq<char>>::empty(),
            r.wf(),
    {
        let r = SymbolTable { names: Vec::new() };
        assert(r@ =~= Seq::<Seq<char>>::empty());
        r
    }
}

/// What compiling depends on and adds to besides the instructions: the
/// constants and the names with global slots.
pub ghost struct Tables {
    pub constants: Seq<Value>,
    pub symbols: Seq<Seq<char>>,
}

/// The instruction of an infix operator. `<` is compiled as `>` with its
/// operands swapped.
pub open spec fn infix_instruction(token: InfixOperatorToken) -> Instruction {
    match token {
        InfixOperatorToken::Plus => Instruction::Add,
        InfixOperatorToken::Minus => Instruction::Sub,
        InfixOperatorToken::Asterisk => Instruction::Mul,
        InfixOperatorToken::Slash => Instruction::Div,
        InfixOperatorToken::LeftAngle => Instruction::GreaterThan,
        InfixOperatorToken::RightAngle => Instruction::GreaterThan,
        InfixOperatorToken::Eq => Instruction::Equal,
        InfixOperatorToken::NotEq => Instruction::NotEqual,
    }
}

/// The code of an expression and the tables after it, or `None` where the
/// expression is not handled.
pub open spec fn gen_expr(t: Tables, e: Expression) -> Option<(Seq<u8>, Tables)>
    decreases e,
{
    match e {
        Expression::Integer(l) => Some((
            encoding(Instruction::Constant(t.constants.len() as u32)),
            Tables { constants: t.constants.push(Value::Integer(l.value)), symbols: t.symbols },
        )),
        Expression::Boolean(l) => Some((encoding(if l.value { Instruction::True } else { Instruction::False }), t)),
        Expression::Prefix(p) => match gen_expr(t, *p.right) {
            Some((c, t1)) => Some((
                match p.prefix_token {
                    PrefixToken::Plus => c,
                    PrefixToken::Minus => c + encoding(Instruction::Negate),
                    PrefixToken::Bang => c + encoding(Instruction::Bang),
                },
                t1,
            )),
            None => None,
        },
        Expression::Infix(x) => if x.operator_token == InfixOperatorToken::LeftAngle {
            match gen_expr(t, *x.right) {
                Some((c1, t1)) => match gen_expr(t1, *x.left) {
                    Some((c2, t2)) => Some((c1 + c2 + encoding(Instruction::GreaterThan), t2)),
                    None => None,
                },
                None => None,
            }
        } else {
            match gen_expr(t, *x.left) {
                Some((c1, t1)) => match gen_expr(t1, *x.right) {
                    Some((c2, t2)) => Some((c1 + c2 + encoding(infix_instruction(x.operator_token)), t2)),
                    None => None,
                },
                None => None,
            }
        },
        Expression::If(x) => match gen_expr(t, x.condition) {
            Some((cond, t1)) => match gen_block(t1, x.consequence) {
                Some((cons, t2)) => match x.else_branch {
                    None => Some((
                        cond + encoding(Instruction::JumpNotTrue(cons.len() as i16)) + cons,
                        t2,
                    )),
                    Some(alternative) => match gen_block(t2, alternative.statement) {
                        Some((alt, t3)) => Some((
                            cond + encoding(Instruction::JumpNotTrue((cons.len() + 3) as i16)) + cons
                                + encoding(Instruction::Jump(alt.len() as i16)) + alt,
                            t3,
                        )),
                        None => None,
                    },
                },
                None => None,
            },
            None => None,
        },
        _ => None,
    }
}

/// The code of a block: its statements in order, the value of the last one left
/// on the stack. An empty block is not handled.
pub open spec fn gen_block(t: Tables, b: BlockStatement) -> Option<(Seq<u8>, Tables)>
    decreases b,
{
    if b.statements@.len() == 0 {
        None
    } else {
        gen_stmts(t, b.statements@, true)
    }
}

/// The code of statements in order; each one's value is popped, but for the
/// last one's when `keep_last` holds.
pub open spec fn gen_stmts(t: Tables, ss: Seq<Statement>, keep_last: bool) -> Option<(Seq<u8>, Tables)>
    decreases ss,
{
    if ss.len() == 0 {
        Some((Seq::empty(), t))
    } else {
        match gen_stmt(t, ss[0], keep_last && ss.len() == 1) {
            Some((c1, t1)) => match gen_stmts(t1, ss.drop_first(), keep_last) {
                Some((c2, t2)) => Some((c1 + c2, t2)),
                None => None,
            },
            None => None,
        }
    }
}

/// The code of a statement. A `let` stores its value in the slot of its name;
/// an expression statement pops its value unless `skip_pop` holds.
pub open spec fn gen_stmt(t: Tables, s: Statement, skip_pop: bool) -> Option<(Seq<u8>, Tables)>
    decreases s,
{
    match s {
        Statement::Let(l) => match gen_expr(t, l.value) {
            Some((c, t1)) => match resolve_slot(t1.symbols, l.name.value@) {
                Some((slot, symbols)) => Some((
                    c + encoding(Instruction::SetGlobal(slot)),
                    Tables { constants: t1.constants, symbols },
                )),
                None => None,
            },
            None => None,
        },
        Statement::Return(_) => None,
        Statement::Expression { expression, semicolon: _ } => match gen_expr(t, expression) {
            Some((c, t1)) => Some((if skip_pop { c } else { c + encoding(Instruction::Pop) }, t1)),
            None => None,
        },
    }
}

/// Compiles nodes, accumulating instructions, constants and global slots.
#[derive(Debug)]
pub struct Compiler {
    pub instructions: Vec<u8>,
    pub constants: Vec<Object>,
    pub symbol_table: SymbolTable,
}

impl Default for Compiler {
    fn default() -> (r: Compiler)
        ensures
            r.instructions@ == Seq::<u8>::empty(),
            r.constants@ == Seq::<Object>::empty(),
            r.symbol_table@ == Seq::<Seq<char>>::empty(),
            r.symbol_table.wf(),
    {
        Compiler { instructions: Vec::new(), constants: Vec::new(), symbol_table: SymbolTable::default() }
    }
}

impl Compiler {
    /// The constants and global names of this compiler.
    pub open spec fn tables(&self) -> Tables {
        Tables { constants: self.constants@.map_values(|o: Object| o@), symbols: self.symbol_table@ }
    }

    /// The contract shared by the methods that compile a node: the code of the
    /// node is appended, and the tables become those after the node.
    pub open spec fn compiled(old: Compiler, new: Compiler, g: Option<(Seq<u8>, Tables)>) -> bool {
        &&& new.symbol_table.wf()
        &&& g matches Some((code, t)) && new.instructions@ == old.instructions@ + code && new.tables() == t
    }

    /// The contract of the methods that compile a node, for every node: where
    /// the specification gives code, the result is `Ok` and `compiled` holds;
    /// where compiling reaches a construct that is not handled yet, the result
    /// is an error.
    pub open spec fn compiled_or_refused(old: Compiler, new: Compiler, r: Result<(), String>, g: Option<(Seq<u8>, Tables)>) -> bool {
        match g {
            Some(_) => r is Ok && Compiler::compiled(old, new, g),
            None => r is Err && new.symbol_table.wf(),
        }
    }

    /// Add a constant, giving its index.
    fn register_constant(&mut self, c: Object) -> (r: u32)
        ensures
            r == old(self).constants@.len() as u32,
            final(self).constants@ == old(self).constants@.push(c),
            final(self).instructions@ == old(self).instructions@,
            final(self).symbol_table == old(self).symbol_table,
    {
        let id = self.constants.len() as u32;
        self.constants.push(c);
        id
    }

    /// Append the bytes of an instruction.
    fn push(&mut self, instruction: Instruction)
        ensures
            final(self).instructions@ == old(self).instructions@ + encoding(instruction),
            final(self).constants@ == old(self).constants@,
            final(self).symbol_table == old(self).symbol_table,
    {
        let mut encoded = instruction.encode();
        self.instructions.append(&mut encoded);
    }

    /// Overwrite the bytes at `offset` with those of an instruction.
    fn replace(&mut self, offset: usize, instruction: Instruction)
        requires
            offset + encoding(instruction).len() <= old(self).instructions@.len(),
        ensures
            final(self).instructions@ == old(self).instructions@.take(offset as int) + encoding(instruction)
                + old(self).instructions@.skip(offset + encoding(instruction).len()),
            final(self).constants@ == old(self).constants@,
            final(self).symbol_table == old(self).symbol_table,
    {
        let encoded = instruction.encode();
        let ghost before = self.instructions@;
        let n = self.instructions.len();
        let mut j: usize = 0;
        while j < encoded.len()
            invariant
                j <= encoded.len(),
                n == before.len(),
                encoded@ == encoding(instruction),
                offset + encoded.len() <= before.len(),
                self.instructions@.len() == before.len(),
                forall|k: int| 0 <= k < offset ==> self.instructions@[k] == before[k],
                forall|k: int| offset <= k < offset + j ==> self.instructions@[k] == encoded@[k - offset],
                forall|k: int| offset + j <= k < before.len() ==> self.instructions@[k] == before[k],
                self.constants@ == old(self).constants@,
                self.symbol_table == old(self).symbol_table,
            decreases encoded.len() - j,
        {
            self.instructions.set(offset + j, encoded[j]);
            j = j + 1;
        }
        assert(self.instructions@ =~= before.take(offset as int) + encoding(instruction)
            + before.skip(offset + encoding(instruction).len()));
    }

    /// Compile a program from a fresh compiler, every statement's value popped;
    /// or `None` where compiling reaches a construct that is not handled yet.
    pub fn try_compile(program: &Program) -> (r: Option<Bytecode>)
        ensures
            match gen_stmts(Tables { constants: Seq::empty(), symbols: Seq::empty() }, program.statements@, false) {
                Some((code, t)) => r matches Some(b) && b.instructions@ == code
                    && b.constants@.map_values(|o: Object| o@) == t.constants,
                None => r is None,
            },
    {
        let mut compiler = Compiler::default();
        assert(compiler.tables().constants =~= Seq::<Value>::empty());
        assert(compiler.tables() == Tables { constants: Seq::empty(), symbols: Seq::empty() });
        let ghost t0 = compiler.tables();
        let ghost all = program.statements@;
        let mut i: usize = 0;
        assert(all.skip(0) =~= all);
        assert(compiler.instructions@ =~= Seq::<u8>::empty());
        while i < program.statements.len()
            invariant
                i <= program.statements.len(),
                all == program.statements@,
                compiler.symbol_table.wf(),
                t0 == (Tables { constants: Seq::empty(), symbols: Seq::empty() }),
                gen_stmts(t0, all, false) == prepend(compiler.instructions@, gen_stmts(compiler.tables(), all.skip(i as int), false)),
            decreases program.statements.len() - i,
        {
            let ghost before = compiler;
            assert(all.skip(i as int)[0] == all[i as int]);
            assert(all.skip(i as int).drop_first() =~= all.skip(i + 1));
            match compiler.compile_statement(&program.statements[i], false) {
                Ok(()) => {},
                Err(_) => {
                    assert(gen_stmts(before.tables(), all.skip(i as int), false) is None);
                    return None;
                },
            }
            proof {
                lemma_prepend_step(before.instructions@, compiler.instructions@,
                    gen_stmt(before.tables(), all[i as int], false),
                    gen_stmts(compiler.tables(), all.skip(i + 1), false));
            }
            i = i + 1;
        }
        assert(gen_stmts(compiler.tables(), all.skip(i as int), false) == Some((Seq::<u8>::empty(), compiler.tables())));
        assert(compiler.instructions@ + Seq::<u8>::empty() =~= compiler.instructions@);
        Some(Bytecode::from(compiler))
    }

    /// Compile a program from a fresh compiler, every statement's value popped.
    pub fn compile(program: &Program) -> (r: Result<Bytecode, String>)
        requires
            gen_stmts(Tables { constants: Seq::empty(), symbols: Seq::empty() }, program.statements@, false) is Some,
        ensures
            r matches Ok(b) && gen_stmts(Tables { constants: Seq::empty(), symbols: Seq::empty() }, program.statements@, false)
                matches Some((code, t)) && b.instructions@ == code
                && b.constants@.map_values(|o: Object| o@) == t.constants,
    {
        match Compiler::try_compile(program) {
            Some(b) => Ok(b),
            None => {
                proof {
                    assert(false);
                }
                Err("this program is not compiled yet".to_owned())
            },
        }
    }

    /// Compile a statement.
    pub fn compile_statement(&mut self, statement: &Statement, skip_pop: bool) -> (r: Result<(), String>)
        requires
            old(self).symbol_table.wf(),
        ensures
            Compiler::compiled_or_refused(*old(self), *final(self), r, gen_stmt(old(self).tables(), *statement, skip_pop)),
        decreases statement, 1nat,
    {
        match statement {
            Statement::Let(let_statement) => self.compile_let(let_statement),
            Statement::Return(_) => Err("return statements are not compiled yet".to_owned()),
            Statement::Expression { expression, .. } => self.compile_expression_statement(expression, skip_pop),
        }
    }

    /// Compile a `let` statement: its value, then a store into the slot of its name.
    pub fn compile_let(&mut self, statement: &LetStatement) -> (r: Result<(), String>)
        requires
            old(self).symbol_table.wf(),
        ensures
            Compiler::compiled_or_refused(*old(self), *final(self), r, gen_stmt(old(self).tables(), Statement::Let(*statement), false)),
        decreases statement, 0nat,
    {
        match self.compile_expression(&statement.value) {
            Ok(()) => {},
            Err(e) => {
                return Err(e);
            },
        }
        if !self.symbol_table.can_resolve(statement.name.value.as_str()) {
            return Err("no global slot is left".to_owned());
        }
        let ident = self.symbol_table.resolve(statement.name.value.as_str());
        self.push(Instruction::SetGlobal(ident));
        proof {
            lemma_append_assoc(old(self).instructions@);
        }
        assert(self.instructions@ =~= old(self).instructions@ + gen_stmt(old(self).tables(), Statement::Let(*statement), false).unwrap().0);
        Ok(())
    }

    /// Compile an expression statement, popping its value unless `skip_pop` holds.
    pub fn compile_expression_statement(&mut self, statement: &Expression, skip_pop: bool) -> (r: Result<(), String>)
        requires
            old(self).symbol_table.wf(),
        ensures
            Compiler::compiled_or_refused(*old(self), *final(self), r,
                gen_stmt(old(self).tables(), Statement::Expression { expression: *statement, semicolon: false }, skip_pop)),
        decreases statement, 3nat,
    {
        match self.compile_expression(statement) {
            Ok(()) => {},
            Err(e) => {
                return Err(e);
            },
        }
        if !skip_pop {
            self.push(Instruction::Pop);
            assert(self.instructions@ =~= old(self).instructions@ + (gen_expr(old(self).tables(), *statement).unwrap().0 + encoding(Instruction::Pop)));
        }
        Ok(())
    }

    /// Compile a block, leaving the value of its last statement on the stack.
    pub fn compile_block_statement(&mut self, block: &BlockStatement) -> (r: Result<(), String>)
        requires
            old(self).symbol_table.wf(),
        ensures
            Compiler::compiled_or_refused(*old(self), *final(self), r, gen_block(old(self).tables(), *block)),
        decreases block, 1nat,
    {
        if block.statements.len() == 0 {
            return Err("an empty block is not compiled".to_owned());
        }
        let last_statement = block.statements.len() - 1;
        let ghost all = block.statements@;
        let mut i: usize = 0;
        assert(all.skip(0) =~= all);
        assert(old(self).instructions@ + Seq::<u8>::empty() =~= old(self).instructions@);
        while i < block.statements.len()
            invariant
                i <= block.statements.len(),
                last_statement + 1 == block.statements.len(),
                all == block.statements@,
                self.symbol_table.wf(),
                prepend(old(self).instructions@, gen_stmts(old(self).tables(), all, true))
                    == prepend(self.instructions@, gen_stmts(self.tables(), all.skip(i as int), true)),
            decreases block.statements.len() - i,
        {
            let ghost before = *self;
            assert(all.skip(i as int)[0] == all[i as int]);
            assert(all.skip(i as int).drop_first() =~= all.skip(i + 1));
            assert(all.skip(i as int).len() == 1 <==> i == last_statement);
            match self.compile_statement(&block.statements[i], i == last_statement) {
                Ok(()) => {},
                Err(e) => {
                    return Err(e);
                },
            }
            proof {
                lemma_prepend_step(before.instructions@, self.instructions@,
                    gen_stmt(before.tables(), all[i as int], i == last_statement),
                    gen_stmts(self.tables(), all.skip(i + 1), true));
            }
            i = i + 1;
        }
        assert(self.instructions@ + Seq::<u8>::empty() =~= self.instructions@);
        proof {
            lemma_prepend_inverse(old(self).instructions@, self.instructions@, gen_stmts(old(self).tables(), all, true), self.tables());
        }
        Ok(())
    }

    /// Compile an expression.
    pub fn compile_expression(&mut self, e: &Expression) -> (r: Result<(), String>)
        requires
            old(self).symbol_table.wf(),
        ensures
            Compiler::compiled_or_refused(*old(self), *final(self), r, gen_expr(old(self).tables(), *e)),
        decreases e, 2nat,
    {
        match e {
            Expression::Integer(integer) => self.compile_integer(integer),
            Expression::Boolean(boolean) => self.compile_boolean(boolean),
            Expression::Prefix(prefix) => self.compile_prefix(prefix),
            Expression::Infix(infix) => self.compile_infix(infix),
            Expression::If(if_expression) => self.compile_if_expression(if_expression),
            _ => Err("this expression is not compiled yet".to_owned()),
        }
    }

    /// Compile a boolean literal.
    pub fn compile_boolean(&mut self, literal: &BooleanLiteral) -> (r: Result<(), String>)
        requires
            old(self).symbol_table.wf(),
        ensures
            r is Ok,
            Compiler::compiled(*old(self), *final(self), gen_expr(old(self).tables(), Expression::Boolean(*literal))),
    {
        self.push(if literal.value { Instruction::True } else { Instruction::False });
        Ok(())
    }

    /// Compile an integer literal: a new constant, and an instruction that pushes it.
    pub fn compile_integer(&mut self, literal: &IntegerLiteral) -> (r: Result<(), String>)
        requires
            old(self).symbol_table.wf(),
        ensures
            r is Ok,
            Compiler::compiled(*old(self), *final(self), gen_expr(old(self).tables(), Expression::Integer(*literal))),
    {
        let id = self.register_constant(Object::Integer(IntegerObject { value: literal.value }));
        self.push(Instruction::Constant(id));
        assert(self.tables().constants =~= old(self).tables().constants.push(Value::Integer(literal.value)));
        Ok(())
    }

    /// Compile a prefix operation: its operand, then its operator, if it has one.
    pub fn compile_prefix(&mut self, prefix: &PrefixExpression) -> (r: Result<(), String>)
        requires
            old(self).symbol_table.wf(),
        ensures
            Compiler::compiled_or_refused(*old(self), *final(self), r, gen_expr(old(self).tables(), Expression::Prefix(*prefix))),
        decreases prefix, 0nat,
    {
        match self.compile_expression(&prefix.right) {
            Ok(()) => {},
            Err(e) => {
                return Err(e);
            },
        }
        let ghost code = gen_expr(old(self).tables(), *prefix.right).unwrap().0;
        match prefix.prefix_token {
            PrefixToken::Plus => {},
            PrefixToken::Minus => {
                self.push(Instruction::Negate);
                assert(self.instructions@ =~= old(self).instructions@ + (code + encoding(Instruction::Negate)));
            },
            PrefixToken::Bang => {
                self.push(Instruction::Bang);
                assert(self.instructions@ =~= old(self).instructions@ + (code + encoding(Instruction::Bang)));
            },
        }
        Ok(())
    }

    /// Compile an infix operation: its operands, then its operator.
    pub fn compile_infix(&mut self, infix: &InfixExpression) -> (r: Result<(), String>)
        requires
            old(self).symbol_table.wf(),
        ensures
            Compiler::compiled_or_refused(*old(self), *final(self), r, gen_expr(old(self).tables(), Expression::Infix(*infix))),
        decreases infix, 0nat,
    {
        let instruction = match infix.operator_token {
            InfixOperatorToken::Plus => Instruction::Add,
            InfixOperatorToken::Minus => Instruction::Sub,
            InfixOperatorToken::Asterisk => Instruction::Mul,
            InfixOperatorToken::Slash => Instruction::Div,
            InfixOperatorToken::LeftAngle => Instruction::GreaterThan,
            InfixOperatorToken::RightAngle => Instruction::GreaterThan,
            InfixOperatorToken::Eq => Instruction::Equal,
            InfixOperatorToken::NotEq => Instruction::NotEqual,
        };
        // `<` re-uses greater than, so its operands are reversed
        let (lhs, rhs) = if infix.operator_token == InfixOperatorToken::LeftAngle {
            (&infix.right, &infix.left)
        } else {
            (&infix.left, &infix.right)
        };
        let ghost mid = *self;
        match self.compile_expression(lhs) {
            Ok(()) => {},
            Err(e) => {
                return Err(e);
            },
        }
        let ghost mid2 = *self;
        match self.compile_expression(rhs) {
            Ok(()) => {},
            Err(e) => {
                return Err(e);
            },
        }
        self.push(instruction);
        let ghost c1 = gen_expr(mid.tables(), **lhs).unwrap().0;
        let ghost c2 = gen_expr(mid2.tables(), **rhs).unwrap().0;
        assert(self.instructions@ =~= old(self).instructions@ + (c1 + c2 + encoding(instruction)));
        Ok(())
    }

    /// Compile a conditional: the condition, a jump past the consequence when it
    /// does not hold, the consequence, and, when there is an alternative, a jump
    /// past the alternative followed by the alternative. Jump offsets count bytes.
    #[verifier::rlimit(50)]
    #[verifier::spinoff_prover]
    pub fn compile_if_expression(&mut self, e: &IfExpression) -> (r: Result<(), String>)
        requires
            old(self).symbol_table.wf(),
        ensures
            Compiler::compiled_or_refused(*old(self), *final(self), r, gen_expr(old(self).tables(), Expression::If(Box::new(*e)))),
        decreases e, 0nat,
    {
        let ghost t0 = old(self).tables();
        let ghost base = old(self).instructions@;
        match self.compile_expression(&e.condition) {
            Ok(()) => {},
            Err(e) => {
                return Err(e);
            },
        }
        let ghost cond = gen_expr(t0, e.condition).unwrap().0;
        let ghost t1 = self.tables();
        // A placeholder jump to the alternative, patched below
        let consequence_jump_instruction = self.instructions.len();
        self.push(Instruction::JumpNotTrue(0));
        let consequence_start = self.instructions.len();
        match self.compile_block_statement(&e.consequence) {
            Ok(()) => {},
            Err(e) => {
                return Err(e);
            },
        }
        let ghost cons = gen_block(t1, e.consequence).unwrap().0;
        let ghost t2 = self.tables();
        let mut consequence_end = self.instructions.len();
        assert(self.instructions@ == base + cond + encoding(Instruction::JumpNotTrue(0)) + cons);
        assert(consequence_end - consequence_start == cons.len());
        match &e.else_branch {
            Some(else_branch) => {
                let ghost before_alt = self.instructions@;
                let alternate_jump_instruction = self.instructions.len();
                self.push(Instruction::Jump(0));
                consequence_end = self.instructions.len();
                match self.compile_block_statement(&else_branch.statement) {
                    Ok(()) => {},
                    Err(e) => {
                        return Err(e);
                    },
                }
                let ghost alt = gen_block(t2, else_branch.statement).unwrap().0;
                let else_end = self.instructions.len();
                assert(self.instructions@ == before_alt + encoding(Instruction::Jump(0)) + alt);
                let offset = else_end - consequence_end;
                assert(offset == alt.len());
                self.replace(alternate_jump_instruction, Instruction::Jump(offset as i16));
                assert(self.instructions@ =~= before_alt + encoding(Instruction::Jump(offset as i16)) + alt);
            },
            None => {},
        }
        let offset = consequence_end - consequence_start;
        self.replace(consequence_jump_instruction, Instruction::JumpNotTrue(offset as i16));
        proof {
            let jnt = encoding(Instruction::JumpNotTrue(offset as i16));
            match &e.else_branch {
                Some(else_branch) => {
                    let alt = gen_block(t2, else_branch.statement).unwrap().0;
                    assert(offset == cons.len() + 3);
                    assert(self.instructions@ =~= base + (cond + jnt + cons
                        + encoding(Instruction::Jump(alt.len() as i16)) + alt));
                },
                None => {
                    assert(offset == cons.len());
                    assert(self.instructions@ =~= base + (cond + jnt + cons));
                },
            }
        }
        Ok(())
    }
}

impl From<Compiler> for Bytecode {
    /// The instructions and constants that a compiler has accumulated.
    fn from(compiler: Compiler) -> (r: Bytecode) {
        Bytecode { instructions: compiler.instructions, constants: compiler.constants }
    }
}

impl vstd::std_specs::convert::FromSpecImpl<Compiler> for Bytecode {
    open spec fn obeys_from_spec() -> bool {
        true
    }

    open spec fn from_spec(compiler: Compiler) -> Bytecode {
        Bytecode { instructions: compiler.instructions, constants: compiler.constants }
    }
}

/// The code `prefix` followed by that of a generation result.
pub open spec fn prepend(prefix: Seq<u8>, g: Option<(Seq<u8>, Tables)>) -> Option<(Seq<u8>, Tables)> {
    match g {
        Some((code, t)) => Some((prefix + code, t)),
        None => None,
    }
}

proof fn lemma_prepend_step(before: Seq<u8>, after: Seq<u8>, step: Option<(Seq<u8>, Tables)>, rest: Option<(Seq<u8>, Tables)>)
    requires
        step matches Some((c, _)) && after == before + c,
    ensures
        prepend(before, match rest {
            Some((c2, t2)) => Some((step.unwrap().0 + c2, t2)),
            None => None,
        }) == prepend(after, rest),
{
    match rest {
        Some((c2, t2)) => {
            assert(before + (step.unwrap().0 + c2) =~= after + c2);
        },
        None => {},
    }
}

proof fn lemma_prepend_inverse(base: Seq<u8>, now: Seq<u8>, g: Option<(Seq<u8>, Tables)>, t: Tables)
    requires
        prepend(base, g) == Some((now, t)),
    ensures
        g matches Some((code, t2)) && now == base + code && t2 == t,
{
}

proof fn lemma_append_assoc(base: Seq<u8>)
    ensures
        forall|a: Seq<u8>, b: Seq<u8>| #![trigger base + a + b] base + a + b == base + (a + b),
{
    assert forall|a: Seq<u8>, b: Seq<u8>| #![trigger base + a + b] base + a + b == base + (a + b) by {
        assert(base + a + b =~= base + (a + b));
    }
}

/// Compiling statements one list after another gives the code of the first list
/// followed by that of the second, compiled with the tables the first leaves.
pub proof fn law_compile_concat(t: Tables, a: Seq<Statement>, b: Seq<Statement>)
    ensures
        gen_stmts(t, a + b, false) == match gen_stmts(t, a, false) {
            Some((c1, t1)) => match gen_stmts(t1, b, false) {
                Some((c2, t2)) => Some((c1 + c2, t2)),
                None => None,
            },
            None => None,
        },
    decreases a.len(),
{
    if a.len() == 0 {
        assert(a + b =~= b);
        if let Some((c2, t2)) = gen_stmts(t, b, false) {
            assert(Seq::<u8>::empty() + c2 =~= c2);
        }
    } else {
        assert((a + b)[0] == a[0]);
        assert((a + b).drop_first() =~= a.drop_first() + b);
        law_compile_concat_step(t, a, b);
    }
}

proof fn law_compile_concat_step(t: Tables, a: Seq<Statement>, b: Seq<Statement>)
    requires
        a.len() > 0,
        (a + b)[0] == a[0],
        (a + b).drop_first() == a.drop_first() + b,
    ensures
        gen_stmts(t, a + b, false) == match gen_stmts(t, a, false) {
            Some((c1, t1)) => match gen_stmts(t1, b, false) {
                Some((c2, t2)) => Some((c1 + c2, t2)),
                None => None,
            },
            None => None,
        },
    decreases a.len(), 0nat,
{
    match gen_stmt(t, a[0], false) {
        Some((c0, t0)) => {
            law_compile_concat(t0, a.drop_first(), b);
            match gen_stmts(t0, a.drop_first(), false) {
                Some((c1, t1)) => {
                    if let Some((c2, t2)) = gen_stmts(t1, b, false) {
                        assert(c0 + (c1 + c2) =~= (c0 + c1) + c2);
                    }
                },
                None => {},
            }
        },
        None => {},
    }
}

/// Resolving a name gives a slot that holds that name; resolving it again gives
/// the same slot and hands out nothing new.
pub proof fn law_resolve_is_stable(names: Seq<Seq<char>>, name: Seq<char>)
    requires
        distinct_strings(names),
        names.len() <= max_globals(),
        resolve_slot(names, name) is Some,
    ensures
        ({
            let (slot, after) = resolve_slot(names, name).unwrap();
            &&& (slot as int) < after.len() && after[slot as int] == name
            &&& resolve_slot(after, name) == Some((slot, after))
        }),
{
    lemma_index_of(names, name);
    let (slot, after) = resolve_slot(names, name).unwrap();
    if index_of(names, name) < 0 {
        assert(after[names.len() as int] == name);
        assert(after.last() == name);
        assert(index_of(after, name) == names.len());
    }
}

} // verus!

verus! {

/// The infix expression `left token right`.
pub open spec fn infix_expr(left: Expression, token: InfixOperatorToken, right: Expression) -> Expression {
    Expression::Infix(InfixExpression { operator_token: token, left: Box::new(left), right: Box::new(right) })
}

/// An infix operation compiles to the code of its left operand, then that of its
/// right operand, then the one instruction of its operator: `+` adds, `-`
/// subtracts, `*` multiplies, `/` divides, `>` compares with greater-than, `==`
/// and `!=` compare for equality and inequality.
pub proof fn law_infix_code(
    t: Tables,
    left: Expression,
    right: Expression,
    cl: Seq<u8>,
    t1: Tables,
    cr: Seq<u8>,
    t2: Tables,
)
    requires
        gen_expr(t, left) == Some((cl, t1)),
        gen_expr(t1, right) == Some((cr, t2)),
    ensures
        gen_expr(t, infix_expr(left, InfixOperatorToken::Plus, right)) == Some((cl + cr + encoding(Instruction::Add), t2)),
        gen_expr(t, infix_expr(left, InfixOperatorToken::Minus, right)) == Some((cl + cr + encoding(Instruction::Sub), t2)),
        gen_expr(t, infix_expr(left, InfixOperatorToken::Asterisk, right)) == Some((cl + cr + encoding(Instruction::Mul), t2)),
        gen_expr(t, infix_expr(left, InfixOperatorToken::Slash, right)) == Some((cl + cr + encoding(Instruction::Div), t2)),
        gen_expr(t, infix_expr(left, InfixOperatorToken::RightAngle, right))
            == Some((cl + cr + encoding(Instruction::GreaterThan), t2)),
        gen_expr(t, infix_expr(left, InfixOperatorToken::Eq, right)) == Some((cl + cr + encoding(Instruction::Equal), t2)),
        gen_expr(t, infix_expr(left, InfixOperatorToken::NotEq, right))
            == Some((cl + cr + encoding(Instruction::NotEqual), t2)),
{
}

/// `left < right` compiles as `right > left`: the code of the right operand,
/// then that of the left one, then greater-than.
pub proof fn law_less_than_code(
    t: Tables,
    left: Expression,
    right: Expression,
    cr: Seq<u8>,
    t1: Tables,
    cl: Seq<u8>,
    t2: Tables,
)
    requires
        gen_expr(t, right) == Some((cr, t1)),
        gen_expr(t1, left) == Some((cl, t2)),
    ensures
        gen_expr(t, infix_expr(left, InfixOperatorToken::LeftAngle, right))
            == Some((cr + cl + encoding(Instruction::GreaterThan), t2)),
{
}

/// Distinct operators other than `<` (which reuses `>` with its operands
/// swapped) compile to distinct instructions, so their code differs.
pub proof fn law_infix_instructions_distinct(p: InfixOperatorToken, q: InfixOperatorToken)
    requires
        p != q,
        p != InfixOperatorToken::LeftAngle,
        q != InfixOperatorToken::LeftAngle,
    ensures
        infix_instruction(p) != infix_instruction(q),
        encoding(infix_instruction(p)) != encoding(infix_instruction(q)),
{
    if encoding(infix_instruction(p)) == encoding(infix_instruction(q)) {
        crate::stages::code::law_encoding_injective(infix_instruction(p), infix_instruction(q));
    }
}

/// A prefix operation compiles to the code of its operand, followed by nothing
/// for `+`, by the negation instruction for `-` and by the logical-not
/// instruction for `!`.
pub proof fn law_prefix_code(t: Tables, right: Expression, c: Seq<u8>, t1: Tables)
    requires
        gen_expr(t, right) == Some((c, t1)),
    ensures
        gen_expr(t, Expression::Prefix(PrefixExpression { prefix_token: PrefixToken::Plus, right: Box::new(right) }))
            == Some((c, t1)),
        gen_expr(t, Expression::Prefix(PrefixExpression { prefix_token: PrefixToken::Minus, right: Box::new(right) }))
            == Some((c + encoding(Instruction::Negate), t1)),
        gen_expr(t, Expression::Prefix(PrefixExpression { prefix_token: PrefixToken::Bang, right: Box::new(right) }))
            == Some((c + encoding(Instruction::Bang), t1)),
        encoding(Instruction::Negate) != encoding(Instruction::Bang),
{
    if encoding(Instruction::Negate) == encoding(Instruction::Bang) {
        crate::stages::code::law_encoding_injective(Instruction::Negate, Instruction::Bang);
    }
}

} // verus!
