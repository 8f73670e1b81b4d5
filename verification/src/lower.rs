//! Lowering the typed syntax tree to the intermediate representation.
//!
//! A [`FunctionBuilder`] is positioned at a basic block and appends
//! instructions there. Lowering follows the grammar's structure; the functions
//! `lw_*` give, for a builder state and a node, the value of the node and the
//! state after it, or `None` where lowering stops on a broken assumption: an
//! empty block, a block ended twice, a `break` or `continue` outside a loop, a
//! value taken from an expression that never produces one, or a block left
//! without a terminator.
use vstd::prelude::*;

use crate::ast::typed::{Block, Expression, Function, If, Infix, Loop, Program, Statement};
use crate::ast::InfixOperation;
use crate::compiler::Compiler;
use crate::ident::{FunctionIdx, ScopedBinding};
use crate::ir::{
    self, binary_op, BasicBlock, BasicBlockIdx, BinaryOp, ConstantValue, Terminator,
    TerminatorView, Triple, TripleIdx, TripleRef, TripleView, Value,
};
use crate::ty::{FunctionSignature, Ty};

verus! {

/// A basic block under construction.
#[derive(Debug)]
pub struct BasicBlockBuilder {
    pub triples: Vec<Triple>,
    pub terminator: Option<Terminator>,
}

/// The model of a basic block under construction.
pub type BlockModel = (Seq<TripleView>, Option<TerminatorView>);

/// The model of a block under construction.
pub open spec fn block_model(b: BasicBlockBuilder) -> BlockModel {
    (b.triples@.map_values(|t: Triple| t@), match b.terminator {
        Some(t) => Some(t@),
        None => None,
    })
}

/// The model of a function under construction.
pub ghost struct BuilderView {
    pub blocks: Seq<BlockModel>,
    pub current: BasicBlockIdx,
    pub loops: Seq<(BasicBlockIdx, BasicBlockIdx)>,
    pub scope: Seq<(ScopedBinding, Ty)>,
}

/// The state after adding an instruction to the current block, and where it is.
pub open spec fn sb_add(b: BuilderView, t: TripleView) -> (TripleRef, BuilderView) {
    let c = b.current.0 as int;
    (
        TripleRef { basic_block: b.current, triple: TripleIdx(b.blocks[c].0.len() as usize) },
        BuilderView { blocks: b.blocks.update(c, (b.blocks[c].0.push(t), b.blocks[c].1)), ..b },
    )
}

/// The state after ending the current block, or `None` where it has ended already.
pub open spec fn sb_end(b: BuilderView, t: TerminatorView) -> Option<BuilderView> {
    let c = b.current.0 as int;
    if b.blocks[c].1 is Some {
        None
    } else {
        Some(BuilderView { blocks: b.blocks.update(c, (b.blocks[c].0, Some(t))), ..b })
    }
}

/// The state positioned at another block, or `None` where there is no such block.
pub open spec fn sb_goto(b: BuilderView, bb: BasicBlockIdx) -> Option<BuilderView> {
    if bb.0 < b.blocks.len() {
        Some(BuilderView { current: bb, ..b })
    } else {
        None
    }
}

/// A new empty block, and the state positioned at it.
pub open spec fn sb_push(b: BuilderView) -> (BasicBlockIdx, BuilderView) {
    let idx = BasicBlockIdx(b.blocks.len() as usize);
    (idx, BuilderView { blocks: b.blocks.push((Seq::empty(), None)), current: idx, ..b })
}

/// Lowering an expression: its value (`None` for one that never produces one)
/// and the state after it.
pub open spec fn lw_expr(b: BuilderView, e: Expression) -> Option<(Option<Value>, BuilderView)>
    decreases e,
{
    match e {
        Expression::Infix(x) => match lw_expr(b, *x.left) {
            Some((Some(l), b1)) => match lw_expr(b1, *x.right) {
                Some((Some(r), b2)) => {
                    let (t, b3) = sb_add(b2, TripleView::BinaryOp { lhs: l, rhs: r, op: binary_op(x.operation) });
                    Some((Some(Value::Triple(t)), b3))
                },
                _ => None,
            },
            _ => None,
        },
        Expression::Integer(x) => Some((Some(Value::Constant(ConstantValue::Integer(x.value))), b)),
        Expression::Boolean(x) => Some((Some(Value::Constant(ConstantValue::Boolean(x.value))), b)),
        Expression::Ident(x) => {
            let (t, b1) = sb_add(b, TripleView::Load(x.binding));
            Some((Some(Value::Triple(t)), b1))
        },
        Expression::Block(blk) => match lw_block(b, blk) {
            Some((v, b1)) => Some((Some(v), b1)),
            None => None,
        },
        Expression::If(x) => lw_if(b, x),
        Expression::Loop(x) => lw_loop(b, x),
        Expression::Call(x) => match lw_args(b, x.args@) {
            Some((vs, b1)) => {
                let (t, b2) = sb_add(b1, TripleView::Call(x.name, vs));
                Some((Some(Value::Triple(t)), b2))
            },
            None => None,
        },
        Expression::Assign(x) => match lw_expr(b, *x.value) {
            Some((Some(v), b1)) => Some((Some(Value::Unit), sb_add(b1, TripleView::Assign(x.binding, v)).1)),
            _ => None,
        },
        Expression::Cast(x) => lw_expr(b, *x.value),
        Expression::Index(x) => match lw_expr(b, *x.index) {
            Some((Some(i), b1)) => {
                let (t, b2) = sb_add(b1, TripleView::Index { value: x.value, index: i });
                Some((Some(Value::Triple(t)), b2))
            },
            Some((None, b1)) => Some((None, b1)),
            None => None,
        },
        Expression::Array(x) => {
            let (ptr, b1) = sb_add(b, TripleView::AllocArray(x.init@.len() as u32));
            match lw_items(b1, ptr, x.init@, 0) {
                Some(b2) => Some((Some(Value::Pointer(ptr)), b2)),
                None => None,
            }
        },
    }
}

/// Lowering call arguments in order: their values and the state after them.
pub open spec fn lw_args(b: BuilderView, es: Seq<Expression>) -> Option<(Seq<Value>, BuilderView)>
    decreases es,
{
    if es.len() == 0 {
        Some((Seq::empty(), b))
    } else {
        match lw_expr(b, es[0]) {
            Some((Some(v), b1)) => match lw_args(b1, es.drop_first()) {
                Some((vs, b2)) => Some((seq![v] + vs, b2)),
                None => None,
            },
            _ => None,
        }
    }
}

/// Lowering array items in order, each stored at its index (from `i`) of the
/// array that `ptr` allocated.
pub open spec fn lw_items(b: BuilderView, ptr: TripleRef, es: Seq<Expression>, i: int) -> Option<BuilderView>
    decreases es,
{
    if es.len() == 0 {
        Some(b)
    } else {
        match lw_expr(b, es[0]) {
            Some((Some(v), b1)) => {
                let b2 = sb_add(b1, TripleView::SetIndex { array_ptr: ptr, index: Value::Constant(ConstantValue::Integer(i as i64)), value: v }).1;
                lw_items(b2, ptr, es.drop_first(), i + 1)
            },
            _ => None,
        }
    }
}

/// The alternative branch of a conditional: its block, its branch target and
/// the values that reach the merge.
pub open spec fn lw_otherwise(
    b: BuilderView,
    x: If,
    merge: Option<BasicBlockIdx>,
    success: (Value, BasicBlockIdx),
) -> Option<((Option<BasicBlockIdx>, Seq<(Value, BasicBlockIdx)>), BuilderView)>
    decreases x, 0nat,
{
    match x.otherwise {
        Some(o) => {
            let (ob, b1) = sb_push(b);
            match lw_block(b1, o) {
                Some((ov, b2)) => {
                    let b3 = match merge {
                        Some(m) => sb_end(b2, TerminatorView::Jump(m)),
                        None => Some(b2),
                    };
                    match b3 {
                        Some(b4) => Some(((Some(ob), seq![success, (ov, ob)]), b4)),
                        None => None,
                    }
                },
                None => None,
            }
        },
        None => Some(((merge, seq![success]), b)),
    }
}

/// Lowering a conditional: the condition, then a switch to the success block
/// or, on `false`, to the alternative (or the merge block); both branches jump
/// to the merge block, where a phi node collects a value that is not unit.
pub open spec fn lw_if(b: BuilderView, x: If) -> Option<(Option<Value>, BuilderView)>
    decreases x, 1nat,
{
    match lw_expr(b, *x.condition) {
        Some((Some(cond), b1)) => {
            let condition_bb = b1.current;
            let (merge, b2) = if x.ty_info.ty is Never && x.otherwise is Some {
                (None, b1)
            } else {
                let (m, bm) = sb_push(b1);
                (Some(m), bm)
            };
            let (success_bb, b3) = sb_push(b2);
            match lw_block(b3, x.success) {
                Some((sv, b4)) => {
                    let b5 = if merge is Some && !(x.success.ty_info.ty is Never) {
                        sb_end(b4, TerminatorView::Jump(merge.unwrap()))
                    } else {
                        Some(b4)
                    };
                    match b5 {
                        Some(b6) => match lw_otherwise(b6, x, merge, (sv, success_bb)) {
                            Some(((branch, merge_values), b7)) => {
                                let branches = match branch {
                                    Some(bb) => seq![(Value::Constant(ConstantValue::Boolean(false)), bb)],
                                    None => Seq::empty(),
                                };
                                match sb_goto(b7, condition_bb) {
                                    Some(b8) => match sb_end(b8, TerminatorView::Switch { value: cond, default: success_bb, branches }) {
                                        Some(b9) => {
                                            let b10 = match merge {
                                                Some(m) => sb_goto(b9, m),
                                                None => Some(b9),
                                            };
                                            match b10 {
                                                Some(b11) => match x.ty_info.ty {
                                                    Ty::Unit => Some((Some(Value::Unit), b11)),
                                                    Ty::Never => Some((None, b11)),
                                                    _ => {
                                                        let (t, b12) = sb_add(b11, TripleView::Phi(merge_values));
                                                        Some((Some(Value::Triple(t)), b12))
                                                    },
                                                },
                                                None => None,
                                            }
                                        },
                                        None => None,
                                    },
                                    None => None,
                                }
                            },
                            None => None,
                        },
                        None => None,
                    }
                },
                None => None,
            }
        },
        _ => None,
    }
}

/// Lowering a loop: a jump into a new start block holding the body, which
/// jumps back to the start unless it has ended; lowering goes on in a new end
/// block, which `break` jumps to.
pub open spec fn lw_loop(b: BuilderView, x: Loop) -> Option<(Option<Value>, BuilderView)>
    decreases x, 1nat,
{
    let prev = b.current;
    let (start, b1) = sb_push(b);
    match sb_goto(b1, prev) {
        Some(b2) => match sb_end(b2, TerminatorView::Jump(start)) {
            Some(b3) => {
                let (end, b4) = sb_push(b3);
                let b5 = BuilderView { loops: b4.loops.push((start, end)), ..b4 };
                match sb_goto(b5, start) {
                    Some(b6) => match lw_block(b6, x.body) {
                        Some((_, b7)) => {
                            let b8 = if b7.blocks[b7.current.0 as int].1 is None {
                                sb_end(b7, TerminatorView::Jump(start))
                            } else {
                                Some(b7)
                            };
                            match b8 {
                                Some(b9) => if b9.loops.len() == b5.loops.len() {
                                    match sb_goto(BuilderView { loops: b9.loops.drop_last(), ..b9 }, end) {
                                        Some(b10) => Some((Some(Value::Unit), b10)),
                                        None => None,
                                    }
                                } else {
                                    None
                                },
                                None => None,
                            }
                        },
                        None => None,
                    },
                    None => None,
                }
            },
            None => None,
        },
        None => None,
    }
}

/// Lowering a block: its statements; its value is that of its last statement
/// when that is an expression whose type is not `Never`, and unit otherwise.
pub open spec fn lw_block(b: BuilderView, blk: Block) -> Option<(Value, BuilderView)>
    decreases blk,
{
    if blk.statements@.len() == 0 {
        None
    } else {
        lw_stmts(b, blk.statements@)
    }
}

/// Lowering statements in order.
pub open spec fn lw_stmts(b: BuilderView, ss: Seq<Statement>) -> Option<(Value, BuilderView)>
    decreases ss,
{
    if ss.len() == 0 {
        Some((Value::Unit, b))
    } else {
        match ss[0] {
            Statement::Return(r) => match lw_expr(b, r.value) {
                Some((Some(v), b1)) => match sb_end(b1, TerminatorView::Return(v)) {
                    Some(b2) => lw_stmts(b2, ss.drop_first()),
                    None => None,
                },
                _ => None,
            },
            Statement::Let(l) => {
                let b1 = BuilderView { scope: b.scope.push((l.binding, l.value.info().ty)), ..b };
                match lw_expr(b1, l.value) {
                    Some((Some(v), b2)) => lw_stmts(sb_add(b2, TripleView::Assign(l.binding, v)).1, ss.drop_first()),
                    _ => None,
                }
            },
            Statement::Break(_) => if b.loops.len() == 0 {
                None
            } else {
                match sb_end(b, TerminatorView::Jump(b.loops.last().1)) {
                    Some(b1) => lw_stmts(b1, ss.drop_first()),
                    None => None,
                }
            },
            Statement::Continue(_) => if b.loops.len() == 0 {
                None
            } else {
                match sb_end(b, TerminatorView::Jump(b.loops.last().0)) {
                    Some(b1) => lw_stmts(b1, ss.drop_first()),
                    None => None,
                }
            },
            Statement::ExpressionStatement(s) => match lw_expr(b, s.expression) {
                Some((r, b1)) => if ss.len() == 1 && !(s.ty_info.ty is Never) {
                    match r {
                        Some(v) => Some((v, b1)),
                        None => None,
                    }
                } else {
                    lw_stmts(b1, ss.drop_first())
                },
                None => None,
            },
        }
    }
}

/// The state of a builder made for a function, before anything is lowered.
pub open spec fn initial_view(f: Function) -> BuilderView {
    BuilderView { blocks: seq![(Seq::empty(), None)], current: BasicBlockIdx(0), loops: Seq::empty(), scope: f.parameters@ }
}

/// The state after copying the parameters from position `i` into their bindings.
pub open spec fn lw_params(b: BuilderView, ps: Seq<(ScopedBinding, Ty)>, i: int) -> BuilderView
    decreases ps.len() - i,
{
    if 0 <= i < ps.len() {
        lw_params(sb_add(b, TripleView::Assign(ps[i].0, Value::Parameter(i as usize))).1, ps, i + 1)
    } else {
        b
    }
}

/// The final state of lowering a function: its parameters, its body, and a
/// return of the body's value when that is not unit.
pub open spec fn lw_function(f: Function) -> Option<BuilderView> {
    match lw_block(lw_params(initial_view(f), f.parameters@, 0), f.body) {
        Some((v, b1)) => if v != Value::Unit {
            sb_end(b1, TerminatorView::Return(v))
        } else {
            Some(b1)
        },
        None => None,
    }
}

/// Every block of a state has ended.
pub open spec fn all_ended(b: BuilderView) -> bool {
    forall|k: int| 0 <= k < b.blocks.len() ==> (#[trigger] b.blocks[k]).1 is Some
}

/// The model of a lowered function.
pub ghost struct FunctionView {
    pub identifier: FunctionIdx,
    pub signature: (Seq<Ty>, Ty),
    pub blocks: Seq<(Seq<TripleView>, TerminatorView)>,
    pub scope: Seq<ScopedBinding>,
}

/// The model of a lowered function.
pub open spec fn ir_function_view(f: ir::Function) -> FunctionView {
    FunctionView {
        identifier: f.identifier,
        signature: (f.signature.arguments@, f.signature.return_ty),
        blocks: f.basic_blocks@.map_values(|bb: BasicBlock| (bb.triples@.map_values(|t: Triple| t@), bb.terminator@)),
        scope: f.scope@,
    }
}

/// The signature of a lowered function: the types of its parameters, in
/// order, and its return type.
pub open spec fn lowered_signature(f: Function) -> (Seq<Ty>, Ty) {
    (f.parameters@.map_values(|p: (ScopedBinding, Ty)| p.1), f.return_ty)
}

/// The lowered function that a final state gives.
pub open spec fn built(f: Function, b: BuilderView) -> FunctionView {
    FunctionView {
        identifier: f.name,
        signature: lowered_signature(f),
        blocks: b.blocks.map_values(|m: BlockModel| (m.0, m.1.unwrap())),
        scope: b.scope.map_values(|s: (ScopedBinding, Ty)| s.0),
    }
}

/// A function being lowered.
pub struct FunctionBuilder {
    idx: FunctionIdx,
    signature: FunctionSignature,
    basic_blocks: Vec<BasicBlockBuilder>,
    current_basic_block: BasicBlockIdx,
    loop_stack: Vec<(BasicBlockIdx, BasicBlockIdx)>,
    scope: Vec<(ScopedBinding, Ty)>,
    stuck: bool,
}

impl FunctionBuilder {
    /// The model of this builder.
    pub closed spec fn view_of(&self) -> BuilderView {
        BuilderView {
            blocks: self.basic_blocks@.map_values(|bb: BasicBlockBuilder| block_model(bb)),
            current: self.current_basic_block,
            loops: self.loop_stack@,
            scope: self.scope@,
        }
    }

    /// The builder is positioned at one of its blocks.
    pub closed spec fn wf(&self) -> bool {
        self.current_basic_block.0 < self.basic_blocks@.len()
    }

    /// The function this builder lowers.
    pub closed spec fn function_idx(&self) -> FunctionIdx {
        self.idx
    }

    /// The signature of the function this builder lowers: its parameter types
    /// and its return type.
    pub closed spec fn signature_of(&self) -> (Seq<Ty>, Ty) {
        (self.signature.arguments@, self.signature.return_ty)
    }

    /// Whether lowering met a step that it cannot take: ending a block that
    /// has ended, leaving no loop, or using a value that an expression never
    /// produces.
    pub closed spec fn stuck(&self) -> bool {
        self.stuck
    }

    /// Whether lowering met a step that it cannot take.
    pub fn is_stuck(&self) -> (r: bool)
        ensures
            r == self.stuck(),
    {
        self.stuck
    }

    /// Record that lowering met a step that it cannot take.
    fn get_stuck(&mut self)
        ensures
            final(self).wf() == old(self).wf(),
            final(self).function_idx() == old(self).function_idx(),
            final(self).signature_of() == old(self).signature_of(),
            final(self).view_of() == old(self).view_of(),
            final(self).stuck(),
    {
        self.stuck = true;
    }

    /// A builder for a function, positioned at its entry block.
    pub fn new(function: &Function) -> (r: FunctionBuilder)
        ensures
            r.wf(),
            r.view_of() == initial_view(*function),
            r.function_idx() == function.name,
            r.signature_of() == lowered_signature(*function),
            !r.stuck(),
    {
        let mut basic_blocks: Vec<BasicBlockBuilder> = Vec::new();
        basic_blocks.push(BasicBlockBuilder { triples: Vec::new(), terminator: None });
        let mut arguments: Vec<Ty> = Vec::new();
        let mut scope: Vec<(ScopedBinding, Ty)> = Vec::new();
        let mut i: usize = 0;
        while i < function.parameters.len()
            invariant
                i <= function.parameters.len(),
                scope@ =~= function.parameters@.take(i as int),
                arguments@ =~= function.parameters@.take(i as int).map_values(|p: (ScopedBinding, Ty)| p.1),
            decreases function.parameters.len() - i,
        {
            let ty = function.parameters[i].1.duplicate();
            arguments.push(function.parameters[i].1.duplicate());
            scope.push((function.parameters[i].0, ty));
            i = i + 1;
        }
        assert(scope@ =~= function.parameters@);
        assert(function.parameters@.take(i as int) =~= function.parameters@);
        let r = FunctionBuilder {
            idx: function.name,
            signature: FunctionSignature { arguments, return_ty: function.return_ty.duplicate() },
            basic_blocks,
            current_basic_block: BasicBlockIdx(0),
            loop_stack: Vec::new(),
            scope,
            stuck: false,
        };
        assert(block_model(r.basic_blocks@[0]).0 =~= Seq::<TripleView>::empty());
        assert(r.view_of().blocks =~= seq![(Seq::<TripleView>::empty(), None::<TerminatorView>)]);
        assert(r.view_of().loops =~= Seq::<(BasicBlockIdx, BasicBlockIdx)>::empty());
        r
    }

    /// Register a binding of the function's scope.
    pub fn register_scoped(&mut self, ident: ScopedBinding, ty: Ty)
        ensures
            final(self).wf() == old(self).wf(),
            final(self).function_idx() == old(self).function_idx(),
            final(self).signature_of() == old(self).signature_of(),
            final(self).stuck() == old(self).stuck(),
            final(self).view_of() == (BuilderView { scope: old(self).view_of().scope.push((ident, ty)), ..old(self).view_of() }),
    {
        self.scope.push((ident, ty));
    }

    /// Add an instruction to the current block, giving where it is.
    pub fn add_triple(&mut self, triple: Triple) -> (r: TripleRef)
        requires
            old(self).wf(),
        ensures
            final(self).wf(),
            final(self).function_idx() == old(self).function_idx(),
            final(self).signature_of() == old(self).signature_of(),
            final(self).stuck() == old(self).stuck(),
            (r, final(self).view_of()) == sb_add(old(self).view_of(), triple@),
    {
        let c = self.current_basic_block.0;
        let ghost tv = triple@;
        let ghost old_blocks = self.basic_blocks@;
        let index = self.basic_blocks[c].triples.len();
        self.basic_blocks[c].triples.push(triple);
        proof {
            let m = block_model(self.basic_blocks@[c as int]);
            assert(m.0 =~= block_model(old_blocks[c as int]).0.push(tv));
            assert(self.basic_blocks@.map_values(|bb: BasicBlockBuilder| block_model(bb)) =~= old(self).view_of().blocks.update(
                c as int,
                (old(self).view_of().blocks[c as int].0.push(tv), old(self).view_of().blocks[c as int].1),
            ));
        }
        TripleRef { basic_block: BasicBlockIdx(c), triple: TripleIdx(index) }
    }

    /// End the current block. It must not have ended before.
    pub fn set_terminator(&mut self, terminator: Terminator)
        requires
            old(self).wf(),
            sb_end(old(self).view_of(), terminator@) is Some,
        ensures
            final(self).wf(),
            final(self).function_idx() == old(self).function_idx(),
            final(self).signature_of() == old(self).signature_of(),
            final(self).stuck() == old(self).stuck(),
            Some(final(self).view_of()) == sb_end(old(self).view_of(), terminator@),
    {
        let c = self.current_basic_block.0;
        let ghost tv = terminator@;
        self.basic_blocks[c].terminator = Some(terminator);
        proof {
            assert(self.basic_blocks@.map_values(|bb: BasicBlockBuilder| block_model(bb)) =~= old(self).view_of().blocks.update(
                c as int,
                (old(self).view_of().blocks[c as int].0, Some(tv)),
            ));
        }
    }

    /// Whether the current block has ended.
    pub fn current_ended(&self) -> (r: bool)
        requires
            self.wf(),
        ensures
            r == (self.view_of().blocks[self.view_of().current.0 as int].1 is Some),
    {
        self.basic_blocks[self.current_basic_block.0].terminator.is_some()
    }

    /// The block the builder is positioned at.
    pub fn current_bb(&self) -> (r: BasicBlockIdx)
        ensures
            r == self.view_of().current,
    {
        self.current_basic_block
    }

    /// Position the builder at a block, which must exist.
    pub fn goto_bb(&mut self, bb: BasicBlockIdx)
        requires
            sb_goto(old(self).view_of(), bb) is Some,
        ensures
            final(self).wf(),
            final(self).function_idx() == old(self).function_idx(),
            final(self).signature_of() == old(self).signature_of(),
            final(self).stuck() == old(self).stuck(),
            Some(final(self).view_of()) == sb_goto(old(self).view_of(), bb),
    {
        self.current_basic_block = bb;
    }

    /// End the current block, or get stuck where it has ended already.
    fn end_block(&mut self, terminator: Terminator)
        requires
            old(self).wf(),
        ensures
            final(self).wf(),
            final(self).function_idx() == old(self).function_idx(),
            final(self).signature_of() == old(self).signature_of(),
            match sb_end(old(self).view_of(), terminator@) {
                Some(v) => final(self).view_of() == v && final(self).stuck() == old(self).stuck(),
                None => final(self).stuck(),
            },
    {
        if self.current_ended() {
            self.get_stuck();
        } else {
            self.set_terminator(terminator);
        }
    }

    /// Position the builder at a block, or get stuck where there is no such block.
    fn go_to(&mut self, bb: BasicBlockIdx)
        requires
            old(self).wf(),
        ensures
            final(self).wf(),
            final(self).function_idx() == old(self).function_idx(),
            final(self).signature_of() == old(self).signature_of(),
            match sb_goto(old(self).view_of(), bb) {
                Some(v) => final(self).view_of() == v && final(self).stuck() == old(self).stuck(),
                None => final(self).stuck(),
            },
    {
        if bb.0 < self.basic_blocks.len() {
            self.goto_bb(bb);
        } else {
            self.get_stuck();
        }
    }

    /// Add an empty block, and position the builder at it.
    pub fn push_bb(&mut self) -> (r: BasicBlockIdx)
        ensures
            final(self).wf(),
            final(self).function_idx() == old(self).function_idx(),
            final(self).signature_of() == old(self).signature_of(),
            final(self).stuck() == old(self).stuck(),
            (r, final(self).view_of()) == sb_push(old(self).view_of()),
    {
        let idx = BasicBlockIdx(self.basic_blocks.len());
        let ghost before = self.basic_blocks@;
        self.basic_blocks.push(BasicBlockBuilder { triples: Vec::new(), terminator: None });
        self.current_basic_block = idx;
        proof {
            assert(block_model(self.basic_blocks@.last()).0 =~= Seq::<TripleView>::empty());
            assert(self.basic_blocks@.map_values(|bb: BasicBlockBuilder| block_model(bb)) =~= old(self).view_of().blocks.push(
                (Seq::<TripleView>::empty(), None::<TerminatorView>),
            ));
        }
        idx
    }

    /// Enter a loop whose start and end blocks are given.
    fn push_loop(&mut self, start: BasicBlockIdx, end: BasicBlockIdx)
        ensures
            final(self).wf() == old(self).wf(),
            final(self).function_idx() == old(self).function_idx(),
            final(self).signature_of() == old(self).signature_of(),
            final(self).stuck() == old(self).stuck(),
            final(self).view_of() == (BuilderView { loops: old(self).view_of().loops.push((start, end)), ..old(self).view_of() }),
    {
        self.loop_stack.push((start, end));
    }

    /// Leave the innermost loop.
    fn pop_loop(&mut self)
        requires
            old(self).view_of().loops.len() > 0,
        ensures
            final(self).wf() == old(self).wf(),
            final(self).function_idx() == old(self).function_idx(),
            final(self).signature_of() == old(self).signature_of(),
            final(self).stuck() == old(self).stuck(),
            final(self).view_of() == (BuilderView { loops: old(self).view_of().loops.drop_last(), ..old(self).view_of() }),
    {
        let _ = self.loop_stack.pop();
        assert(self.loop_stack@ =~= old(self).loop_stack@.drop_last());
    }

    /// The number of loops entered and not left.
    fn loop_depth(&self) -> (r: usize)
        ensures
            r == self.view_of().loops.len(),
    {
        self.loop_stack.len()
    }

    /// The start and end blocks of the innermost loop, if any.
    fn innermost_loop(&self) -> (r: Option<(BasicBlockIdx, BasicBlockIdx)>)
        ensures
            match r {
                Some(l) => self.view_of().loops.len() > 0 && l == self.view_of().loops.last(),
                None => self.view_of().loops.len() == 0,
            },
    {
        if self.loop_stack.len() == 0 {
            None
        } else {
            Some(self.loop_stack[self.loop_stack.len() - 1])
        }
    }

    /// Whether every block has ended.
    fn all_blocks_ended(&self) -> (r: bool)
        ensures
            r == all_ended(self.view_of()),
    {
        let mut k: usize = 0;
        while k < self.basic_blocks.len()
            invariant
                k <= self.basic_blocks@.len(),
                forall|j: int| 0 <= j < k ==> (#[trigger] self.view_of().blocks[j]).1 is Some,
            decreases self.basic_blocks@.len() - k,
        {
            if self.basic_blocks[k].terminator.is_none() {
                assert(self.view_of().blocks[k as int].1 is None);
                return false;
            }
            k = k + 1;
        }
        true
    }

    /// The lowered function. Every block must have ended.
    pub fn build(self, function: &Function) -> (r: ir::Function)
        requires
            all_ended(self.view_of()),
            self.function_idx() == function.name,
            self.signature_of() == lowered_signature(*function),
        ensures
            ir_function_view(r) == built(*function, self.view_of()),
    {
        let ghost v = self.view_of();
        let FunctionBuilder { idx, signature, basic_blocks, current_basic_block: _, loop_stack: _, scope, stuck: _ } = self;
        let mut source = basic_blocks;
        let ghost models = source@.map_values(|bb: BasicBlockBuilder| block_model(bb));
        let mut blocks: Vec<BasicBlock> = Vec::new();
        let mut k: usize = 0;
        let n = source.len();
        assert(models.len() == n);
        while k < n
            invariant
                n == source@.len(),
                k <= n,
                models == v.blocks,
                models.len() == n,
                forall|j: int| k <= j < n ==> block_model(#[trigger] source@[j]) == models[j],
                all_ended(v),
                blocks@.map_values(|bb: BasicBlock| (bb.triples@.map_values(|t: Triple| t@), bb.terminator@))
                    =~= v.blocks.map_values(|m: BlockModel| (m.0, m.1.unwrap())).take(k as int),
            decreases n - k,
        {
            assert(models.len() == n);
            assert(0 <= k < v.blocks.len());
            assert(v.blocks[k as int].1 is Some);
            let ghost m = block_model(source@[k as int]);
            assert(m == models[k as int]);
            let mut triples: Vec<Triple> = Vec::new();
            std::mem::swap(&mut triples, &mut source[k].triples);
            let mut terminator: Option<Terminator> = None;
            std::mem::swap(&mut terminator, &mut source[k].terminator);
            let terminator = match terminator {
                Some(t) => t,
                None => {
                    proof {
                        assert(false);
                    }
                    Terminator::Return(Value::Unit)
                },
            };
            assert(triples@.map_values(|t: Triple| t@) == m.0);
            assert(Some(terminator@) == m.1);
            let ghost before = blocks@;
            let ghost built_block = (triples@.map_values(|t: Triple| t@), terminator@);
            blocks.push(BasicBlock { triples, terminator });
            assert(blocks@.map_values(|bb: BasicBlock| (bb.triples@.map_values(|t: Triple| t@), bb.terminator@))
                =~= before.map_values(|bb: BasicBlock| (bb.triples@.map_values(|t: Triple| t@), bb.terminator@)).push(built_block));
            assert(v.blocks.map_values(|m: BlockModel| (m.0, m.1.unwrap()))[k as int] == built_block);
            assert(blocks@.map_values(|bb: BasicBlock| (bb.triples@.map_values(|t: Triple| t@), bb.terminator@))
                =~= v.blocks.map_values(|m: BlockModel| (m.0, m.1.unwrap())).take(k + 1));
            k = k + 1;
        }
        let mut names: Vec<ScopedBinding> = Vec::new();
        let mut i: usize = 0;
        while i < scope.len()
            invariant
                i <= scope@.len(),
                names@ =~= scope@.take(i as int).map_values(|s: (ScopedBinding, Ty)| s.0),
            decreases scope.len() - i,
        {
            names.push(scope[i].0);
            i = i + 1;
        }
        assert(v.blocks.map_values(|m: BlockModel| (m.0, m.1.unwrap())).take(n as int)
            =~= v.blocks.map_values(|m: BlockModel| (m.0, m.1.unwrap())));
        assert(scope@.take(i as int) =~= scope@);
        ir::Function { identifier: idx, signature, basic_blocks: blocks, scope: names }
    }
}

/// The contract of a lowering step from `b0` to `b1` giving `v`: the builder
/// stays positioned at a block; where `g` is an outcome, it is the value and
/// state, and the builder is not stuck; where lowering cannot take a step, the
/// builder is stuck.
pub open spec fn lowered<V>(b0: FunctionBuilder, b1: FunctionBuilder, v: V, g: Option<(V, BuilderView)>) -> bool {
    &&& b1.wf()
    &&& b1.function_idx() == b0.function_idx()
    &&& b1.signature_of() == b0.signature_of()
    &&& match g {
        Some(_) => !b1.stuck() && g == Some((v, b1.view_of())),
        None => b1.stuck(),
    }
}

/// Lower an expression into the current block; `None` for an expression that
/// never produces a value.
pub fn lower_expression(compiler: &mut Compiler, builder: &mut FunctionBuilder, expression: &Expression) -> (r: Option<Value>)
    requires
        old(builder).wf(),
        !old(builder).stuck(),
    ensures
        lowered(*old(builder), *final(builder), r, lw_expr(old(builder).view_of(), *expression)),
    decreases expression, 2nat,
{
    match expression {
        Expression::Infix(x) => {
            let lhs = match lower_expression(compiler, builder, &x.left) {
                Some(v) => v,
                None => {
                    builder.get_stuck();
                    return None;
                },
            };
            if builder.is_stuck() {
                return None;
            }
            let rhs = match lower_expression(compiler, builder, &x.right) {
                Some(v) => v,
                None => {
                    builder.get_stuck();
                    return None;
                },
            };
            if builder.is_stuck() {
                return None;
            }
            let op = BinaryOp::from(x.operation);
            Some(Value::Triple(builder.add_triple(Triple::BinaryOp { lhs, rhs, op })))
        },
        Expression::Integer(x) => Some(Value::integer(x.value)),
        Expression::Boolean(x) => Some(Value::boolean(x.value)),
        Expression::Ident(x) => Some(Value::Triple(builder.add_triple(Triple::Load(x.binding)))),
        Expression::Block(blk) => Some(lower_block(compiler, builder, blk)),
        Expression::If(x) => lower_if(compiler, builder, x),
        Expression::Loop(x) => lower_loop(compiler, builder, x),
        Expression::Call(x) => {
            let params = lower_args(compiler, builder, &x.args);
            if builder.is_stuck() {
                return None;
            }
            Some(Value::Triple(builder.add_triple(Triple::Call(x.name, params))))
        },
        Expression::Assign(x) => {
            let value = match lower_expression(compiler, builder, &x.value) {
                Some(v) => v,
                None => {
                    builder.get_stuck();
                    return None;
                },
            };
            if builder.is_stuck() {
                return None;
            }
            let _ = builder.add_triple(Triple::Assign(x.binding, value));
            Some(Value::Unit)
        },
        Expression::Cast(x) => lower_expression(compiler, builder, &x.value),
        Expression::Index(x) => {
            let index = match lower_expression(compiler, builder, &x.index) {
                Some(v) => v,
                None => {
                    return None;
                },
            };
            if builder.is_stuck() {
                return None;
            }
            Some(Value::Triple(builder.add_triple(Triple::Index { value: x.value, index })))
        },
        Expression::Array(x) => {
            let ptr = builder.add_triple(Triple::AllocArray(x.init.len() as u32));
            lower_items(compiler, builder, ptr, &x.init);
            Some(Value::Pointer(ptr))
        },
    }
}

/// Lower call arguments in order, giving their values.
fn lower_args(compiler: &mut Compiler, builder: &mut FunctionBuilder, args: &Vec<Expression>) -> (r: Vec<Value>)
    requires
        old(builder).wf(),
        !old(builder).stuck(),
    ensures
        lowered(*old(builder), *final(builder), r@, lw_args(old(builder).view_of(), args@)),
    decreases args, 1nat,
{
    let mut values: Vec<Value> = Vec::new();
    let ghost all = args@;
    let mut i: usize = 0;
    assert(all.skip(0) =~= all);
    while i < args.len()
        invariant
            i <= args@.len(),
            all == args@,
            builder.wf(),
            builder.function_idx() == old(builder).function_idx(),
            builder.signature_of() == old(builder).signature_of(),
            !builder.stuck(),
            lw_args(old(builder).view_of(), all) == match lw_args(builder.view_of(), all.skip(i as int)) {
                Some((vs, b)) => Some((values@ + vs, b)),
                None => None,
            },
        decreases args@.len() - i,
    {
        assert(all.skip(i as int)[0] == all[i as int]);
        assert(all.skip(i as int).drop_first() =~= all.skip(i + 1));
        let ghost before = values@;
        match lower_expression(compiler, builder, &args[i]) {
            Some(v) => {
                if builder.is_stuck() {
                    return values;
                }
                values.push(v);
                proof {
                    if let Some((vs, b)) = lw_args(builder.view_of(), all.skip(i + 1)) {
                        assert(before + (seq![v] + vs) =~= values@ + vs);
                    }
                }
            },
            None => {
                builder.get_stuck();
                return values;
            },
        }
        i = i + 1;
    }
    assert(all.skip(i as int) =~= Seq::<Expression>::empty());
    assert(values@ + Seq::<Value>::empty() =~= values@);
    values
}

/// Lower array items in order, storing each at its index of the array `ptr`.
fn lower_items(compiler: &mut Compiler, builder: &mut FunctionBuilder, ptr: TripleRef, items: &Vec<Expression>)
    requires
        old(builder).wf(),
        !old(builder).stuck(),
    ensures
        lowered(*old(builder), *final(builder), (), match lw_items(old(builder).view_of(), ptr, items@, 0) {
            Some(b) => Some(((), b)),
            None => None,
        }),
    decreases items, 1nat,
{
    let ghost all = items@;
    let mut i: usize = 0;
    assert(all.skip(0) =~= all);
    while i < items.len()
        invariant
            i <= items@.len(),
            all == items@,
            builder.wf(),
            builder.function_idx() == old(builder).function_idx(),
            builder.signature_of() == old(builder).signature_of(),
            !builder.stuck(),
            lw_items(old(builder).view_of(), ptr, all, 0) == lw_items(builder.view_of(), ptr, all.skip(i as int), i as int),
        decreases items@.len() - i,
    {
        assert(all.skip(i as int)[0] == all[i as int]);
        assert(all.skip(i as int).drop_first() =~= all.skip(i + 1));
        match lower_expression(compiler, builder, &items[i]) {
            Some(value) => {
                if builder.is_stuck() {
                    return;
                }
                let _ = builder.add_triple(Triple::SetIndex { array_ptr: ptr, index: Value::integer(i as i64), value });
            },
            None => {
                builder.get_stuck();
                return;
            },
        }
        i = i + 1;
    }
    assert(all.skip(i as int) =~= Seq::<Expression>::empty());
}

/// Lower the alternative branch of a conditional.
fn lower_otherwise(
    compiler: &mut Compiler,
    builder: &mut FunctionBuilder,
    x: &If,
    merge_bb: Option<BasicBlockIdx>,
    success: (Value, BasicBlockIdx),
) -> (r: (Option<BasicBlockIdx>, Vec<(Value, BasicBlockIdx)>))
    requires
        old(builder).wf(),
        !old(builder).stuck(),
    ensures
        lowered(*old(builder), *final(builder), (r.0, r.1@), lw_otherwise(old(builder).view_of(), *x, merge_bb, success)),
    decreases x, 0nat,
{
    let mut merge_values: Vec<(Value, BasicBlockIdx)> = Vec::new();
    merge_values.push(success);
    match &x.otherwise {
        Some(o) => {
            let ob = builder.push_bb();
            let ov = lower_block(compiler, builder, o);
            if builder.is_stuck() {
                return (None, merge_values);
            }
            match merge_bb {
                Some(m) => builder.end_block(Terminator::Jump(m)),
                None => {},
            }
            merge_values.push((ov, ob));
            assert(merge_values@ =~= seq![success, (ov, ob)]);
            (Some(ob), merge_values)
        },
        None => {
            assert(merge_values@ =~= seq![success]);
            (merge_bb, merge_values)
        },
    }
}

/// Lower a conditional.
fn lower_if(compiler: &mut Compiler, builder: &mut FunctionBuilder, x: &If) -> (r: Option<Value>)
    requires
        old(builder).wf(),
        !old(builder).stuck(),
    ensures
        lowered(*old(builder), *final(builder), r, lw_if(old(builder).view_of(), *x)),
    decreases x, 1nat,
{
    let condition = match lower_expression(compiler, builder, &x.condition) {
        Some(v) => v,
        None => {
            builder.get_stuck();
            return None;
        },
    };
    if builder.is_stuck() {
        return None;
    }
    let condition_bb = builder.current_bb();
    let merge_bb = if matches!(x.ty_info.ty, Ty::Never) && x.otherwise.is_some() {
        None
    } else {
        Some(builder.push_bb())
    };
    let success_bb = builder.push_bb();
    let success_value = lower_block(compiler, builder, &x.success);
    if builder.is_stuck() {
        return None;
    }
    match merge_bb {
        Some(m) => if !matches!(x.success.ty_info.ty, Ty::Never) {
            builder.end_block(Terminator::Jump(m));
        },
        None => {},
    }
    if builder.is_stuck() {
        return None;
    }
    let (branch, merge_values) = lower_otherwise(compiler, builder, x, merge_bb, (success_value, success_bb));
    if builder.is_stuck() {
        return None;
    }
    let mut branches: Vec<(Value, BasicBlockIdx)> = Vec::new();
    match branch {
        Some(bb) => branches.push((Value::boolean(false), bb)),
        None => {},
    }
    assert(branches@ =~= match branch {
        Some(bb) => seq![(Value::Constant(ConstantValue::Boolean(false)), bb)],
        None => Seq::<(Value, BasicBlockIdx)>::empty(),
    });
    builder.go_to(condition_bb);
    if builder.is_stuck() {
        return None;
    }
    builder.end_block(Terminator::Switch { value: condition, default: success_bb, branches });
    if builder.is_stuck() {
        return None;
    }
    match merge_bb {
        Some(m) => builder.go_to(m),
        None => {},
    }
    if builder.is_stuck() {
        return None;
    }
    match x.ty_info.ty {
        Ty::Unit => Some(Value::Unit),
        Ty::Never => None,
        _ => Some(Value::Triple(builder.add_triple(Triple::Phi(merge_values)))),
    }
}

/// Lower a loop.
fn lower_loop(compiler: &mut Compiler, builder: &mut FunctionBuilder, x: &Loop) -> (r: Option<Value>)
    requires
        old(builder).wf(),
        !old(builder).stuck(),
    ensures
        lowered(*old(builder), *final(builder), r, lw_loop(old(builder).view_of(), *x)),
    decreases x, 1nat,
{
    let prev = builder.current_bb();
    let loop_start = builder.push_bb();
    builder.go_to(prev);
    if builder.is_stuck() {
        return None;
    }
    builder.end_block(Terminator::Jump(loop_start));
    if builder.is_stuck() {
        return None;
    }
    let loop_end = builder.push_bb();
    builder.push_loop(loop_start, loop_end);
    let loop_count = builder.loop_depth();
    builder.go_to(loop_start);
    if builder.is_stuck() {
        return None;
    }
    let _ = lower_block(compiler, builder, &x.body);
    if builder.is_stuck() {
        return None;
    }
    if !builder.current_ended() {
        builder.end_block(Terminator::Jump(loop_start));
    }
    if builder.loop_depth() != loop_count {
        builder.get_stuck();
        return None;
    }
    builder.pop_loop();
    builder.go_to(loop_end);
    if builder.is_stuck() {
        return None;
    }
    Some(Value::Unit)
}

/// Lower a block, giving its value.
fn lower_block(compiler: &mut Compiler, builder: &mut FunctionBuilder, block: &Block) -> (r: Value)
    requires
        old(builder).wf(),
        !old(builder).stuck(),
    ensures
        lowered(*old(builder), *final(builder), r, lw_block(old(builder).view_of(), *block)),
    decreases block, 2nat,
{
    if block.statements.len() == 0 {
        builder.get_stuck();
        return Value::Unit;
    }
    let last_statement = block.statements.len() - 1;
    let ghost all = block.statements@;
    let mut i: usize = 0;
    assert(all.skip(0) =~= all);
    while i < block.statements.len()
        invariant
            i <= block.statements@.len(),
            last_statement + 1 == block.statements@.len(),
            all == block.statements@,
            builder.wf(),
            !builder.stuck(),
            builder.function_idx() == old(builder).function_idx(),
            builder.signature_of() == old(builder).signature_of(),
            lw_block(old(builder).view_of(), *block) == lw_stmts(builder.view_of(), all.skip(i as int)),
        decreases block.statements@.len() - i,
    {
        assert(all.skip(i as int)[0] == all[i as int]);
        assert(all.skip(i as int).drop_first() =~= all.skip(i + 1));
        assert(all.skip(i as int).len() == 1 <==> i == last_statement);
        match &block.statements[i] {
            Statement::Return(s) => {
                let value = match lower_expression(compiler, builder, &s.value) {
                    Some(v) => v,
                    None => {
                        builder.get_stuck();
                        return Value::Unit;
                    },
                };
                if builder.is_stuck() {
                    return Value::Unit;
                }
                builder.end_block(Terminator::Return(value));
                if builder.is_stuck() {
                    return Value::Unit;
                }
            },
            Statement::Let(s) => {
                let ty = s.value.get_ty_info().ty.duplicate();
                builder.register_scoped(s.binding, ty);
                let value = match lower_expression(compiler, builder, &s.value) {
                    Some(v) => v,
                    None => {
                        builder.get_stuck();
                        return Value::Unit;
                    },
                };
                if builder.is_stuck() {
                    return Value::Unit;
                }
                let _ = builder.add_triple(Triple::Assign(s.binding, value));
            },
            Statement::Break(_) => match builder.innermost_loop() {
                Some((_, loop_end)) => {
                    builder.end_block(Terminator::Jump(loop_end));
                    if builder.is_stuck() {
                        return Value::Unit;
                    }
                },
                None => {
                    builder.get_stuck();
                    return Value::Unit;
                },
            },
            Statement::Continue(_) => match builder.innermost_loop() {
                Some((loop_start, _)) => {
                    builder.end_block(Terminator::Jump(loop_start));
                    if builder.is_stuck() {
                        return Value::Unit;
                    }
                },
                None => {
                    builder.get_stuck();
                    return Value::Unit;
                },
            },
            Statement::ExpressionStatement(s) => {
                let result = lower_expression(compiler, builder, &s.expression);
                if builder.is_stuck() {
                    return Value::Unit;
                }
                if i == last_statement && !matches!(s.ty_info.ty, Ty::Never) {
                    match result {
                        Some(v) => {
                            return v;
                        },
                        None => {
                            builder.get_stuck();
                            return Value::Unit;
                        },
                    }
                }
            },
        }
        i = i + 1;
    }
    assert(all.skip(i as int) =~= Seq::<Statement>::empty());
    Value::Unit
}

/// Lower a function, or give `None` where lowering cannot take a step or
/// leaves a block without an end.
pub fn try_lower_function(compiler: &mut Compiler, function: &Function) -> (r: Option<ir::Function>)
    ensures
        match r {
            Some(f) => lw_function(*function) matches Some(b) && all_ended(b) && ir_function_view(f) == built(*function, b),
            None => !lowerable(*function),
        },
{
    let mut builder = FunctionBuilder::new(function);
    let ghost ps = function.parameters@;
    let mut i: usize = 0;
    while i < function.parameters.len()
        invariant
            i <= ps.len(),
            ps == function.parameters@,
            builder.wf(),
            !builder.stuck(),
            builder.function_idx() == function.name,
            builder.signature_of() == lowered_signature(*function),
            lw_params(initial_view(*function), ps, 0) == lw_params(builder.view_of(), ps, i as int),
        decreases ps.len() - i,
    {
        let _ = builder.add_triple(Triple::Assign(function.parameters[i].0, Value::Parameter(i)));
        i = i + 1;
    }
    let value = lower_block(compiler, &mut builder, &function.body);
    if builder.is_stuck() {
        return None;
    }
    if value != Value::Unit {
        builder.end_block(Terminator::Return(value));
        if builder.is_stuck() {
            return None;
        }
    }
    if !builder.all_blocks_ended() {
        return None;
    }
    Some(builder.build(function))
}

/// Lower a function.
pub fn lower_function(compiler: &mut Compiler, function: &Function) -> (r: ir::Function)
    requires
        lw_function(*function) matches Some(b) && all_ended(b),
    ensures
        lw_function(*function) matches Some(b) && ir_function_view(r) == built(*function, b),
{
    match try_lower_function(compiler, function) {
        Some(f) => f,
        None => {
            proof {
                assert(false);
            }
            ir::Function {
                identifier: function.name,
                signature: FunctionSignature { arguments: Vec::new(), return_ty: Ty::Unit },
                basic_blocks: Vec::new(),
                scope: Vec::new(),
            }
        },
    }
}

/// The lowered functions that a list of functions gives, in order.
pub open spec fn lowered_functions(fs: Seq<Function>) -> Seq<Option<FunctionView>> {
    fs.map_values(|f: Function| match lw_function(f) {
        Some(b) => if all_ended(b) { Some(built(f, b)) } else { None },
        None => None,
    })
}

/// A function can be lowered: lowering reaches a state where every block has ended.
pub open spec fn lowerable(f: Function) -> bool {
    lw_function(f) matches Some(b) && all_ended(b)
}

/// Lower a program: its `main` function first, then the others in order; or
/// `None` where one of them cannot be lowered.
pub fn try_lower(compiler: &mut Compiler, program: &Program) -> (r: Option<Vec<ir::Function>>)
    ensures
        match r {
            Some(fs) => {
                &&& lowerable(program.main)
                &&& forall|i: int| 0 <= i < program.functions@.len() ==> lowerable(#[trigger] program.functions@[i])
                &&& fs@.len() == program.functions@.len() + 1
                &&& Some(ir_function_view(fs@[0])) == lowered_functions(seq![program.main])[0]
                &&& forall|i: int| 0 <= i < program.functions@.len() ==>
                    Some(ir_function_view(#[trigger] fs@[i + 1])) == lowered_functions(program.functions@)[i]
            },
            None => !lowerable(program.main)
                || exists|i: int| 0 <= i < program.functions@.len() && !lowerable(#[trigger] program.functions@[i]),
        },
{
    let mut out: Vec<ir::Function> = Vec::new();
    match try_lower_function(compiler, &program.main) {
        Some(f) => out.push(f),
        None => {
            return None;
        },
    }
    let mut i: usize = 0;
    while i < program.functions.len()
        invariant
            i <= program.functions@.len(),
            out@.len() == i + 1,
            lowerable(program.main),
            forall|j: int| 0 <= j < i ==> lowerable(#[trigger] program.functions@[j]),
            Some(ir_function_view(out@[0])) == lowered_functions(seq![program.main])[0],
            forall|j: int| 0 <= j < i ==>
                Some(ir_function_view(#[trigger] out@[j + 1])) == lowered_functions(program.functions@)[j],
        decreases program.functions@.len() - i,
    {
        match try_lower_function(compiler, &program.functions[i]) {
            Some(f) => out.push(f),
            None => {
                assert(!lowerable(program.functions@[i as int]));
                return None;
            },
        }
        i = i + 1;
    }
    Some(out)
}

/// Lower a program: its `main` function first, then the others in order.
pub fn lower(compiler: &mut Compiler, program: &Program) -> (r: Vec<ir::Function>)
    requires
        lowerable(program.main),
        forall|i: int| 0 <= i < program.functions@.len() ==> lowerable(#[trigger] program.functions@[i]),
    ensures
        r@.len() == program.functions@.len() + 1,
        Some(ir_function_view(r@[0])) == lowered_functions(seq![program.main])[0],
        forall|i: int| 0 <= i < program.functions@.len() ==>
            Some(ir_function_view(#[trigger] r@[i + 1])) == lowered_functions(program.functions@)[i],
{
    match try_lower(compiler, program) {
        Some(fs) => fs,
        None => {
            proof {
                assert(false);
            }
            Vec::new()
        },
    }
}

/// Lowering an infix expression lowers its left operand, then its right one,
/// and appends to the current block one binary operation on their two values,
/// whose operator means what the infix operator means: `+` adds, `-`
/// subtracts, `*` multiplies, `/` divides, and each comparison and logical
/// operator keeps its meaning. The value of the expression is that instruction.
pub proof fn law_lower_infix(b: BuilderView, x: Infix, l: Value, b1: BuilderView, r: Value, b2: BuilderView)
    requires
        lw_expr(b, *x.left) == Some((Some(l), b1)),
        lw_expr(b1, *x.right) == Some((Some(r), b2)),
    ensures
        ({
            let c = b2.current.0 as int;
            let triples = b2.blocks[c].0;
            let op = match x.operation {
                InfixOperation::Plus => BinaryOp::Add,
                InfixOperation::Minus => BinaryOp::Sub,
                InfixOperation::Multiply => BinaryOp::Mul,
                InfixOperation::Divide => BinaryOp::Div,
                InfixOperation::Eq => BinaryOp::Eq,
                InfixOperation::NotEq => BinaryOp::NotEq,
                InfixOperation::Greater => BinaryOp::Greater,
                InfixOperation::Less => BinaryOp::Less,
                InfixOperation::GreaterEq => BinaryOp::GreaterEq,
                InfixOperation::LessEq => BinaryOp::LessEq,
                InfixOperation::And => BinaryOp::And,
                InfixOperation::Or => BinaryOp::Or,
            };
            let at = TripleRef { basic_block: b2.current, triple: TripleIdx(triples.len() as usize) };
            let after = BuilderView {
                blocks: b2.blocks.update(c, (triples.push(TripleView::BinaryOp { lhs: l, rhs: r, op }), b2.blocks[c].1)),
                ..b2
            };
            lw_expr(b, Expression::Infix(x)) == Some((Some(Value::Triple(at)), after))
        }),
{
}

} // verus!
