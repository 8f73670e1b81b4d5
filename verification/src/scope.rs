//! Lexical scopes used while checking the types of a function body.
use vstd::prelude::*;

use crate::ident::{ScopedBinding, Symbol};
use crate::ty::Ty;

verus! {

/// One scope: whether it is still open, and the bindings made in it, in order.
pub struct ScopePart {
    active: bool,
    bindings: Vec<(Symbol, Ty)>,
}

/// The model of one scope: open or not, and its bindings in order.
pub type ScopePartView = (bool, Seq<(Symbol, Ty)>);

impl View for ScopePart {
    type V = ScopePartView;

    closed spec fn view(&self) -> ScopePartView {
        (self.active, self.bindings@)
    }
}

impl ScopePart {
    /// Create a new scope part, and automatically mark it as active.
    pub fn new() -> (r: ScopePart)
        ensures
            r@ == (true, Seq::<(Symbol, Ty)>::empty()),
    {
        ScopePart { active: true, bindings: Vec::new() }
    }

    /// Close this scope.
    pub fn exit(&mut self)
        ensures
            final(self)@ == (false, old(self)@.1),
    {
        self.active = false;
    }

    /// Add a binding to this scope, producing its index within the scope.
    pub fn add(&mut self, symbol: Symbol, ty: Ty) -> (r: usize)
        ensures
            r == old(self)@.1.len(),
            final(self)@ == (old(self)@.0, old(self)@.1.push((symbol, ty))),
    {
        let r = self.bindings.len();
        self.bindings.push((symbol, ty));
        r
    }
}

/// A stack of scopes. Scopes are never removed, only closed, so that every
/// binding keeps a stable identifier.
pub struct Scope {
    scopes: Vec<ScopePart>,
}

impl View for Scope {
    type V = Seq<ScopePartView>;

    closed spec fn view(&self) -> Seq<ScopePartView> {
        self.scopes@.map_values(|p: ScopePart| p@)
    }
}

/// The index of the last binding of `symbol` among `bindings`, or -1.
pub open spec fn last_binding(bindings: Seq<(Symbol, Ty)>, symbol: Symbol) -> int
    decreases bindings.len(),
{
    if bindings.len() == 0 {
        -1
    } else if bindings.last().0 == symbol {
        bindings.len() - 1
    } else {
        last_binding(bindings.drop_last(), symbol)
    }
}

/// The index of the last open scope, or -1.
pub open spec fn last_active(scopes: Seq<ScopePartView>) -> int
    decreases scopes.len(),
{
    if scopes.len() == 0 {
        -1
    } else if scopes.last().0 {
        scopes.len() - 1
    } else {
        last_active(scopes.drop_last())
    }
}

/// What a symbol resolves to: the last binding of it in the last open scope
/// that binds it, with that binding's type.
pub open spec fn spec_resolve(scopes: Seq<ScopePartView>, symbol: Symbol) -> Option<(ScopedBinding, Ty)>
    decreases scopes.len(),
{
    if scopes.len() == 0 {
        None
    } else {
        let part = scopes.last();
        let b = last_binding(part.1, symbol);
        if part.0 && b >= 0 {
            Some((ScopedBinding((scopes.len() - 1) as usize, b as usize), part.1[b].1))
        } else {
            spec_resolve(scopes.drop_last(), symbol)
        }
    }
}

/// The model of a scope stack after binding `symbol` to `ty` in its last open scope.
pub open spec fn spec_register(scopes: Seq<ScopePartView>, symbol: Symbol, ty: Ty) -> Seq<ScopePartView> {
    let a = last_active(scopes);
    scopes.update(a, (true, scopes[a].1.push((symbol, ty))))
}

/// The binding identifier that `spec_register` hands out.
pub open spec fn spec_register_binding(scopes: Seq<ScopePartView>) -> ScopedBinding {
    let a = last_active(scopes);
    ScopedBinding(a as usize, scopes[a].1.len() as usize)
}

pub proof fn lemma_last_binding_bounds(bindings: Seq<(Symbol, Ty)>, symbol: Symbol)
    ensures
        -1 <= last_binding(bindings, symbol) < bindings.len(),
        last_binding(bindings, symbol) >= 0 ==> bindings[last_binding(bindings, symbol)].0 == symbol,
    decreases bindings.len(),
{
    if bindings.len() > 0 {
        lemma_last_binding_bounds(bindings.drop_last(), symbol);
    }
}

pub proof fn lemma_last_active_bounds(scopes: Seq<ScopePartView>)
    ensures
        -1 <= last_active(scopes) < scopes.len(),
        last_active(scopes) >= 0 ==> scopes[last_active(scopes)].0,
        forall|k: int| last_active(scopes) < k < scopes.len() ==> !(#[trigger] scopes[k]).0,
    decreases scopes.len(),
{
    if scopes.len() > 0 {
        let d = scopes.drop_last();
        lemma_last_active_bounds(d);
        assert forall|k: int| last_active(scopes) < k < scopes.len() implies !(#[trigger] scopes[k]).0 by {
            if k < scopes.len() - 1 {
                assert(scopes[k] == d[k]);
            }
        }
        if !scopes.last().0 && last_active(d) >= 0 {
            assert(scopes[last_active(d)] == d[last_active(d)]);
        }
    }
}

proof fn lemma_resolve_top(w: Seq<ScopePartView>, a: int, symbol: Symbol)
    requires
        0 <= a < w.len(),
        w[a].0,
        last_binding(w[a].1, symbol) >= 0,
        forall|k: int| a < k < w.len() ==> !(#[trigger] w[k]).0,
    ensures
        spec_resolve(w, symbol) == Some(
            (ScopedBinding(a as usize, last_binding(w[a].1, symbol) as usize), w[a].1[last_binding(w[a].1, symbol)].1),
        ),
    decreases w.len(),
{
    if w.len() - 1 > a {
        let d = w.drop_last();
        assert(!w[w.len() - 1].0);
        assert forall|k: int| a < k < d.len() implies !(#[trigger] d[k]).0 by {
            assert(d[k] == w[k]);
        }
        lemma_resolve_top(d, a, symbol);
    }
}

proof fn lemma_resolve_other(v: Seq<ScopePartView>, a: int, symbol: Symbol, ty: Ty, other: Symbol)
    requires
        0 <= a < v.len(),
        v[a].0,
        other != symbol,
    ensures
        spec_resolve(v.update(a, (true, v[a].1.push((symbol, ty)))), other) == spec_resolve(v, other),
    decreases v.len(),
{
    let w = v.update(a, (true, v[a].1.push((symbol, ty))));
    if a == v.len() - 1 {
        assert(v[a].1.push((symbol, ty)).drop_last() == v[a].1);
        assert(last_binding(w.last().1, other) == last_binding(v.last().1, other));
        lemma_last_binding_bounds(v.last().1, other);
        if last_binding(v.last().1, other) >= 0 {
            assert(w.last().1[last_binding(v.last().1, other)] == v.last().1[last_binding(v.last().1, other)]);
        }
        assert(w.drop_last() == v.drop_last());
    } else {
        assert(w.drop_last() == v.drop_last().update(a, (true, v[a].1.push((symbol, ty)))));
        lemma_resolve_other(v.drop_last(), a, symbol, ty, other);
    }
}

/// Resolving a symbol right after registering it gives back the binding that
/// the registration produced, with the registered type.
pub proof fn law_resolve_after_register(scopes: Seq<ScopePartView>, symbol: Symbol, ty: Ty)
    requires
        last_active(scopes) >= 0,
    ensures
        spec_resolve(spec_register(scopes, symbol, ty), symbol) == Some((spec_register_binding(scopes), ty)),
{
    lemma_last_active_bounds(scopes);
    let a = last_active(scopes);
    let w = spec_register(scopes, symbol, ty);
    assert(w[a].1.last() == (symbol, ty));
    assert forall|k: int| a < k < w.len() implies !(#[trigger] w[k]).0 by {
        assert(w[k] == scopes[k]);
    }
    lemma_resolve_top(w, a, symbol);
}

/// Registering a symbol does not change what any other symbol resolves to.
pub proof fn law_register_keeps_other_symbols(scopes: Seq<ScopePartView>, symbol: Symbol, ty: Ty, other: Symbol)
    requires
        last_active(scopes) >= 0,
        other != symbol,
    ensures
        spec_resolve(spec_register(scopes, symbol, ty), other) == spec_resolve(scopes, other),
{
    lemma_last_active_bounds(scopes);
    lemma_resolve_other(scopes, last_active(scopes), symbol, ty, other);
}

proof fn lemma_last_active_is(w: Seq<ScopePartView>, a: int)
    requires
        0 <= a < w.len(),
        w[a].0,
        forall|k: int| a < k < w.len() ==> !(#[trigger] w[k]).0,
    ensures
        last_active(w) == a,
    decreases w.len(),
{
    if w.len() - 1 > a {
        let d = w.drop_last();
        assert(!w[w.len() - 1].0);
        assert forall|k: int| a < k < d.len() implies !(#[trigger] d[k]).0 by {
            assert(d[k] == w[k]);
        }
        lemma_last_active_is(d, a);
    }
}

/// Registering a binding keeps the same scope open.
pub proof fn lemma_register_keeps_active(scopes: Seq<ScopePartView>, symbol: Symbol, ty: Ty)
    requires
        last_active(scopes) >= 0,
    ensures
        last_active(spec_register(scopes, symbol, ty)) == last_active(scopes),
{
    lemma_last_active_bounds(scopes);
    let a = last_active(scopes);
    let w = spec_register(scopes, symbol, ty);
    assert forall|k: int| a < k < w.len() implies !(#[trigger] w[k]).0 by {
        assert(w[k] == scopes[k]);
    }
    lemma_last_active_is(w, a);
}

/// The bindings of one scope, each with its identifier.
pub open spec fn part_bindings(k: int, bindings: Seq<(Symbol, Ty)>) -> Seq<(ScopedBinding, Symbol, Ty)> {
    bindings.map(|j: int, b: (Symbol, Ty)| (ScopedBinding(k as usize, j as usize), b.0, b.1))
}

/// Every binding of every scope (open or not), each with its identifier, in order.
pub open spec fn all_bindings(scopes: Seq<ScopePartView>) -> Seq<(ScopedBinding, Symbol, Ty)>
    decreases scopes.len(),
{
    if scopes.len() == 0 {
        Seq::empty()
    } else {
        all_bindings(scopes.drop_last()) + part_bindings(scopes.len() - 1, scopes.last().1)
    }
}

impl Scope {
    /// Every binding of every scope, each with its identifier, in order.
    pub fn bindings(&self) -> (r: Vec<(ScopedBinding, Symbol, Ty)>)
        ensures
            r@ == all_bindings(self@),
    {
        let mut out: Vec<(ScopedBinding, Symbol, Ty)> = Vec::new();
        let mut k: usize = 0;
        assert(self@.take(0) =~= Seq::<ScopePartView>::empty());
        while k < self.scopes.len()
            invariant
                k <= self.scopes.len(),
                self@.len() == self.scopes.len(),
                out@ == all_bindings(self@.take(k as int)),
            decreases self.scopes.len() - k,
        {
            let part = &self.scopes[k];
            assert(self@[k as int] == (part.active, part.bindings@));
            let ghost before = out@;
            let mut j: usize = 0;
            while j < part.bindings.len()
                invariant
                    j <= part.bindings.len(),
                    out@ == before + part_bindings(k as int, part.bindings@.take(j as int)),
                decreases part.bindings.len() - j,
            {
                out.push((ScopedBinding(k, j), part.bindings[j].0, part.bindings[j].1.duplicate()));
                assert(part_bindings(k as int, part.bindings@.take(j + 1)) =~= part_bindings(k as int, part.bindings@.take(j as int)).push(
                    (ScopedBinding(k, j), part.bindings@[j as int].0, part.bindings@[j as int].1),
                ));
                j = j + 1;
            }
            assert(part.bindings@.take(j as int) =~= part.bindings@);
            assert(self@.take(k + 1).drop_last() =~= self@.take(k as int));
            k = k + 1;
        }
        assert(self@.take(k as int) =~= self@);
        out
    }

    /// Create a new instance, and automatically enter the base scope.
    pub fn new() -> (r: Scope)
        ensures
            r@ == seq![(true, Seq::<(Symbol, Ty)>::empty())],
    {
        let mut scope = Scope { scopes: Vec::new() };
        scope.enter();
        assert(scope@ =~= seq![(true, Seq::<(Symbol, Ty)>::empty())]);
        scope
    }

    /// Enter a new scope, producing its index.
    pub fn enter(&mut self) -> (r: usize)
        ensures
            r == old(self)@.len(),
            final(self)@ == old(self)@.push((true, Seq::<(Symbol, Ty)>::empty())),
    {
        let r = self.scopes.len();
        self.scopes.push(ScopePart::new());
        assert(self@ =~= old(self)@.push((true, Seq::<(Symbol, Ty)>::empty())));
        r
    }

    /// Close the most recently entered scope (whether or not it is still open).
    /// Does nothing when no scope was ever entered.
    pub fn leave(&mut self)
        ensures
            old(self)@.len() == 0 ==> final(self)@ == old(self)@,
            old(self)@.len() > 0 ==> final(self)@ == old(self)@.update(
                old(self)@.len() - 1,
                (false, old(self)@.last().1),
            ),
    {
        let n = self.scopes.len();
        if n == 0 {
            return;
        }
        let mut part = self.scopes.pop().unwrap();
        part.exit();
        self.scopes.push(part);
        assert(self@ =~= old(self)@.update(old(self)@.len() - 1, (false, old(self)@.last().1)));
    }

    /// Whether some scope is still open.
    pub open spec fn has_active(&self) -> bool {
        last_active(self@) >= 0
    }

    /// Find the currently open scope (the last one still open).
    fn active_scope(&self) -> (r: usize)
        requires
            self.has_active(),
        ensures
            r == last_active(self@),
    {
        proof {
            lemma_last_active_bounds(self@);
        }
        let mut k = self.scopes.len();
        assert(self@.take(k as int) =~= self@);
        while k > 0
            invariant
                k <= self.scopes.len(),
                self@.len() == self.scopes.len(),
                last_active(self@) < k,
                last_active(self@) == last_active(self@.take(k as int)),
            decreases k,
        {
            assert(self@.take(k as int).drop_last() == self@.take(k - 1));
            assert(self@.take(k as int).last() == self@[k - 1]);
            assert(self@[k - 1].0 == self.scopes[k - 1].active);
            proof {
                lemma_last_active_bounds(self@.take(k - 1));
            }
            if self.scopes[k - 1].active {
                return k - 1;
            }
            k = k - 1;
        }
        proof {
            assert(self@.take(0) =~= Seq::<ScopePartView>::empty());
        }
        0
    }

    /// Register a symbol and associated type in the open scope, and produce a
    /// unique binding for it.
    pub fn register(&mut self, symbol: Symbol, ty: Ty) -> (r: ScopedBinding)
        requires
            old(self).has_active(),
        ensures
            r == spec_register_binding(old(self)@),
            final(self)@ == spec_register(old(self)@, symbol, ty),
    {
        let a = self.active_scope();
        proof {
            lemma_last_active_bounds(self@);
        }
        let mut part = self.scopes.remove(a);
        let b = part.add(symbol, ty);
        self.scopes.insert(a, part);
        assert(self@ =~= spec_register(old(self)@, symbol, ty));
        ScopedBinding(a, b)
    }

    /// Find the binding and type for the provided symbol, among the open scopes.
    #[verifier::loop_isolation(false)]
    pub fn resolve(&self, symbol: Symbol) -> (r: Option<(ScopedBinding, Ty)>)
        ensures
            r == spec_resolve(self@, symbol),
    {
        let mut k = self.scopes.len();
        assert(self@.take(k as int) =~= self@);
        while k > 0
            invariant
                k <= self.scopes.len(),
                self@.len() == self.scopes.len(),
                spec_resolve(self@, symbol) == spec_resolve(self@.take(k as int), symbol),
            decreases k,
        {
            let ghost prefix = self@.take(k as int);
            assert(prefix.drop_last() == self@.take(k - 1));
            assert(prefix.last() == self@[k - 1]);
            let part = &self.scopes[k - 1];
            assert(self@[k - 1] == (part.active, part.bindings@));
            if part.active {
                let mut j = part.bindings.len();
                assert(part.bindings@.take(j as int) =~= part.bindings@);
                while j > 0
                    invariant
                        j <= part.bindings.len(),
                        last_binding(part.bindings@, symbol) == last_binding(part.bindings@.take(j as int), symbol),
                    decreases j,
                {
                    assert(part.bindings@.take(j as int).drop_last() == part.bindings@.take(j - 1));
                    if part.bindings[j - 1].0 == symbol {
                        assert(last_binding(part.bindings@, symbol) == j - 1);
                        return Some((ScopedBinding(k - 1, j - 1), part.bindings[j - 1].1.duplicate()));
                    }
                    j = j - 1;
                }
                assert(part.bindings@.take(0) =~= Seq::<(Symbol, Ty)>::empty());
            }
            k = k - 1;
        }
        assert(self@.take(0) =~= Seq::<ScopePartView>::empty());
        None
    }
}

impl Default for Scope {
    fn default() -> (r: Scope)
        ensures
            r@ == seq![(true, Seq::<(Symbol, Ty)>::empty())],
    {
        Scope::new()
    }
}

/// Registering while the innermost scope is open binds in that scope only.
pub proof fn law_register_in_entered_scope(scopes: Seq<ScopePartView>, bindings: Seq<(Symbol, Ty)>, symbol: Symbol, ty: Ty)
    ensures
        spec_register(scopes.push((true, bindings)), symbol, ty) == scopes.push((true, bindings.push((symbol, ty)))),
{
    let s = scopes.push((true, bindings));
    assert(s.last().0);
    assert(last_active(s) == scopes.len());
    assert(spec_register(s, symbol, ty) =~= scopes.push((true, bindings.push((symbol, ty)))));
}

/// A scope that has been left hides its bindings: every symbol resolves as it
/// did before the scope was entered.
pub proof fn law_left_scope_is_hidden(scopes: Seq<ScopePartView>, bindings: Seq<(Symbol, Ty)>, symbol: Symbol)
    ensures
        spec_resolve(scopes.push((false, bindings)), symbol) == spec_resolve(scopes, symbol),
{
    assert(scopes.push((false, bindings)).drop_last() =~= scopes);
}

} // verus!

verus! {

/// An operation on a stack of scopes, as `Scope` offers them.
pub enum ScopeOp {
    Enter,
    Leave,
    Register(Symbol, Ty),
}

/// The model of a scope stack after one operation, as `Scope::enter`,
/// `Scope::leave` and `Scope::register` state it.
pub open spec fn scope_step(sc: Seq<ScopePartView>, op: ScopeOp) -> Seq<ScopePartView> {
    match op {
        ScopeOp::Enter => sc.push((true, Seq::empty())),
        ScopeOp::Leave => if sc.len() == 0 {
            sc
        } else {
            sc.update(sc.len() - 1, (false, sc.last().1))
        },
        ScopeOp::Register(symbol, ty) => spec_register(sc, symbol, ty),
    }
}

/// The model of a new `Scope` after the given operations, in order.
pub open spec fn scope_run(ops: Seq<ScopeOp>) -> Seq<ScopePartView>
    decreases ops.len(),
{
    if ops.len() == 0 {
        seq![(true, Seq::<(Symbol, Ty)>::empty())]
    } else {
        scope_step(scope_run(ops.drop_last()), ops.last())
    }
}

/// Every registration among the operations is made while some scope is open,
/// as `Scope::register` requires.
pub open spec fn scope_ops_valid(ops: Seq<ScopeOp>) -> bool
    decreases ops.len(),
{
    ops.len() == 0 || (scope_ops_valid(ops.drop_last()) && (ops.last() is Register ==> last_active(
        scope_run(ops.drop_last()),
    ) >= 0))
}

/// The scope that the operation at position `k` registers into.
pub open spec fn registered_scope(ops: Seq<ScopeOp>, k: int) -> int {
    last_active(scope_run(ops.take(k)))
}

/// Among the first `m` operations, the most recent registration of `symbol`
/// into a scope that is open in `end`: the binding that registration gave and
/// the registered type.
pub open spec fn latest_open_registration(
    ops: Seq<ScopeOp>,
    end: Seq<ScopePartView>,
    symbol: Symbol,
    m: int,
) -> Option<(ScopedBinding, Ty)>
    decreases m,
{
    if m <= 0 || m > ops.len() {
        None
    } else {
        match ops[m - 1] {
            ScopeOp::Register(s, t) => if s == symbol && 0 <= registered_scope(ops, m - 1) < end.len()
                && end[registered_scope(ops, m - 1)].0 {
                Some((spec_register_binding(scope_run(ops.take(m - 1))), t))
            } else {
                latest_open_registration(ops, end, symbol, m - 1)
            },
            _ => latest_open_registration(ops, end, symbol, m - 1),
        }
    }
}

/// `f` is `w` with possibly some of its open scopes closed.
pub open spec fn closing_of(f: Seq<ScopePartView>, w: Seq<ScopePartView>) -> bool {
    &&& f.len() == w.len()
    &&& forall|j: int| 0 <= j < w.len() ==> (#[trigger] f[j]).1 == w[j].1 && (f[j].0 ==> w[j].0)
}

proof fn lemma_step_len(sc: Seq<ScopePartView>, op: ScopeOp)
    requires
        op is Register ==> last_active(sc) >= 0,
    ensures
        scope_step(sc, op).len() >= sc.len(),
{
    lemma_last_active_bounds(sc);
}

proof fn lemma_run_len(ops: Seq<ScopeOp>, k: int)
    requires
        scope_ops_valid(ops),
        0 <= k <= ops.len(),
    ensures
        scope_run(ops.take(k)).len() <= scope_run(ops).len(),
        scope_run(ops).len() >= 1,
    decreases ops.len(),
{
    if ops.len() > 0 {
        let d = ops.drop_last();
        lemma_step_len(scope_run(d), ops.last());
        if k < ops.len() {
            assert(ops.take(k) =~= d.take(k));
            lemma_run_len(d, k);
        } else {
            assert(ops.take(k) =~= ops);
            lemma_run_len(d, 0);
        }
    }
}

proof fn lemma_latest_prefix(ops: Seq<ScopeOp>, op: ScopeOp, f: Seq<ScopePartView>, symbol: Symbol, m: int)
    requires
        0 <= m <= ops.len(),
    ensures
        latest_open_registration(ops.push(op), f, symbol, m) == latest_open_registration(ops, f, symbol, m),
    decreases m,
{
    if m > 0 {
        let p = ops.push(op);
        assert(p[m - 1] == ops[m - 1]);
        assert(p.take(m - 1) =~= ops.take(m - 1));
        lemma_latest_prefix(ops, op, f, symbol, m - 1);
    }
}

proof fn lemma_latest_flags(ops: Seq<ScopeOp>, f: Seq<ScopePartView>, g: Seq<ScopePartView>, symbol: Symbol, m: int)
    requires
        0 <= m <= ops.len(),
        forall|k: int| 0 <= k < m ==> {
            let a = #[trigger] registered_scope(ops, k);
            (0 <= a < f.len() && f[a].0) == (0 <= a < g.len() && g[a].0)
        },
    ensures
        latest_open_registration(ops, f, symbol, m) == latest_open_registration(ops, g, symbol, m),
    decreases m,
{
    if m > 0 {
        let a = registered_scope(ops, m - 1);
        assert((0 <= a < f.len() && f[a].0) == (0 <= a < g.len() && g[a].0));
        lemma_latest_flags(ops, f, g, symbol, m - 1);
    }
}

/// Every scope that an earlier registration went into lies within the stack.
proof fn lemma_registered_scope_bound(ops: Seq<ScopeOp>, k: int)
    requires
        scope_ops_valid(ops),
        0 <= k <= ops.len(),
    ensures
        registered_scope(ops, k) < scope_run(ops).len(),
{
    lemma_run_len(ops, k);
    lemma_last_active_bounds(scope_run(ops.take(k)));
}

proof fn lemma_resolve_push_empty(f: Seq<ScopePartView>, open: bool, symbol: Symbol)
    ensures
        spec_resolve(f.push((open, Seq::empty())), symbol) == spec_resolve(f, symbol),
{
    let g = f.push((open, Seq::<(Symbol, Ty)>::empty()));
    assert(g.drop_last() =~= f);
    assert(last_binding(g.last().1, symbol) == -1);
}

proof fn lemma_resolve_closed_change(v: Seq<ScopePartView>, a: int, bindings: Seq<(Symbol, Ty)>, symbol: Symbol)
    requires
        0 <= a < v.len(),
        !v[a].0,
    ensures
        spec_resolve(v.update(a, (false, bindings)), symbol) == spec_resolve(v, symbol),
    decreases v.len(),
{
    let w = v.update(a, (false, bindings));
    if a == v.len() - 1 {
        assert(w.drop_last() =~= v.drop_last());
    } else {
        assert(w.drop_last() =~= v.drop_last().update(a, (false, bindings)));
        assert(w.last() == v.last());
        lemma_resolve_closed_change(v.drop_last(), a, bindings, symbol);
    }
}

proof fn lemma_resolve_closing(ops: Seq<ScopeOp>, f: Seq<ScopePartView>, symbol: Symbol)
    requires
        scope_ops_valid(ops),
        closing_of(f, scope_run(ops)),
    ensures
        spec_resolve(f, symbol) == latest_open_registration(ops, f, symbol, ops.len() as int),
    decreases ops.len(),
{
    let w = scope_run(ops);
    if ops.len() == 0 {
        assert(f[0].1 == Seq::<(Symbol, Ty)>::empty());
        assert(f.drop_last() =~= Seq::<ScopePartView>::empty());
        assert(last_binding(f.last().1, symbol) == -1);
    } else {
        let d = ops.drop_last();
        let op = ops.last();
        let n = d.len() as int;
        let wd = scope_run(d);
        assert(ops =~= d.push(op));
        assert(ops[n] == op);
        assert(ops.take(n) =~= d);
        lemma_latest_prefix(d, op, f, symbol, n);
        lemma_last_active_bounds(wd);
        match op {
            ScopeOp::Enter => {
                let fd = f.drop_last();
                assert(closing_of(fd, wd)) by {
                    assert forall|j: int| 0 <= j < wd.len() implies (#[trigger] fd[j]).1 == wd[j].1 && (fd[j].0 ==> wd[j].0) by {
                        assert(fd[j] == f[j]);
                        assert(w[j] == wd[j]);
                    }
                }
                lemma_resolve_closing(d, fd, symbol);
                let top = wd.len() as int;
                assert(w == wd.push((true, Seq::<(Symbol, Ty)>::empty())));
                assert(f[top].1 == w[top].1);
                assert(f =~= fd.push((f[top].0, Seq::<(Symbol, Ty)>::empty())));
                lemma_resolve_push_empty(fd, f[top].0, symbol);
                assert forall|k: int| 0 <= k < n implies {
                    let a = #[trigger] registered_scope(d, k);
                    (0 <= a < f.len() && f[a].0) == (0 <= a < fd.len() && fd[a].0)
                } by {
                    lemma_registered_scope_bound(d, k);
                }
                lemma_latest_flags(d, f, fd, symbol, n);
            },
            ScopeOp::Leave => {
                assert(closing_of(f, wd)) by {
                    assert forall|j: int| 0 <= j < wd.len() implies (#[trigger] f[j]).1 == wd[j].1 && (f[j].0 ==> wd[j].0) by {
                        assert(w[j].1 == wd[j].1);
                    }
                }
                lemma_resolve_closing(d, f, symbol);
            },
            ScopeOp::Register(s, t) => {
                let a = last_active(wd);
                assert(a >= 0);
                let fd = f.update(a, (f[a].0, wd[a].1));
                assert(closing_of(fd, wd)) by {
                    assert forall|j: int| 0 <= j < wd.len() implies (#[trigger] fd[j]).1 == wd[j].1 && (fd[j].0 ==> wd[j].0) by {
                        if j != a {
                            assert(w[j] == wd[j]);
                        }
                    }
                }
                lemma_resolve_closing(d, fd, symbol);
                assert forall|k: int| 0 <= k < n implies {
                    let b = #[trigger] registered_scope(d, k);
                    (0 <= b < f.len() && f[b].0) == (0 <= b < fd.len() && fd[b].0)
                } by {}
                lemma_latest_flags(d, f, fd, symbol, n);
                assert(registered_scope(ops, n) == a);
                assert(w[a].1 == wd[a].1.push((s, t)));
                if !f[a].0 {
                    assert(f =~= fd.update(a, (false, wd[a].1.push((s, t)))));
                    lemma_resolve_closed_change(fd, a, wd[a].1.push((s, t)), symbol);
                } else if symbol == s {
                    assert(f[a].1 == wd[a].1.push((s, t)));
                    assert(f[a].1.drop_last() =~= wd[a].1);
                    assert(last_binding(f[a].1, s) == wd[a].1.len());
                    assert forall|k: int| a < k < f.len() implies !(#[trigger] f[k]).0 by {
                        assert(w[k] == wd[k]);
                    }
                    lemma_resolve_top(f, a, s);
                } else {
                    assert(f =~= fd.update(a, (true, fd[a].1.push((s, t)))));
                    lemma_resolve_other(fd, a, s, t, symbol);
                }
            },
        }
    }
}

/// Over any sequence of operations on a new `Scope` that registers only while a
/// scope is open, resolving a symbol gives the most recent registration of it
/// into a scope that is still open (the binding that registration produced, and
/// the registered type), and nothing where there is none: a binding made in a
/// scope that has been left is never given back.
pub proof fn law_resolve_after_operations(ops: Seq<ScopeOp>, symbol: Symbol)
    requires
        scope_ops_valid(ops),
    ensures
        spec_resolve(scope_run(ops), symbol) == latest_open_registration(ops, scope_run(ops), symbol, ops.len() as int),
{
    let w = scope_run(ops);
    assert(closing_of(w, w));
    lemma_resolve_closing(ops, w, symbol);
}

} // verus!
