//! The state shared by the stages of the compiler: interned names and the
//! registry of functions.
use vstd::prelude::*;

use crate::ident::{FunctionIdx, ScopedBinding, Symbol};
use crate::ty::{FunctionSignature, Ty};

verus! {

/// Interns strings, handing out one symbol per distinct string.
pub struct SymbolMap {
    strings: Vec<String>,
}

/// The index of `s` among `strings`, or -1 when it is absent.
pub open spec fn index_of(strings: Seq<Seq<char>>, s: Seq<char>) -> int
    decreases strings.len(),
{
    if strings.len() == 0 {
        -1
    } else if strings.last() == s {
        strings.len() - 1
    } else {
        index_of(strings.drop_last(), s)
    }
}

/// No string occurs twice.
pub open spec fn distinct_strings(strings: Seq<Seq<char>>) -> bool {
    forall|i: int, j: int| 0 <= i < j < strings.len() ==> strings[i] != strings[j]
}

pub proof fn lemma_index_of(strings: Seq<Seq<char>>, s: Seq<char>)
    ensures
        -1 <= index_of(strings, s) < strings.len(),
        index_of(strings, s) >= 0 ==> strings[index_of(strings, s)] == s,
        index_of(strings, s) < 0 ==> forall|i: int| 0 <= i < strings.len() ==> strings[i] != s,
        distinct_strings(strings) ==> forall|i: int| 0 <= i < strings.len() && strings[i] == s ==> index_of(strings, s) == i,
    decreases strings.len(),
{
    if strings.len() > 0 {
        let d = strings.drop_last();
        lemma_index_of(d, s);
        assert forall|i: int| 0 <= i < d.len() implies d[i] == strings[i] by {}
        if distinct_strings(strings) {
            assert(distinct_strings(d));
        }
    }
}

impl View for SymbolMap {
    type V = Seq<Seq<char>>;

    closed spec fn view(&self) -> Seq<Seq<char>> {
        self.strings@.map_values(|s: String| s@)
    }
}

impl SymbolMap {
    /// An empty symbol map.
    pub fn new() -> (r: SymbolMap)
        ensures
            r@ == Seq::<Seq<char>>::empty(),
    {
        let r = SymbolMap { strings: Vec::new() };
        assert(r@ =~= Seq::<Seq<char>>::empty());
        r
    }

    /// Look up the symbol of a string, if it has been interned.
    pub fn get(&self, s: &str) -> (r: Option<Symbol>)
        ensures
            r == (if index_of(self@, s@) >= 0 { Some(Symbol(index_of(self@, s@) as usize)) } else { None::<Symbol> }),
    {
        let owned = s.to_owned();
        let mut k = self.strings.len();
        assert(self@.take(k as int) =~= self@);
        while k > 0
            invariant
                k <= self.strings.len(),
                owned@ == s@,
                self@.len() == self.strings.len(),
                index_of(self@, s@) == index_of(self@.take(k as int), s@),
            decreases k,
        {
            assert(self@.take(k as int).drop_last() == self@.take(k - 1));
            assert(self@[k - 1] == self.strings[k - 1]@);
            if self.strings[k - 1] == owned {
                return Some(Symbol(k - 1));
            }
            k = k - 1;
        }
        assert(self@.take(0) =~= Seq::<Seq<char>>::empty());
        None
    }

    /// The symbol of a string, interning the string first if it is new.
    pub fn get_or_intern(&mut self, s: &str) -> (r: Symbol)
        requires
            distinct_strings(old(self)@),
        ensures
            index_of(old(self)@, s@) >= 0 ==> r == Symbol(index_of(old(self)@, s@) as usize) && final(self)@ == old(self)@,
            index_of(old(self)@, s@) < 0 ==> r == Symbol(old(self)@.len() as usize) && final(self)@ == old(self)@.push(s@),
            (r, final(self)@) == spec_intern(old(self)@, s@),
            distinct_strings(final(self)@),
    {

        match self.get(s) {
            Some(symbol) => symbol,
            None => {
                proof {
                    lemma_index_of(self@, s@);
                }
                let r = Symbol(self.strings.len());
                let owned = s.to_owned();
                self.strings.push(owned);
                assert(self@ =~= old(self)@.push(s@));
                assert(distinct_strings(self@)) by {
                    assert forall|i: int, j: int| 0 <= i < j < self@.len() implies self@[i] != self@[j] by {
                        if j < old(self)@.len() {
                            assert(self@[i] == old(self)@[i] && self@[j] == old(self)@[j]);
                        } else {
                            assert(self@[i] == old(self)@[i]);
                        }
                    }
                }
                r
            },
        }
    }

    /// The string behind a symbol, if the symbol was handed out by this map.
    pub fn resolve(&self, symbol: Symbol) -> (r: Option<String>)
        ensures
            symbol.0 < self@.len() ==> r is Some && r->0@ == self@[symbol.0 as int],
            symbol.0 >= self@.len() ==> r is None,
    {
        if symbol.0 < self.strings.len() {
            Some(self.strings[symbol.0].clone())
        } else {
            None
        }
    }
}

/// What the registry knows of a function.
pub struct FunctionEntry {
    symbol: Symbol,
    signature: FunctionSignature,
    bindings: Vec<(ScopedBinding, Symbol, Ty)>,
}

/// The model of a registered function: its name, parameter types and return type.
pub type FunctionView = (Symbol, Seq<Ty>, Ty);

/// Every function known to the compiler, identified by its position.
pub struct FunctionRegistry {
    entries: Vec<FunctionEntry>,
}

/// The index of the function most recently registered under `symbol`, or -1.
pub open spec fn lookup_function(fns: Seq<FunctionView>, symbol: Symbol) -> int
    decreases fns.len(),
{
    if fns.len() == 0 {
        -1
    } else if fns.last().0 == symbol {
        fns.len() - 1
    } else {
        lookup_function(fns.drop_last(), symbol)
    }
}

pub proof fn lemma_lookup_function(fns: Seq<FunctionView>, symbol: Symbol)
    ensures
        -1 <= lookup_function(fns, symbol) < fns.len(),
        lookup_function(fns, symbol) >= 0 ==> fns[lookup_function(fns, symbol)].0 == symbol,
    decreases fns.len(),
{
    if fns.len() > 0 {
        lemma_lookup_function(fns.drop_last(), symbol);
    }
}

/// The model of a signature.
pub open spec fn signature_view(signature: FunctionSignature) -> (Seq<Ty>, Ty) {
    (signature.arguments@, signature.return_ty)
}

impl View for FunctionRegistry {
    type V = Seq<FunctionView>;

    closed spec fn view(&self) -> Seq<FunctionView> {
        self.entries@.map_values(|e: FunctionEntry| (e.symbol, e.signature.arguments@, e.signature.return_ty))
    }
}

impl FunctionRegistry {
    /// The bindings recorded against each registered function, in order.
    pub closed spec fn bindings(&self) -> Seq<Seq<(ScopedBinding, Symbol, Ty)>> {
        self.entries@.map_values(|e: FunctionEntry| e.bindings@)
    }

    /// There is one list of bindings per registered function.
    pub proof fn lemma_bindings_len(&self)
        ensures
            self.bindings().len() == self@.len(),
    {
    }

    /// An empty registry.
    pub fn new() -> (r: FunctionRegistry)
        ensures
            r@ == Seq::<FunctionView>::empty(),
            r.bindings() == Seq::<Seq<(ScopedBinding, Symbol, Ty)>>::empty(),
    {
        let r = FunctionRegistry { entries: Vec::new() };
        assert(r@ =~= Seq::<FunctionView>::empty());
        assert(r.bindings() =~= Seq::<Seq<(ScopedBinding, Symbol, Ty)>>::empty());
        r
    }

    /// Register a function's signature under its symbol, producing a new identifier for it.
    pub fn register(&mut self, symbol: Symbol, signature: FunctionSignature) -> (r: FunctionIdx)
        ensures
            r == FunctionIdx(old(self)@.len() as usize),
            final(self)@ == old(self)@.push((symbol, signature.arguments@, signature.return_ty)),
            final(self).bindings() == old(self).bindings().push(Seq::<(ScopedBinding, Symbol, Ty)>::empty()),
    {
        let r = FunctionIdx(self.entries.len());
        self.entries.push(FunctionEntry { symbol, signature, bindings: Vec::new() });
        assert(self@ =~= old(self)@.push((symbol, signature.arguments@, signature.return_ty)));
        assert(self.bindings() =~= old(self).bindings().push(Seq::<(ScopedBinding, Symbol, Ty)>::empty()));
        r
    }

    /// The identifier of the function most recently registered under `symbol`.
    pub fn get_idx(&self, symbol: Symbol) -> (r: Option<FunctionIdx>)
        ensures
            r == (if lookup_function(self@, symbol) >= 0 {
                Some(FunctionIdx(lookup_function(self@, symbol) as usize))
            } else {
                None::<FunctionIdx>
            }),
            r is Some ==> (r->0).0 as int == lookup_function(self@, symbol),
    {
        let mut k = self.entries.len();
        assert(self@.take(k as int) =~= self@);
        while k > 0
            invariant
                k <= self.entries.len(),
                self@.len() == self.entries.len(),
                lookup_function(self@, symbol) == lookup_function(self@.take(k as int), symbol),
            decreases k,
        {
            assert(self@.take(k as int).drop_last() == self@.take(k - 1));
            assert(self@[k - 1].0 == self.entries[k - 1].symbol);
            if self.entries[k - 1].symbol == symbol {
                return Some(FunctionIdx(k - 1));
            }
            k = k - 1;
        }
        assert(self@.take(0) =~= Seq::<FunctionView>::empty());
        None
    }

    /// The signature of a registered function.
    pub fn get(&self, idx: FunctionIdx) -> (r: &FunctionSignature)
        requires
            idx.0 < self@.len(),
        ensures
            signature_view(*r) == (self@[idx.0 as int].1, self@[idx.0 as int].2),
    {
        &self.entries[idx.0].signature
    }

    /// Record a binding made within a registered function.
    pub fn register_binding(&mut self, idx: FunctionIdx, binding: ScopedBinding, symbol: Symbol, ty: Ty)
        requires
            idx.0 < old(self)@.len(),
        ensures
            final(self)@ == old(self)@,
            final(self).bindings() == old(self).bindings().update(
                idx.0 as int,
                old(self).bindings()[idx.0 as int].push((binding, symbol, ty)),
            ),
    {
        let mut entry = self.entries.remove(idx.0);
        entry.bindings.push((binding, symbol, ty));
        self.entries.insert(idx.0, entry);
        assert(self@ =~= old(self)@);
        assert(self.bindings() =~= old(self).bindings().update(
            idx.0 as int,
            old(self).bindings()[idx.0 as int].push((binding, symbol, ty)),
        ));
    }
}

/// The shared state of the compiler.
pub struct Compiler {
    pub symbols: SymbolMap,
    pub functions: FunctionRegistry,
}

impl Compiler {
    /// A compiler with no symbols and no functions.
    pub fn new() -> (r: Compiler)
        ensures
            r.symbols@ == Seq::<Seq<char>>::empty(),
            r.functions@ == Seq::<FunctionView>::empty(),
            r.functions.bindings() == Seq::<Seq<(ScopedBinding, Symbol, Ty)>>::empty(),
    {
        Compiler { symbols: SymbolMap::new(), functions: FunctionRegistry::new() }
    }
}

impl Default for Compiler {
    fn default() -> (r: Compiler)
        ensures
            r.symbols@ == Seq::<Seq<char>>::empty(),
            r.functions@ == Seq::<FunctionView>::empty(),
            r.functions.bindings() == Seq::<Seq<(ScopedBinding, Symbol, Ty)>>::empty(),
    {
        Compiler::new()
    }
}

/// The symbol of a string and the strings after interning it.
pub open spec fn spec_intern(strings: Seq<Seq<char>>, s: Seq<char>) -> (Symbol, Seq<Seq<char>>) {
    if index_of(strings, s) >= 0 {
        (Symbol(index_of(strings, s) as usize), strings)
    } else {
        (Symbol(strings.len() as usize), strings.push(s))
    }
}

/// Interning a string gives a symbol that resolves back to it, interning it
/// again gives the same symbol and changes nothing, and the strings stay
/// distinct.
pub proof fn law_intern_resolves_and_is_idempotent(strings: Seq<Seq<char>>, s: Seq<char>)
    requires
        distinct_strings(strings),
        strings.len() < usize::MAX,
    ensures
        ({
            let (symbol, after) = spec_intern(strings, s);
            &&& (symbol.0 as int) < after.len() && after[symbol.0 as int] == s
            &&& spec_intern(after, s) == (symbol, after)
            &&& distinct_strings(after)
        }),
{
    lemma_index_of(strings, s);
    let (symbol, after) = spec_intern(strings, s);
    if index_of(strings, s) < 0 {
        assert(after[strings.len() as int] == s);
        assert(distinct_strings(after)) by {
            assert forall|i: int, j: int| 0 <= i < j < after.len() implies after[i] != after[j] by {
                assert(after[i] == strings[i]);
                if j < strings.len() {
                    assert(after[j] == strings[j]);
                }
            }
        }
        lemma_index_of(after, s);
        assert(after[after.len() - 1] == s);
    }
}

/// Two distinct strings interned one after the other get distinct symbols.
pub proof fn law_intern_injective(strings: Seq<Seq<char>>, s: Seq<char>, t: Seq<char>)
    requires
        distinct_strings(strings),
        strings.len() + 1 < usize::MAX,
        s != t,
    ensures
        ({
            let (a, after) = spec_intern(strings, s);
            let (b, _) = spec_intern(after, t);
            a != b
        }),
{
    law_intern_resolves_and_is_idempotent(strings, s);
    let (a, after) = spec_intern(strings, s);
    law_intern_resolves_and_is_idempotent(after, t);
}

} // verus!
