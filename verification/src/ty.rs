//! The types of the language, and the type information attached to typed nodes.
use vstd::prelude::*;

use crate::ident::{Span, Symbol};

verus! {

/// A type of the language.
#[derive(Debug)]
pub enum Ty {
    Int,
    Uint,
    Boolean,
    Unit,
    Never,
    Array { inner: Box<Ty>, size: u32 },
}

/// Two types are compatible when they are equal, or when either is `Never`
/// (a value of type `Never` is never produced, so it stands for any type).
pub open spec fn ty_compatible(a: Ty, b: Ty) -> bool {
    a == b || a is Never || b is Never
}

impl Ty {
    /// Structural equality of two types.
    pub fn same(&self, other: &Ty) -> (r: bool)
        ensures
            r == (*self == *other),
        decreases self,
    {
        match (self, other) {
            (Ty::Int, Ty::Int) => true,
            (Ty::Uint, Ty::Uint) => true,
            (Ty::Boolean, Ty::Boolean) => true,
            (Ty::Unit, Ty::Unit) => true,
            (Ty::Never, Ty::Never) => true,
            (Ty::Array { inner: a, size: n }, Ty::Array { inner: b, size: m }) => {
                if *n == *m {
                    let r = (**a).same(&**b);
                    proof {
                        if r {
                            assert(*self == *other);
                        }
                    }
                    r
                } else {
                    false
                }
            },
            _ => false,
        }
    }

    /// A copy of this type.
    pub fn duplicate(&self) -> (r: Ty)
        ensures
            r == *self,
        decreases self,
    {
        match self {
            Ty::Int => Ty::Int,
            Ty::Uint => Ty::Uint,
            Ty::Boolean => Ty::Boolean,
            Ty::Unit => Ty::Unit,
            Ty::Never => Ty::Never,
            Ty::Array { inner, size } => Ty::Array { inner: Box::new((**inner).duplicate()), size: *size },
        }
    }

    /// Whether a value of this type may stand where `other` is expected.
    pub fn check(&self, other: &Ty) -> (r: bool)
        ensures
            r == ty_compatible(*self, *other),
    {
        if self.same(other) {
            true
        } else {
            match (self, other) {
                (Ty::Never, _) => true,
                (_, Ty::Never) => true,
                _ => false,
            }
        }
    }
}

/// An error raised while checking the types of a program.
#[derive(Debug)]
pub enum TyError {
    /// Two types were expected to agree but did not.
    Mismatch(Ty, Ty),
    /// A return type did not match what was expected.
    Return { expected: Option<Ty>, found: Option<Ty> },
    /// A value of the first type cannot be cast to the second.
    Cast(Ty, Ty),
    /// A value of this type cannot be indexed.
    Index(Ty),
    /// No binding or function is known for this symbol.
    SymbolNotFound(Symbol),
    /// A call passed a number of arguments other than the function's parameter count.
    ArgumentCount { parameters: usize, arguments: usize },
}

/// A type as written in the source, with where it was written.
#[derive(Debug)]
pub struct TySpanned {
    pub ty: Ty,
    pub span: Span,
}

/// The type of a node, and the type of any value returned from within it.
#[derive(Debug)]
pub struct TyInfo {
    pub ty: Ty,
    pub return_ty: Option<Ty>,
}

/// The signature of a function: its parameter types and its return type.
#[derive(Debug)]
pub struct FunctionSignature {
    pub arguments: Vec<Ty>,
    pub return_ty: Ty,
}

/// The types of `s` other than `Never`, in order.
pub open spec fn drop_never(s: Seq<Ty>) -> Seq<Ty>
    decreases s.len(),
{
    if s.len() == 0 {
        Seq::empty()
    } else if s.last() is Never {
        drop_never(s.drop_last())
    } else {
        drop_never(s.drop_last()).push(s.last())
    }
}

/// The present types of a sequence of optional types, in order.
pub open spec fn flatten_tys(s: Seq<Option<Ty>>) -> Seq<Ty>
    decreases s.len(),
{
    if s.len() == 0 {
        Seq::empty()
    } else {
        match s.last() {
            Some(t) => flatten_tys(s.drop_last()).push(t),
            None => flatten_tys(s.drop_last()),
        }
    }
}

/// Whether every element of `s` equals its first.
pub open spec fn all_equal(s: Seq<Ty>) -> bool {
    forall|i: int| 0 <= i < s.len() ==> #[trigger] s[i] == s[0]
}

/// The index of the first element of `s` that differs from `s[0]`.
pub open spec fn first_differing(s: Seq<Ty>) -> int {
    choose|i: int| 0 < i < s.len() && #[trigger] s[i] != s[0] && forall|j: int| 0 <= j < i ==> #[trigger] s[j] == s[0]
}

/// Collapse a sequence of types into the single type they all share, ignoring
/// `Never`: no type when none is left, and a mismatch between the first type and
/// the first one that differs from it otherwise.
#[verifier::opaque]
pub open spec fn spec_collapse(s: Seq<Ty>) -> Result<Option<Ty>, TyError> {
    let f = drop_never(s);
    if f.len() == 0 {
        Ok(None)
    } else if all_equal(f) {
        Ok(Some(f[0]))
    } else {
        Err(TyError::Mismatch(f[0], f[first_differing(f)]))
    }
}

/// The type information built from the types a node may take and the types it may return.
pub open spec fn spec_ty_info(tys: Seq<Ty>, ret_tys: Seq<Option<Ty>>) -> Result<TyInfo, TyError> {
    match spec_collapse(tys) {
        Err(e) => Err(e),
        Ok(ty) => match spec_collapse(flatten_tys(ret_tys)) {
            Err(e) => Err(e),
            Ok(ret) => Ok(TyInfo { ty: match ty { Some(t) => t, None => Ty::Never }, return_ty: ret }),
        },
    }
}

/// The type information of a node of type `ty` that may return the given types.
pub open spec fn spec_ty_info_with(ty: Ty, ret_tys: Seq<Option<Ty>>) -> Result<TyInfo, TyError> {
    match spec_collapse(flatten_tys(ret_tys)) {
        Err(e) => Err(e),
        Ok(ret) => Ok(TyInfo { ty: ty, return_ty: ret }),
    }
}

/// Collapse a list of types into the single type they all share, ignoring `Never`.
pub fn collapse(tys: Vec<Ty>) -> (r: Result<Option<Ty>, TyError>)
    ensures
        r == spec_collapse(tys@),
{
    reveal(spec_collapse);
    // Keep only the types that are not `Never`
    let mut kept: Vec<Ty> = Vec::new();
    let mut i: usize = 0;
    while i < tys.len()
        invariant
            i <= tys.len(),
            kept@ == drop_never(tys@.take(i as int)),
        decreases tys.len() - i,
    {
        assert(tys@.take(i + 1).drop_last() == tys@.take(i as int));
        if !matches!(tys[i], Ty::Never) {
            kept.push(tys[i].duplicate());
        }
        i = i + 1;
    }
    assert(tys@.take(tys.len() as int) == tys@);
    if kept.len() == 0 {
        reveal(spec_collapse);
        return Ok(None);
    }
    let mut j: usize = 1;
    while j < kept.len()
        invariant
            1 <= j <= kept.len(),
            kept@ == drop_never(tys@),
            forall|k: int| 0 <= k < j ==> #[trigger] kept@[k] == kept@[0],
        decreases kept.len() - j,
    {
        if !kept[j].same(&kept[0]) {
            let ghost f = kept@;
            assert(0 < j < f.len() && f[j as int] != f[0] && forall|k: int| 0 <= k < j ==> #[trigger] f[k] == f[0]);
            let ghost w = first_differing(f);
            assert(w == j) by {
                assert(0 < w < f.len() && f[w] != f[0] && forall|k: int| 0 <= k < w ==> #[trigger] f[k] == f[0]);
                if w < j {
                } else if w > j {
                    assert(f[j as int] == f[0]);
                }
            }
            reveal(spec_collapse);
            assert(!all_equal(f));
            assert(drop_never(tys@) == f);
            assert(spec_collapse(tys@) == Err::<Option<Ty>, TyError>(TyError::Mismatch(f[0], f[j as int])));
            return Err(TyError::Mismatch(kept[0].duplicate(), kept[j].duplicate()));
        }
        j = j + 1;
    }
    reveal(spec_collapse);
    assert(all_equal(kept@));
    Ok(Some(kept[0].duplicate()))
}

/// The present types of a list of optional types, in order.
pub fn flatten(tys: Vec<Option<Ty>>) -> (r: Vec<Ty>)
    ensures
        r@ == flatten_tys(tys@),
{
    let mut out: Vec<Ty> = Vec::new();
    let mut i: usize = 0;
    while i < tys.len()
        invariant
            i <= tys.len(),
            out@ == flatten_tys(tys@.take(i as int)),
        decreases tys.len() - i,
    {
        assert(tys@.take(i + 1).drop_last() == tys@.take(i as int));
        match &tys[i] {
            Some(t) => out.push(t.duplicate()),
            None => {},
        }
        i = i + 1;
    }
    assert(tys@.take(tys.len() as int) == tys@);
    out
}

/// A copy of an optional type.
pub fn duplicate_option(t: &Option<Ty>) -> (r: Option<Ty>)
    ensures
        r == *t,
{
    match t {
        Some(t) => Some(t.duplicate()),
        None => None,
    }
}

impl TyInfo {
    /// Type information for a node whose type is the type shared by `tys`
    /// (`Never` if none), and whose return type is the one shared by `ret_tys`.
    pub fn from_parts(tys: Vec<Ty>, ret_tys: Vec<Option<Ty>>) -> (r: Result<TyInfo, TyError>)
        ensures
            r == spec_ty_info(tys@, ret_tys@),
    {
        let ty = match collapse(tys) {
            Ok(Some(t)) => t,
            Ok(None) => Ty::Never,
            Err(e) => return Err(e),
        };
        let return_ty = collapse(flatten(ret_tys))?;
        Ok(TyInfo { ty, return_ty })
    }

    /// Type information for a node of type `ty`, whose return type is the one shared by `ret_tys`.
    pub fn with_ty(ty: Ty, ret_tys: Vec<Option<Ty>>) -> (r: Result<TyInfo, TyError>)
        ensures
            r == spec_ty_info_with(ty, ret_tys@),
    {
        let return_ty = collapse(flatten(ret_tys))?;
        Ok(TyInfo { ty, return_ty })
    }

    /// A copy of this type information.
    pub fn duplicate(&self) -> (r: TyInfo)
        ensures
            r == *self,
    {
        TyInfo {
            ty: self.ty.duplicate(),
            return_ty: match &self.return_ty {
                Some(t) => Some(t.duplicate()),
                None => None,
            },
        }
    }
}

impl Clone for Ty {
    fn clone(&self) -> (r: Ty)
        ensures
            r == *self,
    {
        self.duplicate()
    }
}

impl PartialEq for Ty {
    fn eq(&self, other: &Ty) -> (r: bool) {
        self.same(other)
    }
}

impl vstd::std_specs::cmp::PartialEqSpecImpl for Ty {
    open spec fn obeys_eq_spec() -> bool {
        true
    }

    open spec fn eq_spec(&self, other: &Ty) -> bool {
        *self == *other
    }
}

impl Eq for Ty {
}

/// Compatibility of types is reflexive and symmetric, and `Never` is
/// compatible with every type.
pub proof fn law_check_reflexive_symmetric(a: Ty, b: Ty)
    ensures
        ty_compatible(a, a),
        ty_compatible(a, b) == ty_compatible(b, a),
        ty_compatible(Ty::Never, b),
{
}

} // verus!
