//! Which generic parameters occur in a list of types, and which of them are
//! covered by a local constructor.

use vstd::prelude::*;

use crate::index_set::IndexSet;
use crate::types::{Crate, Type};

verus! {

/// Every parameter index that occurs anywhere in `ty`.
pub open spec fn params_of(ty: Type) -> Set<usize>
    decreases ty,
{
    match ty {
        Type::Concrete(_, tys) => params_of_all(tys@),
        Type::Parameter(i) => set![i],
    }
}

/// Every parameter index that occurs anywhere in an element of `tys`.
pub open spec fn params_of_all(tys: Seq<Type>) -> Set<usize>
    decreases tys,
{
    if tys.len() == 0 {
        Set::empty()
    } else {
        params_of_all(tys.subrange(0, tys.len() - 1)).union(params_of(tys[tys.len() - 1]))
    }
}

/// The parameter indices that `ty` covers: all those inside the arguments of
/// a local constructor; those covered inside the arguments of a remote one;
/// none for a bare parameter.
pub open spec fn covered_of(ty: Type) -> Set<usize>
    decreases ty,
{
    match ty {
        Type::Concrete(Crate::Local, tys) => params_of_all(tys@),
        Type::Concrete(Crate::Remote, tys) => covered_of_all(tys@),
        Type::Parameter(_) => Set::empty(),
    }
}

/// The parameter indices that some element of `tys` covers.
pub open spec fn covered_of_all(tys: Seq<Type>) -> Set<usize>
    decreases tys,
{
    if tys.len() == 0 {
        Set::empty()
    } else {
        covered_of_all(tys.subrange(0, tys.len() - 1)).union(covered_of(tys[tys.len() - 1]))
    }
}

/// An index occurs in `tys` exactly when it occurs in one of its elements.
pub proof fn lemma_params_of_all(tys: Seq<Type>, p: usize)
    ensures
        params_of_all(tys).contains(p) <==> exists|i: int|
            0 <= i < tys.len() && #[trigger] params_of(tys[i]).contains(p),
    decreases tys.len(),
{
    if tys.len() > 0 {
        let init = tys.subrange(0, tys.len() - 1);
        lemma_params_of_all(init, p);
        if params_of(tys[tys.len() - 1]).contains(p) {
            assert(params_of(tys[tys.len() - 1]).contains(p));
        }
        if exists|i: int| 0 <= i < tys.len() && #[trigger] params_of(tys[i]).contains(p) {
            let i = choose|i: int| 0 <= i < tys.len() && #[trigger] params_of(tys[i]).contains(p);
            if i < tys.len() - 1 {
                assert(params_of(init[i]).contains(p));
            }
        }
        if exists|i: int| 0 <= i < init.len() && #[trigger] params_of(init[i]).contains(p) {
            let i = choose|i: int| 0 <= i < init.len() && #[trigger] params_of(init[i]).contains(p);
            assert(params_of(tys[i]).contains(p));
        }
    }
}

/// An index is covered in `tys` exactly when one of its elements covers it.
pub proof fn lemma_covered_of_all(tys: Seq<Type>, p: usize)
    ensures
        covered_of_all(tys).contains(p) <==> exists|i: int|
            0 <= i < tys.len() && #[trigger] covered_of(tys[i]).contains(p),
    decreases tys.len(),
{
    if tys.len() > 0 {
        let init = tys.subrange(0, tys.len() - 1);
        lemma_covered_of_all(init, p);
        if covered_of(tys[tys.len() - 1]).contains(p) {
            assert(covered_of(tys[tys.len() - 1]).contains(p));
        }
        if exists|i: int| 0 <= i < tys.len() && #[trigger] covered_of(tys[i]).contains(p) {
            let i = choose|i: int| 0 <= i < tys.len() && #[trigger] covered_of(tys[i]).contains(p);
            if i < tys.len() - 1 {
                assert(covered_of(init[i]).contains(p));
            }
        }
        if exists|i: int| 0 <= i < init.len() && #[trigger] covered_of(init[i]).contains(p) {
            let i = choose|i: int| 0 <= i < init.len() && #[trigger] covered_of(init[i]).contains(p);
            assert(covered_of(tys[i]).contains(p));
        }
    }
}

/// The parameter indices covered by some element of `tys`.
pub fn covered_params_in_tys(tys: &[Type]) -> (r: IndexSet)
    ensures
        r@ == covered_of_all(tys@),
    decreases tys@,
{
    let mut set = IndexSet::new();
    let mut i: usize = 0;
    while i < tys.len()
        invariant
            i <= tys@.len(),
            set@ == covered_of_all(tys@.subrange(0, i as int)),
        decreases tys@.len() - i,
    {
        proof {
            assert(decreases_to!(tys@ => tys@[i as int]));
            assert(tys@.subrange(0, i + 1).subrange(0, i as int) =~= tys@.subrange(0, i as int));
        }
        let covered = covered_params_in_ty(&tys[i]);
        set.union_with(&covered);
        i = i + 1;
    }
    proof {
        assert(tys@.subrange(0, i as int) =~= tys@);
    }
    set
}

/// The parameter indices that `ty` covers.
pub fn covered_params_in_ty(ty: &Type) -> (r: IndexSet)
    ensures
        r@ == covered_of(*ty),
    decreases ty,
{
    match ty {
        Type::Concrete(Crate::Local, tys) => {
            proof {
                assert(decreases_to!(*ty => (*ty)->1));
            }
            params_in_tys(tys.as_slice())
        },
        Type::Concrete(Crate::Remote, tys) => {
            proof {
                assert(decreases_to!(*ty => (*ty)->1));
            }
            covered_params_in_tys(tys.as_slice())
        },
        Type::Parameter(_) => IndexSet::new(),
    }
}

/// Every parameter index that occurs in some element of `tys`.
pub fn params_in_tys(tys: &[Type]) -> (r: IndexSet)
    ensures
        r@ == params_of_all(tys@),
    decreases tys@,
{
    let mut set = IndexSet::new();
    let mut i: usize = 0;
    while i < tys.len()
        invariant
            i <= tys@.len(),
            set@ == params_of_all(tys@.subrange(0, i as int)),
        decreases tys@.len() - i,
    {
        proof {
            assert(decreases_to!(tys@ => tys@[i as int]));
            assert(tys@.subrange(0, i + 1).subrange(0, i as int) =~= tys@.subrange(0, i as int));
        }
        let params = params_in_ty(&tys[i]);
        set.union_with(&params);
        i = i + 1;
    }
    proof {
        assert(tys@.subrange(0, i as int) =~= tys@);
    }
    set
}

/// Every parameter index that occurs anywhere in `ty`.
pub fn params_in_ty(ty: &Type) -> (r: IndexSet)
    ensures
        r@ == params_of(*ty),
    decreases ty,
{
    match ty {
        Type::Concrete(_, tys) => {
            proof {
                assert(decreases_to!(*ty => (*ty)->1));
            }
            params_in_tys(tys.as_slice())
        },
        Type::Parameter(i) => {
            let mut r = IndexSet::new();
            r.insert(*i);
            proof {
                assert(r@ =~= set![*i]);
            }
            r
        },
    }
}

} // verus!
