//! Whether a type mentions a constructor of the local crate.

use vstd::prelude::*;

use crate::types::{Crate, Type};

verus! {

/// A local constructor occurs somewhere in `ty`, descending through
/// constructors of any crate. A local constructor answers at once; its
/// arguments are not looked at.
pub open spec fn references_local(ty: Type) -> bool
    decreases ty,
{
    match ty {
        Type::Concrete(Crate::Local, _) => true,
        Type::Concrete(Crate::Remote, tys) => any_references_local(tys@),
        Type::Parameter(_) => false,
    }
}

/// Some element of `tys` references the local crate.
pub open spec fn any_references_local(tys: Seq<Type>) -> bool
    decreases tys,
{
    if tys.len() == 0 {
        false
    } else {
        any_references_local(tys.subrange(0, tys.len() - 1))
            || references_local(tys[tys.len() - 1])
    }
}

/// `any_references_local` holds exactly when one element references the
/// local crate.
pub proof fn lemma_any_references_local(tys: Seq<Type>)
    ensures
        any_references_local(tys) <==> exists|i: int|
            0 <= i < tys.len() && #[trigger] references_local(tys[i]),
    decreases tys.len(),
{
    if tys.len() > 0 {
        let init = tys.subrange(0, tys.len() - 1);
        lemma_any_references_local(init);
        assert forall|i: int| 0 <= i < init.len() implies init[i] == tys[i] by {}
        if references_local(tys[tys.len() - 1]) {
            assert(references_local(tys[tys.len() - 1]));
        }
        if exists|i: int| 0 <= i < tys.len() && #[trigger] references_local(tys[i]) {
            let i = choose|i: int| 0 <= i < tys.len() && #[trigger] references_local(tys[i]);
            if i < tys.len() - 1 {
                assert(references_local(init[i]));
            }
        }
    }
}

/// True if the type `ty` references anything local.
pub fn type_local(ty: &Type) -> (r: bool)
    ensures
        r == references_local(*ty),
    decreases ty,
{
    match ty {
        Type::Concrete(Crate::Local, _) => true,
        Type::Concrete(Crate::Remote, tys) => {
            proof {
                assert(decreases_to!(*ty => (*ty)->1));
            }
            any_type_local(tys.as_slice())
        },
        Type::Parameter(_) => false,
    }
}

/// True if some element of `tys` references anything local.
pub fn any_type_local(tys: &[Type]) -> (r: bool)
    ensures
        r == any_references_local(tys@),
    decreases tys@,
{
    let mut i: usize = 0;
    while i < tys.len()
        invariant
            i <= tys@.len(),
            forall|j: int| 0 <= j < i ==> !#[trigger] references_local(tys@[j]),
        decreases tys@.len() - i,
    {
        proof {
            assert(decreases_to!(tys@ => tys@[i as int]));
        }
        if type_local(&tys[i]) {
            proof {
                assert(references_local(tys@[i as int]));
                lemma_any_references_local(tys@);
            }
            return true;
        }
        i = i + 1;
    }
    proof {
        lemma_any_references_local(tys@);
    }
    false
}

} // verus!
