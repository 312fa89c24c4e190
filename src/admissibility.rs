//! Whether the local crate may implement a trait of `krate` for the given
//! type arguments.

use vstd::prelude::*;

use crate::coverage::{
    covered_of, covered_of_all, covered_params_in_tys, lemma_covered_of_all, lemma_params_of_all,
    params_in_tys, params_of, params_of_all,
};
use crate::locality::{any_references_local, any_type_local, lemma_any_references_local, references_local};
use crate::types::{Crate, Type};

verus! {

/// A trait of the local crate may be implemented for any types. A trait of
/// another crate may be implemented only where some argument references the
/// local crate and every parameter that occurs in the arguments is covered by
/// a local constructor somewhere among them.
pub open spec fn is_admissible(krate: Crate, tys: Seq<Type>) -> bool {
    match krate {
        Crate::Local => true,
        Crate::Remote => {
            &&& any_references_local(tys)
            &&& params_of_all(tys).subset_of(covered_of_all(tys))
        },
    }
}

/// True if it is ok to apply a trait defined in `krate` to the types `types`.
pub fn ok(krate: Crate, types: &[Type]) -> (r: bool)
    ensures
        r == is_admissible(krate, types@),
        krate == Crate::Local ==> r,
{
    match krate {
        Crate::Local => true,
        Crate::Remote => {
            if !any_type_local(types) {
                return false;
            }
            let covered_params = covered_params_in_tys(types);
            let all_params = params_in_tys(types);
            all_params.is_subset(&covered_params)
        },
    }
}

/// True if it is not ok to apply a trait defined in `krate` to the types
/// `types`.
pub fn not_ok(krate: Crate, types: &[Type]) -> (r: bool)
    ensures
        r == !is_admissible(krate, types@),
{
    !ok(krate, types)
}

/// The decision depends on the query alone: asking again about the same trait
/// crate and the same arguments gives the same answer.
pub proof fn lemma_admissible_repeatable(krate: Crate, a: Seq<Type>, b: Seq<Type>)
    requires
        a == b,
    ensures
        is_admissible(krate, a) == is_admissible(krate, b),
{
}

/// Two argument lists with the same elements, in whatever order and however
/// often each occurs, reference the local crate alike, hold the same
/// parameters and cover the same ones.
pub proof fn lemma_same_elements(a: Seq<Type>, b: Seq<Type>)
    requires
        forall|x: Type| a.contains(x) <==> b.contains(x),
    ensures
        any_references_local(a) == any_references_local(b),
        params_of_all(a) == params_of_all(b),
        covered_of_all(a) == covered_of_all(b),
{
    lemma_any_references_local(a);
    lemma_any_references_local(b);
    if any_references_local(a) {
        let i = choose|i: int| 0 <= i < a.len() && #[trigger] references_local(a[i]);
        assert(a.contains(a[i]));
    }
    if any_references_local(b) {
        let i = choose|i: int| 0 <= i < b.len() && #[trigger] references_local(b[i]);
        assert(b.contains(b[i]));
    }
    assert forall|p: usize| params_of_all(a).contains(p) == params_of_all(b).contains(p) by {
        lemma_params_of_all(a, p);
        lemma_params_of_all(b, p);
        if params_of_all(a).contains(p) {
            let i = choose|i: int| 0 <= i < a.len() && #[trigger] params_of(a[i]).contains(p);
            assert(a.contains(a[i]));
        }
        if params_of_all(b).contains(p) {
            let i = choose|i: int| 0 <= i < b.len() && #[trigger] params_of(b[i]).contains(p);
            assert(b.contains(b[i]));
        }
    }
    assert forall|p: usize| covered_of_all(a).contains(p) == covered_of_all(b).contains(p) by {
        lemma_covered_of_all(a, p);
        lemma_covered_of_all(b, p);
        if covered_of_all(a).contains(p) {
            let i = choose|i: int| 0 <= i < a.len() && #[trigger] covered_of(a[i]).contains(p);
            assert(a.contains(a[i]));
        }
        if covered_of_all(b).contains(p) {
            let i = choose|i: int| 0 <= i < b.len() && #[trigger] covered_of(b[i]).contains(p);
            assert(b.contains(b[i]));
        }
    }
    assert(params_of_all(a) =~= params_of_all(b));
    assert(covered_of_all(a) =~= covered_of_all(b));
}

/// The order of the arguments does not matter: any permutation of an
/// argument list gets the same decision.
pub proof fn lemma_admissible_permutation(krate: Crate, a: Seq<Type>, b: Seq<Type>)
    requires
        a.to_multiset() == b.to_multiset(),
    ensures
        is_admissible(krate, a) == is_admissible(krate, b),
{
    assert forall|x: Type| a.contains(x) <==> b.contains(x) by {
        vstd::seq_lib::to_multiset_contains(a, x);
        vstd::seq_lib::to_multiset_contains(b, x);
    }
    lemma_same_elements(a, b);
}

} // verus!
