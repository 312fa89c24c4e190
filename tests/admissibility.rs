use coherence::Crate::{Local, Remote};
use coherence::Type::{Concrete, Parameter};
use coherence::{not_ok, ok, Type};

fn local(args: Vec<Type>) -> Type {
    Concrete(Local, args)
}

fn remote(args: Vec<Type>) -> Type {
    Concrete(Remote, args)
}

#[test]
fn lone_type_parameter() {
    // `impl<T> Show for T` -- not ok
    assert!(not_ok(Remote, &[Parameter(0)]));
}

#[test]
fn type_parameter() {
    // `impl<T> Show for Foo<T>` -- ok
    assert!(ok(Remote, &[local(vec![Parameter(0)])]));
}

#[test]
fn overlapping_pairs() {
    // `impl<T> Show for Pair<Option<T>, Option<Foo>>` -- bad, because another
    // crate could write `impl<T> Show for Pair<Option<Bar>, Option<T>>`.
    assert!(not_ok(
        Remote,
        &[remote(vec![
            remote(vec![Parameter(0)]),
            remote(vec![local(vec![])]),
        ])]
    ));
}

#[test]
fn bigint_int() {
    // `impl Add<Foo> for int` -- ok
    assert!(ok(Remote, &[local(vec![]), remote(vec![])]));
}

#[test]
fn bigint_vecint() {
    // `impl Add<Foo> for Vec<int>` -- ok
    assert!(ok(Remote, &[local(vec![]), remote(vec![remote(vec![])])]));
}

#[test]
fn bigint_param() {
    // `impl Add<Foo> for T` -- not ok
    assert!(not_ok(Remote, &[local(vec![]), Parameter(0)]));
}

#[test]
fn blanket() {
    // `impl<T> Foo for T` -- ok
    assert!(ok(Local, &[Parameter(0)]));
}

#[test]
fn vec_local_1() {
    // `impl Clone for Vec<Foo>` -- ok
    assert!(ok(Remote, &[remote(vec![local(vec![])])]));
}

#[test]
fn vec_local_2() {
    // `impl<T> Clone for Vec<Foo<T>>` -- ok
    assert!(ok(Remote, &[remote(vec![local(vec![Parameter(0)])])]));
}

#[test]
fn all_remote() {
    // `impl Clone for int` -- not ok
    assert!(not_ok(Remote, &[remote(vec![remote(vec![])])]));
}

#[test]
fn iterator_vec() {
    // `impl Iterator<T> for Foo<T>` -- ok
    assert!(ok(Remote, &[Parameter(0), local(vec![Parameter(0)])]));
}

#[test]
fn iterator_vec_any_elem() {
    // `impl Iterator<U> for Foo<T>` -- not ok
    assert!(not_ok(Remote, &[Parameter(1), local(vec![Parameter(0)])]));
}

#[test]
fn aturon1() {
    // Crate A: trait A<T> { ... }
    // Crate B: struct B<T> { ... } impl<T> A<B<T>> for T { ... }
    // Crate C: struct C { ... } impl<T> A<T> for C { ... }
    assert!(ok(Remote, &[Parameter(0), local(vec![Parameter(0)])]));
    assert!(not_ok(Remote, &[local(vec![]), Parameter(0)]));
}
