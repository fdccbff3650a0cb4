//! The optional-arithmetic core: one combinator that applies a fallible
//! binary operation to two optional values, short-circuiting to `None`
//! whenever either input is absent. Every arithmetic operation of the
//! wrapper types routes through it, which is what makes absence an
//! absorbing element throughout the crate.

use vstd::prelude::*;

verus! {

/// Applies `f` to the payloads of `x` and `y` if both are present;
/// otherwise the result is absent. Absence thereby propagates through
/// every operation built on top of this combinator.
pub fn pair_and_then<A, B, C, F: FnOnce(A, B) -> Option<C>>(x: Option<A>, y: Option<B>, f: F) -> (r:
    Option<C>)
    requires
        x is Some && y is Some ==> call_requires(f, (x->Some_0, y->Some_0)),
    ensures
        x is None || y is None ==> r is None,
        x is Some && y is Some ==> call_ensures(f, (x->Some_0, y->Some_0), r),
{
    match (x, y) {
        (Some(a), Some(b)) => f(a, b),
        _ => None,
    }
}

} // verus!
