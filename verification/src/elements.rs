//! Persistent element sequences for array literals.
//!
//! An array-construction instruction carries its element handles in
//! `im::Vector`, a persistent sequence with structural sharing, so that
//! duplicating an array (for example when code is copied between blocks) is
//! O(1) and never mutates the shared elements.  The graph only ever builds,
//! clones, measures and reads such sequences; every call goes through the
//! trusted wrappers below, whose contracts speak of [`elems`], the sequence of
//! element handles the vector holds.

use vstd::prelude::*;

verus! {

#[verifier::external_type_specification]
#[verifier::external_body]
#[verifier::reject_recursive_types(A)]
pub struct ExImVector<A>(im::Vector<A>);

/// The element handles a persistent vector holds, in order.
pub uninterp spec fn elems(v: im::Vector<usize>) -> Seq<usize>;

/// Relies on `im::Vector::len`: the number of elements held.
#[verifier::external_body]
pub fn ivec_len(v: &im::Vector<usize>) -> (r: usize)
    ensures
        r == elems(*v).len(),
{
    v.len()
}

/// Relies on `im::Vector::get`: the element at the index, when in range.
#[verifier::external_body]
pub fn ivec_get(v: &im::Vector<usize>, index: usize) -> (r: Option<usize>)
    ensures
        r == if index < elems(*v).len() {
            Some(elems(*v)[index as int])
        } else {
            Option::<usize>::None
        },
{
    v.get(index).copied()
}

/// Relies on `im::Vector::clone`: an O(1) structurally shared copy holding
/// the same elements.
#[verifier::external_body]
pub fn ivec_clone(v: &im::Vector<usize>) -> (r: im::Vector<usize>)
    ensures
        elems(r) == elems(*v),
{
    v.clone()
}

} // verus!
