//! What the buffer asks of its element type, and what "sorted" means.
use vstd::prelude::*;
use vstd::laws_cmp::{obeys_cmp_partial_ord, obeys_partial_cmp_spec_properties};
use vstd::laws_eq::obeys_concrete_eq;
use vstd::std_specs::cmp::{PartialEqSpec, PartialOrdSpec};
use core::cmp::Ordering;

verus! {

/// The element type's `==` is value identity and `partial_cmp` follows the
/// laws of an ordering that agrees with `==`.
pub open spec fn comparable<T: PartialOrd>() -> bool {
    &&& obeys_concrete_eq::<T>()
    &&& obeys_cmp_partial_ord::<T>()
    &&& obeys_partial_cmp_spec_properties::<T>()
}

/// `a` orders strictly before `b`.
pub open spec fn precedes<T: PartialOrd>(a: T, b: T) -> bool {
    a.partial_cmp_spec(&b) == Some(Ordering::Less)
}

/// `a` orders before `b` or is equal to it.
pub open spec fn precedes_or_eq<T: PartialOrd>(a: T, b: T) -> bool {
    a == b || precedes(a, b)
}

/// The window `lo..=hi` of `s` is in non-decreasing order.
pub open spec fn sorted_between<T: PartialOrd>(s: Seq<T>, lo: int, hi: int) -> bool {
    forall|i: int, j: int| lo <= i < j <= hi ==> #[trigger] precedes_or_eq(s[i], s[j])
}

/// All of `s` is in non-decreasing order.
pub open spec fn sorted<T: PartialOrd>(s: Seq<T>) -> bool {
    sorted_between(s, 0, s.len() - 1)
}

/// The comparison operators of a `comparable` type follow their specification,
/// and `==` on it is value identity.
pub proof fn lemma_comparable_operators<T: PartialOrd>()
    requires
        comparable::<T>(),
    ensures
        T::obeys_eq_spec(),
        T::obeys_partial_cmp_spec(),
        forall|a: T, b: T| a.eq_spec(&b) <==> a == b,
{
    reveal(obeys_concrete_eq);
    reveal(obeys_cmp_partial_ord);
}

/// Nothing precedes itself.
pub proof fn lemma_irreflexive<T: PartialOrd>(a: T)
    requires
        comparable::<T>(),
    ensures
        !precedes(a, a),
{
    reveal(obeys_concrete_eq);
    reveal(obeys_cmp_partial_ord);
    assert(a.eq_spec(&a));
}

/// `precedes` is transitive.
pub proof fn lemma_transitive<T: PartialOrd>(a: T, b: T, c: T)
    requires
        comparable::<T>(),
        precedes(a, b),
        precedes(b, c),
    ensures
        precedes(a, c),
{
    reveal(obeys_partial_cmp_spec_properties);
    assert(b.partial_cmp_spec(&c) == Some(Ordering::Less));
}

/// `i32` meets `comparable`.
pub proof fn lemma_i32_comparable()
    ensures
        comparable::<i32>(),
{
    broadcast use vstd::laws_cmp::group_laws_cmp;
    broadcast use vstd::laws_eq::group_laws_eq;
    assert(vstd::laws_cmp::obeys_cmp::<i32>());
    assert(obeys_concrete_eq::<i32>());
}

} // verus!
