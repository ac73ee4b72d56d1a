//! Small generic helpers.
use vstd::prelude::*;
use core::cmp::Ordering;
use vstd::std_specs::cmp::PartialOrdSpec;

verus! {

/// Returns the minimum and the maximum of `v1` and `v2` with respect to the key `f`.
///
/// Returns `[v1, v2]` when the keys compare equal (or are unordered): only a key of `v2`
/// strictly below that of `v1` swaps them.
pub fn minmax_by_key<T, F, K>(v1: T, v2: T, mut f: F) -> (r: [T; 2]) where
    F: FnMut(&T) -> K,
    K: PartialOrd,

    requires
        f.requires((&v1,)),
        f.requires((&v2,)),
    ensures
        r@ == seq![v1, v2] || r@ == seq![v2, v1],
        exists|k1: K, k2: K|
            {
                &&& #[trigger] f.ensures((&v1,), k1)
                &&& #[trigger] f.ensures((&v2,), k2)
                &&& K::obeys_partial_cmp_spec() ==> r@ == if k2.partial_cmp_spec(&k1) == Some(
                    Ordering::Less,
                ) {
                    seq![v2, v1]
                } else {
                    seq![v1, v2]
                }
            },
{
    let k2 = f(&v2);
    let k1 = f(&v1);
    if k2 < k1 {
        [v2, v1]
    } else {
        [v1, v2]
    }
}

} // verus!
