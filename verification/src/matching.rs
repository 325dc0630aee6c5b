//! Matching between two keyed lists with distinct keys: when every entry of
//! one list has a related entry under the same key in the other, and both
//! have the same length, the matching also runs the other way.

use vstd::prelude::*;

verus! {

/// No two entries share a key.
pub open spec fn keys_distinct<A, B>(x: Seq<(A, B)>) -> bool {
    forall|i: int, j: int| 0 <= i < x.len() && 0 <= j < x.len() && i != j ==> x[i].0 != x[j].0
}

/// `y` has an entry under the key of `p` whose value `p`'s value relates to.
pub open spec fn related_in<A, B>(y: Seq<(A, B)>, p: (A, B), r: spec_fn(B, B) -> bool) -> bool {
    exists|k: int| 0 <= k < y.len() && y[k].0 == p.0 && r(p.1, y[k].1)
}

/// `x` has an entry under the key of `q` whose value relates to `q`'s value.
pub open spec fn related_from<A, B>(x: Seq<(A, B)>, q: (A, B), r: spec_fn(B, B) -> bool) -> bool {
    exists|i: int| 0 <= i < x.len() && x[i].0 == q.0 && r(x[i].1, q.1)
}

/// A key-preserving matching from `x` into `y`, lists of the same length
/// with distinct keys, reaches every entry of `y`.
pub proof fn lemma_matching_onto<A, B>(x: Seq<(A, B)>, y: Seq<(A, B)>, r: spec_fn(B, B) -> bool)
    requires
        x.len() == y.len(),
        keys_distinct(x),
        keys_distinct(y),
        forall|i: int| 0 <= i < x.len() ==> #[trigger] related_in(y, x[i], r),
    ensures
        forall|j: int| 0 <= j < y.len() ==> #[trigger] related_from(x, y[j], r),
    decreases x.len(),
{
    if x.len() > 0 {
        let n = x.len() - 1;
        assert(related_in(y, x[n], r));
        let k = choose|k: int| 0 <= k < y.len() && y[k].0 == x[n].0 && r(x[n].1, y[k].1);
        let xs = x.drop_last();
        let ys = y.remove(k);
        assert forall|i: int| 0 <= i < xs.len() implies #[trigger] related_in(ys, xs[i], r) by {
            assert(xs[i] == x[i]);
            assert(related_in(y, x[i], r));
            let j = choose|j: int| 0 <= j < y.len() && y[j].0 == x[i].0 && r(x[i].1, y[j].1);
            assert(x[i].0 != x[n].0);
            if j < k {
                assert(ys[j] == y[j]);
            } else {
                assert(ys[j - 1] == y[j]);
            }
        }
        assert forall|i: int, j: int| 0 <= i < ys.len() && 0 <= j < ys.len() && i != j implies ys[i].0
            != ys[j].0 by {
            let a = if i < k { i } else { i + 1 };
            let b = if j < k { j } else { j + 1 };
            assert(ys[i] == y[a] && ys[j] == y[b]);
        }
        lemma_matching_onto(xs, ys, r);
        assert forall|j: int| 0 <= j < y.len() implies #[trigger] related_from(x, y[j], r) by {
            if j == k {
                assert(x[n].0 == y[j].0 && r(x[n].1, y[j].1));
            } else {
                let jj = if j < k { j } else { j - 1 };
                assert(ys[jj] == y[j]);
                assert(related_from(xs, ys[jj], r));
                let i = choose|i: int| 0 <= i < xs.len() && xs[i].0 == ys[jj].0 && r(xs[i].1, ys[jj].1);
                assert(x[i] == xs[i]);
            }
        }
    }
}

} // verus!
