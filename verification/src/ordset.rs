//! Sorted, duplicate-free vectors of validator identities.
//!
//! Every set of validators the protocol materializes (queried voters,
//! culprits, validators still owing a response) is kept as a strictly
//! increasing `Vec<u64>`: a canonical representation, so iteration order is
//! deterministic across replicas, and a sequence that is pinned down
//! completely by the set of its elements.

use vstd::prelude::*;

verus! {

/// Strictly increasing: sorted and free of duplicates.
pub open spec fn strictly_sorted(s: Seq<u64>) -> bool {
    forall|i: int, j: int| 0 <= i < j < s.len() ==> s[i] < s[j]
}

/// Two strictly sorted sequences with the same elements are the same
/// sequence: the representation is canonical.
pub proof fn lemma_strictly_sorted_canonical(a: Seq<u64>, b: Seq<u64>)
    requires
        strictly_sorted(a),
        strictly_sorted(b),
        a.to_set() == b.to_set(),
    ensures
        a == b,
    decreases a.len(),
{
    broadcast use vstd::seq_lib::group_seq_properties;

    if a.len() == 0 {
        if b.len() > 0 {
            assert(b.to_set().contains(b[0]));
            assert(a.contains(b[0]));
        }
        assert(a =~= b);
    } else {
        assert(a.to_set().contains(a[0]));
        assert(b.contains(a[0]));
        if b.len() > 0 {
            assert(b.to_set().contains(b[0]));
            assert(a.contains(b[0]));
            let ia = choose|i: int| 0 <= i < a.len() && a[i] == b[0];
            let ib = choose|i: int| 0 <= i < b.len() && b[i] == a[0];
            // Heads are each other's minima, hence equal.
            assert(a[0] <= a[ia]);
            assert(b[0] <= b[ib]);
            assert(a[0] == b[0]);
            let at = a.drop_first();
            let bt = b.drop_first();
            assert forall|x: u64| at.to_set().contains(x) implies bt.to_set().contains(x) by {
                let i = choose|i: int| 0 <= i < at.len() && at[i] == x;
                assert(a[i + 1] == x);
                assert(a[0] < x);
                assert(a.to_set().contains(x));
                assert(b.contains(x));
                let j = choose|j: int| 0 <= j < b.len() && b[j] == x;
                assert(j != 0);
                assert(bt[j - 1] == x);
            }
            assert forall|x: u64| bt.to_set().contains(x) implies at.to_set().contains(x) by {
                let i = choose|i: int| 0 <= i < bt.len() && bt[i] == x;
                assert(b[i + 1] == x);
                assert(b[0] < x);
                assert(b.to_set().contains(x));
                assert(a.contains(x));
                let j = choose|j: int| 0 <= j < a.len() && a[j] == x;
                assert(j != 0);
                assert(at[j - 1] == x);
            }
            assert(at.to_set() =~= bt.to_set());
            lemma_strictly_sorted_canonical(at, bt);
            assert(a =~= Seq::empty().push(a[0]) + at);
            assert(b =~= Seq::empty().push(b[0]) + bt);
        }
    }
}

/// Whether `x` occurs in `v`.
pub fn ids_contain(v: &Vec<u64>, x: u64) -> (b: bool)
    ensures
        b == v@.contains(x),
{
    let mut k: usize = 0;
    while k < v.len()
        invariant
            k <= v@.len(),
            forall|i: int| 0 <= i < k ==> v@[i] != x,
        decreases v@.len() - k,
    {
        if v[k] == x {
            return true;
        }
        k += 1;
    }
    false
}

/// Insert `x`, keeping the vector strictly sorted; a duplicate leaves the
/// vector unchanged.
pub fn insert_sorted(v: &mut Vec<u64>, x: u64)
    requires
        strictly_sorted(old(v)@),
    ensures
        strictly_sorted(final(v)@),
        final(v)@.to_set() == old(v)@.to_set().insert(x),
{
    let ghost orig = v@;
    let mut k: usize = 0;
    while k < v.len() && v[k as usize] < x
        invariant
            k <= v@.len(),
            v@ == orig,
            strictly_sorted(v@),
            forall|i: int| 0 <= i < k ==> v@[i] < x,
        decreases v@.len() - k,
    {
        k += 1;
    }
    if k < v.len() && v[k as usize] == x {
        proof {
            assert(orig.contains(x));
            assert(orig.to_set() =~= orig.to_set().insert(x));
        }
        return;
    }
    assert(forall|i: int| k <= i < v@.len() ==> #[trigger] v@[i] > x);
    v.insert(k, x);
    proof {
        let s2 = v@;
        assert forall|y: u64| s2.to_set().contains(y) implies orig.to_set().insert(x).contains(y) by {
            let i = choose|i: int| 0 <= i < s2.len() && s2[i] == y;
            if i < k {
                assert(orig[i] == y);
            } else if i == k {
            } else {
                assert(orig[i - 1] == y);
            }
        }
        assert forall|y: u64| orig.to_set().insert(x).contains(y) implies s2.to_set().contains(y) by {
            if y == x {
                assert(s2[k as int] == y);
            } else {
                let i = choose|i: int| 0 <= i < orig.len() && orig[i] == y;
                if i < k {
                    assert(s2[i] == y);
                } else {
                    assert(s2[i + 1] == y);
                }
            }
        }
        assert(s2.to_set() =~= orig.to_set().insert(x));
    }
}

} // verus!
