//! Strictly increasing sequences of indices.

use vstd::prelude::*;

verus! {

/// Whether each item of `s` is smaller than the next.
pub open spec fn increasing(s: Seq<int>) -> bool {
    forall|i: int, j: int| 0 <= i < j < s.len() ==> s[i] < s[j]
}

/// The indices of a vector as integers.
pub open spec fn as_ints(s: Seq<usize>) -> Seq<int> {
    s.map_values(|x: usize| x as int)
}

/// Two increasing sequences with the same items are the same sequence.
pub proof fn lemma_increasing_unique(a: Seq<int>, b: Seq<int>)
    requires
        increasing(a),
        increasing(b),
        forall|x: int| a.contains(x) <==> b.contains(x),
    ensures
        a == b,
    decreases a.len(),
{
    if a.len() == 0 {
        if b.len() > 0 {
            assert(b.contains(b[0]));
            assert(a.contains(b[0]));
        }
        assert(a =~= b);
    } else {
        let m = a.last();
        assert(a.contains(m));
        assert(b.contains(m));
        let n = b.last();
        assert(b.contains(n));
        assert(a.contains(n));
        assert(m == n) by {
            let i = choose|i: int| 0 <= i < a.len() && a[i] == n;
            let j = choose|j: int| 0 <= j < b.len() && b[j] == m;
            assert(a[i] <= m);
            assert(b[j] <= n);
        }
        let a1 = a.drop_last();
        let b1 = b.drop_last();
        assert forall|x: int| a1.contains(x) <==> b1.contains(x) by {
            if a1.contains(x) {
                let i = choose|i: int| 0 <= i < a1.len() && a1[i] == x;
                assert(a[i] == x);
                assert(x < m);
                assert(a.contains(x));
                let j = choose|j: int| 0 <= j < b.len() && b[j] == x;
                assert(j < b.len() - 1);
                assert(b1[j] == x);
            }
            if b1.contains(x) {
                let j = choose|j: int| 0 <= j < b1.len() && b1[j] == x;
                assert(b[j] == x);
                assert(x < n);
                assert(b.contains(x));
                let i = choose|i: int| 0 <= i < a.len() && a[i] == x;
                assert(i < a.len() - 1);
                assert(a1[i] == x);
            }
        }
        lemma_increasing_unique(a1, b1);
        assert(a =~= a1.push(m));
        assert(b =~= b1.push(n));
    }
}

/// Puts distinct indices in increasing order.
pub fn sort_distinct(v: Vec<usize>) -> (r: Vec<usize>)
    requires
        forall|i: int, j: int| 0 <= i < j < v@.len() ==> v@[i] != v@[j],
    ensures
        increasing(as_ints(r@)),
        forall|x: usize| r@.contains(x) <==> v@.contains(x),
        r@.len() == v@.len(),
{
    let mut r: Vec<usize> = Vec::new();
    let mut n: usize = 0;
    while n < v.len()
        invariant
            n <= v@.len(),
            r@.len() == n,
            forall|i: int, j: int| 0 <= i < j < v@.len() ==> v@[i] != v@[j],
            forall|i: int, j: int| 0 <= i < j < r@.len() ==> r@[i] < r@[j],
            forall|x: usize|
                r@.contains(x) <==> exists|k: int| 0 <= k < n && #[trigger] v@[k] == x,
        decreases v@.len() - n,
    {
        let x = v[n];
        let mut p: usize = 0;
        while p < r.len() && r[p] < x
            invariant
                p <= r@.len(),
                forall|i: int| 0 <= i < p ==> r@[i] < x,
            decreases r@.len() - p,
        {
            p = p + 1;
        }
        proof {
            if p < r@.len() {
                assert(r@.contains(r@[p as int]));
                let k = choose|k: int| 0 <= k < n && #[trigger] v@[k] == r@[p as int];
                assert(v@[k] != v@[n as int]);
            }
        }
        let ghost before = r@;
        r.insert(p, x);
        proof {
            assert forall|i: int, j: int| 0 <= i < j < r@.len() implies r@[i] < r@[j] by {
                if i < p && j > p {
                    assert(r@[j] == before[j - 1]);
                    assert(before[p as int] <= before[j - 1]);
                }
            }
            assert forall|y: usize|
                r@.contains(y) <==> exists|k: int| 0 <= k < n + 1 && #[trigger] v@[k] == y by {
                if r@.contains(y) {
                    let i = choose|i: int| 0 <= i < r@.len() && r@[i] == y;
                    if i == p {
                        assert(v@[n as int] == y);
                    } else if i < p {
                        assert(before[i] == y);
                        assert(before.contains(y));
                    } else {
                        assert(before[i - 1] == y);
                        assert(before.contains(y));
                    }
                }
                if exists|k: int| 0 <= k < n + 1 && #[trigger] v@[k] == y {
                    let k = choose|k: int| 0 <= k < n + 1 && #[trigger] v@[k] == y;
                    if k == n {
                        assert(r@[p as int] == y);
                    } else {
                        assert(before.contains(y));
                        let i = choose|i: int| 0 <= i < before.len() && before[i] == y;
                        if i < p {
                            assert(r@[i] == y);
                        } else {
                            assert(r@[i + 1] == y);
                        }
                    }
                }
            }
        }
        n = n + 1;
    }
    proof {
        assert forall|x: usize| r@.contains(x) <==> v@.contains(x) by {
            if r@.contains(x) {
                let k = choose|k: int| 0 <= k < n && #[trigger] v@[k] == x;
                assert(v@.contains(x));
            }
            if v@.contains(x) {
                let k = choose|k: int| 0 <= k < v@.len() && v@[k] == x;
                assert(v@[k] == x);
            }
        }
        assert forall|i: int, j: int| 0 <= i < j < as_ints(r@).len() implies as_ints(r@)[i]
            < as_ints(r@)[j] by {
            assert(r@[i] < r@[j]);
        }
    }
    r
}

} // verus!
