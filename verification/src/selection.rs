use vstd::prelude::*;
use crate::pages::strictly_increasing;

verus! {

/// `s` without any entry equal to `x`, in order.
pub open spec fn without(s: Seq<usize>, x: usize) -> Seq<usize>
    decreases s.len(),
{
    if s.len() == 0 {
        s
    } else if s.last() == x {
        without(s.drop_last(), x)
    } else {
        without(s.drop_last(), x).push(s.last())
    }
}

/// After toggling twice, an object is selected exactly when it was before:
/// a toggle adds an unselected index, and removes every copy of a selected one.
pub proof fn law_toggle_twice(s: Seq<usize>, x: usize)
    requires
        !s.contains(x),
    ensures
        without(s.push(x), x) == s,
{
    lemma_without_absent(s, x);
    assert(s.push(x).drop_last() == s);
}

proof fn lemma_without_absent(s: Seq<usize>, x: usize)
    requires
        !s.contains(x),
    ensures
        without(s, x) == s,
    decreases s.len(),
{
    if s.len() > 0 {
        assert(s.last() == s[s.len() - 1]);
        assert(!s.drop_last().contains(x)) by {
            if s.drop_last().contains(x) {
                let k = choose|k: int| 0 <= k < s.drop_last().len() && s.drop_last()[k] == x;
                assert(s[k] == x);
            }
        }
        lemma_without_absent(s.drop_last(), x);
        assert(s.drop_last().push(s.last()) == s);
    }
}

/// `t` with `x` placed before its first element that is not smaller.
pub open spec fn insert_sorted(t: Seq<usize>, x: usize) -> Seq<usize>
    decreases t.len(),
{
    if t.len() == 0 {
        seq![x]
    } else if x <= t[0] {
        seq![x] + t
    } else {
        seq![t[0]] + insert_sorted(t.drop_first(), x)
    }
}

/// `s` in ascending order, repeats kept (what `sort_unstable` gives).
pub open spec fn sorted_indices(s: Seq<usize>) -> Seq<usize>
    decreases s.len(),
{
    if s.len() == 0 {
        s
    } else {
        insert_sorted(sorted_indices(s.drop_last()), s.last())
    }
}

/// Inserting before the first element that is not smaller.
proof fn lemma_insert_sorted_at(t: Seq<usize>, x: usize, k: int)
    requires
        0 <= k <= t.len(),
        forall|j: int| 0 <= j < k ==> #[trigger] t[j] < x,
        k < t.len() ==> x <= t[k],
    ensures
        insert_sorted(t, x) == t.insert(k, x),
    decreases t.len(),
{
    if t.len() == 0 {
        assert(t.insert(k, x) =~= seq![x]);
    } else if k == 0 {
        assert(t.insert(0, x) =~= seq![x] + t);
    } else {
        let u = t.drop_first();
        assert forall|j: int| 0 <= j < k - 1 implies #[trigger] u[j] < x by {
            assert(u[j] == t[j + 1]);
        }
        if k < t.len() {
            assert(u[k - 1] == t[k]);
        }
        lemma_insert_sorted_at(u, x, k - 1);
        assert(seq![t[0]] + u.insert(k - 1, x) =~= t.insert(k, x));
    }
}

/// The indices of `v` in ascending order, repeats kept.
pub fn sort_indices(v: &Vec<usize>) -> (r: Vec<usize>)
    ensures
        r@ == sorted_indices(v@),
{
    let mut r: Vec<usize> = Vec::new();
    let n = v.len();
    let mut i: usize = 0;
    assert(v@.take(0) =~= Seq::<usize>::empty());
    while i < n
        invariant
            n == v@.len(),
            0 <= i <= n,
            r@ == sorted_indices(v@.take(i as int)),
        decreases n - i,
    {
        let x = v[i];
        let mut k: usize = 0;
        while k < r.len() && r[k] < x
            invariant
                0 <= k <= r@.len(),
                forall|j: int| 0 <= j < k ==> #[trigger] r@[j] < x,
            decreases r@.len() - k,
        {
            k = k + 1;
        }
        proof {
            lemma_insert_sorted_at(r@, x, k as int);
            assert(v@.take(i + 1).drop_last() =~= v@.take(i as int));
            assert(v@.take(i + 1).last() == x);
        }
        r.insert(k, x);
        i = i + 1;
    }
    assert(v@.take(n as int) =~= v@);
    r
}

proof fn lemma_insert_sorted_props(t: Seq<usize>, x: usize)
    ensures
        insert_sorted(t, x).len() == t.len() + 1,
        forall|y: usize| #[trigger] insert_sorted(t, x).contains(y) <==> (t.contains(y) || y == x),
        strictly_increasing(t) && !t.contains(x) ==> strictly_increasing(insert_sorted(t, x)),
    decreases t.len(),
{
    let r = insert_sorted(t, x);
    if t.len() == 0 {
        assert forall|y: usize| #[trigger] r.contains(y) <==> (t.contains(y) || y == x) by {
            if r.contains(y) {
                assert(r[0] == x);
            }
            if y == x {
                assert(r[0] == x);
            }
        }
    } else if x <= t[0] {
        assert forall|y: usize| #[trigger] r.contains(y) <==> (t.contains(y) || y == x) by {
            if r.contains(y) {
                let k = choose|k: int| 0 <= k < r.len() && r[k] == y;
                if k > 0 {
                    assert(t[k - 1] == y);
                }
            }
            if t.contains(y) {
                let k = choose|k: int| 0 <= k < t.len() && t[k] == y;
                assert(r[k + 1] == y);
            }
            if y == x {
                assert(r[0] == x);
            }
        }
        if strictly_increasing(t) && !t.contains(x) {
            assert(x != t[0]);
            assert forall|i: int, j: int| 0 <= i < j < r.len() implies r[i] < r[j] by {
                if i > 0 {
                    assert(r[i] == t[i - 1] && r[j] == t[j - 1]);
                } else {
                    assert(r[j] == t[j - 1]);
                    assert(t[0] <= t[j - 1]);
                }
            }
        }
    } else {
        let u = t.drop_first();
        let inner = insert_sorted(u, x);
        lemma_insert_sorted_props(u, x);
        assert(r == seq![t[0]] + inner);
        assert forall|y: usize| #[trigger] r.contains(y) <==> (t.contains(y) || y == x) by {
            if r.contains(y) {
                let k = choose|k: int| 0 <= k < r.len() && r[k] == y;
                if k > 0 {
                    assert(inner[k - 1] == y);
                    assert(inner.contains(y));
                    if u.contains(y) {
                        let q = choose|q: int| 0 <= q < u.len() && u[q] == y;
                        assert(t[q + 1] == y);
                    }
                } else {
                    assert(t[0] == y);
                }
            }
            if t.contains(y) {
                let k = choose|k: int| 0 <= k < t.len() && t[k] == y;
                if k > 0 {
                    assert(u[k - 1] == y);
                    assert(inner.contains(y));
                    let q = choose|q: int| 0 <= q < inner.len() && inner[q] == y;
                    assert(r[q + 1] == y);
                } else {
                    assert(r[0] == y);
                }
            }
            if y == x {
                assert(inner.contains(x));
                let q = choose|q: int| 0 <= q < inner.len() && inner[q] == x;
                assert(r[q + 1] == x);
            }
        }
        if strictly_increasing(t) && !t.contains(x) {
            assert(strictly_increasing(u)) by {
                assert forall|i: int, j: int| 0 <= i < j < u.len() implies u[i] < u[j] by {
                    assert(u[i] == t[i + 1] && u[j] == t[j + 1]);
                }
            }
            assert(!u.contains(x)) by {
                if u.contains(x) {
                    let q = choose|q: int| 0 <= q < u.len() && u[q] == x;
                    assert(t[q + 1] == x);
                }
            }
            assert forall|i: int, j: int| 0 <= i < j < r.len() implies r[i] < r[j] by {
                if i > 0 {
                    assert(r[i] == inner[i - 1] && r[j] == inner[j - 1]);
                } else {
                    assert(r[j] == inner[j - 1]);
                    assert(inner.contains(inner[j - 1]));
                    if inner[j - 1] != x {
                        assert(u.contains(inner[j - 1]));
                        let q = choose|q: int| 0 <= q < u.len() && u[q] == inner[j - 1];
                        assert(t[q + 1] == inner[j - 1]);
                    }
                }
            }
        }
    }
}

/// Sorting keeps the length and the indices, and a selection without
/// repeats comes out strictly ascending.
pub proof fn lemma_sorted_indices_props(s: Seq<usize>)
    ensures
        sorted_indices(s).len() == s.len(),
        forall|y: usize| #[trigger] sorted_indices(s).contains(y) <==> s.contains(y),
        s.no_duplicates() ==> strictly_increasing(sorted_indices(s)),
    decreases s.len(),
{
    if s.len() > 0 {
        let d = s.drop_last();
        lemma_sorted_indices_props(d);
        lemma_insert_sorted_props(sorted_indices(d), s.last());
        assert forall|y: usize| #[trigger] sorted_indices(s).contains(y) <==> s.contains(y) by {
            if d.contains(y) {
                let k = choose|k: int| 0 <= k < d.len() && d[k] == y;
                assert(s[k] == y);
            }
            if s.contains(y) {
                let k = choose|k: int| 0 <= k < s.len() && s[k] == y;
                if k < s.len() - 1 {
                    assert(d[k] == y);
                }
            }
            assert(s[s.len() - 1] == s.last());
        }
        if s.no_duplicates() {
            assert(d.no_duplicates()) by {
                assert forall|i: int, j: int| 0 <= i < d.len() && 0 <= j < d.len() && i != j implies d[i] != d[j] by {
                    assert(d[i] == s[i] && d[j] == s[j]);
                }
            }
            assert(!d.contains(s.last())) by {
                if d.contains(s.last()) {
                    let k = choose|k: int| 0 <= k < d.len() && d[k] == s.last();
                    assert(s[k] == s[s.len() - 1]);
                }
            }
        }
    }
}

} // verus!
