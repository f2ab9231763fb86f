//! Derives the views of one fetch: which threads are active, which skipped, which
//! unresolved, each in view order. A view is a list of positions in the fetch.
use vstd::prelude::*;
use crate::thread::{Thread, all_wf, key_before, key_same, precedes};
use crate::skip::SkipStore;

verus! {

/// `l` lists positions of `ts`, each before the next in view order.
pub open spec fn ordered(ts: Seq<Thread>, l: Seq<usize>) -> bool {
    &&& forall|a: int| 0 <= a < l.len() ==> (#[trigger] l[a] as int) < ts.len()
    &&& forall|a: int, b: int| 0 <= a < b < l.len() ==> precedes(ts, #[trigger] l[a] as int, #[trigger] l[b] as int)
}

/// `active` and `skipped` list, in view order, the positions of `ts` whose identifier
/// is outside, and inside, the skip set `skips`.
pub open spec fn partitioned(ts: Seq<Thread>, skips: Set<Seq<char>>, active: Seq<usize>, skipped: Seq<usize>) -> bool {
    &&& ordered(ts, active)
    &&& ordered(ts, skipped)
    &&& forall|i: int| 0 <= i < ts.len() ==> (active.contains(i as usize) <==> !skips.contains(#[trigger] ts[i].id@))
    &&& forall|i: int| 0 <= i < ts.len() ==> (skipped.contains(i as usize) <==> skips.contains(#[trigger] ts[i].id@))
}

/// The unresolved threads of a view, in its order.
pub open spec fn unresolved_in(ts: Seq<Thread>, l: Seq<usize>) -> Seq<usize> {
    l.filter(|x: usize| !ts[x as int].resolved)
}

/// View order is a strict total order on the positions of a fetch.
pub proof fn lemma_precedes_order(ts: Seq<Thread>)
    ensures
        forall|i: int| !#[trigger] precedes(ts, i, i),
        forall|i: int, j: int, k: int| #[trigger] precedes(ts, i, j) && #[trigger] precedes(ts, j, k) ==> precedes(ts, i, k),
        forall|i: int, j: int| i != j ==> #[trigger] precedes(ts, i, j) || #[trigger] precedes(ts, j, i),
        forall|i: int, j: int| #[trigger] precedes(ts, i, j) ==> !precedes(ts, j, i),
{
}

/// Inserts position `i`, later in the fetch than every listed one, at its place in view order.
fn insert_ordered(ts: &Vec<Thread>, l: &mut Vec<usize>, i: usize)
    requires
        all_wf(ts@),
        ordered(ts@, old(l)@),
        i < ts@.len(),
        forall|a: int| 0 <= a < old(l)@.len() ==> old(l)@[a] < i,
    ensures
        ordered(ts@, final(l)@),
        final(l)@.len() == old(l)@.len() + 1,
        forall|x: usize| #[trigger] final(l)@.contains(x) <==> old(l)@.contains(x) || x == i,
{
    proof { lemma_precedes_order(ts@); }
    let mut p: usize = 0;
    while p < l.len() && !ts[i].sorts_before(&ts[l[p]])
        invariant
            all_wf(ts@),
            ordered(ts@, l@),
            *l == *old(l),
            i < ts@.len(),
            p <= l@.len(),
            forall|a: int| 0 <= a < l@.len() ==> l@[a] < i,
            forall|q: int| 0 <= q < p ==> precedes(ts@, #[trigger] l@[q] as int, i as int),
        decreases l@.len() - p,
    {
        assert(precedes(ts@, l@[p as int] as int, i as int));
        p = p + 1;
    }
    let ghost before = l@;
    proof {
        assert forall|q: int| p <= q < before.len() implies precedes(ts@, i as int, #[trigger] before[q] as int) by {
            assert(key_before(ts@[i as int], ts@[before[p as int] as int]));
            if q > p {
                assert(precedes(ts@, before[p as int] as int, before[q] as int));
            }
        }
    }
    l.insert(p, i);
    proof {
        let after = l@;
        assert(after =~= before.insert(p as int, i));
        assert forall|a: int, b: int| 0 <= a < b < after.len() implies precedes(ts@, #[trigger] after[a] as int, #[trigger] after[b] as int) by {
            if a < p && b < p {
            } else if a < p && b == p {
            } else if a < p {
                assert(after[b] == before[b - 1]);
            } else if a == p {
                assert(after[b] == before[b - 1]);
            } else {
                assert(after[a] == before[a - 1] && after[b] == before[b - 1]);
            }
        }
        assert forall|x: usize| #[trigger] after.contains(x) <==> before.contains(x) || x == i by {
            if after.contains(x) {
                let a = choose|a: int| 0 <= a < after.len() && after[a] == x;
                if a < p {
                    assert(before[a] == x);
                } else if a > p {
                    assert(before[a - 1] == x);
                }
            }
            if before.contains(x) {
                let a = choose|a: int| 0 <= a < before.len() && before[a] == x;
                if a < p {
                    assert(after[a] == x);
                } else {
                    assert(after[a + 1] == x);
                }
            }
            if x == i {
                assert(after[p as int] == x);
            }
        }
    }
}

/// Splits a fetch into its active and its skipped threads, each in view order: by
/// (resolved, created_at), and by fetch order between equal keys.
pub fn partition(ts: &Vec<Thread>, skips: &SkipStore) -> (r: (Vec<usize>, Vec<usize>))
    requires
        all_wf(ts@),
    ensures
        partitioned(ts@, skips@, r.0@, r.1@),
{
    let mut active: Vec<usize> = Vec::new();
    let mut skipped: Vec<usize> = Vec::new();
    let mut i: usize = 0;
    while i < ts.len()
        invariant
            all_wf(ts@),
            i <= ts@.len(),
            ordered(ts@, active@),
            ordered(ts@, skipped@),
            forall|a: int| 0 <= a < active@.len() ==> active@[a] < i,
            forall|a: int| 0 <= a < skipped@.len() ==> skipped@[a] < i,
            forall|j: int| 0 <= j < i ==> (active@.contains(j as usize) <==> !skips@.contains(#[trigger] ts@[j].id@)),
            forall|j: int| 0 <= j < i ==> (skipped@.contains(j as usize) <==> skips@.contains(#[trigger] ts@[j].id@)),
        decreases ts@.len() - i,
    {
        let ghost a0 = active@;
        let ghost s0 = skipped@;
        if skips.contains(&ts[i].id) {
            insert_ordered(ts, &mut skipped, i);
            assert(active@ == a0);
            assert(!a0.contains(i)) by {
                if a0.contains(i) {
                    let a = choose|a: int| 0 <= a < a0.len() && a0[a] == i;
                }
            }
        } else {
            insert_ordered(ts, &mut active, i);
            assert(!s0.contains(i)) by {
                if s0.contains(i) {
                    let a = choose|a: int| 0 <= a < s0.len() && s0[a] == i;
                }
            }
        }
        proof {
            assert forall|a: int| 0 <= a < active@.len() implies active@[a] < i + 1 by {
                assert(active@.contains(active@[a]));
            }
            assert forall|a: int| 0 <= a < skipped@.len() implies skipped@[a] < i + 1 by {
                assert(skipped@.contains(skipped@[a]));
            }
        }
        i = i + 1;
    }
    proof {
        assert forall|j: int| 0 <= j < ts@.len() implies (active@.contains(j as usize) <==> !skips@.contains(#[trigger] ts@[j].id@)) by {}
    }
    (active, skipped)
}

/// The unresolved threads of a view, in its order.
pub fn unresolved_of(ts: &Vec<Thread>, l: &Vec<usize>) -> (r: Vec<usize>)
    requires
        forall|a: int| 0 <= a < l@.len() ==> (#[trigger] l@[a] as int) < ts@.len(),
    ensures
        r@ == unresolved_in(ts@, l@),
{
    let mut r: Vec<usize> = Vec::new();
    let mut k: usize = 0;
    while k < l.len()
        invariant
            k <= l@.len(),
            forall|a: int| 0 <= a < l@.len() ==> (#[trigger] l@[a] as int) < ts@.len(),
            r@ == unresolved_in(ts@, l@.subrange(0, k as int)),
        decreases l@.len() - k,
    {
        let ghost prefix = l@.subrange(0, k as int);
        assert(l@.subrange(0, k + 1) =~= prefix.push(l@[k as int]));
        assert(prefix.push(l@[k as int]).drop_last() =~= prefix);
        reveal(Seq::filter);
        if !ts[l[k]].resolved {
            r.push(l[k]);
        }
        k = k + 1;
    }
    assert(l@.subrange(0, k as int) =~= l@);
    r
}

/// Two lists in view order over the same fetch, holding the same positions, are equal.
pub proof fn lemma_ordered_unique(ts: Seq<Thread>, a: Seq<usize>, b: Seq<usize>)
    requires
        ordered(ts, a),
        ordered(ts, b),
        forall|x: usize| a.contains(x) <==> b.contains(x),
    ensures
        a == b,
    decreases a.len(),
{
    lemma_precedes_order(ts);
    if a.len() == 0 {
        if b.len() > 0 {
            assert(b.contains(b[0]));
        }
        assert(a =~= b);
    } else {
        assert(a.contains(a[0]));
        assert(b.len() > 0);
        assert(b.contains(b[0]));
        let i = choose|i: int| 0 <= i < b.len() && b[i] == a[0];
        let j = choose|j: int| 0 <= j < a.len() && a[j] == b[0];
        if i > 0 && j > 0 {
            assert(precedes(ts, b[0] as int, b[i] as int));
            assert(precedes(ts, a[0] as int, a[j] as int));
        } else if i > 0 {
            assert(precedes(ts, b[0] as int, b[i] as int));
        } else if j > 0 {
            assert(precedes(ts, a[0] as int, a[j] as int));
        }
        assert(a[0] == b[0]);
        let a1 = a.drop_first();
        let b1 = b.drop_first();
        assert forall|x: usize| a1.contains(x) <==> b1.contains(x) by {
            if a1.contains(x) {
                let p = choose|p: int| 0 <= p < a1.len() && a1[p] == x;
                assert(precedes(ts, a[0] as int, a[p + 1] as int));
                assert(a.contains(x));
                let q = choose|q: int| 0 <= q < b.len() && b[q] == x;
                assert(q != 0);
                assert(b1[q - 1] == x);
            }
            if b1.contains(x) {
                let p = choose|p: int| 0 <= p < b1.len() && b1[p] == x;
                assert(precedes(ts, b[0] as int, b[p + 1] as int));
                assert(b.contains(x));
                let q = choose|q: int| 0 <= q < a.len() && a[q] == x;
                assert(q != 0);
                assert(a1[q - 1] == x);
            }
        }
        lemma_ordered_unique(ts, a1, b1);
        assert(a =~= b) by {
            assert forall|k: int| 0 <= k < a.len() implies a[k] == b[k] by {
                if k > 0 {
                    assert(a[k] == a1[k - 1]);
                    assert(b[k] == b1[k - 1]);
                }
            }
        }
    }
}

/// A fetch and a skip set determine the views: two partitions of them are equal.
pub proof fn lemma_partition_unique(
    ts: Seq<Thread>,
    skips: Set<Seq<char>>,
    a1: Seq<usize>,
    s1: Seq<usize>,
    a2: Seq<usize>,
    s2: Seq<usize>,
)
    requires
        partitioned(ts, skips, a1, s1),
        partitioned(ts, skips, a2, s2),
    ensures
        a1 == a2,
        s1 == s2,
{
    assert forall|x: usize| a1.contains(x) <==> a2.contains(x) by {
        if (x as int) < ts.len() {
            assert(a1.contains(x) <==> !skips.contains(ts[x as int].id@));
        } else {
            if a1.contains(x) {
                let p = choose|p: int| 0 <= p < a1.len() && a1[p] == x;
            }
            if a2.contains(x) {
                let p = choose|p: int| 0 <= p < a2.len() && a2[p] == x;
            }
        }
    }
    assert forall|x: usize| s1.contains(x) <==> s2.contains(x) by {
        if (x as int) < ts.len() {
            assert(s1.contains(x) <==> skips.contains(ts[x as int].id@));
        } else {
            if s1.contains(x) {
                let p = choose|p: int| 0 <= p < s1.len() && s1[p] == x;
            }
            if s2.contains(x) {
                let p = choose|p: int| 0 <= p < s2.len() && s2[p] == x;
            }
        }
    }
    lemma_ordered_unique(ts, a1, a2);
    lemma_ordered_unique(ts, s1, s2);
}

/// Sorting is stable: of two threads with equal (resolved, created_at) that a view
/// lists, the one fetched first is listed first.
pub proof fn lemma_fetch_order_kept(ts: Seq<Thread>, l: Seq<usize>, a: int, b: int)
    requires
        ordered(ts, l),
        0 <= a < l.len(),
        0 <= b < l.len(),
        key_same(ts[l[a] as int], ts[l[b] as int]),
        l[a] < l[b],
    ensures
        a < b,
{
    if b < a {
        assert(precedes(ts, l[b] as int, l[a] as int));
    }
}

} // verus!
