//! Stable ordering of positions by text keys.
use vstd::prelude::*;
use crate::text::{
    text_lt, text_less, lemma_text_lt_total, lemma_text_lt_transitive, lemma_text_lt_irreflexive,
    lemma_text_lt_asymmetric,
};

verus! {

/// The character sequences that a vector of strings holds.
pub open spec fn views(v: Seq<String>) -> Seq<Seq<char>> {
    v.map_values(|s: String| s@)
}

/// Position `i` is placed before position `j`: its key sorts first, or the
/// keys are equal and `i` came first.
pub open spec fn ranks_before(keys: Seq<Seq<char>>, i: int, j: int) -> bool {
    text_lt(keys[i], keys[j]) || (keys[i] == keys[j] && i < j)
}

/// `order` lists exactly the kept positions below `bound`, sorted by key,
/// equal keys by position.
pub open spec fn is_stable_order_upto(
    keys: Seq<Seq<char>>,
    keep: Seq<bool>,
    order: Seq<usize>,
    bound: int,
) -> bool {
    &&& forall|k: int| 0 <= k < order.len() ==> (#[trigger] order[k]) < bound && keep[order[k] as int]
    &&& forall|i: int| 0 <= i < bound && #[trigger] keep[i] ==> order.contains(i as usize)
    &&& forall|a: int, b: int|
        0 <= a < b < order.len() ==> ranks_before(keys, #[trigger] order[a] as int, #[trigger] order[b] as int)
}

/// `order` lists exactly the kept positions, sorted by key, equal keys by
/// position.
pub open spec fn is_stable_order(keys: Seq<Seq<char>>, keep: Seq<bool>, order: Seq<usize>) -> bool {
    is_stable_order_upto(keys, keep, order, keys.len() as int)
}

/// The kept positions of `keys`, ordered by key; positions with equal keys
/// keep their relative order.
pub fn stable_positions(keys: &Vec<String>, keep: &Vec<bool>) -> (r: Vec<usize>)
    requires
        keys.len() == keep.len(),
    ensures
        is_stable_order(views(keys@), keep@, r@),
{
    let ghost ks = views(keys@);
    let mut out: Vec<usize> = Vec::new();
    let mut i: usize = 0;
    while i < keys.len()
        invariant
            ks == views(keys@),
            ks.len() == keys.len(),
            keys.len() == keep.len(),
            i <= keys.len(),
            is_stable_order_upto(ks, keep@, out@, i as int),
        decreases keys.len() - i,
    {
        if keep[i] {
            let mut p: usize = 0;
            let mut found = false;
            while p < out.len() && !found
                invariant
                    ks == views(keys@),
                    ks.len() == keys.len(),
                    i < keys.len(),
                    p <= out.len(),
                    is_stable_order_upto(ks, keep@, out@, i as int),
                    forall|q: int| 0 <= q < p ==> !text_lt(ks[i as int], ks[#[trigger] out@[q] as int]),
                    found ==> p < out.len() && text_lt(ks[i as int], ks[out@[p as int] as int]),
                decreases out.len() - p + (if found { 0int } else { 1 }),
            {
                if text_less(keys[i].as_str(), keys[out[p]].as_str()) {
                    found = true;
                } else {
                    p = p + 1;
                }
            }
            let ghost prev = out@;
            out.insert(p, i);
            proof {
                lemma_insert_keeps_order(ks, keep@, prev, out@, i as int, p as int);
            }
        }
        i = i + 1;
    }
    out
}

proof fn lemma_insert_keeps_order(
    ks: Seq<Seq<char>>,
    keep: Seq<bool>,
    prev: Seq<usize>,
    next: Seq<usize>,
    i: int,
    p: int,
)
    requires
        0 <= i < ks.len(),
        ks.len() == keep.len(),
        keep[i],
        0 <= p <= prev.len(),
        i <= usize::MAX,
        next == prev.insert(p, i as usize),
        is_stable_order_upto(ks, keep, prev, i),
        forall|q: int| 0 <= q < p ==> !text_lt(ks[i], ks[#[trigger] prev[q] as int]),
        p < prev.len() ==> text_lt(ks[i], ks[prev[p] as int]),
    ensures
        is_stable_order_upto(ks, keep, next, i + 1),
{
    assert forall|k: int| 0 <= k < next.len() implies (#[trigger] next[k]) < i + 1 && keep[next[k] as int] by {
        if k < p {
            assert(next[k] == prev[k]);
        } else if k > p {
            assert(next[k] == prev[k - 1]);
        }
    }
    assert forall|j: int| 0 <= j < i + 1 && #[trigger] keep[j] implies next.contains(j as usize) by {
        if j == i {
            assert(next[p] == i as usize);
        } else {
            assert(prev.contains(j as usize));
            let k = choose|k: int| 0 <= k < prev.len() && prev[k] == j as usize;
            if k < p {
                assert(next[k] == prev[k]);
            } else {
                assert(next[k + 1] == prev[k]);
            }
        }
    }
    assert forall|a: int, b: int| 0 <= a < b < next.len() implies ranks_before(
        ks,
        #[trigger] next[a] as int,
        #[trigger] next[b] as int,
    ) by {
        if b < p {
            assert(next[a] == prev[a] && next[b] == prev[b]);
        } else if a > p {
            assert(next[a] == prev[a - 1] && next[b] == prev[b - 1]);
        } else if a < p && b > p {
            assert(next[a] == prev[a] && next[b] == prev[b - 1]);
        } else if b == p {
            let x = prev[a] as int;
            assert(next[a] == prev[a]);
            assert(x < i);
            assert(!text_lt(ks[i], ks[x]));
            lemma_text_lt_total(ks[i], ks[x]);
        } else {
            assert(a == p);
            let y = prev[b - 1] as int;
            assert(next[b] == prev[b - 1]);
            let z = prev[p] as int;
            if b - 1 > p {
                assert(ranks_before(ks, z, y));
                if text_lt(ks[z], ks[y]) {
                    lemma_text_lt_transitive(ks[i], ks[z], ks[y]);
                }
            }
        }
    }
}

proof fn lemma_ranks_before_strict(keys: Seq<Seq<char>>, i: int, j: int)
    ensures
        !ranks_before(keys, i, i),
        !(ranks_before(keys, i, j) && ranks_before(keys, j, i)),
{
    lemma_text_lt_irreflexive(keys[i]);
    lemma_text_lt_asymmetric(keys[i], keys[j]);
    if keys[i] == keys[j] {
        lemma_text_lt_irreflexive(keys[j]);
    }
}

proof fn lemma_prefix_agrees(keys: Seq<Seq<char>>, keep: Seq<bool>, o1: Seq<usize>, o2: Seq<usize>, k: int)
    requires
        keys.len() == keep.len(),
        is_stable_order(keys, keep, o1),
        is_stable_order(keys, keep, o2),
        0 <= k <= o1.len(),
        k <= o2.len(),
    ensures
        forall|i: int| 0 <= i < k ==> o1[i] == o2[i],
    decreases k,
{
    if k > 0 {
        lemma_prefix_agrees(keys, keep, o1, o2, k - 1);
        let c = k - 1;
        let x = o1[c];
        assert(keep[x as int]);
        assert(o2.contains(x));
        let m = choose|m: int| 0 <= m < o2.len() && o2[m] == x;
        if m < c {
            assert(o1[m] == x);
            assert(ranks_before(keys, o1[m] as int, o1[c] as int));
            lemma_ranks_before_strict(keys, x as int, x as int);
        } else if m > c {
            let y = o2[c];
            assert(ranks_before(keys, y as int, x as int));
            assert(keep[y as int]);
            assert(o1.contains(y));
            let j = choose|j: int| 0 <= j < o1.len() && o1[j] == y;
            if j < c {
                assert(o2[j] == y);
                assert(ranks_before(keys, o2[j] as int, o2[c] as int));
                lemma_ranks_before_strict(keys, y as int, y as int);
            } else if j == c {
                lemma_ranks_before_strict(keys, y as int, y as int);
            } else {
                assert(ranks_before(keys, x as int, y as int));
                lemma_ranks_before_strict(keys, x as int, y as int);
            }
        }
    }
}

proof fn lemma_no_extra(keys: Seq<Seq<char>>, keep: Seq<bool>, o1: Seq<usize>, o2: Seq<usize>)
    requires
        keys.len() == keep.len(),
        is_stable_order(keys, keep, o1),
        is_stable_order(keys, keep, o2),
        o2.len() <= o1.len(),
        forall|i: int| 0 <= i < o2.len() ==> o1[i] == o2[i],
    ensures
        o1.len() == o2.len(),
{
    if o2.len() < o1.len() {
        let n = o2.len() as int;
        let x = o1[n];
        assert(keep[x as int]);
        assert(o2.contains(x));
        let m = choose|m: int| 0 <= m < o2.len() && o2[m] == x;
        assert(o1[m] == x);
        assert(ranks_before(keys, o1[m] as int, o1[n] as int));
        lemma_ranks_before_strict(keys, x as int, x as int);
    }
}

/// There is only one stable order of given keys and kept positions.
pub proof fn lemma_stable_order_unique(keys: Seq<Seq<char>>, keep: Seq<bool>, o1: Seq<usize>, o2: Seq<usize>)
    requires
        keys.len() == keep.len(),
        is_stable_order(keys, keep, o1),
        is_stable_order(keys, keep, o2),
    ensures
        o1 == o2,
{
    if o1.len() <= o2.len() {
        lemma_prefix_agrees(keys, keep, o1, o2, o1.len() as int);
        lemma_no_extra(keys, keep, o2, o1);
    } else {
        lemma_prefix_agrees(keys, keep, o1, o2, o2.len() as int);
        lemma_no_extra(keys, keep, o1, o2);
    }
    assert(o1 =~= o2);
}

} // verus!
