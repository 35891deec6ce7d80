//! Putting items in order by a key, where items with equal keys keep their order.

use vstd::prelude::*;

verus! {

/// `order` with the item `k` behind all items whose key is not greater than its own, when the
/// keys of `order` go up.
pub open spec fn placed(order: Seq<int>, keys: Seq<int>, k: int) -> Seq<int>
    decreases order.len(),
{
    if order.len() == 0 || keys[order.last()] <= keys[k] {
        order.push(k)
    } else {
        placed(order.drop_last(), keys, k).push(order.last())
    }
}

/// The first `n` items in ascending order of their keys.
pub open spec fn ascending_first(keys: Seq<int>, n: nat) -> Seq<int>
    decreases n,
{
    if n == 0 {
        Seq::empty()
    } else {
        placed(ascending_first(keys, (n - 1) as nat), keys, n - 1)
    }
}

/// All items in ascending order of their keys.
pub open spec fn ascending(keys: Seq<int>) -> Seq<int> {
    ascending_first(keys, keys.len())
}

/// All items in descending order of their keys.
pub open spec fn descending(keys: Seq<int>) -> Seq<int> {
    ascending(keys.map_values(|k: int| -k))
}

/// Whether the items in `order` stand by ascending key, and those of equal key by their place.
pub open spec fn in_order(order: Seq<int>, keys: Seq<int>) -> bool {
    forall|a: int, b: int|
        0 <= a < b < order.len() ==> {
            ||| keys[#[trigger] order[a]] < keys[#[trigger] order[b]]
            ||| keys[order[a]] == keys[order[b]] && order[a] < order[b]
        }
}

/// Whether `order` names each of the first `n` items exactly once.
pub open spec fn names_all(order: Seq<int>, n: int) -> bool {
    &&& order.len() == n
    &&& forall|a: int| 0 <= a < order.len() ==> 0 <= #[trigger] order[a] < n
    &&& forall|a: int, b: int|
        0 <= a < b < order.len() ==> #[trigger] order[a] != #[trigger] order[b]
    &&& forall|k: int| 0 <= k < n ==> #[trigger] order.contains(k)
}

proof fn lemma_placed(order: Seq<int>, keys: Seq<int>, k: int, at: int)
    requires
        0 <= at <= order.len(),
        forall|t: int| at <= t < order.len() ==> keys[#[trigger] order[t]] > keys[k],
        at > 0 ==> keys[order[at - 1]] <= keys[k],
    ensures
        placed(order, keys, k) == order.insert(at, k),
    decreases order.len(),
{
    if at < order.len() {
        assert(keys[order[order.len() - 1]] > keys[k]);
        lemma_placed(order.drop_last(), keys, k, at);
        assert(order.drop_last().insert(at, k).push(order.last()) =~= order.insert(at, k));
    } else {
        assert(order.push(k) =~= order.insert(at, k));
    }
}

/// There is a place for the next item.
proof fn lemma_place_exists(order: Seq<int>, keys: Seq<int>, k: int) -> (at: int)
    ensures
        0 <= at <= order.len(),
        forall|t: int| at <= t < order.len() ==> keys[#[trigger] order[t]] > keys[k],
        at > 0 ==> keys[order[at - 1]] <= keys[k],
    decreases order.len(),
{
    if order.len() == 0 || keys[order.last()] <= keys[k] {
        order.len() as int
    } else {
        let at = lemma_place_exists(order.drop_last(), keys, k);
        assert forall|t: int| at <= t < order.len() implies keys[#[trigger] order[t]]
            > keys[k] by {
            if t < order.len() - 1 {
                assert(order.drop_last()[t] == order[t]);
            }
        }
        at
    }
}

proof fn lemma_ascending_first(keys: Seq<int>, n: nat)
    requires
        n <= keys.len(),
    ensures
        names_all(ascending_first(keys, n), n as int),
        in_order(ascending_first(keys, n), keys),
    decreases n,
{
    if n > 0 {
        let k = n - 1;
        let order = ascending_first(keys, k as nat);
        lemma_ascending_first(keys, k as nat);
        let at = lemma_place_exists(order, keys, k);
        lemma_placed(order, keys, k, at);
        let next = order.insert(at, k);
        assert(ascending_first(keys, n) == next);
        assert forall|j: int| 0 <= j < n implies #[trigger] next.contains(j) by {
            if j == k {
                assert(next[at] == k);
            } else {
                assert(order.contains(j));
                let p = order.index_of(j);
                if p < at {
                    assert(next[p] == j);
                } else {
                    assert(next[p + 1] == j);
                }
            }
        }
        assert forall|a: int| 0 <= a < next.len() implies 0 <= #[trigger] next[a] < n by {
            if a < at {
                assert(next[a] == order[a]);
            } else if a > at {
                assert(next[a] == order[a - 1]);
            }
        }
        assert forall|a: int, b: int| 0 <= a < b < next.len() implies {
            ||| keys[#[trigger] next[a]] < keys[#[trigger] next[b]]
            ||| keys[next[a]] == keys[next[b]] && next[a] < next[b]
        } by {
            let oa = if a < at {
                a
            } else {
                a - 1
            };
            let ob = if b < at {
                b
            } else {
                b - 1
            };
            if a != at {
                assert(next[a] == order[oa]);
            }
            if b != at {
                assert(next[b] == order[ob]);
            }
            if b == at && at > 0 && a < at - 1 {
                assert(keys[order[a]] <= keys[order[at - 1]]);
            }
        }
        assert forall|a: int, b: int| 0 <= a < b < next.len() implies #[trigger] next[a]
            != #[trigger] next[b] by {}
    }
}

/// The ascending order names each item exactly once; keys go up along it, and items with equal
/// keys keep the order they had.
pub proof fn lemma_ascending(keys: Seq<int>)
    ensures
        names_all(ascending(keys), keys.len() as int),
        in_order(ascending(keys), keys),
{
    lemma_ascending_first(keys, keys.len());
}

/// The descending order names each item exactly once; keys go down along it, and items with
/// equal keys keep the order they had.
pub proof fn lemma_descending(keys: Seq<int>)
    ensures
        names_all(descending(keys), keys.len() as int),
        forall|a: int, b: int|
            0 <= a < b < keys.len() ==> {
                ||| keys[#[trigger] descending(keys)[a]] > keys[#[trigger] descending(keys)[b]]
                ||| keys[descending(keys)[a]] == keys[descending(keys)[b]] && descending(keys)[a]
                    < descending(keys)[b]
            },
{
    let negated = keys.map_values(|k: int| -k);
    lemma_ascending(negated);
    assert forall|a: int, b: int| 0 <= a < b < keys.len() implies {
        ||| keys[#[trigger] descending(keys)[a]] > keys[#[trigger] descending(keys)[b]]
        ||| keys[descending(keys)[a]] == keys[descending(keys)[b]] && descending(keys)[a]
            < descending(keys)[b]
    } by {
        let x = ascending(negated)[a];
        let y = ascending(negated)[b];
        assert(negated[x] == -keys[x]);
        assert(negated[y] == -keys[y]);
    }
}

/// Keys as integers.
pub open spec fn key_values(keys: Seq<i128>) -> Seq<int> {
    keys.map_values(|k: i128| k as int)
}

/// Places as integers.
pub open spec fn places(order: Seq<usize>) -> Seq<int> {
    order.map_values(|p: usize| p as int)
}

/// The items in ascending order of their keys.
pub fn order_ascending(keys: &Vec<i128>) -> (r: Vec<usize>)
    ensures
        places(r@) == ascending(key_values(keys@)),
        r@.len() == keys@.len(),
        forall|i: int| 0 <= i < r@.len() ==> (#[trigger] r@[i]) < keys@.len(),
{
    let ghost ks = key_values(keys@);
    let mut out: Vec<usize> = Vec::new();
    let mut k: usize = 0;
    assert(places(out@) =~= ascending_first(ks, 0));
    while k < keys.len()
        invariant
            k <= keys@.len(),
            out@.len() == k,
            ks == key_values(keys@),
            places(out@) == ascending_first(ks, k as nat),
            forall|i: int| 0 <= i < out@.len() ==> (#[trigger] out@[i]) < k,
        decreases keys@.len() - k,
    {
        let ghost order = places(out@);
        let mut at: usize = out.len();
        while at > 0 && keys[out[at - 1]] > keys[k]
            invariant
                at <= out@.len(),
                k < keys@.len(),
                ks == key_values(keys@),
                order == places(out@),
                forall|i: int| 0 <= i < out@.len() ==> (#[trigger] out@[i]) < k,
                forall|t: int| at <= t < order.len() ==> ks[#[trigger] order[t]] > ks[k as int],
            decreases at,
        {
            assert(ks[order[at - 1]] > ks[k as int]);
            at = at - 1;
        }
        proof {
            if at > 0 {
                assert(ks[order[at - 1]] <= ks[k as int]);
            }
            lemma_placed(order, ks, k as int, at as int);
        }
        out.insert(at, k);
        assert(places(out@) =~= order.insert(at as int, k as int));
        k = k + 1;
    }
    out
}

/// The items in descending order of their keys.
pub fn order_descending(keys: &Vec<i128>) -> (r: Vec<usize>)
    requires
        forall|i: int| 0 <= i < keys@.len() ==> #[trigger] keys@[i] > i128::MIN,
    ensures
        places(r@) == descending(key_values(keys@)),
        r@.len() == keys@.len(),
        forall|i: int| 0 <= i < r@.len() ==> (#[trigger] r@[i]) < keys@.len(),
{
    let mut negated: Vec<i128> = Vec::new();
    let mut i: usize = 0;
    while i < keys.len()
        invariant
            i <= keys@.len(),
            negated@.len() == i,
            forall|j: int| 0 <= j < keys@.len() ==> #[trigger] keys@[j] > i128::MIN,
            forall|j: int| 0 <= j < i ==> (#[trigger] negated@[j]) == -keys@[j],
        decreases keys@.len() - i,
    {
        negated.push(-keys[i]);
        i = i + 1;
    }
    assert(key_values(negated@) =~= key_values(keys@).map_values(|k: int| -k));
    order_ascending(&negated)
}

}
