//! Stable ordering by key.
//!
//! An order is a sequence of positions: the order `o` of a sequence `s` of
//! length `n` lists each position below `n` once, and stands for the
//! sequence `s[o[0]], s[o[1]], ...`. The stable order of a sequence of keys
//! lists the positions by rising key and, among equal keys, by rising
//! position.

use vstd::prelude::*;

verus! {

/// The order `order` with the position `x` put in behind every position
/// whose key is not greater than that of `x`.
pub open spec fn inserted(order: Seq<int>, keys: Seq<int>, x: int) -> Seq<int>
    decreases order.len(),
{
    if order.len() > 0 && keys[order.last()] > keys[x] {
        inserted(order.drop_last(), keys, x).push(order.last())
    } else {
        order.push(x)
    }
}

/// The stable order of the first `n` positions of `keys`.
pub open spec fn stable_order_of(keys: Seq<int>, n: nat) -> Seq<int>
    decreases n,
{
    if n == 0 {
        Seq::empty()
    } else {
        inserted(stable_order_of(keys, (n - 1) as nat), keys, n - 1)
    }
}

/// The stable order of `keys`: its positions by rising key and, among
/// equal keys, by rising position.
pub open spec fn stable_order(keys: Seq<int>) -> Seq<int> {
    stable_order_of(keys, keys.len())
}

/// The position `a` comes before the position `b` in the stable order: its
/// key is smaller, or the keys are equal and `a` is the earlier position.
pub open spec fn comes_before(keys: Seq<int>, a: int, b: int) -> bool {
    keys[a] < keys[b] || (keys[a] == keys[b] && a < b)
}

/// `order` lists positions below `n`, each before all that come after it in
/// the stable order.
pub open spec fn is_stably_ordered(order: Seq<int>, keys: Seq<int>, n: int) -> bool {
    &&& forall|i: int| 0 <= i < order.len() ==> 0 <= #[trigger] order[i] < n
    &&& forall|i: int, j: int|
        0 <= i < j < order.len() ==> comes_before(keys, #[trigger] order[i], #[trigger] order[j])
}

/// The sequence that `order` stands for: the items of `s` at the positions
/// that `order` lists.
pub open spec fn arranged<T>(s: Seq<T>, order: Seq<int>) -> Seq<T> {
    Seq::new(order.len(), |i: int| s[order[i]])
}

/// Where `x` goes into `order`: `inserted` splits the order at `at` when
/// every position from `at` on has a greater key than `x` and the one before
/// `at` has not.
pub proof fn lemma_inserted_at(order: Seq<int>, keys: Seq<int>, x: int, at: int)
    requires
        0 <= at <= order.len(),
        forall|j: int| at <= j < order.len() ==> keys[#[trigger] order[j]] > keys[x],
        at > 0 ==> keys[order[at - 1]] <= keys[x],
    ensures
        inserted(order, keys, x) == order.insert(at, x),
    decreases order.len() - at,
{
    if at < order.len() {
        let rest = order.drop_last();
        assert(keys[order[order.len() - 1]] > keys[x]);
        assert forall|j: int| at <= j < rest.len() implies keys[#[trigger] rest[j]] > keys[x] by {
            assert(rest[j] == order[j]);
        }
        if at > 0 {
            assert(rest[at - 1] == order[at - 1]);
        }
        lemma_inserted_at(rest, keys, x, at);
        assert(rest.insert(at, x).push(order.last()) =~= order.insert(at, x));
    } else {
        assert(order.push(x) =~= order.insert(at, x));
    }
}

/// Putting a new last position into a stable order gives a stable order
/// that holds the new position and every one that was there.
pub proof fn lemma_inserted_keeps_order(order: Seq<int>, keys: Seq<int>, x: int)
    requires
        is_stably_ordered(order, keys, x),
        0 <= x,
    ensures
        is_stably_ordered(inserted(order, keys, x), keys, x + 1),
        inserted(order, keys, x).len() == order.len() + 1,
        inserted(order, keys, x).contains(x),
        forall|y: int| order.contains(y) ==> inserted(order, keys, x).contains(y),
    decreases order.len(),
{
    let result = inserted(order, keys, x);
    if order.len() > 0 && keys[order.last()] > keys[x] {
        let rest = order.drop_last();
        let last = order.last();
        assert forall|i: int| 0 <= i < rest.len() implies rest[i] == order[i] by {}
        assert(is_stably_ordered(rest, keys, x)) by {
            assert forall|i: int, j: int| 0 <= i < j < rest.len() implies comes_before(
                keys,
                #[trigger] rest[i],
                #[trigger] rest[j],
            ) by {
                assert(rest[i] == order[i] && rest[j] == order[j]);
            }
            assert forall|i: int| 0 <= i < rest.len() implies 0 <= #[trigger] rest[i] < x by {
                assert(rest[i] == order[i]);
            }
        }
        lemma_inserted_keeps_order(rest, keys, x);
        let inner = inserted(rest, keys, x);
        assert(result == inner.push(last));
        assert forall|i: int| 0 <= i < inner.len() implies comes_before(
            keys,
            #[trigger] inner[i],
            last,
        ) by {
            if inner[i] == x {
            } else {
                lemma_inserted_members(rest, keys, x, inner[i]);
                let k = choose|k: int| 0 <= k < rest.len() && rest[k] == inner[i];
                assert(rest[k] == order[k]);
                assert(comes_before(keys, order[k], order[order.len() - 1]));
            }
        }
        assert forall|i: int, j: int| 0 <= i < j < result.len() implies comes_before(
            keys,
            #[trigger] result[i],
            #[trigger] result[j],
        ) by {
            if j < inner.len() {
                assert(result[i] == inner[i] && result[j] == inner[j]);
            } else {
                assert(result[i] == inner[i]);
            }
        }
        assert forall|i: int| 0 <= i < result.len() implies 0 <= #[trigger] result[i] < x + 1 by {
            if i < inner.len() {
                assert(result[i] == inner[i]);
            } else {
                assert(result[i] == order[order.len() - 1]);
            }
        }
        assert(result.contains(x)) by {
            let k = choose|k: int| 0 <= k < inner.len() && inner[k] == x;
            assert(result[k] == x);
        }
        assert forall|y: int| order.contains(y) implies result.contains(y) by {
            let k = choose|k: int| 0 <= k < order.len() && order[k] == y;
            if k < rest.len() {
                assert(rest[k] == y);
                assert(rest.contains(y));
                let m = choose|m: int| 0 <= m < inner.len() && inner[m] == y;
                assert(result[m] == y);
            } else {
                assert(result[inner.len() as int] == y);
            }
        }
    } else {
        assert(result == order.push(x));
        assert forall|i: int, j: int| 0 <= i < j < result.len() implies comes_before(
            keys,
            #[trigger] result[i],
            #[trigger] result[j],
        ) by {
            if j < order.len() {
                assert(result[i] == order[i] && result[j] == order[j]);
            } else {
                assert(result[i] == order[i]);
                assert(result[j] == x);
                if order.len() > 0 {
                    if i < order.len() - 1 {
                        assert(comes_before(keys, order[i], order[order.len() - 1]));
                    }
                }
            }
        }
        assert forall|i: int| 0 <= i < result.len() implies 0 <= #[trigger] result[i] < x + 1 by {
            if i < order.len() {
                assert(result[i] == order[i]);
            }
        }
        assert(result[order.len() as int] == x);
        assert forall|y: int| order.contains(y) implies result.contains(y) by {
            let k = choose|k: int| 0 <= k < order.len() && order[k] == y;
            assert(result[k] == y);
        }
    }
}

/// Whatever `inserted` holds is the new position or was in the order.
pub proof fn lemma_inserted_members(order: Seq<int>, keys: Seq<int>, x: int, y: int)
    requires
        inserted(order, keys, x).contains(y),
        y != x,
    ensures
        order.contains(y),
    decreases order.len(),
{
    let result = inserted(order, keys, x);
    let k = choose|k: int| 0 <= k < result.len() && result[k] == y;
    if order.len() > 0 && keys[order.last()] > keys[x] {
        let rest = order.drop_last();
        let inner = inserted(rest, keys, x);
        if k < inner.len() {
            assert(inner[k] == y);
            lemma_inserted_members(rest, keys, x, y);
            let m = choose|m: int| 0 <= m < rest.len() && rest[m] == y;
            assert(order[m] == y);
        } else {
            assert(order[order.len() - 1] == y);
        }
    } else {
        assert(order[k] == y);
    }
}

/// The stable order of the first `n` keys lists each position below `n`,
/// by rising key and, among equal keys, by rising position.
pub proof fn lemma_stable_order_of(keys: Seq<int>, n: nat)
    ensures
        stable_order_of(keys, n).len() == n,
        is_stably_ordered(stable_order_of(keys, n), keys, n as int),
        forall|x: int| 0 <= x < n ==> stable_order_of(keys, n).contains(x),
    decreases n,
{
    if n > 0 {
        let before = stable_order_of(keys, (n - 1) as nat);
        lemma_stable_order_of(keys, (n - 1) as nat);
        lemma_inserted_keeps_order(before, keys, n - 1);
        assert forall|x: int| 0 <= x < n implies stable_order_of(keys, n).contains(x) by {
            if x < n - 1 {
                assert(before.contains(x));
            }
        }
    }
}

/// The stable order is a rearrangement that sorts: it lists every position
/// of `keys` exactly once, the keys never fall along it, and positions with
/// equal keys keep their order.
pub proof fn lemma_stable_order(keys: Seq<int>)
    ensures
        stable_order(keys).len() == keys.len(),
        forall|i: int|
            0 <= i < keys.len() ==> 0 <= #[trigger] stable_order(keys)[i] < keys.len(),
        forall|x: int| 0 <= x < keys.len() ==> stable_order(keys).contains(x),
        forall|i: int, j: int|
            0 <= i < j < keys.len() ==> stable_order(keys)[i] != stable_order(keys)[j],
        forall|i: int, j: int|
            0 <= i < j < keys.len() ==> keys[stable_order(keys)[i]] <= keys[stable_order(
                keys,
            )[j]],
        forall|i: int, j: int|
            0 <= i < j < keys.len() && keys[stable_order(keys)[i]] == keys[stable_order(keys)[j]]
                ==> stable_order(keys)[i] < stable_order(keys)[j],
{
    lemma_stable_order_of(keys, keys.len());
    let order = stable_order(keys);
    assert forall|i: int, j: int| 0 <= i < j < keys.len() implies order[i] != order[j]
        && keys[order[i]] <= keys[order[j]] && (keys[order[i]] == keys[order[j]] ==> order[i]
        < order[j]) by {
        assert(comes_before(keys, order[i], order[j]));
    }
}

/// Keys that never fall are already in stable order.
pub proof fn lemma_stable_order_of_sorted(keys: Seq<int>, n: nat)
    requires
        n <= keys.len(),
        forall|i: int, j: int| 0 <= i < j < keys.len() ==> keys[i] <= keys[j],
    ensures
        stable_order_of(keys, n) == Seq::new(n, |i: int| i),
    decreases n,
{
    if n > 0 {
        lemma_stable_order_of_sorted(keys, (n - 1) as nat);
        let before = stable_order_of(keys, (n - 1) as nat);
        assert(inserted(before, keys, n - 1) == before.push(n - 1)) by {
            if before.len() > 0 {
                assert(before.last() == n - 2);
            }
        }
        assert(before.push(n - 1) =~= Seq::new(n, |i: int| i));
    }
}

/// The keys as integers.
pub open spec fn key_values(keys: Seq<i128>) -> Seq<int> {
    keys.map_values(|k: i128| k as int)
}

/// The positions as integers.
pub open spec fn positions(order: Seq<usize>) -> Seq<int> {
    order.map_values(|p: usize| p as int)
}

/// Computes the stable order of the keys.
pub fn stable_order_by(keys: &Vec<i128>) -> (order: Vec<usize>)
    ensures
        positions(order@) == stable_order(key_values(keys@)),
        order.len() == keys.len(),
        forall|i: int| 0 <= i < order.len() ==> #[trigger] order[i] < keys.len(),
{
    let ghost values = key_values(keys@);
    let mut order: Vec<usize> = Vec::new();
    let mut n: usize = 0;
    while n < keys.len()
        invariant
            n <= keys.len(),
            values == key_values(keys@),
            order.len() == n,
            positions(order@) == stable_order_of(values, n as nat),
            forall|i: int| 0 <= i < order.len() ==> #[trigger] order[i] < n,
        decreases keys.len() - n,
    {
        let ghost before = positions(order@);
        let mut at: usize = order.len();
        while at > 0 && keys[order[at - 1]] > keys[n]
            invariant
                at <= order.len(),
                n < keys.len(),
                values == key_values(keys@),
                before == positions(order@),
                forall|i: int| 0 <= i < order.len() ==> #[trigger] order[i] < n,
                forall|j: int| at <= j < order.len() ==> values[#[trigger] before[j]] > values[n as int],
            decreases at,
        {
            at -= 1;
        }
        proof {
            lemma_inserted_at(before, values, n as int, at as int);
        }
        order.insert(at, n);
        assert(positions(order@) =~= before.insert(at as int, n as int));
        n += 1;
    }
    order
}

} // verus!
