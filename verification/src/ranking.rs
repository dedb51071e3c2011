//! Stable ordering by descending integer keys: which positions come first
//! when items are sorted by a key, largest first, ties in their order.
use vstd::prelude::*;

verus! {

/// `order` with index `i` placed after every index whose key is at least
/// `keys[i]`, counting from the back: a stable insertion by descending key.
pub open spec fn insert_ranked(order: Seq<int>, i: int, keys: Seq<u32>) -> Seq<int>
    decreases order.len(),
{
    if order.len() == 0 {
        seq![i]
    } else if keys[order.last()] >= keys[i] {
        order.push(i)
    } else {
        insert_ranked(order.drop_last(), i, keys).push(order.last())
    }
}

/// The first `n` indices of `keys`, ordered by descending key, ties in
/// index order.
pub open spec fn ranked_prefix(keys: Seq<u32>, n: nat) -> Seq<int>
    decreases n,
{
    if n == 0 {
        seq![]
    } else {
        insert_ranked(ranked_prefix(keys, (n - 1) as nat), n - 1, keys)
    }
}

/// The indices of `keys`, ordered by descending key, ties in index order:
/// what a stable sort by descending key gives.
pub open spec fn ranked(keys: Seq<u32>) -> Seq<int> {
    ranked_prefix(keys, keys.len())
}

pub proof fn lemma_insert_ranked_members(order: Seq<int>, i: int, keys: Seq<u32>, bound: int)
    requires
        forall|k: int| 0 <= k < order.len() ==> 0 <= #[trigger] order[k] < bound,
        0 <= i < bound,
    ensures
        insert_ranked(order, i, keys).len() == order.len() + 1,
        forall|k: int| 0 <= k < insert_ranked(order, i, keys).len() ==> 0 <= #[trigger] insert_ranked(order, i, keys)[k] < bound,
    decreases order.len(),
{
    if order.len() > 0 && keys[order.last()] < keys[i] {
        lemma_insert_ranked_members(order.drop_last(), i, keys, bound);
    }
}

pub proof fn lemma_ranked_prefix_members(keys: Seq<u32>, n: nat)
    ensures
        ranked_prefix(keys, n).len() == n,
        forall|k: int| 0 <= k < n ==> 0 <= #[trigger] ranked_prefix(keys, n)[k] < n,
    decreases n,
{
    if n > 0 {
        lemma_ranked_prefix_members(keys, (n - 1) as nat);
        lemma_insert_ranked_members(ranked_prefix(keys, (n - 1) as nat), n - 1, keys, n as int);
    }
}

/// The usize indices as integers.
pub open spec fn as_ints(v: Seq<usize>) -> Seq<int> {
    v.map_values(|x: usize| x as int)
}

pub fn insert_ranked_exec(order: &mut Vec<usize>, i: usize, keys: &Vec<u32>)
    requires
        i < keys@.len(),
        forall|k: int| 0 <= k < old(order)@.len() ==> #[trigger] old(order)@[k] < keys@.len(),
    ensures
        as_ints(final(order)@) == insert_ranked(as_ints(old(order)@), i as int, keys@),
{
    let ghost o0 = as_ints(order@);
    let mut tail: Vec<usize> = Vec::new();
    while order.len() > 0 && keys[order[order.len() - 1]] < keys[i]
        invariant
            i < keys@.len(),
            forall|k: int| 0 <= k < order@.len() ==> #[trigger] order@[k] < keys@.len(),
            insert_ranked(o0, i as int, keys@) == insert_ranked(as_ints(order@), i as int, keys@) + as_ints(tail@).reverse(),
        decreases order@.len(),
    {
        let ghost before = as_ints(order@);
        let last = order.pop().unwrap();
        proof {
            assert(before.drop_last() =~= as_ints(order@));
            assert(before.last() == last as int);
            assert(as_ints(tail@.push(last)).reverse() =~= seq![last as int] + as_ints(tail@).reverse());
            assert(insert_ranked(before, i as int, keys@) == insert_ranked(as_ints(order@), i as int, keys@).push(last as int));
            assert(insert_ranked(as_ints(order@), i as int, keys@).push(last as int) + as_ints(tail@).reverse()
                =~= insert_ranked(as_ints(order@), i as int, keys@) + as_ints(tail@.push(last)).reverse());
        }
        tail.push(last);
    }
    proof {
        assert(insert_ranked(as_ints(order@), i as int, keys@) == as_ints(order@).push(i as int));
    }
    let ghost head = as_ints(order@).push(i as int);
    order.push(i);
    assert(as_ints(order@) =~= head);
    while tail.len() > 0
        invariant
            insert_ranked(o0, i as int, keys@) == as_ints(order@) + as_ints(tail@).reverse(),
        decreases tail@.len(),
    {
        let ghost t0 = as_ints(tail@);
        let ghost ord0 = as_ints(order@);
        let x = tail.pop().unwrap();
        order.push(x);
        proof {
            assert(t0.reverse() =~= seq![x as int] + as_ints(tail@).reverse());
            assert(as_ints(order@) =~= ord0.push(x as int));
            assert(ord0 + t0.reverse() =~= as_ints(order@) + as_ints(tail@).reverse());
        }
    }
    assert(as_ints(order@) + as_ints(tail@).reverse() =~= as_ints(order@));
}

/// The indices of `keys` ordered by descending key, ties in index order.
pub fn rank_by_key(keys: &Vec<u32>) -> (r: Vec<usize>)
    ensures
        as_ints(r@) == ranked(keys@),
        forall|k: int| 0 <= k < r@.len() ==> #[trigger] r@[k] < keys@.len(),
{
    let mut order: Vec<usize> = Vec::new();
    let mut n: usize = 0;
    while n < keys.len()
        invariant
            0 <= n <= keys@.len(),
            as_ints(order@) == ranked_prefix(keys@, n as nat),
            forall|k: int| 0 <= k < order@.len() ==> #[trigger] order@[k] < n,
        decreases keys@.len() - n,
    {
        insert_ranked_exec(&mut order, n, keys);
        proof {
            lemma_ranked_prefix_members(keys@, (n + 1) as nat);
            assert forall|k: int| 0 <= k < order@.len() implies #[trigger] order@[k] < n + 1 by {
                assert(as_ints(order@)[k] == ranked_prefix(keys@, (n + 1) as nat)[k]);
            }
        }
        n = n + 1;
    }
    order
}

pub proof fn lemma_insert_ranked_distinct(order: Seq<int>, i: int, keys: Seq<u32>)
    requires
        order.no_duplicates(),
        !order.contains(i),
    ensures
        insert_ranked(order, i, keys).no_duplicates(),
        forall|x: int| #[trigger] insert_ranked(order, i, keys).contains(x) <==> (order.contains(x) || x == i),
    decreases order.len(),
{
    if order.len() > 0 && keys[order.last()] < keys[i] {
        let init = order.drop_last();
        assert forall|x: int| init.contains(x) implies order.contains(x) by {
            let k = choose|k: int| 0 <= k < init.len() && init[k] == x;
            assert(order[k] == x);
        }
        lemma_insert_ranked_distinct(init, i, keys);
        let ins = insert_ranked(init, i, keys);
        let last = order.last();
        assert(!init.contains(last)) by {
            if init.contains(last) {
                let k = choose|k: int| 0 <= k < init.len() && init[k] == last;
                assert(order[k] == order[order.len() - 1]);
            }
        }
        assert(last != i) by {
            assert(order[order.len() - 1] == last);
        }
        assert(!ins.contains(last));
        assert forall|a: int, b: int| 0 <= a < b < ins.push(last).len() implies ins.push(last)[a] != ins.push(last)[b] by {
            if b == ins.len() {
                assert(ins.contains(ins[a]));
            }
        }
        assert forall|x: int| #[trigger] ins.push(last).contains(x) <==> (order.contains(x) || x == i) by {
            if ins.push(last).contains(x) {
                if x != last {
                    let k = choose|k: int| 0 <= k < ins.push(last).len() && ins.push(last)[k] == x;
                    assert(ins[k] == x);
                    assert(ins.contains(x));
                    if init.contains(x) {
                        assert(order.contains(x));
                    }
                } else {
                    assert(order[order.len() - 1] == x);
                }
            }
            if order.contains(x) {
                let k = choose|k: int| 0 <= k < order.len() && order[k] == x;
                if k < order.len() - 1 {
                    assert(init[k] == x);
                    assert(ins.contains(x));
                    let m = choose|m: int| 0 <= m < ins.len() && ins[m] == x;
                    assert(ins.push(last)[m] == x);
                } else {
                    assert(ins.push(last)[ins.len() as int] == x);
                }
            }
            if x == i {
                assert(ins.contains(x));
                let m = choose|m: int| 0 <= m < ins.len() && ins[m] == x;
                assert(ins.push(last)[m] == x);
            }
        }
    } else if order.len() > 0 {
        assert forall|a: int, b: int| 0 <= a < b < order.push(i).len() implies order.push(i)[a] != order.push(i)[b] by {
            if b == order.len() {
                assert(order.contains(order[a]));
            }
        }
        assert forall|x: int| #[trigger] order.push(i).contains(x) <==> (order.contains(x) || x == i) by {
            if order.push(i).contains(x) {
                let k = choose|k: int| 0 <= k < order.push(i).len() && order.push(i)[k] == x;
                if k < order.len() {
                    assert(order[k] == x);
                }
            }
            if order.contains(x) {
                let k = choose|k: int| 0 <= k < order.len() && order[k] == x;
                assert(order.push(i)[k] == x);
            }
            if x == i {
                assert(order.push(i)[order.len() as int] == x);
            }
        }
    } else {
        assert(seq![i].contains(i) == true) by {
            assert(seq![i][0] == i);
        }
    }
}

pub proof fn lemma_ranked_distinct(keys: Seq<u32>, n: nat)
    ensures
        ranked_prefix(keys, n).no_duplicates(),
        forall|x: int| #[trigger] ranked_prefix(keys, n).contains(x) <==> 0 <= x < n,
    decreases n,
{
    if n > 0 {
        lemma_ranked_distinct(keys, (n - 1) as nat);
        lemma_insert_ranked_distinct(ranked_prefix(keys, (n - 1) as nat), n - 1, keys);
    }
}

/// `order` lists indices by descending key.
pub open spec fn sorted_desc(order: Seq<int>, keys: Seq<u32>) -> bool {
    forall|a: int, b: int| 0 <= a < b < order.len() ==> keys[order[a]] >= keys[order[b]]
}

pub proof fn lemma_insert_ranked_sorted(order: Seq<int>, i: int, keys: Seq<u32>)
    requires
        sorted_desc(order, keys),
        order.no_duplicates(),
        !order.contains(i),
    ensures
        sorted_desc(insert_ranked(order, i, keys), keys),
    decreases order.len(),
{
    if order.len() > 0 {
        let last = order.last();
        if keys[last] >= keys[i] {
            let r = order.push(i);
            assert forall|a: int, b: int| 0 <= a < b < r.len() implies keys[r[a]] >= keys[r[b]] by {
                if b == order.len() {
                    if a < order.len() - 1 {
                        assert(keys[order[a]] >= keys[order[order.len() - 1]]);
                    }
                }
            }
        } else {
            let init = order.drop_last();
            assert forall|x: int| init.contains(x) implies order.contains(x) by {
                let k = choose|k: int| 0 <= k < init.len() && init[k] == x;
                assert(order[k] == x);
            }
            assert(sorted_desc(init, keys)) by {
                assert forall|a: int, b: int| 0 <= a < b < init.len() implies keys[init[a]] >= keys[init[b]] by {
                    assert(init[a] == order[a] && init[b] == order[b]);
                }
            }
            lemma_insert_ranked_sorted(init, i, keys);
            lemma_insert_ranked_distinct(init, i, keys);
            let ins = insert_ranked(init, i, keys);
            let r = ins.push(last);
            assert forall|a: int, b: int| 0 <= a < b < r.len() implies keys[r[a]] >= keys[r[b]] by {
                if b == ins.len() {
                    let x = ins[a];
                    assert(ins.contains(x));
                    if x == i {
                    } else {
                        assert(init.contains(x));
                        let k = choose|k: int| 0 <= k < init.len() && init[k] == x;
                        assert(order[k] == x);
                        assert(keys[order[k]] >= keys[order[order.len() - 1]]);
                    }
                } else {
                    assert(r[a] == ins[a] && r[b] == ins[b]);
                }
            }
        }
    }
}

pub proof fn lemma_ranked_sorted(keys: Seq<u32>, n: nat)
    ensures
        sorted_desc(ranked_prefix(keys, n), keys),
    decreases n,
{
    if n > 0 {
        lemma_ranked_sorted(keys, (n - 1) as nat);
        lemma_ranked_distinct(keys, (n - 1) as nat);
        lemma_insert_ranked_sorted(ranked_prefix(keys, (n - 1) as nat), n - 1, keys);
    }
}

} // verus!
