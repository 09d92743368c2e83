use vstd::prelude::*;

verus! {

broadcast use vstd::seq_lib::group_seq_properties;

/// Lexicographic order on key pairs.
pub open spec fn key_less(a: (i128, i128), b: (i128, i128)) -> bool {
    a.0 < b.0 || (a.0 == b.0 && a.1 < b.1)
}

/// Whether item `x` comes before item `y` when items are ordered by key,
/// equal keys keeping the order of their indices.
pub open spec fn ranks_before(keys: Seq<(i128, i128)>, x: int, y: int) -> bool {
    key_less(keys[x], keys[y]) || (keys[x] == keys[y] && x < y)
}

/// Whether `order` lists each of the indices `0..n` exactly once.
pub open spec fn is_permutation(order: Seq<usize>, n: int) -> bool {
    &&& order.len() == n
    &&& forall|j: int| 0 <= j < order.len() ==> #[trigger] order[j] < n
    &&& forall|j: int, k: int| 0 <= j < k < order.len() ==> #[trigger] order[j] != #[trigger] order[k]
    &&& forall|x: int| 0 <= x < n ==> #[trigger] order.contains(x as usize)
}

/// Whether the indices listed in `order` appear in ascending key order, ties by index.
pub open spec fn is_sorted_by_keys(keys: Seq<(i128, i128)>, order: Seq<usize>) -> bool {
    forall|j: int, k: int|
        0 <= j < k < order.len() ==> ranks_before(keys, #[trigger] order[j] as int, #[trigger] order[k] as int)
}

/// Whether `order` is the stable ascending order of the items by key.
pub open spec fn is_stable_order(keys: Seq<(i128, i128)>, order: Seq<usize>) -> bool {
    is_permutation(order, keys.len() as int) && is_sorted_by_keys(keys, order)
}

/// Whether `key_a` is greater than `key_b` in the lexicographic order.
fn key_greater(key_a: (i128, i128), key_b: (i128, i128)) -> (greater: bool)
    ensures
        greater == key_less(key_b, key_a),
{
    key_a.0 > key_b.0 || (key_a.0 == key_b.0 && key_a.1 > key_b.1)
}

/// Returns the indices `0..keys.len()` in ascending key order; items with equal
/// keys keep the order of their indices (a stable sort of the indices).
pub fn stable_order(keys: &Vec<(i128, i128)>) -> (order: Vec<usize>)
    ensures
        is_stable_order(keys@, order@),
{
    let n = keys.len();
    let mut order: Vec<usize> = Vec::new();
    let mut i: usize = 0;
    while i < n
        invariant
            i <= n,
            n == keys@.len(),
            is_permutation(order@, i as int),
            is_sorted_by_keys(keys@, order@),
        decreases n - i,
    {
        let mut pos: usize = i;
        while pos > 0 && key_greater(keys[order[pos - 1]], keys[i])
            invariant
                0 <= pos <= i,
                i < n,
                n == keys@.len(),
                order@.len() == i,
                is_permutation(order@, i as int),
                forall|t: int| pos <= t < i ==> key_less(keys@[i as int], #[trigger] keys@[order@[t] as int]),
            decreases pos,
        {
            pos = pos - 1;
        }
        let ghost old_order = order@;
        proof {
            assert(forall|t: int| 0 <= t < pos ==> !key_less(keys@[i as int], #[trigger] keys@[old_order[t] as int])) by {
                if pos > 0 {
                    assert forall|t: int| 0 <= t < pos implies !key_less(keys@[i as int], #[trigger] keys@[old_order[t] as int]) by {
                        if t < pos - 1 {
                            assert(ranks_before(keys@, old_order[t] as int, old_order[pos - 1] as int));
                        }
                    }
                }
            }
        }
        order.insert(pos, i);
        proof {
            let new_order = order@;
            assert(new_order == old_order.insert(pos as int, i));
            assert forall|j: int| 0 <= j < new_order.len() implies #[trigger] new_order[j] < i + 1 by {
                if j < pos {
                    assert(new_order[j] == old_order[j]);
                } else if j > pos {
                    assert(new_order[j] == old_order[j - 1]);
                }
            }
            assert forall|j: int, k: int| 0 <= j < k < new_order.len() implies #[trigger] new_order[j]
                != #[trigger] new_order[k] && ranks_before(keys@, new_order[j] as int, new_order[k] as int) by {
                if k < pos {
                    assert(new_order[j] == old_order[j] && new_order[k] == old_order[k]);
                } else if k == pos {
                    assert(new_order[j] == old_order[j]);
                    assert(!key_less(keys@[i as int], keys@[old_order[j] as int]));
                    assert(old_order[j] < i);
                } else if j == pos {
                    assert(new_order[k] == old_order[k - 1]);
                    assert(key_less(keys@[i as int], keys@[old_order[k - 1] as int]));
                } else if j < pos {
                    assert(new_order[j] == old_order[j] && new_order[k] == old_order[k - 1]);
                } else {
                    assert(new_order[j] == old_order[j - 1] && new_order[k] == old_order[k - 1]);
                }
            }
            assert forall|x: int| 0 <= x < i + 1 implies #[trigger] new_order.contains(x as usize) by {
                if x == i {
                    assert(new_order[pos as int] == i);
                } else {
                    assert(old_order.contains(x as usize));
                    let m = choose|m: int| 0 <= m < old_order.len() && old_order[m] == x as usize;
                    if m < pos {
                        assert(new_order[m] == x as usize);
                    } else {
                        assert(new_order[m + 1] == x as usize);
                    }
                }
            }
        }
        i = i + 1;
    }
    order
}


/// The position of an `f32` bit pattern in the IEEE 754 total order, as
/// `f32::total_cmp` compares: non-negative patterns count up from zero,
/// negative ones count down from minus one as their magnitude grows.
pub open spec fn total_order_key(bits: u32) -> int {
    if bits < 0x8000_0000 {
        bits as int
    } else {
        -1 - (bits - 0x8000_0000)
    }
}

/// Whether an `f32` bit pattern has its sign bit set.
pub open spec fn sign_bit_set(bits: u32) -> bool {
    bits >= 0x8000_0000
}

/// An `f32` bit pattern without its sign bit: the exponent and mantissa bits,
/// which order the magnitudes of non-NaN values.
pub open spec fn magnitude_bits(bits: u32) -> int {
    if sign_bit_set(bits) {
        bits - 0x8000_0000
    } else {
        bits as int
    }
}

/// Whether `f32::total_cmp` puts the pattern `a` before `b` (IEEE 754
/// totalOrder): a pattern with the sign bit set comes before any without it;
/// among patterns without it the smaller magnitude comes first, among
/// patterns with it the larger magnitude comes first. On non-NaN values this
/// is the order of the values, with `-0.0` before `+0.0`.
pub open spec fn total_order_before(a: u32, b: u32) -> bool {
    if sign_bit_set(a) != sign_bit_set(b) {
        sign_bit_set(a)
    } else if sign_bit_set(a) {
        magnitude_bits(a) > magnitude_bits(b)
    } else {
        magnitude_bits(a) < magnitude_bits(b)
    }
}

/// The order key of `f32` bit patterns is strictly monotone in the IEEE 754
/// total order and tells distinct patterns apart.
pub proof fn lemma_order_key_follows_total_order(a: u32, b: u32)
    ensures
        total_order_key(a) < total_order_key(b) <==> total_order_before(a, b),
        total_order_key(a) == total_order_key(b) <==> a == b,
{
}

/// Maps an `f32` bit pattern to its position in the IEEE 754 total order.
pub fn f32_bits_order_key(bits: u32) -> (key: i32)
    ensures
        key == total_order_key(bits),
{
    if bits < 0x8000_0000 {
        bits as i32
    } else {
        -1 - ((bits - 0x8000_0000) as i32)
    }
}

/// Keys that order `f32` bit patterns from the greatest value down.
pub open spec fn descending_value_keys(bits: Seq<u32>) -> Seq<(i128, i128)> {
    bits.map_values(|b: u32| ((-total_order_key(b)) as i128, 0i128))
}

/// Keys that order `f32` bit patterns from the least value up.
pub open spec fn ascending_value_keys(bits: Seq<u32>) -> Seq<(i128, i128)> {
    bits.map_values(|b: u32| (total_order_key(b) as i128, 0i128))
}

/// Keys that order items by an integer rank first and by descending `f32` value second.
pub open spec fn rank_then_descending_value_keys(ranks: Seq<usize>, bits: Seq<u32>) -> Seq<(i128, i128)> {
    Seq::new(ranks.len(), |i: int| (ranks[i] as i128, (-total_order_key(bits[i])) as i128))
}

/// Ordering items by their descending-value keys puts `x` before `y` exactly
/// when `f32::total_cmp` puts value `y` before value `x`, equal values
/// keeping index order.
pub proof fn lemma_descending_keys_order_by_value(bits: Seq<u32>, x: int, y: int)
    requires
        0 <= x < bits.len(),
        0 <= y < bits.len(),
    ensures
        ranks_before(descending_value_keys(bits), x, y) <==> (total_order_before(bits[y], bits[x]) || (
        bits[x] == bits[y] && x < y)),
{
    lemma_order_key_follows_total_order(bits[x], bits[y]);
    lemma_order_key_follows_total_order(bits[y], bits[x]);
}

/// Ordering items by their ascending-value keys puts `x` before `y` exactly
/// when `f32::total_cmp` puts value `x` before value `y`, equal values
/// keeping index order.
pub proof fn lemma_ascending_keys_order_by_value(bits: Seq<u32>, x: int, y: int)
    requires
        0 <= x < bits.len(),
        0 <= y < bits.len(),
    ensures
        ranks_before(ascending_value_keys(bits), x, y) <==> (total_order_before(bits[x], bits[y]) || (
        bits[x] == bits[y] && x < y)),
{
    lemma_order_key_follows_total_order(bits[x], bits[y]);
    lemma_order_key_follows_total_order(bits[y], bits[x]);
}

/// Ordering items by rank, then by descending value, puts `x` before `y`
/// exactly when `x` has the smaller rank, or the same rank and a value that
/// `f32::total_cmp` puts after `y`'s, equal ranks and values keeping index
/// order.
pub proof fn lemma_rank_keys_order_by_rank_then_value(ranks: Seq<usize>, bits: Seq<u32>, x: int, y: int)
    requires
        ranks.len() == bits.len(),
        0 <= x < bits.len(),
        0 <= y < bits.len(),
    ensures
        ranks_before(rank_then_descending_value_keys(ranks, bits), x, y) <==> (ranks[x] < ranks[y] || (
        ranks[x] == ranks[y] && (total_order_before(bits[y], bits[x]) || (bits[x] == bits[y] && x
            < y)))),
{
    lemma_order_key_follows_total_order(bits[x], bits[y]);
    lemma_order_key_follows_total_order(bits[y], bits[x]);
}

/// Whether `top` lists the `min(count, n)` items that come first in the stable
/// key order, in that order.
pub open spec fn is_stable_top(keys: Seq<(i128, i128)>, count: int, top: Seq<usize>) -> bool {
    &&& top.len() == if count < keys.len() { count } else { keys.len() as int }
    &&& forall|j: int| 0 <= j < top.len() ==> #[trigger] top[j] < keys.len()
    &&& forall|j: int, k: int| 0 <= j < k < top.len() ==> #[trigger] top[j] != #[trigger] top[k]
    &&& is_sorted_by_keys(keys, top)
    &&& forall|j: int, x: int|
        0 <= j < top.len() && 0 <= x < keys.len() && !top.contains(x as usize) ==> ranks_before(
            keys,
            #[trigger] top[j] as int,
            x,
        ) && #[trigger] top.contains(x as usize) == false
}

/// The first `count` indices of the stable key order (all of them when fewer exist).
pub fn stable_top(keys: &Vec<(i128, i128)>, count: usize) -> (top: Vec<usize>)
    ensures
        is_stable_top(keys@, count as int, top@),
{
    let mut order = stable_order(keys);
    let ghost full = order@;
    if count < order.len() {
        order.truncate(count);
    }
    proof {
        let top = order@;
        assert(top == full.take(top.len() as int));
        assert forall|j: int, x: int|
            0 <= j < top.len() && 0 <= x < keys@.len() && !top.contains(x as usize) implies ranks_before(
            keys@,
            #[trigger] top[j] as int,
            x,
        ) && #[trigger] top.contains(x as usize) == false by {
            assert(full.contains(x as usize));
            let m = choose|m: int| 0 <= m < full.len() && full[m] == x as usize;
            if m < top.len() {
                assert(top[m] == x as usize);
            }
            assert(top[j] == full[j]);
        }
    }
    order
}

/// Indices of `f32` values (given as bit patterns) from the greatest down, ties
/// by index, cut to the first `count`; a stable descending sort by
/// `f32::total_cmp` followed by `take(count)`.
pub fn top_by_descending_value(value_bits: &[u32], count: usize) -> (top: Vec<usize>)
    ensures
        is_stable_top(descending_value_keys(value_bits@), count as int, top@),
        forall|j: int, k: int|
            0 <= j < k < top@.len() ==> total_order_before(
                value_bits@[#[trigger] top@[k] as int],
                value_bits@[#[trigger] top@[j] as int],
            ) || (value_bits@[top@[j] as int] == value_bits@[top@[k] as int] && top@[j] < top@[k]),
        forall|j: int, x: int|
            #![trigger top@[j], value_bits@[x]]
            0 <= j < top@.len() && 0 <= x < value_bits@.len() && !top@.contains(x as usize)
                ==> total_order_before(value_bits@[x], value_bits@[top@[j] as int]) || (
            value_bits@[top@[j] as int] == value_bits@[x] && top@[j] < x),
{
    let mut keys: Vec<(i128, i128)> = Vec::new();
    let mut i: usize = 0;
    while i < value_bits.len()
        invariant
            i <= value_bits@.len(),
            keys@ == descending_value_keys(value_bits@).take(i as int),
        decreases value_bits@.len() - i,
    {
        let key = f32_bits_order_key(value_bits[i]);
        keys.push((-(key as i128), 0));
        assert(descending_value_keys(value_bits@).take(i + 1) == descending_value_keys(
            value_bits@,
        ).take(i as int).push(((-(key as i128)) as i128, 0i128)));
        i = i + 1;
    }
    assert(descending_value_keys(value_bits@).take(i as int) == descending_value_keys(value_bits@));
    let top = stable_top(&keys, count);
    proof {
        let t = top@;
        let v = value_bits@;
        assert forall|j: int, k: int| 0 <= j < k < t.len() implies total_order_before(
            v[#[trigger] t[k] as int],
            v[#[trigger] t[j] as int],
        ) || (v[t[j] as int] == v[t[k] as int] && t[j] < t[k]) by {
            lemma_descending_keys_order_by_value(v, t[j] as int, t[k] as int);
        }
        assert forall|j: int, x: int|
            #![trigger t[j], v[x]]
            0 <= j < t.len() && 0 <= x < v.len() && !t.contains(x as usize) implies total_order_before(
            v[x],
            v[t[j] as int],
        ) || (v[t[j] as int] == v[x] && t[j] < x) by {
            lemma_descending_keys_order_by_value(v, t[j] as int, x);
        }
    }
    top
}

/// Reading-order ranks from per-item votes (as `f32` bit patterns): the item
/// with the fewest votes gets rank 0, ties broken by index.
///
/// Each item's rank is its position in the stable ascending order of the votes.
pub fn ranks_by_ascending_value(vote_bits: &[u32]) -> (ranks: Vec<usize>)
    ensures
        is_permutation(ranks@, vote_bits@.len() as int),
        forall|x: int, y: int|
            0 <= x < vote_bits@.len() && 0 <= y < vote_bits@.len() && x != y ==> (#[trigger] ranks@[x]
                < #[trigger] ranks@[y] <==> ranks_before(ascending_value_keys(vote_bits@), x, y)),
        forall|x: int, y: int|
            0 <= x < vote_bits@.len() && 0 <= y < vote_bits@.len() && x != y ==> (#[trigger] ranks@[x]
                < #[trigger] ranks@[y] <==> (total_order_before(vote_bits@[x], vote_bits@[y]) || (
            vote_bits@[x] == vote_bits@[y] && x < y))),
{
    let n = vote_bits.len();
    let mut keys: Vec<(i128, i128)> = Vec::new();
    let mut i: usize = 0;
    while i < n
        invariant
            i <= n,
            n == vote_bits@.len(),
            keys@ == ascending_value_keys(vote_bits@).take(i as int),
        decreases n - i,
    {
        let key = f32_bits_order_key(vote_bits[i]);
        keys.push((key as i128, 0));
        assert(ascending_value_keys(vote_bits@).take(i + 1) == ascending_value_keys(vote_bits@).take(
            i as int,
        ).push((key as i128, 0i128)));
        i = i + 1;
    }
    assert(ascending_value_keys(vote_bits@).take(n as int) == ascending_value_keys(vote_bits@));
    let order = stable_order(&keys);
    let ghost k = keys@;
    let mut ranks: Vec<usize> = vec![0usize; n];
    let mut r: usize = 0;
    while r < n
        invariant
            r <= n,
            n == k.len(),
            ranks@.len() == n,
            is_permutation(order@, n as int),
            forall|t: int| 0 <= t < r ==> ranks@[#[trigger] order@[t] as int] == t,
        decreases n - r,
    {
        let target = order[r];
        ranks.set(target, r);
        proof {
            assert forall|t: int| 0 <= t < r + 1 implies ranks@[#[trigger] order@[t] as int] == t by {
                if t < r {
                    assert(order@[t] != order@[r as int]);
                }
            }
        }
        r = r + 1;
    }
    proof {
        let o = order@;
        let rk = ranks@;
        assert forall|x: int| 0 <= x < n implies exists|a: int| 0 <= a < n && o[a] == x as usize && #[trigger] rk[x] == a by {
            assert(o.contains(x as usize));
            let a = choose|a: int| 0 <= a < o.len() && o[a] == x as usize;
            assert(rk[o[a] as int] == a);
        }
        assert forall|j: int| 0 <= j < rk.len() implies #[trigger] rk[j] < n by {
            let a = choose|a: int| 0 <= a < n && o[a] == j as usize && rk[j] == a;
        }
        assert forall|j: int, l: int| 0 <= j < l < rk.len() implies #[trigger] rk[j] != #[trigger] rk[l] by {
            let a = choose|a: int| 0 <= a < n && o[a] == j as usize && rk[j] == a;
            let b = choose|b: int| 0 <= b < n && o[b] == l as usize && rk[l] == b;
        }
        assert forall|v: int| 0 <= v < n implies #[trigger] rk.contains(v as usize) by {
            assert(rk[o[v] as int] == v);
        }
        assert forall|x: int, y: int| 0 <= x < n && 0 <= y < n && x != y implies (#[trigger] rk[x]
            < #[trigger] rk[y] <==> ranks_before(k, x, y)) by {
            let a = choose|a: int| 0 <= a < n && o[a] == x as usize && rk[x] == a;
            let b = choose|b: int| 0 <= b < n && o[b] == y as usize && rk[y] == b;
            if a < b {
                assert(ranks_before(k, o[a] as int, o[b] as int));
            } else {
                assert(a != b);
                assert(ranks_before(k, o[b] as int, o[a] as int));
            }
        }
    }
    proof {
        let v = vote_bits@;
        let rk = ranks@;
        assert forall|x: int, y: int|
            0 <= x < v.len() && 0 <= y < v.len() && x != y implies (#[trigger] rk[x] < #[trigger] rk[y]
            <==> (total_order_before(v[x], v[y]) || (v[x] == v[y] && x < y))) by {
            lemma_ascending_keys_order_by_value(v, x, y);
        }
    }
    ranks
}

/// Positions of items sorted by reading-order rank first and by descending
/// confidence (as `f32` bit patterns) second, ties by index; a stable sort
/// by `(rank, confidence descending)`.
pub fn reading_order(ranks: &[usize], confidence_bits: &[u32]) -> (order: Vec<usize>)
    requires
        ranks@.len() == confidence_bits@.len(),
    ensures
        is_stable_order(rank_then_descending_value_keys(ranks@, confidence_bits@), order@),
        forall|p: int, q: int|
            0 <= p < q < order@.len() ==> {
                let i = #[trigger] order@[p] as int;
                let j = #[trigger] order@[q] as int;
                ||| ranks@[i] < ranks@[j]
                ||| ranks@[i] == ranks@[j] && total_order_before(confidence_bits@[j], confidence_bits@[i])
                ||| ranks@[i] == ranks@[j] && confidence_bits@[i] == confidence_bits@[j] && i < j
            },
{
    let n = ranks.len();
    let ghost spec_keys = rank_then_descending_value_keys(ranks@, confidence_bits@);
    let mut keys: Vec<(i128, i128)> = Vec::new();
    let mut i: usize = 0;
    while i < n
        invariant
            i <= n,
            n == ranks@.len(),
            n == confidence_bits@.len(),
            spec_keys == rank_then_descending_value_keys(ranks@, confidence_bits@),
            keys@ == spec_keys.take(i as int),
        decreases n - i,
    {
        let key = f32_bits_order_key(confidence_bits[i]);
        keys.push((ranks[i] as i128, -(key as i128)));
        assert(spec_keys.take(i + 1) == spec_keys.take(i as int).push(
            (ranks@[i as int] as i128, (-(key as i128)) as i128),
        ));
        i = i + 1;
    }
    assert(spec_keys.take(n as int) == spec_keys);
    let order = stable_order(&keys);
    proof {
        let o = order@;
        assert forall|p: int, q: int| 0 <= p < q < o.len() implies {
            let i = #[trigger] o[p] as int;
            let j = #[trigger] o[q] as int;
            ||| ranks@[i] < ranks@[j]
            ||| ranks@[i] == ranks@[j] && total_order_before(confidence_bits@[j], confidence_bits@[i])
            ||| ranks@[i] == ranks@[j] && confidence_bits@[i] == confidence_bits@[j] && i < j
        } by {
            lemma_rank_keys_order_by_rank_then_value(ranks@, confidence_bits@, o[p] as int, o[q] as int);
        }
    }
    order
}

} // verus!
