//! A stable order by rank.

use vstd::prelude::*;

verus! {

/// Whether position `a` comes before position `b`: by key, then by position.
pub open spec fn comes_before(keys: Seq<(u128, u64)>, a: int, b: int) -> bool {
    ||| keys[a].0 < keys[b].0
    ||| keys[a].0 == keys[b].0 && keys[a].1 < keys[b].1
    ||| keys[a].0 == keys[b].0 && keys[a].1 == keys[b].1 && a < b
}

/// Whether `order` lists the positions of `keys` from first to last.
pub open spec fn is_key_order(order: Seq<usize>, keys: Seq<(u128, u64)>) -> bool {
    &&& order.len() == keys.len()
    &&& forall|i: int| 0 <= i < order.len() ==> (#[trigger] order[i]) < keys.len()
    &&& forall|i: int, j: int|
        0 <= i < j < order.len() ==> comes_before(
            keys,
            #[trigger] order[i] as int,
            #[trigger] order[j] as int,
        )
}

fn goes_first(keys: &Vec<(u128, u64)>, a: usize, b: usize) -> (r: bool)
    requires
        a < keys@.len(),
        b < keys@.len(),
    ensures
        r == comes_before(keys@, a as int, b as int),
{
    let x: (u128, u64) = keys[a];
    let y: (u128, u64) = keys[b];
    x.0 < y.0 || (x.0 == y.0 && x.1 < y.1) || (x.0 == y.0 && x.1 == y.1 && a < b)
}

/// The positions of `keys`, ordered by key; equal keys keep their order.
pub fn key_order(keys: &Vec<(u128, u64)>) -> (r: Vec<usize>)
    ensures
        is_key_order(r@, keys@),
{
    let mut out: Vec<usize> = Vec::new();
    let mut i: usize = 0;
    while i < keys.len()
        invariant
            i <= keys@.len(),
            out@.len() == i,
            forall|k: int| 0 <= k < i ==> (#[trigger] out@[k]) < i,
            forall|k: int, l: int|
                0 <= k < l < i ==> comes_before(
                    keys@,
                    #[trigger] out@[k] as int,
                    #[trigger] out@[l] as int,
                ),
        decreases keys@.len() - i,
    {
        let mut at: usize = out.len();
        while at > 0 && goes_first(keys, i, out[at - 1])
            invariant
                at <= out@.len() == i < keys@.len(),
                forall|k: int| 0 <= k < i ==> (#[trigger] out@[k]) < i,
                forall|k: int| at <= k < i ==> comes_before(keys@, i as int, #[trigger] out@[k] as int),
            decreases at,
        {
            at = at - 1;
        }
        let ghost before = out@;
        out.insert(at, i);
        proof {
            assert forall|k: int, l: int| 0 <= k < l < i + 1 implies comes_before(
                keys@,
                #[trigger] out@[k] as int,
                #[trigger] out@[l] as int,
            ) by {
                let k0 = if k < at {
                    k
                } else {
                    k - 1
                };
                let l0 = if l < at {
                    l
                } else {
                    l - 1
                };
                if l == at {
                    assert(out@[k] == before[k]);
                    assert(!comes_before(keys@, i as int, before[at - 1] as int));
                    assert(before[at - 1] < i);
                    assert(k == at - 1 || comes_before(keys@, before[k] as int, before[at - 1] as int));
                } else if k == at {
                    assert(out@[l] == before[l - 1]);
                } else {
                    assert(out@[k] == before[k0]);
                    assert(out@[l] == before[l0]);
                }
            }
        }
        i = i + 1;
    }
    out
}

/// What a latency is ranked by: itself, and a value behind every latency where
/// there is none.
pub open spec fn latency_rank(latency: Option<u64>) -> u128 {
    match latency {
        Some(n) => n as u128,
        None => 0x1_0000_0000_0000_0000u128,
    }
}

/// The rank of a latency.
pub fn rank_latency(latency: Option<u64>) -> (r: u128)
    ensures
        r == latency_rank(latency),
{
    match latency {
        Some(n) => n as u128,
        None => 0x1_0000_0000_0000_0000u128,
    }
}

/// `items` in the order that `order` lists.
pub open spec fn arranged<T>(items: Seq<T>, order: Seq<usize>) -> Seq<T> {
    order.map_values(|p: usize| items[p as int])
}

/// An order by key lists every position, once.
pub proof fn law_key_order_is_a_permutation(order: Seq<usize>, keys: Seq<(u128, u64)>, p: usize)
    requires
        is_key_order(order, keys),
        p < keys.len() <= usize::MAX,
    ensures
        order.contains(p),
        order.no_duplicates(),
{
    assert forall|i: int, j: int| 0 <= i < order.len() && 0 <= j < order.len() && i != j implies
        order[i] != order[j] by {
        if i < j {
            assert(comes_before(keys, order[i] as int, order[j] as int));
        } else {
            assert(comes_before(keys, order[j] as int, order[i] as int));
        }
    }
    let all = Set::<usize>::new(|x: usize| x < keys.len());
    order.unique_seq_to_set();
    let got = order.to_set();
    lemma_below_finite(keys.len() as int);
    assert(got.subset_of(all));
    vstd::set_lib::lemma_subset_equality(got, all);
    assert(got.contains(p));
}

proof fn lemma_below_finite(n: int)
    requires
        0 <= n <= usize::MAX,
    ensures
        Set::<usize>::new(|x: usize| x < n).finite(),
        Set::<usize>::new(|x: usize| x < n).len() == n,
    decreases n,
{
    let s = Set::<usize>::new(|x: usize| x < n);
    if n == 0 {
        assert(s =~= Set::<usize>::empty());
    } else {
        lemma_below_finite(n - 1);
        let t = Set::<usize>::new(|x: usize| x < n - 1);
        assert(s =~= t.insert((n - 1) as usize));
    }
}

} // verus!
