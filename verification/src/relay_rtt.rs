//! Cached latencies of relays, by which they are ordered at startup.

use vstd::hash_map::StringHashMap;
use vstd::prelude::*;
use crate::order::{arranged, is_key_order, key_order, latency_rank, rank_latency};
use crate::text::texts;
use crate::time::{Duration, MILLISECOND};

verus! {

/// How long a cached latency stays fresh, in seconds.
pub const CACHE_TTL_SECS: u64 = 86_400;

/// One cached latency.
#[derive(Clone, Copy, Debug, PartialEq, Eq, Structural)]
pub struct Entry {
    /// Milliseconds; `None` where the last probe failed.
    pub rtt_ms: Option<u64>,
    /// Unix seconds of the probe.
    pub updated_unix: u64,
}

/// Latencies by relay URL.
pub struct RttCache {
    relays: StringHashMap<Entry>,
}

impl View for RttCache {
    type V = Map<Seq<char>, Entry>;

    closed spec fn view(&self) -> Map<Seq<char>, Entry> {
        self.relays@
    }
}

impl RttCache {
    /// A cache without entries.
    pub fn new() -> (r: RttCache)
        ensures
            r@ == Map::<Seq<char>, Entry>::empty(),
    {
        RttCache { relays: StringHashMap::new() }
    }

    /// Adds or replaces the entry of a URL.
    pub fn insert(&mut self, url: String, entry: Entry)
        ensures
            final(self)@ == old(self)@.insert(url@, entry),
    {
        self.relays.insert(url, entry);
    }

    /// The entry of a URL, where there is one.
    pub fn get(&self, url: &str) -> (r: Option<Entry>)
        ensures
            match r {
                Some(e) => self@.contains_key(url@) && e == self@[url@],
                None => !self@.contains_key(url@),
            },
    {
        match self.relays.get(url) {
            Some(e) => Some(*e),
            None => None,
        }
    }
}

/// Whether the cache holds a latency for `url` that is fresh at `now`.
pub open spec fn is_fresh(cache: Map<Seq<char>, Entry>, url: Seq<char>, now: u64) -> bool {
    cache.contains_key(url) && now - cache[url].updated_unix < CACHE_TTL_SECS
}

/// The ranks of `urls`, each with its position.
pub open spec fn cache_keys(cache: Map<Seq<char>, Entry>, urls: Seq<Seq<char>>) -> Seq<(u128, u64)> {
    Seq::new(urls.len(), |i: int| (latency_rank(cache[urls[i]].rtt_ms), i as u64))
}

/// Where every URL has a fresh latency: the URLs by latency, failed ones
/// behind, equal ones in their order. Otherwise `None`: the caller probes.
pub fn order_from_fresh_cache(cache: &RttCache, urls: &Vec<String>, now: u64) -> (r: Option<
    Vec<String>,
>)
    ensures
        r is Some == (forall|i: int| 0 <= i < urls@.len() ==> is_fresh(cache@, #[trigger] texts(urls@)[i], now)),
        r matches Some(v) ==> exists|order: Seq<usize>|
            #[trigger] is_key_order(order, cache_keys(cache@, texts(urls@))) && texts(v@)
                == arranged(texts(urls@), order),
{
    let mut keys: Vec<(u128, u64)> = Vec::new();
    let mut i: usize = 0;
    while i < urls.len()
        invariant
            i <= urls@.len(),
            keys@.len() == i,
            forall|j: int| 0 <= j < i ==> is_fresh(cache@, #[trigger] texts(urls@)[j], now),
            forall|j: int|
                0 <= j < i ==> #[trigger] keys@[j] == cache_keys(cache@, texts(urls@))[j],
        decreases urls@.len() - i,
    {
        proof {
            assert(texts(urls@)[i as int] == urls@[i as int]@);
        }
        match cache.get(urls[i].as_str()) {
            None => {
                proof {
                    assert(!is_fresh(cache@, texts(urls@)[i as int], now));
                }
                return None;
            },
            Some(e) => {
                if now > e.updated_unix && now - e.updated_unix >= CACHE_TTL_SECS {
                    proof {
                        assert(!is_fresh(cache@, texts(urls@)[i as int], now));
                    }
                    return None;
                }
                keys.push((rank_latency(e.rtt_ms), i as u64));
            },
        }
        i = i + 1;
    }
    proof {
        assert(keys@ =~= cache_keys(cache@, texts(urls@)));
    }
    let order = key_order(&keys);
    let out = arrange(urls, &order);
    proof {
        assert(is_key_order(order@, cache_keys(cache@, texts(urls@))));
    }
    Some(out)
}

/// By the cache, faster relays come first, and relays whose last probe failed
/// come last, in the order they were listed.
pub proof fn law_failed_relays_come_last(
    cache: Map<Seq<char>, Entry>,
    urls: Seq<Seq<char>>,
    order: Seq<usize>,
    i: int,
    j: int,
)
    requires
        is_key_order(order, cache_keys(cache, urls)),
        0 <= i < j < order.len(),
    ensures
        match (cache[urls[order[i] as int]].rtt_ms, cache[urls[order[j] as int]].rtt_ms) {
            (Some(a), Some(b)) => a <= b,
            (Some(_), None) => true,
            (None, Some(_)) => false,
            (None, None) => order[i] < order[j],
        },
{
    let a = order[i] as int;
    let b = order[j] as int;
    assert(crate::order::comes_before(cache_keys(cache, urls), a, b));
    assert(cache_keys(cache, urls)[a] == (latency_rank(cache[urls[a]].rtt_ms), a as u64));
    assert(cache_keys(cache, urls)[b] == (latency_rank(cache[urls[b]].rtt_ms), b as u64));
}

/// Copies of `urls` in the given order.
pub fn arrange(urls: &Vec<String>, order: &Vec<usize>) -> (r: Vec<String>)
    requires
        forall|i: int| 0 <= i < order@.len() ==> (#[trigger] order@[i]) < urls@.len(),
    ensures
        texts(r@) == arranged(texts(urls@), order@),
{
    let mut out: Vec<String> = Vec::new();
    let mut i: usize = 0;
    while i < order.len()
        invariant
            i <= order@.len(),
            forall|j: int| 0 <= j < order@.len() ==> (#[trigger] order@[j]) < urls@.len(),
            out@.len() == i,
            forall|j: int| 0 <= j < i ==> (#[trigger] out@[j])@ == urls@[order@[j] as int]@,
        decreases order@.len() - i,
    {
        out.push(urls[order[i]].clone());
        i = i + 1;
    }
    proof {
        assert(texts(out@) =~= arranged(texts(urls@), order@));
    }
    out
}

/// A cache after `results` were recorded at `now`.
pub open spec fn recorded(
    cache: Map<Seq<char>, Entry>,
    results: Seq<(String, Option<Duration>)>,
    now: u64,
) -> Map<Seq<char>, Entry>
    decreases results.len(),
{
    if results.len() == 0 {
        cache
    } else {
        recorded(cache, results.drop_last(), now).insert(
            results.last().0@,
            Entry {
                rtt_ms: match results.last().1 {
                    Some(d) => Some((d.nanos / MILLISECOND) as u64),
                    None => None,
                },
                updated_unix: now,
            },
        )
    }
}

/// Merges probe results into the cache; entries of other URLs stay.
pub fn record_probe_results(
    cache: &mut RttCache,
    results: &Vec<(String, Option<Duration>)>,
    now: u64,
)
    ensures
        final(cache)@ == recorded(old(cache)@, results@, now),
{
    let mut i: usize = 0;
    proof {
        assert(results@.take(0) =~= Seq::<(String, Option<Duration>)>::empty());
    }
    while i < results.len()
        invariant
            i <= results@.len(),
            cache@ == recorded(old(cache)@, results@.take(i as int), now),
        decreases results@.len() - i,
    {
        proof {
            assert(results@.take(i + 1).drop_last() =~= results@.take(i as int));
        }
        let rtt_ms: Option<u64> = match results[i].1 {
            Some(d) => Some(d.as_millis_u64()),
            None => None,
        };
        cache.insert(results[i].0.clone(), Entry { rtt_ms, updated_unix: now });
        i = i + 1;
    }
    proof {
        assert(results@.take(results@.len() as int) =~= results@);
    }
}

/// What was just recorded is fresh.
pub proof fn law_recorded_results_are_fresh(
    cache: Map<Seq<char>, Entry>,
    results: Seq<(String, Option<Duration>)>,
    now: u64,
    i: int,
)
    requires
        0 <= i < results.len(),
    ensures
        is_fresh(recorded(cache, results, now), results[i].0@, now),
    decreases results.len(),
{
    if i < results.len() - 1 {
        law_recorded_results_are_fresh(cache, results.drop_last(), now, i);
        assert(results.drop_last()[i] == results[i]);
    }
}

/// The cached order is used exactly where every relay was measured less than a
/// day ago, and lists every relay once: those that answered by the time they
/// took, equals as they were listed, and those that did not behind them.
pub proof fn law_fresh_cache_orders_by_latency(
    cache: RttCache,
    urls: Vec<String>,
    now: u64,
    r: Option<Vec<String>>,
)
    requires
        urls@.len() <= u64::MAX,
        call_ensures(order_from_fresh_cache, (&cache, &urls, now), r),
    ensures
        r is Some <==> forall|i: int|
            0 <= i < urls@.len() ==> cache@.contains_key((#[trigger] urls@[i])@) && now
                < cache@[urls@[i]@].updated_unix + 24 * 60 * 60,
        r matches Some(v) ==> exists|from: Seq<usize>| #[trigger]
            is_latency_order(cache@, urls@, v@, from),
{
    let all = texts(urls@);
    if r is Some {
        assert forall|i: int| 0 <= i < urls@.len() implies cache@.contains_key((#[trigger] urls@[i])@)
            && now < cache@[urls@[i]@].updated_unix + 24 * 60 * 60 by {
            assert(is_fresh(cache@, all[i], now));
        }
        let v = r->0;
        let order = choose|order: Seq<usize>|
            #[trigger] is_key_order(order, cache_keys(cache@, all)) && texts(v@) == arranged(
                all,
                order,
            );
        let keys = cache_keys(cache@, all);
        assert(texts(v@).len() == v@.len());
        assert forall|i: int| 0 <= i < v@.len() implies order[i] < urls@.len() && (#[trigger] v@[i])@
            == urls@[order[i] as int]@ by {
            assert(texts(v@)[i] == v@[i]@);
            assert(order[i] < keys.len());
            assert(all[order[i] as int] == urls@[order[i] as int]@);
        }
        assert forall|i: int, j: int| 0 <= i < j < order.len() implies #[trigger] order[i]
            != #[trigger] order[j] && no_slower(
            cache@[urls@[order[i] as int]@].rtt_ms,
            order[i],
            cache@[urls@[order[j] as int]@].rtt_ms,
            order[j],
        ) by {
            let a = order[i] as int;
            let b = order[j] as int;
            assert(crate::order::comes_before(keys, a, b));
            assert(all[a] == urls@[a]@ && all[b] == urls@[b]@);
            assert(keys[a] == (latency_rank(cache@[all[a]].rtt_ms), a as u64));
            assert(keys[b] == (latency_rank(cache@[all[b]].rtt_ms), b as u64));
        }
        assert(is_latency_order(cache@, urls@, v@, order));
    } else {
        let i = choose|i: int| 0 <= i < urls@.len() && !is_fresh(cache@, #[trigger] all[i], now);
        assert(urls@[i]@ == all[i]);
    }
}

/// Whether a relay at place `i` may stand before one at place `j`.
pub open spec fn no_slower(x: Option<u64>, i: usize, y: Option<u64>, j: usize) -> bool {
    match (x, y) {
        (Some(a), Some(b)) => a < b || (a == b && i < j),
        (Some(_), None) => true,
        (None, Some(_)) => false,
        (None, None) => i < j,
    }
}

/// Whether `v[i]` is `urls[from[i]]`, every place of `urls` standing at one
/// place, and none before a faster one.
pub open spec fn is_latency_order(
    cache: Map<Seq<char>, Entry>,
    urls: Seq<String>,
    v: Seq<String>,
    from: Seq<usize>,
) -> bool {
    &&& v.len() == urls.len()
    &&& from.len() == urls.len()
    &&& forall|i: int|
        0 <= i < v.len() ==> from[i] < urls.len() && (#[trigger] v[i])@
            == urls[from[i] as int]@
    &&& forall|i: int, j: int|
        0 <= i < j < from.len() ==> #[trigger] from[i] != #[trigger] from[j] && no_slower(
            cache[urls[from[i] as int]@].rtt_ms,
            from[i],
            cache[urls[from[j] as int]@].rtt_ms,
            from[j],
        )
}

/// After results were recorded, a relay that they name has the milliseconds of
/// its last result, or none where that failed, and the time of recording; a
/// relay that they do not name has what it had.
pub proof fn law_last_result_is_recorded(
    cache: Map<Seq<char>, Entry>,
    results: Seq<(String, Option<Duration>)>,
    now: u64,
    url: Seq<char>,
    i: int,
)
    ensures
        0 <= i < results.len() && results[i].0@ == url && (forall|j: int|
            i < j < results.len() ==> (#[trigger] results[j]).0@ != url) ==> {
            let after = recorded(cache, results, now);
            &&& after.contains_key(url)
            &&& after[url].updated_unix == now
            &&& after[url].rtt_ms is Some <==> results[i].1 is Some
            &&& results[i].1 matches Some(d) ==> d.nanos / 1_000_000 <= u64::MAX ==> after[url].rtt_ms
                == Some((d.nanos / 1_000_000) as u64)
        },
        (forall|j: int| 0 <= j < results.len() ==> (#[trigger] results[j]).0@ != url) ==> recorded(
            cache,
            results,
            now,
        ).contains_key(url) == cache.contains_key(url) && recorded(cache, results, now)[url]
            == cache[url],
    decreases results.len(),
{
    if results.len() > 0 {
        let front = results.drop_last();
        law_last_result_is_recorded(cache, front, now, url, i);
        assert(results[results.len() - 1] == results.last());
        if forall|j: int| 0 <= j < results.len() ==> (#[trigger] results[j]).0@ != url {
            assert forall|j: int| 0 <= j < front.len() implies (#[trigger] front[j]).0@ != url by {
                assert(results[j].0@ != url);
            }
        }
        if 0 <= i < front.len() && forall|j: int|
            i < j < results.len() ==> (#[trigger] results[j]).0@ != url {
            assert(front[i] == results[i]);
            assert forall|j: int| i < j < front.len() implies (#[trigger] front[j]).0@ != url by {
                assert(results[j].0@ != url);
            }
        }
    }
}

} // verus!
