//! The content-addressed cache of verdicts.
//!
//! A cache maps the content hash of a file to the verdict computed for that
//! content. It keeps its entries in the order in which they were last
//! inserted, holds each hash once, and can be cut down to a maximum number of
//! entries; the entries inserted longest ago leave first.
//!
//! Reading and writing the persisted form is the caller's business: this
//! module takes the decoded list of a stored cache and hands out the list to
//! store.

use vstd::prelude::*;
use crate::types::{CacheEntry, Verdict};

verus! {

/// Whether some pair of `s` has the key `k`.
pub open spec fn has_key(s: Seq<(Seq<char>, Verdict)>, k: Seq<char>) -> bool {
    exists|i: int| 0 <= i < s.len() && (#[trigger] s[i]).0 == k
}

/// No key occurs twice in `s`.
pub open spec fn distinct_keys(s: Seq<(Seq<char>, Verdict)>) -> bool {
    forall|i: int, j: int| 0 <= i < j < s.len() ==> (#[trigger] s[i]).0 != (#[trigger] s[j]).0
}

/// An index at which `k` stands in `s`, if there is one.
pub open spec fn index_of(s: Seq<(Seq<char>, Verdict)>, k: Seq<char>) -> int {
    choose|i: int| 0 <= i < s.len() && (#[trigger] s[i]).0 == k
}

/// The mapping that a list of pairs with distinct keys stands for.
pub open spec fn map_of(s: Seq<(Seq<char>, Verdict)>) -> Map<Seq<char>, Verdict> {
    Map::new(|k: Seq<char>| has_key(s, k), |k: Seq<char>| s[index_of(s, k)].1)
}

/// `s` without the pair of key `k`.
pub open spec fn without_key(s: Seq<(Seq<char>, Verdict)>, k: Seq<char>) -> Seq<
    (Seq<char>, Verdict),
> {
    if has_key(s, k) {
        s.remove(index_of(s, k))
    } else {
        s
    }
}

/// `s` after `k` was given the verdict `v`: the pair moves to the end.
pub open spec fn inserted(s: Seq<(Seq<char>, Verdict)>, k: Seq<char>, v: Verdict) -> Seq<
    (Seq<char>, Verdict),
> {
    without_key(s, k).push((k, v))
}

/// `s` cut down to `limit` pairs, the oldest leaving first; a limit of 0
/// means "no limit".
pub open spec fn limited(s: Seq<(Seq<char>, Verdict)>, limit: nat) -> Seq<(Seq<char>, Verdict)> {
    if limit == 0 || s.len() <= limit {
        s
    } else {
        s.skip(s.len() - limit)
    }
}

/// The list that results from inserting the pairs of `pairs` one after the
/// other into an empty cache: of two pairs with one key the later one stays.
pub open spec fn rebuilt(pairs: Seq<(Seq<char>, Verdict)>) -> Seq<(Seq<char>, Verdict)>
    decreases pairs.len(),
{
    if pairs.len() == 0 {
        Seq::empty()
    } else {
        inserted(rebuilt(pairs.drop_last()), pairs.last().0, pairs.last().1)
    }
}

/// What a stored pair stands for.
pub open spec fn pair_model(p: (String, CacheEntry)) -> (Seq<char>, Verdict) {
    (p.0@, p.1@)
}

/// What a list of stored pairs stands for.
pub open spec fn pairs_model(v: Seq<(String, CacheEntry)>) -> Seq<(Seq<char>, Verdict)> {
    v.map_values(|p: (String, CacheEntry)| pair_model(p))
}

/// With distinct keys, a key stands at one index only.
pub proof fn lemma_index_of(s: Seq<(Seq<char>, Verdict)>, i: int)
    requires
        distinct_keys(s),
        0 <= i < s.len(),
    ensures
        has_key(s, s[i].0),
        index_of(s, s[i].0) == i,
{
    let k = s[i].0;
    let j = index_of(s, k);
    assert(0 <= j < s.len() && s[j].0 == k);
    if j < i {
        assert(s[j].0 != s[i].0);
    } else if i < j {
        assert(s[i].0 != s[j].0);
    }
}

/// Taking a key out keeps the keys distinct, takes exactly that key out of
/// the mapping, and leaves the other pairs in their order.
pub proof fn lemma_without_key(s: Seq<(Seq<char>, Verdict)>, k: Seq<char>)
    requires
        distinct_keys(s),
    ensures
        distinct_keys(without_key(s, k)),
        !has_key(without_key(s, k), k),
        map_of(without_key(s, k)) == map_of(s).remove(k),
        without_key(s, k).len() == if has_key(s, k) {
            s.len() - 1
        } else {
            s.len() as int
        },
{
    let t = without_key(s, k);
    if has_key(s, k) {
        let i = index_of(s, k);
        assert(0 <= i < s.len() && s[i].0 == k);
        assert(t.len() == s.len() - 1);
        assert forall|a: int| 0 <= a < t.len() implies #[trigger] t[a] == s[if a < i {
            a
        } else {
            a + 1
        }] by {}
        assert forall|a: int, b: int| 0 <= a < b < t.len() implies (#[trigger] t[a]).0 != (
        #[trigger] t[b]).0 by {
            let a2 = if a < i { a } else { a + 1 };
            let b2 = if b < i { b } else { b + 1 };
            assert(t[a] == s[a2] && t[b] == s[b2]);
            assert(s[a2].0 != s[b2].0);
        }
        assert(!has_key(t, k)) by {
            if has_key(t, k) {
                let a = index_of(t, k);
                let a2 = if a < i { a } else { a + 1 };
                assert(t[a] == s[a2]);
                if a2 < i {
                    assert(s[a2].0 != s[i].0);
                } else {
                    assert(s[i].0 != s[a2].0);
                }
            }
        }
        assert forall|q: Seq<char>| q != k implies (has_key(t, q) <==> has_key(s, q)) by {
            if has_key(t, q) {
                let a = index_of(t, q);
                let a2 = if a < i { a } else { a + 1 };
                assert(t[a] == s[a2]);
                assert(s[a2].0 == q);
            }
            if has_key(s, q) {
                let b = index_of(s, q);
                assert(b != i);
                let a = if b < i { b } else { b - 1 };
                assert(t[a] == s[b]);
                assert(t[a].0 == q);
            }
        }
        assert forall|q: Seq<char>| q != k && has_key(s, q) implies t[index_of(t, q)].1
            == s[index_of(s, q)].1 by {
            let a = index_of(t, q);
            let a2 = if a < i { a } else { a + 1 };
            assert(t[a] == s[a2]);
            lemma_index_of(s, a2);
        }
        assert(map_of(t) =~= map_of(s).remove(k));
    } else {
        assert(map_of(t) =~= map_of(s).remove(k));
    }
}

/// Giving a key a verdict keeps the keys distinct, updates the mapping at
/// that key alone, and puts the pair last.
pub proof fn lemma_inserted(s: Seq<(Seq<char>, Verdict)>, k: Seq<char>, v: Verdict)
    requires
        distinct_keys(s),
    ensures
        distinct_keys(inserted(s, k, v)),
        map_of(inserted(s, k, v)) == map_of(s).insert(k, v),
        inserted(s, k, v).len() > 0,
        inserted(s, k, v).last() == (k, v),
{
    lemma_without_key(s, k);
    let t = without_key(s, k);
    let u = inserted(s, k, v);
    assert(u == t.push((k, v)));
    assert forall|a: int, b: int| 0 <= a < b < u.len() implies (#[trigger] u[a]).0 != (
    #[trigger] u[b]).0 by {
        if b < t.len() {
            assert(u[a] == t[a] && u[b] == t[b]);
        } else {
            assert(u[a] == t[a]);
            assert(u[b].0 == k);
            if t[a].0 == k {
                assert(has_key(t, k));
            }
        }
    }
    assert(has_key(u, k)) by {
        assert(u[u.len() - 1].0 == k);
    }
    lemma_index_of(u, u.len() - 1);
    assert forall|q: Seq<char>| q != k implies (has_key(u, q) <==> has_key(t, q)) by {
        if has_key(u, q) {
            let a = index_of(u, q);
            assert(a < t.len());
            assert(t[a] == u[a]);
            assert(t[a].0 == q);
        }
        if has_key(t, q) {
            let a = index_of(t, q);
            assert(u[a] == t[a]);
            assert(u[a].0 == q);
        }
    }
    assert forall|q: Seq<char>| q != k && has_key(t, q) implies u[index_of(u, q)].1 == t[index_of(
        t,
        q,
    )].1 by {
        let a = index_of(t, q);
        assert(u[a] == t[a]);
        lemma_index_of(u, a);
    }
    assert forall|q: Seq<char>| q != k implies (has_key(t, q) <==> has_key(s, q)) by {
        assert(map_of(t).contains_key(q) == map_of(s).remove(k).contains_key(q));
    }
    assert forall|q: Seq<char>| q != k && has_key(s, q) implies map_of(u)[q] == map_of(s)[q] by {
        assert(map_of(t)[q] == map_of(s).remove(k)[q]);
    }
    assert(map_of(u)[k] == v);
    assert(map_of(u) =~= map_of(s).insert(k, v));
}

/// Cutting a list down keeps the keys distinct and takes nothing in.
pub proof fn lemma_limited(s: Seq<(Seq<char>, Verdict)>, limit: nat)
    requires
        distinct_keys(s),
    ensures
        distinct_keys(limited(s, limit)),
        limited(s, limit).len() <= s.len(),
        limit >= 1 ==> limited(s, limit).len() <= limit,
        limit == 0 ==> limited(s, limit) == s,
        forall|k: Seq<char>| #[trigger]
            has_key(limited(s, limit), k) ==> has_key(s, k) && map_of(limited(s, limit))[k]
                == map_of(s)[k],
        s.len() > 0 ==> limited(s, limit).len() > 0 && limited(s, limit).last() == s.last(),
{
    let t = limited(s, limit);
    if !(limit == 0 || s.len() <= limit) {
        let d = s.len() - limit;
        assert forall|a: int| 0 <= a < t.len() implies #[trigger] t[a] == s[a + d] by {}
        assert forall|a: int, b: int| 0 <= a < b < t.len() implies (#[trigger] t[a]).0 != (
        #[trigger] t[b]).0 by {
            assert(t[a] == s[a + d] && t[b] == s[b + d]);
            assert(s[a + d].0 != s[b + d].0);
        }
        assert forall|k: Seq<char>| #[trigger] has_key(t, k) implies has_key(s, k) && map_of(t)[k]
            == map_of(s)[k] by {
            let a = index_of(t, k);
            assert(t[a] == s[a + d]);
            assert(s[a + d].0 == k);
            lemma_index_of(s, a + d);
        }
    }
}

/// A list with distinct keys is what inserting its pairs in order rebuilds.
pub proof fn lemma_rebuilt_distinct(s: Seq<(Seq<char>, Verdict)>)
    requires
        distinct_keys(s),
    ensures
        rebuilt(s) == s,
    decreases s.len(),
{
    if s.len() > 0 {
        let p = s.drop_last();
        assert forall|a: int, b: int| 0 <= a < b < p.len() implies (#[trigger] p[a]).0 != (
        #[trigger] p[b]).0 by {
            assert(p[a] == s[a] && p[b] == s[b]);
        }
        lemma_rebuilt_distinct(p);
        let k = s.last().0;
        if has_key(p, k) {
            let a = index_of(p, k);
            assert(p[a] == s[a]);
            assert(s[a].0 != s[s.len() - 1].0);
        }
        assert(without_key(p, k) == p);
        assert(p.push(s.last()) =~= s);
    } else {
        assert(s =~= Seq::empty());
    }
}

/// Whatever the pairs, what they rebuild has distinct keys.
pub proof fn lemma_rebuilt_wf(pairs: Seq<(Seq<char>, Verdict)>)
    ensures
        distinct_keys(rebuilt(pairs)),
    decreases pairs.len(),
{
    if pairs.len() > 0 {
        lemma_rebuilt_wf(pairs.drop_last());
        lemma_inserted(rebuilt(pairs.drop_last()), pairs.last().0, pairs.last().1);
    }
}

/// With distinct keys, the mapping has as many keys as the list has pairs.
pub proof fn lemma_map_len(s: Seq<(Seq<char>, Verdict)>)
    requires
        distinct_keys(s),
    ensures
        map_of(s).dom().finite(),
        map_of(s).len() == s.len(),
    decreases s.len(),
{
    if s.len() == 0 {
        assert(map_of(s).dom() =~= Set::<Seq<char>>::empty());
    } else {
        let p = s.drop_last();
        let k = s.last().0;
        assert forall|a: int, b: int| 0 <= a < b < p.len() implies (#[trigger] p[a]).0 != (
        #[trigger] p[b]).0 by {
            assert(p[a] == s[a] && p[b] == s[b]);
        }
        lemma_map_len(p);
        assert(!has_key(p, k)) by {
            if has_key(p, k) {
                let a = index_of(p, k);
                assert(p[a] == s[a]);
                assert(s[a].0 != s[s.len() - 1].0);
            }
        }
        assert forall|q: Seq<char>| has_key(s, q) <==> (q == k || has_key(p, q)) by {
            if has_key(s, q) {
                let a = index_of(s, q);
                if a < p.len() {
                    assert(p[a] == s[a]);
                    assert(p[a].0 == q);
                }
            }
            if has_key(p, q) {
                let a = index_of(p, q);
                assert(p[a] == s[a]);
                assert(s[a].0 == q);
            }
            if q == k {
                assert(s[s.len() - 1].0 == k);
            }
        }
        assert(map_of(s).dom() =~= map_of(p).dom().insert(k));
    }
}

/// Round trip through the store: a verdict given to a hash is found again,
/// unchanged, in the cache that loading the stored list gives, whatever the
/// limit applied at loading.
pub proof fn lemma_store_round_trip(
    before: Cache,
    hash: Seq<char>,
    verdict: Verdict,
    after: Cache,
    stored: Seq<(String, CacheEntry)>,
    limit: nat,
    loaded: Cache,
)
    requires
        before.wf(),
        after.entries() == inserted(before.entries(), hash, verdict),
        pairs_model(stored) == after.entries(),
        loaded.entries() == limited(rebuilt(pairs_model(stored)), limit),
    ensures
        loaded.wf(),
        loaded@.contains_key(hash),
        loaded@[hash] == verdict,
{
    let s = after.entries();
    lemma_inserted(before.entries(), hash, verdict);
    lemma_rebuilt_distinct(s);
    lemma_limited(s, limit);
    let t = limited(s, limit);
    assert(t.last() == (hash, verdict));
    lemma_index_of(t, t.len() - 1);
}

/// The size bound: after a cut to `limit >= 1` entries the cache holds at
/// most `limit`, each of them a pair it held before; a limit of 0 changes
/// nothing.
pub proof fn lemma_limit_bounds_size(before: Cache, limit: nat, after: Cache)
    requires
        before.wf(),
        after.entries() == limited(before.entries(), limit),
    ensures
        after.wf(),
        after@.dom().finite(),
        limit >= 1 ==> after@.len() <= limit,
        limit == 0 ==> after@ == before@,
        after@.submap_of(before@),
{
    lemma_limited(before.entries(), limit);
    lemma_map_len(after.entries());
    assert(after@.submap_of(before@)) by {
        assert forall|k: Seq<char>| #[trigger] after@.dom().contains(k) implies before@.dom().contains(k)
            && after@[k] == before@[k] by {
            assert(has_key(after.entries(), k));
        }
    }
}

/// The cache: verdicts by content hash, in order of insertion.
pub struct Cache {
    slots: Vec<(String, CacheEntry)>,
}

impl View for Cache {
    type V = Map<Seq<char>, Verdict>;

    /// The mapping from hash to verdict.
    open spec fn view(&self) -> Map<Seq<char>, Verdict> {
        map_of(self.entries())
    }
}

impl Cache {
    /// The pairs of the cache, the one inserted longest ago first.
    pub closed spec fn entries(&self) -> Seq<(Seq<char>, Verdict)> {
        pairs_model(self.slots@)
    }

    /// Each hash has one entry.
    pub open spec fn wf(&self) -> bool {
        distinct_keys(self.entries())
    }

    /// An empty cache.
    pub fn new() -> (c: Cache)
        ensures
            c.wf(),
            c.entries() == Seq::<(Seq<char>, Verdict)>::empty(),
            c@ == Map::<Seq<char>, Verdict>::empty(),
    {
        let c = Cache { slots: Vec::new() };
        proof {
            assert(c.entries() =~= Seq::<(Seq<char>, Verdict)>::empty());
            assert(c@ =~= Map::<Seq<char>, Verdict>::empty());
        }
        c
    }

    /// The number of entries.
    pub fn len(&self) -> (n: usize)
        ensures
            n == self.entries().len(),
            self.wf() ==> n == self@.len(),
    {
        proof {
            if self.wf() {
                lemma_map_len(self.entries());
            }
        }
        self.slots.len()
    }

    /// Where `key` stands, if it has an entry.
    fn position(&self, key: &String) -> (r: Option<usize>)
        requires
            self.wf(),
        ensures
            match r {
                Some(i) => i < self.entries().len() && self.entries()[i as int].0 == key@
                    && has_key(self.entries(), key@) && index_of(self.entries(), key@) == i,
                None => !has_key(self.entries(), key@),
            },
    {
        let mut i: usize = 0;
        while i < self.slots.len()
            invariant
                self.wf(),
                i <= self.slots@.len(),
                self.entries().len() == self.slots@.len(),
                forall|j: int| 0 <= j < i ==> (#[trigger] self.entries()[j]).0 != key@,
            decreases self.slots@.len() - i,
        {
            if self.slots[i].0 == *key {
                proof {
                    assert(self.entries()[i as int].0 == key@);
                    lemma_index_of(self.entries(), i as int);
                }
                return Some(i);
            }
            assert(self.entries()[i as int].0 != key@);
            i = i + 1;
        }
        None
    }

    /// The entry kept for `hash`, if there is one.
    pub fn lookup(&self, hash: &str) -> (r: Option<&CacheEntry>)
        requires
            self.wf(),
        ensures
            match r {
                Some(e) => self@.contains_key(hash@) && e@ == self@[hash@],
                None => !self@.contains_key(hash@),
            },
    {
        let key = hash.to_owned();
        match self.position(&key) {
            Some(i) => Some(&self.slots[i].1),
            None => None,
        }
    }

    /// Gives `hash` the verdict `entry`. The pair becomes the newest of the
    /// cache, whether or not the hash had an entry before.
    pub fn insert(&mut self, hash: String, entry: CacheEntry)
        requires
            old(self).wf(),
        ensures
            final(self).wf(),
            final(self).entries() == inserted(old(self).entries(), hash@, entry@),
            final(self)@ == old(self)@.insert(hash@, entry@),
    {
        proof {
            lemma_inserted(self.entries(), hash@, entry@);
        }
        let found = self.position(&hash);
        if let Some(i) = found {
            let _ = self.slots.remove(i);
            assert(self.entries() =~= old(self).entries().remove(i as int));
        }
        self.slots.push((hash, entry));
        assert(self.entries() =~= inserted(old(self).entries(), hash@, entry@));
    }

    /// Drops the entry of `hash`, if there is one, and says whether there
    /// was one. The other entries keep their order.
    pub fn remove(&mut self, hash: &str) -> (found: bool)
        requires
            old(self).wf(),
        ensures
            final(self).wf(),
            found == old(self)@.contains_key(hash@),
            final(self).entries() == without_key(old(self).entries(), hash@),
            final(self)@ == old(self)@.remove(hash@),
    {
        proof {
            lemma_without_key(self.entries(), hash@);
        }
        let key = hash.to_owned();
        match self.position(&key) {
            Some(i) => {
                let _ = self.slots.remove(i);
                assert(self.entries() =~= old(self).entries().remove(i as int));
                true
            },
            None => false,
        }
    }

    /// The pairs of the cache in order, for storing.
    pub fn to_pairs(&self) -> (pairs: Vec<(String, CacheEntry)>)
        ensures
            pairs_model(pairs@) == self.entries(),
    {
        let mut pairs: Vec<(String, CacheEntry)> = Vec::new();
        let mut i: usize = 0;
        while i < self.slots.len()
            invariant
                i <= self.slots@.len(),
                pairs@.len() == i,
                forall|j: int| 0 <= j < i ==> #[trigger] pairs@[j] == self.slots@[j],
            decreases self.slots@.len() - i,
        {
            pairs.push((self.slots[i].0.clone(), self.slots[i].1.clone()));
            i = i + 1;
        }
        assert(pairs@ =~= self.slots@);
        pairs
    }
}

/// Cuts `cache` down to `limit` entries; the entries inserted longest ago
/// leave first, the others keep their order. A limit of 0 switches the bound
/// off. Which entries leave is a choice of this implementation, not a
/// promise of recency of use: a lookup does not refresh an entry.
pub fn enforce_cache_limit(cache: &mut Cache, limit: usize)
    requires
        old(cache).wf(),
    ensures
        final(cache).wf(),
        final(cache).entries() == limited(old(cache).entries(), limit as nat),
        limit >= 1 ==> final(cache).entries().len() <= limit,
        limit == 0 ==> final(cache).entries() == old(cache).entries(),
        forall|k: Seq<char>| #[trigger]
            final(cache)@.contains_key(k) ==> old(cache)@.contains_key(k) && final(cache)@[k]
                == old(cache)@[k],
{
    proof {
        lemma_limited(cache.entries(), limit as nat);
    }
    let n = cache.slots.len();
    if limit == 0 || n <= limit {
        return ;
    }
    let kept = cache.slots.split_off(n - limit);
    cache.slots = kept;
    assert(cache.entries() =~= old(cache).entries().skip(n - limit));
}

/// The cache that a stored list stands for, cut down to `limit` entries.
/// `None` stands for a store that could not be read or decoded: the cache
/// then starts empty. Of two stored pairs with one hash the later one counts.
pub fn load_cache(persisted: Option<Vec<(String, CacheEntry)>>, limit: usize) -> (c: Cache)
    ensures
        c.wf(),
        persisted is None ==> c.entries() == Seq::<(Seq<char>, Verdict)>::empty(),
        persisted matches Some(pairs) ==> c.entries() == limited(
            rebuilt(pairs_model(pairs@)),
            limit as nat,
        ),
{
    let mut c = Cache::new();
    match persisted {
        None => c,
        Some(pairs) => {
            let ghost all = pairs_model(pairs@);
            for p in it: pairs
                invariant
                    c.wf(),
                    pairs_model(it.seq()) == all,
                    c.entries() == rebuilt(all.take(it.index() as int)),
            {
                proof {
                    let done = it.index() as int;
                    assert(all[done] == pair_model(p));
                    assert(all.take(done + 1).drop_last() =~= all.take(done));
                    assert(all.take(done + 1).last() == all[done]);
                }
                c.insert(p.0, p.1);
            }
            assert(all.take(all.len() as int) =~= all);
            enforce_cache_limit(&mut c, limit);
            c
        },
    }
}

/// The list to store for `cache`: its pairs in order. Loading that list
/// again gives the same cache.
pub fn save_cache(cache: &Cache) -> (pairs: Vec<(String, CacheEntry)>)
    requires
        cache.wf(),
    ensures
        pairs_model(pairs@) == cache.entries(),
        rebuilt(pairs_model(pairs@)) == cache.entries(),
{
    proof {
        lemma_rebuilt_distinct(cache.entries());
    }
    cache.to_pairs()
}

} // verus!
