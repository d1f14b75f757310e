//! The request-scoped coalescing cache. Concurrent readers of one key are
//! coalesced by a claim/fulfill protocol: the first reader claims the key
//! and runs the generator; everyone else waits on the claimed cell. The
//! protocol state is modeled here and verified; the surrounding shell only
//! adds the waiting.

use vstd::prelude::*;

use crate::errors::Error;
use crate::model::DeepClone;
use crate::model::Document;

verus! {

/// One cache slot: claimed while its value is being produced, then ready.
pub enum CacheCell<V> {
    /// A reader has claimed the key and is producing the value.
    Pending,
    /// The value is available to every reader.
    Ready(V),
}

/// A coalescing map from record keys to cache cells. It never evicts: one
/// instance lives no longer than one request or one worker action batch.
pub struct ShortLivedCache<V> {
    pub entries: Vec<(String, CacheCell<V>)>,
}

/// The index of the first entry for `key`.
pub open spec fn spec_cache_index<V>(
    entries: Seq<(String, CacheCell<V>)>,
    key: Seq<char>,
    at: int,
) -> Option<int>
    decreases entries.len() - at,
{
    if at < 0 || at >= entries.len() {
        None
    } else if entries[at].0@ == key {
        Some(at)
    } else {
        spec_cache_index(entries, key, at + 1)
    }
}

/// The cell stored for `key`, if any.
pub open spec fn spec_cache_get<V>(c: ShortLivedCache<V>, key: Seq<char>) -> Option<CacheCell<V>> {
    match spec_cache_index(c.entries@, key, 0) {
        Some(i) => Some(c.entries@[i].1),
        None => None,
    }
}

/// Cache keys are unique, so each key has one authoritative cell.
pub open spec fn cache_wf<V>(c: ShortLivedCache<V>) -> bool {
    forall|i: int, j: int|
        0 <= i < j < c.entries@.len() ==> (#[trigger] c.entries@[i].0@) != (
        #[trigger] c.entries@[j].0@)
}

/// What a cache search result means: a found index is in range and
/// matches; nothing before it matches; `None` means nothing matches.
pub proof fn lemma_cache_index_props<V>(
    entries: Seq<(String, CacheCell<V>)>,
    key: Seq<char>,
    at: int,
)
    requires
        at >= 0,
    ensures
        match spec_cache_index(entries, key, at) {
            Some(i) => at <= i < entries.len() && entries[i].0@ == key && forall|k: int|
                at <= k < i ==> (#[trigger] entries[k].0@) != key,
            None => forall|k: int| at <= k < entries.len() ==> (#[trigger] entries[k].0@) != key,
        },
    decreases entries.len() - at,
{
    if at < entries.len() && entries[at].0@ != key {
        lemma_cache_index_props(entries, key, at + 1);
    }
}

/// What claiming a key does: the claim is won exactly when the key was
/// absent, and then a claimed cell is added; a lost claim changes nothing.
pub open spec fn claim_outcome<V>(
    pre: ShortLivedCache<V>,
    post: ShortLivedCache<V>,
    key: Seq<char>,
    won: bool,
) -> bool {
    &&& won == (spec_cache_get(pre, key) is None)
    &&& won ==> post.entries@.len() == pre.entries@.len() + 1 && post.entries@.last().0@ == key
        && post.entries@.last().1 is Pending && forall|i: int|
        0 <= i < pre.entries@.len() ==> post.entries@[i] == pre.entries@[i]
    &&& !won ==> post == pre
}

/// What fulfilling a claim does: the claimed cell for the key becomes
/// ready with the produced value; everything else stays.
pub open spec fn fulfill_outcome<V>(
    pre: ShortLivedCache<V>,
    post: ShortLivedCache<V>,
    key: Seq<char>,
    value: V,
) -> bool {
    &&& spec_cache_get(post, key) == Some(CacheCell::Ready(value))
    &&& post.entries@.len() == pre.entries@.len()
    &&& forall|i: int|
        0 <= i < pre.entries@.len() && pre.entries@[i].0@ != key ==> post.entries@[i]
            == pre.entries@[i]
}

impl<V> ShortLivedCache<V> {
    /// An empty cache.
    pub fn new() -> (r: ShortLivedCache<V>)
        ensures
            r.entries@.len() == 0,
            cache_wf(r),
    {
        ShortLivedCache { entries: Vec::new() }
    }

    /// Claims `key` for this reader: returns true exactly when the key was
    /// absent, in which case this reader must produce the value and
    /// [`fulfill`](Self::fulfill) it. Readers that lose the claim wait on
    /// the cell instead, so the generator runs at most once per key.
    #[verifier::loop_isolation(false)]
    pub fn claim(&mut self, key: &String) -> (won: bool)
        requires
            cache_wf(*old(self)),
        ensures
            cache_wf(*final(self)),
            claim_outcome(*old(self), *final(self), key@, won),
    {
        let mut i: usize = 0;
        while i < self.entries.len()
            invariant
                0 <= i <= self.entries@.len(),
                spec_cache_index(self.entries@, key@, 0) == spec_cache_index(
                    self.entries@,
                    key@,
                    i as int,
                ),
            decreases self.entries@.len() - i,
        {
            if self.entries[i].0 == *key {
                return false;
            }
            i = i + 1;
        }
        self.entries.push((key.clone(), CacheCell::Pending));
        proof {
            lemma_cache_index_props(old(self).entries@, key@, 0);
            assert forall|a: int, b: int|
                0 <= a < b < self.entries@.len() implies (#[trigger] self.entries@[a].0@) != (
            #[trigger] self.entries@[b].0@) by {
                if b == self.entries@.len() - 1 {
                    assert(self.entries@[a] == old(self).entries@[a]);
                }
            }
        }
        true
    }

    /// Stores the produced value for a key this reader claimed.
    #[verifier::loop_isolation(false)]
    pub fn fulfill(&mut self, key: &String, value: V)
        requires
            cache_wf(*old(self)),
            spec_cache_get(*old(self), key@) == Some(CacheCell::<V>::Pending),
        ensures
            cache_wf(*final(self)),
            fulfill_outcome(*old(self), *final(self), key@, value),
    {
        let ghost idx = spec_cache_index(old(self).entries@, key@, 0);
        proof {
            lemma_cache_index_props(old(self).entries@, key@, 0);
        }
        let mut i: usize = 0;
        while i < self.entries.len()
            invariant
                0 <= i <= self.entries@.len(),
                *self == *old(self),
                spec_cache_index(self.entries@, key@, 0) == spec_cache_index(
                    self.entries@,
                    key@,
                    i as int,
                ),
            decreases self.entries@.len() - i,
        {
            if self.entries[i].0 == *key {
                let entry = (self.entries[i].0.clone(), CacheCell::Ready(value));
                vstd::pervasive::VecAdditionalExecFns::set(&mut self.entries, i, entry);
                proof {
                    assert(idx == Some(i as int));
                    assert(forall|j: int|
                        0 <= j < self.entries@.len() ==> (#[trigger] self.entries@[j].0@) == old(
                            self,
                        ).entries@[j].0@);
                    lemma_cache_index_props(self.entries@, key@, 0);
                    lemma_cache_index_same_keys(self.entries@, old(self).entries@, key@, 0);
                    assert(spec_cache_index(self.entries@, key@, 0) == idx);
                }
                return ;
            }
            i = i + 1;
        }
        proof {
            assert(false);
        }
    }

    /// The stored value for `key`, once it is ready.
    #[verifier::loop_isolation(false)]
    pub fn get_ready<'a>(&'a self, key: &String) -> (r: Option<&'a V>)
        ensures
            match spec_cache_get(*self, key@) {
                Some(CacheCell::Ready(v)) => r is Some && *r->0 == v,
                _ => r is None,
            },
    {
        let mut i: usize = 0;
        while i < self.entries.len()
            invariant
                0 <= i <= self.entries@.len(),
                spec_cache_index(self.entries@, key@, 0) == spec_cache_index(
                    self.entries@,
                    key@,
                    i as int,
                ),
            decreases self.entries@.len() - i,
        {
            if self.entries[i].0 == *key {
                match &self.entries[i].1 {
                    CacheCell::Ready(v) => {
                        return Some(v);
                    },
                    CacheCell::Pending => {
                        return None;
                    },
                }
            }
            i = i + 1;
        }
        None
    }

    /// Stores a value for `key` outright, replacing any claimed or ready
    /// cell: an insert is authoritative.
    #[verifier::loop_isolation(false)]
    pub fn put(&mut self, key: &String, value: V)
        requires
            cache_wf(*old(self)),
        ensures
            cache_wf(*final(self)),
            spec_cache_get(*final(self), key@) == Some(CacheCell::Ready(value)),
            forall|k2: Seq<char>|
                k2 != key@ ==> #[trigger] spec_cache_get(*final(self), k2) == spec_cache_get(
                    *old(self),
                    k2,
                ),
    {
        let mut i: usize = 0;
        while i < self.entries.len()
            invariant
                0 <= i <= self.entries@.len(),
                *self == *old(self),
                spec_cache_index(self.entries@, key@, 0) == spec_cache_index(
                    self.entries@,
                    key@,
                    i as int,
                ),
            decreases self.entries@.len() - i,
        {
            if self.entries[i].0 == *key {
                let entry = (self.entries[i].0.clone(), CacheCell::Ready(value));
                vstd::pervasive::VecAdditionalExecFns::set(&mut self.entries, i, entry);
                proof {
                    lemma_cache_index_props(old(self).entries@, key@, 0);
                    assert(forall|j: int|
                        0 <= j < self.entries@.len() ==> (#[trigger] self.entries@[j].0@) == old(
                            self,
                        ).entries@[j].0@);
                    lemma_cache_index_same_keys(self.entries@, old(self).entries@, key@, 0);
                    lemma_cache_index_props(self.entries@, key@, 0);
                    assert forall|k2: Seq<char>| k2 != key@ implies #[trigger] spec_cache_get(
                        *self,
                        k2,
                    ) == spec_cache_get(*old(self), k2) by {
                        lemma_cache_index_same_keys(self.entries@, old(self).entries@, k2, 0);
                        lemma_cache_index_props(old(self).entries@, k2, 0);
                        match spec_cache_index(old(self).entries@, k2, 0) {
                            Some(w) => {
                                assert(old(self).entries@[w].0@ == k2);
                                assert(self.entries@[w] == old(self).entries@[w]);
                            },
                            None => {},
                        }
                    }
                }
                return ;
            }
            i = i + 1;
        }
        proof {
            lemma_cache_index_props(old(self).entries@, key@, 0);
        }
        self.entries.push((key.clone(), CacheCell::Ready(value)));
        proof {
            assert forall|a: int, b: int|
                0 <= a < b < self.entries@.len() implies (#[trigger] self.entries@[a].0@) != (
            #[trigger] self.entries@[b].0@) by {
                if b == self.entries@.len() - 1 {
                    assert(self.entries@[a] == old(self).entries@[a]);
                }
            }
            lemma_cache_index_props(self.entries@, key@, 0);
            let found = spec_cache_index(self.entries@, key@, 0);
            if found is None {
                assert(self.entries@[self.entries@.len() - 1].0@ != key@);
                assert(false);
            }
            let i = found->0;
            if i < self.entries@.len() - 1 {
                assert(self.entries@[i] == old(self).entries@[i]);
                assert(false);
            }
            assert forall|k2: Seq<char>| k2 != key@ implies #[trigger] spec_cache_get(
                *self,
                k2,
            ) == spec_cache_get(*old(self), k2) by {
                assert(self.entries@ =~= old(self).entries@.push(self.entries@.last()));
                lemma_cache_index_push(old(self).entries@, self.entries@.last(), k2, 0);
                lemma_cache_index_props(old(self).entries@, k2, 0);
            }
        }
    }
}


/// Winning a claim leaves the key's cell claimed, ready to be fulfilled.
pub proof fn lemma_claim_won_pending<V>(
    pre: ShortLivedCache<V>,
    post: ShortLivedCache<V>,
    key: Seq<char>,
)
    requires
        claim_outcome(pre, post, key, true),
    ensures
        spec_cache_get(post, key) == Some(CacheCell::<V>::Pending),
{
    lemma_cache_index_props(pre.entries@, key, 0);
    lemma_cache_index_props(post.entries@, key, 0);
    let found = spec_cache_index(post.entries@, key, 0);
    if found is None {
        assert(post.entries@[post.entries@.len() - 1].0@ != key);
        assert(false);
    }
    let i = found->0;
    if i < post.entries@.len() - 1 {
        assert(post.entries@[i] == pre.entries@[i]);
        assert(false);
    }
}


/// Appending an entry for one key leaves every other key's cell alone.
pub proof fn lemma_cache_index_push<V>(
    s: Seq<(String, CacheCell<V>)>,
    x: (String, CacheCell<V>),
    key: Seq<char>,
    at: int,
)
    requires
        x.0@ != key,
        at >= 0,
    ensures
        spec_cache_index(s.push(x), key, at) == spec_cache_index(s, key, at),
    decreases s.len() - at,
{
    if at < s.len() {
        assert(s.push(x)[at] == s[at]);
        if s[at].0@ != key {
            lemma_cache_index_push(s, x, key, at + 1);
        }
    } else {
        if at < s.push(x).len() {
            assert(s.push(x)[at] == x);
            assert(spec_cache_index(s.push(x), key, at + 1) is None);
        }
    }
}

/// A claim for one key leaves every other key's cell alone.
pub proof fn lemma_claim_preserves_other<V>(
    pre: ShortLivedCache<V>,
    post: ShortLivedCache<V>,
    key: Seq<char>,
    won: bool,
    k2: Seq<char>,
)
    requires
        claim_outcome(pre, post, key, won),
        k2 != key,
    ensures
        spec_cache_get(post, k2) == spec_cache_get(pre, k2),
{
    if won {
        let x = post.entries@.last();
        assert(post.entries@ =~= pre.entries@.push(x));
        lemma_cache_index_push(pre.entries@, x, k2, 0);
        lemma_cache_index_props(pre.entries@, k2, 0);
    }
}

/// Fulfilling one key leaves every other key's cell alone.
pub proof fn lemma_fulfill_preserves_other<V>(
    pre: ShortLivedCache<V>,
    post: ShortLivedCache<V>,
    key: Seq<char>,
    value: V,
    k2: Seq<char>,
)
    requires
        cache_wf(pre),
        spec_cache_get(pre, key) == Some(CacheCell::<V>::Pending),
        fulfill_outcome(pre, post, key, value),
        k2 != key,
    ensures
        spec_cache_get(post, k2) == spec_cache_get(pre, k2),
{
    lemma_cache_index_props(pre.entries@, key, 0);
    let idx = spec_cache_index(pre.entries@, key, 0)->0;
    assert forall|j: int| 0 <= j < post.entries@.len() implies (#[trigger] post.entries@[j].0@)
        == pre.entries@[j].0@ by {
        if j != idx {
            assert(post.entries@[j] == pre.entries@[j]);
        } else {
            lemma_cache_index_props(post.entries@, key, 0);
            let pidx = spec_cache_index(post.entries@, key, 0);
            if pidx is None {
                assert(false);
            }
            let pi = pidx->0;
            if pi != idx {
                assert(post.entries@[pi] == pre.entries@[pi]);
                assert(pre.entries@[pi].0@ == key);
                assert(false);
            }
            assert(post.entries@[idx].0@ == key);
        }
    }
    lemma_cache_index_same_keys(post.entries@, pre.entries@, k2, 0);
    lemma_cache_index_props(pre.entries@, k2, 0);
    match spec_cache_index(pre.entries@, k2, 0) {
        Some(i2) => {
            assert(pre.entries@[i2].0@ == k2);
            assert(i2 != idx);
            assert(post.entries@[i2] == pre.entries@[i2]);
        },
        None => {},
    }
}

/// Cache searches depend only on the stored keys.
pub proof fn lemma_cache_index_same_keys<V>(
    e1: Seq<(String, CacheCell<V>)>,
    e2: Seq<(String, CacheCell<V>)>,
    key: Seq<char>,
    at: int,
)
    requires
        e1.len() == e2.len(),
        forall|j: int| 0 <= j < e1.len() ==> (#[trigger] e1[j].0@) == e2[j].0@,
    ensures
        spec_cache_index(e1, key, at) == spec_cache_index(e2, key, at),
    decreases e1.len() - at,
{
    if 0 <= at < e1.len() && e1[at].0@ != key {
        lemma_cache_index_same_keys(e1, e2, key, at + 1);
    }
}

/// Cache coalescing: when several readers ask for the same absent key, the
/// first claim wins and every later claim loses, so the generator runs
/// exactly once; and once the winner fulfills the claim, every reader sees
/// the one produced value.
pub proof fn lemma_cache_coalescing<V>(
    c0: ShortLivedCache<V>,
    c1: ShortLivedCache<V>,
    c2: ShortLivedCache<V>,
    c3: ShortLivedCache<V>,
    key: Seq<char>,
    won1: bool,
    won2: bool,
    value: V,
)
    requires
        spec_cache_get(c0, key) is None,
        claim_outcome(c0, c1, key, won1),
        claim_outcome(c1, c2, key, won2),
        fulfill_outcome(c2, c3, key, value),
    ensures
        won1 == true,
        won2 == false,
        spec_cache_get(c3, key) == Some(CacheCell::Ready(value)),
{
    if spec_cache_get(c1, key) is None {
        lemma_cache_index_props(c1.entries@, key, 0);
        assert(c1.entries@.last().0@ == key);
        assert(false);
    }
}

/// A cache of store documents by record key. Lookup failures are cached
/// too, so a missing record is fetched once per request at most.
pub struct RecordCache<T> {
    pub cache: ShortLivedCache<Result<Document<T>, Error>>,
}

impl<T: DeepView> RecordCache<T> {
    /// An empty record cache.
    pub fn new() -> (r: RecordCache<T>)
        ensures
            r.cache.entries@.len() == 0,
            cache_wf(r.cache),
    {
        RecordCache { cache: ShortLivedCache::new() }
    }

    /// Claims a record key; see [`ShortLivedCache::claim`].
    pub fn claim(&mut self, key: &String) -> (won: bool)
        requires
            cache_wf(old(self).cache),
        ensures
            cache_wf(final(self).cache),
            claim_outcome(old(self).cache, final(self).cache, key@, won),
    {
        self.cache.claim(key)
    }

    /// Stores a lookup result for a claimed key.
    pub fn fulfill(&mut self, key: &String, value: Result<Document<T>, Error>)
        requires
            cache_wf(old(self).cache),
            spec_cache_get(old(self).cache, key@) == Some(
                CacheCell::<Result<Document<T>, Error>>::Pending,
            ),
        ensures
            cache_wf(final(self).cache),
            fulfill_outcome(old(self).cache, final(self).cache, key@, value),
    {
        self.cache.fulfill(key, value)
    }

    /// The cached lookup result for a key, once it is ready.
    pub fn get_ready<'a>(&'a self, key: &String) -> (r: Option<&'a Result<Document<T>, Error>>)
        ensures
            match spec_cache_get(self.cache, key@) {
                Some(CacheCell::Ready(v)) => r is Some && *r->0 == v,
                _ => r is None,
            },
    {
        self.cache.get_ready(key)
    }

    /// Inserts a record outright under its own key; an insert is
    /// authoritative and replaces any pending or ready cell. Every other
    /// key's cell is untouched.
    pub fn put(&mut self, record: Document<T>)
        requires
            cache_wf(old(self).cache),
        ensures
            cache_wf(final(self).cache),
            spec_cache_get(final(self).cache, record@.key) == Some(
                CacheCell::Ready(Result::<Document<T>, Error>::Ok(record)),
            ),
            forall|k2: Seq<char>|
                k2 != record@.key ==> #[trigger] spec_cache_get(final(self).cache, k2)
                    == spec_cache_get(old(self).cache, k2),
    {
        let key = record.key.clone();
        self.cache.put(&key, Ok(record));
    }

    /// Inserts many records under their own keys, in order, so for a key
    /// that occurs more than once the later record wins. Afterwards every
    /// given key is cached ready with one of the records that carried it,
    /// and every other key's cell is untouched.
    #[verifier::loop_isolation(false)]
    pub fn put_many(&mut self, records: Vec<Document<T>>)
        requires
            cache_wf(old(self).cache),
        ensures
            cache_wf(final(self).cache),
            forall|i: int|
                #![trigger records@[i]]
                0 <= i < records@.len() ==> (spec_cache_get(
                    final(self).cache,
                    records@[i]@.key,
                ) matches Some(CacheCell::Ready(Ok(doc))) && exists|j: int|
                    0 <= j < records@.len() && records@[j]@.key == records@[i]@.key && doc@
                        == records@[j]@),
            forall|k2: Seq<char>|
                (forall|i: int| 0 <= i < records@.len() ==> (#[trigger] records@[i]@.key) != k2)
                    ==> #[trigger] spec_cache_get(final(self).cache, k2) == spec_cache_get(
                    old(self).cache,
                    k2,
                ),
    {
        let ghost all = records@;
        let total: usize = records.len();
        let mut records = records;
        let mut done: usize = 0;
        while records.len() > 0
            invariant
                cache_wf(self.cache),
                total == all.len(),
                done + records@.len() == all.len(),
                forall|i: int|
                    0 <= i < records@.len() ==> (#[trigger] records@[i]) == all[done + i],
                forall|i: int|
                    #![trigger all[i]]
                    0 <= i < done ==> (spec_cache_get(self.cache, all[i]@.key) matches Some(
                        CacheCell::Ready(Ok(doc)),
                    ) && exists|j: int|
                        0 <= j < all.len() && all[j]@.key == all[i]@.key && doc@ == all[j]@),
                forall|k2: Seq<char>|
                    (forall|i: int| 0 <= i < all.len() ==> (#[trigger] all[i]@.key) != k2)
                        ==> #[trigger] spec_cache_get(self.cache, k2) == spec_cache_get(
                        old(self).cache,
                        k2,
                    ),
            decreases records@.len(),
        {
            let record = records.remove(0);
            let ghost pre = self.cache;
            let ghost rec = record;
            self.put(record);
            proof {
                assert(rec == all[done as int]);
                assert forall|i: int|
                    #![trigger all[i]]
                    0 <= i < done + 1 implies (spec_cache_get(self.cache, all[i]@.key) matches
                    Some(CacheCell::Ready(Ok(doc))) && exists|j: int|
                        0 <= j < all.len() && all[j]@.key == all[i]@.key && doc@
                            == all[j]@) by {
                    if all[i]@.key == rec@.key {
                        assert(spec_cache_get(self.cache, all[i]@.key) == Some(
                            CacheCell::Ready(Result::<Document<T>, Error>::Ok(rec)),
                        ));
                        assert(0 <= done < all.len() && all[done as int]@.key == all[i]@.key
                            && rec@ == all[done as int]@);
                    } else {
                        assert(spec_cache_get(self.cache, all[i]@.key) == spec_cache_get(
                            pre,
                            all[i]@.key,
                        ));
                    }
                }
                assert forall|k2: Seq<char>|
                    (forall|i: int| 0 <= i < all.len() ==> (#[trigger] all[i]@.key) != k2)
                        implies #[trigger] spec_cache_get(self.cache, k2) == spec_cache_get(
                    old(self).cache,
                    k2,
                ) by {
                    assert(all[done as int]@.key != k2);
                    assert(spec_cache_get(self.cache, k2) == spec_cache_get(pre, k2));
                }
            }
            done = done + 1;
        }
    }
}

} // verus!
