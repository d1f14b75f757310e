//! The in-memory model of the graph database: document collections for
//! accounts and notes, edge collections for follows, publishes, shares and
//! likes, and a key counter. A transaction works on a copy of the store and
//! commits by replacing it, so aborted transactions leave no trace.

use vstd::prelude::*;

use crate::errors::Error;
use crate::model::Account;
use crate::model::AccountV;
use crate::model::DeepClone;
use crate::model::Document;
use crate::model::Edge;
use crate::model::Follow;
use crate::model::FollowV;
use crate::model::Like;
use crate::model::Note;
use crate::model::Publish;
use crate::model::Share;
use crate::model::account_wf;
use crate::page_limit::lemma_spec_dec_injective;
use crate::page_limit::decimal_string;
use crate::page_limit::spec_dec;
use crate::urls::UrlV;

verus! {

/// The whole graph: every collection, plus the counter that assigns keys.
pub struct GraphStore {
    pub accounts: Vec<Document<Account>>,
    pub notes: Vec<Document<Note>>,
    pub follows: Vec<Edge<Follow>>,
    pub publishes: Vec<Edge<Publish>>,
    pub shares: Vec<Edge<Share>>,
    pub likes: Vec<Edge<Like>>,
    pub next_key: u64,
}

/// Whether `key` is the rendering of a number below `bound`; every stored
/// key is, which makes freshly assigned keys distinct from all of them.
pub open spec fn key_assigned(key: Seq<char>, bound: u64) -> bool {
    exists|n: nat| n < bound && key == spec_dec(n)
}

/// A key assigned under a bound stays assigned under any larger bound.
pub proof fn lemma_key_assigned_weaken(key: Seq<char>, b1: u64, b2: u64)
    requires
        key_assigned(key, b1),
        b1 <= b2,
    ensures
        key_assigned(key, b2),
{
    let n = choose|n: nat| n < b1 && key == spec_dec(n);
    assert(n < b2 && key == spec_dec(n));
}

/// A key assigned under a bound differs from the rendering of the bound
/// itself: the counter never hands out a key twice.
pub proof fn lemma_key_assigned_not_fresh(key: Seq<char>, bound: u64)
    requires
        key_assigned(key, bound),
    ensures
        key != spec_dec(bound as nat),
{
    let n = choose|n: nat| n < bound && key == spec_dec(n);
    lemma_spec_dec_injective(n, bound as nat);
}

/// All keys in the store were assigned by the counter.
pub open spec fn store_keys_assigned(s: GraphStore) -> bool {
    &&& forall|i: int|
        0 <= i < s.accounts@.len() ==> key_assigned(#[trigger] s.accounts@[i]@.key, s.next_key)
    &&& forall|i: int|
        0 <= i < s.notes@.len() ==> key_assigned(#[trigger] s.notes@[i]@.key, s.next_key)
    &&& forall|i: int|
        0 <= i < s.follows@.len() ==> key_assigned(#[trigger] s.follows@[i]@.key, s.next_key)
}

/// Keys are unique within each collection that is looked up by key.
pub open spec fn store_keys_unique(s: GraphStore) -> bool {
    &&& forall|i: int, j: int|
        0 <= i < j < s.accounts@.len() ==> #[trigger] s.accounts@[i]@.key != #[trigger] s.accounts@[j]@.key
    &&& forall|i: int, j: int|
        0 <= i < j < s.notes@.len() ==> #[trigger] s.notes@[i]@.key != #[trigger] s.notes@[j]@.key
    &&& forall|i: int, j: int|
        0 <= i < j < s.follows@.len() ==> #[trigger] s.follows@[i]@.key != #[trigger] s.follows@[j]@.key
}

/// The remote URI of an account view, when it has one.
pub open spec fn account_uri(a: AccountV) -> Option<UrlV> {
    match a.remote {
        Some(r) => Some(r.uri),
        None => None,
    }
}

/// Every account record is well formed, and remote URIs are unique across
/// accounts.
pub open spec fn store_accounts_wf(s: GraphStore) -> bool {
    &&& forall|i: int|
        0 <= i < s.accounts@.len() ==> account_wf(#[trigger] s.accounts@[i]@.record)
    &&& forall|i: int, j: int|
        0 <= i < j < s.accounts@.len() && account_uri(s.accounts@[i]@.record) is Some
            ==> account_uri(#[trigger] s.accounts@[i]@.record) != account_uri(
            #[trigger] s.accounts@[j]@.record,
        )
}

/// At most one follow edge exists for each ordered pair of accounts.
pub open spec fn store_follows_unique(s: GraphStore) -> bool {
    forall|i: int, j: int|
        0 <= i < j < s.follows@.len() ==> !(#[trigger] s.follows@[i]@.from == #[trigger] s.follows@[j]@.from
            && s.follows@[i]@.to == s.follows@[j]@.to)
}

/// The store's invariant: assigned keys, unique keys, well-formed accounts,
/// and at most one follow per ordered pair.
pub open spec fn store_wf(s: GraphStore) -> bool {
    &&& store_keys_assigned(s)
    &&& store_keys_unique(s)
    &&& store_accounts_wf(s)
    &&& store_follows_unique(s)
}

/// The index of the first account whose key is `key`.
pub open spec fn spec_find_account(s: GraphStore, key: Seq<char>) -> Option<int> {
    spec_first_account_index(s.accounts@, key, 0)
}

/// The first index at or after `at` whose account key is `key`.
pub open spec fn spec_first_account_index(
    docs: Seq<Document<Account>>,
    key: Seq<char>,
    at: int,
) -> Option<int>
    decreases docs.len() - at,
{
    if at < 0 || at >= docs.len() {
        None
    } else if docs[at]@.key == key {
        Some(at)
    } else {
        spec_first_account_index(docs, key, at + 1)
    }
}

/// The index of the first note whose key is `key`.
pub open spec fn spec_find_note(s: GraphStore, key: Seq<char>) -> Option<int> {
    spec_first_note_index(s.notes@, key, 0)
}

/// The first index at or after `at` whose note key is `key`.
pub open spec fn spec_first_note_index(docs: Seq<Document<Note>>, key: Seq<char>, at: int) -> Option<
    int,
>
    decreases docs.len() - at,
{
    if at < 0 || at >= docs.len() {
        None
    } else if docs[at]@.key == key {
        Some(at)
    } else {
        spec_first_note_index(docs, key, at + 1)
    }
}

/// The index of the first account whose remote URI is `uri`.
pub open spec fn spec_find_account_by_uri(s: GraphStore, uri: UrlV) -> Option<int> {
    spec_first_account_by_uri_index(s.accounts@, uri, 0)
}

/// The first index at or after `at` whose account's remote URI is `uri`.
pub open spec fn spec_first_account_by_uri_index(
    docs: Seq<Document<Account>>,
    uri: UrlV,
    at: int,
) -> Option<int>
    decreases docs.len() - at,
{
    if at < 0 || at >= docs.len() {
        None
    } else if account_uri(docs[at]@.record) == Some(uri) {
        Some(at)
    } else {
        spec_first_account_by_uri_index(docs, uri, at + 1)
    }
}

/// The index of the first follow edge whose key is `key`.
pub open spec fn spec_find_follow(s: GraphStore, key: Seq<char>) -> Option<int> {
    spec_first_follow_index(s.follows@, key, 0)
}

/// The first index at or after `at` whose follow key is `key`.
pub open spec fn spec_first_follow_index(
    edges: Seq<Edge<Follow>>,
    key: Seq<char>,
    at: int,
) -> Option<int>
    decreases edges.len() - at,
{
    if at < 0 || at >= edges.len() {
        None
    } else if edges[at]@.key == key {
        Some(at)
    } else {
        spec_first_follow_index(edges, key, at + 1)
    }
}

/// The index of the first follow edge from `from` to `to`.
pub open spec fn spec_find_follow_between(s: GraphStore, from: Seq<char>, to: Seq<char>) -> Option<
    int,
> {
    spec_first_follow_between_index(s.follows@, from, to, 0)
}

/// The first index at or after `at` of a follow edge from `from` to `to`.
pub open spec fn spec_first_follow_between_index(
    edges: Seq<Edge<Follow>>,
    from: Seq<char>,
    to: Seq<char>,
    at: int,
) -> Option<int>
    decreases edges.len() - at,
{
    if at < 0 || at >= edges.len() {
        None
    } else if edges[at]@.from == from && edges[at]@.to == to {
        Some(at)
    } else {
        spec_first_follow_between_index(edges, from, to, at + 1)
    }
}

impl GraphStore {
    /// An empty graph.
    pub fn new() -> (r: GraphStore)
        ensures
            r.accounts@.len() == 0,
            r.notes@.len() == 0,
            r.follows@.len() == 0,
            r.publishes@.len() == 0,
            r.shares@.len() == 0,
            r.likes@.len() == 0,
            r.next_key == 0,
            store_wf(r),
    {
        GraphStore {
            accounts: Vec::new(),
            notes: Vec::new(),
            follows: Vec::new(),
            publishes: Vec::new(),
            shares: Vec::new(),
            likes: Vec::new(),
            next_key: 0,
        }
    }

    /// A copy of the whole store with the same contents.
    pub fn snapshot(&self) -> (r: GraphStore)
        ensures
            r.accounts.deep_view() == self.accounts.deep_view(),
            r.notes.deep_view() == self.notes.deep_view(),
            r.follows.deep_view() == self.follows.deep_view(),
            r.publishes.deep_view() == self.publishes.deep_view(),
            r.shares.deep_view() == self.shares.deep_view(),
            r.likes.deep_view() == self.likes.deep_view(),
            r.next_key == self.next_key,
            store_wf(*self) ==> store_wf(r),
    {
        let r = GraphStore {
            accounts: self.accounts.deep_clone(),
            notes: self.notes.deep_clone(),
            follows: self.follows.deep_clone(),
            publishes: self.publishes.deep_clone(),
            shares: self.shares.deep_clone(),
            likes: self.likes.deep_clone(),
            next_key: self.next_key,
        };
        proof {
            assert(r.accounts.deep_view().len() == r.accounts@.len());
            assert(self.accounts.deep_view().len() == self.accounts@.len());
            assert(r.notes.deep_view().len() == r.notes@.len());
            assert(self.notes.deep_view().len() == self.notes@.len());
            assert(r.follows.deep_view().len() == r.follows@.len());
            assert(self.follows.deep_view().len() == self.follows@.len());
            assert(r.accounts@.len() == self.accounts@.len());
            assert(r.notes@.len() == self.notes@.len());
            assert(r.follows@.len() == self.follows@.len());
            assert forall|i: int| 0 <= i < r.accounts@.len() implies #[trigger] r.accounts@[i]@
                == self.accounts@[i]@ by {
                assert(r.accounts.deep_view()[i] == r.accounts@[i].deep_view());
                assert(self.accounts.deep_view()[i] == self.accounts@[i].deep_view());
            }
            assert forall|i: int| 0 <= i < r.notes@.len() implies #[trigger] r.notes@[i]@
                == self.notes@[i]@ by {
                assert(r.notes.deep_view()[i] == r.notes@[i].deep_view());
                assert(self.notes.deep_view()[i] == self.notes@[i].deep_view());
            }
            assert forall|i: int| 0 <= i < r.follows@.len() implies #[trigger] r.follows@[i]@
                == self.follows@[i]@ by {
                assert(r.follows.deep_view()[i] == r.follows@[i].deep_view());
                assert(self.follows.deep_view()[i] == self.follows@[i].deep_view());
            }
        }
        r
    }

    /// Assigns a key no existing record holds.
    fn fresh_key(&mut self) -> (r: String)
        requires
            old(self).next_key < u64::MAX,
        ensures
            r@ == spec_dec(old(self).next_key as nat),
            final(self).next_key == old(self).next_key + 1,
            final(self).accounts == old(self).accounts,
            final(self).notes == old(self).notes,
            final(self).follows == old(self).follows,
            final(self).publishes == old(self).publishes,
            final(self).shares == old(self).shares,
            final(self).likes == old(self).likes,
            key_assigned(r@, final(self).next_key),
            !key_assigned(r@, old(self).next_key),
    {
        let key = decimal_string(self.next_key);
        proof {
            assert forall|n: nat| n < old(self).next_key implies spec_dec(n) != key@ by {
                lemma_spec_dec_injective(n, old(self).next_key as nat);
            }
        }
        self.next_key = self.next_key + 1;
        key
    }

    /// The stored account with key `key`, or `NotFound`.
    pub fn find_account<'a>(&'a self, key: &String) -> (r: Result<&'a Document<Account>, Error>)
        ensures
            match spec_find_account(*self, key@) {
                Some(i) => r is Ok && r->Ok_0 == &self.accounts@[i],
                None => r is Err && r->Err_0 is NotFound,
            },
    {
        let mut i: usize = 0;
        while i < self.accounts.len()
            invariant
                0 <= i <= self.accounts.len(),
                spec_find_account(*self, key@) == spec_first_account_index(
                    self.accounts@,
                    key@,
                    i as int,
                ),
            decreases self.accounts.len() - i,
        {
            if self.accounts[i].key == *key {
                return Ok(&self.accounts[i]);
            }
            i = i + 1;
        }
        Err(Error::NotFound { model: String::from_str("Account"), params: Vec::new() })
    }

    /// The stored note with key `key`, or `NotFound`.
    pub fn find_note<'a>(&'a self, key: &String) -> (r: Result<&'a Document<Note>, Error>)
        ensures
            match spec_find_note(*self, key@) {
                Some(i) => r is Ok && r->Ok_0 == &self.notes@[i],
                None => r is Err && r->Err_0 is NotFound,
            },
    {
        let mut i: usize = 0;
        while i < self.notes.len()
            invariant
                0 <= i <= self.notes.len(),
                spec_find_note(*self, key@) == spec_first_note_index(self.notes@, key@, i as int),
            decreases self.notes.len() - i,
        {
            if self.notes[i].key == *key {
                return Ok(&self.notes[i]);
            }
            i = i + 1;
        }
        Err(Error::NotFound { model: String::from_str("Note"), params: Vec::new() })
    }

    /// The stored follow edge with key `key`, or `NotFound`.
    pub fn find_follow<'a>(&'a self, key: &String) -> (r: Result<&'a Edge<Follow>, Error>)
        ensures
            match spec_find_follow(*self, key@) {
                Some(i) => r is Ok && r->Ok_0 == &self.follows@[i],
                None => r is Err && r->Err_0 is NotFound,
            },
    {
        let mut i: usize = 0;
        while i < self.follows.len()
            invariant
                0 <= i <= self.follows.len(),
                spec_find_follow(*self, key@) == spec_first_follow_index(
                    self.follows@,
                    key@,
                    i as int,
                ),
            decreases self.follows.len() - i,
        {
            if self.follows[i].key == *key {
                return Ok(&self.follows[i]);
            }
            i = i + 1;
        }
        Err(Error::NotFound { model: String::from_str("Follow"), params: Vec::new() })
    }

    /// The account create hook applied to a record: local accounts get their
    /// creation time stamped; remote accounts keep upstream timestamps.
    pub open spec fn account_create_hook(a: AccountV, now: i64) -> AccountV {
        if a.domain is None {
            AccountV { created_at: Some(now), ..a }
        } else {
            a
        }
    }

    /// The account save hook applied to a record: local accounts get their
    /// update time stamped.
    pub open spec fn account_save_hook(a: AccountV, now: i64) -> AccountV {
        if a.domain is None {
            AccountV { updated_at: Some(now), ..a }
        } else {
            a
        }
    }

    /// The note create hook applied to a record: local notes get their
    /// creation time stamped.
    pub open spec fn note_create_hook(n: crate::model::NoteV, now: i64) -> crate::model::NoteV {
        if n.remote is None {
            crate::model::NoteV { created_at: Some(now), ..n }
        } else {
            n
        }
    }

    /// Creates an account document, stamping `created_at` for local
    /// accounts, and returns a copy of what was stored.
    pub fn create_account(&mut self, account: Account, now: i64) -> (r: Document<Account>)
        requires
            store_wf(*old(self)),
            account_wf(account@),
            old(self).next_key < u64::MAX,
            account@.remote is Some ==> forall|i: int|
                0 <= i < old(self).accounts@.len() ==> account_uri(
                    #[trigger] old(self).accounts@[i]@.record,
                ) != Some(account@.remote->0.uri),
        ensures
            store_wf(*final(self)),
            final(self).accounts@.len() == old(self).accounts@.len() + 1,
            forall|i: int|
                0 <= i < old(self).accounts@.len() ==> final(self).accounts@[i] == old(
                    self,
                ).accounts@[i],
            final(self).accounts@.last()@ == r@,
            r@.key == spec_dec(old(self).next_key as nat),
            r@.record == Self::account_create_hook(account@, now),
            final(self).notes == old(self).notes,
            final(self).follows == old(self).follows,
            final(self).publishes == old(self).publishes,
            final(self).shares == old(self).shares,
            final(self).likes == old(self).likes,
            final(self).next_key == old(self).next_key + 1,
    {
        let mut account = account;
        if account.is_local() {
            account.created_at = Some(now);
        }
        let key = self.fresh_key();
        let doc = Document { key, record: account };
        let r = doc.deep_clone();
        self.accounts.push(doc);
        proof {
            let s = *self;
            let olds = *old(self);
            assert(forall|i: int|
                0 <= i < olds.accounts@.len() ==> s.accounts@[i] == olds.accounts@[i]);
            assert(s.accounts@.last()@.key == spec_dec(olds.next_key as nat));
            assert forall|i: int| 0 <= i < s.accounts@.len() implies key_assigned(
                #[trigger] s.accounts@[i]@.key,
                s.next_key,
            ) by {
                if i < olds.accounts@.len() {
                    lemma_key_assigned_weaken(s.accounts@[i]@.key, olds.next_key, s.next_key);
                } else {
                    assert(olds.next_key < s.next_key && s.accounts@[i]@.key == spec_dec(
                        olds.next_key as nat,
                    ));
                }
            }
            assert forall|i: int| 0 <= i < s.notes@.len() implies key_assigned(
                #[trigger] s.notes@[i]@.key,
                s.next_key,
            ) by {
                lemma_key_assigned_weaken(s.notes@[i]@.key, olds.next_key, s.next_key);
            }
            assert forall|i: int| 0 <= i < s.follows@.len() implies key_assigned(
                #[trigger] s.follows@[i]@.key,
                s.next_key,
            ) by {
                lemma_key_assigned_weaken(s.follows@[i]@.key, olds.next_key, s.next_key);
            }
            assert forall|i: int, j: int|
                0 <= i < j < s.accounts@.len() implies #[trigger] s.accounts@[i]@.key
                != #[trigger] s.accounts@[j]@.key by {
                if j == s.accounts@.len() - 1 {
                    lemma_key_assigned_not_fresh(s.accounts@[i]@.key, olds.next_key);
                }
            }
            assert(store_accounts_wf(s));
            assert(store_follows_unique(s));
        }
        r
    }

    /// Replaces the record of the account stored under `key`, stamping
    /// `updated_at` for local accounts, and returns a copy of what was
    /// stored.
    #[verifier::loop_isolation(false)]
    pub fn save_account(&mut self, key: &String, record: Account, now: i64) -> (r: Document<
        Account,
    >)
        requires
            store_wf(*old(self)),
            account_wf(record@),
            spec_find_account(*old(self), key@) is Some,
            record@.remote is Some ==> forall|i: int|
                0 <= i < old(self).accounts@.len() && i != spec_find_account(
                    *old(self),
                    key@,
                )->0 ==> account_uri(#[trigger] old(self).accounts@[i]@.record) != Some(
                    record@.remote->0.uri,
                ),
        ensures
            store_wf(*final(self)),
            final(self).accounts@.len() == old(self).accounts@.len(),
            forall|i: int|
                0 <= i < old(self).accounts@.len() && i != spec_find_account(*old(self), key@)->0
                    ==> final(self).accounts@[i] == old(self).accounts@[i],
            final(self).accounts@[spec_find_account(*old(self), key@)->0]@.key == key@,
            final(self).accounts@[spec_find_account(*old(self), key@)->0]@.record
                == Self::account_save_hook(record@, now),
            r@ == final(self).accounts@[spec_find_account(*old(self), key@)->0]@,
            final(self).notes == old(self).notes,
            final(self).follows == old(self).follows,
            final(self).publishes == old(self).publishes,
            final(self).shares == old(self).shares,
            final(self).likes == old(self).likes,
            final(self).next_key == old(self).next_key,
    {
        let mut record = record;
        if record.is_local() {
            record.updated_at = Some(now);
        }
        let ghost idx = spec_find_account(*old(self), key@)->0;
        let mut i: usize = 0;
        while i < self.accounts.len()
            invariant
                0 <= i <= self.accounts.len(),
                *self == *old(self),
                spec_find_account(*self, key@) == spec_first_account_index(
                    self.accounts@,
                    key@,
                    i as int,
                ),
                spec_find_account(*self, key@) is Some,
            decreases self.accounts.len() - i,
        {
            if self.accounts[i].key == *key {
                let doc = Document { key: self.accounts[i].key.clone(), record };
                let ghost docv = doc@;
                vstd::pervasive::VecAdditionalExecFns::set(&mut self.accounts, i, doc);
                proof {
                    let s = *self;
                    let olds = *old(self);
                    assert(s.accounts@[i as int]@ == docv);
                    assert(s.notes@ == olds.notes@);
                    assert(s.follows@ == olds.follows@);
                    assert(forall|j: int|
                        0 <= j < s.accounts@.len() ==> #[trigger] s.accounts@[j]@.key
                            == olds.accounts@[j]@.key);
                    assert forall|j: int| 0 <= j < s.accounts@.len() implies key_assigned(
                        #[trigger] s.accounts@[j]@.key,
                        s.next_key,
                    ) by {
                        assert(key_assigned(olds.accounts@[j]@.key, olds.next_key));
                    }
                    assert(store_keys_unique(s));
                    assert(store_accounts_wf(s));
                    assert(store_follows_unique(s));
                }
                let r = self.accounts[i].deep_clone();
                return r;
            }
            i = i + 1;
        }
        proof {
            assert(false);
        }
        vstd::pervasive::unreached()
    }

    /// The stored account whose remote URI is `uri`, or `NotFound`. Only
    /// remote accounts carry a URI, so this never finds a local account.
    pub fn find_account_by_uri<'a>(&'a self, uri: &crate::urls::AbsUrl) -> (r: Result<
        &'a Document<Account>,
        Error,
    >)
        ensures
            match spec_find_account_by_uri(*self, uri@) {
                Some(i) => r is Ok && r->Ok_0 == &self.accounts@[i],
                None => r is Err && r->Err_0 is NotFound,
            },
    {
        let mut i: usize = 0;
        while i < self.accounts.len()
            invariant
                0 <= i <= self.accounts.len(),
                spec_find_account_by_uri(*self, uri@) == spec_first_account_by_uri_index(
                    self.accounts@,
                    uri@,
                    i as int,
                ),
            decreases self.accounts.len() - i,
        {
            let matches = match &self.accounts[i].record.remote {
                Some(remote) => remote.uri.same_as(uri),
                None => false,
            };
            if matches {
                return Ok(&self.accounts[i]);
            }
            i = i + 1;
        }
        Err(Error::NotFound { model: String::from_str("Account"), params: Vec::new() })
    }

    /// The follow edge from `from` to `to`, or `NotFound`.
    pub fn find_follow_between<'a>(&'a self, from: &String, to: &String) -> (r: Result<
        &'a Edge<Follow>,
        Error,
    >)
        ensures
            match spec_find_follow_between(*self, from@, to@) {
                Some(i) => r is Ok && r->Ok_0 == &self.follows@[i],
                None => r is Err && r->Err_0 is NotFound,
            },
    {
        let mut i: usize = 0;
        while i < self.follows.len()
            invariant
                0 <= i <= self.follows.len(),
                spec_find_follow_between(*self, from@, to@) == spec_first_follow_between_index(
                    self.follows@,
                    from@,
                    to@,
                    i as int,
                ),
            decreases self.follows.len() - i,
        {
            if self.follows[i].from == *from && self.follows[i].to == *to {
                return Ok(&self.follows[i]);
            }
            i = i + 1;
        }
        Err(Error::NotFound { model: String::from_str("Follow"), params: Vec::new() })
    }

    /// Creates a note document and the publish edge that attributes it to
    /// `publisher`, in one step, and returns a copy of the stored note.
    /// `from` is overwritten with the publisher's key, and local notes get
    /// their creation time stamped.
    pub fn publish_note(&mut self, publisher_key: &String, note: Note, now: i64) -> (r: Document<
        Note,
    >)
        requires
            store_wf(*old(self)),
            old(self).next_key + 2 <= u64::MAX,
        ensures
            store_wf(*final(self)),
            r@.key == spec_dec(old(self).next_key as nat),
            r@.record == Self::note_create_hook(
                crate::model::NoteV { from: Some(publisher_key@), ..note@ },
                now,
            ),
            final(self).notes@.len() == old(self).notes@.len() + 1,
            forall|i: int|
                0 <= i < old(self).notes@.len() ==> final(self).notes@[i] == old(self).notes@[i],
            final(self).notes@.last()@ == r@,
            final(self).publishes@.len() == old(self).publishes@.len() + 1,
            forall|i: int|
                0 <= i < old(self).publishes@.len() ==> final(self).publishes@[i] == old(
                    self,
                ).publishes@[i],
            final(self).publishes@.last()@.from == publisher_key@,
            final(self).publishes@.last()@.to == r@.key,
            final(self).publishes@.last()@.record.created_at == Some(now),
            final(self).accounts == old(self).accounts,
            final(self).follows == old(self).follows,
            final(self).shares == old(self).shares,
            final(self).likes == old(self).likes,
            final(self).next_key == old(self).next_key + 2,
    {
        let mut note = note;
        note.from = Some(publisher_key.clone());
        if note.is_local() {
            note.created_at = Some(now);
        }
        let note_key = self.fresh_key();
        let doc = Document { key: note_key, record: note };
        let r = doc.deep_clone();
        self.notes.push(doc);
        let edge_key = self.fresh_key();
        let edge = Edge {
            key: edge_key,
            from: publisher_key.clone(),
            to: r.key.clone(),
            record: Publish { created_at: Some(now) },
        };
        self.publishes.push(edge);
        proof {
            let s = *self;
            let olds = *old(self);
            assert forall|i: int| 0 <= i < s.accounts@.len() implies key_assigned(
                #[trigger] s.accounts@[i]@.key,
                s.next_key,
            ) by {
                lemma_key_assigned_weaken(s.accounts@[i]@.key, olds.next_key, s.next_key);
            }
            assert(s.notes@.last()@.key == spec_dec(olds.next_key as nat));
            assert forall|i: int| 0 <= i < s.notes@.len() implies key_assigned(
                #[trigger] s.notes@[i]@.key,
                s.next_key,
            ) by {
                if i < olds.notes@.len() {
                    lemma_key_assigned_weaken(s.notes@[i]@.key, olds.next_key, s.next_key);
                } else {
                    assert(olds.next_key < s.next_key && s.notes@[i]@.key == spec_dec(
                        olds.next_key as nat,
                    ));
                }
            }
            assert forall|i: int| 0 <= i < s.follows@.len() implies key_assigned(
                #[trigger] s.follows@[i]@.key,
                s.next_key,
            ) by {
                lemma_key_assigned_weaken(s.follows@[i]@.key, olds.next_key, s.next_key);
            }
            assert forall|i: int, j: int|
                0 <= i < j < s.notes@.len() implies #[trigger] s.notes@[i]@.key
                != #[trigger] s.notes@[j]@.key by {
                if j == s.notes@.len() - 1 {
                    lemma_key_assigned_not_fresh(s.notes@[i]@.key, olds.next_key);
                }
            }
            assert(store_accounts_wf(s));
            assert(store_follows_unique(s));
        }
        r
    }

    /// Creates a follow edge from `actor` to `target`, recording which side
    /// is remote and the activity URI if a peer provided one. Requires that
    /// no follow between the pair exists yet, which keeps follows unique per
    /// ordered pair.
    pub fn link_follow(
        &mut self,
        actor: &Document<Account>,
        target: &Document<Account>,
        uri: Option<crate::urls::AbsUrl>,
        now: i64,
    ) -> (r: Edge<Follow>)
        requires
            store_wf(*old(self)),
            old(self).next_key < u64::MAX,
            spec_find_follow_between(*old(self), actor@.key, target@.key) is None,
        ensures
            store_wf(*final(self)),
            r@.key == spec_dec(old(self).next_key as nat),
            r@.from == actor@.key,
            r@.to == target@.key,
            r@.record == (FollowV {
                accepted: None,
                from_remote: !crate::model::spec_is_local(actor@.record),
                to_remote: !crate::model::spec_is_local(target@.record),
                uri: uri.deep_view(),
                created_at: Some(now),
            }),
            final(self).follows@.len() == old(self).follows@.len() + 1,
            forall|i: int|
                0 <= i < old(self).follows@.len() ==> final(self).follows@[i] == old(
                    self,
                ).follows@[i],
            final(self).follows@.last()@ == r@,
            final(self).accounts == old(self).accounts,
            final(self).notes == old(self).notes,
            final(self).publishes == old(self).publishes,
            final(self).shares == old(self).shares,
            final(self).likes == old(self).likes,
            final(self).next_key == old(self).next_key + 1,
    {
        let record = Follow {
            accepted: None,
            from_remote: actor.record.is_remote(),
            to_remote: target.record.is_remote(),
            uri,
            created_at: Some(now),
        };
        let key = self.fresh_key();
        let edge = Edge {
            key,
            from: actor.key.clone(),
            to: target.key.clone(),
            record,
        };
        let r = edge.deep_clone();
        self.follows.push(edge);
        proof {
            let s = *self;
            let olds = *old(self);
            lemma_follow_between_none(olds.follows@, actor@.key, target@.key, 0);
            assert forall|i: int| 0 <= i < s.accounts@.len() implies key_assigned(
                #[trigger] s.accounts@[i]@.key,
                s.next_key,
            ) by {
                lemma_key_assigned_weaken(s.accounts@[i]@.key, olds.next_key, s.next_key);
            }
            assert forall|i: int| 0 <= i < s.notes@.len() implies key_assigned(
                #[trigger] s.notes@[i]@.key,
                s.next_key,
            ) by {
                lemma_key_assigned_weaken(s.notes@[i]@.key, olds.next_key, s.next_key);
            }
            assert(s.follows@.last()@.key == spec_dec(olds.next_key as nat));
            assert forall|i: int| 0 <= i < s.follows@.len() implies key_assigned(
                #[trigger] s.follows@[i]@.key,
                s.next_key,
            ) by {
                if i < olds.follows@.len() {
                    lemma_key_assigned_weaken(s.follows@[i]@.key, olds.next_key, s.next_key);
                } else {
                    assert(olds.next_key < s.next_key && s.follows@[i]@.key == spec_dec(
                        olds.next_key as nat,
                    ));
                }
            }
            assert forall|i: int, j: int|
                0 <= i < j < s.follows@.len() implies #[trigger] s.follows@[i]@.key
                != #[trigger] s.follows@[j]@.key by {
                if j == s.follows@.len() - 1 {
                    lemma_key_assigned_not_fresh(s.follows@[i]@.key, olds.next_key);
                }
            }
            assert forall|i: int, j: int|
                0 <= i < j < s.follows@.len() implies !(#[trigger] s.follows@[i]@.from
                == #[trigger] s.follows@[j]@.from && s.follows@[i]@.to == s.follows@[j]@.to) by {
                if j == s.follows@.len() - 1 {
                    assert(!(s.follows@[i]@.from == actor@.key && s.follows@[i]@.to
                        == target@.key));
                }
            }
            assert(store_accounts_wf(s));
        }
        r
    }

    /// Replaces the record of the follow edge stored under `key`, keeping
    /// its endpoints, and returns a copy of the stored edge.
    #[verifier::loop_isolation(false)]
    pub fn save_follow(&mut self, key: &String, record: Follow) -> (r: Edge<Follow>)
        requires
            store_wf(*old(self)),
            spec_find_follow(*old(self), key@) is Some,
        ensures
            store_wf(*final(self)),
            final(self).follows@.len() == old(self).follows@.len(),
            forall|i: int|
                0 <= i < old(self).follows@.len() && i != spec_find_follow(*old(self), key@)->0
                    ==> final(self).follows@[i] == old(self).follows@[i],
            final(self).follows@[spec_find_follow(*old(self), key@)->0]@ == (crate::model::EdgeV {
                record: record@,
                ..old(self).follows@[spec_find_follow(*old(self), key@)->0]@
            }),
            r@ == final(self).follows@[spec_find_follow(*old(self), key@)->0]@,
            final(self).accounts == old(self).accounts,
            final(self).notes == old(self).notes,
            final(self).publishes == old(self).publishes,
            final(self).shares == old(self).shares,
            final(self).likes == old(self).likes,
            final(self).next_key == old(self).next_key,
    {
        let mut i: usize = 0;
        while i < self.follows.len()
            invariant
                0 <= i <= self.follows.len(),
                *self == *old(self),
                spec_find_follow(*self, key@) == spec_first_follow_index(
                    self.follows@,
                    key@,
                    i as int,
                ),
                spec_find_follow(*self, key@) is Some,
            decreases self.follows.len() - i,
        {
            if self.follows[i].key == *key {
                let edge = Edge {
                    key: self.follows[i].key.clone(),
                    from: self.follows[i].from.clone(),
                    to: self.follows[i].to.clone(),
                    record,
                };
                let ghost edgev = edge@;
                vstd::pervasive::VecAdditionalExecFns::set(&mut self.follows, i, edge);
                proof {
                    let s = *self;
                    let olds = *old(self);
                    assert(s.follows@[i as int]@ == edgev);
                    assert(forall|j: int|
                        0 <= j < s.follows@.len() ==> #[trigger] s.follows@[j]@.key
                            == olds.follows@[j]@.key && s.follows@[j]@.from == olds.follows@[j]@.from
                            && s.follows@[j]@.to == olds.follows@[j]@.to);
                    assert forall|j: int| 0 <= j < s.follows@.len() implies key_assigned(
                        #[trigger] s.follows@[j]@.key,
                        s.next_key,
                    ) by {
                        assert(key_assigned(olds.follows@[j]@.key, olds.next_key));
                    }
                    assert(store_keys_unique(s));
                    assert(store_accounts_wf(s));
                    assert(store_follows_unique(s));
                }
                let r = self.follows[i].deep_clone();
                return r;
            }
            i = i + 1;
        }
        proof {
            assert(false);
        }
        vstd::pervasive::unreached()
    }
}

/// What a `Some` or `None` result of the account-key search means: a `Some`
/// index is in range, matches, and nothing before it matches; `None` means
/// nothing at or after `at` matches.
pub proof fn lemma_find_account_props(docs: Seq<Document<Account>>, key: Seq<char>, at: int)
    requires
        at >= 0,
    ensures
        match spec_first_account_index(docs, key, at) {
            Some(i) => at <= i < docs.len() && docs[i]@.key == key && forall|k: int|
                at <= k < i ==> (#[trigger] docs[k]@.key) != key,
            None => forall|k: int| at <= k < docs.len() ==> (#[trigger] docs[k]@.key) != key,
        },
    decreases docs.len() - at,
{
    if at < docs.len() && docs[at]@.key != key {
        lemma_find_account_props(docs, key, at + 1);
    }
}

/// The same characterization for the note-key search.
pub proof fn lemma_find_note_props(docs: Seq<Document<Note>>, key: Seq<char>, at: int)
    requires
        at >= 0,
    ensures
        match spec_first_note_index(docs, key, at) {
            Some(i) => at <= i < docs.len() && docs[i]@.key == key && forall|k: int|
                at <= k < i ==> (#[trigger] docs[k]@.key) != key,
            None => forall|k: int| at <= k < docs.len() ==> (#[trigger] docs[k]@.key) != key,
        },
    decreases docs.len() - at,
{
    if at < docs.len() && docs[at]@.key != key {
        lemma_find_note_props(docs, key, at + 1);
    }
}

/// The same characterization for the account search by remote URI.
pub proof fn lemma_find_account_by_uri_props(docs: Seq<Document<Account>>, uri: UrlV, at: int)
    requires
        at >= 0,
    ensures
        match spec_first_account_by_uri_index(docs, uri, at) {
            Some(i) => at <= i < docs.len() && account_uri(docs[i]@.record) == Some(uri) && forall|
                k: int,
            |
                at <= k < i ==> account_uri(#[trigger] docs[k]@.record) != Some(uri),
            None => forall|k: int|
                at <= k < docs.len() ==> account_uri(#[trigger] docs[k]@.record) != Some(uri),
        },
    decreases docs.len() - at,
{
    if at < docs.len() && account_uri(docs[at]@.record) != Some(uri) {
        lemma_find_account_by_uri_props(docs, uri, at + 1);
    }
}

/// The same characterization for the follow-key search.
pub proof fn lemma_find_follow_props(edges: Seq<Edge<Follow>>, key: Seq<char>, at: int)
    requires
        at >= 0,
    ensures
        match spec_first_follow_index(edges, key, at) {
            Some(i) => at <= i < edges.len() && edges[i]@.key == key && forall|k: int|
                at <= k < i ==> (#[trigger] edges[k]@.key) != key,
            None => forall|k: int| at <= k < edges.len() ==> (#[trigger] edges[k]@.key) != key,
        },
    decreases edges.len() - at,
{
    if at < edges.len() && edges[at]@.key != key {
        lemma_find_follow_props(edges, key, at + 1);
    }
}

/// When no follow between a pair is found, no edge connects the pair at or
/// after `at`.
pub proof fn lemma_follow_between_none(
    edges: Seq<Edge<Follow>>,
    from: Seq<char>,
    to: Seq<char>,
    at: int,
)
    requires
        at >= 0,
        spec_first_follow_between_index(edges, from, to, at) is None,
    ensures
        forall|k: int|
            at <= k < edges.len() ==> !((#[trigger] edges[k]@.from) == from && edges[k]@.to == to),
    decreases edges.len() - at,
{
    if at < edges.len() {
        lemma_follow_between_none(edges, from, to, at + 1);
    }
}

/// When a follow between a pair is found, the index is in range and the
/// edge connects the pair.
pub proof fn lemma_follow_between_some(
    edges: Seq<Edge<Follow>>,
    from: Seq<char>,
    to: Seq<char>,
    at: int,
)
    requires
        at >= 0,
        spec_first_follow_between_index(edges, from, to, at) is Some,
    ensures
        at <= spec_first_follow_between_index(edges, from, to, at)->0 < edges.len(),
        edges[spec_first_follow_between_index(edges, from, to, at)->0]@.from == from,
        edges[spec_first_follow_between_index(edges, from, to, at)->0]@.to == to,
    decreases edges.len() - at,
{
    if at < edges.len() && !(edges[at]@.from == from && edges[at]@.to == to) {
        lemma_follow_between_some(edges, from, to, at + 1);
    }
}

} // verus!
