//! The graph queries behind the entity layer: lookups by username and URI,
//! follower and following listings, outbox contents, counts, and the
//! timeline traversal, each with paging and a verified descending sort by
//! timestamp.

use vstd::prelude::*;

use crate::errors::Error;
use crate::model::Account;
use crate::model::AccountV;
use crate::model::DeepClone;
use crate::model::Document;
use crate::model::DocumentV;
use crate::model::Edge;
use crate::model::EdgeV;
use crate::model::Follow;
use crate::model::FollowV;
use crate::model::Note;
use crate::model::NoteV;
use crate::page_limit::PageLimit;
use crate::page_limit::spec_page;
use crate::page_limit::vec_apply_page_limit;
use crate::store::GraphStore;
use crate::store::spec_find_account;
use crate::store::spec_find_note;
use crate::urls::AbsUrl;

verus! {

/// Timestamp order with missing timestamps smallest, as the database sorts
/// null.
pub open spec fn ts_le(a: Option<i64>, b: Option<i64>) -> bool {
    match (a, b) {
        (None, _) => true,
        (Some(_), None) => false,
        (Some(x), Some(y)) => x <= y,
    }
}

/// Whether a sequence of timestamped rows is sorted newest first.
pub open spec fn spec_sorted_desc<T>(s: Seq<(Option<i64>, T)>) -> bool {
    forall|i: int, j: int| 0 <= i < j < s.len() ==> ts_le(#[trigger] s[j].0, #[trigger] s[i].0)
}

/// Whether `a` is at least every key in `s`.
spec fn ts_ge_all<T>(s: Seq<(Option<i64>, T)>, a: Option<i64>) -> bool {
    forall|i: int| 0 <= i < s.len() ==> ts_le(#[trigger] s[i].0, a)
}

/// The timestamp comparison as executable code.
fn ts_le_exec(a: &Option<i64>, b: &Option<i64>) -> (r: bool)
    ensures
        r == ts_le(*a, *b),
{
    match (a, b) {
        (None, _) => true,
        (Some(_), None) => false,
        (Some(x), Some(y)) => *x <= *y,
    }
}

/// Sorts timestamped rows newest first by repeatedly extracting a maximal
/// row; the result is a permutation of the input.
#[verifier::loop_isolation(false)]
pub fn sort_rows_desc<T: DeepView>(rows: Vec<(Option<i64>, T)>) -> (r: Vec<(Option<i64>, T)>)
    ensures
        r.deep_view().to_multiset() == rows.deep_view().to_multiset(),
        spec_sorted_desc(r.deep_view()),
{
    broadcast use vstd::seq_lib::group_to_multiset_ensures;

    let mut rest = rows;
    let mut out: Vec<(Option<i64>, T)> = Vec::new();
    proof {
        assert(rest.deep_view().to_multiset().add(out.deep_view().to_multiset())
            =~= rows.deep_view().to_multiset());
    }
    while rest.len() > 0
        invariant
            rest.deep_view().to_multiset().add(out.deep_view().to_multiset())
                == rows.deep_view().to_multiset(),
            spec_sorted_desc(out.deep_view()),
            out@.len() > 0 ==> ts_ge_all(rest.deep_view(), out.deep_view().last().0),
        decreases rest@.len(),
    {
        let mut m: usize = 0;
        let mut i: usize = 1;
        proof {
            assert(rest.deep_view()[0].0 == rest@[0].0);
        }
        while i < rest.len()
            invariant
                0 <= m < rest@.len(),
                m < i <= rest@.len(),
                forall|k: int|
                    0 <= k < i ==> ts_le(
                        (#[trigger] rest.deep_view()[k]).0,
                        rest.deep_view()[m as int].0,
                    ),
            decreases rest@.len() - i,
        {
            proof {
                assert(rest.deep_view()[i as int].0 == rest@[i as int].0);
                assert(rest.deep_view()[m as int].0 == rest@[m as int].0);
            }
            if ts_le_exec(&rest[m].0, &rest[i].0) {
                m = i;
            }
            i = i + 1;
        }
        let ghost rest_before = rest.deep_view();
        let ghost out_before = out.deep_view();
        let x = rest.remove(m);
        out.push(x);
        proof {
            assert(rest.deep_view() =~= rest_before.remove(m as int));
            assert(out.deep_view() =~= out_before.push(rest_before[m as int]));
            assert(rest.deep_view().to_multiset() =~= rest_before.to_multiset().remove(
                rest_before[m as int],
            ));
            assert(out.deep_view().to_multiset() =~= out_before.to_multiset().insert(
                rest_before[m as int],
            ));
            assert(rest.deep_view().to_multiset().add(out.deep_view().to_multiset())
                =~= rows.deep_view().to_multiset());
            assert(out.deep_view().drop_last() == out_before);
            assert forall|a: int, b: int| 0 <= a < b < out.deep_view().len() implies ts_le(
                (#[trigger] out.deep_view()[b]).0,
                (#[trigger] out.deep_view()[a]).0,
            ) by {
                if b == out.deep_view().len() - 1 {
                    if out_before.len() > 0 {
                        assert(ts_le(rest_before[m as int].0, out_before.last().0));
                    }
                }
            }
            assert forall|k: int| 0 <= k < rest.deep_view().len() implies ts_le(
                (#[trigger] rest.deep_view()[k]).0,
                out.deep_view().last().0,
            ) by {
                if k < m {
                    assert(rest.deep_view()[k] == rest_before[k]);
                } else {
                    assert(rest.deep_view()[k] == rest_before[k + 1]);
                }
            }
        }
    }
    proof {
        assert(rest.deep_view() =~= Seq::<(Option<i64>, <T as DeepView>::V)>::empty());
        assert(rest.deep_view().to_multiset() =~= vstd::multiset::Multiset::empty());
        assert(rest.deep_view().to_multiset().add(out.deep_view().to_multiset())
            =~= out.deep_view().to_multiset());
    }
    out
}

/// Elementwise facts survive any permutation.
pub proof fn lemma_permutation_preserves<T>(a: Seq<T>, b: Seq<T>, pred: spec_fn(T) -> bool)
    requires
        a.to_multiset() == b.to_multiset(),
        forall|i: int| 0 <= i < a.len() ==> pred(#[trigger] a[i]),
    ensures
        forall|i: int| 0 <= i < b.len() ==> pred(#[trigger] b[i]),
{
    broadcast use vstd::seq_lib::group_to_multiset_ensures;

    assert forall|i: int| 0 <= i < b.len() implies pred(#[trigger] b[i]) by {
        assert(b.contains(b[i]));
        assert(b.to_multiset().count(b[i]) > 0);
        assert(a.to_multiset().count(b[i]) > 0);
        assert(a.contains(b[i]));
        let w = choose|w: int| 0 <= w < a.len() && a[w] == b[i];
        assert(pred(a[w]));
    }
}

/// The published notes reachable from the account over publish edges that
/// exist before position `n`, in edge order; edges pointing at a missing
/// note contribute nothing.
pub open spec fn spec_published_prefix(s: GraphStore, key: Seq<char>, n: int) -> Seq<
    (Option<i64>, DocumentV<NoteV>),
>
    decreases n,
{
    if n <= 0 {
        Seq::empty()
    } else {
        let rest = spec_published_prefix(s, key, n - 1);
        let e = s.publishes@[n - 1]@;
        if e.from == key {
            match spec_find_note(s, e.to) {
                Some(i) => rest.push((s.notes@[i]@.record.created_at, s.notes@[i]@)),
                None => rest,
            }
        } else {
            rest
        }
    }
}

/// Every note the account has published, with its creation time, in edge
/// order.
pub open spec fn spec_published_notes(s: GraphStore, key: Seq<char>) -> Seq<
    (Option<i64>, DocumentV<NoteV>),
> {
    spec_published_prefix(s, key, s.publishes@.len() as int)
}

/// Collects the account's published notes as timestamped rows.
#[verifier::loop_isolation(false)]
fn collect_published(store: &GraphStore, key: &String) -> (r: Vec<(Option<i64>, Document<Note>)>)
    ensures
        r.deep_view() == spec_published_notes(*store, key@),
        forall|i: int|
            0 <= i < r.deep_view().len() ==> (#[trigger] r.deep_view()[i]).0
                == r.deep_view()[i].1.record.created_at,
{
    let mut out: Vec<(Option<i64>, Document<Note>)> = Vec::new();
    proof {
        assert(out.deep_view() =~= spec_published_prefix(*store, key@, 0));
    }
    let mut n: usize = 0;
    while n < store.publishes.len()
        invariant
            n <= store.publishes@.len(),
            out.deep_view() == spec_published_prefix(*store, key@, n as int),
            forall|i: int|
                0 <= i < out.deep_view().len() ==> (#[trigger] out.deep_view()[i]).0
                    == out.deep_view()[i].1.record.created_at,
        decreases store.publishes@.len() - n,
    {
        let ghost before = out.deep_view();
        if store.publishes[n].from == *key {
            match store.find_note(&store.publishes[n].to) {
                Ok(note) => {
                    let copy = note.deep_clone();
                    out.push((copy.record.created_at, copy));
                    proof {
                        assert(out.deep_view() =~= before.push(
                            (out@.last().1@.record.created_at, out@.last().1@),
                        ));
                    }
                },
                Err(_) => {},
            }
        }
        proof {
            assert(out.deep_view() =~= spec_published_prefix(*store, key@, n + 1));
        }
        n = n + 1;
    }
    out
}

/// Drops the sort keys, keeping the rows in order.
#[verifier::loop_isolation(false)]
fn strip_keys<T>(rows: Vec<(Option<i64>, T)>) -> (r: Vec<T>)
    ensures
        r@.len() == rows@.len(),
        forall|i: int| 0 <= i < rows@.len() ==> r@[i] == (#[trigger] rows@[i]).1,
{
    let ghost orig = rows@;
    let mut rows = rows;
    let mut out: Vec<T> = Vec::new();
    while rows.len() > 0
        invariant
            out@.len() + rows@.len() == orig.len(),
            forall|i: int| 0 <= i < rows@.len() ==> (#[trigger] rows@[i]) == orig[out@.len() + i],
            forall|i: int| 0 <= i < out@.len() ==> (#[trigger] out@[i]) == orig[i].1,
        decreases rows@.len(),
    {
        let p = rows.remove(0);
        out.push(p.1);
    }
    out
}

impl Account {
    /// The first account with this username and domain; `None` for the
    /// domain means strictly local accounts. Fails with `NotFound` exactly
    /// when no account matches.
    #[verifier::loop_isolation(false)]
    pub fn find_by_username(
        username: &String,
        domain: Option<&String>,
        store: &GraphStore,
    ) -> (r: Result<Document<Account>, Error>)
        ensures
            match spec_find_by_username(*store, username@, spec_opt_ref_view(domain)) {
                Some(i) => r is Ok && r->Ok_0@ == store.accounts@[i]@,
                None => r is Err && (r->Err_0 matches Error::NotFound { model, params } && {
                    &&& model@ == "Account"@
                    &&& params@.len() == 2
                    &&& params@[0].0@ == "username"@ && params@[0].1@ == username@
                    &&& params@[1].0@ == "domain"@ && params@[1].1@ == (match domain {
                        Some(d) => d@,
                        None => "null"@,
                    })
                }),
            },
    {
        let mut i: usize = 0;
        while i < store.accounts.len()
            invariant
                0 <= i <= store.accounts@.len(),
                spec_find_by_username(*store, username@, spec_opt_ref_view(domain))
                    == spec_first_username_index(
                    store.accounts@,
                    username@,
                    spec_opt_ref_view(domain),
                    i as int,
                ),
            decreases store.accounts@.len() - i,
        {
            let username_matches = store.accounts[i].record.username == *username;
            let domain_matches = match (&store.accounts[i].record.domain, domain) {
                (None, None) => true,
                (Some(a), Some(b)) => *a == *b,
                _ => false,
            };
            if username_matches && domain_matches {
                return Ok(store.accounts[i].deep_clone());
            }
            i = i + 1;
        }
        let mut params: Vec<(String, String)> = Vec::new();
        params.push((String::from_str("username"), username.clone()));
        let domain_text = match domain {
            Some(d) => (*d).clone(),
            None => String::from_str("null"),
        };
        params.push((String::from_str("domain"), domain_text));
        Err(Error::NotFound { model: String::from_str("Account"), params })
    }

    /// The account stored under this remote URI; remote accounts only.
    /// Fails with `NotFound` exactly when no account carries the URI, and
    /// the failure names the URI it looked for.
    pub fn find_by_uri(uri: &AbsUrl, store: &GraphStore) -> (r: Result<Document<Account>, Error>)
        ensures
            match crate::store::spec_find_account_by_uri(*store, uri@) {
                Some(i) => r is Ok && r->Ok_0@ == store.accounts@[i]@,
                None => r is Err && (r->Err_0 matches Error::NotFound { model, params } && {
                    &&& model@ == "Account"@
                    &&& params@.len() == 1
                    &&& params@[0].0@ == "uri"@
                    &&& params@[0].1@ == crate::urls::spec_url_text(uri@)
                }),
            },
    {
        match store.find_account_by_uri(uri) {
            Ok(doc) => Ok(doc.deep_clone()),
            Err(_) => {
                let mut params: Vec<(String, String)> = Vec::new();
                params.push((String::from_str("uri"), uri.to_text()));
                Err(Error::NotFound { model: String::from_str("Account"), params })
            },
        }
    }

    /// The requested page of the account's published notes, newest first.
    pub fn get_published_notes(
        record: &Document<Account>,
        page_limit: PageLimit,
        store: &GraphStore,
    ) -> (r: Vec<Document<Note>>)
        ensures
            exists|sorted: Seq<(Option<i64>, DocumentV<NoteV>)>|
                {
                    &&& #[trigger] sorted.to_multiset() == spec_published_notes(
                        *store,
                        record@.key,
                    ).to_multiset()
                    &&& spec_sorted_desc(sorted)
                    &&& forall|i: int|
                        0 <= i < sorted.len() ==> (#[trigger] sorted[i]).0
                            == sorted[i].1.record.created_at
                    &&& r.deep_view().len() == spec_page(sorted, page_limit).len()
                    &&& forall|i: int|
                        0 <= i < r.deep_view().len() ==> (#[trigger] r.deep_view()[i])
                            == spec_page(sorted, page_limit)[i].1
                },
    {
        let rows = collect_published(store, &record.key);
        let ghost cands = rows.deep_view();
        let sorted = sort_rows_desc(rows);
        let ghost sorted_dv = sorted.deep_view();
        proof {
            lemma_permutation_preserves(
                cands,
                sorted_dv,
                |p: (Option<i64>, DocumentV<NoteV>)| p.0 == p.1.record.created_at,
            );
        }
        let paged = vec_apply_page_limit(sorted, page_limit);
        proof {
            assert(paged.deep_view() =~= spec_page(sorted_dv, page_limit));
        }
        let ghost paged_dv = paged.deep_view();
        let out = strip_keys(paged);
        proof {
            assert forall|i: int| 0 <= i < out.deep_view().len() implies (
            #[trigger] out.deep_view()[i]) == spec_page(sorted_dv, page_limit)[i].1 by {
                assert(out.deep_view()[i] == out@[i]@);
                assert(paged_dv[i] == paged@[i]@);
            }
        }
        out
    }
}

/// The view of an optional borrowed string.
pub open spec fn spec_opt_ref_view(o: Option<&String>) -> Option<Seq<char>> {
    match o {
        Some(s) => Some(s@),
        None => None,
    }
}

/// Whether an account record matches a username/domain filter.
pub open spec fn spec_username_matches(
    a: AccountV,
    username: Seq<char>,
    domain: Option<Seq<char>>,
) -> bool {
    a.username == username && a.domain == domain
}

/// The first index at or after `at` matching the username/domain filter.
pub open spec fn spec_first_username_index(
    docs: Seq<Document<Account>>,
    username: Seq<char>,
    domain: Option<Seq<char>>,
    at: int,
) -> Option<int>
    decreases docs.len() - at,
{
    if at < 0 || at >= docs.len() {
        None
    } else if spec_username_matches(docs[at]@.record, username, domain) {
        Some(at)
    } else {
        spec_first_username_index(docs, username, domain, at + 1)
    }
}

/// The index of the first account matching the username/domain filter.
pub open spec fn spec_find_by_username(
    s: GraphStore,
    username: Seq<char>,
    domain: Option<Seq<char>>,
) -> Option<int> {
    spec_first_username_index(s.accounts@, username, domain, 0)
}


/// The accounts this account follows, reachable over follow edges before
/// position `n`, in edge order; edges pointing at a missing account
/// contribute nothing.
pub open spec fn spec_following_prefix(s: GraphStore, key: Seq<char>, n: int) -> Seq<
    DocumentV<AccountV>,
>
    decreases n,
{
    if n <= 0 {
        Seq::empty()
    } else {
        let rest = spec_following_prefix(s, key, n - 1);
        let e = s.follows@[n - 1]@;
        if e.from == key {
            match spec_find_account(s, e.to) {
                Some(i) => rest.push(s.accounts@[i]@),
                None => rest,
            }
        } else {
            rest
        }
    }
}

/// Every account this account follows, in edge order.
pub open spec fn spec_following(s: GraphStore, key: Seq<char>) -> Seq<DocumentV<AccountV>> {
    spec_following_prefix(s, key, s.follows@.len() as int)
}

/// The accounts following this account, reachable over follow edges before
/// position `n`, in edge order.
pub open spec fn spec_followers_prefix(s: GraphStore, key: Seq<char>, n: int) -> Seq<
    DocumentV<AccountV>,
>
    decreases n,
{
    if n <= 0 {
        Seq::empty()
    } else {
        let rest = spec_followers_prefix(s, key, n - 1);
        let e = s.follows@[n - 1]@;
        if e.to == key {
            match spec_find_account(s, e.from) {
                Some(i) => rest.push(s.accounts@[i]@),
                None => rest,
            }
        } else {
            rest
        }
    }
}

/// Every account following this account, in edge order.
pub open spec fn spec_followers(s: GraphStore, key: Seq<char>) -> Seq<DocumentV<AccountV>> {
    spec_followers_prefix(s, key, s.follows@.len() as int)
}

/// How many follow edges before position `n` leave this account.
pub open spec fn spec_count_following_prefix(s: GraphStore, key: Seq<char>, n: int) -> nat
    decreases n,
{
    if n <= 0 {
        0
    } else {
        spec_count_following_prefix(s, key, n - 1) + (if s.follows@[n - 1]@.from == key {
            1nat
        } else {
            0nat
        })
    }
}

/// How many follow edges before position `n` point at this account.
pub open spec fn spec_count_followers_prefix(s: GraphStore, key: Seq<char>, n: int) -> nat
    decreases n,
{
    if n <= 0 {
        0
    } else {
        spec_count_followers_prefix(s, key, n - 1) + (if s.follows@[n - 1]@.to == key {
            1nat
        } else {
            0nat
        })
    }
}

/// How many publish edges before position `n` leave this account.
pub open spec fn spec_count_published_prefix(s: GraphStore, key: Seq<char>, n: int) -> nat
    decreases n,
{
    if n <= 0 {
        0
    } else {
        spec_count_published_prefix(s, key, n - 1) + (if s.publishes@[n - 1]@.from == key {
            1nat
        } else {
            0nat
        })
    }
}

impl Account {
    /// Collects the accounts this account follows, resolving each follow
    /// edge that leaves it.
    #[verifier::loop_isolation(false)]
    fn collect_following(store: &GraphStore, key: &String) -> (r: Vec<Document<Account>>)
        ensures
            r.deep_view() == spec_following(*store, key@),
    {
        let mut out: Vec<Document<Account>> = Vec::new();
        proof {
            assert(out.deep_view() =~= spec_following_prefix(*store, key@, 0));
        }
        let mut n: usize = 0;
        while n < store.follows.len()
            invariant
                n <= store.follows@.len(),
                out.deep_view() == spec_following_prefix(*store, key@, n as int),
            decreases store.follows@.len() - n,
        {
            let ghost before = out.deep_view();
            if store.follows[n].from == *key {
                match store.find_account(&store.follows[n].to) {
                    Ok(account) => {
                        out.push(account.deep_clone());
                        proof {
                            assert(out.deep_view() =~= before.push(out@.last()@));
                        }
                    },
                    Err(_) => {},
                }
            }
            proof {
                assert(out.deep_view() =~= spec_following_prefix(*store, key@, n + 1));
            }
            n = n + 1;
        }
        out
    }

    /// Collects the accounts that follow this account, resolving each
    /// follow edge that points at it.
    #[verifier::loop_isolation(false)]
    fn collect_followers(store: &GraphStore, key: &String) -> (r: Vec<Document<Account>>)
        ensures
            r.deep_view() == spec_followers(*store, key@),
    {
        let mut out: Vec<Document<Account>> = Vec::new();
        proof {
            assert(out.deep_view() =~= spec_followers_prefix(*store, key@, 0));
        }
        let mut n: usize = 0;
        while n < store.follows.len()
            invariant
                n <= store.follows@.len(),
                out.deep_view() == spec_followers_prefix(*store, key@, n as int),
            decreases store.follows@.len() - n,
        {
            let ghost before = out.deep_view();
            if store.follows[n].to == *key {
                match store.find_account(&store.follows[n].from) {
                    Ok(account) => {
                        out.push(account.deep_clone());
                        proof {
                            assert(out.deep_view() =~= before.push(out@.last()@));
                        }
                    },
                    Err(_) => {},
                }
            }
            proof {
                assert(out.deep_view() =~= spec_followers_prefix(*store, key@, n + 1));
            }
            n = n + 1;
        }
        out
    }

    /// The requested page of the accounts this account follows, in edge
    /// order.
    pub fn get_following(
        record: &Document<Account>,
        page_limit: PageLimit,
        store: &GraphStore,
    ) -> (r: Vec<Document<Account>>)
        ensures
            r.deep_view() == spec_page(spec_following(*store, record@.key), page_limit),
    {
        let rows = Self::collect_following(store, &record.key);
        let ghost rows_dv = rows.deep_view();
        let out = vec_apply_page_limit(rows, page_limit);
        proof {
            assert(out.deep_view() =~= spec_page(rows_dv, page_limit));
        }
        out
    }

    /// The requested page of the accounts following this account, in edge
    /// order.
    pub fn get_followers(
        record: &Document<Account>,
        page_limit: PageLimit,
        store: &GraphStore,
    ) -> (r: Vec<Document<Account>>)
        ensures
            r.deep_view() == spec_page(spec_followers(*store, record@.key), page_limit),
    {
        let rows = Self::collect_followers(store, &record.key);
        let ghost rows_dv = rows.deep_view();
        let out = vec_apply_page_limit(rows, page_limit);
        proof {
            assert(out.deep_view() =~= spec_page(rows_dv, page_limit));
        }
        out
    }

    /// How many accounts this account follows.
    #[verifier::loop_isolation(false)]
    pub fn count_following(record: &Document<Account>, store: &GraphStore) -> (r: u64)
        ensures
            r == spec_count_following_prefix(*store, record@.key, store.follows@.len() as int),
    {
        let mut count: u64 = 0;
        let mut n: usize = 0;
        while n < store.follows.len()
            invariant
                n <= store.follows@.len(),
                count == spec_count_following_prefix(*store, record@.key, n as int),
                count <= n,
            decreases store.follows@.len() - n,
        {
            if store.follows[n].from == record.key {
                count = count + 1;
            }
            n = n + 1;
        }
        count
    }

    /// How many accounts follow this account.
    #[verifier::loop_isolation(false)]
    pub fn count_followers(record: &Document<Account>, store: &GraphStore) -> (r: u64)
        ensures
            r == spec_count_followers_prefix(*store, record@.key, store.follows@.len() as int),
    {
        let mut count: u64 = 0;
        let mut n: usize = 0;
        while n < store.follows.len()
            invariant
                n <= store.follows@.len(),
                count == spec_count_followers_prefix(*store, record@.key, n as int),
                count <= n,
            decreases store.follows@.len() - n,
        {
            if store.follows[n].to == record.key {
                count = count + 1;
            }
            n = n + 1;
        }
        count
    }

    /// How many notes this account has published.
    #[verifier::loop_isolation(false)]
    pub fn count_published_notes(record: &Document<Account>, store: &GraphStore) -> (r: u64)
        ensures
            r == spec_count_published_prefix(*store, record@.key, store.publishes@.len() as int),
    {
        let mut count: u64 = 0;
        let mut n: usize = 0;
        while n < store.publishes.len()
            invariant
                n <= store.publishes@.len(),
                count == spec_count_published_prefix(*store, record@.key, n as int),
                count <= n,
            decreases store.publishes@.len() - n,
        {
            if store.publishes[n].from == record.key {
                count = count + 1;
            }
            n = n + 1;
        }
        count
    }
}

/// The notes published by `b` over publish edges before position `n`, each
/// stamped with its edge's creation time.
pub open spec fn spec_pub_posts_prefix(s: GraphStore, b: Seq<char>, n: int) -> Seq<
    (Option<i64>, DocumentV<NoteV>),
>
    decreases n,
{
    if n <= 0 {
        Seq::empty()
    } else {
        let rest = spec_pub_posts_prefix(s, b, n - 1);
        let e = s.publishes@[n - 1]@;
        if e.from == b {
            match spec_find_note(s, e.to) {
                Some(i) => rest.push((e.record.created_at, s.notes@[i]@)),
                None => rest,
            }
        } else {
            rest
        }
    }
}

/// The notes shared by `b` over share edges before position `n`, each
/// stamped with its edge's creation time.
pub open spec fn spec_share_posts_prefix(s: GraphStore, b: Seq<char>, n: int) -> Seq<
    (Option<i64>, DocumentV<NoteV>),
>
    decreases n,
{
    if n <= 0 {
        Seq::empty()
    } else {
        let rest = spec_share_posts_prefix(s, b, n - 1);
        let e = s.shares@[n - 1]@;
        if e.from == b {
            match spec_find_note(s, e.to) {
                Some(i) => rest.push((e.record.created_at, s.notes@[i]@)),
                None => rest,
            }
        } else {
            rest
        }
    }
}

/// Everything `b` has posted: published notes, then shared notes, each
/// stamped with the time of the edge that posted it.
pub open spec fn spec_posts_of(s: GraphStore, b: Seq<char>) -> Seq<(Option<i64>, DocumentV<NoteV>)> {
    spec_pub_posts_prefix(s, b, s.publishes@.len() as int) + spec_share_posts_prefix(
        s,
        b,
        s.shares@.len() as int,
    )
}

/// The timeline candidates gathered from follow edges before position `n`:
/// the posts of every account this account follows.
pub open spec fn spec_timeline_prefix(s: GraphStore, key: Seq<char>, n: int) -> Seq<
    (Option<i64>, DocumentV<NoteV>),
>
    decreases n,
{
    if n <= 0 {
        Seq::empty()
    } else {
        let rest = spec_timeline_prefix(s, key, n - 1);
        let f = s.follows@[n - 1]@;
        if f.from == key {
            rest + spec_posts_of(s, f.to)
        } else {
            rest
        }
    }
}

/// Every post of every account this account follows, stamped with the
/// posting edge's creation time.
pub open spec fn spec_timeline_candidates(s: GraphStore, key: Seq<char>) -> Seq<
    (Option<i64>, DocumentV<NoteV>),
> {
    spec_timeline_prefix(s, key, s.follows@.len() as int)
}

/// Collects everything `b` has posted, as timestamped rows.
#[verifier::loop_isolation(false)]
fn collect_posts_of(store: &GraphStore, b: &String) -> (r: Vec<(Option<i64>, Document<Note>)>)
    ensures
        r.deep_view() == spec_posts_of(*store, b@),
{
    let mut out: Vec<(Option<i64>, Document<Note>)> = Vec::new();
    proof {
        assert(out.deep_view() =~= spec_pub_posts_prefix(*store, b@, 0));
    }
    let mut n: usize = 0;
    while n < store.publishes.len()
        invariant
            n <= store.publishes@.len(),
            out.deep_view() == spec_pub_posts_prefix(*store, b@, n as int),
        decreases store.publishes@.len() - n,
    {
        let ghost before = out.deep_view();
        if store.publishes[n].from == *b {
            match store.find_note(&store.publishes[n].to) {
                Ok(note) => {
                    out.push((store.publishes[n].record.created_at, note.deep_clone()));
                    proof {
                        assert(out.deep_view() =~= before.push(
                            (out@.last().0, out@.last().1@),
                        ));
                    }
                },
                Err(_) => {},
            }
        }
        proof {
            assert(out.deep_view() =~= spec_pub_posts_prefix(*store, b@, n + 1));
        }
        n = n + 1;
    }
    let ghost pubs = out.deep_view();
    let mut m: usize = 0;
    while m < store.shares.len()
        invariant
            m <= store.shares@.len(),
            out.deep_view() == pubs + spec_share_posts_prefix(*store, b@, m as int),
        decreases store.shares@.len() - m,
    {
        let ghost before = out.deep_view();
        if store.shares[m].from == *b {
            match store.find_note(&store.shares[m].to) {
                Ok(note) => {
                    out.push((store.shares[m].record.created_at, note.deep_clone()));
                    proof {
                        assert(out.deep_view() =~= before.push(
                            (out@.last().0, out@.last().1@),
                        ));
                    }
                },
                Err(_) => {},
            }
        }
        proof {
            assert(out.deep_view() =~= pubs + spec_share_posts_prefix(*store, b@, m + 1));
        }
        m = m + 1;
    }
    proof {
        assert(pubs + spec_share_posts_prefix(*store, b@, store.shares@.len() as int)
            =~= spec_posts_of(*store, b@));
    }
    out
}

impl Account {
    /// Collects the timeline candidates: the posts of every account this
    /// account follows.
    #[verifier::loop_isolation(false)]
    fn collect_timeline(store: &GraphStore, key: &String) -> (r: Vec<
        (Option<i64>, Document<Note>),
    >)
        ensures
            r.deep_view() == spec_timeline_candidates(*store, key@),
    {
        let mut out: Vec<(Option<i64>, Document<Note>)> = Vec::new();
        proof {
            assert(out.deep_view() =~= spec_timeline_prefix(*store, key@, 0));
        }
        let mut n: usize = 0;
        while n < store.follows.len()
            invariant
                n <= store.follows@.len(),
                out.deep_view() == spec_timeline_prefix(*store, key@, n as int),
            decreases store.follows@.len() - n,
        {
            let ghost before = out.deep_view();
            if store.follows[n].from == *key {
                let mut posts = collect_posts_of(store, &store.follows[n].to);
                let ghost posts_dv = posts.deep_view();
                out.append(&mut posts);
                proof {
                    assert forall|k: int| 0 <= k < out@.len() implies #[trigger] out.deep_view()[k]
                        == (before + posts_dv)[k] by {
                        assert(out.deep_view()[k] == out@[k]@);
                        if k < before.len() {
                        } else {
                            assert(out@[k]@ == posts_dv[k - before.len()]);
                        }
                    }
                    assert(out.deep_view() =~= before + posts_dv);
                }
            }
            proof {
                assert(out.deep_view() =~= spec_timeline_prefix(*store, key@, n + 1));
            }
            n = n + 1;
        }
        out
    }

    /// The requested page of the account's timeline: every post of every
    /// account it follows, newest posting first.
    pub fn get_timeline(
        record: &Document<Account>,
        page_limit: PageLimit,
        store: &GraphStore,
    ) -> (r: Vec<Document<Note>>)
        ensures
            exists|sorted: Seq<(Option<i64>, DocumentV<NoteV>)>|
                {
                    &&& #[trigger] sorted.to_multiset() == spec_timeline_candidates(
                        *store,
                        record@.key,
                    ).to_multiset()
                    &&& spec_sorted_desc(sorted)
                    &&& r.deep_view().len() == spec_page(sorted, page_limit).len()
                    &&& forall|i: int|
                        0 <= i < r.deep_view().len() ==> (#[trigger] r.deep_view()[i])
                            == spec_page(sorted, page_limit)[i].1
                },
    {
        let rows = Self::collect_timeline(store, &record.key);
        let sorted = sort_rows_desc(rows);
        let ghost sorted_dv = sorted.deep_view();
        let paged = vec_apply_page_limit(sorted, page_limit);
        proof {
            assert(paged.deep_view() =~= spec_page(sorted_dv, page_limit));
        }
        let ghost paged_dv = paged.deep_view();
        let out = strip_keys(paged);
        proof {
            assert forall|i: int| 0 <= i < out.deep_view().len() implies (
            #[trigger] out.deep_view()[i]) == spec_page(sorted_dv, page_limit)[i].1 by {
                assert(out.deep_view()[i] == out@[i]@);
                assert(paged_dv[i] == paged@[i]@);
            }
        }
        out
    }
}

/// The pending follow edges leaving this account among the first `n`.
pub open spec fn spec_pending_from_prefix(s: GraphStore, key: Seq<char>, n: int) -> Seq<
    EdgeV<FollowV>,
>
    decreases n,
{
    if n <= 0 {
        Seq::empty()
    } else {
        let rest = spec_pending_from_prefix(s, key, n - 1);
        let e = s.follows@[n - 1]@;
        if e.from == key && e.record.accepted is None {
            rest.push(e)
        } else {
            rest
        }
    }
}

/// The pending follow edges pointing at this account among the first `n`.
pub open spec fn spec_pending_to_prefix(s: GraphStore, key: Seq<char>, n: int) -> Seq<
    EdgeV<FollowV>,
>
    decreases n,
{
    if n <= 0 {
        Seq::empty()
    } else {
        let rest = spec_pending_to_prefix(s, key, n - 1);
        let e = s.follows@[n - 1]@;
        if e.to == key && e.record.accepted is None {
            rest.push(e)
        } else {
            rest
        }
    }
}

impl Follow {
    /// Creates a follow edge from `actor` to `target`; see
    /// [`GraphStore::link_follow`] for the recorded fields. Requires that
    /// the pair is not linked yet.
    pub fn link(
        actor: &Document<Account>,
        target: &Document<Account>,
        uri: Option<AbsUrl>,
        store: &mut GraphStore,
        now: i64,
    ) -> (r: Edge<Follow>)
        requires
            crate::store::store_wf(*old(store)),
            old(store).next_key < u64::MAX,
            crate::store::spec_find_follow_between(*old(store), actor@.key, target@.key)
                is None,
        ensures
            crate::store::store_wf(*final(store)),
            final(store).follows@.len() == old(store).follows@.len() + 1,
            final(store).follows@.last()@ == r@,
            r@.from == actor@.key,
            r@.to == target@.key,
            r@.record == (FollowV {
                accepted: None,
                from_remote: !crate::model::spec_is_local(actor@.record),
                to_remote: !crate::model::spec_is_local(target@.record),
                uri: uri.deep_view(),
                created_at: Some(now),
            }),
            forall|i: int|
                0 <= i < old(store).follows@.len() ==> final(store).follows@[i] == old(
                    store,
                ).follows@[i],
            final(store).accounts == old(store).accounts,
            final(store).notes == old(store).notes,
            final(store).publishes == old(store).publishes,
            final(store).shares == old(store).shares,
            final(store).likes == old(store).likes,
            final(store).next_key == old(store).next_key + 1,
    {
        store.link_follow(actor, target, uri, now)
    }

    /// The follow edge from `actor` to `target`, or `NotFound`.
    pub fn find_between(
        actor: &Document<Account>,
        target: &Document<Account>,
        store: &GraphStore,
    ) -> (r: Result<Edge<Follow>, Error>)
        ensures
            match crate::store::spec_find_follow_between(*store, actor@.key, target@.key) {
                Some(i) => r is Ok && r->Ok_0@ == store.follows@[i]@,
                None => r is Err && r->Err_0 is NotFound,
            },
    {
        match store.find_follow_between(&actor.key, &target.key) {
            Ok(edge) => Ok(edge.deep_clone()),
            Err(e) => Err(e),
        }
    }

    /// The pending follows this account has sent, in edge order.
    #[verifier::loop_isolation(false)]
    pub fn find_pending_from(from: &Document<Account>, store: &GraphStore) -> (r: Vec<
        Edge<Follow>,
    >)
        ensures
            r.deep_view() == spec_pending_from_prefix(
                *store,
                from@.key,
                store.follows@.len() as int,
            ),
    {
        let mut out: Vec<Edge<Follow>> = Vec::new();
        proof {
            assert(out.deep_view() =~= spec_pending_from_prefix(*store, from@.key, 0));
        }
        let mut n: usize = 0;
        while n < store.follows.len()
            invariant
                n <= store.follows@.len(),
                out.deep_view() == spec_pending_from_prefix(*store, from@.key, n as int),
            decreases store.follows@.len() - n,
        {
            let ghost before = out.deep_view();
            if store.follows[n].from == from.key && store.follows[n].record.accepted.is_none() {
                out.push(store.follows[n].deep_clone());
                proof {
                    assert(out.deep_view() =~= before.push(out@.last()@));
                }
            }
            proof {
                assert(out.deep_view() =~= spec_pending_from_prefix(*store, from@.key, n + 1));
            }
            n = n + 1;
        }
        out
    }

    /// The pending follows this account has received, in edge order.
    #[verifier::loop_isolation(false)]
    pub fn find_pending_to(to: &Document<Account>, store: &GraphStore) -> (r: Vec<Edge<Follow>>)
        ensures
            r.deep_view() == spec_pending_to_prefix(*store, to@.key, store.follows@.len() as int),
    {
        let mut out: Vec<Edge<Follow>> = Vec::new();
        proof {
            assert(out.deep_view() =~= spec_pending_to_prefix(*store, to@.key, 0));
        }
        let mut n: usize = 0;
        while n < store.follows.len()
            invariant
                n <= store.follows@.len(),
                out.deep_view() == spec_pending_to_prefix(*store, to@.key, n as int),
            decreases store.follows@.len() - n,
        {
            let ghost before = out.deep_view();
            if store.follows[n].to == to.key && store.follows[n].record.accepted.is_none() {
                out.push(store.follows[n].deep_clone());
                proof {
                    assert(out.deep_view() =~= before.push(out@.last()@));
                }
            }
            proof {
                assert(out.deep_view() =~= spec_pending_to_prefix(*store, to@.key, n + 1));
            }
            n = n + 1;
        }
        out
    }
}

impl Note {
    /// Publishes a note from `publisher`: stores the note with `from` set
    /// to the publisher's key and creation time stamped, and links a
    /// publish edge from the publisher to the new note.
    pub fn publish(
        publisher: &Document<Account>,
        note: Note,
        store: &mut GraphStore,
        now: i64,
    ) -> (r: Document<Note>)
        requires
            crate::store::store_wf(*old(store)),
            old(store).next_key + 2 <= u64::MAX,
        ensures
            crate::store::store_wf(*final(store)),
            r@.record == GraphStore::note_create_hook(
                NoteV { from: Some(publisher@.key), ..note@ },
                now,
            ),
            final(store).notes@.len() == old(store).notes@.len() + 1,
            final(store).notes@.last()@ == r@,
            final(store).publishes@.len() == old(store).publishes@.len() + 1,
            final(store).publishes@.last()@.from == publisher@.key,
            final(store).publishes@.last()@.to == r@.key,
            final(store).publishes@.last()@.record.created_at == Some(now),
            forall|i: int|
                0 <= i < old(store).notes@.len() ==> final(store).notes@[i] == old(
                    store,
                ).notes@[i],
            forall|i: int|
                0 <= i < old(store).publishes@.len() ==> final(store).publishes@[i] == old(
                    store,
                ).publishes@[i],
            final(store).accounts == old(store).accounts,
            final(store).follows == old(store).follows,
            final(store).shares == old(store).shares,
            final(store).likes == old(store).likes,
            final(store).next_key == old(store).next_key + 2,
    {
        store.publish_note(&publisher.key, note, now)
    }
}

} // verus!
