//! Absolute URLs as plain data, and the origin/path operations the pipeline
//! needs to decide between local and remote entities.

use vstd::prelude::*;

use crate::cache::CacheCell;
use crate::cache::RecordCache;
use crate::cache::cache_wf;
use crate::cache::spec_cache_get;
use crate::errors::Error;
use crate::model::Account;
use crate::model::AccountV;
use crate::model::DeepClone;
use crate::model::Document;
use crate::model::DocumentV;
use crate::model::Note;
use crate::model::NoteV;
use crate::model::account_wf;
use crate::model::spec_is_local;
use crate::page_limit::spec_dec;
use crate::page_limit::decimal_string;
use crate::store::GraphStore;
use crate::store::spec_find_account;
use crate::store::spec_find_note;

verus! {

/// The components of an absolute URL, as a specification value.
#[verifier::ext_equal]
pub struct UrlV {
    pub scheme: Seq<char>,
    pub host: Seq<char>,
    pub port: Option<u16>,
    pub path: Seq<char>,
    pub query: Option<Seq<char>>,
    pub fragment: Option<Seq<char>>,
}

/// An absolute URL held as its components. The scheme and authority name the
/// origin; the path always starts with `/`.
pub struct AbsUrl {
    pub scheme: String,
    pub host: String,
    pub port: Option<u16>,
    pub path: String,
    pub query: Option<String>,
    pub fragment: Option<String>,
}

impl View for AbsUrl {
    type V = UrlV;

    open spec fn view(&self) -> UrlV {
        UrlV {
            scheme: self.scheme@,
            host: self.host@,
            port: self.port,
            path: self.path@,
            query: self.query.deep_view(),
            fragment: self.fragment.deep_view(),
        }
    }
}

impl DeepView for AbsUrl {
    type V = UrlV;

    open spec fn deep_view(&self) -> UrlV {
        self@
    }
}

/// A well-formed absolute URL: nonempty scheme and host, rooted path.
pub open spec fn url_wf(u: UrlV) -> bool {
    &&& u.scheme.len() > 0
    &&& u.host.len() > 0
    &&& u.path.len() > 0
    &&& u.path[0] == '/'
}

/// Whether two URLs share an origin: equal scheme, host and port.
pub open spec fn spec_same_origin(a: UrlV, b: UrlV) -> bool {
    a.scheme == b.scheme && a.host == b.host && a.port == b.port
}

fn clone_opt_string(o: &Option<String>) -> (r: Option<String>)
    ensures
        r.deep_view() == o.deep_view(),
{
    match o {
        Some(s) => Some(s.clone()),
        None => None,
    }
}

impl Clone for AbsUrl {
    fn clone(&self) -> (r: Self)
        ensures
            r@ == self@,
    {
        AbsUrl {
            scheme: self.scheme.clone(),
            host: self.host.clone(),
            port: self.port,
            path: self.path.clone(),
            query: clone_opt_string(&self.query),
            fragment: clone_opt_string(&self.fragment),
        }
    }
}

impl AbsUrl {
    /// Builds a URL from origin parts and a rooted path, with no query or
    /// fragment.
    pub fn from_parts(scheme: String, host: String, port: Option<u16>, path: String) -> (r: AbsUrl)
        ensures
            r@ == (UrlV {
                scheme: scheme@,
                host: host@,
                port,
                path: path@,
                query: None,
                fragment: None,
            }),
    {
        AbsUrl { scheme, host, port, path, query: None, fragment: None }
    }

    /// Whether this URL and `other` share an origin.
    pub fn same_origin(&self, other: &AbsUrl) -> (r: bool)
        ensures
            r == spec_same_origin(self@, other@),
    {
        let ports_equal = match (&self.port, &other.port) {
            (Some(a), Some(b)) => *a == *b,
            (None, None) => true,
            _ => false,
        };
        self.scheme == other.scheme && self.host == other.host && ports_equal
    }

    /// Whether this URL equals `other` in every component.
    pub fn same_as(&self, other: &AbsUrl) -> (r: bool)
        ensures
            r == (self@ == other@),
    {
        let ports_equal = match (&self.port, &other.port) {
            (Some(a), Some(b)) => *a == *b,
            (None, None) => true,
            _ => false,
        };
        let query_equal = match (&self.query, &other.query) {
            (Some(a), Some(b)) => *a == *b,
            (None, None) => true,
            _ => false,
        };
        let fragment_equal = match (&self.fragment, &other.fragment) {
            (Some(a), Some(b)) => *a == *b,
            (None, None) => true,
            _ => false,
        };
        let r = self.scheme == other.scheme && self.host == other.host && ports_equal
            && self.path == other.path && query_equal && fragment_equal;
        proof {
            if r {
                assert(self@ =~= other@);
            }
        }
        r
    }

    /// The same URL with `fragment` as its fragment.
    pub fn with_fragment(&self, fragment: String) -> (r: AbsUrl)
        ensures
            r@ == (UrlV { fragment: Some(fragment@), ..self@ }),
    {
        AbsUrl {
            scheme: self.scheme.clone(),
            host: self.host.clone(),
            port: self.port,
            path: self.path.clone(),
            query: clone_opt_string(&self.query),
            fragment: Some(fragment),
        }
    }

    /// The same URL with `suffix` appended to its path; query and fragment
    /// are kept.
    pub fn with_path_appended(&self, suffix: &str) -> (r: AbsUrl)
        ensures
            r@ == (UrlV { path: self@.path + suffix@, ..self@ }),
    {
        let mut path = self.path.clone();
        path.append(suffix);
        AbsUrl {
            scheme: self.scheme.clone(),
            host: self.host.clone(),
            port: self.port,
            path,
            query: clone_opt_string(&self.query),
            fragment: clone_opt_string(&self.fragment),
        }
    }

    /// This URL rendered as text: scheme, authority, path, then query and
    /// fragment if present.
    pub fn to_text(&self) -> (r: String)
        ensures
            r@ == spec_url_text(self@),
    {
        let mut s = self.scheme.clone();
        s.append("://");
        s.append(self.host.as_str());
        match &self.port {
            Some(p) => {
                s.append(":");
                let dec = decimal_string(*p as u64);
                s.append(dec.as_str());
            },
            None => {},
        }
        s.append(self.path.as_str());
        match &self.query {
            Some(q) => {
                s.append("?");
                s.append(q.as_str());
            },
            None => {},
        }
        match &self.fragment {
            Some(f) => {
                s.append("#");
                s.append(f.as_str());
            },
            None => {},
        }
        proof {
            assert(s@ =~= spec_url_text(self@));
        }
        s
    }
}

/// The textual rendering of a URL value.
pub open spec fn spec_url_text(u: UrlV) -> Seq<char> {
    u.scheme + "://"@ + u.host + (match u.port {
        Some(p) => ":"@ + spec_dec(p as nat),
        None => Seq::<char>::empty(),
    }) + u.path + (match u.query {
        Some(q) => "?"@ + q,
        None => Seq::<char>::empty(),
    }) + (match u.fragment {
        Some(f) => "#"@ + f,
        None => Seq::<char>::empty(),
    })
}

/// The index of the last `/` in `path`, or `-1` if there is none.
pub open spec fn spec_last_slash(path: Seq<char>) -> int
    decreases path.len(),
{
    if path.len() == 0 {
        -1
    } else if path[path.len() - 1] == '/' {
        path.len() - 1
    } else {
        spec_last_slash(path.drop_last())
    }
}

proof fn lemma_last_slash_bounds(path: Seq<char>)
    ensures
        -1 <= spec_last_slash(path) < path.len(),
        spec_last_slash(path) >= 0 ==> path[spec_last_slash(path)] == '/',
        forall|j: int|
            spec_last_slash(path) < j < path.len() ==> path[j] != '/',
        path.len() > 0 && path[0] == '/' ==> spec_last_slash(path) >= 0,
    decreases path.len(),
{
    if path.len() > 0 && path[path.len() - 1] != '/' {
        lemma_last_slash_bounds(path.drop_last());
        assert(forall|j: int|
            spec_last_slash(path) < j < path.len() - 1 ==> path.drop_last()[j] == path[j]
                && path[j] != '/');
    }
}

/// The prefix of `path` up to and including its last `/`.
pub open spec fn spec_dir_prefix(path: Seq<char>) -> Seq<char> {
    path.subrange(0, spec_last_slash(path) + 1)
}

/// The path of `relative` resolved against `base`, as a URL reference that
/// names no scheme or authority: the directory of `base` with `relative`
/// appended.
pub open spec fn spec_joined(base: UrlV, relative: Seq<char>) -> UrlV {
    UrlV {
        scheme: base.scheme,
        host: base.host,
        port: base.port,
        path: spec_dir_prefix(base.path) + relative,
        query: None,
        fragment: None,
    }
}

impl AbsUrl {
    /// Resolves the relative path `relative` against this URL: everything
    /// after the last `/` of this URL's path is replaced by `relative`. The
    /// origin is kept; query and fragment are dropped.
    pub fn join(&self, relative: &str) -> (r: AbsUrl)
        requires
            url_wf(self@),
        ensures
            r@ == spec_joined(self@, relative@),
    {
        proof {
            lemma_last_slash_bounds(self.path@);
        }
        let len = self.path.as_str().unicode_len();
        let mut i = len;
        while i > 0 && self.path.as_str().get_char(i - 1) != '/'
            invariant
                0 <= i <= len,
                len == self.path@.len(),
                url_wf(self@),
                forall|j: int| i <= j < len ==> self.path@[j] != '/',
            decreases i,
        {
            i = i - 1;
        }
        proof {
            assert(i >= 1);
            assert(self.path@[i - 1] == '/');
            assert(spec_last_slash(self.path@) == i - 1) by {
                lemma_last_slash_bounds(self.path@);
                let k = spec_last_slash(self.path@);
                if k < i - 1 {
                    assert(self.path@[i - 1] == '/');
                }
                if k > i - 1 {
                    assert(self.path@[k] == '/');
                }
            }
        }
        let dir = self.path.as_str().substring_char(0, i);
        let mut path = dir.to_owned();
        path.append(relative);
        proof {
            assert(path@ =~= spec_dir_prefix(self.path@) + relative@);
        }
        AbsUrl {
            scheme: self.scheme.clone(),
            host: self.host.clone(),
            port: self.port,
            path,
            query: None,
            fragment: None,
        }
    }
}


/// What `percent_encoded` stands for is computed by the outside encoder;
/// the name means only that equal inputs encode equally.
pub uninterp spec fn percent_encoded(s: Seq<char>) -> Seq<char>;

/// Relies on `urlencoding::encode`: percent-encodes every byte except
/// ASCII alphanumerics and `-`, `_`, `.`, `~`. The result is a function of
/// the input characters alone; an empty input encodes to an empty result.
#[verifier::external_body]
fn encode_component(s: &str) -> (r: String)
    ensures
        r@ == percent_encoded(s@),
        s@.len() == 0 ==> r@.len() == 0,
{
    urlencoding::encode(s).into_owned()
}

/// The URL of an account: its remote URI when it lives elsewhere, and a
/// local `users/{username}` URL under the base otherwise.
pub open spec fn spec_account_url(base: UrlV, a: AccountV) -> UrlV {
    match a.remote {
        Some(rem) => rem.uri,
        None => spec_joined(base, "users/"@ + percent_encoded(a.username)),
    }
}

/// The local URL of an account collection: `users/{username}{suffix}`
/// under the base.
pub open spec fn spec_local_account_url(base: UrlV, username: Seq<char>, suffix: Seq<char>) -> UrlV {
    spec_joined(base, "users/"@ + percent_encoded(username) + suffix)
}

/// URL ownership: an account's URL is within the base exactly when the
/// account is local, as long as remote accounts point outside the base's
/// origin (a remote account whose URI sits on this server's own origin
/// would break this, and the deliverer would loop a message to itself).
pub proof fn lemma_url_ownership(base: UrlV, a: AccountV)
    requires
        account_wf(a),
        a.remote matches Some(rem) ==> !spec_same_origin(base, rem.uri),
    ensures
        spec_same_origin(base, spec_account_url(base, a)) <==> spec_is_local(a),
{
}


/// A claim followed by a fulfill changes only the claimed key's cell.
proof fn lemma_resolve_preserves_account(
    c0: crate::cache::ShortLivedCache<Result<Document<Account>, Error>>,
    c1: crate::cache::ShortLivedCache<Result<Document<Account>, Error>>,
    c2: crate::cache::ShortLivedCache<Result<Document<Account>, Error>>,
    key: Seq<char>,
)
    requires
        cache_wf(c0),
        cache_wf(c1),
        crate::cache::claim_outcome(c0, c1, key, true),
        exists|v: Result<Document<Account>, Error>| crate::cache::fulfill_outcome(c1, c2, key, v),
        spec_cache_get(c1, key) == Some(
            CacheCell::<Result<Document<Account>, Error>>::Pending,
        ),
    ensures
        forall|k2: Seq<char>|
            k2 != key ==> #[trigger] spec_cache_get(c2, k2) == spec_cache_get(c0, k2),
{
    assert forall|k2: Seq<char>| k2 != key implies #[trigger] spec_cache_get(c2, k2)
        == spec_cache_get(c0, k2) by {
        crate::cache::lemma_claim_preserves_other(c0, c1, key, true, k2);
        let v = choose|v: Result<Document<Account>, Error>|
            crate::cache::fulfill_outcome(c1, c2, key, v);
        crate::cache::lemma_fulfill_preserves_other(c1, c2, key, v, k2);
    }
}

/// The same for the note cache.
proof fn lemma_resolve_preserves_note(
    c0: crate::cache::ShortLivedCache<Result<Document<Note>, Error>>,
    c1: crate::cache::ShortLivedCache<Result<Document<Note>, Error>>,
    c2: crate::cache::ShortLivedCache<Result<Document<Note>, Error>>,
    key: Seq<char>,
)
    requires
        cache_wf(c0),
        cache_wf(c1),
        crate::cache::claim_outcome(c0, c1, key, true),
        exists|v: Result<Document<Note>, Error>| crate::cache::fulfill_outcome(c1, c2, key, v),
        spec_cache_get(c1, key) == Some(CacheCell::<Result<Document<Note>, Error>>::Pending),
    ensures
        forall|k2: Seq<char>|
            k2 != key ==> #[trigger] spec_cache_get(c2, k2) == spec_cache_get(c0, k2),
{
    assert forall|k2: Seq<char>| k2 != key implies #[trigger] spec_cache_get(c2, k2)
        == spec_cache_get(c0, k2) by {
        crate::cache::lemma_claim_preserves_other(c0, c1, key, true, k2);
        let v = choose|v: Result<Document<Note>, Error>|
            crate::cache::fulfill_outcome(c1, c2, key, v);
        crate::cache::lemma_fulfill_preserves_other(c1, c2, key, v, k2);
    }
}

/// The request-scoped URL resolver: the configured base URL plus caches
/// that unify account and note lookups for the life of one request.
pub struct Urls {
    pub base_url: AbsUrl,
    pub account_cache: RecordCache<Account>,
    pub note_cache: RecordCache<Note>,
}

/// A healthy resolver: a well-formed base URL and well-formed caches.
pub open spec fn urls_wf(u: Urls) -> bool {
    &&& url_wf(u.base_url@)
    &&& cache_wf(u.account_cache.cache)
    &&& cache_wf(u.note_cache.cache)
}

/// The account the resolver sees for a key: the cached lookup result if
/// one is ready, else the store's record. A cached failure or a cell still
/// being produced resolves to nothing.
pub open spec fn spec_effective_account(u: Urls, s: GraphStore, key: Seq<char>) -> Option<
    DocumentV<AccountV>,
> {
    match spec_cache_get(u.account_cache.cache, key) {
        Some(CacheCell::Ready(Ok(doc))) => Some(doc@),
        Some(CacheCell::Ready(Err(_))) => None,
        Some(CacheCell::Pending) => None,
        None => match spec_find_account(s, key) {
            Some(i) => Some(s.accounts@[i]@),
            None => None,
        },
    }
}

/// The note the resolver sees for a key, in the same way.
pub open spec fn spec_effective_note(u: Urls, s: GraphStore, key: Seq<char>) -> Option<
    DocumentV<NoteV>,
> {
    match spec_cache_get(u.note_cache.cache, key) {
        Some(CacheCell::Ready(Ok(doc))) => Some(doc@),
        Some(CacheCell::Ready(Err(_))) => None,
        Some(CacheCell::Pending) => None,
        None => match spec_find_note(s, key) {
            Some(i) => Some(s.notes@[i]@),
            None => None,
        },
    }
}

impl Urls {
    /// A fresh resolver over the configured base URL.
    pub fn new(base_url: AbsUrl) -> (r: Urls)
        requires
            url_wf(base_url@),
        ensures
            urls_wf(r),
            r.base_url@ == base_url@,
            r.account_cache.cache.entries@.len() == 0,
            r.note_cache.cache.entries@.len() == 0,
    {
        Urls { base_url, account_cache: RecordCache::new(), note_cache: RecordCache::new() }
    }

    /// Whether a URL belongs to this server: it shares the base URL's
    /// origin.
    pub fn is_own_url(&self, url: &AbsUrl) -> (r: bool)
        ensures
            r == spec_same_origin(self.base_url@, url@),
    {
        self.base_url.same_origin(url)
    }

    /// Resolves an account through the cache, looking it up in the store
    /// and caching the result (successful or not) on a miss.
    pub fn resolve_account(&mut self, key: &String, store: &GraphStore) -> (r: Result<
        Document<Account>,
        Error,
    >)
        requires
            urls_wf(*old(self)),
        ensures
            urls_wf(*final(self)),
            final(self).base_url == old(self).base_url,
            final(self).note_cache == old(self).note_cache,
            forall|k2: Seq<char>|
                #[trigger] spec_effective_account(*final(self), *store, k2)
                    == spec_effective_account(*old(self), *store, k2),
            match spec_effective_account(*old(self), *store, key@) {
                Some(doc) => r is Ok && r->Ok_0@ == doc,
                None => r is Err,
            },
    {
        if self.account_cache.claim(key) {
            let ghost c1 = self.account_cache.cache;
            proof {
                crate::cache::lemma_claim_won_pending(
                    old(self).account_cache.cache,
                    self.account_cache.cache,
                    key@,
                );
            }
            match store.find_account(key) {
                Ok(found) => {
                    let doc = found.deep_clone();
                    self.account_cache.fulfill(key, Ok(doc.deep_clone()));
                    proof {
                        lemma_resolve_preserves_account(
                            old(self).account_cache.cache,
                            c1,
                            self.account_cache.cache,
                            key@,
                        );
                    }
                    Ok(doc)
                },
                Err(e) => {
                    self.account_cache.fulfill(key, Err(e));
                    proof {
                        lemma_resolve_preserves_account(
                            old(self).account_cache.cache,
                            c1,
                            self.account_cache.cache,
                            key@,
                        );
                    }
                    Err(
                        Error::NotFound {
                            model: String::from_str("Account"),
                            params: Vec::new(),
                        },
                    )
                },
            }
        } else {
            match self.account_cache.get_ready(key) {
                Some(Ok(doc)) => Ok(doc.deep_clone()),
                Some(Err(_)) => Err(
                    Error::NotFound { model: String::from_str("Account"), params: Vec::new() },
                ),
                None => Err(
                    Error::InternalError(String::from_str("account lookup still in progress")),
                ),
            }
        }
    }

    /// Resolves a note through the cache, in the same way.
    pub fn resolve_note(&mut self, key: &String, store: &GraphStore) -> (r: Result<
        Document<Note>,
        Error,
    >)
        requires
            urls_wf(*old(self)),
        ensures
            urls_wf(*final(self)),
            final(self).base_url == old(self).base_url,
            final(self).account_cache == old(self).account_cache,
            forall|k2: Seq<char>|
                #[trigger] spec_effective_note(*final(self), *store, k2) == spec_effective_note(
                    *old(self),
                    *store,
                    k2,
                ),
            match spec_effective_note(*old(self), *store, key@) {
                Some(doc) => r is Ok && r->Ok_0@ == doc,
                None => r is Err,
            },
    {
        if self.note_cache.claim(key) {
            let ghost c1 = self.note_cache.cache;
            proof {
                crate::cache::lemma_claim_won_pending(
                    old(self).note_cache.cache,
                    self.note_cache.cache,
                    key@,
                );
            }
            match store.find_note(key) {
                Ok(found) => {
                    let doc = found.deep_clone();
                    self.note_cache.fulfill(key, Ok(doc.deep_clone()));
                    proof {
                        lemma_resolve_preserves_note(
                            old(self).note_cache.cache,
                            c1,
                            self.note_cache.cache,
                            key@,
                        );
                    }
                    Ok(doc)
                },
                Err(e) => {
                    self.note_cache.fulfill(key, Err(e));
                    proof {
                        lemma_resolve_preserves_note(
                            old(self).note_cache.cache,
                            c1,
                            self.note_cache.cache,
                            key@,
                        );
                    }
                    Err(
                        Error::NotFound { model: String::from_str("Note"), params: Vec::new() },
                    )
                },
            }
        } else {
            match self.note_cache.get_ready(key) {
                Some(Ok(doc)) => Ok(doc.deep_clone()),
                Some(Err(_)) => Err(
                    Error::NotFound { model: String::from_str("Note"), params: Vec::new() },
                ),
                None => Err(
                    Error::InternalError(String::from_str("note lookup still in progress")),
                ),
            }
        }
    }

    /// The URL of an account: its remote URI, or a local `users/{username}`
    /// URL built under the base.
    pub fn url_for_account(&mut self, key: &String, store: &GraphStore) -> (r: Result<
        AbsUrl,
        Error,
    >)
        requires
            urls_wf(*old(self)),
        ensures
            urls_wf(*final(self)),
            final(self).base_url == old(self).base_url,
            final(self).note_cache == old(self).note_cache,
            forall|k2: Seq<char>|
                #[trigger] spec_effective_account(*final(self), *store, k2)
                    == spec_effective_account(*old(self), *store, k2),
            match spec_effective_account(*old(self), *store, key@) {
                Some(doc) => r is Ok && r->Ok_0@ == spec_account_url(
                    old(self).base_url@,
                    doc.record,
                ),
                None => r is Err,
            },
    {
        let account = match self.resolve_account(key, store) {
            Ok(doc) => doc,
            Err(e) => {
                return Err(e);
            },
        };
        match &account.record.remote {
            Some(rem) => Ok(rem.uri.clone()),
            None => {
                let mut rel = String::from_str("users/");
                let encoded = encode_component(account.record.username.as_str());
                rel.append(encoded.as_str());
                let url = self.base_url.join(rel.as_str());
                proof {
                    assert(rel@ =~= "users/"@ + percent_encoded(account.record.username@));
                }
                Ok(url)
            },
        }
    }
}



/// Which account a key resolves to depends only on the account cache and
/// the store.
pub broadcast proof fn lemma_effective_account_same_cache(
    u1: Urls,
    u2: Urls,
    s: GraphStore,
    k: Seq<char>,
)
    requires
        u1.account_cache == u2.account_cache,
    ensures
        #![trigger spec_effective_account(u1, s, k), spec_effective_account(u2, s, k)]
        spec_effective_account(u1, s, k) == spec_effective_account(u2, s, k),
{
}

/// Which note a key resolves to depends only on the note cache and the
/// store.
pub broadcast proof fn lemma_effective_note_same_cache(
    u1: Urls,
    u2: Urls,
    s: GraphStore,
    k: Seq<char>,
)
    requires
        u1.note_cache == u2.note_cache,
    ensures
        #![trigger spec_effective_note(u1, s, k), spec_effective_note(u2, s, k)]
        spec_effective_note(u1, s, k) == spec_effective_note(u2, s, k),
{
}

impl Urls {
    /// A local collection URL: `users/{username}{suffix}` under the base.
    fn local_suffix_url(&self, username: &String, suffix: &str) -> (r: AbsUrl)
        requires
            urls_wf(*self),
        ensures
            r@ == spec_local_account_url(self.base_url@, username@, suffix@),
    {
        let mut rel = String::from_str("users/");
        let encoded = encode_component(username.as_str());
        rel.append(encoded.as_str());
        rel.append(suffix);
        let url = self.base_url.join(rel.as_str());
        proof {
            assert(rel@ =~= "users/"@ + percent_encoded(username@) + suffix@);
        }
        url
    }

    /// The URL of an account's inbox: the remote inbox if the account
    /// lives elsewhere and reported one, else the local inbox under the
    /// base; a remote account without a reported inbox cannot be resolved.
    pub fn url_for_account_inbox(&mut self, key: &String, store: &GraphStore) -> (r: Result<
        AbsUrl,
        Error,
    >)
        requires
            urls_wf(*old(self)),
        ensures
            urls_wf(*final(self)),
            final(self).base_url == old(self).base_url,
            final(self).note_cache == old(self).note_cache,
            forall|k2: Seq<char>|
                #[trigger] spec_effective_account(*final(self), *store, k2)
                    == spec_effective_account(*old(self), *store, k2),
            match spec_effective_account(*old(self), *store, key@) {
                Some(doc) => match doc.record.remote {
                    Some(rem) => match rem.inbox {
                        Some(u) => r is Ok && r->Ok_0@ == u,
                        None => r is Err && r->Err_0 is InternalError,
                    },
                    None => r is Ok && r->Ok_0@ == spec_local_account_url(
                        old(self).base_url@,
                        doc.record.username,
                        "/inbox"@,
                    ),
                },
                None => r is Err,
            },
    {
        let account = match self.resolve_account(key, store) {
            Ok(doc) => doc,
            Err(e) => {
                return Err(e);
            },
        };
        match &account.record.remote {
            Some(rem) => match &rem.inbox {
                Some(u) => Ok(u.clone()),
                None => Err(
                    Error::InternalError(
                        String::from_str(
                            "can't build an inbox url for a remote account without one",
                        ),
                    ),
                ),
            },
            None => Ok(self.local_suffix_url(&account.record.username, "/inbox")),
        }
    }

    /// The URL of an account's outbox, like the inbox.
    pub fn url_for_account_outbox(&mut self, key: &String, store: &GraphStore) -> (r: Result<
        AbsUrl,
        Error,
    >)
        requires
            urls_wf(*old(self)),
        ensures
            urls_wf(*final(self)),
            final(self).base_url == old(self).base_url,
            final(self).note_cache == old(self).note_cache,
            forall|k2: Seq<char>|
                #[trigger] spec_effective_account(*final(self), *store, k2)
                    == spec_effective_account(*old(self), *store, k2),
            match spec_effective_account(*old(self), *store, key@) {
                Some(doc) => match doc.record.remote {
                    Some(rem) => match rem.outbox {
                        Some(u) => r is Ok && r->Ok_0@ == u,
                        None => r is Err && r->Err_0 is InternalError,
                    },
                    None => r is Ok && r->Ok_0@ == spec_local_account_url(
                        old(self).base_url@,
                        doc.record.username,
                        "/outbox"@,
                    ),
                },
                None => r is Err,
            },
    {
        let account = match self.resolve_account(key, store) {
            Ok(doc) => doc,
            Err(e) => {
                return Err(e);
            },
        };
        match &account.record.remote {
            Some(rem) => match &rem.outbox {
                Some(u) => Ok(u.clone()),
                None => Err(
                    Error::InternalError(
                        String::from_str(
                            "can't build an outbox url for a remote account without one",
                        ),
                    ),
                ),
            },
            None => Ok(self.local_suffix_url(&account.record.username, "/outbox")),
        }
    }

    /// The URL of an account's followers collection, like the inbox.
    pub fn url_for_account_followers(&mut self, key: &String, store: &GraphStore) -> (r: Result<
        AbsUrl,
        Error,
    >)
        requires
            urls_wf(*old(self)),
        ensures
            urls_wf(*final(self)),
            final(self).base_url == old(self).base_url,
            final(self).note_cache == old(self).note_cache,
            forall|k2: Seq<char>|
                #[trigger] spec_effective_account(*final(self), *store, k2)
                    == spec_effective_account(*old(self), *store, k2),
            match spec_effective_account(*old(self), *store, key@) {
                Some(doc) => match doc.record.remote {
                    Some(rem) => match rem.followers {
                        Some(u) => r is Ok && r->Ok_0@ == u,
                        None => r is Err && r->Err_0 is InternalError,
                    },
                    None => r is Ok && r->Ok_0@ == spec_local_account_url(
                        old(self).base_url@,
                        doc.record.username,
                        "/followers"@,
                    ),
                },
                None => r is Err,
            },
    {
        let account = match self.resolve_account(key, store) {
            Ok(doc) => doc,
            Err(e) => {
                return Err(e);
            },
        };
        match &account.record.remote {
            Some(rem) => match &rem.followers {
                Some(u) => Ok(u.clone()),
                None => Err(
                    Error::InternalError(
                        String::from_str(
                            "can't build a followers url for a remote account without one",
                        ),
                    ),
                ),
            },
            None => Ok(self.local_suffix_url(&account.record.username, "/followers")),
        }
    }

    /// The URL of an account's following collection, like the inbox.
    pub fn url_for_account_following(&mut self, key: &String, store: &GraphStore) -> (r: Result<
        AbsUrl,
        Error,
    >)
        requires
            urls_wf(*old(self)),
        ensures
            urls_wf(*final(self)),
            final(self).base_url == old(self).base_url,
            final(self).note_cache == old(self).note_cache,
            forall|k2: Seq<char>|
                #[trigger] spec_effective_account(*final(self), *store, k2)
                    == spec_effective_account(*old(self), *store, k2),
            match spec_effective_account(*old(self), *store, key@) {
                Some(doc) => match doc.record.remote {
                    Some(rem) => match rem.following {
                        Some(u) => r is Ok && r->Ok_0@ == u,
                        None => r is Err && r->Err_0 is InternalError,
                    },
                    None => r is Ok && r->Ok_0@ == spec_local_account_url(
                        old(self).base_url@,
                        doc.record.username,
                        "/following"@,
                    ),
                },
                None => r is Err,
            },
    {
        let account = match self.resolve_account(key, store) {
            Ok(doc) => doc,
            Err(e) => {
                return Err(e);
            },
        };
        match &account.record.remote {
            Some(rem) => match &rem.following {
                Some(u) => Ok(u.clone()),
                None => Err(
                    Error::InternalError(
                        String::from_str(
                            "can't build a following url for a remote account without one",
                        ),
                    ),
                ),
            },
            None => Ok(self.local_suffix_url(&account.record.username, "/following")),
        }
    }

    /// A page of a local account collection: `users/{username}{middle}{n}`
    /// under the base; pages exist only for local accounts.
    fn local_page_url(&self, username: &String, middle: &str, page: u32) -> (r: AbsUrl)
        requires
            urls_wf(*self),
        ensures
            r@ == spec_local_account_url(
                self.base_url@,
                username@,
                middle@ + crate::page_limit::spec_dec(page as nat),
            ),
    {
        let mut suffix = String::from_str(middle);
        let dec = decimal_string(page as u64);
        suffix.append(dec.as_str());
        let url = self.local_suffix_url(username, suffix.as_str());
        proof {
            assert(suffix@ =~= middle@ + crate::page_limit::spec_dec(page as nat));
            assert("users/"@ + percent_encoded(username@) + suffix@ =~= "users/"@
                + percent_encoded(username@) + (middle@ + crate::page_limit::spec_dec(
                page as nat,
            )));
        }
        url
    }

    /// The URL of one page of an account's outbox; remote accounts have no
    /// local pages.
    pub fn url_for_account_outbox_page(
        &mut self,
        key: &String,
        page: u32,
        store: &GraphStore,
    ) -> (r: Result<AbsUrl, Error>)
        requires
            urls_wf(*old(self)),
        ensures
            urls_wf(*final(self)),
            final(self).base_url == old(self).base_url,
            final(self).note_cache == old(self).note_cache,
            forall|k2: Seq<char>|
                #[trigger] spec_effective_account(*final(self), *store, k2)
                    == spec_effective_account(*old(self), *store, k2),
            match spec_effective_account(*old(self), *store, key@) {
                Some(doc) => if doc.record.remote is Some {
                    r is Err && r->Err_0 is InternalError
                } else {
                    r is Ok && r->Ok_0@ == spec_local_account_url(
                        old(self).base_url@,
                        doc.record.username,
                        "/outbox/page/"@ + crate::page_limit::spec_dec(page as nat),
                    )
                },
                None => r is Err,
            },
    {
        let account = match self.resolve_account(key, store) {
            Ok(doc) => doc,
            Err(e) => {
                return Err(e);
            },
        };
        if account.record.remote.is_some() {
            Err(
                Error::InternalError(
                    String::from_str("can't build an outbox page url for a remote account"),
                ),
            )
        } else {
            Ok(self.local_page_url(&account.record.username, "/outbox/page/", page))
        }
    }

    /// The URL of one page of an account's followers collection.
    pub fn url_for_account_followers_page(
        &mut self,
        key: &String,
        page: u32,
        store: &GraphStore,
    ) -> (r: Result<AbsUrl, Error>)
        requires
            urls_wf(*old(self)),
        ensures
            urls_wf(*final(self)),
            final(self).base_url == old(self).base_url,
            final(self).note_cache == old(self).note_cache,
            forall|k2: Seq<char>|
                #[trigger] spec_effective_account(*final(self), *store, k2)
                    == spec_effective_account(*old(self), *store, k2),
            match spec_effective_account(*old(self), *store, key@) {
                Some(doc) => if doc.record.remote is Some {
                    r is Err && r->Err_0 is InternalError
                } else {
                    r is Ok && r->Ok_0@ == spec_local_account_url(
                        old(self).base_url@,
                        doc.record.username,
                        "/followers/page/"@ + crate::page_limit::spec_dec(page as nat),
                    )
                },
                None => r is Err,
            },
    {
        let account = match self.resolve_account(key, store) {
            Ok(doc) => doc,
            Err(e) => {
                return Err(e);
            },
        };
        if account.record.remote.is_some() {
            Err(
                Error::InternalError(
                    String::from_str("can't build a followers page url for a remote account"),
                ),
            )
        } else {
            Ok(self.local_page_url(&account.record.username, "/followers/page/", page))
        }
    }

    /// The URL of one page of an account's following collection.
    pub fn url_for_account_following_page(
        &mut self,
        key: &String,
        page: u32,
        store: &GraphStore,
    ) -> (r: Result<AbsUrl, Error>)
        requires
            urls_wf(*old(self)),
        ensures
            urls_wf(*final(self)),
            final(self).base_url == old(self).base_url,
            final(self).note_cache == old(self).note_cache,
            forall|k2: Seq<char>|
                #[trigger] spec_effective_account(*final(self), *store, k2)
                    == spec_effective_account(*old(self), *store, k2),
            match spec_effective_account(*old(self), *store, key@) {
                Some(doc) => if doc.record.remote is Some {
                    r is Err && r->Err_0 is InternalError
                } else {
                    r is Ok && r->Ok_0@ == spec_local_account_url(
                        old(self).base_url@,
                        doc.record.username,
                        "/following/page/"@ + crate::page_limit::spec_dec(page as nat),
                    )
                },
                None => r is Err,
            },
    {
        let account = match self.resolve_account(key, store) {
            Ok(doc) => doc,
            Err(e) => {
                return Err(e);
            },
        };
        if account.record.remote.is_some() {
            Err(
                Error::InternalError(
                    String::from_str("can't build a following page url for a remote account"),
                ),
            )
        } else {
            Ok(self.local_page_url(&account.record.username, "/following/page/", page))
        }
    }

    /// The URL of a note: its remote URI, or its publisher's URL with
    /// `/notes/{key}` appended.
    pub fn url_for_note(&mut self, key: &String, store: &GraphStore) -> (r: Result<AbsUrl, Error>)
        requires
            urls_wf(*old(self)),
        ensures
            urls_wf(*final(self)),
            final(self).base_url == old(self).base_url,
            forall|k2: Seq<char>|
                #[trigger] spec_effective_account(*final(self), *store, k2)
                    == spec_effective_account(*old(self), *store, k2),
            forall|k2: Seq<char>|
                #[trigger] spec_effective_note(*final(self), *store, k2) == spec_effective_note(
                    *old(self),
                    *store,
                    k2,
                ),
            match spec_effective_note(*old(self), *store, key@) {
                Some(n) => match n.record.remote {
                    Some(rem) => r is Ok && r->Ok_0@ == rem.uri,
                    None => match n.record.from {
                        None => r is Err && r->Err_0 is InternalError,
                        Some(from) => match spec_effective_account(*old(self), *store, from) {
                            Some(a) => r is Ok && r->Ok_0@ == (UrlV {
                                path: spec_account_url(old(self).base_url@, a.record).path
                                    + "/notes/"@ + percent_encoded(key@),
                                ..spec_account_url(old(self).base_url@, a.record)
                            }),
                            None => r is Err,
                        },
                    },
                },
                None => r is Err,
            },
    {
        let ghost u0 = *old(self);
        let note = match self.resolve_note(key, store) {
            Ok(doc) => doc,
            Err(e) => {
                proof {
                    assert forall|k2: Seq<char>|
                        #[trigger] spec_effective_account(*self, *store, k2)
                            == spec_effective_account(u0, *store, k2) by {
                        lemma_effective_account_same_cache(*self, u0, *store, k2);
                    }
                }
                return Err(e);
            },
        };
        let ghost u1 = *self;
        proof {
            assert forall|k2: Seq<char>|
                #[trigger] spec_effective_account(u1, *store, k2) == spec_effective_account(
                    u0,
                    *store,
                    k2,
                ) by {
                lemma_effective_account_same_cache(u1, u0, *store, k2);
            }
        }
        match &note.record.remote {
            Some(rem) => Ok(rem.uri.clone()),
            None => {
                let from = match &note.record.from {
                    Some(f) => f.clone(),
                    None => {
                        return Err(Error::InternalError(String::from_str("note.from is missing")));
                    },
                };
                let account_url_res = self.url_for_account(&from, store);
                let ghost u2 = *self;
                proof {
                    assert forall|k2: Seq<char>|
                        #[trigger] spec_effective_note(u2, *store, k2) == spec_effective_note(
                            u1,
                            *store,
                            k2,
                        ) by {
                        lemma_effective_note_same_cache(u2, u1, *store, k2);
                    }
                }
                let account_url = match account_url_res {
                    Ok(u) => u,
                    Err(e) => {
                        return Err(e);
                    },
                };
                let mut suffix = String::from_str("/notes/");
                let encoded = encode_component(key.as_str());
                suffix.append(encoded.as_str());
                let url = account_url.with_path_appended(suffix.as_str());
                proof {
                    assert(suffix@ =~= "/notes/"@ + percent_encoded(key@));
                }
                Ok(url)
            },
        }
    }

    /// The URL of the server's shared inbox: `inbox` under the base.
    pub fn url_for_shared_inbox(&self) -> (r: AbsUrl)
        requires
            urls_wf(*self),
        ensures
            r@ == spec_joined(self.base_url@, "inbox"@),
    {
        self.base_url.join("inbox")
    }
}


/// Whether `name` is the username in a path that ends with
/// `/users/{name}`: the name is nonempty, holds no slash, and follows a
/// literal `/users/` segment at the end of the path.
pub open spec fn spec_users_path_name(path: Seq<char>, name: Seq<char>) -> bool {
    &&& name.len() > 0
    &&& !name.contains('/')
    &&& path.len() >= name.len() + 7
    &&& path.subrange(path.len() - name.len(), path.len() as int) == name
    &&& path.subrange(path.len() - name.len() - 7, path.len() - name.len()) == "/users/"@
}

/// Any name that matches ends exactly at the path's last slash.
proof fn lemma_users_path_name_at_last_slash(path: Seq<char>, name: Seq<char>)
    requires
        spec_users_path_name(path, name),
    ensures
        spec_last_slash(path) == path.len() - name.len() - 1,
{
    reveal_strlit("/users/");
    let k = path.len() - name.len() - 1;
    assert(path[k] == "/users/"@[6]);
    assert(path[k] == '/');
    assert forall|j: int| k < j < path.len() implies path[j] != '/' by {
        assert(path[j] == name[j - (k + 1)]);
        if path[j] == '/' {
            assert(name.contains('/'));
        }
    }
    lemma_last_slash_bounds(path);
    let m = spec_last_slash(path);
    if m < k {
        assert(path[k] == '/');
    }
    if m > k {
        assert(path[m] == '/');
    }
}

/// Extracts the username from a path ending in `/users/{username}`, if the
/// path has that shape: how inbound actor URLs on this server are read.
#[verifier::loop_isolation(false)]
pub fn username_from_users_path(path: &str) -> (r: Option<String>)
    ensures
        match r {
            Some(u) => spec_users_path_name(path@, u@),
            None => forall|n: Seq<char>| !spec_users_path_name(path@, n),
        },
{
    proof {
        reveal_strlit("/users/");
    }
    let len = path.unicode_len();
    let mut i = len;
    while i > 0 && path.get_char(i - 1) != '/'
        invariant
            0 <= i <= len,
            forall|j: int| i <= j < len ==> path@[j] != '/',
        decreases i,
    {
        i = i - 1;
    }
    if i == 0 {
        proof {
            assert forall|n: Seq<char>| !spec_users_path_name(path@, n) by {
                if spec_users_path_name(path@, n) {
                    lemma_users_path_name_at_last_slash(path@, n);
                    lemma_last_slash_bounds(path@);
                    assert(path@[path@.len() - n.len() - 1] == '/');
                }
            }
        }
        return None;
    }
    proof {
        assert(path@[i - 1] == '/');
        assert(spec_last_slash(path@) == i - 1) by {
            lemma_last_slash_bounds(path@);
            let m = spec_last_slash(path@);
            if m < i - 1 {
                assert(path@[i - 1] == '/');
            }
            if m > i - 1 {
                assert(path@[m] == '/');
            }
        }
    }
    if i == len {
        proof {
            assert forall|n: Seq<char>| !spec_users_path_name(path@, n) by {
                if spec_users_path_name(path@, n) {
                    lemma_users_path_name_at_last_slash(path@, n);
                }
            }
        }
        return None;
    }
    if i < 7 {
        proof {
            assert forall|n: Seq<char>| !spec_users_path_name(path@, n) by {
                if spec_users_path_name(path@, n) {
                    lemma_users_path_name_at_last_slash(path@, n);
                }
            }
        }
        return None;
    }
    let seg_ok = path.get_char(i - 7) == '/' && path.get_char(i - 6) == 'u' && path.get_char(
        i - 5,
    ) == 's' && path.get_char(i - 4) == 'e' && path.get_char(i - 3) == 'r' && path.get_char(i - 2)
        == 's' && path.get_char(i - 1) == '/';
    if !seg_ok {
        proof {
            assert forall|n: Seq<char>| !spec_users_path_name(path@, n) by {
                if spec_users_path_name(path@, n) {
                    lemma_users_path_name_at_last_slash(path@, n);
                    assert(n.len() == path@.len() - i);
                    let seg = path@.subrange(i - 7, i as int);
                    assert(seg == "/users/"@);
                    assert(path@[i - 7] == seg[0] && seg[0] == '/');
                    assert(path@[i - 6] == seg[1] && seg[1] == 'u');
                    assert(path@[i - 5] == seg[2] && seg[2] == 's');
                    assert(path@[i - 4] == seg[3] && seg[3] == 'e');
                    assert(path@[i - 3] == seg[4] && seg[4] == 'r');
                    assert(path@[i - 2] == seg[5] && seg[5] == 's');
                    assert(path@[i - 1] == seg[6] && seg[6] == '/');
                }
            }
        }
        return None;
    }
    let name = path.substring_char(i, len).to_owned();
    proof {
        assert(path@.subrange(i as int, len as int) == name@);
        assert(name@.len() == len - i);
        assert forall|t: int| 0 <= t < name@.len() implies name@[t] != '/' by {
            assert(name@[t] == path@[i + t]);
        }
        if name@.contains('/') {
            let w = choose|w: int| 0 <= w < name@.len() && name@[w] == '/';
            assert(false);
        }
        assert(path@.subrange(path@.len() - name@.len() - 7, path@.len() - name@.len()) =~= "/users/"@)
            by {
            assert forall|t: int| 0 <= t < 7 implies path@.subrange(
                path@.len() - name@.len() - 7,
                path@.len() - name@.len(),
            )[t] == "/users/"@[t] by {
                assert(path@.subrange(
                    path@.len() - name@.len() - 7,
                    path@.len() - name@.len(),
                )[t] == path@[i - 7 + t]);
            }
        }
        assert(spec_users_path_name(path@, name@));
    }
    Some(name)
}


/// The webfinger resource query for a handle:
/// `resource={scheme}:{username}@{domain}`, each part percent-encoded.
pub fn webfinger_resource(scheme: &String, username: &String, domain: &String) -> (r: String)
    ensures
        r@ == "resource="@ + percent_encoded(scheme@) + ":"@ + percent_encoded(username@) + "@"@
            + percent_encoded(domain@),
{
    let mut s = String::from_str("resource=");
    let enc_scheme = encode_component(scheme.as_str());
    s.append(enc_scheme.as_str());
    s.append(":");
    let enc_username = encode_component(username.as_str());
    s.append(enc_username.as_str());
    s.append("@");
    let enc_domain = encode_component(domain.as_str());
    s.append(enc_domain.as_str());
    proof {
        assert(s@ =~= "resource="@ + percent_encoded(scheme@) + ":"@ + percent_encoded(username@)
            + "@"@ + percent_encoded(domain@));
    }
    s
}

/// The well-known webfinger URL on a peer's domain, carrying the resource
/// query for the handle being resolved.
pub fn webfinger_url(domain: String, https: bool, resource: String) -> (r: AbsUrl)
    ensures
        r@.scheme == (if https {
            "https"@
        } else {
            "http"@
        }),
        r@.host == domain@,
        r@.port is None,
        r@.path == "/.well-known/webfinger"@,
        r@.query == Some(resource@),
        r@.fragment is None,
{
    let scheme = if https {
        String::from_str("https")
    } else {
        String::from_str("http")
    };
    AbsUrl {
        scheme,
        host: domain,
        port: None,
        path: String::from_str("/.well-known/webfinger"),
        query: Some(resource),
        fragment: None,
    }
}


/// The base URL derived from the configured domain and port when none is
/// given outright: `http://{domain}:{port}/`.
pub fn default_base_url(domain: String, port: u16) -> (r: AbsUrl)
    ensures
        r@ == (UrlV {
            scheme: "http"@,
            host: domain@,
            port: Some(port),
            path: "/"@,
            query: None,
            fragment: None,
        }),
        url_wf(r@) <==> domain@.len() > 0,
{
    proof {
        reveal_strlit("http");
        reveal_strlit("/");
    }
    AbsUrl {
        scheme: String::from_str("http"),
        host: domain,
        port: Some(port),
        path: String::from_str("/"),
        query: None,
        fragment: None,
    }
}

/// Whether a webfinger query is ours to answer: the scheme must be
/// `acct:` and the domain must be this server's own.
pub fn webfinger_applies(scheme: Option<&String>, domain: &String, own_domain: &String) -> (r:
    bool)
    ensures
        r == (scheme matches Some(s) && s@ == "acct:"@ && domain@ == own_domain@),
{
    let scheme_ok = match scheme {
        Some(s) => *s == String::from_str("acct:"),
        None => false,
    };
    scheme_ok && *domain == *own_domain
}

/// The webfinger subject for a handle: `{account}@{domain}`.
pub fn webfinger_subject(account: &String, domain: &String) -> (r: String)
    ensures
        r@ == account@ + "@"@ + domain@,
{
    let mut s = account.clone();
    s.append("@");
    s.append(domain.as_str());
    proof {
        assert(s@ =~= account@ + "@"@ + domain@);
    }
    s
}

} // verus!
