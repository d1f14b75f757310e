//! ActivityStreams documents as plain data, and the verified builders that
//! render accounts, notes and follows into them. The unverified shell only
//! turns these documents into wire JSON.

use vstd::prelude::*;

use crate::errors::Error;
use crate::model::Account;
use crate::model::AccountV;
use crate::model::DeepClone;
use crate::model::Document;
use crate::model::Edge;
use crate::model::Follow;
use crate::model::Recipient;
use crate::model::RemoteAccountInfo;
use crate::model::account_wf;
use crate::model::clone_opt;
use crate::page_limit::PageLimit;
use crate::store::GraphStore;
use crate::urls::AbsUrl;
use crate::urls::Urls;
use crate::urls::UrlV;
use crate::urls::spec_account_url;
use crate::urls::spec_effective_account;
use crate::urls::spec_effective_note;
use crate::urls::urls_wf;

verus! {

/// The ActivityStreams public collection.
pub fn as_public_url() -> (r: AbsUrl)
    ensures
        r@ == spec_public_url(),
{
    let r = AbsUrl {
        scheme: String::from_str("https"),
        host: String::from_str("www.w3.org"),
        port: None,
        path: String::from_str("/ns/activitystreams"),
        query: None,
        fragment: Some(String::from_str("Public")),
    };
    proof {
        assert(r@ =~= spec_public_url());
    }
    r
}

/// The value of the ActivityStreams public collection URL.
pub open spec fn spec_public_url() -> UrlV {
    UrlV {
        scheme: "https"@,
        host: "www.w3.org"@,
        port: None,
        path: "/ns/activitystreams"@,
        query: None,
        fragment: Some("Public"@),
    }
}

/// An actor document on the wire: what a fetched person carries, and what
/// a local account renders to.
pub struct ActorDoc {
    /// The actor's id URL; mandatory on real documents.
    pub id: Option<AbsUrl>,
    /// The actor's preferred username; mandatory on real documents.
    pub preferred_username: Option<String>,
    /// The actor's display name.
    pub name: Option<String>,
    /// The actor's inbox.
    pub inbox: AbsUrl,
    /// The actor's outbox.
    pub outbox: AbsUrl,
    /// The actor's followers collection.
    pub followers: Option<AbsUrl>,
    /// The actor's following collection.
    pub following: Option<AbsUrl>,
    /// The server-wide shared inbox.
    pub shared_inbox: Option<AbsUrl>,
    /// When the actor was published.
    pub published: Option<i64>,
    /// When the actor was last updated.
    pub updated: Option<i64>,
}

/// Converts a fetched actor document into an account record: the username
/// and id are required; the domain is the id's host, and every remote URL
/// the document names is kept. Fails with `ConversionMissingField` exactly
/// when the id or the preferred username is missing.
pub fn account_from_actor_doc(doc: &ActorDoc) -> (r: Result<Account, Error>)
    ensures
        doc.id is None || doc.preferred_username is None ==> r is Err && r->Err_0
            is ConversionMissingField,
        doc.id is Some && doc.preferred_username is Some ==> r is Ok && {
            let a = r->Ok_0@;
            &&& a.username == doc.preferred_username->0@
            &&& a.domain == Some(doc.id->0@.host)
            &&& a.remote matches Some(rem) && {
                &&& rem.uri == doc.id->0@
                &&& rem.last_fetched_at is None
                &&& rem.inbox == Some(doc.inbox@)
                &&& rem.outbox == Some(doc.outbox@)
                &&& rem.followers == doc.followers.deep_view()
                &&& rem.following == doc.following.deep_view()
            }
            &&& a.created_at == doc.published
            &&& a.updated_at == doc.updated
            &&& account_wf(a)
        },
{
    let id = match &doc.id {
        Some(id) => id,
        None => {
            return Err(Error::ConversionMissingField(String::from_str("id")));
        },
    };
    let username = match &doc.preferred_username {
        Some(u) => u.clone(),
        None => {
            return Err(Error::ConversionMissingField(String::from_str("preferred_username")));
        },
    };
    Ok(
        Account {
            username,
            domain: Some(id.host.clone()),
            remote: Some(
                RemoteAccountInfo {
                    uri: id.clone(),
                    last_fetched_at: None,
                    inbox: Some(doc.inbox.clone()),
                    outbox: Some(doc.outbox.clone()),
                    followers: clone_opt(&doc.followers),
                    following: clone_opt(&doc.following),
                },
            ),
            created_at: doc.published,
            updated_at: doc.updated,
        },
    )
}

/// Whether an account renders to an actor document: the account must
/// resolve, and a remote account must have reported all four of its
/// collection URLs; a local account always renders.
pub open spec fn spec_actor_renderable(u: Urls, s: GraphStore, key: Seq<char>) -> bool {
    match spec_effective_account(u, s, key) {
        None => false,
        Some(a) => match a.record.remote {
            None => true,
            Some(rem) => rem.inbox is Some && rem.outbox is Some && rem.followers is Some
                && rem.following is Some,
        },
    }
}

/// Renders an account into an actor document: the id and collection URLs
/// come from the resolver, the username doubles as the display name, and
/// the shared inbox is the server-wide one. Rendering succeeds exactly
/// when the account resolves and, if remote, reported all of its
/// collection URLs.
pub fn account_to_actor_doc(doc: &Document<Account>, urls: &mut Urls, store: &GraphStore) -> (r:
    Result<ActorDoc, Error>)
    requires
        urls_wf(*old(urls)),
    ensures
        urls_wf(*final(urls)),
        final(urls).base_url == old(urls).base_url,
        r is Ok <==> spec_actor_renderable(*old(urls), *store, doc@.key),
        match spec_effective_account(*old(urls), *store, doc@.key) {
            Some(a) => r is Ok ==> {
                let out = r->Ok_0;
                let base = old(urls).base_url@;
                &&& out.id.deep_view() == Some(spec_account_url(base, a.record))
                &&& out.inbox@ == (match a.record.remote {
                    Some(rem) => rem.inbox->0,
                    None => crate::urls::spec_local_account_url(
                        base,
                        a.record.username,
                        "/inbox"@,
                    ),
                })
                &&& out.outbox@ == (match a.record.remote {
                    Some(rem) => rem.outbox->0,
                    None => crate::urls::spec_local_account_url(
                        base,
                        a.record.username,
                        "/outbox"@,
                    ),
                })
                &&& out.followers.deep_view() == Some(
                    match a.record.remote {
                        Some(rem) => rem.followers->0,
                        None => crate::urls::spec_local_account_url(
                            base,
                            a.record.username,
                            "/followers"@,
                        ),
                    },
                )
                &&& out.following.deep_view() == Some(
                    match a.record.remote {
                        Some(rem) => rem.following->0,
                        None => crate::urls::spec_local_account_url(
                            base,
                            a.record.username,
                            "/following"@,
                        ),
                    },
                )
                &&& out.preferred_username.deep_view() == Some(doc@.record.username)
                &&& out.name.deep_view() == Some(doc@.record.username)
                &&& out.shared_inbox.deep_view() == Some(
                    crate::urls::spec_joined(base, "inbox"@),
                )
                &&& out.published == doc@.record.created_at
                &&& out.updated == doc@.record.updated_at
            },
            None => r is Err,
        },
{
    let id = match urls.url_for_account(&doc.key, store) {
        Ok(u) => u,
        Err(e) => {
            return Err(e);
        },
    };
    let inbox = match urls.url_for_account_inbox(&doc.key, store) {
        Ok(u) => u,
        Err(e) => {
            return Err(e);
        },
    };
    let outbox = match urls.url_for_account_outbox(&doc.key, store) {
        Ok(u) => u,
        Err(e) => {
            return Err(e);
        },
    };
    let followers = match urls.url_for_account_followers(&doc.key, store) {
        Ok(u) => u,
        Err(e) => {
            return Err(e);
        },
    };
    let following = match urls.url_for_account_following(&doc.key, store) {
        Ok(u) => u,
        Err(e) => {
            return Err(e);
        },
    };
    let shared_inbox = urls.url_for_shared_inbox();
    Ok(
        ActorDoc {
            id: Some(id),
            preferred_username: Some(doc.record.username.clone()),
            name: Some(doc.record.username.clone()),
            inbox,
            outbox,
            followers: Some(followers),
            following: Some(following),
            shared_inbox: Some(shared_inbox),
            published: doc.record.created_at,
            updated: doc.record.updated_at,
        },
    )
}

/// A note object on the wire.
pub struct NoteObject {
    /// The note's id URL.
    pub id: AbsUrl,
    /// When the note was published.
    pub published: Option<i64>,
    /// When the note was last updated.
    pub updated: Option<i64>,
    /// The URL of the account the note is attributed to.
    pub attributed_to: Option<AbsUrl>,
    /// The primary recipients, as URLs.
    pub to: Vec<AbsUrl>,
    /// The carbon-copy recipients, as URLs.
    pub cc: Vec<AbsUrl>,
    /// The note's text.
    pub content: String,
}

/// The URL a recipient resolves to: the public collection URL, or the
/// recipient account's URL.
pub open spec fn spec_recipient_url(
    u: Urls,
    s: GraphStore,
    r: crate::model::RecipientV,
) -> Option<UrlV> {
    match r {
        crate::model::RecipientV::Public => Some(spec_public_url()),
        crate::model::RecipientV::Account(k) => match spec_effective_account(u, s, k) {
            Some(a) => Some(spec_account_url(u.base_url@, a.record)),
            None => None,
        },
    }
}

impl Recipient {
    /// The URL this recipient is addressed by.
    pub fn url_for(&self, urls: &mut Urls, store: &GraphStore) -> (r: Result<AbsUrl, Error>)
        requires
            urls_wf(*old(urls)),
        ensures
            urls_wf(*final(urls)),
            final(urls).base_url == old(urls).base_url,
            forall|k2: Seq<char>|
                #[trigger] spec_effective_account(*final(urls), *store, k2)
                    == spec_effective_account(*old(urls), *store, k2),
            match spec_recipient_url(*old(urls), *store, self@) {
                Some(u) => r is Ok && r->Ok_0@ == u,
                None => r is Err,
            },
    {
        match self {
            Recipient::Public => Ok(as_public_url()),
            Recipient::Account(key) => urls.url_for_account(key, store),
        }
    }
}

/// A follow activity on the wire: who follows whom, under what id.
pub struct FollowActivity {
    /// The activity id: the URI a remote peer provided, or a fragment of
    /// the actor's URL.
    pub id: AbsUrl,
    /// The URL of the account that follows.
    pub actor: AbsUrl,
    /// The URL of the account being followed.
    pub object: AbsUrl,
}

/// Renders a follow edge into a follow activity: actor and object are the
/// endpoint accounts' URLs, and the id is the edge's recorded URI if a
/// peer provided one, else the actor's URL with a `self/{key}` fragment.
pub fn follow_to_activity_doc(edge: &Edge<Follow>, urls: &mut Urls, store: &GraphStore) -> (r:
    Result<FollowActivity, Error>)
    requires
        urls_wf(*old(urls)),
    ensures
        urls_wf(*final(urls)),
        final(urls).base_url == old(urls).base_url,
        forall|k2: Seq<char>|
            #[trigger] spec_effective_account(*final(urls), *store, k2) == spec_effective_account(
                *old(urls),
                *store,
                k2,
            ),
        match (
            spec_effective_account(*old(urls), *store, edge@.from),
            spec_effective_account(*old(urls), *store, edge@.to),
        ) {
            (Some(actor), Some(target)) => r is Ok && {
                let out = r->Ok_0;
                &&& out.actor@ == spec_account_url(old(urls).base_url@, actor.record)
                &&& out.object@ == spec_account_url(old(urls).base_url@, target.record)
                &&& out.id@ == (match edge@.record.uri {
                    Some(uri) => uri,
                    None => UrlV {
                        fragment: Some("self/"@ + edge@.key),
                        ..spec_account_url(old(urls).base_url@, actor.record)
                    },
                })
            },
            _ => r is Err,
        },
{
    let from_url = match urls.url_for_account(&edge.from, store) {
        Ok(u) => u,
        Err(e) => {
            return Err(e);
        },
    };
    let to_url = match urls.url_for_account(&edge.to, store) {
        Ok(u) => u,
        Err(e) => {
            return Err(e);
        },
    };
    let id = match &edge.record.uri {
        Some(uri) => uri.clone(),
        None => {
            let mut frag = String::from_str("self/");
            frag.append(edge.key.as_str());
            let with = from_url.with_fragment(frag);
            proof {
                assert("self/"@ + edge@.key =~= "self/"@ + edge@.key);
            }
            with
        },
    };
    Ok(FollowActivity { id, actor: from_url, object: to_url })
}

/// A create activity wrapping a rendered note.
pub struct CreateActivity {
    /// The URL of the account that created the object.
    pub actor: AbsUrl,
    /// The created note.
    pub object: NoteObject,
}

/// Wraps a rendered object in an activity attributed to its author: the
/// activity's actor is the object's `attributed_to`. Fails with
/// `MissingActor` exactly when the object is attributed to nobody.
pub fn make_actor_and_object_activity(object: NoteObject) -> (r: Result<CreateActivity, Error>)
    ensures
        object.attributed_to is None ==> r is Err && r->Err_0 is MissingActor,
        object.attributed_to matches Some(actor) ==> r is Ok && r->Ok_0.actor@ == actor@
            && r->Ok_0.object == object,
{
    match &object.attributed_to {
        Some(actor) => {
            let actor = actor.clone();
            proof {
                assert(actor@ == object.attributed_to->0@);
            }
            Ok(CreateActivity { actor, object })
        },
        None => Err(Error::MissingActor),
    }
}

/// The answer to a follow: an accept or reject wrapping the follow
/// activity.
pub struct FollowResponseActivity {
    /// True for an accept, false for a reject.
    pub accepted: bool,
    /// The URL of the account answering: the follow's object.
    pub actor: AbsUrl,
    /// The follow being answered.
    pub object: FollowActivity,
}

/// Wraps a follow activity in an accept or reject: the answering actor is
/// the account the follow was addressed to.
pub fn make_follow_response(follow: FollowActivity, accepted: bool) -> (r: FollowResponseActivity)
    ensures
        r.accepted == accepted,
        r.actor@ == follow.object@,
        r.object == follow,
{
    let actor = follow.object.clone();
    proof {
        assert(actor@ == follow.object@);
    }
    FollowResponseActivity { accepted, actor, object: follow }
}

/// An ordered collection document: where it lives, where its first page
/// lives, and how many items it holds in total.
pub struct OrderedCollection {
    pub id: AbsUrl,
    pub first: AbsUrl,
    pub total_items: u64,
}

/// Builds an ordered collection document.
pub fn make_ordered_collection(self_url: AbsUrl, first_page_url: AbsUrl, total_count: u64) -> (r:
    OrderedCollection)
    ensures
        r.id == self_url,
        r.first == first_page_url,
        r.total_items == total_count,
{
    OrderedCollection { id: self_url, first: first_page_url, total_items: total_count }
}

/// One page of an ordered collection.
pub struct OrderedCollectionPage<T> {
    /// The collection this page belongs to.
    pub part_of: AbsUrl,
    /// The next page, when this page is full.
    pub next: Option<AbsUrl>,
    /// The items on this page.
    pub items: Vec<T>,
}

/// Builds one page of an ordered collection: the next-page link is kept
/// only when a page limit was given and this page is full — a short page
/// is the last one.
pub fn make_ordered_collection_page<T>(
    page_limit: Option<PageLimit>,
    collection_url: AbsUrl,
    next_page_url: Option<AbsUrl>,
    items: Vec<T>,
) -> (r: OrderedCollectionPage<T>)
    ensures
        r.part_of == collection_url,
        r.items == items,
        r.next == (match (page_limit, next_page_url) {
            (Some(pl), _) if pl.limit > items@.len() => None::<AbsUrl>,
            (_, Some(next)) => Some(next),
            _ => None::<AbsUrl>,
        }),
{
    let skip_next = match &page_limit {
        Some(pl) => pl.limit as usize > items.len(),
        None => false,
    };
    let next = if skip_next {
        None
    } else {
        next_page_url
    };
    OrderedCollectionPage { part_of: collection_url, next, items }
}


/// Whether a note renders to a note object: the note must resolve; a
/// resolved local note must name a resolvable publisher (its URL is the
/// note URL's base); the rendered note's own publisher, if named, must
/// resolve; and every `to` and `cc` recipient must resolve.
pub open spec fn spec_note_renderable(
    u: Urls,
    s: GraphStore,
    key: Seq<char>,
    record: crate::model::NoteV,
) -> bool {
    match spec_effective_note(u, s, key) {
        None => false,
        Some(n) => {
            &&& (match n.record.remote {
                Some(_) => true,
                None => n.record.from matches Some(f) && spec_effective_account(u, s, f)
                    is Some,
            })
            &&& (record.from matches Some(f2) ==> spec_effective_account(u, s, f2) is Some)
            &&& forall|i: int|
                0 <= i < record.to.len() ==> spec_recipient_url(u, s, #[trigger] record.to[i])
                    is Some
            &&& forall|i: int|
                0 <= i < record.cc.len() ==> spec_recipient_url(u, s, #[trigger] record.cc[i])
                    is Some
        },
    }
}

/// Renders a note into a note object: the id is the note's URL, the
/// author's URL is attributed, and every recipient of the `to` and `cc`
/// lists becomes its URL. Rendering succeeds exactly when the note is
/// renderable.
#[verifier::loop_isolation(false)]
pub fn note_to_object_doc(note: &Document<crate::model::Note>, urls: &mut Urls, store: &GraphStore)
    -> (r: Result<NoteObject, Error>)
    requires
        urls_wf(*old(urls)),
    ensures
        urls_wf(*final(urls)),
        final(urls).base_url == old(urls).base_url,
        r is Ok <==> spec_note_renderable(*old(urls), *store, note@.key, note@.record),
        r is Ok ==> (match spec_effective_note(*old(urls), *store, note@.key) {
            Some(n) => match n.record.remote {
                Some(rem) => r->Ok_0.id@ == rem.uri,
                None => n.record.from matches Some(f) && (spec_effective_account(
                    *old(urls),
                    *store,
                    f,
                ) matches Some(a) && r->Ok_0.id@ == (crate::urls::UrlV {
                    path: spec_account_url(old(urls).base_url@, a.record).path + "/notes/"@
                        + crate::urls::percent_encoded(note@.key),
                    ..spec_account_url(old(urls).base_url@, a.record)
                })),
            },
            None => false,
        }),
        r is Ok ==> {
            let out = r->Ok_0;
            &&& out.content@ == note@.record.content
            &&& out.published == note@.record.created_at
            &&& out.updated == note@.record.updated_at
            &&& (out.attributed_to is Some <==> note@.record.from is Some)
            &&& note@.record.from matches Some(f)
                ==> (spec_effective_account(*old(urls), *store, f) matches Some(a)
                && out.attributed_to.deep_view() == Some(
                spec_account_url(old(urls).base_url@, a.record),
            ))
            &&& out.to@.len() == note@.record.to.len()
            &&& forall|i: int|
                0 <= i < note@.record.to.len() ==> Some(#[trigger] out.to.deep_view()[i])
                    == spec_recipient_url(*old(urls), *store, note@.record.to[i])
            &&& out.cc@.len() == note@.record.cc.len()
            &&& forall|i: int|
                0 <= i < note@.record.cc.len() ==> Some(#[trigger] out.cc.deep_view()[i])
                    == spec_recipient_url(*old(urls), *store, note@.record.cc[i])
        },
{
    let ghost u0 = *old(urls);
    let id = match urls.url_for_note(&note.key, store) {
        Ok(u) => u,
        Err(e) => {
            proof {
                match spec_effective_note(u0, *store, note@.key) {
                    Some(n) => {
                        assert(n.record.remote is None);
                        assert(!(n.record.from matches Some(f) && spec_effective_account(
                            u0,
                            *store,
                            f,
                        ) is Some));
                    },
                    None => {},
                }
            }
            return Err(e);
        },
    };
    let ghost u1 = *urls;
    let attributed_to = match &note.record.from {
        Some(from) => match urls.url_for_account(from, store) {
            Ok(u) => Some(u),
            Err(e) => {
                proof {
                    assert(spec_effective_account(u1, *store, from@) is None);
                    assert(spec_effective_account(u0, *store, from@) is None);
                }
                return Err(e);
            },
        },
        None => None,
    };
    proof {
        match note@.record.from {
            Some(f2) => {
                assert(spec_effective_account(u0, *store, f2) is Some);
            },
            None => {},
        }
    }
    let mut to: Vec<AbsUrl> = Vec::new();
    let mut i: usize = 0;
    while i < note.record.to.len()
        invariant
            urls_wf(*urls),
            urls.base_url == u0.base_url,
            i <= note.record.to@.len(),
            to@.len() == i,
            forall|k2: Seq<char>|
                #[trigger] spec_effective_account(*urls, *store, k2) == spec_effective_account(
                    u0,
                    *store,
                    k2,
                ),
            forall|j: int|
                0 <= j < i ==> Some(#[trigger] to.deep_view()[j]) == spec_recipient_url(
                    u0,
                    *store,
                    note@.record.to[j],
                ),
        decreases note.record.to@.len() - i,
    {
        let ghost ucall = *urls;
        let url = match note.record.to[i].url_for(urls, store) {
            Ok(u) => u,
            Err(e) => {
                proof {
                    let rv = note@.record.to[i as int];
                    assert(note.record.to@[i as int]@ == rv);
                    assert(spec_recipient_url(ucall, *store, rv) is None);
                    assert(spec_recipient_url(u0, *store, rv) is None) by {
                        match rv {
                            crate::model::RecipientV::Public => {},
                            crate::model::RecipientV::Account(k) => {
                                assert(spec_effective_account(ucall, *store, k)
                                    == spec_effective_account(u0, *store, k));
                            },
                        }
                    }
                }
                return Err(e);
            },
        };
        let ghost before = to.deep_view();
        to.push(url);
        proof {
            assert(to.deep_view() =~= before.push(to@.last()@));
            let rv = note@.record.to[i as int];
            assert(note.record.to@[i as int]@ == rv);
            assert(spec_recipient_url(ucall, *store, rv) == spec_recipient_url(
                u0,
                *store,
                rv,
            )) by {
                match rv {
                    crate::model::RecipientV::Public => {},
                    crate::model::RecipientV::Account(k) => {
                        assert(spec_effective_account(ucall, *store, k)
                            == spec_effective_account(u0, *store, k));
                    },
                }
            }
            assert forall|k2: Seq<char>| #[trigger] spec_effective_account(*urls, *store, k2)
                == spec_effective_account(u0, *store, k2) by {
                assert(spec_effective_account(*urls, *store, k2) == spec_effective_account(
                    ucall,
                    *store,
                    k2,
                ));
            }
        }
        i = i + 1;
    }
    let mut cc: Vec<AbsUrl> = Vec::new();
    let mut j: usize = 0;
    while j < note.record.cc.len()
        invariant
            urls_wf(*urls),
            urls.base_url == u0.base_url,
            j <= note.record.cc@.len(),
            cc@.len() == j,
            forall|k2: Seq<char>|
                #[trigger] spec_effective_account(*urls, *store, k2) == spec_effective_account(
                    u0,
                    *store,
                    k2,
                ),
            forall|k: int|
                0 <= k < j ==> Some(#[trigger] cc.deep_view()[k]) == spec_recipient_url(
                    u0,
                    *store,
                    note@.record.cc[k],
                ),
        decreases note.record.cc@.len() - j,
    {
        let ghost ucall = *urls;
        let url = match note.record.cc[j].url_for(urls, store) {
            Ok(u) => u,
            Err(e) => {
                proof {
                    let rv = note@.record.cc[j as int];
                    assert(note.record.cc@[j as int]@ == rv);
                    assert(spec_recipient_url(ucall, *store, rv) is None);
                    assert(spec_recipient_url(u0, *store, rv) is None) by {
                        match rv {
                            crate::model::RecipientV::Public => {},
                            crate::model::RecipientV::Account(k) => {
                                assert(spec_effective_account(ucall, *store, k)
                                    == spec_effective_account(u0, *store, k));
                            },
                        }
                    }
                }
                return Err(e);
            },
        };
        let ghost before = cc.deep_view();
        cc.push(url);
        proof {
            assert(cc.deep_view() =~= before.push(cc@.last()@));
            let rv = note@.record.cc[j as int];
            assert(note.record.cc@[j as int]@ == rv);
            assert(spec_recipient_url(ucall, *store, rv) == spec_recipient_url(
                u0,
                *store,
                rv,
            )) by {
                match rv {
                    crate::model::RecipientV::Public => {},
                    crate::model::RecipientV::Account(k) => {
                        assert(spec_effective_account(ucall, *store, k)
                            == spec_effective_account(u0, *store, k));
                    },
                }
            }
            assert forall|k2: Seq<char>| #[trigger] spec_effective_account(*urls, *store, k2)
                == spec_effective_account(u0, *store, k2) by {
                assert(spec_effective_account(*urls, *store, k2) == spec_effective_account(
                    ucall,
                    *store,
                    k2,
                ));
            }
        }
        j = j + 1;
    }
    proof {
        assert(spec_note_renderable(u0, *store, note@.key, note@.record)) by {
            assert forall|k: int|
                0 <= k < note@.record.to.len() implies spec_recipient_url(
                u0,
                *store,
                #[trigger] note@.record.to[k],
            ) is Some by {
                assert(Some(to.deep_view()[k]) == spec_recipient_url(
                    u0,
                    *store,
                    note@.record.to[k],
                ));
            }
            assert forall|k: int|
                0 <= k < note@.record.cc.len() implies spec_recipient_url(
                u0,
                *store,
                #[trigger] note@.record.cc[k],
            ) is Some by {
                assert(Some(cc.deep_view()[k]) == spec_recipient_url(
                    u0,
                    *store,
                    note@.record.cc[k],
                ));
            }
        }
    }
    Ok(
        NoteObject {
            id,
            published: note.record.created_at,
            updated: note.record.updated_at,
            attributed_to,
            to,
            cc,
            content: note.record.content.clone(),
        },
    )
}

} // verus!
