//! Decisions of the federation workers: which delivery a committed
//! interaction calls for, how an inbound follow becomes a transaction, and
//! the small rulings the request layer applies to worker replies.

use vstd::prelude::*;

use crate::activity::FollowActivity;
use crate::activity::FollowResponseActivity;
use crate::activity::follow_to_activity_doc;
use crate::activity::make_follow_response;
use crate::errors::Error;
use crate::messages::Action;
use crate::messages::Interaction;
use crate::messages::InteractionV;
use crate::messages::Transaction;
use crate::model::Account;
use crate::model::Document;
use crate::model::Edge;
use crate::model::Follow;
use crate::model::FollowV;
use crate::model::spec_is_local;
use crate::store::GraphStore;
use crate::urls::AbsUrl;
use crate::urls::Urls;
use crate::urls::spec_account_url;
use crate::urls::spec_effective_account;
use crate::urls::spec_same_origin;
use crate::urls::spec_users_path_name;
use crate::urls::urls_wf;
use crate::urls::username_from_users_path;

verus! {

/// An activity to be posted to a remote inbox.
pub enum OutboundActivity {
    /// A follow request being sent to the followed account's server.
    Follow(FollowActivity),
    /// An accept or reject being sent back to the follower's server.
    FollowResponse(FollowResponseActivity),
}

/// One delivery order for the remote deliverer: post `activity` to
/// `inbox`.
pub struct DeliverActivity {
    pub inbox: AbsUrl,
    pub activity: OutboundActivity,
}

/// Decides what a committed interaction sends to a remote server: a follow
/// directed at a resolvable remote account with a known inbox is delivered
/// to that inbox, and an answered follow from such an account is delivered
/// back to the follower's inbox, wrapped in an accept or reject. Notes and
/// purely local follows send nothing; between two remote parties nothing
/// is proxied; a remote endpoint without a reported inbox, or an endpoint
/// that does not resolve, is an error.
pub fn interaction_delivery(
    interaction: &Interaction,
    urls: &mut Urls,
    store: &GraphStore,
) -> (r: Result<Option<DeliverActivity>, Error>)
    requires
        urls_wf(*old(urls)),
        interaction@ matches InteractionV::SetFollowAccepted(e) ==> e.record.accepted is Some,
    ensures
        urls_wf(*final(urls)),
        final(urls).base_url == old(urls).base_url,
        match interaction@ {
            InteractionV::Note(_) => r is Ok && r->Ok_0 is None,
            InteractionV::InitiateFollow(e) => {
                &&& !e.record.to_remote ==> r is Ok && r->Ok_0 is None
                &&& e.record.to_remote ==> match spec_effective_account(
                    *old(urls),
                    *store,
                    e.to,
                ) {
                    Some(target) => match target.record.remote {
                        None => r is Ok && r->Ok_0 is None,
                        Some(rem) => match (
                            spec_effective_account(*old(urls), *store, e.from),
                            rem.inbox,
                        ) {
                            (Some(actor), Some(inbox)) => r matches Ok(Some(d)) && {
                                &&& d.inbox@ == inbox
                                &&& d.activity matches OutboundActivity::Follow(f) && {
                                    &&& f.actor@ == spec_account_url(
                                        old(urls).base_url@,
                                        actor.record,
                                    )
                                    &&& f.object@ == spec_account_url(
                                        old(urls).base_url@,
                                        target.record,
                                    )
                                    &&& f.id@ == (match e.record.uri {
                                        Some(uri) => uri,
                                        None => crate::urls::UrlV {
                                            fragment: Some("self/"@ + e.key),
                                            ..spec_account_url(
                                                old(urls).base_url@,
                                                actor.record,
                                            )
                                        },
                                    })
                                }
                            },
                            _ => r is Err,
                        },
                    },
                    None => r is Err,
                }
            },
            InteractionV::SetFollowAccepted(e) => {
                &&& !e.record.from_remote ==> r is Ok && r->Ok_0 is None
                &&& e.record.from_remote ==> match spec_effective_account(
                    *old(urls),
                    *store,
                    e.from,
                ) {
                    Some(actor) => match actor.record.remote {
                        None => r is Ok && r->Ok_0 is None,
                        Some(rem) => match (
                            spec_effective_account(*old(urls), *store, e.to),
                            rem.inbox,
                        ) {
                            (Some(target), Some(inbox)) => r matches Ok(Some(d)) && {
                                &&& d.inbox@ == inbox
                                &&& d.activity matches OutboundActivity::FollowResponse(resp)
                                    && {
                                    &&& resp.accepted == e.record.accepted->0
                                    &&& resp.object.actor@ == spec_account_url(
                                        old(urls).base_url@,
                                        actor.record,
                                    )
                                    &&& resp.object.object@ == spec_account_url(
                                        old(urls).base_url@,
                                        target.record,
                                    )
                                    &&& resp.object.id@ == (match e.record.uri {
                                        Some(uri) => uri,
                                        None => crate::urls::UrlV {
                                            fragment: Some("self/"@ + e.key),
                                            ..spec_account_url(
                                                old(urls).base_url@,
                                                actor.record,
                                            )
                                        },
                                    })
                                    &&& resp.actor@ == resp.object.object@
                                }
                            },
                            _ => r is Err,
                        },
                    },
                    None => r is Err,
                }
            },
        },
{
    match interaction {
        Interaction::Note(_) => Ok(None),
        Interaction::InitiateFollow(edge) => {
            if !edge.record.to_remote {
                return Ok(None);
            }
            let target = match urls.resolve_account(&edge.to, store) {
                Ok(doc) => doc,
                Err(e) => {
                    return Err(e);
                },
            };
            if target.record.remote.is_none() {
                return Ok(None);
            }
            let activity = match follow_to_activity_doc(edge, urls, store) {
                Ok(a) => a,
                Err(e) => {
                    return Err(e);
                },
            };
            let inbox = match urls.url_for_account_inbox(&edge.to, store) {
                Ok(u) => u,
                Err(e) => {
                    return Err(e);
                },
            };
            Ok(Some(DeliverActivity { inbox, activity: OutboundActivity::Follow(activity) }))
        },
        Interaction::SetFollowAccepted(edge) => {
            if !edge.record.from_remote {
                return Ok(None);
            }
            let accepted = match &edge.record.accepted {
                Some(a) => *a,
                None => {
                    proof {
                        assert(false);
                    }
                    vstd::pervasive::unreached()
                },
            };
            let actor = match urls.resolve_account(&edge.from, store) {
                Ok(doc) => doc,
                Err(e) => {
                    return Err(e);
                },
            };
            if actor.record.remote.is_none() {
                return Ok(None);
            }
            let follow = match follow_to_activity_doc(edge, urls, store) {
                Ok(a) => a,
                Err(e) => {
                    return Err(e);
                },
            };
            let response = make_follow_response(follow, accepted);
            let inbox = match urls.url_for_account_inbox(&edge.from, store) {
                Ok(u) => u,
                Err(e) => {
                    return Err(e);
                },
            };
            Ok(
                Some(
                    DeliverActivity { inbox, activity: OutboundActivity::FollowResponse(response) },
                ),
            )
        },
    }
}

/// An inbound activity as the shell hands it over: its kind tag and the
/// actor and object URIs it names, when they are URIs at all.
pub struct InboundActivity {
    pub kind: String,
    pub actor: Option<AbsUrl>,
    pub object: Option<AbsUrl>,
}

/// Reads the two parties out of an inbound follow activity: only `Follow`
/// activities are processed, and both the actor and the object must be
/// URIs.
pub fn follow_request_parts(activity: &InboundActivity) -> (r: Result<(AbsUrl, AbsUrl), Error>)
    ensures
        activity.kind@ != "Follow"@ ==> r is Err && r->Err_0 is UnprocessableActivity,
        activity.kind@ == "Follow"@ && (activity.actor is None || activity.object is None)
            ==> r is Err && r->Err_0 is InternalError,
        activity.kind@ == "Follow"@ && activity.actor is Some && activity.object is Some ==> r
            is Ok && r->Ok_0.0@ == activity.actor->0@ && r->Ok_0.1@ == activity.object->0@,
{
    let follow_kind = String::from_str("Follow");
    if !(activity.kind == follow_kind) {
        return Err(Error::UnprocessableActivity(activity.kind.clone()));
    }
    let actor = match &activity.actor {
        Some(u) => u.clone(),
        None => {
            return Err(Error::InternalError(String::from_str("follow actor is not a uri")));
        },
    };
    let object = match &activity.object {
        Some(u) => u.clone(),
        None => {
            return Err(Error::InternalError(String::from_str("follow object is not a uri")));
        },
    };
    Ok((actor, object))
}

/// Where to look for the account behind a URI: on this server, under the
/// username its path names, or on a peer server by the URI itself.
pub enum AccountLocator {
    /// The URI is ours: look the username up locally.
    Local(String),
    /// The URI belongs to a peer: look it up (or fetch it) by URI.
    Remote,
}

/// Decides where the account behind a URI lives: a URI on our own origin
/// must name a user path; everything else is resolved remotely.
pub fn account_locator(base: &AbsUrl, uri: &AbsUrl) -> (r: Result<AccountLocator, Error>)
    ensures
        !spec_same_origin(base@, uri@) ==> r is Ok && r->Ok_0 is Remote,
        spec_same_origin(base@, uri@) ==> match r {
            Ok(loc) => loc matches AccountLocator::Local(u) && spec_users_path_name(
                uri@.path,
                u@,
            ),
            Err(e) => e is InternalError && forall|n: Seq<char>|
                !spec_users_path_name(uri@.path, n),
        },
{
    if base.same_origin(uri) {
        match username_from_users_path(uri.path.as_str()) {
            Some(username) => Ok(AccountLocator::Local(username)),
            None => Err(Error::InternalError(String::from_str("this is not a user url"))),
        }
    } else {
        Ok(AccountLocator::Remote)
    }
}

/// Builds the transaction an inbound follow re-enters the engine with: one
/// `InitiateFollow` between the two resolved parties. A follow between two
/// remote parties is dropped: this server proxies nothing.
pub fn follow_transaction(from: &Document<Account>, to: &Document<Account>) -> (r: Option<
    Transaction,
>)
    ensures
        !spec_is_local(from@.record) && !spec_is_local(to@.record) ==> r is None,
        spec_is_local(from@.record) || spec_is_local(to@.record) ==> (r matches Some(tx) && {
            &&& tx.actions@.len() == 1
            &&& tx.actions@[0]@ matches crate::messages::ActionV::InitiateFollow {
                from_account,
                to_account,
                uri,
            } && from_account == from@.key && to_account == to@.key && uri is None
        }),
{
    if from.record.is_remote() && to.record.is_remote() {
        None
    } else {
        let action = Action::InitiateFollow {
            from_account: from.key.clone(),
            to_account: to.key.clone(),
            uri: None,
        };
        Some(action.into_transaction())
    }
}

/// Drops the domain filter when it names this server's own domain: a
/// lookup for `user@ourdomain` is a local lookup.
pub fn normalize_lookup_domain(domain: Option<String>, own_domain: &String) -> (r: Option<String>)
    ensures
        match domain {
            Some(d) => if d@ == own_domain@ {
                r is None
            } else {
                r matches Some(out) && out@ == d@
            },
            None => r is None,
        },
{
    match domain {
        Some(d) => {
            if d == *own_domain {
                None
            } else {
                Some(d)
            }
        },
        None => None,
    }
}

/// The HTTP status a follow initiation maps to: created is 201, an
/// already-existing follow is 200.
pub fn initiate_follow_status(created: bool) -> (r: u16)
    ensures
        created ==> r == 201,
        !created ==> r == 200,
{
    if created {
        201
    } else {
        200
    }
}

/// The ruling on an accept request: a fresh acceptance is 201, an already
/// accepted follow is 200, and a follow that was already rejected is
/// refused with a conflict.
pub fn accept_follow_outcome(modified: bool, follow: &Edge<Follow>) -> (r: Result<u16, Error>)
    ensures
        modified ==> r is Ok && r->Ok_0 == 201,
        !modified && follow@.record.accepted == Some(true) ==> r is Ok && r->Ok_0 == 200,
        !modified && follow@.record.accepted != Some(true) ==> r is Err && r->Err_0 is Conflict,
{
    if modified {
        Ok(201)
    } else {
        let already_accepted = match &follow.record.accepted {
            Some(a) => *a,
            None => false,
        };
        if already_accepted {
            Ok(200)
        } else {
            Err(Error::Conflict(String::from_str("follow has already been rejected")))
        }
    }
}

/// The path parameters of the inbox routes: the per-user inbox names a
/// username; the shared inbox names none.
pub struct PathData {
    pub username: Option<String>,
}

/// The query parameters of the publish-note route.
pub struct PublishNoteQuery {
    pub from_username: String,
}

} // verus!
