//! The worker's transaction engine: executes a batch of actions atomically
//! against the graph store, buffers the interactions each action announces,
//! and replies with one response per action. A transaction commits as a
//! whole or leaves the store untouched.

use vstd::prelude::*;

use crate::errors::Error;
use crate::messages::Action;
use crate::messages::ActionResponse;
use crate::messages::ActionV;
use crate::messages::Interaction;
use crate::messages::InteractionV;
use crate::messages::Transaction;
use crate::messages::TransactionResponse;
use crate::messages::response_matches_action;
use crate::messages::spec_emitted;
use crate::messages::spec_emitted_all;
use crate::model::Account;
use crate::model::AccountV;
use crate::model::DeepClone;
use crate::model::EdgeV;
use crate::model::FollowV;
use crate::model::NoteV;
use crate::model::RemoteAccountInfoV;
use crate::model::account_wf;
use crate::model::clone_opt;
use crate::model::spec_is_local;
use crate::page_limit::spec_dec;
use crate::store::GraphStore;
use crate::store::account_uri;
use crate::store::lemma_find_account_by_uri_props;
use crate::store::lemma_find_account_props;
use crate::store::lemma_find_follow_props;
use crate::store::spec_find_account;
use crate::store::spec_find_account_by_uri;
use crate::store::spec_find_follow;
use crate::store::spec_find_follow_between;
use crate::store::store_wf;
use crate::urls::UrlV;

verus! {

/// The interactions a single optional buffered event stands for.
pub open spec fn spec_opt_interaction(o: Option<Interaction>) -> Seq<InteractionV> {
    match o {
        Some(i) => seq![i@],
        None => Seq::empty(),
    }
}

/// What executing `PublishNote` does: fails when the note names no
/// publisher or the publisher is unknown; otherwise stores the note with
/// the publisher and creation time stamped, links a publish edge, and
/// leaves every other collection alone.
pub open spec fn outcome_publish_note(
    pre: GraphStore,
    post: GraphStore,
    note: NoteV,
    now: i64,
    r: Result<(ActionResponse, Option<Interaction>), Error>,
) -> bool {
    match note.from {
        None => r is Err && r->Err_0 is InternalError && post == pre,
        Some(from) => match spec_find_account(pre, from) {
            None => r is Err && r->Err_0 is NotFound && post == pre,
            Some(_) => {
                &&& r is Ok
                &&& r->Ok_0.0 matches ActionResponse::PublishNote(doc) && {
                    &&& doc@.key == spec_dec(pre.next_key as nat)
                    &&& doc@.record == GraphStore::note_create_hook(
                        NoteV { from: Some(from), ..note },
                        now,
                    )
                    &&& post.notes@.len() == pre.notes@.len() + 1
                    &&& post.notes@.last()@ == doc@
                    &&& forall|i: int|
                        0 <= i < pre.notes@.len() ==> post.notes@[i] == pre.notes@[i]
                    &&& post.publishes@.len() == pre.publishes@.len() + 1
                    &&& post.publishes@.last()@.from == from
                    &&& post.publishes@.last()@.to == doc@.key
                    &&& post.publishes@.last()@.record.created_at == Some(now)
                    &&& forall|i: int|
                        0 <= i < pre.publishes@.len() ==> post.publishes@[i] == pre.publishes@[i]
                    &&& post.accounts == pre.accounts
                    &&& post.follows == pre.follows
                    &&& post.shares == pre.shares
                    &&& post.likes == pre.likes
                    &&& post.next_key == pre.next_key + 2
                }
            },
        },
    }
}

/// What executing `FetchAccount` does with the document fetched from the
/// remote server: fails when the fetched account does not carry the
/// requested URI; otherwise stamps the fetch time and either updates the
/// account already stored under that URI or creates a new one.
pub open spec fn outcome_fetch_account(
    pre: GraphStore,
    post: GraphStore,
    url: UrlV,
    body: AccountV,
    now: i64,
    r: Result<(ActionResponse, Option<Interaction>), Error>,
) -> bool {
    if body.remote is None || body.remote->0.uri != url {
        r is Err && r->Err_0 is InternalError && post == pre
    } else {
        let stamped = RemoteAccountInfoV { last_fetched_at: Some(now), ..body.remote->0 };
        match spec_find_account_by_uri(pre, url) {
            Some(i) => {
                &&& r is Ok
                &&& r->Ok_0.0 matches ActionResponse::FetchAccount(doc) && {
                    &&& doc@.key == pre.accounts@[i]@.key
                    &&& doc@.record == GraphStore::account_save_hook(
                        AccountV {
                            remote: Some(stamped),
                            updated_at: body.updated_at,
                            ..pre.accounts@[i]@.record
                        },
                        now,
                    )
                    &&& post.accounts@.len() == pre.accounts@.len()
                    &&& post.accounts@[i]@ == doc@
                    &&& forall|j: int|
                        0 <= j < pre.accounts@.len() && j != i ==> post.accounts@[j]
                            == pre.accounts@[j]
                    &&& post.notes == pre.notes
                    &&& post.follows == pre.follows
                    &&& post.publishes == pre.publishes
                    &&& post.shares == pre.shares
                    &&& post.likes == pre.likes
                    &&& post.next_key == pre.next_key
                }
            },
            None => {
                &&& r is Ok
                &&& r->Ok_0.0 matches ActionResponse::FetchAccount(doc) && {
                    &&& doc@.key == spec_dec(pre.next_key as nat)
                    &&& doc@.record == GraphStore::account_create_hook(
                        AccountV { remote: Some(stamped), ..body },
                        now,
                    )
                    &&& post.accounts@.len() == pre.accounts@.len() + 1
                    &&& post.accounts@.last()@ == doc@
                    &&& forall|j: int|
                        0 <= j < pre.accounts@.len() ==> post.accounts@[j] == pre.accounts@[j]
                    &&& post.notes == pre.notes
                    &&& post.follows == pre.follows
                    &&& post.publishes == pre.publishes
                    &&& post.shares == pre.shares
                    &&& post.likes == pre.likes
                    &&& post.next_key == pre.next_key + 1
                }
            },
        }
    }
}

/// What executing `InitiateFollow` does: fails when either account is
/// unknown; answers `created == false` with the existing edge when the pair
/// is already linked, and otherwise links a fresh pending follow.
pub open spec fn outcome_initiate_follow(
    pre: GraphStore,
    post: GraphStore,
    from: Seq<char>,
    to: Seq<char>,
    uri: Option<UrlV>,
    now: i64,
    r: Result<(ActionResponse, Option<Interaction>), Error>,
) -> bool {
    if spec_find_account(pre, from) is None || spec_find_account(pre, to) is None {
        r is Err && r->Err_0 is NotFound && post == pre
    } else {
        let actor = pre.accounts@[spec_find_account(pre, from)->0]@.record;
        let target = pre.accounts@[spec_find_account(pre, to)->0]@.record;
        match spec_find_follow_between(pre, from, to) {
            Some(i) => {
                &&& r is Ok
                &&& r->Ok_0.0 matches ActionResponse::InitiateFollow { created, follow } && {
                    &&& created == false
                    &&& follow@ == pre.follows@[i]@
                }
                &&& post == pre
            },
            None => {
                &&& r is Ok
                &&& r->Ok_0.0 matches ActionResponse::InitiateFollow { created, follow } && {
                    &&& created == true
                    &&& follow@ == (EdgeV {
                        key: spec_dec(pre.next_key as nat),
                        from,
                        to,
                        record: FollowV {
                            accepted: None,
                            from_remote: !spec_is_local(actor),
                            to_remote: !spec_is_local(target),
                            uri,
                            created_at: Some(now),
                        },
                    })
                    &&& post.follows@.len() == pre.follows@.len() + 1
                    &&& post.follows@.last()@ == follow@
                    &&& forall|j: int|
                        0 <= j < pre.follows@.len() ==> post.follows@[j] == pre.follows@[j]
                    &&& post.accounts == pre.accounts
                    &&& post.notes == pre.notes
                    &&& post.publishes == pre.publishes
                    &&& post.shares == pre.shares
                    &&& post.likes == pre.likes
                    &&& post.next_key == pre.next_key + 1
                }
            },
        }
    }
}

/// What executing `SetFollowAccepted` does: fails when no follow has the
/// key; answers `modified == false` and changes nothing when the edge
/// already holds the requested state, and otherwise records the new state.
pub open spec fn outcome_set_follow_accepted(
    pre: GraphStore,
    post: GraphStore,
    key: Seq<char>,
    accepted: bool,
    r: Result<(ActionResponse, Option<Interaction>), Error>,
) -> bool {
    match spec_find_follow(pre, key) {
        None => r is Err && r->Err_0 is NotFound && post == pre,
        Some(i) => {
            let e = pre.follows@[i]@;
            if e.record.accepted == Some(accepted) {
                &&& r is Ok
                &&& r->Ok_0.0 matches ActionResponse::SetFollowAccepted { modified, follow } && {
                    &&& modified == false
                    &&& follow@ == e
                }
                &&& post == pre
            } else {
                &&& r is Ok
                &&& r->Ok_0.0 matches ActionResponse::SetFollowAccepted { modified, follow } && {
                    &&& modified == true
                    &&& follow@ == (EdgeV {
                        record: FollowV { accepted: Some(accepted), ..e.record },
                        ..e
                    })
                    &&& post.follows@.len() == pre.follows@.len()
                    &&& post.follows@[i]@ == follow@
                    &&& forall|j: int|
                        0 <= j < pre.follows@.len() && j != i ==> post.follows@[j]
                            == pre.follows@[j]
                    &&& post.accounts == pre.accounts
                    &&& post.notes == pre.notes
                    &&& post.publishes == pre.publishes
                    &&& post.shares == pre.shares
                    &&& post.likes == pre.likes
                    &&& post.next_key == pre.next_key
                }
            }
        },
    }
}

/// Executes one action against the store. `fetched` carries the account
/// document a `FetchAccount` action retrieved from the remote server, with
/// its fetch time not yet stamped; other actions take no fetched document.
/// On failure the store is untouched. The returned interaction is exactly
/// what the committed response announces: present for a stored note, a
/// newly created follow, or a real acceptance change, and absent otherwise.
pub fn execute_action(
    store: &mut GraphStore,
    action: &Action,
    fetched: Option<&Account>,
    now: i64,
) -> (r: Result<(ActionResponse, Option<Interaction>), Error>)
    requires
        store_wf(*old(store)),
        old(store).next_key + 2 <= u64::MAX,
        action@ is FetchAccount ==> fetched is Some && account_wf(fetched->0@),
    ensures
        store_wf(*final(store)),
        old(store).next_key <= final(store).next_key <= old(store).next_key + 2,
        r is Err ==> *final(store) == *old(store),
        r is Ok ==> response_matches_action(action@, r->Ok_0.0@),
        r is Ok ==> spec_opt_interaction(r->Ok_0.1) == spec_emitted(r->Ok_0.0@),
        match action@ {
            ActionV::PublishNote(note) => outcome_publish_note(
                *old(store),
                *final(store),
                note,
                now,
                r,
            ),
            ActionV::FetchAccount(url) => outcome_fetch_account(
                *old(store),
                *final(store),
                url,
                fetched->0@,
                now,
                r,
            ),
            ActionV::InitiateFollow { from_account, to_account, uri } => outcome_initiate_follow(
                *old(store),
                *final(store),
                from_account,
                to_account,
                uri,
                now,
                r,
            ),
            ActionV::SetFollowAccepted { key, accepted } => outcome_set_follow_accepted(
                *old(store),
                *final(store),
                key,
                accepted,
                r,
            ),
        },
{
    match action {
        Action::PublishNote(note) => {
            let from = match &note.from {
                Some(f) => f,
                None => {
                    return Err(
                        Error::InternalError(String::from_str("note.from must be set")),
                    );
                },
            };
            match store.find_account(from) {
                Ok(_) => {},
                Err(e) => {
                    return Err(e);
                },
            }
            let doc = store.publish_note(from, note.deep_clone(), now);
            let resp = ActionResponse::PublishNote(doc.deep_clone());
            Ok((resp, Some(Interaction::Note(doc))))
        },
        Action::FetchAccount(url) => {
            let body = match fetched {
                Some(b) => b,
                None => {
                    proof {
                        assert(false);
                    }
                    vstd::pervasive::unreached()
                },
            };
            let uri_ok = match &body.remote {
                Some(rem) => rem.uri.same_as(url),
                None => false,
            };
            if !uri_ok {
                return Err(
                    Error::InternalError(
                        String::from_str("fetched account does not match the requested url"),
                    ),
                );
            }
            let mut b = body.deep_clone();
            match &mut b.remote {
                Some(rem) => {
                    rem.last_fetched_at = Some(now);
                },
                None => {},
            }
            proof {
                assert(b@ == (AccountV {
                    remote: Some(
                        RemoteAccountInfoV { last_fetched_at: Some(now), ..body@.remote->0 },
                    ),
                    ..body@
                }));
                lemma_find_account_by_uri_props(store.accounts@, url@, 0);
            }
            let existing = store.find_account_by_uri(url);
            match existing {
                Ok(found) => {
                    let key = found.key.clone();
                    let mut updated = found.record.deep_clone();
                    updated.remote = clone_opt(&b.remote);
                    updated.updated_at = b.updated_at;
                    let ghost i = spec_find_account_by_uri(*old(store), url@)->0;
                    proof {
                        lemma_find_account_props(store.accounts@, key@, 0);
                        let m = spec_find_account(*store, key@)->0;
                        assert(store.accounts@[m]@.key == store.accounts@[i]@.key);
                        assert(m == i);
                        assert forall|j: int|
                            0 <= j < store.accounts@.len() && j != i implies account_uri(
                            #[trigger] store.accounts@[j]@.record,
                        ) != Some(updated@.remote->0.uri) by {
                            if account_uri(store.accounts@[j]@.record) == Some(url@) {
                                if j < i {
                                    assert(account_uri(store.accounts@[j]@.record) != account_uri(
                                        store.accounts@[i]@.record,
                                    ));
                                } else {
                                    assert(account_uri(store.accounts@[i]@.record) != account_uri(
                                        store.accounts@[j]@.record,
                                    ));
                                }
                            }
                        }
                    }
                    let doc = store.save_account(&key, updated, now);
                    Ok((ActionResponse::FetchAccount(doc), None))
                },
                Err(_) => {
                    let doc = store.create_account(b, now);
                    Ok((ActionResponse::FetchAccount(doc), None))
                },
            }
        },
        Action::InitiateFollow { from_account, to_account, uri } => {
            let actor = match store.find_account(from_account) {
                Ok(d) => d.deep_clone(),
                Err(e) => {
                    return Err(e);
                },
            };
            let target = match store.find_account(to_account) {
                Ok(d) => d.deep_clone(),
                Err(e) => {
                    return Err(e);
                },
            };
            proof {
                lemma_find_account_props(store.accounts@, from_account@, 0);
                lemma_find_account_props(store.accounts@, to_account@, 0);
                assert(actor@.key == from_account@);
                assert(target@.key == to_account@);
            }
            match store.find_follow_between(&actor.key, &target.key) {
                Ok(found) => {
                    let f = found.deep_clone();
                    Ok((ActionResponse::InitiateFollow { created: false, follow: f }, None))
                },
                Err(_) => {
                    let edge = store.link_follow(&actor, &target, clone_opt(uri), now);
                    let resp_follow = edge.deep_clone();
                    Ok(
                        (
                            ActionResponse::InitiateFollow { created: true, follow: resp_follow },
                            Some(Interaction::InitiateFollow(edge)),
                        ),
                    )
                },
            }
        },
        Action::SetFollowAccepted { key, accepted } => {
            let found = match store.find_follow(key) {
                Ok(e) => e,
                Err(e) => {
                    return Err(e);
                },
            };
            let same = match &found.record.accepted {
                Some(a) => *a == *accepted,
                None => false,
            };
            if same {
                let f = found.deep_clone();
                Ok((ActionResponse::SetFollowAccepted { modified: false, follow: f }, None))
            } else {
                let mut record = found.record.deep_clone();
                record.accepted = Some(*accepted);
                proof {
                    lemma_find_follow_props(store.follows@, key@, 0);
                }
                let saved = store.save_follow(key, record);
                let resp_follow = saved.deep_clone();
                proof {
                    let i = spec_find_follow(*old(store), key@)->0;
                    assert(saved@ =~= (EdgeV {
                        record: FollowV {
                            accepted: Some(*accepted),
                            ..old(store).follows@[i]@.record
                        },
                        ..old(store).follows@[i]@
                    }));
                }
                Ok(
                    (
                        ActionResponse::SetFollowAccepted { modified: true, follow: resp_follow },
                        Some(Interaction::SetFollowAccepted(saved)),
                    ),
                )
            }
        },
    }
}

/// How many of the actions are remote fetches; the worker's caller supplies
/// one fetched document per fetch, in action order.
pub open spec fn spec_count_fetches(actions: Seq<ActionV>) -> nat
    decreases actions.len(),
{
    if actions.len() == 0 {
        0
    } else {
        spec_count_fetches(actions.drop_last()) + (if actions.last() is FetchAccount {
            1nat
        } else {
            0nat
        })
    }
}

/// A prefix never needs more fetched documents than the whole batch.
pub proof fn lemma_count_fetches_mono(actions: Seq<ActionV>, i: int)
    requires
        0 <= i <= actions.len(),
    ensures
        spec_count_fetches(actions.take(i)) <= spec_count_fetches(actions),
    decreases actions.len() - i,
{
    if i < actions.len() {
        lemma_count_fetches_mono(actions, i + 1);
        assert(actions.take(i + 1).drop_last() =~= actions.take(i));
        assert(spec_count_fetches(actions.take(i)) <= spec_count_fetches(actions.take(i + 1)));
    } else {
        assert(actions.take(i) =~= actions);
    }
}


/// The success-relevant abstraction of a store: which account and follow
/// keys exist, which remote URIs are taken, which ordered account pairs
/// are linked by a follow, and the key counter. Whether a batch of
/// actions commits depends on the store only through this.
#[verifier::ext_equal]
pub struct RunStateV {
    pub account_keys: Set<Seq<char>>,
    pub account_uris: Set<UrlV>,
    pub follow_keys: Set<Seq<char>>,
    pub follow_pairs: Set<(Seq<char>, Seq<char>)>,
    pub next_key: int,
}

/// The abstraction of a concrete store.
pub open spec fn spec_run_state(s: GraphStore) -> RunStateV {
    RunStateV {
        account_keys: Set::new(
            |k: Seq<char>|
                exists|i: int|
                    0 <= i < s.accounts@.len() && (#[trigger] s.accounts@[i]@).key == k,
        ),
        account_uris: Set::new(
            |u: UrlV|
                exists|i: int|
                    0 <= i < s.accounts@.len() && account_uri((#[trigger] s.accounts@[i]@).record)
                        == Some(u),
        ),
        follow_keys: Set::new(
            |k: Seq<char>|
                exists|i: int| 0 <= i < s.follows@.len() && (#[trigger] s.follows@[i]@).key == k,
        ),
        follow_pairs: Set::new(
            |p: (Seq<char>, Seq<char>)|
                exists|i: int|
                    0 <= i < s.follows@.len() && ((#[trigger] s.follows@[i]@).from,
                    s.follows@[i]@.to) == p,
        ),
        next_key: s.next_key as int,
    }
}

/// Whether one action succeeds from the given abstract state: a publish
/// needs its named publisher, a fetch needs a fetched document carrying
/// the requested URI, a follow needs both accounts, and an acceptance
/// needs its edge.
pub open spec fn spec_action_admitted(
    m: RunStateV,
    a: ActionV,
    fetched: Option<AccountV>,
) -> bool {
    match a {
        ActionV::PublishNote(note) => note.from matches Some(f) && m.account_keys.contains(f),
        ActionV::FetchAccount(url) => fetched matches Some(b) && (b.remote matches Some(rem)
            && rem.uri == url),
        ActionV::InitiateFollow { from_account, to_account, .. } => m.account_keys.contains(
            from_account,
        ) && m.account_keys.contains(to_account),
        ActionV::SetFollowAccepted { key, .. } => m.follow_keys.contains(key),
    }
}

/// The abstract state after one admitted action.
pub open spec fn spec_action_next(m: RunStateV, a: ActionV, fetched: Option<AccountV>) -> RunStateV {
    match a {
        ActionV::PublishNote(_) => RunStateV { next_key: m.next_key + 2, ..m },
        ActionV::FetchAccount(url) => if m.account_uris.contains(url) {
            m
        } else {
            RunStateV {
                account_keys: m.account_keys.insert(spec_dec(m.next_key as nat)),
                account_uris: m.account_uris.insert(url),
                next_key: m.next_key + 1,
                ..m
            }
        },
        ActionV::InitiateFollow { from_account, to_account, .. } => if m.follow_pairs.contains(
            (from_account, to_account),
        ) {
            m
        } else {
            RunStateV {
                follow_keys: m.follow_keys.insert(spec_dec(m.next_key as nat)),
                follow_pairs: m.follow_pairs.insert((from_account, to_account)),
                next_key: m.next_key + 1,
                ..m
            }
        },
        ActionV::SetFollowAccepted { .. } => m,
    }
}

/// The abstract state after a whole batch, consuming one fetched document
/// per fetch from the end.
pub open spec fn spec_fold_state(
    m: RunStateV,
    actions: Seq<ActionV>,
    fetches: Seq<AccountV>,
) -> RunStateV
    decreases actions.len(),
{
    if actions.len() == 0 {
        m
    } else {
        let a = actions.last();
        if a is FetchAccount {
            spec_action_next(
                spec_fold_state(m, actions.drop_last(), fetches.drop_last()),
                a,
                Some(fetches.last()),
            )
        } else {
            spec_action_next(spec_fold_state(m, actions.drop_last(), fetches), a, None)
        }
    }
}

/// Whether every action of the batch succeeds in order from the given
/// abstract state: exactly when the transaction commits.
pub open spec fn spec_admits(m: RunStateV, actions: Seq<ActionV>, fetches: Seq<AccountV>) -> bool
    decreases actions.len(),
{
    if actions.len() == 0 {
        true
    } else {
        let a = actions.last();
        if a is FetchAccount {
            spec_admits(m, actions.drop_last(), fetches.drop_last()) && spec_action_admitted(
                spec_fold_state(m, actions.drop_last(), fetches.drop_last()),
                a,
                Some(fetches.last()),
            )
        } else {
            spec_admits(m, actions.drop_last(), fetches) && spec_action_admitted(
                spec_fold_state(m, actions.drop_last(), fetches),
                a,
                None,
            )
        }
    }
}

/// One step of the transition relation: the per-action outcome with an
/// `Ok` result.
pub open spec fn spec_step_rel(
    pre: GraphStore,
    post: GraphStore,
    a: ActionV,
    fetched: Option<AccountV>,
    now: i64,
    resp: ActionResponse,
    inter: Option<Interaction>,
) -> bool {
    match a {
        ActionV::PublishNote(note) => outcome_publish_note(pre, post, note, now, Ok((resp, inter))),
        ActionV::FetchAccount(url) => fetched matches Some(b) && outcome_fetch_account(
            pre,
            post,
            url,
            b,
            now,
            Ok((resp, inter)),
        ),
        ActionV::InitiateFollow { from_account, to_account, uri } => outcome_initiate_follow(
            pre,
            post,
            from_account,
            to_account,
            uri,
            now,
            Ok((resp, inter)),
        ),
        ActionV::SetFollowAccepted { key, accepted } => outcome_set_follow_accepted(
            pre,
            post,
            key,
            accepted,
            Ok((resp, inter)),
        ),
    }
}

/// Two stores with the same contents, collection by collection, viewed
/// deeply; a transaction's working copy starts like this.
pub open spec fn store_views_eq(a: GraphStore, b: GraphStore) -> bool {
    &&& a.accounts.deep_view() == b.accounts.deep_view()
    &&& a.notes.deep_view() == b.notes.deep_view()
    &&& a.follows.deep_view() == b.follows.deep_view()
    &&& a.publishes.deep_view() == b.publishes.deep_view()
    &&& a.shares.deep_view() == b.shares.deep_view()
    &&& a.likes.deep_view() == b.likes.deep_view()
    &&& a.next_key == b.next_key
}

/// The whole transition relation for a batch: the post-store and the
/// responses are reached from the pre-store by running every action in
/// order through its outcome relation, starting from a working copy with
/// the same contents.
pub open spec fn spec_steps(
    pre: GraphStore,
    actions: Seq<ActionV>,
    fetches: Seq<AccountV>,
    now: i64,
    post: GraphStore,
    resps: Seq<ActionResponse>,
) -> bool
    decreases actions.len(),
{
    if actions.len() == 0 {
        resps.len() == 0 && store_views_eq(post, pre)
    } else if actions.last() is FetchAccount {
        resps.len() == actions.len() && exists|mid: GraphStore, inter: Option<Interaction>|
            #![trigger spec_step_rel(
                mid,
                post,
                actions.last(),
                Some(fetches.last()),
                now,
                resps.last(),
                inter,
            )]
            {
                &&& spec_steps(
                    pre,
                    actions.drop_last(),
                    fetches.drop_last(),
                    now,
                    mid,
                    resps.drop_last(),
                )
                &&& spec_step_rel(
                    mid,
                    post,
                    actions.last(),
                    Some(fetches.last()),
                    now,
                    resps.last(),
                    inter,
                )
            }
    } else {
        resps.len() == actions.len() && exists|mid: GraphStore, inter: Option<Interaction>|
            #![trigger spec_step_rel(
                mid,
                post,
                actions.last(),
                None::<AccountV>,
                now,
                resps.last(),
                inter,
            )]
            {
                &&& spec_steps(pre, actions.drop_last(), fetches, now, mid, resps.drop_last())
                &&& spec_step_rel(
                    mid,
                    post,
                    actions.last(),
                    None::<AccountV>,
                    now,
                    resps.last(),
                    inter,
                )
            }
    }
}

/// A publish commits exactly when its named publisher exists, and bumps
/// the key counter by two without touching the success-relevant sets.
proof fn lemma_run_state_publish(
    pre: GraphStore,
    post: GraphStore,
    note: NoteV,
    now: i64,
    r: Result<(ActionResponse, Option<Interaction>), Error>,
)
    requires
        outcome_publish_note(pre, post, note, now, r),
    ensures
        (r is Ok) == spec_action_admitted(spec_run_state(pre), ActionV::PublishNote(note), None),
        r is Ok ==> spec_run_state(post) == spec_action_next(
            spec_run_state(pre),
            ActionV::PublishNote(note),
            None,
        ),
{
    let m = spec_run_state(pre);
    match note.from {
        None => {},
        Some(f) => {
            lemma_find_account_props(pre.accounts@, f, 0);
            match spec_find_account(pre, f) {
                None => {
                    if m.account_keys.contains(f) {
                        let i = choose|i: int|
                            0 <= i < pre.accounts@.len() && (#[trigger] pre.accounts@[i]@).key
                                == f;
                        assert(false);
                    }
                },
                Some(i) => {
                    assert(pre.accounts@[i]@.key == f);
                    assert(m.account_keys.contains(f));
                },
            }
        },
    }
    if r is Ok {
        assert(post.accounts@ == pre.accounts@);
        assert(post.follows@ == pre.follows@);
        assert(spec_run_state(post) =~= spec_action_next(m, ActionV::PublishNote(note), None))
            by {
            assert(spec_run_state(post).account_keys =~= m.account_keys);
            assert(spec_run_state(post).account_uris =~= m.account_uris);
            assert(spec_run_state(post).follow_keys =~= m.follow_keys);
            assert(spec_run_state(post).follow_pairs =~= m.follow_pairs);
        }
    }
}

/// A fetch commits exactly when the fetched document carries the asked
/// URI; it adds the account (and URI) only when the URI was new.
proof fn lemma_run_state_fetch(
    pre: GraphStore,
    post: GraphStore,
    url: UrlV,
    body: AccountV,
    now: i64,
    r: Result<(ActionResponse, Option<Interaction>), Error>,
)
    requires
        outcome_fetch_account(pre, post, url, body, now, r),
    ensures
        (r is Ok) == spec_action_admitted(
            spec_run_state(pre),
            ActionV::FetchAccount(url),
            Some(body),
        ),
        r is Ok ==> spec_run_state(post) == spec_action_next(
            spec_run_state(pre),
            ActionV::FetchAccount(url),
            Some(body),
        ),
{
    let m = spec_run_state(pre);
    lemma_find_account_by_uri_props(pre.accounts@, url, 0);
    if r is Ok {
        match spec_find_account_by_uri(pre, url) {
            Some(i) => {
                assert(account_uri(pre.accounts@[i]@.record) == Some(url));
                assert(m.account_uris.contains(url));
                assert(spec_run_state(post) =~= m) by {
                    assert(post.accounts@.len() == pre.accounts@.len());
                    assert(post.follows@ == pre.follows@);
                    assert(account_uri(post.accounts@[i]@.record) == Some(url));
                    assert(post.accounts@[i]@.key == pre.accounts@[i]@.key);
                    assert(spec_run_state(post).account_keys =~= m.account_keys) by {
                        assert forall|k: Seq<char>|
                            spec_run_state(post).account_keys.contains(k)
                                == m.account_keys.contains(k) by {
                            if spec_run_state(post).account_keys.contains(k) {
                                let j = choose|j: int|
                                    0 <= j < post.accounts@.len() && (
                                    #[trigger] post.accounts@[j]@).key == k;
                                assert(pre.accounts@[j]@.key == k);
                            }
                            if m.account_keys.contains(k) {
                                let j = choose|j: int|
                                    0 <= j < pre.accounts@.len() && (
                                    #[trigger] pre.accounts@[j]@).key == k;
                                assert(post.accounts@[j]@.key == k);
                            }
                        }
                    }
                    assert(spec_run_state(post).account_uris =~= m.account_uris) by {
                        assert forall|u: UrlV|
                            spec_run_state(post).account_uris.contains(u)
                                == m.account_uris.contains(u) by {
                            if spec_run_state(post).account_uris.contains(u) {
                                let j = choose|j: int|
                                    0 <= j < post.accounts@.len() && account_uri((
                                    #[trigger] post.accounts@[j]@).record) == Some(u);
                                assert(account_uri(pre.accounts@[j]@.record) == Some(u));
                            }
                            if m.account_uris.contains(u) {
                                let j = choose|j: int|
                                    0 <= j < pre.accounts@.len() && account_uri((
                                    #[trigger] pre.accounts@[j]@).record) == Some(u);
                                assert(account_uri(post.accounts@[j]@.record) == Some(u));
                            }
                        }
                    }
                    assert(spec_run_state(post).follow_keys =~= m.follow_keys);
                    assert(spec_run_state(post).follow_pairs =~= m.follow_pairs);
                }
            },
            None => {
                if m.account_uris.contains(url) {
                    let j = choose|j: int|
                        0 <= j < pre.accounts@.len() && account_uri((
                        #[trigger] pre.accounts@[j]@).record) == Some(url);
                    assert(false);
                }
                let mnext = spec_action_next(m, ActionV::FetchAccount(url), Some(body));
                assert(spec_run_state(post) =~= mnext) by {
                    assert(post.accounts@.len() == pre.accounts@.len() + 1);
                    assert(post.follows@ == pre.follows@);
                    assert(post.accounts@.last()@.key == spec_dec(pre.next_key as nat));
                    assert(account_uri(post.accounts@.last()@.record) == Some(url));
                    assert(spec_run_state(post).account_keys =~= mnext.account_keys) by {
                        assert forall|k: Seq<char>|
                            spec_run_state(post).account_keys.contains(k)
                                == mnext.account_keys.contains(k) by {
                            if spec_run_state(post).account_keys.contains(k) {
                                let j = choose|j: int|
                                    0 <= j < post.accounts@.len() && (
                                    #[trigger] post.accounts@[j]@).key == k;
                                if j < pre.accounts@.len() {
                                    assert(pre.accounts@[j]@.key == k);
                                }
                            }
                            if mnext.account_keys.contains(k) {
                                if m.account_keys.contains(k) {
                                    let j = choose|j: int|
                                        0 <= j < pre.accounts@.len() && (
                                        #[trigger] pre.accounts@[j]@).key == k;
                                    assert(post.accounts@[j]@.key == k);
                                } else {
                                    assert(post.accounts@.last()@.key == k);
                                }
                            }
                        }
                    }
                    assert(spec_run_state(post).account_uris =~= mnext.account_uris) by {
                        assert forall|u: UrlV|
                            spec_run_state(post).account_uris.contains(u)
                                == mnext.account_uris.contains(u) by {
                            if spec_run_state(post).account_uris.contains(u) {
                                let j = choose|j: int|
                                    0 <= j < post.accounts@.len() && account_uri((
                                    #[trigger] post.accounts@[j]@).record) == Some(u);
                                if j < pre.accounts@.len() {
                                    assert(account_uri(pre.accounts@[j]@.record) == Some(u));
                                }
                            }
                            if mnext.account_uris.contains(u) {
                                if m.account_uris.contains(u) {
                                    let j = choose|j: int|
                                        0 <= j < pre.accounts@.len() && account_uri((
                                        #[trigger] pre.accounts@[j]@).record) == Some(u);
                                    assert(account_uri(post.accounts@[j]@.record) == Some(u));
                                } else {
                                    assert(account_uri(post.accounts@.last()@.record) == Some(
                                        u,
                                    ));
                                }
                            }
                        }
                    }
                    assert(spec_run_state(post).follow_keys =~= mnext.follow_keys);
                    assert(spec_run_state(post).follow_pairs =~= mnext.follow_pairs);
                }
            },
        }
    }
}

/// A follow initiation commits exactly when both accounts exist; it adds
/// the edge (and its pair) only when the pair was unlinked.
proof fn lemma_run_state_initiate(
    pre: GraphStore,
    post: GraphStore,
    from: Seq<char>,
    to: Seq<char>,
    uri: Option<UrlV>,
    now: i64,
    r: Result<(ActionResponse, Option<Interaction>), Error>,
)
    requires
        outcome_initiate_follow(pre, post, from, to, uri, now, r),
    ensures
        (r is Ok) == spec_action_admitted(
            spec_run_state(pre),
            ActionV::InitiateFollow { from_account: from, to_account: to, uri },
            None,
        ),
        r is Ok ==> spec_run_state(post) == spec_action_next(
            spec_run_state(pre),
            ActionV::InitiateFollow { from_account: from, to_account: to, uri },
            None,
        ),
{
    let m = spec_run_state(pre);
    let aV = ActionV::InitiateFollow { from_account: from, to_account: to, uri };
    lemma_find_account_props(pre.accounts@, from, 0);
    lemma_find_account_props(pre.accounts@, to, 0);
    match spec_find_account(pre, from) {
        Some(i) => {
            assert(pre.accounts@[i]@.key == from);
            assert(m.account_keys.contains(from));
        },
        None => {},
    }
    match spec_find_account(pre, to) {
        Some(i) => {
            assert(pre.accounts@[i]@.key == to);
            assert(m.account_keys.contains(to));
        },
        None => {},
    }
    if spec_find_account(pre, from) is None && m.account_keys.contains(from) {
        let i = choose|i: int|
            0 <= i < pre.accounts@.len() && (#[trigger] pre.accounts@[i]@).key == from;
        assert(false);
    }
    if spec_find_account(pre, to) is None && m.account_keys.contains(to) {
        let i = choose|i: int|
            0 <= i < pre.accounts@.len() && (#[trigger] pre.accounts@[i]@).key == to;
        assert(false);
    }
    if r is Ok {
        match crate::store::spec_find_follow_between(pre, from, to) {
            Some(i) => {
                crate::store::lemma_follow_between_some(pre.follows@, from, to, 0);
                assert(m.follow_pairs.contains((from, to)));
                assert(post == pre);
                assert(spec_run_state(post) =~= spec_action_next(m, aV, None));
            },
            None => {
                crate::store::lemma_follow_between_none(pre.follows@, from, to, 0);
                if m.follow_pairs.contains((from, to)) {
                    let i = choose|i: int|
                        0 <= i < pre.follows@.len() && ((#[trigger] pre.follows@[i]@).from,
                        pre.follows@[i]@.to) == (from, to);
                    assert(false);
                }
                let mnext = spec_action_next(m, aV, None);
                assert(spec_run_state(post) =~= mnext) by {
                    assert(post.accounts@ == pre.accounts@);
                    assert(post.follows@.len() == pre.follows@.len() + 1);
                    assert(post.follows@.last()@.key == spec_dec(pre.next_key as nat));
                    assert(post.follows@.last()@.from == from);
                    assert(post.follows@.last()@.to == to);
                    assert(spec_run_state(post).account_keys =~= m.account_keys);
                    assert(spec_run_state(post).account_uris =~= m.account_uris);
                    assert(spec_run_state(post).follow_keys =~= mnext.follow_keys) by {
                        assert forall|k: Seq<char>|
                            spec_run_state(post).follow_keys.contains(k)
                                == mnext.follow_keys.contains(k) by {
                            if spec_run_state(post).follow_keys.contains(k) {
                                let j = choose|j: int|
                                    0 <= j < post.follows@.len() && (
                                    #[trigger] post.follows@[j]@).key == k;
                                if j < pre.follows@.len() {
                                    assert(pre.follows@[j]@.key == k);
                                }
                            }
                            if mnext.follow_keys.contains(k) {
                                if m.follow_keys.contains(k) {
                                    let j = choose|j: int|
                                        0 <= j < pre.follows@.len() && (
                                        #[trigger] pre.follows@[j]@).key == k;
                                    assert(post.follows@[j]@.key == k);
                                } else {
                                    assert(post.follows@.last()@.key == k);
                                }
                            }
                        }
                    }
                    assert(spec_run_state(post).follow_pairs =~= mnext.follow_pairs) by {
                        assert forall|p: (Seq<char>, Seq<char>)|
                            spec_run_state(post).follow_pairs.contains(p)
                                == mnext.follow_pairs.contains(p) by {
                            if spec_run_state(post).follow_pairs.contains(p) {
                                let j = choose|j: int|
                                    0 <= j < post.follows@.len() && ((
                                    #[trigger] post.follows@[j]@).from, post.follows@[j]@.to)
                                        == p;
                                if j < pre.follows@.len() {
                                    assert((pre.follows@[j]@.from, pre.follows@[j]@.to) == p);
                                }
                            }
                            if mnext.follow_pairs.contains(p) {
                                if m.follow_pairs.contains(p) {
                                    let j = choose|j: int|
                                        0 <= j < pre.follows@.len() && ((
                                        #[trigger] pre.follows@[j]@).from,
                                        pre.follows@[j]@.to) == p;
                                    assert((post.follows@[j]@.from, post.follows@[j]@.to)
                                        == p);
                                } else {
                                    assert((post.follows@.last()@.from,
                                    post.follows@.last()@.to) == p);
                                }
                            }
                        }
                    }
                }
            },
        }
    }
}

/// An acceptance change commits exactly when the edge exists, and never
/// changes the success-relevant sets.
proof fn lemma_run_state_set_accepted(
    pre: GraphStore,
    post: GraphStore,
    key: Seq<char>,
    accepted: bool,
    r: Result<(ActionResponse, Option<Interaction>), Error>,
)
    requires
        outcome_set_follow_accepted(pre, post, key, accepted, r),
    ensures
        (r is Ok) == spec_action_admitted(
            spec_run_state(pre),
            ActionV::SetFollowAccepted { key, accepted },
            None,
        ),
        r is Ok ==> spec_run_state(post) == spec_action_next(
            spec_run_state(pre),
            ActionV::SetFollowAccepted { key, accepted },
            None,
        ),
{
    let m = spec_run_state(pre);
    lemma_find_follow_props(pre.follows@, key, 0);
    match spec_find_follow(pre, key) {
        None => {
            if m.follow_keys.contains(key) {
                let i = choose|i: int|
                    0 <= i < pre.follows@.len() && (#[trigger] pre.follows@[i]@).key == key;
                assert(false);
            }
        },
        Some(i) => {
            assert(pre.follows@[i]@.key == key);
            assert(m.follow_keys.contains(key));
            if r is Ok {
                let e = pre.follows@[i]@;
                if e.record.accepted == Some(accepted) {
                    assert(post == pre);
                    assert(spec_run_state(post) =~= m);
                } else {
                    assert(spec_run_state(post) =~= m) by {
                        assert(post.accounts@ == pre.accounts@);
                        assert(post.follows@.len() == pre.follows@.len());
                        assert(forall|j: int|
                            0 <= j < post.follows@.len() ==> (#[trigger] post.follows@[j]@).key
                                == pre.follows@[j]@.key && post.follows@[j]@.from
                                == pre.follows@[j]@.from && post.follows@[j]@.to
                                == pre.follows@[j]@.to);
                        assert(spec_run_state(post).account_keys =~= m.account_keys);
                        assert(spec_run_state(post).account_uris =~= m.account_uris);
                        assert(spec_run_state(post).follow_keys =~= m.follow_keys) by {
                            assert forall|k: Seq<char>|
                                spec_run_state(post).follow_keys.contains(k)
                                    == m.follow_keys.contains(k) by {
                                if spec_run_state(post).follow_keys.contains(k) {
                                    let j = choose|j: int|
                                        0 <= j < post.follows@.len() && (
                                        #[trigger] post.follows@[j]@).key == k;
                                    assert(pre.follows@[j]@.key == k);
                                }
                                if m.follow_keys.contains(k) {
                                    let j = choose|j: int|
                                        0 <= j < pre.follows@.len() && (
                                        #[trigger] pre.follows@[j]@).key == k;
                                    assert(post.follows@[j]@.key == k);
                                }
                            }
                        }
                        assert(spec_run_state(post).follow_pairs =~= m.follow_pairs) by {
                            assert forall|p: (Seq<char>, Seq<char>)|
                                spec_run_state(post).follow_pairs.contains(p)
                                    == m.follow_pairs.contains(p) by {
                                if spec_run_state(post).follow_pairs.contains(p) {
                                    let j = choose|j: int|
                                        0 <= j < post.follows@.len() && ((
                                        #[trigger] post.follows@[j]@).from,
                                        post.follows@[j]@.to) == p;
                                    assert((pre.follows@[j]@.from, pre.follows@[j]@.to) == p);
                                }
                                if m.follow_pairs.contains(p) {
                                    let j = choose|j: int|
                                        0 <= j < pre.follows@.len() && ((
                                        #[trigger] pre.follows@[j]@).from,
                                        pre.follows@[j]@.to) == p;
                                    assert((post.follows@[j]@.from, post.follows@[j]@.to)
                                        == p);
                                }
                            }
                        }
                    }
                }
            }
        },
    }
}


/// If a whole batch is admitted, then so is each prefix, and each action
/// is admitted from the state its prefix folds to.
proof fn lemma_admits_at(m0: RunStateV, actions: Seq<ActionV>, fetches: Seq<AccountV>, i: int)
    requires
        spec_admits(m0, actions, fetches),
        0 <= i < actions.len(),
        fetches.len() == spec_count_fetches(actions),
    ensures
        ({
            let cnt = spec_count_fetches(actions.take(i)) as int;
            &&& spec_admits(m0, actions.take(i), fetches.take(cnt))
            &&& spec_action_admitted(
                spec_fold_state(m0, actions.take(i), fetches.take(cnt)),
                actions[i],
                if actions[i] is FetchAccount {
                    Some(fetches[cnt])
                } else {
                    None
                },
            )
        }),
    decreases actions.len(),
{
    let cnt = spec_count_fetches(actions.take(i)) as int;
    lemma_count_fetches_mono(actions, i);
    assert(actions.take(i + 1).drop_last() =~= actions.take(i));
    assert(spec_count_fetches(actions.take(i + 1)) == spec_count_fetches(actions.take(i)) + (
    if actions[i] is FetchAccount {
        1nat
    } else {
        0nat
    }));
    lemma_count_fetches_mono(actions, i + 1);
    if i == actions.len() - 1 {
        assert(actions.take(i) =~= actions.drop_last());
        if actions.last() is FetchAccount {
            assert(spec_count_fetches(actions) == spec_count_fetches(actions.drop_last()) + 1);
            assert(cnt == fetches.len() - 1);
            assert(fetches.take(cnt) =~= fetches.drop_last());
            assert(fetches[cnt] == fetches.last());
        } else {
            assert(spec_count_fetches(actions) == spec_count_fetches(actions.drop_last()));
            assert(cnt == fetches.len());
            assert(fetches.take(cnt) =~= fetches);
        }
    } else {
        let pre_actions = actions.drop_last();
        let pre_fetches = if actions.last() is FetchAccount {
            fetches.drop_last()
        } else {
            fetches
        };
        assert(spec_admits(m0, pre_actions, pre_fetches));
        assert(pre_fetches.len() == spec_count_fetches(pre_actions));
        assert(pre_actions.take(i) =~= actions.take(i));
        assert(pre_actions.take(i + 1) =~= actions.take(i + 1));
        assert(pre_actions[i] == actions[i]);
        lemma_admits_at(m0, pre_actions, pre_fetches, i);
        lemma_count_fetches_mono(pre_actions, i + 1);
        assert(spec_count_fetches(actions.take(i + 1)) <= spec_count_fetches(pre_actions));
        assert(pre_fetches.take(cnt) =~= fetches.take(cnt));
        if actions[i] is FetchAccount {
            assert(cnt < spec_count_fetches(actions.take(i + 1)));
            assert(cnt < pre_fetches.len());
            assert(pre_fetches[cnt] == fetches[cnt]);
        }
    }
}


/// Stores with the same account and follow contents and the same counter
/// abstract to the same run state.
proof fn lemma_run_state_of_views(a: GraphStore, b: GraphStore)
    requires
        a.accounts.deep_view() == b.accounts.deep_view(),
        a.follows.deep_view() == b.follows.deep_view(),
        a.next_key == b.next_key,
    ensures
        spec_run_state(a) == spec_run_state(b),
{
    assert(a.accounts.deep_view().len() == a.accounts@.len());
    assert(b.accounts.deep_view().len() == b.accounts@.len());
    assert(a.follows.deep_view().len() == a.follows@.len());
    assert(b.follows.deep_view().len() == b.follows@.len());
    assert forall|i: int| 0 <= i < a.accounts@.len() implies #[trigger] a.accounts@[i]@
        == b.accounts@[i]@ by {
        assert(a.accounts.deep_view()[i] == a.accounts@[i].deep_view());
        assert(b.accounts.deep_view()[i] == b.accounts@[i].deep_view());
    }
    assert forall|i: int| 0 <= i < a.follows@.len() implies #[trigger] a.follows@[i]@
        == b.follows@[i]@ by {
        assert(a.follows.deep_view()[i] == a.follows@[i].deep_view());
        assert(b.follows.deep_view()[i] == b.follows@[i].deep_view());
    }
    assert(spec_run_state(a) =~= spec_run_state(b)) by {
        assert(spec_run_state(a).account_keys =~= spec_run_state(b).account_keys) by {
            assert forall|k: Seq<char>|
                spec_run_state(a).account_keys.contains(k) == spec_run_state(
                    b,
                ).account_keys.contains(k) by {
                if spec_run_state(a).account_keys.contains(k) {
                    let j = choose|j: int|
                        0 <= j < a.accounts@.len() && (#[trigger] a.accounts@[j]@).key == k;
                    assert(b.accounts@[j]@.key == k);
                }
                if spec_run_state(b).account_keys.contains(k) {
                    let j = choose|j: int|
                        0 <= j < b.accounts@.len() && (#[trigger] b.accounts@[j]@).key == k;
                    assert(a.accounts@[j]@.key == k);
                }
            }
        }
        assert(spec_run_state(a).account_uris =~= spec_run_state(b).account_uris) by {
            assert forall|u: UrlV|
                spec_run_state(a).account_uris.contains(u) == spec_run_state(
                    b,
                ).account_uris.contains(u) by {
                if spec_run_state(a).account_uris.contains(u) {
                    let j = choose|j: int|
                        0 <= j < a.accounts@.len() && account_uri((
                        #[trigger] a.accounts@[j]@).record) == Some(u);
                    assert(account_uri(b.accounts@[j]@.record) == Some(u));
                }
                if spec_run_state(b).account_uris.contains(u) {
                    let j = choose|j: int|
                        0 <= j < b.accounts@.len() && account_uri((
                        #[trigger] b.accounts@[j]@).record) == Some(u);
                    assert(account_uri(a.accounts@[j]@.record) == Some(u));
                }
            }
        }
        assert(spec_run_state(a).follow_keys =~= spec_run_state(b).follow_keys) by {
            assert forall|k: Seq<char>|
                spec_run_state(a).follow_keys.contains(k) == spec_run_state(
                    b,
                ).follow_keys.contains(k) by {
                if spec_run_state(a).follow_keys.contains(k) {
                    let j = choose|j: int|
                        0 <= j < a.follows@.len() && (#[trigger] a.follows@[j]@).key == k;
                    assert(b.follows@[j]@.key == k);
                }
                if spec_run_state(b).follow_keys.contains(k) {
                    let j = choose|j: int|
                        0 <= j < b.follows@.len() && (#[trigger] b.follows@[j]@).key == k;
                    assert(a.follows@[j]@.key == k);
                }
            }
        }
        assert(spec_run_state(a).follow_pairs =~= spec_run_state(b).follow_pairs) by {
            assert forall|p: (Seq<char>, Seq<char>)|
                spec_run_state(a).follow_pairs.contains(p) == spec_run_state(
                    b,
                ).follow_pairs.contains(p) by {
                if spec_run_state(a).follow_pairs.contains(p) {
                    let j = choose|j: int|
                        0 <= j < a.follows@.len() && ((#[trigger] a.follows@[j]@).from,
                        a.follows@[j]@.to) == p;
                    assert((b.follows@[j]@.from, b.follows@[j]@.to) == p);
                }
                if spec_run_state(b).follow_pairs.contains(p) {
                    let j = choose|j: int|
                        0 <= j < b.follows@.len() && ((#[trigger] b.follows@[j]@).from,
                        b.follows@[j]@.to) == p;
                    assert((a.follows@[j]@.from, a.follows@[j]@.to) == p);
                }
            }
        }
    }
}

/// Executes a transaction atomically: the actions run in order against a
/// working copy of the store, which replaces the store only if every action
/// succeeds. On success the reply holds exactly one response per action, in
/// order and with matching variants, and the buffered interactions are
/// exactly those the committed responses announce, in that order. On
/// failure the store is untouched and no interaction is emitted.
#[verifier::loop_isolation(false)]
pub fn execute_transaction(
    store: &mut GraphStore,
    tx: &Transaction,
    fetches: &Vec<Account>,
    now: i64,
) -> (r: Result<(TransactionResponse, Vec<Interaction>), Error>)
    requires
        store_wf(*old(store)),
        old(store).next_key + 2 * tx.actions@.len() <= u64::MAX,
        fetches@.len() == spec_count_fetches(tx@),
        forall|i: int| 0 <= i < fetches@.len() ==> account_wf(#[trigger] fetches@[i]@),
    ensures
        r is Err ==> *final(store) == *old(store),
        r is Ok ==> store_wf(*final(store)),
        r is Ok ==> r->Ok_0.0.responses@.len() == tx.actions@.len(),
        r is Ok ==> forall|i: int|
            0 <= i < tx.actions@.len() ==> response_matches_action(
                tx.actions@[i]@,
                #[trigger] r->Ok_0.0.responses@[i]@,
            ),
        r is Ok ==> r->Ok_0.1.deep_view() == spec_emitted_all(r->Ok_0.0@),
        r is Ok <==> spec_admits(spec_run_state(*old(store)), tx@, fetches.deep_view()),
        r is Ok ==> spec_steps(
            *old(store),
            tx@,
            fetches.deep_view(),
            now,
            *final(store),
            r->Ok_0.0.responses@,
        ),
{
    let ghost m0 = spec_run_state(*old(store));
    let ghost fdv = fetches.deep_view();
    let mut work = store.snapshot();
    proof {
        lemma_run_state_of_views(work, *old(store));
        assert(fdv.len() == fetches@.len());
        assert(tx@.take(0) =~= Seq::<ActionV>::empty());
        assert(fdv.take(0) =~= Seq::<AccountV>::empty());
        assert(spec_steps(
            *old(store),
            tx@.take(0),
            fdv.take(0),
            now,
            work,
            Seq::<ActionResponse>::empty(),
        ));
    }
    let mut responses: Vec<ActionResponse> = Vec::new();
    let mut interactions: Vec<Interaction> = Vec::new();
    let mut fetch_used: usize = 0;
    let mut i: usize = 0;
    proof {
        assert(interactions.deep_view() =~= spec_emitted_all(responses.deep_view()));
    }
    while i < tx.actions.len()
        invariant
            store_wf(work),
            i <= tx.actions@.len(),
            work.next_key <= old(store).next_key + 2 * (i as int),
            responses@.len() == i,
            forall|j: int|
                0 <= j < i ==> response_matches_action(
                    tx.actions@[j]@,
                    #[trigger] responses@[j]@,
                ),
            interactions.deep_view() == spec_emitted_all(responses.deep_view()),
            fetch_used == spec_count_fetches(tx@.take(i as int)),
            fetch_used <= fetches@.len(),
            *store == *old(store),
            spec_run_state(work) == spec_fold_state(
                m0,
                tx@.take(i as int),
                fdv.take(fetch_used as int),
            ),
            spec_admits(m0, tx@.take(i as int), fdv.take(fetch_used as int)),
            spec_steps(
                *old(store),
                tx@.take(i as int),
                fdv.take(fetch_used as int),
                now,
                work,
                responses@,
            ),
        decreases tx.actions@.len() - i,
    {
        let ghost prefix = tx@.take(i as int);
        proof {
            assert(tx@.take(i + 1).drop_last() =~= prefix);
            assert(tx@.take(i + 1).last() == tx.actions@[i as int]@);
            lemma_count_fetches_mono(tx@, i + 1);
        }
        let action = &tx.actions[i];
        let is_fetch = matches!(action, Action::FetchAccount(_));
        proof {
            assert(tx@[i as int] == tx.actions@[i as int]@);
            if is_fetch {
                assert(tx@.take(i + 1).last() is FetchAccount);
                assert(spec_count_fetches(tx@.take(i + 1)) == spec_count_fetches(prefix) + 1);
                assert(fetch_used + 1 <= fetches@.len());
            }
            assert(old(store).next_key + 2 * (i as int) + 2 <= u64::MAX);
        }
        let fetched_opt: Option<&Account> = if is_fetch {
            Some(&fetches[fetch_used])
        } else {
            None
        };
        let ghost work_before = work;
        let ghost aV = tx.actions@[i as int]@;
        let ghost fopt: Option<AccountV> = if is_fetch {
            Some(fdv[fetch_used as int])
        } else {
            None
        };
        let step = execute_action(&mut work, action, fetched_opt, now);
        let ghost step_g = step;
        proof {
            if is_fetch {
                assert(fetches@[fetch_used as int]@ == fdv[fetch_used as int]);
            }
            match aV {
                ActionV::PublishNote(note) => lemma_run_state_publish(
                    work_before,
                    work,
                    note,
                    now,
                    step_g,
                ),
                ActionV::FetchAccount(url) => lemma_run_state_fetch(
                    work_before,
                    work,
                    url,
                    fdv[fetch_used as int],
                    now,
                    step_g,
                ),
                ActionV::InitiateFollow { from_account, to_account, uri } => {
                    lemma_run_state_initiate(
                        work_before,
                        work,
                        from_account,
                        to_account,
                        uri,
                        now,
                        step_g,
                    );
                },
                ActionV::SetFollowAccepted { key, accepted } => lemma_run_state_set_accepted(
                    work_before,
                    work,
                    key,
                    accepted,
                    step_g,
                ),
            }
        }
        match step {
            Ok((resp, inter)) => {
                let ghost resp_g = resp;
                let ghost inter_g = inter;
                let ghost resps_value_before = responses@;
                let ghost resps_before = responses.deep_view();
                responses.push(resp);
                proof {
                    assert(responses.deep_view() =~= resps_before.push(responses@.last()@));
                    assert(responses.deep_view().drop_last() =~= resps_before);
                }
                match inter {
                    Some(x) => {
                        let ghost inters_before = interactions.deep_view();
                        interactions.push(x);
                        proof {
                            assert(interactions.deep_view() =~= inters_before.push(
                                interactions@.last()@,
                            ));
                            assert(interactions.deep_view() =~= spec_emitted_all(
                                responses.deep_view(),
                            ));
                        }
                    },
                    None => {
                        proof {
                            assert(interactions.deep_view() =~= spec_emitted_all(
                                responses.deep_view(),
                            ));
                        }
                    },
                }
                if is_fetch {
                    proof {
                        broadcast use vstd::std_specs::vec::axiom_spec_len;

                        assert(fetch_used + 1 <= fetches.len());
                    }
                    fetch_used = fetch_used + 1;
                }
                i = i + 1;
                proof {
                    let new_fdv = fdv.take(fetch_used as int);
                    let cur = tx@.take(i as int);
                    assert(cur.drop_last() =~= prefix);
                    assert(cur.last() == aV);
                    if aV is FetchAccount {
                        assert(new_fdv.drop_last() =~= fdv.take(fetch_used - 1));
                        assert(new_fdv.last() == fdv[fetch_used - 1]);
                    }
                    assert(spec_step_rel(work_before, work, aV, fopt, now, resp_g, inter_g));
                    assert(spec_run_state(work) == spec_fold_state(m0, cur, new_fdv));
                    assert(spec_admits(m0, cur, new_fdv));
                    assert(responses@ =~= resps_value_before.push(resp_g));
                    assert(responses@.drop_last() =~= resps_value_before);
                    assert(responses@.last() == resp_g);
                    assert(spec_step_rel(
                        work_before,
                        work,
                        cur.last(),
                        if cur.last() is FetchAccount {
                            Some(new_fdv.last())
                        } else {
                            None
                        },
                        now,
                        responses@.last(),
                        inter_g,
                    ));
                    assert(spec_steps(
                        *old(store),
                        cur.drop_last(),
                        if cur.last() is FetchAccount {
                            new_fdv.drop_last()
                        } else {
                            new_fdv
                        },
                        now,
                        work_before,
                        responses@.drop_last(),
                    ));
                    assert(responses@.len() == cur.len());
                    if cur.last() is FetchAccount {
                        assert(exists|mid: GraphStore, inter: Option<Interaction>|
                            #![trigger spec_step_rel(
                                mid,
                                work,
                                cur.last(),
                                Some(new_fdv.last()),
                                now,
                                responses@.last(),
                                inter,
                            )]
                            {
                                &&& spec_steps(
                                    *old(store),
                                    cur.drop_last(),
                                    new_fdv.drop_last(),
                                    now,
                                    mid,
                                    responses@.drop_last(),
                                )
                                &&& spec_step_rel(
                                    mid,
                                    work,
                                    cur.last(),
                                    Some(new_fdv.last()),
                                    now,
                                    responses@.last(),
                                    inter,
                                )
                            });
                    } else {
                        assert(exists|mid: GraphStore, inter: Option<Interaction>|
                            #![trigger spec_step_rel(
                                mid,
                                work,
                                cur.last(),
                                None::<AccountV>,
                                now,
                                responses@.last(),
                                inter,
                            )]
                            {
                                &&& spec_steps(
                                    *old(store),
                                    cur.drop_last(),
                                    new_fdv,
                                    now,
                                    mid,
                                    responses@.drop_last(),
                                )
                                &&& spec_step_rel(
                                    mid,
                                    work,
                                    cur.last(),
                                    None::<AccountV>,
                                    now,
                                    responses@.last(),
                                    inter,
                                )
                            });
                    }
                    assert(spec_steps(*old(store), cur, new_fdv, now, work, responses@));
                }
            },
            Err(e) => {
                proof {
                    if spec_admits(m0, tx@, fdv) {
                        lemma_admits_at(m0, tx@, fdv, i as int);
                        assert(spec_count_fetches(tx@.take(i as int)) == fetch_used);
                        assert(false);
                    }
                }
                return Err(e);
            },
        }
    }
    proof {
        assert(tx@.take(i as int) =~= tx@);
        assert(fdv.take(fetch_used as int) =~= fdv);
    }
    *store = work;
    Ok((TransactionResponse { responses }, interactions))
}


/// Relies on `chrono::Utc::now`: the current wall-clock time in
/// milliseconds since the epoch. Nothing is promised of the value; the
/// clock may read anything, so callers state what holds for every time.
#[verifier::external_body]
fn now_millis() -> i64 {
    chrono::Utc::now().timestamp_millis()
}

/// Executes a transaction stamped with the current wall-clock time; the
/// guarantees of [`execute_transaction`] that do not depend on the clock
/// carry over: the transaction commits exactly when every action is
/// admitted — success never depends on the drawn time — with one matching
/// response per action, interactions exactly as announced, and an
/// untouched store on failure.
pub fn execute_transaction_now(
    store: &mut GraphStore,
    tx: &Transaction,
    fetches: &Vec<Account>,
) -> (r: Result<(TransactionResponse, Vec<Interaction>), Error>)
    requires
        store_wf(*old(store)),
        old(store).next_key + 2 * tx.actions@.len() <= u64::MAX,
        fetches@.len() == spec_count_fetches(tx@),
        forall|i: int| 0 <= i < fetches@.len() ==> account_wf(#[trigger] fetches@[i]@),
    ensures
        r is Err ==> *final(store) == *old(store),
        r is Ok ==> store_wf(*final(store)),
        r is Ok ==> r->Ok_0.0.responses@.len() == tx.actions@.len(),
        r is Ok ==> forall|i: int|
            0 <= i < tx.actions@.len() ==> response_matches_action(
                tx.actions@[i]@,
                #[trigger] r->Ok_0.0.responses@[i]@,
            ),
        r is Ok ==> r->Ok_0.1.deep_view() == spec_emitted_all(r->Ok_0.0@),
        r is Ok <==> spec_admits(spec_run_state(*old(store)), tx@, fetches.deep_view()),
        r is Ok ==> exists|t: i64|
            #[trigger] spec_steps(
                *old(store),
                tx@,
                fetches.deep_view(),
                t,
                *final(store),
                r->Ok_0.0.responses@,
            ),
{
    let now = now_millis();
    let r = execute_transaction(store, tx, fetches, now);
    proof {
        if r is Ok {
            assert(spec_steps(
                *old(store),
                tx@,
                fetches.deep_view(),
                now,
                *store,
                r->Ok_0.0.responses@,
            ));
        }
    }
    r
}

/// Follow-key searches depend only on the keys of the edges, so updating an
/// edge's record in place never changes which edge a key finds.
proof fn lemma_follow_index_same_keys(
    e1: Seq<crate::model::Edge<crate::model::Follow>>,
    e2: Seq<crate::model::Edge<crate::model::Follow>>,
    key: Seq<char>,
    at: int,
)
    requires
        e1.len() == e2.len(),
        forall|j: int| 0 <= j < e1.len() ==> (#[trigger] e1[j]@.key) == e2[j]@.key,
    ensures
        crate::store::spec_first_follow_index(e1, key, at) == crate::store::spec_first_follow_index(
            e2,
            key,
            at,
        ),
    decreases e1.len() - at,
{
    if 0 <= at < e1.len() && e1[at]@.key != key {
        lemma_follow_index_same_keys(e1, e2, key, at + 1);
    }
}

/// Initiating the same follow twice creates the edge exactly once: the
/// first run answers `created == true` and announces one interaction, the
/// second answers `created == false` with the same edge, announces nothing,
/// and leaves the store untouched.
pub proof fn lemma_follow_idempotence(
    pre: GraphStore,
    mid: GraphStore,
    post: GraphStore,
    from: Seq<char>,
    to: Seq<char>,
    uri1: Option<UrlV>,
    uri2: Option<UrlV>,
    now1: i64,
    now2: i64,
    r1: Result<(ActionResponse, Option<Interaction>), Error>,
    r2: Result<(ActionResponse, Option<Interaction>), Error>,
)
    requires
        spec_find_account(pre, from) is Some,
        spec_find_account(pre, to) is Some,
        spec_find_follow_between(pre, from, to) is None,
        outcome_initiate_follow(pre, mid, from, to, uri1, now1, r1),
        outcome_initiate_follow(mid, post, from, to, uri2, now2, r2),
    ensures
        r1 is Ok,
        r1->Ok_0.0 matches ActionResponse::InitiateFollow { created: c1, .. } && c1 == true,
        r2 is Ok,
        r2->Ok_0.0 matches ActionResponse::InitiateFollow { created: c2, follow: f2 } && c2
            == false && f2@ == mid.follows@.last()@,
        post == mid,
        spec_emitted(r1->Ok_0.0@).len() == 1,
        spec_emitted(r2->Ok_0.0@).len() == 0,
{
    assert(spec_find_account(mid, from) == spec_find_account(pre, from));
    assert(spec_find_account(mid, to) == spec_find_account(pre, to));
    let found = crate::store::spec_find_follow_between(mid, from, to);
    if found is None {
        crate::store::lemma_follow_between_none(mid.follows@, from, to, 0);
        assert(mid.follows@.last()@.from == from && mid.follows@.last()@.to == to);
        assert(false);
    }
    crate::store::lemma_follow_between_some(mid.follows@, from, to, 0);
    crate::store::lemma_follow_between_none(pre.follows@, from, to, 0);
    let i = found->0;
    if i < pre.follows@.len() {
        assert(mid.follows@[i] == pre.follows@[i]);
        assert(false);
    }
    assert(i == mid.follows@.len() - 1);
}

/// Setting a follow's acceptance twice to the same state records it exactly
/// once: the first run answers `modified == true` and announces one
/// interaction, the second answers `modified == false`, announces nothing,
/// and leaves the store untouched.
pub proof fn lemma_set_follow_accepted_idempotence(
    pre: GraphStore,
    mid: GraphStore,
    post: GraphStore,
    key: Seq<char>,
    accepted: bool,
    r1: Result<(ActionResponse, Option<Interaction>), Error>,
    r2: Result<(ActionResponse, Option<Interaction>), Error>,
)
    requires
        spec_find_follow(pre, key) is Some,
        pre.follows@[spec_find_follow(pre, key)->0]@.record.accepted != Some(accepted),
        outcome_set_follow_accepted(pre, mid, key, accepted, r1),
        outcome_set_follow_accepted(mid, post, key, accepted, r2),
    ensures
        r1 is Ok,
        r1->Ok_0.0 matches ActionResponse::SetFollowAccepted { modified: m1, .. } && m1 == true,
        r2 is Ok,
        r2->Ok_0.0 matches ActionResponse::SetFollowAccepted { modified: m2, .. } && m2 == false,
        post == mid,
        spec_emitted(r1->Ok_0.0@).len() == 1,
        spec_emitted(r2->Ok_0.0@).len() == 0,
{
    let i = spec_find_follow(pre, key)->0;
    crate::store::lemma_find_follow_props(pre.follows@, key, 0);
    assert(forall|j: int|
        0 <= j < mid.follows@.len() ==> (#[trigger] mid.follows@[j]@.key)
            == pre.follows@[j]@.key);
    lemma_follow_index_same_keys(mid.follows@, pre.follows@, key, 0);
    assert(spec_find_follow(mid, key) == spec_find_follow(pre, key));
    assert(mid.follows@[i]@.record.accepted == Some(accepted));
}

} // verus!
