//! The wire types carried by the broker: transactions of actions, their
//! responses, and the interactions announced after commit.

use vstd::prelude::*;

use crate::errors::Error;
use crate::model::Account;
use crate::model::AccountV;
use crate::model::DeepClone;
use crate::model::Document;
use crate::model::DocumentV;
use crate::model::Edge;
use crate::model::EdgeV;
use crate::model::Follow;
use crate::model::FollowV;
use crate::model::Note;
use crate::model::NoteV;
use crate::model::clone_opt;
use crate::urls::AbsUrl;
use crate::urls::UrlV;

verus! {

/// One request to the worker: a graph mutation or a remote fetch.
pub enum Action {
    /// Get or update a remote account by its URI.
    FetchAccount(AbsUrl),
    /// Publish a note.
    PublishNote(Note),
    /// Start a follow between two accounts, named by their keys.
    InitiateFollow { from_account: String, to_account: String, uri: Option<AbsUrl> },
    /// Accept or reject the follow edge with the given key.
    SetFollowAccepted { key: String, accepted: bool },
}

/// The specification value of an [`Action`].
pub enum ActionV {
    FetchAccount(UrlV),
    PublishNote(NoteV),
    InitiateFollow { from_account: Seq<char>, to_account: Seq<char>, uri: Option<UrlV> },
    SetFollowAccepted { key: Seq<char>, accepted: bool },
}

impl View for Action {
    type V = ActionV;

    open spec fn view(&self) -> ActionV {
        match self {
            Action::FetchAccount(url) => ActionV::FetchAccount(url@),
            Action::PublishNote(note) => ActionV::PublishNote(note@),
            Action::InitiateFollow { from_account, to_account, uri } => ActionV::InitiateFollow {
                from_account: from_account@,
                to_account: to_account@,
                uri: uri.deep_view(),
            },
            Action::SetFollowAccepted { key, accepted } => ActionV::SetFollowAccepted {
                key: key@,
                accepted: *accepted,
            },
        }
    }
}

impl DeepView for Action {
    type V = ActionV;

    open spec fn deep_view(&self) -> ActionV {
        self@
    }
}

impl DeepClone for Action {
    fn deep_clone(&self) -> (r: Self) {
        match self {
            Action::FetchAccount(url) => Action::FetchAccount(url.clone()),
            Action::PublishNote(note) => Action::PublishNote(note.deep_clone()),
            Action::InitiateFollow { from_account, to_account, uri } => Action::InitiateFollow {
                from_account: from_account.clone(),
                to_account: to_account.clone(),
                uri: clone_opt(uri),
            },
            Action::SetFollowAccepted { key, accepted } => Action::SetFollowAccepted {
                key: key.clone(),
                accepted: *accepted,
            },
        }
    }
}

/// An ordered batch of actions, executed atomically by a worker.
pub struct Transaction {
    pub actions: Vec<Action>,
}

impl View for Transaction {
    type V = Seq<ActionV>;

    open spec fn view(&self) -> Seq<ActionV> {
        self.actions.deep_view()
    }
}

impl Action {
    /// A transaction carrying just this action.
    pub fn into_transaction(self) -> (r: Transaction)
        ensures
            r.actions@.len() == 1,
            r.actions@[0] == self,
    {
        let mut actions = Vec::new();
        actions.push(self);
        Transaction { actions }
    }
}

/// The reply to one action, mirroring the action's variant.
pub enum ActionResponse {
    FetchAccount(Document<Account>),
    PublishNote(Document<Note>),
    InitiateFollow { created: bool, follow: Edge<Follow> },
    SetFollowAccepted { modified: bool, follow: Edge<Follow> },
}

/// The specification value of an [`ActionResponse`].
pub enum ActionResponseV {
    FetchAccount(DocumentV<AccountV>),
    PublishNote(DocumentV<NoteV>),
    InitiateFollow { created: bool, follow: EdgeV<FollowV> },
    SetFollowAccepted { modified: bool, follow: EdgeV<FollowV> },
}

impl View for ActionResponse {
    type V = ActionResponseV;

    open spec fn view(&self) -> ActionResponseV {
        match self {
            ActionResponse::FetchAccount(doc) => ActionResponseV::FetchAccount(doc@),
            ActionResponse::PublishNote(doc) => ActionResponseV::PublishNote(doc@),
            ActionResponse::InitiateFollow { created, follow } => ActionResponseV::InitiateFollow {
                created: *created,
                follow: follow@,
            },
            ActionResponse::SetFollowAccepted { modified, follow } => {
                ActionResponseV::SetFollowAccepted { modified: *modified, follow: follow@ }
            },
        }
    }
}

impl DeepView for ActionResponse {
    type V = ActionResponseV;

    open spec fn deep_view(&self) -> ActionResponseV {
        self@
    }
}

impl DeepClone for ActionResponse {
    fn deep_clone(&self) -> (r: Self) {
        match self {
            ActionResponse::FetchAccount(doc) => ActionResponse::FetchAccount(doc.deep_clone()),
            ActionResponse::PublishNote(doc) => ActionResponse::PublishNote(doc.deep_clone()),
            ActionResponse::InitiateFollow { created, follow } => ActionResponse::InitiateFollow {
                created: *created,
                follow: follow.deep_clone(),
            },
            ActionResponse::SetFollowAccepted { modified, follow } => {
                ActionResponse::SetFollowAccepted { modified: *modified, follow: follow.deep_clone() }
            },
        }
    }
}

/// The reply to a transaction: one response per action, in order.
pub struct TransactionResponse {
    pub responses: Vec<ActionResponse>,
}

impl View for TransactionResponse {
    type V = Seq<ActionResponseV>;

    open spec fn view(&self) -> Seq<ActionResponseV> {
        self.responses.deep_view()
    }
}

/// Whether a response answers an action: the variants must agree.
pub open spec fn response_matches_action(action: ActionV, resp: ActionResponseV) -> bool {
    match action {
        ActionV::FetchAccount(_) => resp is FetchAccount,
        ActionV::PublishNote(_) => resp is PublishNote,
        ActionV::InitiateFollow { .. } => resp is InitiateFollow,
        ActionV::SetFollowAccepted { .. } => resp is SetFollowAccepted,
    }
}

/// An RPC reply to a single action must hold exactly one response; anything
/// else is an invalid reply.
pub fn single_response(reply: TransactionResponse) -> (r: Result<ActionResponse, Error>)
    ensures
        reply.responses@.len() == 1 <==> r is Ok,
        r is Ok ==> r->Ok_0 == reply.responses@[0],
        r is Err ==> r->Err_0 is InvalidReply,
{
    let mut responses = reply.responses;
    if responses.len() == 1 {
        match responses.pop() {
            Some(resp) => Ok(resp),
            None => Err(Error::InvalidReply(String::from_str("empty reply"))),
        }
    } else {
        Err(Error::InvalidReply(String::from_str("should have exactly one response")))
    }
}

/// An event announcing a committed state change, fanned out by headers.
pub enum Interaction {
    /// A note was published.
    Note(Document<Note>),
    /// A follow was requested.
    InitiateFollow(Edge<Follow>),
    /// A follow was accepted or rejected.
    SetFollowAccepted(Edge<Follow>),
}

/// The specification value of an [`Interaction`].
pub enum InteractionV {
    Note(DocumentV<NoteV>),
    InitiateFollow(EdgeV<FollowV>),
    SetFollowAccepted(EdgeV<FollowV>),
}

impl View for Interaction {
    type V = InteractionV;

    open spec fn view(&self) -> InteractionV {
        match self {
            Interaction::Note(doc) => InteractionV::Note(doc@),
            Interaction::InitiateFollow(edge) => InteractionV::InitiateFollow(edge@),
            Interaction::SetFollowAccepted(edge) => InteractionV::SetFollowAccepted(edge@),
        }
    }
}

impl DeepView for Interaction {
    type V = InteractionV;

    open spec fn deep_view(&self) -> InteractionV {
        self@
    }
}

impl DeepClone for Interaction {
    fn deep_clone(&self) -> (r: Self) {
        match self {
            Interaction::Note(doc) => Interaction::Note(doc.deep_clone()),
            Interaction::InitiateFollow(edge) => Interaction::InitiateFollow(edge.deep_clone()),
            Interaction::SetFollowAccepted(edge) => {
                Interaction::SetFollowAccepted(edge.deep_clone())
            },
        }
    }
}

/// The interaction a committed response announces: publishes always announce
/// their note; follow responses announce only what actually changed, so the
/// `created` and `modified` flags agree with what subscribers observe.
pub open spec fn spec_emitted(resp: ActionResponseV) -> Seq<InteractionV> {
    match resp {
        ActionResponseV::FetchAccount(_) => Seq::empty(),
        ActionResponseV::PublishNote(doc) => seq![InteractionV::Note(doc)],
        ActionResponseV::InitiateFollow { created, follow } => {
            if created {
                seq![InteractionV::InitiateFollow(follow)]
            } else {
                Seq::empty()
            }
        },
        ActionResponseV::SetFollowAccepted { modified, follow } => {
            if modified {
                seq![InteractionV::SetFollowAccepted(follow)]
            } else {
                Seq::empty()
            }
        },
    }
}

/// The interactions a whole batch of committed responses announces, in
/// response order.
pub open spec fn spec_emitted_all(resps: Seq<ActionResponseV>) -> Seq<InteractionV>
    decreases resps.len(),
{
    if resps.len() == 0 {
        Seq::empty()
    } else {
        spec_emitted_all(resps.drop_last()) + spec_emitted(resps.last())
    }
}

} // verus!
