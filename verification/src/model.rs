//! The graph entities: accounts, notes, and the edges between them.

use vstd::prelude::*;

use crate::urls::AbsUrl;
use crate::urls::UrlV;

verus! {

/// A value that can be copied while provably keeping its abstract view.
pub trait DeepClone: DeepView + Sized {
    /// A copy of `self` with the same deep view.
    fn deep_clone(&self) -> (r: Self)
        ensures
            r.deep_view() == self.deep_view(),
    ;
}

impl DeepClone for String {
    fn deep_clone(&self) -> (r: Self) {
        self.clone()
    }
}

impl DeepClone for AbsUrl {
    fn deep_clone(&self) -> (r: Self) {
        self.clone()
    }
}

/// A copy of an optional value with the same deep view.
pub fn clone_opt<T: DeepClone>(o: &Option<T>) -> (r: Option<T>)
    ensures
        r.deep_view() == o.deep_view(),
{
    match o {
        Some(v) => Some(v.deep_clone()),
        None => None,
    }
}

impl<T: DeepClone> DeepClone for Vec<T> {
    fn deep_clone(&self) -> (r: Self) {
        let mut out: Vec<T> = Vec::new();
        let mut i: usize = 0;
        while i < self.len()
            invariant
                i <= self.len(),
                out.len() == i,
                forall|j: int| 0 <= j < i ==> out[j].deep_view() == self[j].deep_view(),
            decreases self.len() - i,
        {
            out.push(self[i].deep_clone());
            i = i + 1;
        }
        proof {
            assert(out.deep_view() =~= self.deep_view());
        }
        out
    }
}

/// Who a note is addressed to: the public collection or one account, named
/// by its record key.
pub enum Recipient {
    Public,
    Account(String),
}

/// The specification value of a [`Recipient`].
pub enum RecipientV {
    Public,
    Account(Seq<char>),
}

impl View for Recipient {
    type V = RecipientV;

    open spec fn view(&self) -> RecipientV {
        match self {
            Recipient::Public => RecipientV::Public,
            Recipient::Account(key) => RecipientV::Account(key@),
        }
    }
}

impl DeepView for Recipient {
    type V = RecipientV;

    open spec fn deep_view(&self) -> RecipientV {
        self@
    }
}

impl DeepClone for Recipient {
    fn deep_clone(&self) -> (r: Self) {
        match self {
            Recipient::Public => Recipient::Public,
            Recipient::Account(key) => Recipient::Account(key.clone()),
        }
    }
}

/// What is known about an account that lives on a peer server.
pub struct RemoteAccountInfo {
    /// Where the account's actor document can be fetched; unique across
    /// accounts.
    pub uri: AbsUrl,
    /// When the account was last fetched from its home server.
    pub last_fetched_at: Option<i64>,
    /// The account's inbox on its home server.
    pub inbox: Option<AbsUrl>,
    /// The account's outbox on its home server.
    pub outbox: Option<AbsUrl>,
    /// The account's followers collection on its home server.
    pub followers: Option<AbsUrl>,
    /// The account's following collection on its home server.
    pub following: Option<AbsUrl>,
}

/// The specification value of a [`RemoteAccountInfo`].
#[verifier::ext_equal]
pub struct RemoteAccountInfoV {
    pub uri: UrlV,
    pub last_fetched_at: Option<i64>,
    pub inbox: Option<UrlV>,
    pub outbox: Option<UrlV>,
    pub followers: Option<UrlV>,
    pub following: Option<UrlV>,
}

impl View for RemoteAccountInfo {
    type V = RemoteAccountInfoV;

    open spec fn view(&self) -> RemoteAccountInfoV {
        RemoteAccountInfoV {
            uri: self.uri@,
            last_fetched_at: self.last_fetched_at,
            inbox: self.inbox.deep_view(),
            outbox: self.outbox.deep_view(),
            followers: self.followers.deep_view(),
            following: self.following.deep_view(),
        }
    }
}

impl DeepView for RemoteAccountInfo {
    type V = RemoteAccountInfoV;

    open spec fn deep_view(&self) -> RemoteAccountInfoV {
        self@
    }
}

impl DeepClone for RemoteAccountInfo {
    fn deep_clone(&self) -> (r: Self) {
        RemoteAccountInfo {
            uri: self.uri.clone(),
            last_fetched_at: self.last_fetched_at,
            inbox: clone_opt(&self.inbox),
            outbox: clone_opt(&self.outbox),
            followers: clone_opt(&self.followers),
            following: clone_opt(&self.following),
        }
    }
}

impl RemoteAccountInfo {
    /// Remote info that records only the account's URI.
    pub fn new(uri: AbsUrl) -> (r: RemoteAccountInfo)
        ensures
            r@ == (RemoteAccountInfoV {
                uri: uri@,
                last_fetched_at: None,
                inbox: None,
                outbox: None,
                followers: None,
                following: None,
            }),
    {
        RemoteAccountInfo {
            uri,
            last_fetched_at: None,
            inbox: None,
            outbox: None,
            followers: None,
            following: None,
        }
    }
}

/// An account, local to this server or mirrored from a peer.
pub struct Account {
    /// The username part of the handle.
    pub username: String,
    /// The domain the account lives at; unset for local accounts.
    pub domain: Option<String>,
    /// Remote details; set exactly when `domain` is set.
    pub remote: Option<RemoteAccountInfo>,
    /// Set by the creation hook for local accounts.
    pub created_at: Option<i64>,
    /// Set by the save hook for local accounts.
    pub updated_at: Option<i64>,
}

/// The specification value of an [`Account`].
#[verifier::ext_equal]
pub struct AccountV {
    pub username: Seq<char>,
    pub domain: Option<Seq<char>>,
    pub remote: Option<RemoteAccountInfoV>,
    pub created_at: Option<i64>,
    pub updated_at: Option<i64>,
}

impl View for Account {
    type V = AccountV;

    open spec fn view(&self) -> AccountV {
        AccountV {
            username: self.username@,
            domain: self.domain.deep_view(),
            remote: self.remote.deep_view(),
            created_at: self.created_at,
            updated_at: self.updated_at,
        }
    }
}

impl DeepView for Account {
    type V = AccountV;

    open spec fn deep_view(&self) -> AccountV {
        self@
    }
}

impl DeepClone for Account {
    fn deep_clone(&self) -> (r: Self) {
        Account {
            username: self.username.clone(),
            domain: clone_opt_str(&self.domain),
            remote: clone_opt(&self.remote),
            created_at: self.created_at,
            updated_at: self.updated_at,
        }
    }
}

fn clone_opt_str(o: &Option<String>) -> (r: Option<String>)
    ensures
        r.deep_view() == o.deep_view(),
{
    match o {
        Some(s) => Some(s.clone()),
        None => None,
    }
}

/// An account is remote exactly when it names a domain, and then carries its
/// remote details.
pub open spec fn account_wf(a: AccountV) -> bool {
    (a.domain is Some) <==> (a.remote is Some)
}

/// Whether the account view describes a local account.
pub open spec fn spec_is_local(a: AccountV) -> bool {
    a.domain is None
}

impl Account {
    /// Account data with only the required fields set.
    pub fn new(username: String) -> (r: Account)
        ensures
            r@ == (AccountV {
                username: username@,
                domain: None,
                remote: None,
                created_at: None,
                updated_at: None,
            }),
            account_wf(r@),
    {
        Account { username, domain: None, remote: None, created_at: None, updated_at: None }
    }

    /// True for accounts that live on this server.
    pub fn is_local(&self) -> (r: bool)
        ensures
            r == spec_is_local(self@),
    {
        self.domain.is_none()
    }

    /// True for accounts mirrored from a peer server.
    pub fn is_remote(&self) -> (r: bool)
        ensures
            r == !spec_is_local(self@),
    {
        self.domain.is_some()
    }
}

/// Where a note originally came from, when it is a mirror of a remote note.
pub struct RemoteNoteInfo {
    /// The note's URI on its home server.
    pub uri: AbsUrl,
}

/// The specification value of a [`RemoteNoteInfo`].
#[verifier::ext_equal]
pub struct RemoteNoteInfoV {
    pub uri: UrlV,
}

impl View for RemoteNoteInfo {
    type V = RemoteNoteInfoV;

    open spec fn view(&self) -> RemoteNoteInfoV {
        RemoteNoteInfoV { uri: self.uri@ }
    }
}

impl DeepView for RemoteNoteInfo {
    type V = RemoteNoteInfoV;

    open spec fn deep_view(&self) -> RemoteNoteInfoV {
        self@
    }
}

impl DeepClone for RemoteNoteInfo {
    fn deep_clone(&self) -> (r: Self) {
        RemoteNoteInfo { uri: self.uri.clone() }
    }
}

impl RemoteNoteInfo {
    /// Remote info naming the note's URI.
    pub fn new(uri: AbsUrl) -> (r: RemoteNoteInfo)
        ensures
            r@ == (RemoteNoteInfoV { uri: uri@ }),
    {
        RemoteNoteInfo { uri }
    }
}

/// A published note.
pub struct Note {
    /// The key of the account that published the note; must be set by the
    /// time the note is persisted.
    pub from: Option<String>,
    /// Set exactly when the note is a mirror of a remote note.
    pub remote: Option<RemoteNoteInfo>,
    /// Primary recipients.
    pub to: Vec<Recipient>,
    /// Carbon-copy recipients.
    pub cc: Vec<Recipient>,
    /// Blind primary recipients.
    pub bto: Vec<Recipient>,
    /// Blind carbon-copy recipients.
    pub bcc: Vec<Recipient>,
    /// The note's text.
    pub content: String,
    /// Set by the creation hook for local notes.
    pub created_at: Option<i64>,
    /// Set by the save hook for local notes.
    pub updated_at: Option<i64>,
}

/// The specification value of a [`Note`].
#[verifier::ext_equal]
pub struct NoteV {
    pub from: Option<Seq<char>>,
    pub remote: Option<RemoteNoteInfoV>,
    pub to: Seq<RecipientV>,
    pub cc: Seq<RecipientV>,
    pub bto: Seq<RecipientV>,
    pub bcc: Seq<RecipientV>,
    pub content: Seq<char>,
    pub created_at: Option<i64>,
    pub updated_at: Option<i64>,
}

impl View for Note {
    type V = NoteV;

    open spec fn view(&self) -> NoteV {
        NoteV {
            from: self.from.deep_view(),
            remote: self.remote.deep_view(),
            to: self.to.deep_view(),
            cc: self.cc.deep_view(),
            bto: self.bto.deep_view(),
            bcc: self.bcc.deep_view(),
            content: self.content@,
            created_at: self.created_at,
            updated_at: self.updated_at,
        }
    }
}

impl DeepView for Note {
    type V = NoteV;

    open spec fn deep_view(&self) -> NoteV {
        self@
    }
}

impl DeepClone for Note {
    fn deep_clone(&self) -> (r: Self) {
        Note {
            from: clone_opt_str(&self.from),
            remote: clone_opt(&self.remote),
            to: self.to.deep_clone(),
            cc: self.cc.deep_clone(),
            bto: self.bto.deep_clone(),
            bcc: self.bcc.deep_clone(),
            content: self.content.clone(),
            created_at: self.created_at,
            updated_at: self.updated_at,
        }
    }
}

/// Whether the note view describes a local note.
pub open spec fn note_is_local(n: NoteV) -> bool {
    n.remote is None
}

impl Note {
    /// Note data with only the content set.
    pub fn new(content: String) -> (r: Note)
        ensures
            r@ == (NoteV {
                from: None,
                remote: None,
                to: Seq::<RecipientV>::empty(),
                cc: Seq::<RecipientV>::empty(),
                bto: Seq::<RecipientV>::empty(),
                bcc: Seq::<RecipientV>::empty(),
                content: content@,
                created_at: None,
                updated_at: None,
            }),
    {
        let r = Note {
            from: None,
            remote: None,
            to: Vec::new(),
            cc: Vec::new(),
            bto: Vec::new(),
            bcc: Vec::new(),
            content,
            created_at: None,
            updated_at: None,
        };
        proof {
            assert(r@ =~= (NoteV {
                from: None,
                remote: None,
                to: Seq::<RecipientV>::empty(),
                cc: Seq::<RecipientV>::empty(),
                bto: Seq::<RecipientV>::empty(),
                bcc: Seq::<RecipientV>::empty(),
                content: r.content@,
                created_at: None,
                updated_at: None,
            }));
        }
        r
    }

    /// True for notes that originate on this server.
    pub fn is_local(&self) -> (r: bool)
        ensures
            r == note_is_local(self@),
    {
        self.remote.is_none()
    }

    /// True for mirrors of remote notes.
    pub fn is_remote(&self) -> (r: bool)
        ensures
            r == !note_is_local(self@),
    {
        self.remote.is_some()
    }

    /// The validation applied before a note is persisted: its publisher must
    /// be known.
    pub fn validations(&self, errors: &mut Vec<String>)
        ensures
            self@.from is Some ==> final(errors)@ == old(errors)@,
            self@.from is None ==> final(errors)@.len() == old(errors)@.len() + 1,
    {
        if self.from.is_none() {
            errors.push(String::from_str("note.from must be set"));
        }
    }
}

/// A follow request edge between two accounts. At most one follow exists for
/// each ordered pair of accounts.
pub struct Follow {
    /// Unset while pending; `Some(true)` once accepted, `Some(false)` once
    /// rejected.
    pub accepted: Option<bool>,
    /// True if the follow came from a remote actor.
    pub from_remote: bool,
    /// True if the follow is directed at a remote account.
    pub to_remote: bool,
    /// The activity URI, when a remote peer provided one.
    pub uri: Option<AbsUrl>,
    /// When the follow was created.
    pub created_at: Option<i64>,
}

/// The specification value of a [`Follow`].
#[verifier::ext_equal]
pub struct FollowV {
    pub accepted: Option<bool>,
    pub from_remote: bool,
    pub to_remote: bool,
    pub uri: Option<UrlV>,
    pub created_at: Option<i64>,
}

impl View for Follow {
    type V = FollowV;

    open spec fn view(&self) -> FollowV {
        FollowV {
            accepted: self.accepted,
            from_remote: self.from_remote,
            to_remote: self.to_remote,
            uri: self.uri.deep_view(),
            created_at: self.created_at,
        }
    }
}

impl DeepView for Follow {
    type V = FollowV;

    open spec fn deep_view(&self) -> FollowV {
        self@
    }
}

impl DeepClone for Follow {
    fn deep_clone(&self) -> (r: Self) {
        Follow {
            accepted: self.accepted,
            from_remote: self.from_remote,
            to_remote: self.to_remote,
            uri: clone_opt(&self.uri),
            created_at: self.created_at,
        }
    }
}

/// The record carried by a publish edge from an account to a note.
#[derive(Clone, Copy)]
pub struct Publish {
    /// When the note was published.
    pub created_at: Option<i64>,
}

impl DeepView for Publish {
    type V = Publish;

    open spec fn deep_view(&self) -> Publish {
        *self
    }
}

impl DeepClone for Publish {
    fn deep_clone(&self) -> (r: Self) {
        Publish { created_at: self.created_at }
    }
}

/// The record carried by a share (announce) edge.
#[derive(Clone, Copy)]
pub struct Share {
    /// When the share happened.
    pub created_at: Option<i64>,
}

impl DeepView for Share {
    type V = Share;

    open spec fn deep_view(&self) -> Share {
        *self
    }
}

impl DeepClone for Share {
    fn deep_clone(&self) -> (r: Self) {
        Share { created_at: self.created_at }
    }
}

/// The record carried by a like edge.
#[derive(Clone, Copy)]
pub struct Like {
    /// When the like happened.
    pub created_at: Option<i64>,
}

impl DeepView for Like {
    type V = Like;

    open spec fn deep_view(&self) -> Like {
        *self
    }
}

impl DeepClone for Like {
    fn deep_clone(&self) -> (r: Self) {
        Like { created_at: self.created_at }
    }
}

/// A stored document: a record together with the key the store assigned.
pub struct Document<T> {
    /// The stable key assigned on create.
    pub key: String,
    /// The record body.
    pub record: T,
}

/// The specification value of a [`Document`].
#[verifier::ext_equal]
pub struct DocumentV<R> {
    pub key: Seq<char>,
    pub record: R,
}

impl<T: DeepView> View for Document<T> {
    type V = DocumentV<<T as DeepView>::V>;

    open spec fn view(&self) -> DocumentV<<T as DeepView>::V> {
        DocumentV { key: self.key@, record: self.record.deep_view() }
    }
}

impl<T: DeepView> DeepView for Document<T> {
    type V = DocumentV<<T as DeepView>::V>;

    open spec fn deep_view(&self) -> DocumentV<<T as DeepView>::V> {
        self@
    }
}

impl<T: DeepClone> DeepClone for Document<T> {
    fn deep_clone(&self) -> (r: Self) {
        Document { key: self.key.clone(), record: self.record.deep_clone() }
    }
}

impl<T: DeepView> Document<T> {
    /// The key the store assigned to this document.
    pub fn key(&self) -> (r: &String)
        ensures
            r@ == self@.key,
    {
        &self.key
    }
}

/// A stored edge: a record together with its key and the keys of the two
/// documents it connects.
pub struct Edge<T> {
    /// The stable key assigned on create.
    pub key: String,
    /// The key of the document the edge starts at.
    pub from: String,
    /// The key of the document the edge points to.
    pub to: String,
    /// The record body.
    pub record: T,
}

/// The specification value of an [`Edge`].
#[verifier::ext_equal]
pub struct EdgeV<R> {
    pub key: Seq<char>,
    pub from: Seq<char>,
    pub to: Seq<char>,
    pub record: R,
}

impl<T: DeepView> View for Edge<T> {
    type V = EdgeV<<T as DeepView>::V>;

    open spec fn view(&self) -> EdgeV<<T as DeepView>::V> {
        EdgeV {
            key: self.key@,
            from: self.from@,
            to: self.to@,
            record: self.record.deep_view(),
        }
    }
}

impl<T: DeepView> DeepView for Edge<T> {
    type V = EdgeV<<T as DeepView>::V>;

    open spec fn deep_view(&self) -> EdgeV<<T as DeepView>::V> {
        self@
    }
}

impl<T: DeepClone> DeepClone for Edge<T> {
    fn deep_clone(&self) -> (r: Self) {
        Edge {
            key: self.key.clone(),
            from: self.from.clone(),
            to: self.to.clone(),
            record: self.record.deep_clone(),
        }
    }
}

impl<T: DeepView> Edge<T> {
    /// The key the store assigned to this edge.
    pub fn key(&self) -> (r: &String)
        ensures
            r@ == self@.key,
    {
        &self.key
    }

    /// The key of the document the edge starts at.
    pub fn key_from(&self) -> (r: &String)
        ensures
            r@ == self@.from,
    {
        &self.from
    }

    /// The key of the document the edge points to.
    pub fn key_to(&self) -> (r: &String)
        ensures
            r@ == self@.to,
    {
        &self.to
    }
}

/// Puts a raw store result into its wrapper type.
pub trait Wrap<W>: Sized {
    /// The wrapper this value becomes.
    spec fn wrapped(self) -> W;

    /// Wraps the value.
    fn wrap(self) -> (r: W)
        ensures
            r == self.wrapped(),
    ;
}

impl<T> Wrap<Document<T>> for (String, T) {
    open spec fn wrapped(self) -> Document<T> {
        Document { key: self.0, record: self.1 }
    }

    fn wrap(self) -> (r: Document<T>) {
        Document { key: self.0, record: self.1 }
    }
}

impl<T> Wrap<Edge<T>> for (String, String, String, T) {
    open spec fn wrapped(self) -> Edge<T> {
        Edge { key: self.0, from: self.1, to: self.2, record: self.3 }
    }

    fn wrap(self) -> (r: Edge<T>) {
        Edge { key: self.0, from: self.1, to: self.2, record: self.3 }
    }
}

/// The inverse of [`Wrap`]: takes a wrapper back apart.
pub trait Wrapper: Sized {
    /// The raw value the wrapper holds.
    type For;

    /// The raw value this wrapper comes apart into.
    spec fn inner(self) -> Self::For;

    /// Unwraps the value.
    fn into_inner(self) -> (r: Self::For)
        ensures
            r == self.inner(),
    ;
}

impl<T> Wrapper for Document<T> {
    type For = (String, T);

    open spec fn inner(self) -> (String, T) {
        (self.key, self.record)
    }

    fn into_inner(self) -> (r: (String, T)) {
        (self.key, self.record)
    }
}

impl<T> Wrapper for Edge<T> {
    type For = (String, String, String, T);

    open spec fn inner(self) -> (String, String, String, T) {
        (self.key, self.from, self.to, self.record)
    }

    fn into_inner(self) -> (r: (String, String, String, T)) {
        (self.key, self.from, self.to, self.record)
    }
}

} // verus!
