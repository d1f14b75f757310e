//! The transaction engine end to end: responses, interactions, idempotence
//! and the commit barrier.

use vertix::Account;
use vertix::Action;
use vertix::ActionResponse;
use vertix::ActorDoc;
use vertix::AbsUrl;
use vertix::DeepClone;
use vertix::Error;
use vertix::GraphStore;
use vertix::Interaction;
use vertix::Note;
use vertix::Recipient;
use vertix::Transaction;
use vertix::account_from_actor_doc;
use vertix::execute_transaction;
use vertix::single_response;
use vertix::TransactionResponse;

fn url(host: &str, path: &str) -> AbsUrl {
    AbsUrl {
        scheme: String::from("https"),
        host: String::from(host),
        port: None,
        path: String::from(path),
        query: None,
        fragment: None,
    }
}

fn store_with_local_account(username: &str, now: i64) -> (GraphStore, String) {
    let mut store = GraphStore::new();
    let doc = store.create_account(Account::new(String::from(username)), now);
    let key = doc.key.clone();
    (store, key)
}

#[test]
fn publish_note_reply_matches_action() {
    let (mut store, key) = store_with_local_account("u", 1000);
    let mut note = Note::new(String::from("hi"));
    note.from = Some(key.clone());
    note.to = vec![Recipient::Public];
    let tx = Transaction { actions: vec![Action::PublishNote(note)] };
    let (reply, interactions) = execute_transaction(&mut store, &tx, &vec![], 2000).unwrap();
    assert_eq!(reply.responses.len(), 1);
    match &reply.responses[0] {
        ActionResponse::PublishNote(doc) => {
            assert_eq!(doc.record.content, "hi");
            assert_eq!(doc.record.from.as_deref(), Some(key.as_str()));
            assert_eq!(doc.record.created_at, Some(2000));
        },
        _ => panic!("response variant does not match the action"),
    }
    assert_eq!(interactions.len(), 1);
    match &interactions[0] {
        Interaction::Note(doc) => assert_eq!(doc.record.content, "hi"),
        _ => panic!("expected a note interaction"),
    }
    assert_eq!(store.notes.len(), 1);
    assert_eq!(store.publishes.len(), 1);
}

#[test]
fn publish_note_without_publisher_is_refused() {
    let (mut store, _key) = store_with_local_account("u", 1000);
    let note = Note::new(String::from("hi"));
    let tx = Transaction { actions: vec![Action::PublishNote(note)] };
    let r = execute_transaction(&mut store, &tx, &vec![], 2000);
    assert!(matches!(r, Err(Error::InternalError(_))));
    assert_eq!(store.notes.len(), 0);
}

#[test]
fn follow_idempotence_creates_once() {
    let now = 10;
    let mut store = GraphStore::new();
    let a = store.create_account(Account::new(String::from("a")), now);
    let b = store.create_account(Account::new(String::from("b")), now);
    let action = Action::InitiateFollow {
        from_account: a.key.clone(),
        to_account: b.key.clone(),
        uri: None,
    };
    let tx = Transaction { actions: vec![action.deep_clone()] };
    let (reply1, inter1) = execute_transaction(&mut store, &tx, &vec![], 20).unwrap();
    match &reply1.responses[0] {
        ActionResponse::InitiateFollow { created, follow } => {
            assert!(*created);
            assert_eq!(follow.from, a.key);
            assert_eq!(follow.to, b.key);
            assert_eq!(follow.record.accepted, None);
        },
        _ => panic!("wrong variant"),
    }
    assert_eq!(inter1.len(), 1);

    let tx2 = Transaction { actions: vec![action] };
    let (reply2, inter2) = execute_transaction(&mut store, &tx2, &vec![], 30).unwrap();
    match &reply2.responses[0] {
        ActionResponse::InitiateFollow { created, .. } => assert!(!*created),
        _ => panic!("wrong variant"),
    }
    assert_eq!(inter2.len(), 0);
    assert_eq!(store.follows.len(), 1);
}

#[test]
fn set_follow_accepted_idempotence() {
    let mut store = GraphStore::new();
    let a = store.create_account(Account::new(String::from("a")), 1);
    let b = store.create_account(Account::new(String::from("b")), 1);
    let edge = store.link_follow(&a, &b, None, 2);
    let action = Action::SetFollowAccepted { key: edge.key.clone(), accepted: true };
    let tx = Transaction { actions: vec![action.deep_clone()] };
    let (reply1, inter1) = execute_transaction(&mut store, &tx, &vec![], 3).unwrap();
    match &reply1.responses[0] {
        ActionResponse::SetFollowAccepted { modified, follow } => {
            assert!(*modified);
            assert_eq!(follow.record.accepted, Some(true));
        },
        _ => panic!("wrong variant"),
    }
    assert_eq!(inter1.len(), 1);

    let tx2 = Transaction { actions: vec![action] };
    let (reply2, inter2) = execute_transaction(&mut store, &tx2, &vec![], 4).unwrap();
    match &reply2.responses[0] {
        ActionResponse::SetFollowAccepted { modified, .. } => assert!(!*modified),
        _ => panic!("wrong variant"),
    }
    assert_eq!(inter2.len(), 0);
}

#[test]
fn aborted_transaction_leaves_no_trace() {
    let mut store = GraphStore::new();
    let a = store.create_account(Account::new(String::from("a")), 1);
    let b = store.create_account(Account::new(String::from("b")), 1);
    let good = Action::InitiateFollow {
        from_account: a.key.clone(),
        to_account: b.key.clone(),
        uri: None,
    };
    let mut bad_note = Note::new(String::from("x"));
    bad_note.from = Some(String::from("no-such-account"));
    let bad = Action::PublishNote(bad_note);
    let tx = Transaction { actions: vec![good, bad] };
    let r = execute_transaction(&mut store, &tx, &vec![], 5);
    assert!(matches!(r, Err(Error::NotFound { .. })));
    assert_eq!(store.follows.len(), 0);
    assert_eq!(store.notes.len(), 0);
}

#[test]
fn fetch_account_persists_remote_uri_and_fetch_time() {
    let mut store = GraphStore::new();
    let href = url("example.org", "/users/u");
    let doc = ActorDoc {
        id: Some(href.clone()),
        preferred_username: Some(String::from("u")),
        name: None,
        inbox: url("example.org", "/users/u/inbox"),
        outbox: url("example.org", "/users/u/outbox"),
        followers: None,
        following: None,
        shared_inbox: None,
        published: None,
        updated: None,
    };
    let body = account_from_actor_doc(&doc).unwrap();
    let tx = Transaction { actions: vec![Action::FetchAccount(href.clone())] };
    let (reply, inter) = execute_transaction(&mut store, &tx, &vec![body], 777).unwrap();
    assert_eq!(inter.len(), 0);
    match &reply.responses[0] {
        ActionResponse::FetchAccount(account) => {
            let remote = account.record.remote.as_ref().unwrap();
            assert!(remote.uri.same_as(&href));
            assert_eq!(remote.last_fetched_at, Some(777));
            assert_eq!(account.record.domain.as_deref(), Some("example.org"));
        },
        _ => panic!("wrong variant"),
    }
    assert_eq!(store.accounts.len(), 1);

    // Fetching the same account again updates the stored row in place.
    let doc2 = ActorDoc { published: Some(5), ..doc };
    let body2 = account_from_actor_doc(&doc2).unwrap();
    let tx2 = Transaction { actions: vec![Action::FetchAccount(href.clone())] };
    let (_, _) = execute_transaction(&mut store, &tx2, &vec![body2], 888).unwrap();
    assert_eq!(store.accounts.len(), 1);
    let stored = &store.accounts[0];
    assert_eq!(stored.record.remote.as_ref().unwrap().last_fetched_at, Some(888));
}

#[test]
fn fetch_account_with_wrong_uri_is_refused() {
    let mut store = GraphStore::new();
    let asked = url("example.org", "/users/u");
    let doc = ActorDoc {
        id: Some(url("elsewhere.org", "/users/u")),
        preferred_username: Some(String::from("u")),
        name: None,
        inbox: url("elsewhere.org", "/users/u/inbox"),
        outbox: url("elsewhere.org", "/users/u/outbox"),
        followers: None,
        following: None,
        shared_inbox: None,
        published: None,
        updated: None,
    };
    let body = account_from_actor_doc(&doc).unwrap();
    let tx = Transaction { actions: vec![Action::FetchAccount(asked)] };
    let r = execute_transaction(&mut store, &tx, &vec![body], 1);
    assert!(matches!(r, Err(Error::InternalError(_))));
    assert_eq!(store.accounts.len(), 0);
}

#[test]
fn single_response_requires_exactly_one() {
    let empty = TransactionResponse { responses: vec![] };
    assert!(matches!(single_response(empty), Err(Error::InvalidReply(_))));
}
