//! Header derivation and filtered listening on the interaction exchange.

use vertix::Account;
use vertix::Document;
use vertix::GraphStore;
use vertix::Header;
use vertix::Interaction;
use vertix::Note;
use vertix::Recipient;
use vertix::delivers;
use vertix::interaction_headers;
use vertix::listener_bindings;

fn note_interaction(from: &str, to: Vec<Recipient>) -> Interaction {
    let mut note = Note::new(String::from("Hello, world"));
    note.from = Some(String::from(from));
    note.to = to;
    Interaction::Note(Document { key: String::from("test-0001"), record: note })
}

fn sample_interaction() -> Interaction {
    note_interaction(
        "0001",
        vec![Recipient::Public, Recipient::Account(String::from("0002"))],
    )
}

fn received(from: Vec<String>, to: Vec<Recipient>, interaction: &Interaction) -> bool {
    let bindings = listener_bindings(&from, &to);
    let headers = interaction_headers(interaction);
    delivers(&bindings, &headers)
}

#[test]
fn headers_name_originator_and_recipients() {
    let headers = interaction_headers(&sample_interaction());
    let mut saw_from = false;
    let mut saw_public = false;
    let mut saw_acct = false;
    for h in &headers {
        match h {
            Header::FromAcct(k) => {
                assert_eq!(k, "0001");
                saw_from = true;
            },
            Header::ToPublic => {
                saw_public = true;
            },
            Header::ToAcct(k) => {
                assert_eq!(k, "0002");
                saw_acct = true;
            },
        }
    }
    assert!(saw_from && saw_public && saw_acct);
}

#[test]
fn follow_interaction_headers_use_edge_endpoints() {
    let edge = {
        let mut store = GraphStore::new();
        let a = store.create_account(Account::new(String::from("a")), 1);
        let b = store.create_account(Account::new(String::from("b")), 1);
        store.link_follow(&a, &b, None, 2)
    };
    let from = edge.from.clone();
    let to = edge.to.clone();
    let headers = interaction_headers(&Interaction::InitiateFollow(edge));
    assert_eq!(headers.len(), 2);
    assert!(headers.iter().any(|h| matches!(h, Header::FromAcct(k) if *k == from)));
    assert!(headers.iter().any(|h| matches!(h, Header::ToAcct(k) if *k == to)));
}

#[test]
fn interaction_listen_no_filter() {
    assert!(received(vec![], vec![], &sample_interaction()));
}

#[test]
fn interaction_listen_filter_from() {
    assert!(received(vec![String::from("0001")], vec![], &sample_interaction()));
}

#[test]
fn interaction_listen_filter_to_public() {
    assert!(received(vec![], vec![Recipient::Public], &sample_interaction()));
}

#[test]
fn interaction_listen_filter_to_acct() {
    assert!(received(
        vec![],
        vec![Recipient::Account(String::from("0002"))],
        &sample_interaction(),
    ));
}

#[test]
fn published_note_reaches_an_unfiltered_subscriber() {
    let mut store = GraphStore::new();
    let a = store.create_account(Account::new(String::from("u")), 1);
    let mut note = Note::new(String::from("hi"));
    note.from = Some(a.key.clone());
    let tx = vertix::Transaction { actions: vec![vertix::Action::PublishNote(note)] };
    let (reply, interactions) = vertix::execute_transaction(&mut store, &tx, &vec![], 2).unwrap();
    assert_eq!(interactions.len(), 1);
    assert!(received(vec![], vec![], &interactions[0]));
    match (&reply.responses[0], &interactions[0]) {
        (vertix::ActionResponse::PublishNote(doc), Interaction::Note(seen)) => {
            assert_eq!(doc.key, seen.key);
            assert_eq!(seen.record.content, "hi");
        },
        _ => panic!("response and interaction do not line up"),
    }
}

#[test]
fn listener_with_foreign_filters_receives_nothing() {
    let i = sample_interaction();
    assert!(!received(vec![String::from("Z")], vec![], &i));
    assert!(!received(
        vec![],
        vec![Recipient::Account(String::from("W"))],
        &i,
    ));
}

#[test]
fn note_without_public_recipient_misses_public_listener() {
    let i = note_interaction("Y", vec![Recipient::Account(String::from("X"))]);
    assert!(!received(vec![], vec![Recipient::Public], &i));
    assert!(received(vec![String::from("Y")], vec![], &i));
    assert!(received(
        vec![],
        vec![Recipient::Account(String::from("X"))],
        &i,
    ));
}
