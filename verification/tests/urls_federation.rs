//! URL resolution, document rendering, federation decisions and errors.

use vertix::AbsUrl;
use vertix::Account;
use vertix::AccountLocator;
use vertix::ActorDoc;
use vertix::BrokerExchangeKind;
use vertix::DeepClone;
use vertix::DeliverActivity;
use vertix::Error;
use vertix::Follow;
use vertix::GetInteractionsStreamQuery;
use vertix::GraphStore;
use vertix::InboundActivity;
use vertix::Interaction;
use vertix::MessageKind;
use vertix::Note;
use vertix::NoteObject;
use vertix::OutboundActivity;
use vertix::Recipient;
use vertix::RemoteAccountInfo;
use vertix::Urls;
use vertix::accept_follow_outcome;
use vertix::account_locator;
use vertix::exchange_declaration;
use vertix::follow_request_parts;
use vertix::follow_transaction;
use vertix::initiate_follow_status;
use vertix::interaction_delivery;
use vertix::make_actor_and_object_activity;
use vertix::make_follow_response;
use vertix::make_ordered_collection_page;
use vertix::normalize_lookup_domain;
use vertix::note_to_object_doc;
use vertix::split_commas;
use vertix::username_from_users_path;
use vertix::PageLimit;

fn base_url() -> AbsUrl {
    AbsUrl {
        scheme: String::from("http"),
        host: String::from("localhost"),
        port: Some(8080),
        path: String::from("/"),
        query: None,
        fragment: None,
    }
}

fn remote_url(path: &str) -> AbsUrl {
    AbsUrl {
        scheme: String::from("https"),
        host: String::from("example.org"),
        port: None,
        path: String::from(path),
        query: None,
        fragment: None,
    }
}

fn remote_account(username: &str, path: &str) -> Account {
    let mut remote = RemoteAccountInfo::new(remote_url(path));
    remote.inbox = Some(remote_url(&format!("{path}/inbox")));
    Account {
        username: String::from(username),
        domain: Some(String::from("example.org")),
        remote: Some(remote),
        created_at: None,
        updated_at: None,
    }
}

#[test]
fn local_account_urls_are_own_and_encoded() {
    let mut store = GraphStore::new();
    let a = store.create_account(Account::new(String::from("a b")), 1);
    let mut urls = Urls::new(base_url());
    let url = urls.url_for_account(&a.key, &store).unwrap();
    assert_eq!(url.path, "/users/a%20b");
    assert_eq!(url.to_text(), "http://localhost:8080/users/a%20b");
    assert!(urls.is_own_url(&url));

    let inbox = urls.url_for_account_inbox(&a.key, &store).unwrap();
    assert_eq!(inbox.path, "/users/a%20b/inbox");
    let page = urls.url_for_account_outbox_page(&a.key, 3, &store).unwrap();
    assert_eq!(page.path, "/users/a%20b/outbox/page/3");
}

#[test]
fn remote_account_urls_come_from_the_record() {
    let mut store = GraphStore::new();
    let a = store.create_account(remote_account("r", "/users/r"), 1);
    let mut urls = Urls::new(base_url());
    let url = urls.url_for_account(&a.key, &store).unwrap();
    assert_eq!(url.to_text(), "https://example.org/users/r");
    assert!(!urls.is_own_url(&url));
    let inbox = urls.url_for_account_inbox(&a.key, &store).unwrap();
    assert_eq!(inbox.path, "/users/r/inbox");
    let page = urls.url_for_account_outbox_page(&a.key, 1, &store);
    assert!(matches!(page, Err(Error::InternalError(_))));
}

#[test]
fn note_urls_extend_the_publisher_url() {
    let mut store = GraphStore::new();
    let a = store.create_account(Account::new(String::from("u")), 1);
    let note = Note::publish(&a, Note::new(String::from("hi")), &mut store, 2);
    let mut urls = Urls::new(base_url());
    let url = urls.url_for_note(&note.key, &store).unwrap();
    assert_eq!(url.path, format!("/users/u/notes/{}", note.key));
}

#[test]
fn users_path_parsing_matches_the_route_shape() {
    assert_eq!(username_from_users_path("/users/alice").as_deref(), Some("alice"));
    assert_eq!(username_from_users_path("/x/users/bob").as_deref(), Some("bob"));
    assert!(username_from_users_path("/users/").is_none());
    assert!(username_from_users_path("/users/a/b").is_none());
    assert!(username_from_users_path("/inbox").is_none());
    assert!(username_from_users_path("").is_none());
}

#[test]
fn account_locator_splits_local_and_remote() {
    let base = base_url();
    let local = AbsUrl { path: String::from("/users/alice"), ..base_url() };
    match account_locator(&base, &local).unwrap() {
        AccountLocator::Local(u) => assert_eq!(u, "alice"),
        AccountLocator::Remote => panic!("should be local"),
    }
    let foreign = remote_url("/users/alice");
    assert!(matches!(account_locator(&base, &foreign).unwrap(), AccountLocator::Remote));
    let bad = AbsUrl { path: String::from("/inbox"), ..base_url() };
    assert!(matches!(account_locator(&base, &bad), Err(Error::InternalError(_))));
}

#[test]
fn follow_between_two_remote_parties_is_dropped() {
    let mut store = GraphStore::new();
    let r1 = store.create_account(remote_account("r1", "/users/r1"), 1);
    let r2 = store.create_account(remote_account("r2", "/users/r2"), 1);
    let local = store.create_account(Account::new(String::from("l")), 1);
    assert!(follow_transaction(&r1, &r2).is_none());
    let tx = follow_transaction(&r1, &local).unwrap();
    assert_eq!(tx.actions.len(), 1);
}

#[test]
fn inbound_dispatch_accepts_only_follow() {
    let follow = InboundActivity {
        kind: String::from("Follow"),
        actor: Some(remote_url("/users/r")),
        object: Some(AbsUrl { path: String::from("/users/l"), ..base_url() }),
    };
    let (actor, object) = follow_request_parts(&follow).unwrap();
    assert_eq!(actor.host, "example.org");
    assert_eq!(object.host, "localhost");

    let like = InboundActivity { kind: String::from("Like"), actor: None, object: None };
    assert!(matches!(follow_request_parts(&like), Err(Error::UnprocessableActivity(_))));

    let broken = InboundActivity { kind: String::from("Follow"), actor: None, object: None };
    assert!(matches!(follow_request_parts(&broken), Err(Error::InternalError(_))));
}

#[test]
fn remote_follow_is_delivered_to_the_target_inbox() {
    let mut store = GraphStore::new();
    let local = store.create_account(Account::new(String::from("l")), 1);
    let remote = store.create_account(remote_account("r", "/users/r"), 1);
    let edge = store.link_follow(&local, &remote, None, 2);
    assert!(edge.record.to_remote);
    let mut urls = Urls::new(base_url());
    let delivery = interaction_delivery(&Interaction::InitiateFollow(edge), &mut urls, &store)
        .unwrap()
        .unwrap();
    let DeliverActivity { inbox, activity } = delivery;
    assert_eq!(inbox.path, "/users/r/inbox");
    match activity {
        OutboundActivity::Follow(f) => {
            assert_eq!(f.object.to_text(), "https://example.org/users/r");
            assert_eq!(f.actor.path, "/users/l");
        },
        _ => panic!("expected a follow activity"),
    }
}

#[test]
fn accepted_remote_follow_is_answered_at_the_follower_inbox() {
    let mut store = GraphStore::new();
    let remote = store.create_account(remote_account("r", "/users/r"), 1);
    let local = store.create_account(Account::new(String::from("l")), 1);
    let edge = store.link_follow(&remote, &local, None, 2);
    let mut accepted = edge.record.deep_clone();
    accepted.accepted = Some(true);
    let saved = store.save_follow(&edge.key, accepted);
    let mut urls = Urls::new(base_url());
    let delivery = interaction_delivery(&Interaction::SetFollowAccepted(saved), &mut urls, &store)
        .unwrap()
        .unwrap();
    assert_eq!(delivery.inbox.path, "/users/r/inbox");
    match delivery.activity {
        OutboundActivity::FollowResponse(resp) => {
            assert!(resp.accepted);
            assert_eq!(resp.actor.path, resp.object.object.path);
        },
        _ => panic!("expected a follow response"),
    }
}

#[test]
fn delivery_fails_without_a_remote_inbox() {
    let mut store = GraphStore::new();
    let local = store.create_account(Account::new(String::from("l")), 1);
    let mut bare = remote_account("r", "/users/r");
    bare.remote.as_mut().unwrap().inbox = None;
    let remote = store.create_account(bare, 1);
    let edge = store.link_follow(&local, &remote, None, 2);
    let mut urls = Urls::new(base_url());
    let r = interaction_delivery(&Interaction::InitiateFollow(edge), &mut urls, &store);
    assert!(matches!(r, Err(Error::InternalError(_))));
}

#[test]
fn note_interactions_are_not_delivered_yet() {
    let store = GraphStore::new();
    let mut urls = Urls::new(base_url());
    let i = Interaction::Note(vertix::Document {
        key: String::from("n"),
        record: Note::new(String::from("x")),
    });
    assert!(interaction_delivery(&i, &mut urls, &store).unwrap().is_none());
}

#[test]
fn follow_activity_id_prefers_the_recorded_uri() {
    let mut store = GraphStore::new();
    let local = store.create_account(Account::new(String::from("l")), 1);
    let remote = store.create_account(remote_account("r", "/users/r"), 1);
    let provided = remote_url("/activities/9");
    let edge = store.link_follow(&remote, &local, Some(provided.clone()), 2);
    let mut urls = Urls::new(base_url());
    let doc = vertix::follow_to_activity_doc(&edge, &mut urls, &store).unwrap();
    assert!(doc.id.same_as(&provided));

    let mut store2 = GraphStore::new();
    let a = store2.create_account(Account::new(String::from("a")), 1);
    let b = store2.create_account(Account::new(String::from("b")), 1);
    let edge2 = store2.link_follow(&a, &b, None, 2);
    let mut urls2 = Urls::new(base_url());
    let doc2 = vertix::follow_to_activity_doc(&edge2, &mut urls2, &store2).unwrap();
    assert_eq!(doc2.id.fragment.as_deref(), Some(format!("self/{}", edge2.key).as_str()));
}

#[test]
fn rendered_note_addresses_recipients_by_url() {
    let mut store = GraphStore::new();
    let a = store.create_account(Account::new(String::from("u")), 1);
    let b = store.create_account(Account::new(String::from("v")), 1);
    let mut note = Note::new(String::from("hi"));
    note.to = vec![Recipient::Public, Recipient::Account(b.key.clone())];
    let doc = Note::publish(&a, note, &mut store, 2);
    let mut urls = Urls::new(base_url());
    let rendered = note_to_object_doc(&doc, &mut urls, &store).unwrap();
    assert_eq!(rendered.content, "hi");
    assert_eq!(rendered.attributed_to.as_ref().unwrap().path, "/users/u");
    assert_eq!(rendered.to.len(), 2);
    assert_eq!(rendered.to[0].to_text(), "https://www.w3.org/ns/activitystreams#Public");
    assert_eq!(rendered.to[1].path, "/users/v");
}

#[test]
fn actor_and_object_activity_requires_attribution() {
    let object = NoteObject {
        id: remote_url("/notes/1"),
        published: None,
        updated: None,
        attributed_to: None,
        to: vec![],
        cc: vec![],
        content: String::from("x"),
    };
    assert!(matches!(make_actor_and_object_activity(object), Err(Error::MissingActor)));
}

#[test]
fn collection_page_omits_next_when_short() {
    let part_of = remote_url("/outbox");
    let next = remote_url("/outbox/page/2");
    let full = make_ordered_collection_page(
        Some(PageLimit { page: 1, limit: 2 }),
        part_of.deep_clone(),
        Some(next.deep_clone()),
        vec![1u8, 2u8],
    );
    assert!(full.next.is_some());
    let short = make_ordered_collection_page(
        Some(PageLimit { page: 1, limit: 2 }),
        part_of,
        Some(next),
        vec![1u8],
    );
    assert!(short.next.is_none());
}

#[test]
fn follow_response_answers_as_the_followed_account() {
    let follow = vertix::FollowActivity {
        id: remote_url("/activities/1"),
        actor: remote_url("/users/r"),
        object: AbsUrl { path: String::from("/users/l"), ..base_url() },
    };
    let resp = make_follow_response(follow, false);
    assert!(!resp.accepted);
    assert_eq!(resp.actor.path, "/users/l");
}

#[test]
fn api_rulings_follow_the_spec() {
    assert_eq!(initiate_follow_status(true), 201);
    assert_eq!(initiate_follow_status(false), 200);

    let mut store = GraphStore::new();
    let a = store.create_account(Account::new(String::from("a")), 1);
    let b = store.create_account(Account::new(String::from("b")), 1);
    let edge = store.link_follow(&a, &b, None, 2);
    assert_eq!(accept_follow_outcome(true, &edge).unwrap(), 201);
    let mut accepted = edge.record.deep_clone();
    accepted.accepted = Some(true);
    let saved = store.save_follow(&edge.key, accepted);
    assert_eq!(accept_follow_outcome(false, &saved).unwrap(), 200);
    let mut rejected = saved.record.deep_clone();
    rejected.accepted = Some(false);
    let saved2 = store.save_follow(&saved.key, rejected);
    assert!(matches!(accept_follow_outcome(false, &saved2), Err(Error::Conflict(_))));

    assert_eq!(
        normalize_lookup_domain(Some(String::from("localhost")), &String::from("localhost")),
        None
    );
    assert_eq!(
        normalize_lookup_domain(Some(String::from("example.org")), &String::from("localhost"))
            .as_deref(),
        Some("example.org")
    );
}

#[test]
fn stream_query_parses_comma_lists() {
    assert_eq!(split_commas("a,b,c"), vec!["a", "b", "c"]);
    assert_eq!(split_commas(""), vec![""]);
    assert_eq!(split_commas("a,,b"), vec!["a", "", "b"]);

    let q = GetInteractionsStreamQuery {
        from: Some(String::from("k1,k2")),
        to: Some(String::from("public,acct1")),
    };
    assert_eq!(q.from(), vec!["k1", "k2"]);
    let to = q.to();
    assert!(matches!(&to[0], Recipient::Public));
    assert!(matches!(&to[1], Recipient::Account(k) if k == "acct1"));

    let empty = GetInteractionsStreamQuery { from: None, to: None };
    assert!(empty.from().is_empty());
    assert!(empty.to().is_empty());
}

#[test]
fn exchange_catalog_matches_the_wiring() {
    let t = exchange_declaration(&MessageKind::Transaction);
    assert_eq!(t.name, "Transaction");
    assert!(matches!(t.kind, BrokerExchangeKind::Direct));
    assert_eq!(t.queues, vec!["Transaction.process"]);

    let i = exchange_declaration(&MessageKind::Interaction);
    assert!(matches!(i.kind, BrokerExchangeKind::Headers));
    assert_eq!(i.queues, vec!["Interaction.for_remote"]);

    let fan = exchange_declaration(&MessageKind::TestAnnounce);
    assert!(matches!(fan.kind, BrokerExchangeKind::Fanout));
    assert!(fan.queues.is_empty());
    assert_eq!(exchange_declaration(&MessageKind::ReceiveActivity).queues, vec![
        "ReceiveActivity.process"
    ]);
    assert_eq!(exchange_declaration(&MessageKind::DeliverActivity).queues, vec![
        "DeliverActivity.process"
    ]);
}

#[test]
fn webfinger_targets_the_peer_domain() {
    let resource = vertix::webfinger_resource(
        &String::from("acct"),
        &String::from("user"),
        &String::from("example.org"),
    );
    assert_eq!(resource, "resource=acct:user@example.org");
    let url = vertix::webfinger_url(String::from("example.org"), true, resource);
    assert_eq!(
        url.to_text(),
        "https://example.org/.well-known/webfinger?resource=acct:user@example.org"
    );
}

#[test]
fn webfinger_resolver_answers_only_own_domain() {
    let own = String::from("localhost");
    assert!(vertix::webfinger_applies(
        Some(&String::from("acct:")),
        &String::from("localhost"),
        &own
    ));
    assert!(!vertix::webfinger_applies(
        Some(&String::from("acct:")),
        &String::from("example.org"),
        &own
    ));
    assert!(!vertix::webfinger_applies(None, &String::from("localhost"), &own));
    assert_eq!(
        vertix::webfinger_subject(&String::from("alice"), &String::from("localhost")),
        "alice@localhost"
    );
    let base = vertix::default_base_url(String::from("localhost"), 8080);
    assert_eq!(base.to_text(), "http://localhost:8080/");
}

#[test]
fn header_wire_keys_follow_the_taxonomy() {
    assert_eq!(
        vertix::header_wire_key(&vertix::Header::FromAcct(String::from("0001"))),
        "v-from-acct-0001"
    );
    assert_eq!(vertix::header_wire_key(&vertix::Header::ToPublic), "v-to-public");
    assert_eq!(
        vertix::header_wire_key(&vertix::Header::ToAcct(String::from("0002"))),
        "v-to-acct-0002"
    );
}

#[test]
fn error_codes_map_to_http() {
    let nf = Error::NotFound { model: String::from("Account"), params: vec![] };
    assert!(nf.is_not_found());
    assert_eq!(nf.http_code(), 404);
    assert_eq!(Error::Conflict(String::from("x")).http_code(), 409);
    assert_eq!(Error::Broker(String::from("x")).http_code(), 500);
    assert_eq!(Error::Json(String::from("x")).http_code(), 500);
    assert_eq!(Error::NoReply.http_code(), 500);
    assert_eq!(Error::AmqpConfigMissing.http_code(), 500);
    assert!(!Error::MissingActor.is_not_found());
}

#[test]
fn missing_wire_fields_fail_the_conversion() {
    let doc = ActorDoc {
        id: None,
        preferred_username: Some(String::from("u")),
        name: None,
        inbox: remote_url("/inbox"),
        outbox: remote_url("/outbox"),
        followers: None,
        following: None,
        shared_inbox: None,
        published: None,
        updated: None,
    };
    assert!(matches!(
        vertix::account_from_actor_doc(&doc),
        Err(Error::ConversionMissingField(_))
    ));
}
