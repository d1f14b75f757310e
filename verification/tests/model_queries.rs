//! The entity layer: timeline, listings, counts, pagination and the cache.

use vertix::Account;
use vertix::CacheCell;
use vertix::Follow;
use vertix::GraphStore;
use vertix::Note;
use vertix::PageLimit;
use vertix::ShortLivedCache;
use vertix::Wrap;
use vertix::Wrapper;

#[test]
fn follow_publish_and_view_timeline() {
    let mut store = GraphStore::new();
    let account1 = store.create_account(Account::new(String::from("account1")), 100);
    let account2 = store.create_account(Account::new(String::from("account2")), 100);

    let follow = Follow::link(&account1, &account2, None, &mut store, 110);
    let mut accepted = follow.record;
    accepted.accepted = Some(true);
    store.save_follow(&follow.key, accepted);

    let note = Note::publish(&account2, Note::new(String::from("Hello, world!")), &mut store, 120);

    let timeline = Account::get_timeline(&account1, PageLimit::default(), &store);
    assert_eq!(timeline.len(), 1);
    assert!(timeline.iter().any(|t_note| t_note.key == note.key));

    let note2 = Note::publish(
        &account2,
        Note::new(String::from("This is my second post.")),
        &mut store,
        130,
    );

    let timeline = Account::get_timeline(&account1, PageLimit::default(), &store);
    assert_eq!(timeline.len(), 2);
    assert_eq!(timeline[0].key, note2.key);
    assert_eq!(timeline[1].key, note.key);
}

#[test]
fn listings_and_counts_follow_the_edges() {
    let mut store = GraphStore::new();
    let a = store.create_account(Account::new(String::from("a")), 1);
    let b = store.create_account(Account::new(String::from("b")), 1);
    let c = store.create_account(Account::new(String::from("c")), 1);
    Follow::link(&a, &b, None, &mut store, 2);
    Follow::link(&a, &c, None, &mut store, 3);
    Follow::link(&c, &a, None, &mut store, 4);

    let following = Account::get_following(&a, PageLimit::default(), &store);
    assert_eq!(following.len(), 2);
    assert_eq!(following[0].key, b.key);
    assert_eq!(following[1].key, c.key);
    assert_eq!(Account::count_following(&a, &store), 2);

    let followers = Account::get_followers(&a, PageLimit::default(), &store);
    assert_eq!(followers.len(), 1);
    assert_eq!(followers[0].key, c.key);
    assert_eq!(Account::count_followers(&a, &store), 1);

    let pending = Follow::find_pending_to(&a, &store);
    assert_eq!(pending.len(), 1);
    assert_eq!(pending[0].from, c.key);
}

#[test]
fn published_notes_come_newest_first_with_paging() {
    let mut store = GraphStore::new();
    let a = store.create_account(Account::new(String::from("a")), 1);
    let n1 = Note::publish(&a, Note::new(String::from("one")), &mut store, 10);
    let n2 = Note::publish(&a, Note::new(String::from("two")), &mut store, 20);
    let n3 = Note::publish(&a, Note::new(String::from("three")), &mut store, 30);
    assert_eq!(Account::count_published_notes(&a, &store), 3);

    let page1 = Account::get_published_notes(&a, PageLimit { page: 1, limit: 2 }, &store);
    assert_eq!(page1.len(), 2);
    assert_eq!(page1[0].key, n3.key);
    assert_eq!(page1[1].key, n2.key);

    let page2 = Account::get_published_notes(&a, PageLimit { page: 2, limit: 2 }, &store);
    assert_eq!(page2.len(), 1);
    assert_eq!(page2[0].key, n1.key);
}

#[test]
fn find_by_username_distinguishes_local_and_remote() {
    let mut store = GraphStore::new();
    let local = store.create_account(Account::new(String::from("u")), 1);
    let found = Account::find_by_username(&String::from("u"), None, &store).unwrap();
    assert_eq!(found.key, local.key);
    let missing = Account::find_by_username(&String::from("v"), None, &store);
    assert!(missing.is_err());
    let wrong_domain = Account::find_by_username(
        &String::from("u"),
        Some(&String::from("example.org")),
        &store,
    );
    assert!(wrong_domain.is_err());
}

#[test]
fn page_limit_formats_and_saturates() {
    let pl = PageLimit::default();
    assert_eq!(pl.page, 1);
    assert_eq!(pl.limit, 50);
    assert_eq!(pl.offset(), 0);
    assert_eq!(pl.to_aql(), "LIMIT 0, 50");

    let pl2 = PageLimit { page: 3, limit: 20 };
    assert_eq!(pl2.offset(), 40);
    assert_eq!(pl2.to_aql(), "LIMIT 40, 20");

    let big = PageLimit { page: u32::MAX, limit: u32::MAX };
    assert_eq!(big.offset(), u32::MAX);

    let zero = PageLimit { page: 0, limit: 7 };
    assert_eq!(zero.offset(), 0);
}

#[test]
fn calling_get_on_empty_cache_does_the_operation() {
    let mut counter = 0u32;
    let mut cache: ShortLivedCache<&'static str> = ShortLivedCache::new();
    let key = String::from("hello");
    let output = if cache.claim(&key) {
        counter = 1;
        cache.fulfill(&key, "world");
        *cache.get_ready(&key).unwrap()
    } else {
        *cache.get_ready(&key).unwrap()
    };
    assert_eq!(counter, 1);
    assert_eq!(output, "world");
}

#[test]
fn parallel_get_calls_return_the_same_future() {
    // Several readers ask for one key: only the first claim wins, so the
    // generator runs once; everyone reads the same cell.
    let mut counter = 0u32;
    let mut cache: ShortLivedCache<&'static str> = ShortLivedCache::new();
    let key = String::from("hello");
    assert!(cache.claim(&key));
    assert!(!cache.claim(&key));
    assert!(!cache.claim(&key));
    counter += 1;
    cache.fulfill(&key, "world");
    let out1 = *cache.get_ready(&key).unwrap();
    let out2 = *cache.get_ready(&key).unwrap();
    let out3 = *cache.get_ready(&key).unwrap();
    assert_eq!(counter, 1);
    assert_eq!(out1, "world");
    assert_eq!(out2, "world");
    assert_eq!(out3, "world");
}

#[test]
fn subsequent_get_calls_return_cached_result() {
    let mut counter = 0u32;
    let mut cache: ShortLivedCache<&'static str> = ShortLivedCache::new();
    let key = String::from("hello");
    if cache.claim(&key) {
        counter += 1;
        cache.fulfill(&key, "world");
    }
    assert_eq!(*cache.get_ready(&key).unwrap(), "world");
    assert_eq!(counter, 1);
    if cache.claim(&key) {
        counter += 1;
        cache.fulfill(&key, "world");
    }
    assert_eq!(*cache.get_ready(&key).unwrap(), "world");
    assert_eq!(counter, 1);
}

#[test]
fn put_many_caches_every_record() {
    let mut cache: vertix::RecordCache<Account> = vertix::RecordCache::new();
    let docs = vec![
        vertix::Document { key: String::from("1"), record: Account::new(String::from("a")) },
        vertix::Document { key: String::from("2"), record: Account::new(String::from("b")) },
    ];
    cache.put_many(docs);
    let one = String::from("1");
    let two = String::from("2");
    match cache.get_ready(&one) {
        Some(Ok(doc)) => assert_eq!(doc.record.username, "a"),
        _ => panic!("first record not cached"),
    }
    match cache.get_ready(&two) {
        Some(Ok(doc)) => assert_eq!(doc.record.username, "b"),
        _ => panic!("second record not cached"),
    }
}

#[test]
fn wrappers_carry_records_in_and_out() {
    let raw = (String::from("k1"), Account::new(String::from("w")));
    let doc: vertix::Document<Account> = raw.wrap();
    assert_eq!(doc.key, "k1");
    assert_eq!(doc.record.username, "w");
    let (key, record) = doc.into_inner();
    assert_eq!(key, "k1");
    assert_eq!(record.username, "w");

    let raw_edge = (
        String::from("e1"),
        String::from("a"),
        String::from("b"),
        vertix::Publish { created_at: Some(7) },
    );
    let edge: vertix::Edge<vertix::Publish> = raw_edge.wrap();
    assert_eq!(edge.key_from(), "a");
    assert_eq!(edge.key_to(), "b");
    let inner = edge.into_inner();
    assert_eq!(inner.3.created_at, Some(7));
}

#[test]
fn put_replaces_any_cell() {
    let mut cache: ShortLivedCache<u32> = ShortLivedCache::new();
    let key = String::from("k");
    assert!(cache.claim(&key));
    cache.put(&key, 7);
    assert_eq!(*cache.get_ready(&key).unwrap(), 7);
    cache.put(&key, 9);
    assert_eq!(*cache.get_ready(&key).unwrap(), 9);
    assert!(matches!(cache.get_ready(&String::from("other")), None::<&u32>));
    let _ = CacheCell::Ready(1u32);
}
