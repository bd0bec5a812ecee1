use tress::feed::parse_feed;
use tress::push::DeliveryOutcome;
use tress::store::IngestOutcome;
use tress::store::NewPost;
use tress::store::Store;
use tress::sync::RegisterError;
use tress::sync::SyncQueue;
use tress::sync::SyncScope;
use tress::sync::apply_enrichment;
use tress::sync::backfill_request;
use tress::sync::ingest_document;
use tress::sync::record_delivery;
use tress::sync::register_feed;
use tress::sync::resolve_scope;

const NOW: &str = "2024-06-01T12:00:00Z";

const ATOM_ONE_ENTRY: &str = r#"<?xml version="1.0" encoding="utf-8"?>
<feed xmlns="http://www.w3.org/2005/Atom">
  <title>My Blog</title>
  <id>urn:example:feed</id>
  <updated>2024-01-01T00:00:00Z</updated>
  <entry>
    <id>p1</id>
    <title>Hello</title>
    <updated>2024-01-01T00:00:00Z</updated>
  </entry>
</feed>
"#;

const ATOM_LINKS: &str = r#"<?xml version="1.0" encoding="utf-8"?>
<feed xmlns="http://www.w3.org/2005/Atom">
  <title>Linky</title>
  <id>urn:example:linky</id>
  <updated>2024-01-01T00:00:00Z</updated>
  <entry>
    <id>entry-bare-id</id>
    <title>Priorities</title>
    <updated>2024-01-01T00:00:00Z</updated>
    <link rel="alternate" href="https://plain.example/post"/>
    <link rel="alternate" type="text/html" href="https://html.example/post"/>
  </entry>
</feed>
"#;

const RSS_ITEMS: &str = r#"<?xml version="1.0"?>
<rss version="2.0">
  <channel>
    <title>Chan</title>
    <link>https://r.example</link>
    <description>things</description>
    <item>
      <title>First</title>
      <link>https://r.example/1</link>
      <description><![CDATA[<p>Hi <b>x</b></p>]]></description>
      <pubDate>Mon, 01 Jan 2024 00:00:00 GMT</pubDate>
    </item>
    <item>
      <description>an item without a link is skipped</description>
    </item>
    <item>
      <link>https://r.example/3</link>
      <pubDate>not a date</pubDate>
    </item>
  </channel>
</rss>
"#;

fn store_with_feed(url: &str, title: &str) -> (Store, u64) {
    let mut store = Store::new();
    let id = store
        .insert_feed(url.to_owned(), title.to_owned())
        .expect("fresh url inserts");
    (store, id)
}

#[test]
fn first_sync_populates_title_and_post() {
    let (mut store, feed_id) = store_with_feed("https://e.g/feed.xml", "");
    let doc = parse_feed(ATOM_ONE_ENTRY.as_bytes()).unwrap();

    let new_ids = ingest_document(&mut store, feed_id, &doc, NOW);

    assert_eq!(new_ids.len(), 1);
    assert_eq!(store.posts.len(), 1);
    let post = &store.posts[0];
    assert_eq!(post.url, "p1");
    assert_eq!(post.title, "Hello");
    assert_eq!(post.publish_time, "2024-01-01T00:00:00Z");
    assert_eq!(post.feed_id, feed_id);
    assert!(post.thumbnail.is_none());
    assert_eq!(store.feeds[0].title, "My Blog");
}

#[test]
fn second_sync_of_same_document_inserts_nothing() {
    let (mut store, feed_id) = store_with_feed("https://e.g/feed.xml", "");
    let doc = parse_feed(ATOM_ONE_ENTRY.as_bytes()).unwrap();

    let first = ingest_document(&mut store, feed_id, &doc, NOW);
    let posts_after_first = store.posts.len();
    let second = ingest_document(&mut store, feed_id, &doc, NOW);

    assert_eq!(first.len(), 1);
    assert_eq!(second.len(), 0);
    assert_eq!(store.posts.len(), posts_after_first);
}

#[test]
fn link_priority_prefers_alternate_html() {
    let (mut store, feed_id) = store_with_feed("https://linky.example/feed", "t");
    let doc = parse_feed(ATOM_LINKS.as_bytes()).unwrap();

    ingest_document(&mut store, feed_id, &doc, NOW);

    assert_eq!(store.posts.len(), 1);
    assert_eq!(store.posts[0].url, "https://html.example/post");
}

#[test]
fn link_priority_falls_back_to_first_link() {
    let doc = r#"<?xml version="1.0" encoding="utf-8"?>
<feed xmlns="http://www.w3.org/2005/Atom">
  <title>Enclosures</title>
  <id>urn:example:enc</id>
  <updated>2024-01-01T00:00:00Z</updated>
  <entry>
    <id>entry-bare-id</id>
    <title>Listen</title>
    <updated>2024-01-01T00:00:00Z</updated>
    <link rel="enclosure" type="audio/mpeg" href="https://cdn.example/ep.mp3"/>
    <link rel="self" href="https://feed.example/entry"/>
  </entry>
</feed>
"#;
    let (mut store, feed_id) = store_with_feed("https://enc.example/feed", "t");
    let parsed = parse_feed(doc.as_bytes()).unwrap();

    ingest_document(&mut store, feed_id, &parsed, NOW);

    assert_eq!(store.posts.len(), 1);
    assert_eq!(store.posts[0].url, "https://cdn.example/ep.mp3");
}

#[test]
fn rss_items_plan_with_defaults_and_skips() {
    let (mut store, feed_id) = store_with_feed("https://r.example/rss", "t");
    let doc = parse_feed(RSS_ITEMS.as_bytes()).unwrap();

    let new_ids = ingest_document(&mut store, feed_id, &doc, NOW);

    assert_eq!(new_ids.len(), 2);
    assert_eq!(store.posts.len(), 2);
    assert_eq!(store.posts[0].url, "https://r.example/1");
    assert_eq!(store.posts[0].title, "First");
    assert_eq!(store.posts[0].description.as_deref(), Some("Hi x"));
    assert_eq!(store.posts[0].publish_time, "2024-01-01T00:00:00Z");
    assert_eq!(store.posts[1].url, "https://r.example/3");
    assert_eq!(store.posts[1].title, "Untitled");
    assert_eq!(store.posts[1].publish_time, NOW);
}

#[test]
fn enrichment_failure_keeps_post_and_sync_goes_on() {
    let (mut store, feed_id) = store_with_feed("https://e.g/feed.xml", "");
    let doc = parse_feed(ATOM_ONE_ENTRY.as_bytes()).unwrap();
    let new_ids = ingest_document(&mut store, feed_id, &doc, NOW);
    let post_id = new_ids[0];

    let applied = apply_enrichment(&mut store, post_id, None);

    assert!(!applied);
    assert_eq!(store.posts.len(), 1);
    assert_eq!(store.posts[0].id, post_id);
    assert!(store.posts[0].thumbnail.is_none());

    let next = store.ingest_post(&NewPost {
        feed_id,
        url: "https://e.g/next".to_owned(),
        title: "Next".to_owned(),
        description: None,
        content: None,
        publish_time: NOW.to_owned(),
    });
    assert!(matches!(next, IngestOutcome::Inserted(_)));
}

#[test]
fn enrichment_success_records_og_image() {
    let (mut store, feed_id) = store_with_feed("https://e.g/feed.xml", "");
    let doc = parse_feed(ATOM_ONE_ENTRY.as_bytes()).unwrap();
    let new_ids = ingest_document(&mut store, feed_id, &doc, NOW);

    let page = "<html><head>\
        <meta property=\"og:image\" content=\"https://img.example/x.png\">\
        </head><body>hi</body></html>"
        .to_owned();
    let applied = apply_enrichment(&mut store, new_ids[0], Some(&page));

    assert!(applied);
    assert_eq!(
        store.posts[0].thumbnail.as_deref(),
        Some("https://img.example/x.png")
    );
}

#[test]
fn enrichment_without_og_image_records_none() {
    let (mut store, feed_id) = store_with_feed("https://e.g/feed.xml", "");
    let doc = parse_feed(ATOM_ONE_ENTRY.as_bytes()).unwrap();
    let new_ids = ingest_document(&mut store, feed_id, &doc, NOW);

    let page = "<html><head><title>plain</title></head><body>hi</body></html>".to_owned();
    let applied = apply_enrichment(&mut store, new_ids[0], Some(&page));

    assert!(applied);
    assert!(store.posts[0].thumbnail.is_none());
}

#[test]
fn gone_delivery_deletes_subscription_and_error_keeps_it() {
    let mut store = Store::new();
    let gone_id = store
        .upsert_subscription(
            "https://push.example/gone".to_owned(),
            "auth-a".to_owned(),
            "p256-a".to_owned(),
        )
        .unwrap();
    let kept_id = store
        .upsert_subscription(
            "https://push.example/kept".to_owned(),
            "auth-b".to_owned(),
            "p256-b".to_owned(),
        )
        .unwrap();

    let gone = record_delivery(&mut store, gone_id, 410);
    let failed = record_delivery(&mut store, kept_id, 500);
    let ok = record_delivery(&mut store, kept_id, 201);

    assert!(matches!(gone, DeliveryOutcome::Invalid));
    assert!(matches!(failed, DeliveryOutcome::Failed));
    assert!(matches!(ok, DeliveryOutcome::Delivered));
    assert_eq!(store.subs.len(), 1);
    assert_eq!(store.subs[0].id, kept_id);
    assert_eq!(store.subs[0].endpoint, "https://push.example/kept");
}

#[test]
fn upsert_replaces_credentials_in_place() {
    let mut store = Store::new();
    let first = store
        .upsert_subscription("https://push.example/a".to_owned(), "k1".to_owned(), "p1".to_owned())
        .unwrap();
    let again = store
        .upsert_subscription("https://push.example/a".to_owned(), "k2".to_owned(), "p2".to_owned())
        .unwrap();
    let other = store
        .upsert_subscription("https://push.example/b".to_owned(), "k3".to_owned(), "p3".to_owned())
        .unwrap();

    assert_eq!(first, again);
    assert_ne!(first, other);
    assert_eq!(store.subs.len(), 2);
    assert_eq!(store.subs[0].auth_key, "k2");
    assert_eq!(store.subs[0].p256dh_key, "p2");
}

#[test]
fn queue_hands_requests_out_in_enqueue_order() {
    let mut queue = SyncQueue::new();
    let feed_id: u64 = 0;

    queue.enqueue(backfill_request(feed_id));
    queue.enqueue(backfill_request(feed_id));
    assert_eq!(queue.len(), 2);

    let first = queue.dequeue().unwrap();
    let second = queue.dequeue().unwrap();
    assert_eq!(first.scope, SyncScope::Feed(feed_id));
    assert!(!first.notify);
    assert_eq!(second.scope, SyncScope::Feed(feed_id));
    assert!(queue.dequeue().is_none());
}

#[test]
fn back_to_back_syncs_of_one_feed_process_strictly_in_order() {
    let mut queue = SyncQueue::new();
    let (mut store, feed_id) = store_with_feed("https://e.g/feed.xml", "");
    let doc = parse_feed(ATOM_ONE_ENTRY.as_bytes()).unwrap();

    queue.enqueue(backfill_request(feed_id));
    queue.enqueue(backfill_request(feed_id));

    let mut rounds = Vec::new();
    while let Some(req) = queue.dequeue() {
        let feeds = resolve_scope(&store, req.scope);
        assert_eq!(feeds.len(), 1);
        let inserted = ingest_document(&mut store, feeds[0].id, &doc, NOW);
        rounds.push(inserted.len());
    }

    assert_eq!(rounds, vec![1, 0]);
    assert_eq!(store.posts.len(), 1);
}

#[test]
fn resolve_scope_all_and_missing_feed() {
    let (mut store, feed_id) = store_with_feed("https://one.example/feed", "a");
    store
        .insert_feed("https://two.example/feed".to_owned(), "b".to_owned())
        .unwrap();

    let all = resolve_scope(&store, SyncScope::All);
    assert_eq!(all.len(), 2);

    let one = resolve_scope(&store, SyncScope::Feed(feed_id));
    assert_eq!(one.len(), 1);
    assert_eq!(one[0].url, "https://one.example/feed");

    let gone = resolve_scope(&store, SyncScope::Feed(9999));
    assert!(gone.is_empty());
}

#[test]
fn register_feed_titles_from_document_and_enqueues_backfill() {
    let mut store = Store::new();
    let mut queue = SyncQueue::new();

    let id = register_feed(
        &mut store,
        &mut queue,
        "https://e.g/feed.xml".to_owned(),
        ATOM_ONE_ENTRY.as_bytes(),
    )
    .expect("registration should succeed");

    assert_eq!(store.feeds.len(), 1);
    assert_eq!(store.feeds[0].title, "My Blog");
    assert_eq!(store.feeds[0].url, "https://e.g/feed.xml");
    assert_eq!(queue.len(), 1);
    let req = queue.dequeue().unwrap();
    assert_eq!(req.scope, SyncScope::Feed(id));
    assert!(!req.notify);

    let dup = register_feed(
        &mut store,
        &mut queue,
        "https://e.g/feed.xml".to_owned(),
        ATOM_ONE_ENTRY.as_bytes(),
    );
    assert!(matches!(dup, Err(RegisterError::Storage(_))));
    assert_eq!(store.feeds.len(), 1);

    let bad = register_feed(
        &mut store,
        &mut queue,
        "https://bad.example/feed".to_owned(),
        b"no feed here",
    );
    match bad {
        Err(RegisterError::Parse(e)) => {
            assert!(!e.atom.is_empty());
            assert!(!e.rss.is_empty());
        }
        other => panic!("expected a parse failure, got {other:?}"),
    }
    assert!(queue.dequeue().is_none());
}

#[test]
fn posts_list_newest_first() {
    let (mut store, feed_id) = store_with_feed("https://e.g/feed.xml", "t");
    for (url, time) in [
        ("https://e.g/a", "2024-03-01T00:00:00Z"),
        ("https://e.g/b", "2024-05-01T00:00:00Z"),
        ("https://e.g/c", "2024-01-01T00:00:00Z"),
        ("https://e.g/d", "2024-05-01T00:00:00Z"),
    ] {
        let outcome = store.ingest_post(&NewPost {
            feed_id,
            url: url.to_owned(),
            title: url.to_owned(),
            description: None,
            content: None,
            publish_time: time.to_owned(),
        });
        assert!(matches!(outcome, IngestOutcome::Inserted(_)));
    }

    let listed = store.posts_by_time_desc();
    let times: Vec<&str> = listed.iter().map(|p| p.publish_time.as_str()).collect();
    assert_eq!(
        times,
        vec![
            "2024-05-01T00:00:00Z",
            "2024-05-01T00:00:00Z",
            "2024-03-01T00:00:00Z",
            "2024-01-01T00:00:00Z",
        ]
    );
    assert_eq!(listed.len(), 4);
}

#[test]
fn duplicate_url_across_feeds_is_a_noop() {
    let (mut store, feed_a) = store_with_feed("https://a.example/feed", "a");
    let feed_b = store
        .insert_feed("https://b.example/feed".to_owned(), "b".to_owned())
        .unwrap();

    let post = NewPost {
        feed_id: feed_a,
        url: "https://shared.example/post".to_owned(),
        title: "one".to_owned(),
        description: None,
        content: None,
        publish_time: NOW.to_owned(),
    };
    assert!(matches!(store.ingest_post(&post), IngestOutcome::Inserted(_)));

    let rival = NewPost {
        feed_id: feed_b,
        url: "https://shared.example/post".to_owned(),
        title: "two".to_owned(),
        description: None,
        content: None,
        publish_time: NOW.to_owned(),
    };
    assert!(matches!(store.ingest_post(&rival), IngestOutcome::Duplicate));
    assert_eq!(store.posts.len(), 1);
    assert_eq!(store.posts[0].title, "one");
}

#[test]
fn ingest_for_missing_feed_fails_that_entry_only() {
    let mut store = Store::new();
    let post = NewPost {
        feed_id: 42,
        url: "https://nowhere.example/post".to_owned(),
        title: "orphan".to_owned(),
        description: None,
        content: None,
        publish_time: NOW.to_owned(),
    };
    assert!(matches!(store.ingest_post(&post), IngestOutcome::Failed));
    assert!(store.posts.is_empty());
}
