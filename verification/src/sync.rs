//! The sync scheduler and the ingestion engine.
//!
//! Sync requests queue up first-in first-out for a single sequential
//! consumer. For each feed in a request's scope the worker fetches the
//! document (outside this library), hands the parsed document to
//! [`ingest_document`], then — per newly inserted post — applies the
//! enrichment outcome and records each push delivery response.

use crate::feed::AtomEntry;
use crate::feed::AtomEntryV;
use crate::feed::FeedDoc;
use crate::feed::FeedDocV;
use crate::feed::FeedParseError;
use crate::feed::fetched_doc;
use crate::feed::parse_feed;
use crate::feed::RssItem;
use crate::feed::RssItemV;
use crate::feed::atom_publish_time;
use crate::feed::atom_publish_time_spec;
use crate::feed::doc_title;
use crate::feed::doc_title_spec;
use crate::feed::resolve_entry_url;
use crate::feed::resolved_url;
use crate::feed::rss_publish_time;
use crate::feed::rss_publish_time_spec;
use crate::html::extract_og_image;
use crate::html::html_text;
use crate::html::og_image_of;
use crate::html::text_content;
use crate::push::DeliveryOutcome;
use crate::push::classify_delivery;
use crate::push::classify_delivery_spec;
use crate::store::Feed;
use crate::store::FeedV;
use crate::store::IngestOutcome;
use crate::store::NewPost;
use crate::store::NewPostV;
use crate::store::Store;
use crate::store::StoreError;
use crate::store::StoreV;
use crate::store::can_insert;
use crate::store::feeds_view;
use crate::store::has_feed;
use crate::store::has_feed_url;
use crate::store::has_post;
use crate::store::has_post_url;
use crate::store::has_sub;
use crate::store::ingest_spec;
use crate::store::set_feed_title_spec;
use crate::store::set_thumbnail_spec;
use crate::store::wf;
use vstd::prelude::*;

verus! {

/// The breadth of one sync request: every feed, or a single one.
#[derive(Clone, Copy, Debug, PartialEq, Eq, Structural)]
pub enum SyncScope {
    All,
    Feed(u64),
}

/// One request to the worker: what to sync, and whether newly found
/// posts notify subscribers. Consumed exactly once.
#[derive(Clone, Copy, Debug, PartialEq, Eq, Structural)]
pub struct SyncRequest {
    pub scope: SyncScope,
    pub notify: bool,
}

/// The recurring timer's request: a full sync that notifies.
pub fn periodic_request() -> (r: SyncRequest)
    ensures
        r.scope == SyncScope::All,
        r.notify,
{
    SyncRequest { scope: SyncScope::All, notify: true }
}

/// The request enqueued when a feed is first registered: backfill that
/// feed only, without spamming subscribers.
pub fn backfill_request(feed_id: u64) -> (r: SyncRequest)
    ensures
        r.scope == SyncScope::Feed(feed_id),
        !r.notify,
{
    SyncRequest { scope: SyncScope::Feed(feed_id), notify: false }
}

/// The worker's request queue: unbounded, first-in first-out, consumed
/// by a single sequential worker. Enqueuing never blocks and never
/// fails the producer.
pub struct SyncQueue {
    pub items: Vec<SyncRequest>,
}

impl View for SyncQueue {
    type V = Seq<SyncRequest>;

    open spec fn view(&self) -> Seq<SyncRequest> {
        self.items@
    }
}

impl SyncQueue {
    /// An empty queue.
    pub fn new() -> (r: SyncQueue)
        ensures
            r@ == Seq::<SyncRequest>::empty(),
    {
        SyncQueue { items: Vec::new() }
    }

    /// Append a request at the back.
    pub fn enqueue(&mut self, req: SyncRequest)
        ensures
            final(self)@ == old(self)@.push(req),
    {
        self.items.push(req);
    }

    /// Take the oldest request, if any.
    pub fn dequeue(&mut self) -> (r: Option<SyncRequest>)
        ensures
            old(self)@.len() == 0 ==> r is None && final(self)@ == old(self)@,
            old(self)@.len() > 0 ==> r == Some(old(self)@[0]) && final(self)@ == old(
                self,
            )@.drop_first(),
    {
        if self.items.len() == 0 {
            None
        } else {
            let req = self.items.remove(0);
            proof {
                assert(self@ =~= old(self)@.drop_first());
            }
            Some(req)
        }
    }

    /// How many requests wait.
    pub fn len(&self) -> (r: usize)
        ensures
            r == self@.len(),
    {
        self.items.len()
    }
}

/// What `k` front-dequeues of a queue holding `q` hand out, in order.
pub open spec fn drained(q: Seq<SyncRequest>, k: nat) -> Seq<SyncRequest>
    decreases k,
{
    if k == 0 || q.len() == 0 {
        Seq::empty()
    } else {
        seq![q[0]] + drained(q.drop_first(), (k - 1) as nat)
    }
}

/// The queue is first-in first-out: however many requests the worker
/// takes, it receives exactly the oldest ones, in enqueue order — two
/// requests enqueued back to back are handed out strictly in that
/// order, to the one sequential consumer.
pub proof fn lemma_fifo_order(q: Seq<SyncRequest>, k: nat)
    requires
        k <= q.len(),
    ensures
        drained(q, k) =~= q.take(k as int),
    decreases k,
{
    if k > 0 && q.len() > 0 {
        lemma_fifo_order(q.drop_first(), (k - 1) as nat);
        assert(drained(q.drop_first(), (k - 1) as nat) =~= q.drop_first().take(k as int - 1));
        assert forall|i: int| 0 <= i < k implies (seq![q[0]] + drained(
            q.drop_first(),
            (k - 1) as nat,
        ))[i] == q.take(k as int)[i] by {
            if i > 0 {
                assert(q.drop_first().take(k as int - 1)[i - 1] == q[i]);
            }
        }
    }
}

/// The feeds a request's scope covers: every feed for a full sync; for
/// a single-feed sync, that feed if it is still present, else none —
/// a feed deleted between enqueue and processing is not an error.
pub fn resolve_scope(store: &Store, scope: SyncScope) -> (r: Vec<Feed>)
    ensures
        scope == SyncScope::All ==> feeds_view(r@) == store@.feeds,
        (match scope {
            SyncScope::All => true,
            SyncScope::Feed(id) => {
                &&& has_feed(store@.feeds, id) ==> r@.len() == 1 && r@[0]@.id == id && (exists|
                    i: int,
                |
                    0 <= i < store@.feeds.len() && (#[trigger] store@.feeds[i]) == r@[0]@)
                &&& !has_feed(store@.feeds, id) ==> r@.len() == 0
            },
        }),
{
    match scope {
        SyncScope::All => {
            let mut out: Vec<Feed> = Vec::new();
            let mut i: usize = 0;
            while i < store.feeds.len()
                invariant
                    i <= store.feeds.len(),
                    feeds_view(out@) =~= store@.feeds.take(i as int),
                decreases store.feeds.len() - i,
            {
                let c = store.feeds[i].clone();
                let ghost prev = out@;
                out.push(c);
                proof {
                    assert(feeds_view(prev).len() == prev.len());
                    assert(prev.len() == i as int);
                    assert forall|k: int| 0 <= k < out@.len() implies feeds_view(out@)[k]
                        == store@.feeds.take(i as int + 1)[k] by {
                        assert(feeds_view(out@)[k] == out@[k]@);
                        if k < i as int {
                            assert(out@[k] == prev[k]);
                            assert(feeds_view(prev)[k] == prev[k]@);
                            assert(feeds_view(prev)[k] == store@.feeds.take(i as int)[k]);
                        } else {
                            assert(out@[k] == c);
                        }
                    }
                    assert(feeds_view(out@) =~= store@.feeds.take(i as int + 1));
                }
                i += 1;
            }
            proof {
                assert(store@.feeds.take(store.feeds.len() as int) =~= store@.feeds);
            }
            out
        },
        SyncScope::Feed(id) => {
            match store.find_feed(id) {
                Some(f) => {
                    let mut out: Vec<Feed> = Vec::new();
                    out.push(f);
                    out
                },
                None => Vec::new(),
            }
        },
    }
}

/// The post planned from one Atom entry: canonical URL by link
/// priority, summary stripped to visible text, explicit published time
/// else the updated time.
pub open spec fn plan_atom_spec(feed_id: u64, e: AtomEntryV) -> NewPostV {
    NewPostV {
        feed_id,
        url: resolved_url(e.links, e.id),
        title: e.title,
        description: match e.summary {
            Some(s) => Some(text_content(s)),
            None => None,
        },
        content: e.content,
        publish_time: atom_publish_time_spec(e),
    }
}

/// The post planned from one RSS item, if it carries a link: the item's
/// date normalized, else `now`; a missing title becomes "Untitled".
pub open spec fn plan_rss_spec(feed_id: u64, it: RssItemV, now: Seq<char>) -> Option<NewPostV> {
    match it.link {
        None => None,
        Some(link) => Some(
            NewPostV {
                feed_id,
                url: link,
                title: match it.title {
                    Some(t) => t,
                    None => "Untitled"@,
                },
                description: match it.description {
                    Some(d) => Some(text_content(d)),
                    None => None,
                },
                content: None,
                publish_time: rss_publish_time_spec(it.pub_date, now),
            },
        ),
    }
}

/// Plan the post record for one Atom entry, per [`plan_atom_spec`].
pub fn plan_atom_post(feed_id: u64, e: &AtomEntry) -> (r: NewPost)
    ensures
        r@ == plan_atom_spec(feed_id, e@),
{
    let description = match &e.summary {
        Some(s) => Some(html_text(s.as_str())),
        None => None,
    };
    let content = match &e.content {
        Some(c) => Some(c.clone()),
        None => None,
    };
    NewPost {
        feed_id,
        url: resolve_entry_url(&e.links, &e.id),
        title: e.title.clone(),
        description,
        content,
        publish_time: atom_publish_time(e),
    }
}

/// Plan the post record for one RSS item, per [`plan_rss_spec`]; an item
/// without a link plans nothing and is skipped.
pub fn plan_rss_post(feed_id: u64, it: &RssItem, now: &str) -> (r: Option<NewPost>)
    ensures
        (match r {
            Some(p) => plan_rss_spec(feed_id, it@, now@) == Some(p@),
            None => plan_rss_spec(feed_id, it@, now@) is None,
        }),
{
    let link = match &it.link {
        Some(l) => l.clone(),
        None => {
            return None;
        },
    };
    let title = match &it.title {
        Some(t) => t.clone(),
        None => "Untitled".to_owned(),
    };
    let description = match &it.description {
        Some(d) => Some(html_text(d.as_str())),
        None => None,
    };
    Some(
        NewPost {
            feed_id,
            url: link,
            title,
            description,
            content: None,
            publish_time: rss_publish_time(&it.pub_date, now),
        },
    )
}

/// The posts planned from a run of RSS items, in document order; items
/// without a link plan nothing.
pub open spec fn planned_rss(feed_id: u64, items: Seq<RssItemV>, now: Seq<char>) -> Seq<NewPostV>
    decreases items.len(),
{
    if items.len() == 0 {
        Seq::empty()
    } else {
        match plan_rss_spec(feed_id, items[0], now) {
            Some(p) => seq![p] + planned_rss(feed_id, items.drop_first(), now),
            None => planned_rss(feed_id, items.drop_first(), now),
        }
    }
}

/// The posts planned from a whole document, in document order.
pub open spec fn planned_posts(feed_id: u64, doc: FeedDocV, now: Seq<char>) -> Seq<NewPostV> {
    match doc {
        FeedDocV::Atom(f) => f.entries.map_values(|e: AtomEntryV| plan_atom_spec(feed_id, e)),
        FeedDocV::Rss(c) => planned_rss(feed_id, c.items, now),
    }
}

/// The store after ingesting a run of planned posts, first to last.
pub open spec fn ingest_all_spec(s: StoreV, ps: Seq<NewPostV>) -> StoreV
    decreases ps.len(),
{
    if ps.len() == 0 {
        s
    } else {
        ingest_all_spec(ingest_spec(s, ps[0]), ps.drop_first())
    }
}

/// The ids of the posts that run of ingestions inserts, in order.
pub open spec fn inserted_ids_spec(s: StoreV, ps: Seq<NewPostV>) -> Seq<u64>
    decreases ps.len(),
{
    if ps.len() == 0 {
        Seq::empty()
    } else {
        let rest = inserted_ids_spec(ingest_spec(s, ps[0]), ps.drop_first());
        if can_insert(s, ps[0]) {
            seq![s.next_post_id] + rest
        } else {
            rest
        }
    }
}

/// Folding one more post onto the end of a run.
proof fn lemma_ingest_all_push(s: StoreV, ps: Seq<NewPostV>, p: NewPostV)
    ensures
        ingest_all_spec(s, ps.push(p)) == ingest_spec(ingest_all_spec(s, ps), p),
        inserted_ids_spec(s, ps.push(p)) =~= inserted_ids_spec(s, ps) + (if can_insert(
            ingest_all_spec(s, ps),
            p,
        ) {
            seq![ingest_all_spec(s, ps).next_post_id]
        } else {
            Seq::<u64>::empty()
        }),
    decreases ps.len(),
{
    if ps.len() == 0 {
        reveal_with_fuel(ingest_all_spec, 2);
        reveal_with_fuel(inserted_ids_spec, 2);
        assert(ps.push(p)[0] == p);
        assert(ps.push(p).drop_first() =~= Seq::<NewPostV>::empty());
        if can_insert(s, p) {
            assert(inserted_ids_spec(s, ps.push(p)) =~= seq![s.next_post_id]);
        }
    } else {
        assert(ps.push(p)[0] == ps[0]);
        assert(ps.push(p).drop_first() =~= ps.drop_first().push(p));
        let s1 = ingest_spec(s, ps[0]);
        lemma_ingest_all_push(s1, ps.drop_first(), p);
        let tail = inserted_ids_spec(s1, ps.drop_first());
        let t = ingest_all_spec(s1, ps.drop_first());
        let addon: Seq<u64> = if can_insert(t, p) {
            seq![t.next_post_id]
        } else {
            Seq::<u64>::empty()
        };
        assert(inserted_ids_spec(s1, ps.drop_first().push(p)) =~= tail + addon);
        assert(ingest_all_spec(s, ps.push(p)) == ingest_all_spec(s1, ps.drop_first().push(p)));
        assert(ingest_all_spec(s, ps) == t);
        if can_insert(s, ps[0]) {
            assert(inserted_ids_spec(s, ps.push(p)) =~= seq![s.next_post_id] + (tail + addon));
            assert(inserted_ids_spec(s, ps) =~= seq![s.next_post_id] + tail);
            assert(seq![s.next_post_id] + (tail + addon) =~= (seq![s.next_post_id] + tail)
                + addon);
        } else {
            assert(inserted_ids_spec(s, ps.push(p)) =~= tail + addon);
        }
    }
}

/// Appending one more RSS item extends the plan by that item's post, if
/// it has one.
proof fn lemma_planned_rss_push(
    feed_id: u64,
    items: Seq<RssItemV>,
    it: RssItemV,
    now: Seq<char>,
)
    ensures
        planned_rss(feed_id, items.push(it), now) =~= planned_rss(feed_id, items, now) + (
        match plan_rss_spec(feed_id, it, now) {
            Some(p) => seq![p],
            None => Seq::<NewPostV>::empty(),
        }),
    decreases items.len(),
{
    if items.len() == 0 {
        reveal_with_fuel(planned_rss, 2);
        assert(items.push(it)[0] == it);
        assert(items.push(it).drop_first() =~= Seq::<RssItemV>::empty());
        match plan_rss_spec(feed_id, it, now) {
            Some(p) => {
                assert(planned_rss(feed_id, items.push(it), now) =~= seq![p]);
            },
            None => {},
        }
    } else {
        assert(items.push(it)[0] == items[0]);
        assert(items.push(it).drop_first() =~= items.drop_first().push(it));
        lemma_planned_rss_push(feed_id, items.drop_first(), it, now);
        let tail = planned_rss(feed_id, items.drop_first(), now);
        let addon: Seq<NewPostV> = match plan_rss_spec(feed_id, it, now) {
            Some(p) => seq![p],
            None => Seq::<NewPostV>::empty(),
        };
        assert(planned_rss(feed_id, items.drop_first().push(it), now) =~= tail + addon);
        match plan_rss_spec(feed_id, items[0], now) {
            Some(q) => {
                assert(planned_rss(feed_id, items.push(it), now) =~= seq![q] + (tail + addon));
                assert(planned_rss(feed_id, items, now) =~= seq![q] + tail);
                assert(seq![q] + (tail + addon) =~= (seq![q] + tail) + addon);
            },
            None => {},
        }
    }
}

/// Whether feed `feed_id` exists with a still-empty title, so the next
/// successful fetch populates it.
pub open spec fn needs_title(s: StoreV, feed_id: u64) -> bool {
    exists|i: int|
        0 <= i < s.feeds.len() && (#[trigger] s.feeds[i]).id == feed_id && s.feeds[i].title.len()
            == 0
}

/// The store with feed `feed_id`'s title populated from the fetched
/// document, where the feed exists and its title is still empty.
pub open spec fn title_refresh_spec(s: StoreV, feed_id: u64, title: Seq<char>) -> StoreV {
    if needs_title(s, feed_id) {
        set_feed_title_spec(s, feed_id, title)
    } else {
        s
    }
}

/// The store after one full sync of feed `feed_id` against a fetched
/// document: the feed's title populated if still empty, then every
/// planned post ingested in document order.
pub open spec fn sync_doc_spec(s: StoreV, feed_id: u64, doc: FeedDocV, now: Seq<char>) -> StoreV {
    ingest_all_spec(
        title_refresh_spec(s, feed_id, doc_title_spec(doc)),
        planned_posts(feed_id, doc, now),
    )
}

/// The ids of the posts that sync inserts, in document order.
pub open spec fn sync_doc_ids_spec(
    s: StoreV,
    feed_id: u64,
    doc: FeedDocV,
    now: Seq<char>,
) -> Seq<u64> {
    inserted_ids_spec(
        title_refresh_spec(s, feed_id, doc_title_spec(doc)),
        planned_posts(feed_id, doc, now),
    )
}

/// Sync one feed against its fetched, parsed document: populate the
/// feed's title if still empty, then ingest every entry in document
/// order, deduplicating by URL; a duplicate or failed entry is skipped
/// and never aborts the rest. Returns the ids of the newly inserted
/// posts, in document order — the posts that proceed to enrichment and
/// notification.
pub fn ingest_document(store: &mut Store, feed_id: u64, doc: &FeedDoc, now: &str) -> (new_ids: Vec<
    u64,
>)
    requires
        wf(old(store)@),
    ensures
        wf(final(store)@),
        final(store)@ == sync_doc_spec(old(store)@, feed_id, doc@, now@),
        new_ids@ == sync_doc_ids_spec(old(store)@, feed_id, doc@, now@),
{
    let found = store.find_feed(feed_id);
    let refresh = match &found {
        Some(f) => f.title.as_str().is_empty(),
        None => false,
    };
    if refresh {
        store.set_feed_title(feed_id, doc_title(doc));
    }
    proof {
        match found {
            Some(f) => {
                let w = choose|w: int|
                    0 <= w < old(store)@.feeds.len() && (#[trigger] old(store)@.feeds[w]) == f@;
                if f@.title.len() == 0 {
                    assert(needs_title(old(store)@, feed_id));
                } else {
                    if needs_title(old(store)@, feed_id) {
                        let i = choose|i: int|
                            0 <= i < old(store)@.feeds.len() && (#[trigger] old(
                                store,
                            )@.feeds[i]).id == feed_id && old(store)@.feeds[i].title.len() == 0;
                        assert(i == w);
                    }
                }
            },
            None => {
                assert(!needs_title(old(store)@, feed_id));
            },
        }
        assert(store@ == title_refresh_spec(old(store)@, feed_id, doc_title_spec(doc@)));
    }
    let ghost s0 = store@;
    let ghost planned = planned_posts(feed_id, doc@, now@);
    let mut ids: Vec<u64> = Vec::new();
    match doc {
        FeedDoc::Atom(af) => {
            proof {
                assert(planned.len() == af.entries@.len());
                assert forall|j: int| 0 <= j < planned.len() implies #[trigger] planned[j]
                    == plan_atom_spec(feed_id, af.entries@[j]@) by {
                    assert(af@.entries[j] == af.entries@[j]@);
                }
            }
            let mut i: usize = 0;
            while i < af.entries.len()
                invariant
                    wf(store@),
                    i <= af.entries.len(),
                    planned.len() == af.entries@.len(),
                    forall|j: int| 0 <= j < planned.len() ==> #[trigger] planned[j]
                        == plan_atom_spec(feed_id, af.entries@[j]@),
                    store@ == ingest_all_spec(s0, planned.take(i as int)),
                    ids@ == inserted_ids_spec(s0, planned.take(i as int)),
                decreases af.entries.len() - i,
            {
                let post = plan_atom_post(feed_id, &af.entries[i]);
                let outcome = store.ingest_post(&post);
                proof {
                    assert(post@ == planned[i as int]);
                    assert(planned.take(i as int + 1) =~= planned.take(i as int).push(
                        planned[i as int],
                    ));
                    lemma_ingest_all_push(s0, planned.take(i as int), planned[i as int]);
                }
                match outcome {
                    IngestOutcome::Inserted(id) => {
                        ids.push(id);
                        proof {
                            assert(ids@ =~= inserted_ids_spec(s0, planned.take(i as int + 1)));
                        }
                    },
                    _ => {
                        proof {
                            assert(ids@ =~= inserted_ids_spec(s0, planned.take(i as int + 1)));
                        }
                    },
                }
                i += 1;
            }
            proof {
                assert(planned.take(af.entries@.len() as int) =~= planned);
            }
        },
        FeedDoc::Rss(ch) => {
            proof {
                assert(planned == planned_rss(feed_id, ch@.items, now@));
                assert forall|j: int| 0 <= j < ch.items@.len() implies #[trigger] ch@.items[j]
                    == ch.items@[j]@ by {}
            }
            let mut i: usize = 0;
            while i < ch.items.len()
                invariant
                    wf(store@),
                    i <= ch.items.len(),
                    planned == planned_rss(feed_id, ch@.items, now@),
                    ch@.items.len() == ch.items@.len(),
                    forall|j: int| 0 <= j < ch.items@.len() ==> #[trigger] ch@.items[j]
                        == ch.items@[j]@,
                    store@ == ingest_all_spec(
                        s0,
                        planned_rss(feed_id, ch@.items.take(i as int), now@),
                    ),
                    ids@ == inserted_ids_spec(
                        s0,
                        planned_rss(feed_id, ch@.items.take(i as int), now@),
                    ),
                decreases ch.items.len() - i,
            {
                let planned_one = plan_rss_post(feed_id, &ch.items[i], now);
                let ghost prefix = planned_rss(feed_id, ch@.items.take(i as int), now@);
                proof {
                    assert(ch@.items.take(i as int + 1) =~= ch@.items.take(i as int).push(
                        ch@.items[i as int],
                    ));
                    lemma_planned_rss_push(
                        feed_id,
                        ch@.items.take(i as int),
                        ch@.items[i as int],
                        now@,
                    );
                }
                match planned_one {
                    Some(post) => {
                        let outcome = store.ingest_post(&post);
                        proof {
                            assert(planned_rss(feed_id, ch@.items.take(i as int + 1), now@)
                                =~= prefix.push(post@));
                            lemma_ingest_all_push(s0, prefix, post@);
                        }
                        match outcome {
                            IngestOutcome::Inserted(id) => {
                                ids.push(id);
                                proof {
                                    assert(ids@ =~= inserted_ids_spec(
                                        s0,
                                        planned_rss(feed_id, ch@.items.take(i as int + 1), now@),
                                    ));
                                }
                            },
                            _ => {
                                proof {
                                    assert(ids@ =~= inserted_ids_spec(
                                        s0,
                                        planned_rss(feed_id, ch@.items.take(i as int + 1), now@),
                                    ));
                                }
                            },
                        }
                    },
                    None => {
                        proof {
                            assert(planned_rss(feed_id, ch@.items.take(i as int + 1), now@)
                                =~= prefix);
                        }
                    },
                }
                i += 1;
            }
            proof {
                assert(ch@.items.take(ch.items@.len() as int) =~= ch@.items);
            }
        },
    }
    ids
}

/// Apply the outcome of the content fetch for post `post_id`. A fetched
/// page has its Open Graph image — or the lack of one — recorded as the
/// post's thumbnail. A fetch that exhausted its retries changes
/// nothing: the post stays persisted without a thumbnail, and the sync
/// goes on with the next entry.
pub fn apply_enrichment(store: &mut Store, post_id: u64, page: Option<&String>) -> (r: bool)
    requires
        wf(old(store)@),
    ensures
        wf(final(store)@),
        (match page {
            Some(body) => final(store)@ == set_thumbnail_spec(
                old(store)@,
                post_id,
                og_image_of(body@),
            ),
            None => final(store)@ == old(store)@,
        }),
        has_post(final(store)@.posts, post_id) == has_post(old(store)@.posts, post_id),
        r == (page is Some && has_post(old(store)@.posts, post_id)),
{
    match page {
        Some(body) => {
            let img = extract_og_image(body.as_str());
            let res = store.set_thumbnail(post_id, img);
            proof {
                assert forall|i: int| 0 <= i < store@.posts.len() implies (
                #[trigger] store@.posts[i]).id == old(store)@.posts[i].id by {}
                if has_post(old(store)@.posts, post_id) {
                    let i = choose|i: int|
                        0 <= i < old(store)@.posts.len() && (#[trigger] old(store)@.posts[i]).id
                            == post_id;
                    assert(store@.posts[i].id == post_id);
                }
                if has_post(store@.posts, post_id) {
                    let i = choose|i: int|
                        0 <= i < store@.posts.len() && (#[trigger] store@.posts[i]).id == post_id;
                    assert(old(store)@.posts[i].id == post_id);
                }
            }
            res
        },
        None => false,
    }
}

/// Record one push delivery response for subscription `sub_id`: a Gone
/// endpoint (410) has its subscription deleted; any other failure or a
/// success leaves the subscription set untouched — the caller only logs
/// a failure.
pub fn record_delivery(store: &mut Store, sub_id: u64, status: u16) -> (r: DeliveryOutcome)
    requires
        wf(old(store)@),
    ensures
        wf(final(store)@),
        r == classify_delivery_spec(status),
        status == 410 ==> !has_sub(final(store)@.subs, sub_id),
        status != 410 ==> final(store)@ == old(store)@,
        final(store)@.feeds == old(store)@.feeds,
        final(store)@.posts == old(store)@.posts,
        status == 410 && has_sub(old(store)@.subs, sub_id) ==> (exists|i: int|
            0 <= i < old(store)@.subs.len() && (#[trigger] old(store)@.subs[i]).id == sub_id
                && final(store)@.subs == old(store)@.subs.remove(i)),
        status == 410 && !has_sub(old(store)@.subs, sub_id) ==> final(store)@ == old(store)@,
{
    let outcome = classify_delivery(status);
    match outcome {
        DeliveryOutcome::Invalid => {
            store.delete_subscription(sub_id);
        },
        _ => {},
    }
    outcome
}

/// Why registering a feed failed: the document parsed as neither
/// format, or the insert itself was refused.
#[derive(Debug)]
pub enum RegisterError {
    Parse(FeedParseError),
    Storage(StoreError),
}

/// Register a feed from its already-fetched document bytes: parse them
/// (Atom first, then RSS), create the feed row titled from the
/// document, and enqueue a backfill sync of that feed only, which does
/// not notify subscribers. Fails only if the parse or the insert
/// itself fails; the store and the queue are then untouched.
pub fn register_feed(store: &mut Store, queue: &mut SyncQueue, url: String, body: &[u8]) -> (r:
    Result<u64, RegisterError>)
    requires
        wf(old(store)@),
    ensures
        wf(final(store)@),
        (match r {
            Ok(id) => {
                &&& fetched_doc(body@) matches Some(d) && final(store)@.feeds == old(
                    store,
                )@.feeds.push(
                    FeedV {
                        id,
                        url: url@,
                        title: doc_title_spec(d),
                        icon: None,
                        thumbnail: None,
                    },
                )
                &&& !has_feed_url(old(store)@.feeds, url@)
                &&& id == old(store)@.next_feed_id
                &&& final(store)@.next_feed_id == id + 1
                &&& final(store)@.posts == old(store)@.posts
                &&& final(store)@.subs == old(store)@.subs
                &&& final(queue)@ == old(queue)@.push(
                    SyncRequest { scope: SyncScope::Feed(id), notify: false },
                )
            },
            Err(e) => {
                &&& final(store)@ == old(store)@
                &&& final(queue)@ == old(queue)@
                &&& (e matches RegisterError::Parse(_) <==> fetched_doc(body@) is None)
                &&& (e matches RegisterError::Storage(StoreError::Conflict) ==> has_feed_url(
                    old(store)@.feeds,
                    url@,
                ))
                &&& (e matches RegisterError::Storage(StoreError::Exhausted) ==> old(
                    store,
                )@.next_feed_id == u64::MAX)
            },
        }),
        r is Ok <==> fetched_doc(body@) is Some && !has_feed_url(old(store)@.feeds, url@) && old(
            store,
        )@.next_feed_id < u64::MAX,
{
    let doc = match parse_feed(body) {
        Ok(doc) => doc,
        Err(e) => {
            return Err(RegisterError::Parse(e));
        },
    };
    let title = doc_title(&doc);
    match store.insert_feed(url, title) {
        Ok(id) => {
            queue.enqueue(SyncRequest { scope: SyncScope::Feed(id), notify: false });
            Ok(id)
        },
        Err(e) => Err(RegisterError::Storage(e)),
    }
}

proof fn lemma_ingest_step_frame(s: StoreV, p: NewPostV)
    ensures
        ingest_spec(s, p).feeds == s.feeds,
        ingest_spec(s, p).subs == s.subs,
        ingest_spec(s, p).next_feed_id == s.next_feed_id,
        ingest_spec(s, p).next_sub_id == s.next_sub_id,
        ingest_spec(s, p).next_post_id >= s.next_post_id,
        forall|u: Seq<char>|
            has_post_url(s.posts, u) ==> #[trigger] has_post_url(ingest_spec(s, p).posts, u),
{
    if can_insert(s, p) {
        assert forall|u: Seq<char>| has_post_url(s.posts, u) implies #[trigger] has_post_url(
            ingest_spec(s, p).posts,
            u,
        ) by {
            let i = choose|i: int|
                0 <= i < s.posts.len() && (#[trigger] s.posts[i]).url == u;
            assert(ingest_spec(s, p).posts[i].url == u);
        }
    }
}

proof fn lemma_ingest_all_frame(s: StoreV, ps: Seq<NewPostV>)
    ensures
        ingest_all_spec(s, ps).feeds == s.feeds,
        ingest_all_spec(s, ps).subs == s.subs,
        ingest_all_spec(s, ps).next_feed_id == s.next_feed_id,
        ingest_all_spec(s, ps).next_sub_id == s.next_sub_id,
        ingest_all_spec(s, ps).next_post_id >= s.next_post_id,
        forall|u: Seq<char>|
            has_post_url(s.posts, u) ==> #[trigger] has_post_url(ingest_all_spec(s, ps).posts, u),
    decreases ps.len(),
{
    if ps.len() > 0 {
        lemma_ingest_step_frame(s, ps[0]);
        lemma_ingest_all_frame(ingest_spec(s, ps[0]), ps.drop_first());
    }
}

/// After one pass over `ps`, no element of `ps` can be inserted again:
/// its URL is now present, or the reason it failed still stands.
proof fn lemma_second_pass_blocked(s: StoreV, ps: Seq<NewPostV>, k: int)
    requires
        0 <= k < ps.len(),
    ensures
        !can_insert(ingest_all_spec(s, ps), ps[k]),
    decreases ps.len(),
{
    let s1 = ingest_spec(s, ps[0]);
    if k == 0 {
        lemma_ingest_all_frame(s1, ps.drop_first());
        if has_post_url(s.posts, ps[0].url) {
            assert(has_post_url(s1.posts, ps[0].url));
        } else if can_insert(s, ps[0]) {
            assert(s1.posts[s.posts.len() as int].url == ps[0].url);
            assert(has_post_url(s1.posts, ps[0].url));
        } else {
            if !has_feed(s.feeds, ps[0].feed_id) {
                assert(ingest_all_spec(s, ps).feeds == s.feeds);
            } else {
                assert(s.next_post_id == u64::MAX);
                assert(ingest_all_spec(s, ps).next_post_id >= u64::MAX);
            }
        }
    } else {
        lemma_second_pass_blocked(s1, ps.drop_first(), k - 1);
        assert(ps.drop_first()[k - 1] == ps[k]);
    }
}

/// A run of posts none of which can be inserted changes nothing and
/// reports no new rows.
proof fn lemma_ingest_all_noop(t: StoreV, qs: Seq<NewPostV>)
    requires
        forall|k: int| 0 <= k < qs.len() ==> !can_insert(t, #[trigger] qs[k]),
    ensures
        ingest_all_spec(t, qs) == t,
        inserted_ids_spec(t, qs) =~= Seq::<u64>::empty(),
    decreases qs.len(),
{
    if qs.len() > 0 {
        assert(!can_insert(t, qs[0]));
        assert(ingest_spec(t, qs[0]) == t);
        assert forall|k: int| 0 <= k < qs.drop_first().len() implies !can_insert(
            t,
            #[trigger] qs.drop_first()[k],
        ) by {
            assert(qs.drop_first()[k] == qs[k + 1]);
        }
        lemma_ingest_all_noop(t, qs.drop_first());
    }
}

proof fn lemma_title_refresh_frame(s: StoreV, feed_id: u64, title: Seq<char>)
    ensures
        title_refresh_spec(s, feed_id, title).posts == s.posts,
        title_refresh_spec(s, feed_id, title).subs == s.subs,
        title_refresh_spec(s, feed_id, title).next_post_id == s.next_post_id,
        title_refresh_spec(s, feed_id, title).feeds.len() == s.feeds.len(),
        forall|i: int|
            0 <= i < s.feeds.len() ==> (#[trigger] title_refresh_spec(
                s,
                feed_id,
                title,
            ).feeds[i]).id == s.feeds[i].id,
        forall|x: u64|
            has_feed(title_refresh_spec(s, feed_id, title).feeds, x) == #[trigger] has_feed(
                s.feeds,
                x,
            ),
{
    let r = title_refresh_spec(s, feed_id, title);
    assert forall|x: u64| has_feed(r.feeds, x) == #[trigger] has_feed(s.feeds, x) by {
        if has_feed(s.feeds, x) {
            let i = choose|i: int| 0 <= i < s.feeds.len() && (#[trigger] s.feeds[i]).id == x;
            assert(r.feeds[i].id == x);
        }
        if has_feed(r.feeds, x) {
            let i = choose|i: int| 0 <= i < r.feeds.len() && (#[trigger] r.feeds[i]).id == x;
            assert(s.feeds[i].id == x);
        }
    }
}

/// Syncing the same feed document twice inserts each post at most once:
/// the second pass meets only duplicate URLs (or the same failures), so
/// it leaves the store exactly as the first pass did and inserts zero
/// new rows.
pub proof fn lemma_sync_idempotent(s: StoreV, feed_id: u64, doc: FeedDocV, now: Seq<char>)
    ensures
        sync_doc_spec(sync_doc_spec(s, feed_id, doc, now), feed_id, doc, now) == sync_doc_spec(
            s,
            feed_id,
            doc,
            now,
        ),
        sync_doc_ids_spec(sync_doc_spec(s, feed_id, doc, now), feed_id, doc, now) =~= Seq::<
            u64,
        >::empty(),
{
    let title = doc_title_spec(doc);
    let ps = planned_posts(feed_id, doc, now);
    let r1 = title_refresh_spec(s, feed_id, title);
    let s1 = ingest_all_spec(r1, ps);
    let r2 = title_refresh_spec(s1, feed_id, title);

    lemma_ingest_all_frame(r1, ps);
    lemma_title_refresh_frame(s, feed_id, title);
    lemma_title_refresh_frame(s1, feed_id, title);

    assert(r2 == s1) by {
        if needs_title(s1, feed_id) {
            let i = choose|i: int|
                0 <= i < s1.feeds.len() && (#[trigger] s1.feeds[i]).id == feed_id
                    && s1.feeds[i].title.len() == 0;
            assert(s1.feeds == r1.feeds);
            if needs_title(s, feed_id) {
                assert(r1.feeds[i] == FeedV { title, ..s.feeds[i] });
                assert(title.len() == 0);
                assert forall|j: int| 0 <= j < s1.feeds.len() implies #[trigger] set_feed_title_spec(
                    s1,
                    feed_id,
                    title,
                ).feeds[j] == s1.feeds[j] by {
                    if s1.feeds[j].id == feed_id {
                        assert(s.feeds[j].id == feed_id);
                        assert(s1.feeds[j] == FeedV { title, ..s.feeds[j] });
                        assert(set_feed_title_spec(s1, feed_id, title).feeds[j] == FeedV {
                            title,
                            ..s1.feeds[j]
                        });
                    }
                }
                assert(set_feed_title_spec(s1, feed_id, title).feeds =~= s1.feeds);
                assert(set_feed_title_spec(s1, feed_id, title) =~= s1);
            } else {
                assert(r1 == s);
                assert(needs_title(s, feed_id));
            }
        }
    }

    assert forall|k: int| 0 <= k < ps.len() implies !can_insert(r2, #[trigger] ps[k]) by {
        lemma_second_pass_blocked(r1, ps, k);
        if can_insert(r2, ps[k]) {
            assert(r2.posts == s1.posts);
            assert(r2.next_post_id == s1.next_post_id);
            assert(has_feed(r2.feeds, ps[k].feed_id) == has_feed(s1.feeds, ps[k].feed_id));
            assert(can_insert(s1, ps[k]));
        }
    }
    lemma_ingest_all_noop(r2, ps);
}

} // verus!
