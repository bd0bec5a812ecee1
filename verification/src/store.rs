//! The storage model: feeds, posts and push subscriptions.
//!
//! The worker's effects are observable only through this state. The store
//! keeps the relational invariants the persistence layer would enforce:
//! post URLs are globally unique (the dedup key), subscription endpoints
//! are globally unique (the upsert key), every post references an existing
//! feed, and every row id is unique.

use vstd::multiset::Multiset;
use vstd::pervasive::VecAdditionalExecFns;
use vstd::prelude::*;
use vstd::string::StrSliceExecFns;

verus! {

broadcast use vstd::seq_lib::group_to_multiset_ensures;

/// Clone an optional string; the result equals the argument.
fn clone_opt_string(o: &Option<String>) -> (r: Option<String>)
    ensures
        r == *o,
{
    match o {
        Some(s) => Some(s.clone()),
        None => None,
    }
}

/// A subscribed source document, polled periodically.
#[derive(Debug)]
pub struct Feed {
    pub id: u64,
    pub url: String,
    pub title: String,
    pub icon: Option<String>,
    pub thumbnail: Option<String>,
}

/// Spec-level view of a [`Feed`].
#[verifier::ext_equal]
pub ghost struct FeedV {
    pub id: u64,
    pub url: Seq<char>,
    pub title: Seq<char>,
    pub icon: Option<Seq<char>>,
    pub thumbnail: Option<Seq<char>>,
}

impl View for Feed {
    type V = FeedV;

    open spec fn view(&self) -> FeedV {
        FeedV {
            id: self.id,
            url: self.url@,
            title: self.title@,
            icon: self.icon.deep_view(),
            thumbnail: self.thumbnail.deep_view(),
        }
    }
}

impl Clone for Feed {
    fn clone(&self) -> (r: Self)
        ensures
            r == *self,
    {
        Feed {
            id: self.id,
            url: self.url.clone(),
            title: self.title.clone(),
            icon: clone_opt_string(&self.icon),
            thumbnail: clone_opt_string(&self.thumbnail),
        }
    }
}

/// A single entry discovered within a feed. `thumbnail` is the only field
/// mutated after creation; re-ingesting an existing `url` is a no-op.
#[derive(Debug)]
pub struct Post {
    pub id: u64,
    pub feed_id: u64,
    pub url: String,
    pub title: String,
    pub description: Option<String>,
    pub content: Option<String>,
    pub publish_time: String,
    pub thumbnail: Option<String>,
}

/// Spec-level view of a [`Post`].
#[verifier::ext_equal]
pub ghost struct PostV {
    pub id: u64,
    pub feed_id: u64,
    pub url: Seq<char>,
    pub title: Seq<char>,
    pub description: Option<Seq<char>>,
    pub content: Option<Seq<char>>,
    pub publish_time: Seq<char>,
    pub thumbnail: Option<Seq<char>>,
}

impl View for Post {
    type V = PostV;

    open spec fn view(&self) -> PostV {
        PostV {
            id: self.id,
            feed_id: self.feed_id,
            url: self.url@,
            title: self.title@,
            description: self.description.deep_view(),
            content: self.content.deep_view(),
            publish_time: self.publish_time@,
            thumbnail: self.thumbnail.deep_view(),
        }
    }
}

impl Clone for Post {
    fn clone(&self) -> (r: Self)
        ensures
            r == *self,
    {
        Post {
            id: self.id,
            feed_id: self.feed_id,
            url: self.url.clone(),
            title: self.title.clone(),
            description: clone_opt_string(&self.description),
            content: clone_opt_string(&self.content),
            publish_time: self.publish_time.clone(),
            thumbnail: clone_opt_string(&self.thumbnail),
        }
    }
}

/// A client endpoint registered to receive notifications, with its
/// encryption credentials (base64url-encoded, opaque to this core).
#[derive(Debug)]
pub struct PushSubscription {
    pub id: u64,
    pub endpoint: String,
    pub auth_key: String,
    pub p256dh_key: String,
}

/// Spec-level view of a [`PushSubscription`].
#[verifier::ext_equal]
pub ghost struct SubscriptionV {
    pub id: u64,
    pub endpoint: Seq<char>,
    pub auth_key: Seq<char>,
    pub p256dh_key: Seq<char>,
}

impl View for PushSubscription {
    type V = SubscriptionV;

    open spec fn view(&self) -> SubscriptionV {
        SubscriptionV {
            id: self.id,
            endpoint: self.endpoint@,
            auth_key: self.auth_key@,
            p256dh_key: self.p256dh_key@,
        }
    }
}

impl Clone for PushSubscription {
    fn clone(&self) -> (r: Self)
        ensures
            r == *self,
    {
        PushSubscription {
            id: self.id,
            endpoint: self.endpoint.clone(),
            auth_key: self.auth_key.clone(),
            p256dh_key: self.p256dh_key.clone(),
        }
    }
}

/// The fields a new post is created from; the store assigns the id and
/// starts the thumbnail empty.
#[derive(Debug)]
pub struct NewPost {
    pub feed_id: u64,
    pub url: String,
    pub title: String,
    pub description: Option<String>,
    pub content: Option<String>,
    pub publish_time: String,
}

/// Spec-level view of a [`NewPost`].
#[verifier::ext_equal]
pub ghost struct NewPostV {
    pub feed_id: u64,
    pub url: Seq<char>,
    pub title: Seq<char>,
    pub description: Option<Seq<char>>,
    pub content: Option<Seq<char>>,
    pub publish_time: Seq<char>,
}

impl View for NewPost {
    type V = NewPostV;

    open spec fn view(&self) -> NewPostV {
        NewPostV {
            feed_id: self.feed_id,
            url: self.url@,
            title: self.title@,
            description: self.description.deep_view(),
            content: self.content.deep_view(),
            publish_time: self.publish_time@,
        }
    }
}

/// The post row a [`NewPost`] becomes once the store assigns it `id`.
pub open spec fn post_of(p: NewPostV, id: u64) -> PostV {
    PostV {
        id,
        feed_id: p.feed_id,
        url: p.url,
        title: p.title,
        description: p.description,
        content: p.content,
        publish_time: p.publish_time,
        thumbnail: None,
    }
}

/// Whether a feed with id `id` exists.
pub open spec fn has_feed(feeds: Seq<FeedV>, id: u64) -> bool {
    exists|i: int| 0 <= i < feeds.len() && (#[trigger] feeds[i]).id == id
}

/// Whether a post with URL `url` exists — the dedup signal.
pub open spec fn has_post_url(posts: Seq<PostV>, url: Seq<char>) -> bool {
    exists|i: int| 0 <= i < posts.len() && (#[trigger] posts[i]).url == url
}

/// Whether a subscription with id `id` exists.
pub open spec fn has_sub(subs: Seq<SubscriptionV>, id: u64) -> bool {
    exists|i: int| 0 <= i < subs.len() && (#[trigger] subs[i]).id == id
}

/// Whether a feed with source URL `url` exists — the subscribe dedup key.
pub open spec fn has_feed_url(feeds: Seq<FeedV>, url: Seq<char>) -> bool {
    exists|i: int| 0 <= i < feeds.len() && (#[trigger] feeds[i]).url == url
}

/// Whether a subscription with endpoint `endpoint` exists — the upsert key.
pub open spec fn has_endpoint(subs: Seq<SubscriptionV>, endpoint: Seq<char>) -> bool {
    exists|i: int| 0 <= i < subs.len() && (#[trigger] subs[i]).endpoint == endpoint
}

/// The views of a sequence of subscription rows.
pub open spec fn subs_view(v: Seq<PushSubscription>) -> Seq<SubscriptionV> {
    v.map_values(|s: PushSubscription| s@)
}

/// The views of a sequence of feed rows.
pub open spec fn feeds_view(v: Seq<Feed>) -> Seq<FeedV> {
    v.map_values(|f: Feed| f@)
}

/// Whether a post with id `id` exists.
pub open spec fn has_post(posts: Seq<PostV>, id: u64) -> bool {
    exists|i: int| 0 <= i < posts.len() && (#[trigger] posts[i]).id == id
}

/// Why a row could not be created.
#[derive(Debug, PartialEq, Eq, Structural)]
pub enum StoreError {
    /// The unique key is already taken.
    Conflict,
    /// The id space is used up.
    Exhausted,
}

/// The outcome of attempting to persist one planned post.
#[derive(Debug, PartialEq, Eq, Structural)]
pub enum IngestOutcome {
    /// The post was persisted under this fresh id.
    Inserted(u64),
    /// A post with the same URL is already known: a no-op, not an error.
    Duplicate,
    /// The post could not be persisted (its feed is gone, or the id space
    /// is used up); the entry is skipped and processing continues.
    Failed,
}

/// Spec-level view of a [`Store`].
#[verifier::ext_equal]
pub ghost struct StoreV {
    pub feeds: Seq<FeedV>,
    pub posts: Seq<PostV>,
    pub subs: Seq<SubscriptionV>,
    pub next_feed_id: u64,
    pub next_post_id: u64,
    pub next_sub_id: u64,
}

/// The relational invariants of the store: unique ids bounded by the id
/// counters, unique post URLs, unique feed URLs, unique endpoints, and
/// every post referencing an existing feed.
pub open spec fn wf(s: StoreV) -> bool {
    &&& forall|i: int, j: int|
        0 <= i < j < s.feeds.len() ==> (#[trigger] s.feeds[i]).id != (#[trigger] s.feeds[j]).id
    &&& forall|i: int, j: int|
        0 <= i < j < s.feeds.len() ==> (#[trigger] s.feeds[i]).url != (#[trigger] s.feeds[j]).url
    &&& forall|i: int, j: int|
        0 <= i < j < s.posts.len() ==> (#[trigger] s.posts[i]).id != (#[trigger] s.posts[j]).id
    &&& forall|i: int, j: int|
        0 <= i < j < s.posts.len() ==> (#[trigger] s.posts[i]).url != (#[trigger] s.posts[j]).url
    &&& forall|i: int, j: int|
        0 <= i < j < s.subs.len() ==> (#[trigger] s.subs[i]).id != (#[trigger] s.subs[j]).id
    &&& forall|i: int, j: int|
        0 <= i < j < s.subs.len() ==> (#[trigger] s.subs[i]).endpoint
            != (#[trigger] s.subs[j]).endpoint
    &&& forall|i: int| 0 <= i < s.feeds.len() ==> (#[trigger] s.feeds[i]).id < s.next_feed_id
    &&& forall|i: int| 0 <= i < s.posts.len() ==> (#[trigger] s.posts[i]).id < s.next_post_id
    &&& forall|i: int| 0 <= i < s.subs.len() ==> (#[trigger] s.subs[i]).id < s.next_sub_id
    &&& forall|i: int|
        0 <= i < s.posts.len() ==> has_feed(s.feeds, (#[trigger] s.posts[i]).feed_id)
}

/// Strict lexicographic order on character sequences, by scalar value:
/// the collation the posts listing is ordered under.
pub open spec fn chars_lt(a: Seq<char>, b: Seq<char>) -> bool
    decreases a.len(),
{
    if b.len() == 0 {
        false
    } else if a.len() == 0 {
        true
    } else if a[0] == b[0] {
        chars_lt(a.drop_first(), b.drop_first())
    } else {
        (a[0] as u32) < (b[0] as u32)
    }
}

proof fn lemma_chars_lt_irrefl(a: Seq<char>)
    ensures
        !chars_lt(a, a),
    decreases a.len(),
{
    if a.len() > 0 {
        lemma_chars_lt_irrefl(a.drop_first());
    }
}

proof fn lemma_chars_lt_trans(a: Seq<char>, b: Seq<char>, c: Seq<char>)
    requires
        chars_lt(a, b),
        chars_lt(b, c),
    ensures
        chars_lt(a, c),
    decreases a.len(),
{
    if a.len() > 0 && b.len() > 0 && c.len() > 0 {
        if a[0] == b[0] && b[0] == c[0] {
            lemma_chars_lt_trans(a.drop_first(), b.drop_first(), c.drop_first());
        }
    }
}

/// Whether a run of posts is listed newest first under the publish-time
/// collation: no later entry is strictly newer than an earlier one.
pub open spec fn listed_newest_first(posts: Seq<Post>) -> bool {
    forall|k: int, l: int|
        0 <= k < l < posts.len() ==> !chars_lt(
            (#[trigger] posts[k]).publish_time@,
            (#[trigger] posts[l]).publish_time@,
        )
}

/// Compare two strings under [`chars_lt`].
fn str_lt(a: &str, b: &str) -> (r: bool)
    ensures
        r == chars_lt(a@, b@),
{
    let alen = a.unicode_len();
    let blen = b.unicode_len();
    let mut i: usize = 0;
    proof {
        assert(a@.skip(0) =~= a@);
        assert(b@.skip(0) =~= b@);
    }
    while i < alen && i < blen
        invariant
            i <= alen,
            i <= blen,
            alen == a@.len(),
            blen == b@.len(),
            chars_lt(a@, b@) == chars_lt(a@.skip(i as int), b@.skip(i as int)),
        decreases alen - i,
    {
        let ca = a.get_char(i);
        let cb = b.get_char(i);
        if ca == cb {
            proof {
                assert(a@.skip(i as int).drop_first() =~= a@.skip(i as int + 1));
                assert(b@.skip(i as int).drop_first() =~= b@.skip(i as int + 1));
            }
            i += 1;
        } else {
            return (ca as u32) < (cb as u32);
        }
    }
    proof {
        if i == blen {
            assert(b@.skip(i as int).len() == 0);
        } else {
            assert(a@.skip(i as int).len() == 0);
            assert(b@.skip(i as int).len() > 0);
        }
    }
    i < blen
}

/// Whether ingesting `p` into `s` inserts a new row.
pub open spec fn can_insert(s: StoreV, p: NewPostV) -> bool {
    &&& !has_post_url(s.posts, p.url)
    &&& has_feed(s.feeds, p.feed_id)
    &&& s.next_post_id < u64::MAX
}

/// The store after ingesting `p`: unchanged on a duplicate URL or a
/// failure, else the new row appended and the post id counter advanced.
pub open spec fn ingest_spec(s: StoreV, p: NewPostV) -> StoreV {
    if can_insert(s, p) {
        StoreV {
            posts: s.posts.push(post_of(p, s.next_post_id)),
            next_post_id: (s.next_post_id + 1) as u64,
            ..s
        }
    } else {
        s
    }
}

/// The outcome ingesting `p` reports.
pub open spec fn ingest_outcome_spec(s: StoreV, p: NewPostV) -> IngestOutcome {
    if has_post_url(s.posts, p.url) {
        IngestOutcome::Duplicate
    } else if can_insert(s, p) {
        IngestOutcome::Inserted(s.next_post_id)
    } else {
        IngestOutcome::Failed
    }
}

/// The store with post `post_id`'s thumbnail set to `t`; every other row
/// and field keeps its value.
pub open spec fn set_thumbnail_spec(s: StoreV, post_id: u64, t: Option<Seq<char>>) -> StoreV {
    StoreV {
        posts: s.posts.map_values(
            |p: PostV|
                if p.id == post_id {
                    PostV { thumbnail: t, ..p }
                } else {
                    p
                },
        ),
        ..s
    }
}

/// The store with feed `feed_id`'s title set to `title`; every other row
/// and field keeps its value.
pub open spec fn set_feed_title_spec(s: StoreV, feed_id: u64, title: Seq<char>) -> StoreV {
    StoreV {
        feeds: s.feeds.map_values(
            |f: FeedV|
                if f.id == feed_id {
                    FeedV { title, ..f }
                } else {
                    f
                },
        ),
        ..s
    }
}

/// The store after upserting a subscription keyed by `endpoint`: a known
/// endpoint has its credentials replaced in place (id kept), a new one is
/// appended under a fresh id.
pub open spec fn upsert_sub_spec(
    s: StoreV,
    endpoint: Seq<char>,
    auth_key: Seq<char>,
    p256dh_key: Seq<char>,
) -> StoreV {
    if has_endpoint(s.subs, endpoint) {
        StoreV {
            subs: s.subs.map_values(
                |x: SubscriptionV|
                    if x.endpoint == endpoint {
                        SubscriptionV { id: x.id, endpoint, auth_key, p256dh_key }
                    } else {
                        x
                    },
            ),
            ..s
        }
    } else if s.next_sub_id < u64::MAX {
        StoreV {
            subs: s.subs.push(
                SubscriptionV { id: s.next_sub_id, endpoint, auth_key, p256dh_key },
            ),
            next_sub_id: (s.next_sub_id + 1) as u64,
            ..s
        }
    } else {
        s
    }
}

/// The in-memory store the worker and the interface layer share. The
/// methods keep [`wf`]; they are the only paths verified code takes.
pub struct Store {
    pub feeds: Vec<Feed>,
    pub posts: Vec<Post>,
    pub subs: Vec<PushSubscription>,
    pub next_feed_id: u64,
    pub next_post_id: u64,
    pub next_sub_id: u64,
}

impl View for Store {
    type V = StoreV;

    open spec fn view(&self) -> StoreV {
        StoreV {
            feeds: self.feeds@.map_values(|f: Feed| f@),
            posts: self.posts@.map_values(|p: Post| p@),
            subs: self.subs@.map_values(|s: PushSubscription| s@),
            next_feed_id: self.next_feed_id,
            next_post_id: self.next_post_id,
            next_sub_id: self.next_sub_id,
        }
    }
}

impl Store {
    /// An empty store.
    pub fn new() -> (r: Store)
        ensures
            wf(r@),
            r@.feeds =~= Seq::<FeedV>::empty(),
            r@.posts =~= Seq::<PostV>::empty(),
            r@.subs =~= Seq::<SubscriptionV>::empty(),
            r@.next_feed_id == 0,
            r@.next_post_id == 0,
            r@.next_sub_id == 0,
    {
        Store {
            feeds: Vec::new(),
            posts: Vec::new(),
            subs: Vec::new(),
            next_feed_id: 0,
            next_post_id: 0,
            next_sub_id: 0,
        }
    }

    /// The position of the feed with id `id`, if present.
    fn feed_pos(&self, id: u64) -> (r: Option<usize>)
        ensures
            (match r {
                Some(i) => i < self.feeds.len() && self@.feeds[i as int].id == id,
                None => !has_feed(self@.feeds, id),
            }),
    {
        let mut i: usize = 0;
        while i < self.feeds.len()
            invariant
                i <= self.feeds.len(),
                forall|j: int| 0 <= j < i ==> (#[trigger] self@.feeds[j]).id != id,
            decreases self.feeds.len() - i,
        {
            if self.feeds[i].id == id {
                return Some(i);
            }
            i += 1;
        }
        None
    }

    /// The position of the feed with source URL `url`, if present.
    fn feed_url_pos(&self, url: &String) -> (r: Option<usize>)
        ensures
            (match r {
                Some(i) => i < self.feeds.len() && self@.feeds[i as int].url == url@,
                None => !has_feed_url(self@.feeds, url@),
            }),
    {
        let mut i: usize = 0;
        while i < self.feeds.len()
            invariant
                i <= self.feeds.len(),
                forall|j: int| 0 <= j < i ==> (#[trigger] self@.feeds[j]).url != url@,
            decreases self.feeds.len() - i,
        {
            if self.feeds[i].url == *url {
                return Some(i);
            }
            i += 1;
        }
        None
    }

    /// The position of the post with id `id`, if present.
    fn post_pos(&self, id: u64) -> (r: Option<usize>)
        ensures
            (match r {
                Some(i) => i < self.posts.len() && self@.posts[i as int].id == id,
                None => !has_post(self@.posts, id),
            }),
    {
        let mut i: usize = 0;
        while i < self.posts.len()
            invariant
                i <= self.posts.len(),
                forall|j: int| 0 <= j < i ==> (#[trigger] self@.posts[j]).id != id,
            decreases self.posts.len() - i,
        {
            if self.posts[i].id == id {
                return Some(i);
            }
            i += 1;
        }
        None
    }

    /// The position of the post with URL `url`, if present.
    fn post_url_pos(&self, url: &String) -> (r: Option<usize>)
        ensures
            (match r {
                Some(i) => i < self.posts.len() && self@.posts[i as int].url == url@,
                None => !has_post_url(self@.posts, url@),
            }),
    {
        let mut i: usize = 0;
        while i < self.posts.len()
            invariant
                i <= self.posts.len(),
                forall|j: int| 0 <= j < i ==> (#[trigger] self@.posts[j]).url != url@,
            decreases self.posts.len() - i,
        {
            if self.posts[i].url == *url {
                return Some(i);
            }
            i += 1;
        }
        None
    }

    /// The position of the subscription with id `id`, if present.
    fn sub_pos(&self, id: u64) -> (r: Option<usize>)
        ensures
            (match r {
                Some(i) => i < self.subs.len() && self@.subs[i as int].id == id,
                None => !has_sub(self@.subs, id),
            }),
    {
        let mut i: usize = 0;
        while i < self.subs.len()
            invariant
                i <= self.subs.len(),
                forall|j: int| 0 <= j < i ==> (#[trigger] self@.subs[j]).id != id,
            decreases self.subs.len() - i,
        {
            if self.subs[i].id == id {
                return Some(i);
            }
            i += 1;
        }
        None
    }

    /// The position of the subscription with endpoint `endpoint`, if any.
    fn sub_endpoint_pos(&self, endpoint: &String) -> (r: Option<usize>)
        ensures
            (match r {
                Some(i) => i < self.subs.len() && self@.subs[i as int].endpoint == endpoint@,
                None => !has_endpoint(self@.subs, endpoint@),
            }),
    {
        let mut i: usize = 0;
        while i < self.subs.len()
            invariant
                i <= self.subs.len(),
                forall|j: int| 0 <= j < i ==> (#[trigger] self@.subs[j]).endpoint != endpoint@,
            decreases self.subs.len() - i,
        {
            if self.subs[i].endpoint == *endpoint {
                return Some(i);
            }
            i += 1;
        }
        None
    }

    /// Create a feed subscribed at `url`. The source URL is the unique
    /// key: a second registration of the same URL is a conflict.
    pub fn insert_feed(&mut self, url: String, title: String) -> (r: Result<u64, StoreError>)
        requires
            wf(old(self)@),
        ensures
            wf(final(self)@),
            has_feed_url(old(self)@.feeds, url@) ==> r == Err::<u64, StoreError>(
                StoreError::Conflict,
            ) && final(self)@ == old(self)@,
            !has_feed_url(old(self)@.feeds, url@) && old(self)@.next_feed_id == u64::MAX ==> r
                == Err::<u64, StoreError>(StoreError::Exhausted) && final(self)@ == old(self)@,
            !has_feed_url(old(self)@.feeds, url@) && old(self)@.next_feed_id < u64::MAX ==> {
                &&& r == Ok::<u64, StoreError>(old(self)@.next_feed_id)
                &&& final(self)@.feeds == old(self)@.feeds.push(
                    FeedV {
                        id: old(self)@.next_feed_id,
                        url: url@,
                        title: title@,
                        icon: None,
                        thumbnail: None,
                    },
                )
                &&& final(self)@.next_feed_id == old(self)@.next_feed_id + 1
                &&& final(self)@.posts == old(self)@.posts
                &&& final(self)@.subs == old(self)@.subs
                &&& final(self)@.next_post_id == old(self)@.next_post_id
                &&& final(self)@.next_sub_id == old(self)@.next_sub_id
            },
    {
        if self.feed_url_pos(&url).is_some() {
            return Err(StoreError::Conflict);
        }
        if self.next_feed_id == u64::MAX {
            return Err(StoreError::Exhausted);
        }
        let ghost gurl = url@;
        let ghost gtitle = title@;
        let id = self.next_feed_id;
        let feed = Feed { id, url, title, icon: None, thumbnail: None };
        self.feeds.push(feed);
        self.next_feed_id = id + 1;
        proof {
            assert(self@.feeds =~= old(self)@.feeds.push(
                FeedV { id, url: gurl, title: gtitle, icon: None, thumbnail: None },
            ));
            assert(self@.posts =~= old(self)@.posts);
            assert(self@.subs =~= old(self)@.subs);
            assert forall|k: int| 0 <= k < self@.posts.len() implies has_feed(
                self@.feeds,
                (#[trigger] self@.posts[k]).feed_id,
            ) by {
                let fid = old(self)@.posts[k].feed_id;
                let w = choose|j: int|
                    0 <= j < old(self)@.feeds.len() && (#[trigger] old(self)@.feeds[j]).id == fid;
                assert(self@.feeds[w].id == fid);
            }
        }
        Ok(id)
    }

    /// Attempt to persist one planned post, keyed by its URL. A known URL
    /// is a no-op duplicate; a missing feed or exhausted id space fails
    /// this entry only; otherwise the row is appended with no thumbnail.
    pub fn ingest_post(&mut self, p: &NewPost) -> (r: IngestOutcome)
        requires
            wf(old(self)@),
        ensures
            wf(final(self)@),
            final(self)@ == ingest_spec(old(self)@, p@),
            r == ingest_outcome_spec(old(self)@, p@),
    {
        if self.post_url_pos(&p.url).is_some() {
            return IngestOutcome::Duplicate;
        }
        if self.feed_pos(p.feed_id).is_none() {
            return IngestOutcome::Failed;
        }
        if self.next_post_id == u64::MAX {
            return IngestOutcome::Failed;
        }
        let id = self.next_post_id;
        let post = Post {
            id,
            feed_id: p.feed_id,
            url: p.url.clone(),
            title: p.title.clone(),
            description: clone_opt_string(&p.description),
            content: clone_opt_string(&p.content),
            publish_time: p.publish_time.clone(),
            thumbnail: None,
        };
        self.posts.push(post);
        self.next_post_id = id + 1;
        proof {
            assert(self@.posts =~= old(self)@.posts.push(post_of(p@, id)));
            assert(self@.feeds =~= old(self)@.feeds);
            assert(self@.subs =~= old(self)@.subs);
            assert(self@ =~= ingest_spec(old(self)@, p@));
            assert forall|k: int| 0 <= k < self@.posts.len() implies has_feed(
                self@.feeds,
                (#[trigger] self@.posts[k]).feed_id,
            ) by {
                if k < old(self)@.posts.len() {
                    assert(has_feed(old(self)@.feeds, old(self)@.posts[k].feed_id));
                }
            }
        }
        IngestOutcome::Inserted(id)
    }

    /// Set the title of feed `feed_id`, leaving every other row and field
    /// as it was. Returns whether the feed exists.
    pub fn set_feed_title(&mut self, feed_id: u64, title: String) -> (r: bool)
        requires
            wf(old(self)@),
        ensures
            wf(final(self)@),
            final(self)@ == set_feed_title_spec(old(self)@, feed_id, title@),
            r == has_feed(old(self)@.feeds, feed_id),
    {
        let ghost spec_after = set_feed_title_spec(old(self)@, feed_id, title@);
        match self.feed_pos(feed_id) {
            Some(i) => {
                let mut f = self.feeds[i].clone();
                f.title = title;
                self.feeds.set(i, f);
                proof {
                    assert forall|j: int| 0 <= j < self@.feeds.len() implies self@.feeds[j]
                        == spec_after.feeds[j] by {
                        if j != i {
                            assert(old(self)@.feeds[j].id != feed_id);
                        }
                    }
                    assert(self@.feeds =~= spec_after.feeds);
                    assert(self@.posts =~= old(self)@.posts);
                    assert(self@.subs =~= old(self)@.subs);
                    assert(self@ =~= spec_after);
                    assert forall|k: int| 0 <= k < self@.posts.len() implies has_feed(
                        self@.feeds,
                        (#[trigger] self@.posts[k]).feed_id,
                    ) by {
                        let fid = old(self)@.posts[k].feed_id;
                        let w = choose|j: int|
                            0 <= j < old(self)@.feeds.len() && (#[trigger] old(self)@.feeds[j]).id
                                == fid;
                        assert(self@.feeds[w].id == fid);
                    }
                }
                true
            },
            None => {
                proof {
                    assert forall|j: int| 0 <= j < self@.feeds.len() implies self@.feeds[j]
                        == spec_after.feeds[j] by {
                        assert(self@.feeds[j].id != feed_id);
                    }
                    assert(self@.feeds =~= spec_after.feeds);
                    assert(self@ =~= spec_after);
                }
                false
            },
        }
    }

    /// Set the thumbnail of post `post_id` — the only mutation a post sees
    /// after creation. Returns whether the post exists.
    pub fn set_thumbnail(&mut self, post_id: u64, thumbnail: Option<String>) -> (r: bool)
        requires
            wf(old(self)@),
        ensures
            wf(final(self)@),
            final(self)@ == set_thumbnail_spec(old(self)@, post_id, thumbnail.deep_view()),
            r == has_post(old(self)@.posts, post_id),
    {
        let ghost spec_after = set_thumbnail_spec(old(self)@, post_id, thumbnail.deep_view());
        match self.post_pos(post_id) {
            Some(i) => {
                let mut p = self.posts[i].clone();
                p.thumbnail = thumbnail;
                self.posts.set(i, p);
                proof {
                    assert forall|j: int| 0 <= j < self@.posts.len() implies self@.posts[j]
                        == spec_after.posts[j] by {
                        if j != i {
                            assert(old(self)@.posts[j].id != post_id);
                        }
                    }
                    assert(self@.posts =~= spec_after.posts);
                    assert(self@.feeds =~= old(self)@.feeds);
                    assert(self@.subs =~= old(self)@.subs);
                    assert(self@ =~= spec_after);
                    assert forall|k: int| 0 <= k < self@.posts.len() implies has_feed(
                        self@.feeds,
                        (#[trigger] self@.posts[k]).feed_id,
                    ) by {
                        assert(self@.posts[k].feed_id == old(self)@.posts[k].feed_id);
                        assert(has_feed(old(self)@.feeds, old(self)@.posts[k].feed_id));
                    }
                }
                true
            },
            None => {
                proof {
                    assert forall|j: int| 0 <= j < self@.posts.len() implies self@.posts[j]
                        == spec_after.posts[j] by {
                        assert(self@.posts[j].id != post_id);
                    }
                    assert(self@.posts =~= spec_after.posts);
                    assert(self@ =~= spec_after);
                }
                false
            },
        }
    }

    /// Create or refresh a subscription keyed by its endpoint: a known
    /// endpoint has its credentials replaced in place and keeps its id; a
    /// new endpoint is appended under a fresh id.
    pub fn upsert_subscription(
        &mut self,
        endpoint: String,
        auth_key: String,
        p256dh_key: String,
    ) -> (r: Result<u64, StoreError>)
        requires
            wf(old(self)@),
        ensures
            wf(final(self)@),
            final(self)@ == upsert_sub_spec(old(self)@, endpoint@, auth_key@, p256dh_key@),
            has_endpoint(old(self)@.subs, endpoint@) ==> (exists|i: int|
                0 <= i < old(self)@.subs.len() && (#[trigger] old(self)@.subs[i]).endpoint
                    == endpoint@ && r == Ok::<u64, StoreError>(old(self)@.subs[i].id)),
            !has_endpoint(old(self)@.subs, endpoint@) && old(self)@.next_sub_id < u64::MAX ==> r
                == Ok::<u64, StoreError>(old(self)@.next_sub_id),
            !has_endpoint(old(self)@.subs, endpoint@) && old(self)@.next_sub_id == u64::MAX ==> r
                == Err::<u64, StoreError>(StoreError::Exhausted),
    {
        let ghost spec_after = upsert_sub_spec(old(self)@, endpoint@, auth_key@, p256dh_key@);
        match self.sub_endpoint_pos(&endpoint) {
            Some(i) => {
                let id = self.subs[i].id;
                let ghost gendpoint = endpoint@;
                let s = PushSubscription { id, endpoint, auth_key, p256dh_key };
                self.subs.set(i, s);
                proof {
                    assert forall|j: int| 0 <= j < self@.subs.len() implies self@.subs[j]
                        == spec_after.subs[j] by {
                        if j != i {
                            assert(old(self)@.subs[j].endpoint != gendpoint);
                        }
                    }
                    assert(self@.subs =~= spec_after.subs);
                    assert(self@.feeds =~= old(self)@.feeds);
                    assert(self@.posts =~= old(self)@.posts);
                    assert(self@ =~= spec_after);
                    assert forall|a: int, b: int|
                        0 <= a < b < self@.subs.len() implies (#[trigger] self@.subs[a]).endpoint
                        != (#[trigger] self@.subs[b]).endpoint by {
                        assert(self@.subs[a].endpoint == old(self)@.subs[a].endpoint);
                        assert(self@.subs[b].endpoint == old(self)@.subs[b].endpoint);
                    }
                }
                Ok(id)
            },
            None => {
                if self.next_sub_id == u64::MAX {
                    return Err(StoreError::Exhausted);
                }
                let ghost gendpoint = endpoint@;
                let ghost gauth = auth_key@;
                let ghost gp256 = p256dh_key@;
                let id = self.next_sub_id;
                let s = PushSubscription { id, endpoint, auth_key, p256dh_key };
                self.subs.push(s);
                self.next_sub_id = id + 1;
                proof {
                    assert(self@.subs =~= old(self)@.subs.push(
                        SubscriptionV {
                            id,
                            endpoint: gendpoint,
                            auth_key: gauth,
                            p256dh_key: gp256,
                        },
                    ));
                    assert(self@.feeds =~= old(self)@.feeds);
                    assert(self@.posts =~= old(self)@.posts);
                    assert(self@ =~= spec_after);
                }
                Ok(id)
            },
        }
    }

    /// Delete the subscription with id `id`, if present; the delivery
    /// pipeline calls this when an endpoint reports itself gone. Every
    /// other row keeps its place and order.
    pub fn delete_subscription(&mut self, id: u64) -> (r: bool)
        requires
            wf(old(self)@),
        ensures
            wf(final(self)@),
            final(self)@.feeds == old(self)@.feeds,
            final(self)@.posts == old(self)@.posts,
            final(self)@.next_feed_id == old(self)@.next_feed_id,
            final(self)@.next_post_id == old(self)@.next_post_id,
            final(self)@.next_sub_id == old(self)@.next_sub_id,
            !has_sub(final(self)@.subs, id),
            !has_sub(old(self)@.subs, id) ==> final(self)@ == old(self)@ && r == false,
            has_sub(old(self)@.subs, id) ==> r == true && (exists|i: int|
                0 <= i < old(self)@.subs.len() && (#[trigger] old(self)@.subs[i]).id == id
                    && final(self)@.subs == old(self)@.subs.remove(i)),
    {
        match self.sub_pos(id) {
            Some(i) => {
                self.subs.remove(i);
                proof {
                    assert(self@.subs =~= old(self)@.subs.remove(i as int));
                    assert(self@.feeds =~= old(self)@.feeds);
                    assert(self@.posts =~= old(self)@.posts);
                    assert forall|j: int| 0 <= j < self@.subs.len() implies (
                    #[trigger] self@.subs[j]).id != id by {
                        if j < i {
                            assert(self@.subs[j] == old(self)@.subs[j]);
                            assert(old(self)@.subs[j].id != old(self)@.subs[i as int].id);
                        } else {
                            assert(self@.subs[j] == old(self)@.subs[j + 1]);
                            assert(old(self)@.subs[j + 1].id != old(self)@.subs[i as int].id);
                        }
                    }
                }
                true
            },
            None => false,
        }
    }

    /// Look up a feed by id; the copy equals the stored row.
    pub fn find_feed(&self, id: u64) -> (r: Option<Feed>)
        ensures
            (match r {
                Some(f) => f@.id == id && (exists|i: int|
                    0 <= i < self@.feeds.len() && (#[trigger] self@.feeds[i]) == f@),
                None => !has_feed(self@.feeds, id),
            }),
    {
        match self.feed_pos(id) {
            Some(i) => Some(self.feeds[i].clone()),
            None => None,
        }
    }

    /// Look up a post by id; the copy equals the stored row.
    pub fn find_post(&self, id: u64) -> (r: Option<Post>)
        ensures
            (match r {
                Some(p) => p@.id == id && (exists|i: int|
                    0 <= i < self@.posts.len() && (#[trigger] self@.posts[i]) == p@),
                None => !has_post(self@.posts, id),
            }),
    {
        match self.post_pos(id) {
            Some(i) => Some(self.posts[i].clone()),
            None => None,
        }
    }

    /// The posts listed newest first by publish time, under the plain
    /// character collation the storage layer would order the text
    /// column by: a reordered copy of exactly the stored rows.
    pub fn posts_by_time_desc(&self) -> (r: Vec<Post>)
        ensures
            r@.to_multiset() == self.posts@.to_multiset(),
            listed_newest_first(r@),
    {
        let mut rest: Vec<Post> = Vec::new();
        let mut i: usize = 0;
        while i < self.posts.len()
            invariant
                i <= self.posts.len(),
                rest@ =~= self.posts@.take(i as int),
            decreases self.posts.len() - i,
        {
            rest.push(self.posts[i].clone());
            proof {
                assert(rest@ =~= self.posts@.take(i as int + 1));
            }
            i += 1;
        }
        proof {
            assert(self.posts@.take(self.posts.len() as int) =~= self.posts@);
            assert(rest@.to_multiset() =~= self.posts@.to_multiset());
        }

        let mut out: Vec<Post> = Vec::new();
        while rest.len() > 0
            invariant
                out@.to_multiset().add(rest@.to_multiset()) == self.posts@.to_multiset(),
                listed_newest_first(out@),
                forall|k: int, j: int|
                    0 <= k < out@.len() && 0 <= j < rest@.len() ==> !chars_lt(
                        (#[trigger] out@[k]).publish_time@,
                        (#[trigger] rest@[j]).publish_time@,
                    ),
            decreases rest.len(),
        {
            let mut m: usize = 0;
            let mut j: usize = 1;
            proof {
                lemma_chars_lt_irrefl(rest@[0].publish_time@);
            }
            while j < rest.len()
                invariant
                    m < j,
                    j <= rest.len(),
                    forall|k: int|
                        0 <= k < j ==> !chars_lt(
                            rest@[m as int].publish_time@,
                            (#[trigger] rest@[k]).publish_time@,
                        ),
                decreases rest.len() - j,
            {
                if str_lt(rest[m].publish_time.as_str(), rest[j].publish_time.as_str()) {
                    proof {
                        assert forall|k: int| 0 <= k < j + 1 implies !chars_lt(
                            rest@[j as int].publish_time@,
                            (#[trigger] rest@[k]).publish_time@,
                        ) by {
                            if k == j as int {
                                lemma_chars_lt_irrefl(rest@[j as int].publish_time@);
                            } else if chars_lt(
                                rest@[j as int].publish_time@,
                                rest@[k].publish_time@,
                            ) {
                                lemma_chars_lt_trans(
                                    rest@[m as int].publish_time@,
                                    rest@[j as int].publish_time@,
                                    rest@[k].publish_time@,
                                );
                            }
                        }
                    }
                    m = j;
                }
                j += 1;
            }
            let ghost rest_before = rest@;
            let p = rest.remove(m);
            out.push(p);
            proof {
                assert(out@.to_multiset().add(rest@.to_multiset()) =~= self.posts@.to_multiset());
                assert forall|k: int, j2: int|
                    0 <= k < out@.len() && 0 <= j2 < rest@.len() implies !chars_lt(
                    (#[trigger] out@[k]).publish_time@,
                    (#[trigger] rest@[j2]).publish_time@,
                ) by {
                    let orig = if j2 < m as int {
                        j2
                    } else {
                        j2 + 1
                    };
                    assert(rest@[j2] == rest_before[orig]);
                    if k < out@.len() - 1 {
                        assert(!chars_lt(out@[k].publish_time@, rest_before[orig].publish_time@));
                    } else {
                        assert(out@[k] == rest_before[m as int]);
                        assert(!chars_lt(
                            rest_before[m as int].publish_time@,
                            rest_before[orig].publish_time@,
                        ));
                    }
                }
            }
        }
        proof {
            assert(rest@.to_multiset() =~= Multiset::<Post>::empty());
            assert(out@.to_multiset().add(Multiset::<Post>::empty()) =~= out@.to_multiset());
        }
        out
    }

    /// A copy of the current subscription set, fetched fresh at
    /// notification time.
    pub fn subscriptions(&self) -> (r: Vec<PushSubscription>)
        ensures
            subs_view(r@) == self@.subs,
    {
        let mut out: Vec<PushSubscription> = Vec::new();
        let mut i: usize = 0;
        while i < self.subs.len()
            invariant
                i <= self.subs.len(),
                subs_view(out@) =~= self@.subs.take(i as int),
            decreases self.subs.len() - i,
        {
            let c = self.subs[i].clone();
            let ghost prev = out@;
            out.push(c);
            proof {
                assert(subs_view(prev).len() == prev.len());
                assert(prev.len() == i as int);
                assert forall|k: int| 0 <= k < out@.len() implies subs_view(out@)[k]
                    == self@.subs.take(i as int + 1)[k] by {
                    assert(subs_view(out@)[k] == out@[k]@);
                    if k < i as int {
                        assert(out@[k] == prev[k]);
                        assert(subs_view(prev)[k] == prev[k]@);
                        assert(subs_view(prev)[k] == self@.subs.take(i as int)[k]);
                    } else {
                        assert(out@[k] == c);
                    }
                }
                assert(subs_view(out@) =~= self@.subs.take(i as int + 1));
            }
            i += 1;
        }
        proof {
            assert(self@.subs.take(self.subs.len() as int) =~= self@.subs);
        }
        out
    }
}

} // verus!
