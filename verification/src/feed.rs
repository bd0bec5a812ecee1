//! Unified feed documents and the logic that reads them.
//!
//! A fetched feed is either an Atom feed or an RSS channel. Both are held
//! here as plain values; the entry logic (canonical-URL resolution,
//! publish-time fallback) is verified against spec-level views.

use vstd::prelude::*;

verus! {

/// Declares `atom_syndication::Entry` so conversion wrappers can take it.
#[verifier::external_type_specification]
#[verifier::external_body]
pub struct ExAtomEntry(atom_syndication::Entry);

/// Declares `atom_syndication::Link` so conversion wrappers can take it.
#[verifier::external_type_specification]
#[verifier::external_body]
pub struct ExAtomLink(atom_syndication::Link);

/// Declares `rss::Item` so conversion wrappers can take it.
#[verifier::external_type_specification]
#[verifier::external_body]
pub struct ExRssItem(rss::Item);

/// A candidate link of an Atom entry: target, relation and media-type hint.
#[derive(Debug)]
pub struct EntryLink {
    pub href: String,
    pub rel: String,
    pub mime_type: Option<String>,
}

/// Spec-level view of a [`EntryLink`].
#[verifier::ext_equal]
pub ghost struct LinkV {
    pub href: Seq<char>,
    pub rel: Seq<char>,
    pub mime_type: Option<Seq<char>>,
}

impl View for EntryLink {
    type V = LinkV;

    open spec fn view(&self) -> LinkV {
        LinkV {
            href: self.href@,
            rel: self.rel@,
            mime_type: match self.mime_type {
                Some(ref m) => Some(m@),
                None => None,
            },
        }
    }
}

/// Whether a link is an "alternate" link that points at an HTML page.
pub open spec fn is_alt_html(l: LinkV) -> bool {
    l.rel == "alternate"@ && l.mime_type == Some("text/html"@)
}

/// Whether a link is an "alternate" link, whatever its media type.
pub open spec fn is_alt(l: LinkV) -> bool {
    l.rel == "alternate"@
}

/// The first link of `links` that satisfies `is_alt_html`, if any.
pub open spec fn first_alt_html(links: Seq<LinkV>) -> Option<LinkV>
    decreases links.len(),
{
    if links.len() == 0 {
        None
    } else if is_alt_html(links[0]) {
        Some(links[0])
    } else {
        first_alt_html(links.drop_first())
    }
}

/// The first link of `links` that satisfies `is_alt`, if any.
pub open spec fn first_alt(links: Seq<LinkV>) -> Option<LinkV>
    decreases links.len(),
{
    if links.len() == 0 {
        None
    } else if is_alt(links[0]) {
        Some(links[0])
    } else {
        first_alt(links.drop_first())
    }
}

/// The canonical URL of an entry with links `links` and bare id `id`:
/// prefer the first "alternate" link with an HTML media type, else the
/// first "alternate" link, else the first link, else the id itself.
/// This ordering decides the dedup key and must not change.
pub open spec fn resolved_url(links: Seq<LinkV>, id: Seq<char>) -> Seq<char> {
    match first_alt_html(links) {
        Some(l) => l.href,
        None => match first_alt(links) {
            Some(l) => l.href,
            None => if links.len() > 0 {
                links[0].href
            } else {
                id
            },
        },
    }
}

proof fn lemma_first_alt_html_found(links: Seq<LinkV>, i: int)
    requires
        0 <= i < links.len(),
        is_alt_html(links[i]),
        forall|j: int| 0 <= j < i ==> !is_alt_html(#[trigger] links[j]),
    ensures
        first_alt_html(links) == Some(links[i]),
    decreases i,
{
    if i > 0 {
        lemma_first_alt_html_found(links.drop_first(), i - 1);
    }
}

proof fn lemma_first_alt_html_none(links: Seq<LinkV>)
    requires
        forall|j: int| 0 <= j < links.len() ==> !is_alt_html(#[trigger] links[j]),
    ensures
        first_alt_html(links) is None,
    decreases links.len(),
{
    if links.len() > 0 {
        lemma_first_alt_html_none(links.drop_first());
    }
}

proof fn lemma_first_alt_found(links: Seq<LinkV>, i: int)
    requires
        0 <= i < links.len(),
        is_alt(links[i]),
        forall|j: int| 0 <= j < i ==> !is_alt(#[trigger] links[j]),
    ensures
        first_alt(links) == Some(links[i]),
    decreases i,
{
    if i > 0 {
        lemma_first_alt_found(links.drop_first(), i - 1);
    }
}

proof fn lemma_first_alt_none(links: Seq<LinkV>)
    requires
        forall|j: int| 0 <= j < links.len() ==> !is_alt(#[trigger] links[j]),
    ensures
        first_alt(links) is None,
    decreases links.len(),
{
    if links.len() > 0 {
        lemma_first_alt_none(links.drop_first());
    }
}

/// Resolve the canonical URL of an entry from its link list and bare id,
/// by the fixed priority that [`resolved_url`] states.
pub fn resolve_entry_url(links: &Vec<EntryLink>, id: &String) -> (r: String)
    ensures
        r@ == resolved_url(links@.map_values(|l: EntryLink| l@), id@),
{
    let ghost lviews = links@.map_values(|l: EntryLink| l@);
    let alternate: String = "alternate".to_owned();
    let html: String = "text/html".to_owned();

    let mut i: usize = 0;
    while i < links.len()
        invariant
            0 <= i <= links.len(),
            lviews == links@.map_values(|l: EntryLink| l@),
            alternate@ == "alternate"@,
            html@ == "text/html"@,
            forall|j: int| 0 <= j < i ==> !is_alt_html(#[trigger] lviews[j]),
        decreases links.len() - i,
    {
        let link = &links[i];
        let mime_matches = match &link.mime_type {
            Some(m) => *m == html,
            None => false,
        };
        if link.rel == alternate && mime_matches {
            proof {
                lemma_first_alt_html_found(lviews, i as int);
            }
            return link.href.clone();
        }
        i += 1;
    }
    proof {
        lemma_first_alt_html_none(lviews);
    }

    let mut i: usize = 0;
    while i < links.len()
        invariant
            0 <= i <= links.len(),
            lviews == links@.map_values(|l: EntryLink| l@),
            alternate@ == "alternate"@,
            first_alt_html(lviews) is None,
            forall|j: int| 0 <= j < i ==> !is_alt(#[trigger] lviews[j]),
        decreases links.len() - i,
    {
        let link = &links[i];
        if link.rel == alternate {
            proof {
                lemma_first_alt_found(lviews, i as int);
            }
            return link.href.clone();
        }
        i += 1;
    }
    proof {
        lemma_first_alt_none(lviews);
    }

    if links.len() > 0 {
        links[0].href.clone()
    } else {
        id.clone()
    }
}

/// One entry of an Atom feed, held as plain values. Timestamps are already
/// rendered as RFC 3339 strings by the parse wrapper.
#[derive(Debug)]
pub struct AtomEntry {
    pub id: String,
    pub title: String,
    pub summary: Option<String>,
    pub content: Option<String>,
    pub published: Option<String>,
    pub updated: String,
    pub links: Vec<EntryLink>,
}

/// Spec-level view of an [`AtomEntry`].
#[verifier::ext_equal]
pub ghost struct AtomEntryV {
    pub id: Seq<char>,
    pub title: Seq<char>,
    pub summary: Option<Seq<char>>,
    pub content: Option<Seq<char>>,
    pub published: Option<Seq<char>>,
    pub updated: Seq<char>,
    pub links: Seq<LinkV>,
}

impl View for AtomEntry {
    type V = AtomEntryV;

    open spec fn view(&self) -> AtomEntryV {
        AtomEntryV {
            id: self.id@,
            title: self.title@,
            summary: self.summary.deep_view(),
            content: self.content.deep_view(),
            published: self.published.deep_view(),
            updated: self.updated@,
            links: self.links@.map_values(|l: EntryLink| l@),
        }
    }
}

/// An Atom feed document: its title and its entries, in document order.
#[derive(Debug)]
pub struct AtomFeedDoc {
    pub title: String,
    pub entries: Vec<AtomEntry>,
}

/// Spec-level view of an [`AtomFeedDoc`].
#[verifier::ext_equal]
pub ghost struct AtomFeedDocV {
    pub title: Seq<char>,
    pub entries: Seq<AtomEntryV>,
}

impl View for AtomFeedDoc {
    type V = AtomFeedDocV;

    open spec fn view(&self) -> AtomFeedDocV {
        AtomFeedDocV { title: self.title@, entries: self.entries@.map_values(|e: AtomEntry| e@) }
    }
}

/// One item of an RSS channel, held as plain values. `pub_date` is kept as
/// the raw RFC 2822 string the document carried.
#[derive(Debug)]
pub struct RssItem {
    pub title: Option<String>,
    pub link: Option<String>,
    pub description: Option<String>,
    pub pub_date: Option<String>,
}

/// Spec-level view of an [`RssItem`].
#[verifier::ext_equal]
pub ghost struct RssItemV {
    pub title: Option<Seq<char>>,
    pub link: Option<Seq<char>>,
    pub description: Option<Seq<char>>,
    pub pub_date: Option<Seq<char>>,
}

impl View for RssItem {
    type V = RssItemV;

    open spec fn view(&self) -> RssItemV {
        RssItemV {
            title: self.title.deep_view(),
            link: self.link.deep_view(),
            description: self.description.deep_view(),
            pub_date: self.pub_date.deep_view(),
        }
    }
}

/// An RSS channel document: its title and its items, in document order.
#[derive(Debug)]
pub struct RssChannelDoc {
    pub title: String,
    pub items: Vec<RssItem>,
}

/// Spec-level view of an [`RssChannelDoc`].
#[verifier::ext_equal]
pub ghost struct RssChannelDocV {
    pub title: Seq<char>,
    pub items: Seq<RssItemV>,
}

impl View for RssChannelDoc {
    type V = RssChannelDocV;

    open spec fn view(&self) -> RssChannelDocV {
        RssChannelDocV { title: self.title@, items: self.items@.map_values(|i: RssItem| i@) }
    }
}

/// A parsed feed document: the closed set of supported formats.
#[derive(Debug)]
pub enum FeedDoc {
    Atom(AtomFeedDoc),
    Rss(RssChannelDoc),
}

/// Spec-level view of a [`FeedDoc`].
#[verifier::ext_equal]
pub ghost enum FeedDocV {
    Atom(AtomFeedDocV),
    Rss(RssChannelDocV),
}

impl View for FeedDoc {
    type V = FeedDocV;

    open spec fn view(&self) -> FeedDocV {
        match self {
            FeedDoc::Atom(d) => FeedDocV::Atom(d@),
            FeedDoc::Rss(c) => FeedDocV::Rss(c@),
        }
    }
}

/// Both format parsers failed; carries both failures for diagnostics.
#[derive(Debug)]
pub struct FeedParseError {
    pub atom: String,
    pub rss: String,
}

/// What parsing `bytes` as an Atom feed yields: the document as plain
/// values, or the parser's error message. The result depends on the bytes
/// alone.
pub uninterp spec fn atom_parse(bytes: Seq<u8>) -> Result<AtomFeedDocV, Seq<char>>;

/// What parsing `bytes` as an RSS channel yields: the document as plain
/// values, or the parser's error message. The result depends on the bytes
/// alone.
pub uninterp spec fn rss_parse(bytes: Seq<u8>) -> Result<RssChannelDocV, Seq<char>>;

/// What normalizing an RFC 2822 date string to RFC 3339 yields, or `None`
/// where the string does not parse. The result depends on the string alone.
pub uninterp spec fn rfc2822_norm(s: Seq<char>) -> Option<Seq<char>>;

/// Relies on `atom_syndication::Link`'s public fields: keeps the target,
/// relation and media type of a link, dropping the rest.
#[verifier::external_body]
fn link_of(l: atom_syndication::Link) -> EntryLink {
    EntryLink { href: l.href, rel: l.rel, mime_type: l.mime_type }
}

/// Relies on `atom_syndication::Entry`'s public fields, and on chrono's
/// RFC 3339 formatting for the two timestamps (UTC rendered with a `Z`
/// suffix, whole seconds).
#[verifier::external_body]
fn atom_entry_of(e: atom_syndication::Entry) -> AtomEntry {
    AtomEntry {
        id: e.id,
        title: e.title.value,
        summary: e.summary.map(|t| t.value),
        content: e.content.and_then(|c| c.value),
        published: e.published.map(|t| t.to_rfc3339_opts(chrono::SecondsFormat::Secs, true)),
        updated: e.updated.to_rfc3339_opts(chrono::SecondsFormat::Secs, true),
        links: e.links.into_iter().map(link_of).collect(),
    }
}

/// Relies on `rss::Item`'s public fields: keeps title, link, description
/// and publish date, dropping the rest.
#[verifier::external_body]
fn rss_item_of(i: rss::Item) -> RssItem {
    RssItem { title: i.title, link: i.link, description: i.description, pub_date: i.pub_date }
}

/// The spec-level value of an Atom parse result.
pub open spec fn atom_result_view(r: Result<AtomFeedDoc, String>) -> Result<
    AtomFeedDocV,
    Seq<char>,
> {
    match r {
        Ok(d) => Ok(d@),
        Err(m) => Err(m@),
    }
}

/// The spec-level value of an RSS parse result.
pub open spec fn rss_result_view(r: Result<RssChannelDoc, String>) -> Result<
    RssChannelDocV,
    Seq<char>,
> {
    match r {
        Ok(c) => Ok(c@),
        Err(m) => Err(m@),
    }
}

/// Relies on `atom_syndication::Feed::read_from`: parses `bytes` as an
/// Atom feed. Parsing is a function of the bytes alone; [`atom_parse`]
/// names its outcome.
#[verifier::external_body]
fn parse_atom(bytes: &[u8]) -> (r: Result<AtomFeedDoc, String>)
    ensures
        atom_result_view(r) == atom_parse(bytes@),
{
    match atom_syndication::Feed::read_from(bytes) {
        Ok(f) => Ok(AtomFeedDoc {
            title: f.title.value,
            entries: f.entries.into_iter().map(atom_entry_of).collect(),
        }),
        Err(e) => Err(format!("{e}")),
    }
}

/// Relies on `rss::Channel::read_from`: parses `bytes` as an RSS channel.
/// Parsing is a function of the bytes alone; [`rss_parse`] names its
/// outcome.
#[verifier::external_body]
fn parse_rss(bytes: &[u8]) -> (r: Result<RssChannelDoc, String>)
    ensures
        rss_result_view(r) == rss_parse(bytes@),
{
    match rss::Channel::read_from(bytes) {
        Ok(c) => Ok(RssChannelDoc {
            title: c.title,
            items: c.items.into_iter().map(rss_item_of).collect(),
        }),
        Err(e) => Err(format!("{e}")),
    }
}

/// Relies on `chrono::DateTime::parse_from_rfc2822`, with the result
/// rendered as RFC 3339 (UTC as `Z`, whole seconds). The outcome depends
/// on the string alone; [`rfc2822_norm`] names it.
#[verifier::external_body]
pub fn rfc2822_to_rfc3339(s: &str) -> (r: Option<String>)
    ensures
        r.deep_view() == rfc2822_norm(s@),
{
    match chrono::DateTime::parse_from_rfc2822(s) {
        Ok(t) => Some(t.to_rfc3339_opts(chrono::SecondsFormat::Secs, true)),
        Err(_) => None,
    }
}

/// Parse raw bytes as a feed document: first as Atom, then as RSS; if both
/// fail, report both failures. No other fallback is attempted.
pub fn parse_feed(bytes: &[u8]) -> (r: Result<FeedDoc, FeedParseError>)
    ensures
        (match (atom_parse(bytes@), rss_parse(bytes@)) {
            (Ok(d), _) => r matches Ok(doc) && doc@ == FeedDocV::Atom(d),
            (Err(_), Ok(c)) => r matches Ok(doc) && doc@ == FeedDocV::Rss(c),
            (Err(am), Err(rm)) => r matches Err(e) && e.atom@ == am && e.rss@ == rm,
        }),
{
    match parse_atom(bytes) {
        Ok(d) => Ok(FeedDoc::Atom(d)),
        Err(atom_err) => match parse_rss(bytes) {
            Ok(c) => Ok(FeedDoc::Rss(c)),
            Err(rss_err) => Err(FeedParseError { atom: atom_err, rss: rss_err }),
        },
    }
}

/// What the two-step parse of `bytes` yields: the Atom document if that
/// format parses, else the RSS channel if that one does, else nothing.
pub open spec fn fetched_doc(bytes: Seq<u8>) -> Option<FeedDocV> {
    match atom_parse(bytes) {
        Ok(d) => Some(FeedDocV::Atom(d)),
        Err(_) => match rss_parse(bytes) {
            Ok(c) => Some(FeedDocV::Rss(c)),
            Err(_) => None,
        },
    }
}

/// The document's own title, whichever format it came in.
pub open spec fn doc_title_spec(d: FeedDocV) -> Seq<char> {
    match d {
        FeedDocV::Atom(f) => f.title,
        FeedDocV::Rss(c) => c.title,
    }
}

/// Return the feed document's title.
pub fn doc_title(doc: &FeedDoc) -> (r: String)
    ensures
        r@ == doc_title_spec(doc@),
{
    match doc {
        FeedDoc::Atom(f) => f.title.clone(),
        FeedDoc::Rss(c) => c.title.clone(),
    }
}

/// The publish time of an Atom entry: the explicit published timestamp
/// where present, else the updated timestamp.
pub open spec fn atom_publish_time_spec(e: AtomEntryV) -> Seq<char> {
    match e.published {
        Some(t) => t,
        None => e.updated,
    }
}

/// Resolve an Atom entry's publish time per [`atom_publish_time_spec`].
pub fn atom_publish_time(e: &AtomEntry) -> (r: String)
    ensures
        r@ == atom_publish_time_spec(e@),
{
    match &e.published {
        Some(t) => t.clone(),
        None => e.updated.clone(),
    }
}

/// The publish time of an RSS item: the item's date normalized to RFC
/// 3339 where it parses, else `now` — a sync-time default, not an
/// approximation of the real publish time (a known imprecision).
pub open spec fn rss_publish_time_spec(pub_date: Option<Seq<char>>, now: Seq<char>) -> Seq<char> {
    match pub_date {
        Some(d) => match rfc2822_norm(d) {
            Some(t) => t,
            None => now,
        },
        None => now,
    }
}

/// Resolve an RSS item's publish time per [`rss_publish_time_spec`].
pub fn rss_publish_time(pub_date: &Option<String>, now: &str) -> (r: String)
    ensures
        r@ == rss_publish_time_spec(pub_date.deep_view(), now@),
{
    match pub_date {
        Some(d) => match rfc2822_to_rfc3339(d.as_str()) {
            Some(t) => t,
            None => now.to_owned(),
        },
        None => now.to_owned(),
    }
}

} // verus!
