use tress::feed::FeedDoc;
use tress::feed::parse_feed;
use tress::feed::rfc2822_to_rfc3339;

const ATOM_DOC: &str = r#"<?xml version="1.0" encoding="utf-8"?>
<feed xmlns="http://www.w3.org/2005/Atom">
  <title>Example Feed</title>
  <id>urn:example:feed</id>
  <updated>2024-01-01T00:00:00Z</updated>
  <entry>
    <id>p1</id>
    <title>Hello</title>
    <updated>2024-01-01T00:00:00Z</updated>
  </entry>
</feed>
"#;

const RSS_DOC: &str = r#"<?xml version="1.0"?>
<rss version="2.0">
  <channel>
    <title>Example Channel</title>
    <link>https://r.example</link>
    <description>things</description>
    <item>
      <title>First</title>
      <link>https://r.example/1</link>
      <description><![CDATA[<p>Hi <b>x</b></p>]]></description>
      <pubDate>Mon, 01 Jan 2024 00:00:00 GMT</pubDate>
    </item>
  </channel>
</rss>
"#;

#[test]
fn parses_atom_document() {
    let doc = parse_feed(ATOM_DOC.as_bytes()).expect("atom document should parse");
    match doc {
        FeedDoc::Atom(f) => {
            assert_eq!(f.title, "Example Feed");
            assert_eq!(f.entries.len(), 1);
            assert_eq!(f.entries[0].id, "p1");
            assert_eq!(f.entries[0].title, "Hello");
            assert_eq!(f.entries[0].updated, "2024-01-01T00:00:00Z");
            assert!(f.entries[0].published.is_none());
        }
        FeedDoc::Rss(_) => panic!("expected the Atom representation"),
    }
}

#[test]
fn falls_back_to_rss_when_atom_fails() {
    let doc = parse_feed(RSS_DOC.as_bytes()).expect("rss document should parse");
    match doc {
        FeedDoc::Rss(c) => {
            assert_eq!(c.title, "Example Channel");
            assert_eq!(c.items.len(), 1);
            assert_eq!(c.items[0].title.as_deref(), Some("First"));
            assert_eq!(c.items[0].link.as_deref(), Some("https://r.example/1"));
            assert_eq!(
                c.items[0].pub_date.as_deref(),
                Some("Mon, 01 Jan 2024 00:00:00 GMT")
            );
        }
        FeedDoc::Atom(_) => panic!("expected the RSS representation"),
    }
}

#[test]
fn reports_both_failures_when_neither_format_parses() {
    let err = parse_feed(b"this is not a feed").expect_err("bytes are no feed");
    assert!(!err.atom.is_empty());
    assert!(!err.rss.is_empty());
}

#[test]
fn entry_prefers_published_over_updated() {
    let doc = r#"<?xml version="1.0" encoding="utf-8"?>
<feed xmlns="http://www.w3.org/2005/Atom">
  <title>T</title>
  <id>urn:example:t</id>
  <updated>2024-02-02T00:00:00Z</updated>
  <entry>
    <id>p1</id>
    <title>Dated</title>
    <published>2024-01-15T08:30:00Z</published>
    <updated>2024-02-02T00:00:00Z</updated>
  </entry>
</feed>
"#;
    let parsed = parse_feed(doc.as_bytes()).unwrap();
    match parsed {
        FeedDoc::Atom(f) => {
            let e = &f.entries[0];
            assert_eq!(e.published.as_deref(), Some("2024-01-15T08:30:00Z"));
            assert_eq!(
                tress::feed::atom_publish_time(e),
                "2024-01-15T08:30:00Z"
            );
        }
        FeedDoc::Rss(_) => panic!("expected the Atom representation"),
    }
}

#[test]
fn normalizes_rfc2822_dates() {
    assert_eq!(
        rfc2822_to_rfc3339("Mon, 01 Jan 2024 00:00:00 GMT").as_deref(),
        Some("2024-01-01T00:00:00Z")
    );
    assert_eq!(
        rfc2822_to_rfc3339("Tue, 02 Jan 2024 03:04:05 +0230").as_deref(),
        Some("2024-01-02T03:04:05+02:30")
    );
    assert_eq!(rfc2822_to_rfc3339("never o'clock"), None);
}
