use feedbot::channel::SlackChannel;
use feedbot::poller::Feed;
use feedbot::source::{
    alternate_links, articles_from_atom, articles_from_rss, read_document, AtomEntry, AtomLink, FeedType,
    FetchError, RssItem,
};

const RSS_DOC: &str = r#"<?xml version="1.0"?>
<rss version="2.0"><channel><title>t</title><link>http://example.com</link><description>d</description>
<item><title>First</title><link>http://example.com/1</link></item>
<item><title>Second</title></item>
<item><link>http://example.com/3</link></item>
</channel></rss>"#;

const ATOM_DOC: &str = r#"<?xml version="1.0" encoding="utf-8"?>
<feed xmlns="http://www.w3.org/2005/Atom">
<title>Blog</title><id>urn:blog</id><updated>2020-01-01T00:00:00Z</updated>
<entry><title>Release</title><id>urn:entry:1</id><updated>2020-01-01T00:00:00Z</updated>
<link rel="self" href="http://example.com/self"/>
<link rel="alternate" href="http://example.com/release"/>
</entry>
<entry><title>Notes</title><id>urn:entry:2</id><updated>2020-01-02T00:00:00Z</updated></entry>
</feed>"#;

fn pairs(v: &[feedbot::article::Article]) -> Vec<(String, String)> {
    v.iter()
        .map(|a| (a.title().to_string(), a.url().to_string()))
        .collect()
}

#[test]
fn rss_document_gives_titles_and_links_with_empty_defaults() {
    let got = read_document(FeedType::Rss, RSS_DOC).unwrap();
    assert_eq!(
        pairs(&got),
        vec![
            ("First".to_string(), "http://example.com/1".to_string()),
            ("Second".to_string(), "".to_string()),
            ("".to_string(), "http://example.com/3".to_string()),
        ]
    );
}

#[test]
fn atom_document_gives_titles_and_ids() {
    let got = read_document(FeedType::Atom, ATOM_DOC).unwrap();
    assert_eq!(
        pairs(&got),
        vec![
            ("Release".to_string(), "urn:entry:1".to_string()),
            ("Notes".to_string(), "urn:entry:2".to_string()),
        ]
    );
}

#[test]
fn alternate_kind_gives_alternate_links() {
    let f = Feed::new("http://feeds.example/py", FeedType::PythonInsider, SlackChannel::Python);
    let got = f.read_document(ATOM_DOC).unwrap();
    assert_eq!(
        pairs(&got),
        vec![
            ("Release".to_string(), "http://example.com/release".to_string()),
            ("Notes".to_string(), "".to_string()),
        ]
    );
}

#[test]
fn unreadable_documents_are_errors_of_their_kind() {
    assert_eq!(read_document(FeedType::Rss, "not xml at all").err(), Some(FetchError::Rss));
    assert_eq!(read_document(FeedType::Rss, ATOM_DOC).err(), Some(FetchError::Rss));
    assert_eq!(read_document(FeedType::Atom, RSS_DOC).err(), Some(FetchError::Atom));
    assert_eq!(read_document(FeedType::PythonInsider, "").err(), Some(FetchError::Atom));
}

#[test]
fn alternate_links_joins_every_alternate_target() {
    let links = vec![
        AtomLink { rel: "alternate".to_string(), href: "a".to_string() },
        AtomLink { rel: "self".to_string(), href: "s".to_string() },
        AtomLink { rel: "alternate".to_string(), href: "b".to_string() },
    ];
    assert_eq!(alternate_links(&links), "ab");
    assert_eq!(alternate_links(&Vec::new()), "");
}

#[test]
fn items_convert_in_order() {
    let rss = vec![
        RssItem { title: Some("x".to_string()), link: None },
        RssItem { title: None, link: Some("l".to_string()) },
    ];
    assert_eq!(
        pairs(&articles_from_rss(&rss)),
        vec![("x".to_string(), "".to_string()), ("".to_string(), "l".to_string())]
    );
    let atom = vec![AtomEntry {
        id: "id".to_string(),
        title: "t".to_string(),
        links: vec![AtomLink { rel: "alternate".to_string(), href: "h".to_string() }],
    }];
    assert_eq!(pairs(&articles_from_atom(&atom, FeedType::Atom)), vec![("t".to_string(), "id".to_string())]);
    assert_eq!(
        pairs(&articles_from_atom(&atom, FeedType::PythonInsider)),
        vec![("t".to_string(), "h".to_string())]
    );
}
