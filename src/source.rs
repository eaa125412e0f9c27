//! Feed kinds, and how a fetched document becomes a list of items.

use crate::article::{Article, ArticleUrl, ArticleView, Title};
use crate::text::same_text;
use vstd::prelude::*;

verus! {

/// How a feed's document is read into items.
#[derive(Clone, Copy, Debug, PartialEq, Eq, Structural)]
pub enum FeedType {
    /// An RSS channel: each item's title and link.
    Rss,
    /// An Atom feed: each entry's title and id.
    Atom,
    /// An Atom feed whose item links are the entries' `alternate` links.
    PythonInsider,
}

/// Why a feed yielded no items this time.
#[derive(Clone, Copy, Debug, PartialEq, Eq, Structural)]
pub enum FetchError {
    /// The document could not be retrieved.
    Transport,
    /// The document is not a readable RSS channel.
    Rss,
    /// The document is not a readable Atom feed.
    Atom,
}

/// The error of rss's channel reader, carried only to be mapped to `FetchError::Rss`.
#[verifier::external_type_specification]
#[verifier::external_body]
pub struct ExRssError(rss::Error);

/// The error of atom_syndication's feed reader, carried only to be mapped to `FetchError::Atom`.
#[verifier::external_type_specification]
#[verifier::external_body]
pub struct ExAtomError(atom_syndication::Error);

/// What an RSS item carries that the feed reads.
#[derive(Clone, Debug)]
pub struct RssItem {
    pub title: Option<String>,
    pub link: Option<String>,
}

/// An RSS item as values.
pub struct RssItemView {
    pub title: Option<Seq<char>>,
    pub link: Option<Seq<char>>,
}

/// The characters of an optional string.
pub open spec fn opt_chars(o: Option<String>) -> Option<Seq<char>> {
    match o {
        Some(s) => Some(s@),
        None => None,
    }
}

impl View for RssItem {
    type V = RssItemView;

    open spec fn view(&self) -> RssItemView {
        RssItemView { title: opt_chars(self.title), link: opt_chars(self.link) }
    }
}

/// A link of an Atom entry.
#[derive(Clone, Debug)]
pub struct AtomLink {
    pub rel: String,
    pub href: String,
}

impl View for AtomLink {
    type V = (Seq<char>, Seq<char>);

    open spec fn view(&self) -> (Seq<char>, Seq<char>) {
        (self.rel@, self.href@)
    }
}

/// What an Atom entry carries that the feed reads.
#[derive(Clone, Debug)]
pub struct AtomEntry {
    pub id: String,
    pub title: String,
    pub links: Vec<AtomLink>,
}

/// An Atom entry as values; each link is its relation and its target.
pub struct AtomEntryView {
    pub id: Seq<char>,
    pub title: Seq<char>,
    pub links: Seq<(Seq<char>, Seq<char>)>,
}

impl View for AtomEntry {
    type V = AtomEntryView;

    open spec fn view(&self) -> AtomEntryView {
        AtomEntryView {
            id: self.id@,
            title: self.title@,
            links: self.links@.map_values(|l: AtomLink| l@),
        }
    }
}

/// The items of an RSS document, in document order, or `None` where the
/// document is not a readable RSS channel.
pub uninterp spec fn rss_items_of(doc: Seq<char>) -> Option<Seq<RssItemView>>;

/// The entries of an Atom document, in document order, or `None` where the
/// document is not a readable Atom feed.
pub uninterp spec fn atom_entries_of(doc: Seq<char>) -> Option<Seq<AtomEntryView>>;

/// Relies on rss's `FromStr for Channel` (with `Channel::into_items`): reads
/// the channel's items, each with its title and link; the outcome depends on
/// the document alone.
#[verifier::external_body]
fn parse_rss(doc: &str) -> (r: Result<Vec<RssItem>, rss::Error>)
    ensures
        r matches Ok(items) ==> rss_items_of(doc@) == Some(items@.map_values(|x: RssItem| x@)),
        r is Err ==> rss_items_of(doc@) is None,
{
    doc.parse::<rss::Channel>().map(
        |c| c.into_items().into_iter().map(|i| RssItem { title: i.title, link: i.link }).collect(),
    )
}

/// Relies on atom_syndication's `FromStr for Feed`: reads the feed's
/// entries, each with its id, title text and links; the outcome depends on
/// the document alone.
#[verifier::external_body]
fn parse_atom(doc: &str) -> (r: Result<Vec<AtomEntry>, atom_syndication::Error>)
    ensures
        r matches Ok(entries) ==> atom_entries_of(doc@) == Some(entries@.map_values(|e: AtomEntry| e@)),
        r is Err ==> atom_entries_of(doc@) is None,
{
    doc.parse::<atom_syndication::Feed>().map(|f| f.entries.into_iter().map(|e| AtomEntry {
        id: e.id,
        title: e.title.value,
        links: e.links.into_iter().map(|l| AtomLink { rel: l.rel, href: l.href }).collect(),
    }).collect())
}

/// The characters of an optional text, or none.
pub open spec fn or_empty(o: Option<Seq<char>>) -> Seq<char> {
    match o {
        Some(s) => s,
        None => Seq::empty(),
    }
}

/// The item an RSS item becomes: a missing title or link reads as empty.
pub open spec fn rss_article(i: RssItemView) -> ArticleView {
    ArticleView { title: or_empty(i.title), link: or_empty(i.link) }
}

/// The targets of the `alternate` links, joined in order.
pub open spec fn alternate_target(links: Seq<(Seq<char>, Seq<char>)>) -> Seq<char>
    decreases links.len(),
{
    if links.len() == 0 {
        Seq::empty()
    } else if links.last().0 == "alternate"@ {
        alternate_target(links.drop_last()) + links.last().1
    } else {
        alternate_target(links.drop_last())
    }
}

/// The item an Atom entry becomes: its title, and as link its id, or for a
/// feed read by `alternate` links the targets of those.
pub open spec fn atom_article(kind: FeedType, e: AtomEntryView) -> ArticleView {
    if kind == FeedType::PythonInsider {
        ArticleView { title: e.title, link: alternate_target(e.links) }
    } else {
        ArticleView { title: e.title, link: e.id }
    }
}

/// The items that a document of the given kind yields, in document order.
pub open spec fn articles_of(kind: FeedType, doc: Seq<char>) -> Result<Seq<ArticleView>, FetchError> {
    if kind == FeedType::Rss {
        match rss_items_of(doc) {
            Some(items) => Ok(items.map_values(|i: RssItemView| rss_article(i))),
            None => Err(FetchError::Rss),
        }
    } else {
        match atom_entries_of(doc) {
            Some(entries) => Ok(entries.map_values(|e: AtomEntryView| atom_article(kind, e))),
            None => Err(FetchError::Atom),
        }
    }
}

/// The characters of an optional string, or an empty string.
fn text_or_empty(o: &Option<String>) -> (r: &str)
    ensures
        r@ == or_empty(opt_chars(*o)),
{
    match o {
        Some(s) => s.as_str(),
        None => {
            proof {
                reveal_strlit("");
            }
            ""
        },
    }
}

/// The items of an RSS channel, in order.
pub fn articles_from_rss(items: &Vec<RssItem>) -> (r: Vec<Article>)
    ensures
        r@.map_values(|a: Article| a@) == items@.map_values(|x: RssItem| rss_article(x@)),
{
    let mut out: Vec<Article> = Vec::new();
    let mut i: usize = 0;
    while i < items.len()
        invariant
            i <= items@.len(),
            out@.map_values(|a: Article| a@) == items@.take(i as int).map_values(|x: RssItem| rss_article(x@)),
        decreases items@.len() - i,
    {
        let item = &items[i];
        let a = Article::new(
            Title::from_str(text_or_empty(&item.title)),
            ArticleUrl::from_str(text_or_empty(&item.link)),
        );
        let ghost out0 = out@;
        out.push(a);
        assert(out@.map_values(|a: Article| a@) =~= out0.map_values(|a: Article| a@).push(a@));
        assert(items@.take(i + 1) =~= items@.take(i as int).push(items@[i as int]));
        assert(out@.map_values(|a: Article| a@) =~= items@.take(i + 1).map_values(|x: RssItem| rss_article(x@)));
        i = i + 1;
    }
    assert(items@.take(items@.len() as int) =~= items@);
    out
}

/// The joined targets of a list of links whose relation is `alternate`.
pub fn alternate_links(links: &Vec<AtomLink>) -> (r: String)
    ensures
        r@ == alternate_target(links@.map_values(|l: AtomLink| l@)),
{
    let ghost all = links@.map_values(|l: AtomLink| l@);
    let mut out = String::new();
    let mut i: usize = 0;
    while i < links.len()
        invariant
            i <= links@.len(),
            all == links@.map_values(|l: AtomLink| l@),
            out@ == alternate_target(all.take(i as int)),
        decreases links@.len() - i,
    {
        let l = &links[i];
        proof {
            assert(all.take(i + 1).drop_last() =~= all.take(i as int));
            assert(all.take(i + 1).last() == l@);
        }
        if same_text(l.rel.as_str(), "alternate") {
            out.append(l.href.as_str());
        }
        i = i + 1;
    }
    assert(all.take(links@.len() as int) =~= all);
    out
}

/// The items of an Atom feed of the given kind, in order.
pub fn articles_from_atom(entries: &Vec<AtomEntry>, kind: FeedType) -> (r: Vec<Article>)
    ensures
        r@.map_values(|a: Article| a@) == entries@.map_values(|e: AtomEntry| atom_article(kind, e@)),
{
    let mut out: Vec<Article> = Vec::new();
    let mut i: usize = 0;
    while i < entries.len()
        invariant
            i <= entries@.len(),
            out@.map_values(|a: Article| a@) == entries@.take(i as int).map_values(
                |e: AtomEntry| atom_article(kind, e@),
            ),
        decreases entries@.len() - i,
    {
        let e = &entries[i];
        let link = if kind == FeedType::PythonInsider {
            alternate_links(&e.links)
        } else {
            e.id.clone()
        };
        let a = Article::new(Title::from_str(e.title.as_str()), ArticleUrl::from_str(link.as_str()));
        let ghost out0 = out@;
        out.push(a);
        assert(out@.map_values(|a: Article| a@) =~= out0.map_values(|a: Article| a@).push(a@));
        assert(entries@.take(i + 1) =~= entries@.take(i as int).push(entries@[i as int]));
        assert(out@.map_values(|a: Article| a@) =~= entries@.take(i + 1).map_values(
            |e: AtomEntry| atom_article(kind, e@),
        ));
        i = i + 1;
    }
    assert(entries@.take(entries@.len() as int) =~= entries@);
    out
}

/// Reads a fetched document of the given kind into its items.
pub fn read_document(kind: FeedType, doc: &str) -> (r: Result<Vec<Article>, FetchError>)
    ensures
        r matches Ok(v) ==> articles_of(kind, doc@) == Ok::<Seq<ArticleView>, FetchError>(
            v@.map_values(|a: Article| a@),
        ),
        r matches Err(e) ==> articles_of(kind, doc@) == Err::<Seq<ArticleView>, FetchError>(e),
{
    if kind == FeedType::Rss {
        match parse_rss(doc) {
            Ok(items) => {
                let r = articles_from_rss(&items);
                assert(items@.map_values(|x: RssItem| x@).map_values(|i: RssItemView| rss_article(i))
                    =~= items@.map_values(|x: RssItem| rss_article(x@)));
                Ok(r)
            },
            Err(_) => Err(FetchError::Rss),
        }
    } else {
        match parse_atom(doc) {
            Ok(entries) => {
                let r = articles_from_atom(&entries, kind);
                assert(entries@.map_values(|e: AtomEntry| e@).map_values(
                    |e: AtomEntryView| atom_article(kind, e),
                ) =~= entries@.map_values(|e: AtomEntry| atom_article(kind, e@)));
                Ok(r)
            },
            Err(_) => Err(FetchError::Atom),
        }
    }
}

} // verus!
