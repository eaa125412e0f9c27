//! Feed items and the text that announces one of them.

use vstd::prelude::*;

verus! {

/// The title of a feed item; the key under which items are de-duplicated.
#[derive(Debug, Clone)]
pub struct Title(String);

/// The link of a feed item.
#[derive(Debug, Clone)]
pub struct ArticleUrl(String);

/// The location of a feed.
#[derive(Debug, Clone)]
pub struct FeedUrl(String);

impl View for Title {
    type V = Seq<char>;

    closed spec fn view(&self) -> Seq<char> {
        self.0@
    }
}

impl View for ArticleUrl {
    type V = Seq<char>;

    closed spec fn view(&self) -> Seq<char> {
        self.0@
    }
}

impl View for FeedUrl {
    type V = Seq<char>;

    closed spec fn view(&self) -> Seq<char> {
        self.0@
    }
}

impl Default for Title {
    fn default() -> (r: Title)
        ensures
            r@ == "Default Title"@,
    {
        Title(String::from_str("Default Title"))
    }
}

impl Default for ArticleUrl {
    fn default() -> (r: ArticleUrl)
        ensures
            r@ == "https://satx.dev"@,
    {
        ArticleUrl(String::from_str("https://satx.dev"))
    }
}

impl Default for FeedUrl {
    fn default() -> (r: FeedUrl)
        ensures
            r@ == "https://satx.dev"@,
    {
        FeedUrl(String::from_str("https://satx.dev"))
    }
}

impl Title {
    pub fn from_str(s: &str) -> (r: Title)
        ensures
            r@ == s@,
    {
        Title(String::from_str(s))
    }

    pub fn as_str(&self) -> (r: &str)
        ensures
            r@ == self@,
    {
        self.0.as_str()
    }

    /// The title as an owned string.
    pub fn to_string(&self) -> (r: String)
        ensures
            r@ == self@,
    {
        self.0.clone()
    }
}

impl ArticleUrl {
    pub fn from_str(s: &str) -> (r: ArticleUrl)
        ensures
            r@ == s@,
    {
        ArticleUrl(String::from_str(s))
    }

    pub fn as_str(&self) -> (r: &str)
        ensures
            r@ == self@,
    {
        self.0.as_str()
    }

    /// The link as an owned string.
    pub fn to_string(&self) -> (r: String)
        ensures
            r@ == self@,
    {
        self.0.clone()
    }
}

impl FeedUrl {
    pub fn from_str(s: &str) -> (r: FeedUrl)
        ensures
            r@ == s@,
    {
        FeedUrl(String::from_str(s))
    }

    pub fn as_str(&self) -> (r: &str)
        ensures
            r@ == self@,
    {
        self.0.as_str()
    }

    /// The location as an owned string.
    pub fn to_string(&self) -> (r: String)
        ensures
            r@ == self@,
    {
        self.0.clone()
    }
}

/// What a feed item is made of, as values.
pub struct ArticleView {
    pub title: Seq<char>,
    pub link: Seq<char>,
}

/// One item of a feed: its title and its link.
#[derive(Debug)]
pub struct Article {
    title: Title,
    url: ArticleUrl,
}

impl View for Article {
    type V = ArticleView;

    closed spec fn view(&self) -> ArticleView {
        ArticleView { title: self.title@, link: self.url@ }
    }
}

/// The announcement of an item: `<link|title>`.
pub open spec fn notification_of(a: ArticleView) -> Seq<char> {
    "<"@ + a.link + "|"@ + a.title + ">"@
}

impl Article {
    pub fn new(title: Title, url: ArticleUrl) -> (r: Article)
        ensures
            r@ == (ArticleView { title: title@, link: url@ }),
    {
        Article { title, url }
    }

    pub fn title(&self) -> (r: &Title)
        ensures
            r@ == self@.title,
    {
        &self.title
    }

    pub fn url(&self) -> (r: &ArticleUrl)
        ensures
            r@ == self@.link,
    {
        &self.url
    }

    /// The text that announces this item downstream.
    pub fn notification(&self) -> (r: String)
        ensures
            r@ == notification_of(self@),
    {
        let mut r = String::from_str("<");
        r.append(self.url.as_str());
        r.append("|");
        r.append(self.title.as_str());
        r.append(">");
        r
    }
}

} // verus!
