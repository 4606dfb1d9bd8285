//! The syndication feed: one item per published post, and the channel around them.
use vstd::prelude::*;
use crate::page::Page;

verus! {

/// The site's canonical address; item links are taken from it.
pub const SITE_URL: &'static str = "https://eduardorittner.github.io/";

pub const FEED_TITLE: &'static str = "Eduardo's blog";

pub const FEED_LINK: &'static str = "https://eduardorittner.github.io";

pub const FEED_DESCRIPTION: &'static str = "My blog";

pub const FEED_LANGUAGE: &'static str = "en-us";

pub const FEED_DOCS: &'static str = "https://www.rssboard.org/rss-specification";

/// One entry of the feed.
pub struct FeedItem {
    pub title: String,
    pub link: String,
    /// The publish timestamp as written in the front matter.
    pub pub_date: Option<String>,
}

pub struct FeedItemView {
    pub title: Seq<char>,
    pub link: Seq<char>,
    pub pub_date: Option<Seq<char>>,
}

impl View for FeedItem {
    type V = FeedItemView;

    open spec fn view(&self) -> FeedItemView {
        FeedItemView {
            title: self.title@,
            link: self.link@,
            pub_date: match self.pub_date {
                Some(d) => Some(d@),
                None => None,
            },
        }
    }
}

/// The feed entry of a page: its title, its address on the site and its timestamp.
pub open spec fn item_of(page: Page) -> FeedItemView {
    FeedItemView {
        title: page.metadata.title@,
        link: SITE_URL@ + page.path@,
        pub_date: page.metadata@.date,
    }
}

pub fn new_item(page: &Page) -> (r: FeedItem)
    ensures
        r@ == item_of(*page),
{
    let mut link = String::from_str(SITE_URL);
    link.append(page.path.as_str());
    let pub_date = match &page.metadata.date {
        Some(d) => Some(d.text.clone()),
        None => None,
    };
    FeedItem { title: page.metadata.title.clone(), link, pub_date }
}

/// A feed document: fixed channel metadata around the items, in the given order.
pub struct Feed {
    pub title: String,
    pub link: String,
    pub description: String,
    pub language: String,
    pub docs: String,
    pub items: Vec<FeedItem>,
}

pub fn new_rss(items: Vec<FeedItem>) -> (r: Feed)
    ensures
        r.items == items,
        r.title@ == FEED_TITLE@,
        r.link@ == FEED_LINK@,
        r.description@ == FEED_DESCRIPTION@,
        r.language@ == FEED_LANGUAGE@,
        r.docs@ == FEED_DOCS@,
{
    Feed {
        title: String::from_str(FEED_TITLE),
        link: String::from_str(FEED_LINK),
        description: String::from_str(FEED_DESCRIPTION),
        language: String::from_str(FEED_LANGUAGE),
        docs: String::from_str(FEED_DOCS),
        items,
    }
}

} // verus!
