//! Reading an RSS document.
use vstd::prelude::*;

verus! {

/// What the reader uses of an item of a feed.
#[derive(Debug)]
pub struct FeedItem {
    pub link: Option<String>,
    pub title: Option<String>,
    pub pub_date: Option<String>,
}

pub struct FeedItemView {
    pub link: Option<Seq<char>>,
    pub title: Option<Seq<char>>,
    pub pub_date: Option<Seq<char>>,
}

pub open spec fn opt_str_view(o: Option<String>) -> Option<Seq<char>> {
    match o {
        Some(s) => Some(s@),
        None => None,
    }
}

impl View for FeedItem {
    type V = FeedItemView;

    open spec fn view(&self) -> FeedItemView {
        FeedItemView {
            link: opt_str_view(self.link),
            title: opt_str_view(self.title),
            pub_date: opt_str_view(self.pub_date),
        }
    }
}

pub open spec fn feed_items_view(v: Seq<FeedItem>) -> Seq<FeedItemView> {
    v.map_values(|i: FeedItem| i@)
}

/// The items of the RSS document in `content`, in document order, or
/// `None` when it is not one.
pub uninterp spec fn feed_items_of(content: Seq<u8>) -> Option<Seq<FeedItemView>>;

/// Calls `rss::Channel::read_from` on `content` and hands out the link,
/// title and publication date of each of the channel's `items()`; on an
/// error, its `Debug` text. The contract claims that the outcome depends on
/// the bytes alone; the RSS grammar the crate reads is not stated.
#[verifier::external_body]
pub fn read_feed(content: &[u8]) -> (r: Result<Vec<FeedItem>, String>)
    ensures
        match r {
            Ok(v) => feed_items_of(content@) == Some(feed_items_view(v@)),
            Err(_) => feed_items_of(content@) is None,
        },
{
    match rss::Channel::read_from(content) {
        Ok(ch) => Ok(ch.items().iter().map(|i| FeedItem {
            link: i.link().map(|s| s.to_string()),
            title: i.title().map(|s| s.to_string()),
            pub_date: i.pub_date().map(|s| s.to_string()),
        }).collect()),
        Err(e) => Err(format!("{:?}", e)),
    }
}

} // verus!
