//! The records that the database stores as JSON: a feed's configuration and
//! one entry of a feed.
use vstd::prelude::*;

verus! {

/// A feed's configuration, as stored in the `rss` table.
#[derive(Debug)]
pub struct RssConfig {
    pub name: String,
    pub url: String,
    pub icon_index: i32,
    pub use_proxy: bool,
    pub is_mark: bool,
    pub update_time: String,
}

/// The mathematical value of an [`RssConfig`].
pub struct RssConfigView {
    pub name: Seq<char>,
    pub url: Seq<char>,
    pub icon_index: i32,
    pub use_proxy: bool,
    pub is_mark: bool,
    pub update_time: Seq<char>,
}

impl View for RssConfig {
    type V = RssConfigView;

    open spec fn view(&self) -> RssConfigView {
        RssConfigView {
            name: self.name@,
            url: self.url@,
            icon_index: self.icon_index,
            use_proxy: self.use_proxy,
            is_mark: self.is_mark,
            update_time: self.update_time@,
        }
    }
}

impl Clone for RssConfig {
    fn clone(&self) -> (r: Self)
        ensures
            r@ == self@,
    {
        RssConfig {
            name: self.name.clone(),
            url: self.url.clone(),
            icon_index: self.icon_index,
            use_proxy: self.use_proxy,
            is_mark: self.is_mark,
            update_time: self.update_time.clone(),
        }
    }
}

/// One entry of a feed, as stored in an entry table.
#[derive(Debug)]
pub struct RssEntry {
    pub uuid: String,
    pub url: String,
    pub title: String,
    pub pub_date: String,
    pub tags: String,
    pub is_read: bool,
}

/// The mathematical value of an [`RssEntry`].
pub struct RssEntryView {
    pub uuid: Seq<char>,
    pub url: Seq<char>,
    pub title: Seq<char>,
    pub pub_date: Seq<char>,
    pub tags: Seq<char>,
    pub is_read: bool,
}

impl View for RssEntry {
    type V = RssEntryView;

    open spec fn view(&self) -> RssEntryView {
        RssEntryView {
            uuid: self.uuid@,
            url: self.url@,
            title: self.title@,
            pub_date: self.pub_date@,
            tags: self.tags@,
            is_read: self.is_read,
        }
    }
}

impl Clone for RssEntry {
    fn clone(&self) -> (r: Self)
        ensures
            r@ == self@,
    {
        RssEntry {
            uuid: self.uuid.clone(),
            url: self.url.clone(),
            title: self.title.clone(),
            pub_date: self.pub_date.clone(),
            tags: self.tags.clone(),
            is_read: self.is_read,
        }
    }
}

impl Default for RssEntry {
    fn default() -> (r: Self)
        ensures
            r@ == (RssEntryView {
                uuid: Seq::empty(),
                url: Seq::empty(),
                title: Seq::empty(),
                pub_date: Seq::empty(),
                tags: Seq::empty(),
                is_read: false,
            }),
    {
        RssEntry {
            uuid: String::new(),
            url: String::new(),
            title: String::new(),
            pub_date: String::new(),
            tags: String::new(),
            is_read: false,
        }
    }
}

} // verus!
