//! The values that the feed list and the entry lists show: an entry as the
//! list shows it, a feed with its entry model, the feed dialog's form, and
//! the part of a feed that a sync needs.
use vstd::prelude::*;
use crate::db::data::{RssConfig, RssConfigView, RssEntry, RssEntryView};

verus! {

/// An entry as an entry list shows it: the stored record and the feed it
/// came from.
#[derive(Debug)]
pub struct UiRssEntry {
    pub uuid: String,
    pub url: String,
    pub title: String,
    pub pub_date: String,
    pub tags: String,
    pub is_read: bool,
    pub suuid: String,
}

pub struct EntryView {
    pub uuid: Seq<char>,
    pub url: Seq<char>,
    pub title: Seq<char>,
    pub pub_date: Seq<char>,
    pub tags: Seq<char>,
    pub is_read: bool,
    pub suuid: Seq<char>,
}

impl View for UiRssEntry {
    type V = EntryView;

    open spec fn view(&self) -> EntryView {
        EntryView {
            uuid: self.uuid@,
            url: self.url@,
            title: self.title@,
            pub_date: self.pub_date@,
            tags: self.tags@,
            is_read: self.is_read,
            suuid: self.suuid@,
        }
    }
}

impl Clone for UiRssEntry {
    fn clone(&self) -> (r: Self)
        ensures
            r@ == self@,
    {
        UiRssEntry {
            uuid: self.uuid.clone(),
            url: self.url.clone(),
            title: self.title.clone(),
            pub_date: self.pub_date.clone(),
            tags: self.tags.clone(),
            is_read: self.is_read,
            suuid: self.suuid.clone(),
        }
    }
}

/// The stored record of an entry that a list shows.
pub open spec fn entry_record(e: EntryView) -> RssEntryView {
    RssEntryView {
        uuid: e.uuid,
        url: e.url,
        title: e.title,
        pub_date: e.pub_date,
        tags: e.tags,
        is_read: e.is_read,
    }
}

/// The entry that a list shows for a stored record, before it is told which
/// feed it belongs to.
pub open spec fn entry_of_record(r: RssEntryView) -> EntryView {
    EntryView {
        uuid: r.uuid,
        url: r.url,
        title: r.title,
        pub_date: r.pub_date,
        tags: r.tags,
        is_read: r.is_read,
        suuid: Seq::empty(),
    }
}

impl From<&UiRssEntry> for RssEntry {
    fn from(entry: &UiRssEntry) -> (r: RssEntry)
        ensures
            r@ == entry_record(entry@),
    {
        RssEntry {
            uuid: entry.uuid.clone(),
            url: entry.url.clone(),
            title: entry.title.clone(),
            tags: entry.tags.clone(),
            pub_date: entry.pub_date.clone(),
            is_read: entry.is_read,
        }
    }
}

impl vstd::std_specs::convert::FromSpecImpl<&UiRssEntry> for RssEntry {
    open spec fn obeys_from_spec() -> bool {
        true
    }

    open spec fn from_spec(v: &UiRssEntry) -> RssEntry {
        RssEntry {
            uuid: v.uuid,
            url: v.url,
            title: v.title,
            pub_date: v.pub_date,
            tags: v.tags,
            is_read: v.is_read,
        }
    }
}

/// A feed as the feed list shows it; `entry` is the handle of its entry
/// model in the [`crate::logic::store::Store`].
#[derive(Debug)]
pub struct RssList {
    pub uuid: String,
    pub name: String,
    pub url: String,
    pub icon_index: i32,
    pub use_proxy: bool,
    pub is_mark: bool,
    pub update_time: String,
    pub feed_format: String,
    pub unread_count: i32,
    pub unread_counts_flag: bool,
    pub entry: usize,
}

pub struct ListView {
    pub uuid: Seq<char>,
    pub name: Seq<char>,
    pub url: Seq<char>,
    pub icon_index: i32,
    pub use_proxy: bool,
    pub is_mark: bool,
    pub update_time: Seq<char>,
    pub feed_format: Seq<char>,
    pub unread_count: i32,
    pub unread_counts_flag: bool,
    pub entry: nat,
}

impl View for RssList {
    type V = ListView;

    open spec fn view(&self) -> ListView {
        ListView {
            uuid: self.uuid@,
            name: self.name@,
            url: self.url@,
            icon_index: self.icon_index,
            use_proxy: self.use_proxy,
            is_mark: self.is_mark,
            update_time: self.update_time@,
            feed_format: self.feed_format@,
            unread_count: self.unread_count,
            unread_counts_flag: self.unread_counts_flag,
            entry: self.entry as nat,
        }
    }
}

impl Clone for RssList {
    fn clone(&self) -> (r: Self)
        ensures
            r@ == self@,
    {
        RssList {
            uuid: self.uuid.clone(),
            name: self.name.clone(),
            url: self.url.clone(),
            icon_index: self.icon_index,
            use_proxy: self.use_proxy,
            is_mark: self.is_mark,
            update_time: self.update_time.clone(),
            feed_format: self.feed_format.clone(),
            unread_count: self.unread_count,
            unread_counts_flag: self.unread_counts_flag,
            entry: self.entry,
        }
    }
}

pub open spec fn empty_list() -> ListView {
    ListView {
        uuid: Seq::empty(),
        name: Seq::empty(),
        url: Seq::empty(),
        icon_index: 0,
        use_proxy: false,
        is_mark: false,
        update_time: Seq::empty(),
        feed_format: Seq::empty(),
        unread_count: 0,
        unread_counts_flag: false,
        entry: 0,
    }
}

impl Default for RssList {
    fn default() -> (r: RssList)
        ensures
            r@ == empty_list(),
    {
        RssList {
            uuid: String::new(),
            name: String::new(),
            url: String::new(),
            icon_index: 0,
            use_proxy: false,
            is_mark: false,
            update_time: String::new(),
            feed_format: String::new(),
            unread_count: 0,
            unread_counts_flag: false,
            entry: 0,
        }
    }
}

/// The feed dialog's form.
#[derive(Debug)]
pub struct UiRssConfig {
    pub uuid: String,
    pub name: String,
    pub url: String,
    pub use_proxy: bool,
    pub icon_index: i32,
    pub feed_format: String,
}

pub struct UiRssConfigView {
    pub uuid: Seq<char>,
    pub name: Seq<char>,
    pub url: Seq<char>,
    pub use_proxy: bool,
    pub icon_index: i32,
    pub feed_format: Seq<char>,
}

impl View for UiRssConfig {
    type V = UiRssConfigView;

    open spec fn view(&self) -> UiRssConfigView {
        UiRssConfigView {
            uuid: self.uuid@,
            name: self.name@,
            url: self.url@,
            use_proxy: self.use_proxy,
            icon_index: self.icon_index,
            feed_format: self.feed_format@,
        }
    }
}

impl Default for UiRssConfig {
    fn default() -> (r: UiRssConfig)
        ensures
            r@ == (UiRssConfigView {
                uuid: Seq::empty(),
                name: Seq::empty(),
                url: Seq::empty(),
                use_proxy: false,
                icon_index: 0,
                feed_format: Seq::empty(),
            }),
    {
        UiRssConfig {
            uuid: String::new(),
            name: String::new(),
            url: String::new(),
            use_proxy: false,
            icon_index: 0,
            feed_format: String::new(),
        }
    }
}

/// The stored configuration of a feed of the list.
pub open spec fn config_of_list(l: ListView) -> RssConfigView {
    RssConfigView {
        name: l.name,
        url: l.url,
        icon_index: l.icon_index,
        use_proxy: l.use_proxy,
        is_mark: l.is_mark,
        update_time: l.update_time,
    }
}

impl From<&RssList> for RssConfig {
    fn from(conf: &RssList) -> (r: RssConfig)
        ensures
            r@ == config_of_list(conf@),
    {
        RssConfig {
            name: conf.name.clone(),
            url: conf.url.clone(),
            icon_index: conf.icon_index,
            use_proxy: conf.use_proxy,
            is_mark: conf.is_mark,
            update_time: conf.update_time.clone(),
        }
    }
}

impl vstd::std_specs::convert::FromSpecImpl<&RssList> for RssConfig {
    open spec fn obeys_from_spec() -> bool {
        true
    }

    open spec fn from_spec(v: &RssList) -> RssConfig {
        RssConfig {
            name: v.name,
            url: v.url,
            icon_index: v.icon_index,
            use_proxy: v.use_proxy,
            is_mark: v.is_mark,
            update_time: v.update_time,
        }
    }
}

/// The stored configuration a filled-in feed dialog gives: not marked, no
/// update time.
pub open spec fn config_of_form(c: UiRssConfigView) -> RssConfigView {
    RssConfigView {
        name: c.name,
        url: c.url,
        icon_index: c.icon_index,
        use_proxy: c.use_proxy,
        is_mark: false,
        update_time: Seq::empty(),
    }
}

impl From<&UiRssConfig> for RssConfig {
    fn from(conf: &UiRssConfig) -> (r: RssConfig)
        ensures
            r@ == config_of_form(conf@),
    {
        RssConfig {
            name: conf.name.clone(),
            url: conf.url.clone(),
            icon_index: conf.icon_index,
            use_proxy: conf.use_proxy,
            is_mark: false,
            update_time: String::new(),
        }
    }
}

impl vstd::std_specs::convert::FromSpecImpl<&UiRssConfig> for RssConfig {
    open spec fn obeys_from_spec() -> bool {
        false
    }

    open spec fn from_spec(v: &UiRssConfig) -> RssConfig {
        RssConfig {
            name: v.name,
            url: v.url,
            icon_index: v.icon_index,
            use_proxy: v.use_proxy,
            is_mark: false,
            update_time: arbitrary(),
        }
    }
}

/// The feed a filled-in feed dialog describes, before it gets a uuid and an
/// entry model.
pub open spec fn list_of_form(c: UiRssConfigView) -> ListView {
    ListView {
        name: c.name,
        url: c.url,
        use_proxy: c.use_proxy,
        icon_index: c.icon_index,
        feed_format: c.feed_format,
        ..empty_list()
    }
}

impl From<UiRssConfig> for RssList {
    fn from(conf: UiRssConfig) -> (r: RssList)
        ensures
            r@ == list_of_form(conf@),
    {
        RssList {
            name: conf.name,
            url: conf.url,
            use_proxy: conf.use_proxy,
            icon_index: conf.icon_index,
            feed_format: conf.feed_format,
            ..Default::default()
        }
    }
}

impl vstd::std_specs::convert::FromSpecImpl<UiRssConfig> for RssList {
    open spec fn obeys_from_spec() -> bool {
        false
    }

    open spec fn from_spec(v: UiRssConfig) -> RssList {
        RssList {
            uuid: arbitrary(),
            name: v.name,
            url: v.url,
            icon_index: v.icon_index,
            use_proxy: v.use_proxy,
            is_mark: false,
            update_time: arbitrary(),
            feed_format: v.feed_format,
            unread_count: 0,
            unread_counts_flag: false,
            entry: 0,
        }
    }
}

impl From<RssEntry> for UiRssEntry {
    fn from(entry: RssEntry) -> (r: UiRssEntry)
        ensures
            r@ == entry_of_record(entry@),
    {
        UiRssEntry {
            uuid: entry.uuid,
            url: entry.url,
            pub_date: entry.pub_date,
            title: entry.title,
            tags: entry.tags,
            is_read: entry.is_read,
            suuid: String::new(),
        }
    }
}

impl vstd::std_specs::convert::FromSpecImpl<RssEntry> for UiRssEntry {
    open spec fn obeys_from_spec() -> bool {
        false
    }

    open spec fn from_spec(v: RssEntry) -> UiRssEntry {
        UiRssEntry {
            uuid: v.uuid,
            url: v.url,
            title: v.title,
            pub_date: v.pub_date,
            tags: v.tags,
            is_read: v.is_read,
            suuid: arbitrary(),
        }
    }
}

/// What a sync needs of a feed.
#[derive(Debug)]
pub struct SyncItem {
    pub uuid: String,
    pub url: String,
    pub use_proxy: bool,
    pub feed_format: String,
}

pub struct SyncItemView {
    pub uuid: Seq<char>,
    pub url: Seq<char>,
    pub use_proxy: bool,
    pub feed_format: Seq<char>,
}

impl View for SyncItem {
    type V = SyncItemView;

    open spec fn view(&self) -> SyncItemView {
        SyncItemView { uuid: self.uuid@, url: self.url@, use_proxy: self.use_proxy, feed_format: self.feed_format@ }
    }
}

pub open spec fn sync_item_of(l: ListView) -> SyncItemView {
    SyncItemView { uuid: l.uuid, url: l.url, use_proxy: l.use_proxy, feed_format: l.feed_format }
}

impl From<RssList> for SyncItem {
    fn from(rss: RssList) -> (r: SyncItem)
        ensures
            r@ == sync_item_of(rss@),
    {
        SyncItem { uuid: rss.uuid, url: rss.url, use_proxy: rss.use_proxy, feed_format: rss.feed_format }
    }
}

impl vstd::std_specs::convert::FromSpecImpl<RssList> for SyncItem {
    open spec fn obeys_from_spec() -> bool {
        true
    }

    open spec fn from_spec(v: RssList) -> SyncItem {
        SyncItem { uuid: v.uuid, url: v.url, use_proxy: v.use_proxy, feed_format: v.feed_format }
    }
}

/// The record of an entry made from a record is that record.
pub proof fn law_entry_record_round_trip(r: RssEntryView)
    ensures
        entry_record(entry_of_record(r)) == r,
{
}

} // verus!
