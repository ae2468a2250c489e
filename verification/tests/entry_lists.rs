use rssbox::db::data::RssEntry;
use rssbox::logic::action::{Action, DbOp, NoticeKind};
use rssbox::logic::data::{RssList, UiRssEntry};
use rssbox::logic::entry::{get_from_db, open_url, unread_counts, update_new_entry_write, OpenUrl};
use rssbox::logic::rss::{FAVORITE_UUID, UNREAD_UUID};
use rssbox::logic::store::Store;

fn entry(uuid: &str, url: &str, suuid: &str, is_read: bool) -> UiRssEntry {
    UiRssEntry {
        uuid: uuid.to_string(),
        url: url.to_string(),
        title: format!("title {}", uuid),
        pub_date: String::new(),
        tags: String::new(),
        is_read,
        suuid: suuid.to_string(),
    }
}

fn feed(store: &mut Store, uuid: &str, name: &str, entries: Vec<UiRssEntry>) -> usize {
    let mut l = RssList::default();
    l.uuid = uuid.to_string();
    l.name = name.to_string();
    let _ = store.on_new_rss(l);
    let m = store.rss_lists.last().unwrap().entry;
    store.models[m] = entries;
    m
}

/// A store with the unread feed, the favourite feed and feed "f1" holding
/// two entries, of which the first is unread and also in the unread feed.
fn sample() -> (Store, usize, usize, usize) {
    let mut st = Store::new();
    let u = feed(&mut st, UNREAD_UUID, "unread", vec![entry("e1", "https://a.com/1", "f1", false)]);
    let f = feed(&mut st, FAVORITE_UUID, "fav", vec![]);
    let m = feed(
        &mut st,
        "f1",
        "Feed One",
        vec![entry("e1", "https://a.com/1", "f1", false), entry("e2", "https://a.com/2", "f1", true)],
    );
    (st, u, f, m)
}

#[test]
fn set_read_entry_marks_in_both_feeds() {
    let (mut st, u, _f, m) = sample();
    let mut acts = Vec::new();
    st.on_set_read_entry(&"f1".to_string(), &"e1".to_string(), &mut acts);
    assert!(st.models[u][0].is_read);
    assert!(st.models[m][0].is_read);
    // only the feed's own table is written
    assert_eq!(acts.len(), 1);
    match &acts[0] {
        Action::Db { op: DbOp::UpdateEntry { suuid, uuid, entry }, on_err, .. } => {
            assert_eq!(suuid, "f1");
            assert_eq!(uuid, "e1");
            assert!(entry.is_read);
            assert_eq!(on_err.as_ref().unwrap().key, "保存失败！");
        },
        other => panic!("unexpected {:?}", other),
    }
}

#[test]
fn set_read_entry_from_unread_feed_uses_entry_feed() {
    let (mut st, u, _f, m) = sample();
    let mut acts = Vec::new();
    st.on_set_read_entry(&UNREAD_UUID.to_string(), &"e1".to_string(), &mut acts);
    assert!(st.models[u][0].is_read);
    assert!(st.models[m][0].is_read);
    assert_eq!(acts.len(), 1);
}

#[test]
fn set_read_entry_ignores_favorite_feed() {
    let (mut st, u, _f, m) = sample();
    let mut acts = Vec::new();
    st.on_set_read_entry(&FAVORITE_UUID.to_string(), &"e1".to_string(), &mut acts);
    assert!(!st.models[u][0].is_read);
    assert!(!st.models[m][0].is_read);
    assert!(acts.is_empty());
}

#[test]
fn read_all_marks_display_and_flips_flags() {
    let (mut st, u, _f, m) = sample();
    st.rss_entry = m;
    let mut acts = Vec::new();
    st.on_set_read_all_entry(&"f1".to_string(), &mut acts);
    assert!(st.models[m].iter().all(|e| e.is_read));
    assert!(st.models[u][0].is_read);
    assert!(st.unread_count_flag);
    // unread feed and f1 toggle their flags, the favourite feed does not
    assert!(st.rss_lists[0].unread_counts_flag);
    assert!(!st.rss_lists[1].unread_counts_flag);
    assert!(st.rss_lists[2].unread_counts_flag);
    assert_eq!(acts.len(), 1);
}

#[test]
fn remove_entry_deletes_and_trashes() {
    let (mut st, u, _f, m) = sample();
    let mut acts = Vec::new();
    st.on_remove_entry(&"f1".to_string(), &"e1".to_string(), &mut acts);
    assert!(st.models[u].is_empty());
    assert_eq!(st.models[m].len(), 1);
    assert_eq!(st.models[m][0].uuid, "e2");
    assert_eq!(acts.len(), 2);
    match &acts[0] {
        Action::Db { op: DbOp::DeleteEntry { suuid, uuid }, on_ok, on_err, .. } => {
            assert_eq!(suuid, "f1");
            assert_eq!(uuid, "e1");
            assert_eq!(on_ok.as_ref().unwrap().key, "删除成功！");
            assert_eq!(on_err.as_ref().unwrap().key, "删除失败！");
        },
        other => panic!("unexpected {:?}", other),
    }
    match &acts[1] {
        Action::Db { op: DbOp::InsertTrash { md5 }, on_ok: None, on_err: None, .. } => {
            assert_eq!(md5, "ac492bdca2877f35bebe69f932f7d446");
        },
        other => panic!("unexpected {:?}", other),
    }
}

#[test]
fn remove_all_clears_display() {
    let (mut st, u, _f, m) = sample();
    st.rss_entry = m;
    let mut acts = Vec::new();
    st.on_remove_all_entry(&"f1".to_string(), &mut acts);
    assert!(st.models[m].is_empty());
    assert!(st.models[u].is_empty());
    let last = acts.last().unwrap();
    match last {
        Action::Db { op: DbOp::DeleteAllEntries { suuid }, on_ok, .. } => {
            assert_eq!(suuid, "f1");
            assert_eq!(on_ok.as_ref().unwrap().key, "清空成功！");
        },
        other => panic!("unexpected {:?}", other),
    }
}

#[test]
fn favorite_adds_once() {
    let (mut st, _u, f, m) = sample();
    st.rss_entry = m;
    let mut acts = Vec::new();
    st.on_favorite_entry(&"f1".to_string(), &"e2".to_string(), &mut acts);
    assert_eq!(st.models[f].len(), 1);
    assert_eq!(st.models[f][0].tags, "Feed One");
    assert!(st.models[f][0].is_read);
    assert_eq!(acts.len(), 2);
    match &acts[1] {
        Action::Show { notice } => {
            assert_eq!(notice.key, "收藏成功！");
            assert_eq!(notice.kind, NoticeKind::Success);
        },
        other => panic!("unexpected {:?}", other),
    }
    let mut acts2 = Vec::new();
    st.on_favorite_entry(&"f1".to_string(), &"e2".to_string(), &mut acts2);
    assert_eq!(st.models[f].len(), 1);
    match &acts2[0] {
        Action::Show { notice } => assert_eq!(notice.key, "已经收藏！"),
        other => panic!("unexpected {:?}", other),
    }
}

#[test]
fn favorite_prefixes_existing_tags() {
    let (mut st, _u, f, m) = sample();
    st.models[m][1].tags = "x,y".to_string();
    st.rss_entry = m;
    let mut acts = Vec::new();
    st.on_favorite_entry(&"f1".to_string(), &"e2".to_string(), &mut acts);
    assert_eq!(st.models[f][0].tags, "Feed One,x,y");
}

#[test]
fn new_entries_are_deduplicated_by_link() {
    let (mut st, u, _f, m) = sample();
    let e = RssEntry {
        uuid: "e3".to_string(),
        url: "https://a.com/3".to_string(),
        title: "t".to_string(),
        pub_date: String::new(),
        tags: String::new(),
        is_read: false,
    };
    let w = st.update_new_entrys_write(&"f1".to_string(), &e);
    assert!(matches!(w, Some(DbOp::InsertEntry { .. })));
    st.update_new_entrys_step(&"f1".to_string(), e.clone(), true);
    assert_eq!(st.models[m][0].uuid, "e3");
    assert_eq!(st.models[m][0].suuid, "f1");
    assert_eq!(st.models[u][0].uuid, "e3");
    assert_eq!(st.models[u][0].tags, "Feed One");
    // the same link again adds nothing
    assert!(st.update_new_entrys_write(&"f1".to_string(), &e).is_none());
    st.update_new_entrys_step(&"f1".to_string(), e, true);
    assert_eq!(st.models[m].len(), 3);
    assert_eq!(st.models[u].len(), 2);
}

#[test]
fn failed_store_keeps_entry_out_of_feed() {
    let (mut st, u, _f, m) = sample();
    let e = RssEntry {
        uuid: "e4".to_string(),
        url: "https://a.com/4".to_string(),
        title: "t".to_string(),
        pub_date: String::new(),
        tags: String::new(),
        is_read: false,
    };
    st.update_new_entrys_step(&"f1".to_string(), e, false);
    assert_eq!(st.models[m].len(), 2);
    assert_eq!(st.models[u][0].uuid, "e4");
}

#[test]
fn update_new_entry_write_skips_unread_feed() {
    let e = RssEntry::default();
    assert!(update_new_entry_write(&UNREAD_UUID.to_string(), &e).is_none());
    assert!(update_new_entry_write(&"f1".to_string(), &e).is_some());
}

#[test]
fn get_from_db_orders_unread_first_newest_first() {
    let row = |uuid: &str, is_read: bool| {
        Some(RssEntry {
            uuid: uuid.to_string(),
            url: String::new(),
            title: String::new(),
            pub_date: String::new(),
            tags: String::new(),
            is_read,
        })
    };
    let rows = Some(vec![row("a", false), row("b", true), None, row("c", false)]);
    let es = get_from_db("f1", &rows);
    let ids: Vec<&str> = es.iter().map(|e| e.uuid.as_str()).collect();
    assert_eq!(ids, vec!["c", "", "a", "b"]);
    assert_eq!(es[0].suuid, "f1");
    assert_eq!(es[1].suuid, "");
    assert!(get_from_db(UNREAD_UUID, &rows).is_empty());
    assert!(get_from_db("f1", &None).is_empty());
}

#[test]
fn unread_counts_counts_unread() {
    let es = vec![entry("a", "", "", false), entry("b", "", "", true), entry("c", "", "", false)];
    assert_eq!(unread_counts(&es), 2);
    assert_eq!(unread_counts(&Vec::new()), 0);
}

#[test]
fn open_url_chooses_browser() {
    match open_url("", "https://x") {
        OpenUrl::Default { url } => assert_eq!(url, "https://x"),
        other => panic!("unexpected {:?}", other),
    }
    match open_url("firefox", "https://x") {
        OpenUrl::Command { browser, url } => {
            assert_eq!(browser, "firefox");
            assert_eq!(url, "https://x");
        },
        other => panic!("unexpected {:?}", other),
    }
}

#[test]
fn get_rsslist_defaults_when_missing() {
    let (st, _u, _f, _m) = sample();
    assert_eq!(st.get_rsslist(&"f1".to_string()).name, "Feed One");
    assert_eq!(st.get_rsslist(&"nope".to_string()).name, "");
}
