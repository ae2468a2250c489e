use rssbox::db::data::{RssConfig, RssEntry};
use rssbox::logic::action::{Action, DbOp, NoticeKind};
use rssbox::logic::data::{RssList, UiRssConfig, UiRssEntry};
use rssbox::logic::ok_cancel_dialog::{self, DialogCommand};
use rssbox::logic::rss::{
    entries_of_feed, is_sync_due, new_rss_request, request_timeout, sort_rss_lists, sync_done_notice, sync_interval_secs,
    RssRow, FAVORITE_UUID, UNREAD_UUID,
};
use rssbox::logic::store::Store;

fn conf(name: &str, is_mark: bool) -> RssConfig {
    RssConfig {
        name: name.to_string(),
        url: format!("https://{}.example/rss", name),
        icon_index: 1,
        use_proxy: false,
        is_mark,
        update_time: String::new(),
    }
}

fn record(uuid: &str, is_read: bool) -> Option<RssEntry> {
    Some(RssEntry {
        uuid: uuid.to_string(),
        url: format!("https://x/{}", uuid),
        title: uuid.to_string(),
        pub_date: String::new(),
        tags: String::new(),
        is_read,
    })
}

fn row(uuid: &str, config: Option<RssConfig>, entries: Vec<Option<RssEntry>>) -> RssRow {
    RssRow { uuid: uuid.to_string(), config, entries: Some(entries) }
}

fn started() -> Store {
    let mut st = Store::new();
    let rows = vec![
        row("b-feed", Some(conf("beta", false)), vec![record("b1", false), record("b2", true)]),
        row(FAVORITE_UUID, Some(conf("fav", false)), vec![]),
        row("a-feed", Some(conf("Alpha", false)), vec![record("a1", false)]),
        row("broken", None, vec![]),
        row("m-feed", Some(conf("zeta", true)), vec![]),
        row(UNREAD_UUID, Some(conf("unread", false)), vec![]),
    ];
    st.init_rss(&Some(rows));
    st
}

#[test]
fn init_rss_keeps_store_when_table_unreadable() {
    let mut st = started();
    let before: Vec<String> = st.rss_lists.iter().map(|l| l.uuid.clone()).collect();
    let shown_before = st.models[st.rss_entry].len();
    let models_before = st.models.len();
    st.init_rss(&None);
    let after: Vec<String> = st.rss_lists.iter().map(|l| l.uuid.clone()).collect();
    assert_eq!(before, after);
    assert_eq!(st.models.len(), models_before);
    assert_eq!(st.models[st.rss_entry].len(), shown_before);
    assert_eq!(shown_before, 2);
}

#[test]
fn init_rss_with_empty_table_clears_lists() {
    let mut st = started();
    st.init_rss(&Some(vec![]));
    assert!(st.rss_lists.is_empty());
    assert!(st.models[st.rss_entry].is_empty());
}

#[test]
fn init_rss_orders_feeds() {
    let st = started();
    let order: Vec<&str> = st.rss_lists.iter().map(|l| l.uuid.as_str()).collect();
    assert_eq!(order, vec![UNREAD_UUID, FAVORITE_UUID, "m-feed", "a-feed", "b-feed"]);
}

#[test]
fn init_rss_gathers_unread_entries() {
    let st = started();
    let shown = &st.models[st.rss_entry];
    let ids: Vec<&str> = shown.iter().map(|e| e.uuid.as_str()).collect();
    assert_eq!(ids, vec!["b1", "a1"]);
    assert_eq!(shown[0].tags, "beta");
    assert_eq!(shown[1].tags, "Alpha");
    assert_eq!(st.rss_lists[0].uuid, UNREAD_UUID);
    assert_eq!(st.rss_lists[0].entry, st.rss_entry);
    let b = st.rss_lists.iter().find(|l| l.uuid == "b-feed").unwrap();
    assert_eq!(b.unread_count, 1);
    assert_eq!(st.models[b.entry].len(), 2);
}

#[test]
fn sort_is_stable_for_equal_names() {
    let mk = |uuid: &str, name: &str| {
        let mut l = RssList::default();
        l.uuid = uuid.to_string();
        l.name = name.to_string();
        l
    };
    let lists = vec![mk("1", "Same"), mk("2", "same"), mk("3", "A")];
    let sorted = sort_rss_lists(&lists);
    let order: Vec<&str> = sorted.iter().map(|l| l.uuid.as_str()).collect();
    assert_eq!(order, vec!["3", "1", "2"]);
}

#[test]
fn sort_ignores_case() {
    let mk = |uuid: &str, name: &str, is_mark: bool| {
        let mut l = RssList::default();
        l.uuid = uuid.to_string();
        l.name = name.to_string();
        l.is_mark = is_mark;
        l
    };
    let lists = vec![mk("1", "C", false), mk("2", "b", false), mk("3", "A", false), mk("4", "z", true)];
    let sorted = sort_rss_lists(&lists);
    let order: Vec<&str> = sorted.iter().map(|l| l.uuid.as_str()).collect();
    assert_eq!(order, vec!["4", "3", "2", "1"]);
}

#[test]
fn init_db_records_missing_feeds() {
    let st = started();
    let exists = vec![true, false, true, true, false];
    let acts = st.init_db(&exists);
    assert_eq!(acts.len(), 2);
    match &acts[0] {
        Action::Db { op: DbOp::InsertRss { uuid, config }, on_err, stop_on_err, .. } => {
            assert_eq!(uuid, FAVORITE_UUID);
            assert_eq!(config.name, "fav");
            assert_eq!(on_err.as_ref().unwrap().key, "出错！");
            assert!(*stop_on_err);
        },
        other => panic!("unexpected {:?}", other),
    }
}

#[test]
fn new_rss_gets_uuid_and_model() {
    let mut st = started();
    let form = UiRssConfig {
        uuid: String::new(),
        name: "new".to_string(),
        url: "https://n".to_string(),
        use_proxy: true,
        icon_index: 3,
        feed_format: "rss".to_string(),
    };
    let (rss, acts) = new_rss_request(form);
    assert_eq!(rss.uuid.len(), 36);
    assert_eq!(&rss.uuid[14..15], "4");
    assert_eq!(acts.len(), 2);
    assert!(matches!(&acts[1], Action::Db { op: DbOp::CreateEntryTable { .. }, stop_on_err: true, .. }));
    let uuid = rss.uuid.clone();
    let n = st.rss_lists.len();
    let notice = st.on_new_rss(rss);
    assert_eq!(notice.key, "新建成功！");
    assert_eq!(st.rss_lists.len(), n + 1);
    let l = st.rss_lists.last().unwrap();
    assert_eq!(l.uuid, uuid);
    assert_eq!(l.name, "new");
    assert!(st.models[l.entry].is_empty());
}

#[test]
fn save_rss_updates_only_when_saved() {
    let mut st = started();
    let form = UiRssConfig {
        uuid: "a-feed".to_string(),
        name: "Renamed".to_string(),
        url: "u".to_string(),
        use_proxy: true,
        icon_index: 9,
        feed_format: String::new(),
    };
    let req = st.save_rss_request(&"a-feed".to_string(), &form).unwrap();
    match &req {
        Action::Db { op: DbOp::UpdateRss { config, .. }, on_ok, .. } => {
            assert_eq!(config.name, "Renamed");
            assert_eq!(on_ok.as_ref().unwrap().key, "保存成功！");
        },
        other => panic!("unexpected {:?}", other),
    }
    st.on_save_rss(&"a-feed".to_string(), &form, false);
    assert!(st.rss_lists.iter().any(|l| l.name == "Alpha"));
    st.on_save_rss(&"a-feed".to_string(), &form, true);
    let l = st.rss_lists.iter().find(|l| l.uuid == "a-feed").unwrap();
    assert_eq!(l.name, "Renamed");
    assert_eq!(l.icon_index, 9);
}

#[test]
fn special_feeds_cannot_be_deleted() {
    let mut st = started();
    let acts = st.delete_rss_request(&UNREAD_UUID.to_string());
    match &acts[0] {
        Action::Show { notice } => {
            assert_eq!(notice.key, "不允许删！");
            assert_eq!(notice.kind, NoticeKind::Warning);
        },
        other => panic!("unexpected {:?}", other),
    }
    let n = st.rss_lists.len();
    st.on_delete_rss(&FAVORITE_UUID.to_string(), true);
    assert_eq!(st.rss_lists.len(), n);
}

#[test]
fn delete_rss_removes_feed() {
    let mut st = started();
    st.current_rss_uuid = "a-feed".to_string();
    let acts = st.delete_rss_request(&"a-feed".to_string());
    assert_eq!(acts.len(), 2);
    let n = st.rss_lists.len();
    st.on_delete_rss(&"a-feed".to_string(), true);
    assert_eq!(st.rss_lists.len(), n - 1);
    assert!(st.rss_lists.iter().all(|l| l.uuid != "a-feed"));
    assert_eq!(st.current_rss_uuid, UNREAD_UUID);
    assert!(st.models[st.rss_entry].is_empty());
}

#[test]
fn toggle_mark_twice_restores() {
    let mut st = started();
    let before = st.rss_lists[3].is_mark;
    assert!(st.toggle_rss_mark_request(3, &"a-feed".to_string()).is_some());
    assert!(st.toggle_rss_mark_request(-1, &"a-feed".to_string()).is_none());
    assert!(st.toggle_rss_mark_request(99, &"a-feed".to_string()).is_none());
    st.on_toggle_rss_mark(3, true);
    assert_eq!(st.rss_lists[3].is_mark, !before);
    st.on_toggle_rss_mark(3, true);
    assert_eq!(st.rss_lists[3].is_mark, before);
    st.on_toggle_rss_mark(3, false);
    assert_eq!(st.rss_lists[3].is_mark, before);
}

#[test]
fn switch_rss_shows_new_feed() {
    let mut st = started();
    st.current_rss_uuid = UNREAD_UUID.to_string();
    let b = st.rss_lists.iter().find(|l| l.uuid == "b-feed").unwrap().entry;
    st.on_switch_rss(&UNREAD_UUID.to_string(), &"b-feed".to_string());
    assert_eq!(st.current_rss_uuid, "b-feed");
    assert_eq!(st.rss_entry, b);
    let before = st.rss_entry;
    st.on_switch_rss(&"b-feed".to_string(), &String::new());
    assert_eq!(st.rss_entry, before);
}

#[test]
fn sync_targets_skip_special_feeds() {
    let st = started();
    let (items, notice) = st.on_sync_rss(&UNREAD_UUID.to_string());
    assert!(notice.is_none());
    let ids: Vec<&str> = items.iter().map(|i| i.uuid.as_str()).collect();
    assert_eq!(ids, vec!["m-feed", "a-feed", "b-feed"]);
    let (one, _) = st.on_sync_rss(&"a-feed".to_string());
    assert_eq!(one.len(), 1);
    assert_eq!(one[0].url, "https://Alpha.example/rss");
    let (none, refusal) = st.on_sync_rss(&FAVORITE_UUID.to_string());
    assert!(none.is_empty());
    assert_eq!(refusal.unwrap().key, "不允许刷新！");
}

#[test]
fn set_rss_dialog_fills_form() {
    let st = started();
    let c = st.on_set_rss_dialog(&"a-feed".to_string()).unwrap();
    assert_eq!(c.name, "Alpha");
    assert_eq!(c.icon_index, 1);
    assert!(st.on_set_rss_dialog(&"none".to_string()).is_none());
}

#[test]
fn entries_of_feed_reads_items() {
    let xml = r#"<?xml version="1.0"?>
<rss version="2.0"><channel><title>T</title><link>https://t</link><description>d</description>
<item><title>One</title><link>https://t/1</link><pubDate>Mon, 01 Jan 2024 00:00:00 GMT</pubDate></item>
<item><title>No link</title></item>
<item><link>https://t/3</link></item>
<item><title>Two</title><link>https://t/2</link></item>
</channel></rss>"#;
    let es = entries_of_feed(xml.as_bytes()).unwrap();
    assert_eq!(es.len(), 2);
    assert_eq!(es[0].title, "One");
    assert_eq!(es[0].url, "https://t/1");
    assert_eq!(es[0].pub_date, "Mon, 01 Jan 2024 00:00:00 GMT");
    assert_eq!(es[1].pub_date, "");
    assert!(!es[1].is_read);
    assert_ne!(es[0].uuid, es[1].uuid);
    assert!(entries_of_feed(b"not a feed").is_err());
}

#[test]
fn request_timeout_is_capped() {
    assert_eq!(request_timeout(3), 3);
    assert_eq!(request_timeout(10), 10);
    assert_eq!(request_timeout(60), 10);
}

#[test]
fn sync_interval_at_least_a_minute() {
    assert_eq!(sync_interval_secs(0), 60);
    assert_eq!(sync_interval_secs(1), 60);
    assert_eq!(sync_interval_secs(15), 900);
    assert!(!is_sync_due(1000, 1060, 1));
    assert!(is_sync_due(1000, 1061, 1));
    assert!(!is_sync_due(1000, 1500, 10));
}

#[test]
fn sync_done_only_on_success() {
    assert_eq!(sync_done_notice(true).unwrap().key, "同步成功！");
    assert!(sync_done_notice(false).is_none());
}

#[test]
fn ok_cancel_dialog_dispatch() {
    match ok_cancel_dialog::init("rss", "u1", "cur") {
        Some(DialogCommand::DeleteRss { uuid }) => assert_eq!(uuid, "u1"),
        other => panic!("unexpected {:?}", other),
    }
    match ok_cancel_dialog::init("rss-all-entry", "u1", "cur") {
        Some(DialogCommand::RemoveAllEntry { suuid }) => assert_eq!(suuid, "u1"),
        other => panic!("unexpected {:?}", other),
    }
    match ok_cancel_dialog::init("rss-entry", "e1", "cur") {
        Some(DialogCommand::RemoveEntry { suuid, uuid }) => {
            assert_eq!(suuid, "cur");
            assert_eq!(uuid, "e1");
        },
        other => panic!("unexpected {:?}", other),
    }
    assert!(ok_cancel_dialog::init("session-archive-item", "x", "cur").is_none());
}

#[test]
fn db_init_creates_tables_in_order() {
    let ops = rssbox::db::init();
    assert_eq!(ops.len(), 3);
    assert!(matches!(ops[0], DbOp::CreateRssTable));
    match &ops[1] {
        DbOp::CreateEntryTable { suuid } => assert_eq!(suuid, FAVORITE_UUID),
        other => panic!("unexpected {:?}", other),
    }
    assert!(matches!(ops[2], DbOp::CreateTrashTable));
}

#[test]
fn conversions_keep_fields() {
    let e = UiRssEntry {
        uuid: "u".to_string(),
        url: "l".to_string(),
        title: "t".to_string(),
        pub_date: "d".to_string(),
        tags: "g".to_string(),
        is_read: true,
        suuid: "s".to_string(),
    };
    let r = RssEntry::from(&e);
    assert_eq!(r.uuid, "u");
    assert_eq!(r.tags, "g");
    let back = UiRssEntry::from(r);
    assert_eq!(back.suuid, "");
    assert!(back.is_read);
    let form = UiRssConfig {
        uuid: "x".to_string(),
        name: "n".to_string(),
        url: "u".to_string(),
        use_proxy: true,
        icon_index: 2,
        feed_format: "atom".to_string(),
    };
    let c = RssConfig::from(&form);
    assert!(!c.is_mark);
    assert_eq!(c.update_time, "");
    let l = RssList::from(form);
    assert_eq!(l.uuid, "");
    assert_eq!(l.feed_format, "atom");
    assert_eq!(RssConfig::from(&l).name, "n");
}
