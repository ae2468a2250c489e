use rssbox::config::data::{Config, Socks5, UI};
use rssbox::db::entry::table_name;
use rssbox::logic::entry::parse_tags;
use rssbox::util::number::{decimal, parse_unsigned_text};
use rssbox::util::translator::{failure_text, tr};

#[test]
fn tr_keeps_chinese_for_cn() {
    assert_eq!(tr("保存失败！", "cn"), "保存失败！");
    assert_eq!(tr("原因", "cn"), "原因");
}

#[test]
fn tr_gives_english_of_known_texts() {
    assert_eq!(tr("原因", "en"), "Reason");
    assert_eq!(tr("同步成功！", "en"), "Sync Success!!");
    assert_eq!(tr("正在同步...", "en"), "Sync...");
}

#[test]
fn tr_later_entries_win() {
    assert_eq!(tr("删除失败！", "en"), "Delete Session Failed!");
    assert_eq!(tr("删除成功！", "en"), "Delete Session Success");
    assert_eq!(tr("收藏成功！", "en"), "Favorite Success!");
}

#[test]
fn tr_unknown_text_unchanged() {
    assert_eq!(tr("不允许删！", "en"), "不允许删！");
    assert_eq!(tr("hello", "en"), "hello");
}

#[test]
fn failure_text_joins_reason() {
    assert_eq!(failure_text("保存失败！", "disk full", "en"), "Save Failed!Reason: disk full");
    assert_eq!(failure_text("保存失败！", "x", "cn"), "保存失败！原因: x");
}

#[test]
fn table_name_replaces_hyphens() {
    assert_eq!(table_name("favorite-uuid"), "entry_favorite_uuid");
    assert_eq!(table_name("a-b-c"), "entry_a_b_c");
    assert_eq!(table_name(""), "entry_");
}

#[test]
fn parse_tags_splits_and_trims() {
    assert_eq!(parse_tags(" ,a, b ,,c , "), vec!["a", "b", "c"]);
    assert_eq!(parse_tags("rust"), vec!["rust"]);
    assert_eq!(parse_tags(""), Vec::<String>::new());
    assert_eq!(parse_tags(" , , "), Vec::<String>::new());
    assert_eq!(parse_tags("news,\u{3000}tech\u{3000}"), vec!["news", "tech"]);
}

#[test]
fn ui_defaults() {
    let ui = UI::default();
    assert_eq!(ui.font_size, 20);
    assert_eq!(ui.font_family, "SourceHanSerifCN");
    assert_eq!(ui.win_width, 1200);
    assert_eq!(ui.win_height, 800);
    assert_eq!(ui.language, "cn");
}

#[test]
fn socks5_defaults() {
    let s = Socks5::default();
    assert_eq!(s.url, "127.0.0.1");
    assert_eq!(s.port, 1080);
}

#[test]
fn config_defaults() {
    let c = Config::default();
    assert_eq!(c.working_dir, "");
    assert_eq!(c.db_path, "");
    assert_eq!(c.ui.font_size, 20);
    assert_eq!(c.socks5.port, 1080);
}

#[test]
fn decimal_writes_numbers() {
    assert_eq!(decimal(0), "0");
    assert_eq!(decimal(1080), "1080");
    assert_eq!(decimal(4294967295), "4294967295");
}

#[test]
fn parse_reads_like_str_parse() {
    assert_eq!(parse_unsigned_text("20", 0xffff_ffff), Some(20));
    assert_eq!(parse_unsigned_text("+7", 0xffff_ffff), Some(7));
    assert_eq!(parse_unsigned_text("007", 0xffff_ffff), Some(7));
    assert_eq!(parse_unsigned_text("", 0xffff_ffff), None);
    assert_eq!(parse_unsigned_text("+", 0xffff_ffff), None);
    assert_eq!(parse_unsigned_text("-1", 0xffff_ffff), None);
    assert_eq!(parse_unsigned_text("12a", 0xffff_ffff), None);
    assert_eq!(parse_unsigned_text("4294967295", 0xffff_ffff), Some(4294967295));
    assert_eq!(parse_unsigned_text("4294967296", 0xffff_ffff), None);
    assert_eq!(parse_unsigned_text("65536", 0xffff), None);
    for s in ["20", "+7", "", "-1", "12a", "4294967296", " 1"] {
        assert_eq!(parse_unsigned_text(s, 0xffff_ffff), s.parse::<u32>().ok().map(|v| v as u64));
    }
}
