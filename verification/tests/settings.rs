use rssbox::config::data::{Config, RssSetting, Socks5, UI};
use rssbox::logic::action::{Action, DbOp};
use rssbox::logic::setting::{init_setting_dialog, on_clear_trash_box, on_setting_ok};

fn rss_setting() -> RssSetting {
    RssSetting { sync_interval: 30, sync_interval_enabled: true, sync_timeout: 5, browser: "firefox".to_string(), start_sync: true }
}

#[test]
fn dialog_shows_settings() {
    let d = init_setting_dialog(&UI::default(), &rss_setting(), &Socks5::default(), None);
    assert_eq!(d.ui.font_size, "20");
    assert_eq!(d.ui.win_width, "1200");
    assert_eq!(d.ui.win_height, "800");
    assert_eq!(d.rss.sync_interval, 30);
    assert_eq!(d.rss.trash_count, 0);
    assert_eq!(d.proxy.port, "1080");
    let d2 = init_setting_dialog(&UI::default(), &rss_setting(), &Socks5::default(), Some(7));
    assert_eq!(d2.rss.trash_count, 7);
}

#[test]
fn setting_ok_round_trip() {
    let mut config = Config::default();
    config.ui.font_size = 33;
    config.socks5.port = 9050;
    let rss = rss_setting();
    let d = init_setting_dialog(&config.ui, &rss, &config.socks5, None);
    let mut c2 = Config::default();
    let mut r2 = RssSetting { sync_interval: 0, sync_interval_enabled: false, sync_timeout: 0, browser: String::new(), start_sync: false };
    on_setting_ok(&mut c2, &mut r2, &d);
    assert_eq!(c2.ui.font_size, 33);
    assert_eq!(c2.socks5.port, 9050);
    assert_eq!(r2.sync_interval, 30);
    assert_eq!(r2.browser, "firefox");
}

#[test]
fn setting_ok_uses_defaults_for_bad_numbers() {
    let mut d = init_setting_dialog(&UI::default(), &rss_setting(), &Socks5::default(), None);
    d.ui.font_size = "big".to_string();
    d.ui.win_width = "".to_string();
    d.ui.win_height = "-3".to_string();
    d.proxy.port = "70000".to_string();
    d.rss.sync_interval = -1;
    let mut c = Config::default();
    c.ui.font_size = 99;
    let mut r = rss_setting();
    on_setting_ok(&mut c, &mut r, &d);
    assert_eq!(c.ui.font_size, 20);
    assert_eq!(c.ui.win_width, 1200);
    assert_eq!(c.ui.win_height, 800);
    assert_eq!(c.socks5.port, 1080);
    assert_eq!(r.sync_interval, u32::MAX);
}

#[test]
fn clear_trash_box_resets_count() {
    let mut d = init_setting_dialog(&UI::default(), &rss_setting(), &Socks5::default(), Some(4));
    let acts = on_clear_trash_box(&mut d);
    assert_eq!(d.rss.trash_count, 0);
    assert!(matches!(acts[0], Action::Db { op: DbOp::DeleteAllTrash, .. }));
    match &acts[1] {
        Action::ShowAsIs { notice } => assert_eq!(notice.key, "清空成功！"),
        other => panic!("unexpected {:?}", other),
    }
}
