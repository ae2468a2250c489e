//! The settings dialog: what it shows and what confirming it saves.
use vstd::prelude::*;
use crate::config::data::{Config, ConfigView, RssSetting, RssSettingView, Socks5, UI};
use crate::logic::action::{actions_view, push_action, silent_write, Action, ActionView, DbOp, DbOpView, Notice, NoticeKind, notice};
use crate::util::number::{decimal, decimal_of, lemma_parse_decimal, parse_unsigned, parse_unsigned_text};

verus! {

/// The window part of the settings dialog.
#[derive(Debug)]
pub struct SettingUi {
    pub font_size: String,
    pub font_family: String,
    pub win_width: String,
    pub win_height: String,
    pub language: String,
}

/// The sync part of the settings dialog.
#[derive(Debug)]
pub struct SettingRss {
    pub sync_interval: i32,
    pub sync_interval_enabled: bool,
    pub sync_timeout: i32,
    pub browser: String,
    pub start_sync: bool,
    pub trash_count: i32,
}

/// The proxy part of the settings dialog.
#[derive(Debug)]
pub struct SettingProxy {
    pub url: String,
    pub port: String,
}

/// The settings dialog's fields.
#[derive(Debug)]
pub struct SettingDialogConfig {
    pub ui: SettingUi,
    pub rss: SettingRss,
    pub proxy: SettingProxy,
}

/// The fields of the settings dialog as values.
pub struct DialogView {
    pub font_size: Seq<char>,
    pub font_family: Seq<char>,
    pub win_width: Seq<char>,
    pub win_height: Seq<char>,
    pub language: Seq<char>,
    pub sync_interval: i32,
    pub sync_interval_enabled: bool,
    pub sync_timeout: i32,
    pub browser: Seq<char>,
    pub start_sync: bool,
    pub trash_count: i32,
    pub proxy_url: Seq<char>,
    pub proxy_port: Seq<char>,
}

impl View for SettingDialogConfig {
    type V = DialogView;

    open spec fn view(&self) -> DialogView {
        DialogView {
            font_size: self.ui.font_size@,
            font_family: self.ui.font_family@,
            win_width: self.ui.win_width@,
            win_height: self.ui.win_height@,
            language: self.ui.language@,
            sync_interval: self.rss.sync_interval,
            sync_interval_enabled: self.rss.sync_interval_enabled,
            sync_timeout: self.rss.sync_timeout,
            browser: self.rss.browser@,
            start_sync: self.rss.start_sync,
            trash_count: self.rss.trash_count,
            proxy_url: self.proxy.url@,
            proxy_port: self.proxy.port@,
        }
    }
}

/// The dialog filled in from the settings; `trash_count` is the number of
/// links in the trash, when it could be counted.
pub open spec fn dialog_of(ui: crate::config::data::UIView, rss: RssSettingView, socks5: crate::config::data::Socks5View, trash_count: Option<i32>) -> DialogView {
    DialogView {
        font_size: decimal_of(ui.font_size as nat),
        font_family: ui.font_family,
        win_width: decimal_of(ui.win_width as nat),
        win_height: decimal_of(ui.win_height as nat),
        language: ui.language,
        sync_interval: rss.sync_interval as i32,
        sync_interval_enabled: rss.sync_interval_enabled,
        sync_timeout: rss.sync_timeout as i32,
        browser: rss.browser,
        start_sync: rss.start_sync,
        trash_count: match trash_count {
            Some(n) => n,
            None => 0,
        },
        proxy_url: socks5.url,
        proxy_port: decimal_of(socks5.port as nat),
    }
}

/// The settings dialog filled in from the settings (see [`dialog_of`]).
pub fn init_setting_dialog(ui: &UI, rss: &RssSetting, socks5: &Socks5, trash_count: Option<i32>) -> (r: SettingDialogConfig)
    ensures
        r@ == dialog_of(ui@, rss@, socks5@, trash_count),
{
    SettingDialogConfig {
        ui: SettingUi {
            font_size: decimal(ui.font_size as u64),
            font_family: ui.font_family.clone(),
            win_width: decimal(ui.win_width as u64),
            win_height: decimal(ui.win_height as u64),
            language: ui.language.clone(),
        },
        rss: SettingRss {
            sync_interval: rss.sync_interval as i32,
            sync_interval_enabled: rss.sync_interval_enabled,
            sync_timeout: rss.sync_timeout as i32,
            browser: rss.browser.clone(),
            start_sync: rss.start_sync,
            trash_count: match trash_count {
                Some(n) => n,
                None => 0,
            },
        },
        proxy: SettingProxy { url: socks5.url.clone(), port: decimal(socks5.port as u64) },
    }
}

/// A number field's value, or `default` when the field does not hold one
/// (see [`parse_unsigned`]).
pub open spec fn field_or(s: Seq<char>, max: int, default: int) -> int {
    match parse_unsigned(s, max) {
        Some(v) => v,
        None => default,
    }
}

/// The settings the confirmed dialog `d` gives: the window's size and font
/// size read from their fields (1200, 800 and 20 where a field holds no
/// number), the proxy port likewise (1080), the other fields as they are.
pub open spec fn settings_of(config: ConfigView, rss: RssSettingView, d: DialogView) -> (ConfigView, RssSettingView) {
    (
        ConfigView {
            ui: crate::config::data::UIView {
                font_size: field_or(d.font_size, u32::MAX as int, 20) as u32,
                font_family: d.font_family,
                win_width: field_or(d.win_width, u32::MAX as int, 1200) as u32,
                win_height: field_or(d.win_height, u32::MAX as int, 800) as u32,
                language: d.language,
            },
            socks5: crate::config::data::Socks5View {
                url: d.proxy_url,
                port: field_or(d.proxy_port, u16::MAX as int, 1080) as u16,
            },
            ..config
        },
        RssSettingView {
            sync_interval: d.sync_interval as u32,
            sync_interval_enabled: d.sync_interval_enabled,
            sync_timeout: d.sync_timeout as u32,
            browser: d.browser,
            start_sync: d.start_sync,
        },
    )
}

fn number_field(s: &String, max: u64, default: u64) -> (r: u64)
    requires
        max <= u32::MAX,
        default <= max,
    ensures
        r as int == field_or(s@, max as int, default as int),
        r <= max,
{
    match parse_unsigned_text(s.as_str(), max) {
        Some(v) => v,
        None => default,
    }
}

/// Takes the confirmed settings dialog into the settings (see
/// [`settings_of`]); the caller then saves them.
pub fn on_setting_ok(config: &mut Config, rss: &mut RssSetting, dialog: &SettingDialogConfig)
    ensures
        (final(config)@, final(rss)@) == settings_of(old(config)@, old(rss)@, dialog@),
{
    config.ui.font_size = number_field(&dialog.ui.font_size, 0xffff_ffff, 20) as u32;
    config.ui.win_width = number_field(&dialog.ui.win_width, 0xffff_ffff, 1200) as u32;
    config.ui.win_height = number_field(&dialog.ui.win_height, 0xffff_ffff, 800) as u32;
    config.ui.font_family = dialog.ui.font_family.clone();
    config.ui.language = dialog.ui.language.clone();
    rss.sync_interval = dialog.rss.sync_interval as u32;
    rss.sync_interval_enabled = dialog.rss.sync_interval_enabled;
    rss.sync_timeout = dialog.rss.sync_timeout as u32;
    rss.browser = dialog.rss.browser.clone();
    rss.start_sync = dialog.rss.start_sync;
    config.socks5.url = dialog.proxy.url.clone();
    config.socks5.port = number_field(&dialog.proxy.port, 0xffff, 1080) as u16;
}

/// Emptying the trash: the dialog's count becomes 0, the trash table is
/// emptied (its outcome is not reported), and a success is shown as it is.
pub fn on_clear_trash_box(dialog: &mut SettingDialogConfig) -> (r: Vec<Action>)
    ensures
        final(dialog)@ == (DialogView { trash_count: 0, ..old(dialog)@ }),
        actions_view(r@) == seq![
            silent_write(DbOpView::DeleteAllTrash),
            ActionView::ShowAsIs { notice: notice("清空成功！"@, NoticeKind::Success) },
        ],
{
    dialog.rss.trash_count = 0;
    let mut r: Vec<Action> = Vec::new();
    push_action(&mut r, Action::Db { op: DbOp::DeleteAllTrash, on_ok: None, on_err: None, stop_on_err: false });
    push_action(&mut r, Action::ShowAsIs { notice: Notice::new("清空成功！", NoticeKind::Success) });
    assert(actions_view(r@) =~= seq![
        silent_write(DbOpView::DeleteAllTrash),
        ActionView::ShowAsIs { notice: notice("清空成功！"@, NoticeKind::Success) },
    ]);
    r
}


/// The dialog shows each setting of the sync in its own field, and
/// confirming a dialog takes each of those fields into the same setting.
pub proof fn law_setting_fields(
    ui: crate::config::data::UIView,
    rss: RssSettingView,
    socks5: crate::config::data::Socks5View,
    trash_count: Option<i32>,
    config: ConfigView,
    old_rss: RssSettingView,
    d: DialogView,
)
    ensures
        dialog_of(ui, rss, socks5, trash_count).sync_interval_enabled == rss.sync_interval_enabled,
        dialog_of(ui, rss, socks5, trash_count).start_sync == rss.start_sync,
        dialog_of(ui, rss, socks5, trash_count).browser == rss.browser,
        dialog_of(ui, rss, socks5, trash_count).sync_interval as int == rss.sync_interval as int
            || rss.sync_interval > i32::MAX,
        dialog_of(ui, rss, socks5, trash_count).sync_timeout as int == rss.sync_timeout as int
            || rss.sync_timeout > i32::MAX,
        dialog_of(ui, rss, socks5, trash_count).font_family == ui.font_family,
        dialog_of(ui, rss, socks5, trash_count).language == ui.language,
        dialog_of(ui, rss, socks5, trash_count).proxy_url == socks5.url,
        settings_of(config, old_rss, d).1.sync_interval_enabled == d.sync_interval_enabled,
        settings_of(config, old_rss, d).1.start_sync == d.start_sync,
        settings_of(config, old_rss, d).1.browser == d.browser,
        settings_of(config, old_rss, d).1.sync_interval as int == d.sync_interval as int || d.sync_interval < 0,
        settings_of(config, old_rss, d).1.sync_timeout as int == d.sync_timeout as int || d.sync_timeout < 0,
        settings_of(config, old_rss, d).0.ui.font_family == d.font_family,
        settings_of(config, old_rss, d).0.ui.language == d.language,
        settings_of(config, old_rss, d).0.socks5.url == d.proxy_url,
        settings_of(config, old_rss, d).0.db_path == config.db_path,
{
    let a = rss.sync_interval;
    let b = rss.sync_timeout;
    let x = d.sync_interval;
    let y = d.sync_timeout;
    assert(a <= i32::MAX ==> (a as i32) as int == a as int) by (bit_vector);
    assert(b <= i32::MAX ==> (b as i32) as int == b as int) by (bit_vector);
    assert(x >= 0 ==> (x as u32) as int == x as int) by (bit_vector);
    assert(y >= 0 ==> (y as u32) as int == y as int) by (bit_vector);
}

/// Confirming the settings dialog as it was filled in from the settings
/// gives the same settings back.
pub proof fn law_settings_round_trip(config: ConfigView, rss: RssSettingView, trash_count: Option<i32>)
    ensures
        settings_of(config, rss, dialog_of(config.ui, rss, config.socks5, trash_count)) == (config, rss),
{
    lemma_parse_decimal(config.ui.font_size as nat, u32::MAX as int);
    lemma_parse_decimal(config.ui.win_width as nat, u32::MAX as int);
    lemma_parse_decimal(config.ui.win_height as nat, u32::MAX as int);
    lemma_parse_decimal(config.socks5.port as nat, u16::MAX as int);
    let a = rss.sync_interval;
    let b = rss.sync_timeout;
    assert((a as i32) as u32 == a) by (bit_vector);
    assert((b as i32) as u32 == b) by (bit_vector);
}
} // verus!
