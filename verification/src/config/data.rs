//! The settings and their defaults.
use vstd::prelude::*;

verus! {

/// The program's settings; the paths are not saved.
#[derive(Debug)]
pub struct Config {
    pub working_dir: String,
    pub config_path: String,
    pub db_path: String,
    pub cache_dir: String,
    pub ui: UI,
    pub socks5: Socks5,
}

/// The window's settings.
#[derive(Debug)]
pub struct UI {
    pub font_size: u32,
    pub font_family: String,
    pub win_width: u32,
    pub win_height: u32,
    pub language: String,
}

/// The proxy a feed may be fetched through.
#[derive(Debug)]
pub struct Socks5 {
    pub url: String,
    pub port: u16,
}

/// The settings of syncing and of opening links.
#[derive(Debug)]
pub struct RssSetting {
    pub sync_interval: u32,
    pub sync_interval_enabled: bool,
    pub sync_timeout: u32,
    pub browser: String,
    pub start_sync: bool,
}

pub struct UIView {
    pub font_size: u32,
    pub font_family: Seq<char>,
    pub win_width: u32,
    pub win_height: u32,
    pub language: Seq<char>,
}

pub struct Socks5View {
    pub url: Seq<char>,
    pub port: u16,
}

pub struct ConfigView {
    pub working_dir: Seq<char>,
    pub config_path: Seq<char>,
    pub db_path: Seq<char>,
    pub cache_dir: Seq<char>,
    pub ui: UIView,
    pub socks5: Socks5View,
}

pub struct RssSettingView {
    pub sync_interval: u32,
    pub sync_interval_enabled: bool,
    pub sync_timeout: u32,
    pub browser: Seq<char>,
    pub start_sync: bool,
}

impl View for UI {
    type V = UIView;

    open spec fn view(&self) -> UIView {
        UIView {
            font_size: self.font_size,
            font_family: self.font_family@,
            win_width: self.win_width,
            win_height: self.win_height,
            language: self.language@,
        }
    }
}

impl View for Socks5 {
    type V = Socks5View;

    open spec fn view(&self) -> Socks5View {
        Socks5View { url: self.url@, port: self.port }
    }
}

impl View for Config {
    type V = ConfigView;

    open spec fn view(&self) -> ConfigView {
        ConfigView {
            working_dir: self.working_dir@,
            config_path: self.config_path@,
            db_path: self.db_path@,
            cache_dir: self.cache_dir@,
            ui: self.ui@,
            socks5: self.socks5@,
        }
    }
}

impl View for RssSetting {
    type V = RssSettingView;

    open spec fn view(&self) -> RssSettingView {
        RssSettingView {
            sync_interval: self.sync_interval,
            sync_interval_enabled: self.sync_interval_enabled,
            sync_timeout: self.sync_timeout,
            browser: self.browser@,
            start_sync: self.start_sync,
        }
    }
}

pub open spec fn default_ui() -> UIView {
    UIView {
        font_size: 20,
        font_family: "SourceHanSerifCN"@,
        win_width: 1200,
        win_height: 800,
        language: "cn"@,
    }
}

pub open spec fn default_socks5() -> Socks5View {
    Socks5View { url: "127.0.0.1"@, port: 1080 }
}

impl Default for UI {
    fn default() -> (r: UI)
        ensures
            r@ == default_ui(),
    {
        UI {
            font_size: 20,
            font_family: "SourceHanSerifCN".to_owned(),
            win_width: 1200,
            win_height: 800,
            language: "cn".to_owned(),
        }
    }
}

impl Default for Socks5 {
    fn default() -> (r: Socks5)
        ensures
            r@ == default_socks5(),
    {
        Socks5 { url: "127.0.0.1".to_owned(), port: 1080 }
    }
}

impl Default for Config {
    fn default() -> (r: Config)
        ensures
            r@ == (ConfigView {
                working_dir: Seq::empty(),
                config_path: Seq::empty(),
                db_path: Seq::empty(),
                cache_dir: Seq::empty(),
                ui: default_ui(),
                socks5: default_socks5(),
            }),
    {
        Config {
            working_dir: String::new(),
            config_path: String::new(),
            db_path: String::new(),
            cache_dir: String::new(),
            ui: UI::default(),
            socks5: Socks5::default(),
        }
    }
}

} // verus!
