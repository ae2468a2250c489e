pub mod action;
pub mod data;
pub mod entry;
pub mod ok_cancel_dialog;
pub mod rss;
pub mod setting;
pub mod store;
