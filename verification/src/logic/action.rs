//! The outside work that an action of the user asks for: database writes and
//! messages to show. The caller performs them in order.
use vstd::prelude::*;
use crate::db::data::{RssConfig, RssConfigView, RssEntry, RssEntryView};

verus! {

/// How a message is shown.
#[derive(PartialEq, Eq, Structural, Clone, Copy, Debug)]
pub enum NoticeKind {
    Success,
    Warning,
    Info,
}

/// A message to show; `key` is the text as written (see
/// [`crate::util::translator::tr`]).
#[derive(Debug)]
pub struct Notice {
    pub key: String,
    pub kind: NoticeKind,
}

pub struct NoticeView {
    pub key: Seq<char>,
    pub kind: NoticeKind,
}

impl View for Notice {
    type V = NoticeView;

    open spec fn view(&self) -> NoticeView {
        NoticeView { key: self.key@, kind: self.kind }
    }
}

pub open spec fn notice(key: Seq<char>, kind: NoticeKind) -> NoticeView {
    NoticeView { key, kind }
}

impl Notice {
    pub fn new(key: &str, kind: NoticeKind) -> (r: Notice)
        ensures
            r@ == notice(key@, kind),
    {
        Notice { key: key.to_owned(), kind }
    }
}

/// A write to the database. `suuid` names a feed, whose entries live in the
/// table [`crate::db::entry::table_name`] of it.
#[derive(Debug)]
pub enum DbOp {
    CreateRssTable,
    CreateTrashTable,
    CreateEntryTable { suuid: String },
    DropEntryTable { suuid: String },
    InsertRss { uuid: String, config: RssConfig },
    UpdateRss { uuid: String, config: RssConfig },
    DeleteRss { uuid: String },
    InsertEntry { suuid: String, uuid: String, entry: RssEntry },
    UpdateEntry { suuid: String, uuid: String, entry: RssEntry },
    DeleteEntry { suuid: String, uuid: String },
    DeleteAllEntries { suuid: String },
    InsertTrash { md5: String },
    DeleteAllTrash,
}

pub enum DbOpView {
    CreateRssTable,
    CreateTrashTable,
    CreateEntryTable { suuid: Seq<char> },
    DropEntryTable { suuid: Seq<char> },
    InsertRss { uuid: Seq<char>, config: RssConfigView },
    UpdateRss { uuid: Seq<char>, config: RssConfigView },
    DeleteRss { uuid: Seq<char> },
    InsertEntry { suuid: Seq<char>, uuid: Seq<char>, entry: RssEntryView },
    UpdateEntry { suuid: Seq<char>, uuid: Seq<char>, entry: RssEntryView },
    DeleteEntry { suuid: Seq<char>, uuid: Seq<char> },
    DeleteAllEntries { suuid: Seq<char> },
    InsertTrash { md5: Seq<char> },
    DeleteAllTrash,
}

impl View for DbOp {
    type V = DbOpView;

    open spec fn view(&self) -> DbOpView {
        match self {
            DbOp::CreateRssTable => DbOpView::CreateRssTable,
            DbOp::CreateTrashTable => DbOpView::CreateTrashTable,
            DbOp::CreateEntryTable { suuid } => DbOpView::CreateEntryTable { suuid: suuid@ },
            DbOp::DropEntryTable { suuid } => DbOpView::DropEntryTable { suuid: suuid@ },
            DbOp::InsertRss { uuid, config } => DbOpView::InsertRss { uuid: uuid@, config: config@ },
            DbOp::UpdateRss { uuid, config } => DbOpView::UpdateRss { uuid: uuid@, config: config@ },
            DbOp::DeleteRss { uuid } => DbOpView::DeleteRss { uuid: uuid@ },
            DbOp::InsertEntry { suuid, uuid, entry } => DbOpView::InsertEntry {
                suuid: suuid@,
                uuid: uuid@,
                entry: entry@,
            },
            DbOp::UpdateEntry { suuid, uuid, entry } => DbOpView::UpdateEntry {
                suuid: suuid@,
                uuid: uuid@,
                entry: entry@,
            },
            DbOp::DeleteEntry { suuid, uuid } => DbOpView::DeleteEntry {
                suuid: suuid@,
                uuid: uuid@,
            },
            DbOp::DeleteAllEntries { suuid } => DbOpView::DeleteAllEntries { suuid: suuid@ },
            DbOp::InsertTrash { md5 } => DbOpView::InsertTrash { md5: md5@ },
            DbOp::DeleteAllTrash => DbOpView::DeleteAllTrash,
        }
    }
}

/// One step of outside work. For `Db`, the caller performs the write, shows
/// `on_ok` when it succeeds and `on_err` (followed by the reason) when it
/// fails, and when it fails and `stop_on_err` holds it performs none of the
/// steps that follow. `Show` shows a message in the user's language,
/// `ShowAsIs` shows it as written.
#[derive(Debug)]
pub enum Action {
    Db { op: DbOp, on_ok: Option<Notice>, on_err: Option<Notice>, stop_on_err: bool },
    Show { notice: Notice },
    ShowAsIs { notice: Notice },
}

pub enum ActionView {
    Db { op: DbOpView, on_ok: Option<NoticeView>, on_err: Option<NoticeView>, stop_on_err: bool },
    Show { notice: NoticeView },
    ShowAsIs { notice: NoticeView },
}

pub open spec fn opt_notice_view(n: Option<Notice>) -> Option<NoticeView> {
    match n {
        Some(x) => Some(x@),
        None => None,
    }
}

impl View for Action {
    type V = ActionView;

    open spec fn view(&self) -> ActionView {
        match self {
            Action::Db { op, on_ok, on_err, stop_on_err } => ActionView::Db {
                op: op@,
                on_ok: opt_notice_view(*on_ok),
                on_err: opt_notice_view(*on_err),
                stop_on_err: *stop_on_err,
            },
            Action::Show { notice } => ActionView::Show { notice: notice@ },
            Action::ShowAsIs { notice } => ActionView::ShowAsIs { notice: notice@ },
        }
    }
}

pub open spec fn actions_view(v: Seq<Action>) -> Seq<ActionView> {
    v.map_values(|a: Action| a@)
}

/// A write whose failure is reported with `err_key` and stops nothing.
pub open spec fn db_write(op: DbOpView, err_key: Seq<char>) -> ActionView {
    ActionView::Db {
        op,
        on_ok: None,
        on_err: Some(notice(err_key, NoticeKind::Warning)),
        stop_on_err: false,
    }
}

/// A write whose outcome is not reported.
pub open spec fn silent_write(op: DbOpView) -> ActionView {
    ActionView::Db { op, on_ok: None, on_err: None, stop_on_err: false }
}

pub open spec fn show(key: Seq<char>, kind: NoticeKind) -> ActionView {
    ActionView::Show { notice: notice(key, kind) }
}

/// Appends `a` to `actions`.
pub fn push_action(actions: &mut Vec<Action>, a: Action)
    ensures
        actions_view(final(actions)@) == actions_view(old(actions)@).push(a@),
{
    actions.push(a);
    assert(actions_view(actions@) =~= actions_view(old(actions)@).push(a@));
}

} // verus!
