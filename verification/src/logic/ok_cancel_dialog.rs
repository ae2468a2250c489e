//! The confirmation dialog.
use vstd::prelude::*;
use crate::util::text::str_eq;

verus! {

/// What confirming the dialog asks for.
#[derive(Debug)]
pub enum DialogCommand {
    /// Delete feed `uuid`.
    DeleteRss { uuid: String },
    /// Remove all entries of feed `suuid`.
    RemoveAllEntry { suuid: String },
    /// Remove entry `uuid` of feed `suuid`.
    RemoveEntry { suuid: String, uuid: String },
}

pub enum DialogCommandView {
    DeleteRss { uuid: Seq<char> },
    RemoveAllEntry { suuid: Seq<char> },
    RemoveEntry { suuid: Seq<char>, uuid: Seq<char> },
}

impl View for DialogCommand {
    type V = DialogCommandView;

    open spec fn view(&self) -> DialogCommandView {
        match self {
            DialogCommand::DeleteRss { uuid } => DialogCommandView::DeleteRss { uuid: uuid@ },
            DialogCommand::RemoveAllEntry { suuid } => DialogCommandView::RemoveAllEntry { suuid: suuid@ },
            DialogCommand::RemoveEntry { suuid, uuid } => DialogCommandView::RemoveEntry { suuid: suuid@, uuid: uuid@ },
        }
    }
}

/// The command a confirmed dialog of kind `handle_type` about
/// `handle_uuid` stands for: "rss" deletes that feed, "rss-all-entry"
/// removes all its entries, "rss-entry" removes that entry from the current
/// feed; other kinds ask for nothing.
pub open spec fn command_of(handle_type: Seq<char>, handle_uuid: Seq<char>, current: Seq<char>) -> Option<DialogCommandView> {
    if handle_type == "rss"@ {
        Some(DialogCommandView::DeleteRss { uuid: handle_uuid })
    } else if handle_type == "rss-all-entry"@ {
        Some(DialogCommandView::RemoveAllEntry { suuid: handle_uuid })
    } else if handle_type == "rss-entry"@ {
        Some(DialogCommandView::RemoveEntry { suuid: current, uuid: handle_uuid })
    } else {
        None
    }
}

/// The command the confirmed dialog stands for (see [`command_of`]);
/// `current_rss_uuid` is the current feed.
pub fn init(handle_type: &str, handle_uuid: &str, current_rss_uuid: &str) -> (r: Option<DialogCommand>)
    ensures
        match r {
            Some(c) => command_of(handle_type@, handle_uuid@, current_rss_uuid@) == Some(c@),
            None => command_of(handle_type@, handle_uuid@, current_rss_uuid@) is None,
        },
{
    if str_eq(handle_type, "rss") {
        Some(DialogCommand::DeleteRss { uuid: handle_uuid.to_owned() })
    } else if str_eq(handle_type, "rss-all-entry") {
        Some(DialogCommand::RemoveAllEntry { suuid: handle_uuid.to_owned() })
    } else if str_eq(handle_type, "rss-entry") {
        Some(DialogCommand::RemoveEntry { suuid: current_rss_uuid.to_owned(), uuid: handle_uuid.to_owned() })
    } else {
        None
    }
}

} // verus!
