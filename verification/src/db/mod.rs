//! The database: a table of feeds, an entry table per feed and the trash.
pub mod data;
pub mod entry;

use vstd::prelude::*;
use crate::logic::action::{DbOp, DbOpView};
use crate::logic::rss::FAVORITE_UUID;

verus! {

pub open spec fn ops_view(v: Seq<DbOp>) -> Seq<DbOpView> {
    v.map_values(|o: DbOp| o@)
}

/// The tables the program needs at start, in order: the feeds, the
/// favourite feed's entries, the trash. The caller stops the program when
/// one cannot be made.
pub fn init() -> (r: Vec<DbOp>)
    ensures
        ops_view(r@) == seq![
            DbOpView::CreateRssTable,
            DbOpView::CreateEntryTable { suuid: FAVORITE_UUID@ },
            DbOpView::CreateTrashTable,
        ],
{
    let mut r: Vec<DbOp> = Vec::new();
    r.push(DbOp::CreateRssTable);
    r.push(DbOp::CreateEntryTable { suuid: FAVORITE_UUID.to_owned() });
    r.push(DbOp::CreateTrashTable);
    assert(ops_view(r@) =~= seq![
        DbOpView::CreateRssTable,
        DbOpView::CreateEntryTable { suuid: FAVORITE_UUID@ },
        DbOpView::CreateTrashTable,
    ]);
    r
}

} // verus!
