//! The entry lists: reading, removing and keeping entries, and the entries a
//! feed shows when the program starts.
use vstd::prelude::*;
use crate::db::data::{RssEntry, RssEntryView};
use crate::logic::action::{actions_view, push_action, show, silent_write, db_write, Action, ActionView, DbOp, DbOpView, Notice, NoticeKind, notice};
use crate::logic::data::{empty_list, entry_record, entry_of_record, EntryView, ListView, RssList, UiRssEntry};
use crate::logic::rss::{FAVORITE_UUID, UNREAD_UUID};
use crate::logic::store::{entries_view, entry_pos, has_url, is_entry_at, is_list_at, list_pos, contains_url, find_entry, Store, StoreView};
use crate::util::crypto::{md5_hex, md5_hex_of};
use crate::util::text::{is_ws, lemma_split_pieces, lemma_trim_shape, comma_pred, split_char, str_eq, string_of, strings_view, strip_bounds, strip_end, strip_start, to_chars, trim};

verus! {

pub open spec fn unread_id() -> Seq<char> {
    UNREAD_UUID@
}

pub open spec fn favorite_id() -> Seq<char> {
    FAVORITE_UUID@
}

/// Marking entry `uuid` of feed `suuid` as read: the first feed with that
/// uuid, its first entry with that uuid; an unread one becomes read, and
/// unless the feed is the unread feed its record is written back.
pub open spec fn set_read(st: StoreView, suuid: Seq<char>, uuid: Seq<char>) -> (StoreView, Seq<ActionView>) {
    match list_pos(st.lists, suuid) {
        None => (st, seq![]),
        Some(li) => {
            let m = st.lists[li].entry as int;
            match entry_pos(st.models[m], uuid) {
                None => (st, seq![]),
                Some(ei) => {
                    let e = st.models[m][ei];
                    if e.is_read {
                        (st, seq![])
                    } else {
                        let e2 = EntryView { is_read: true, ..e };
                        (
                            StoreView { models: st.models.update(m, st.models[m].update(ei, e2)), ..st },
                            if suuid == unread_id() {
                                seq![]
                            } else {
                                seq![db_write(DbOpView::UpdateEntry { suuid, uuid: e2.uuid, entry: entry_record(e2) }, "保存失败！"@)]
                            },
                        )
                    }
                },
            }
        },
    }
}

/// Only `is_read` flags change, from false to true: feeds, handles and the
/// length and other fields of every entry stay.
pub open spec fn only_marks(a: StoreView, b: StoreView) -> bool {
    &&& b.lists == a.lists
    &&& b.rss_entry == a.rss_entry
    &&& b.current == a.current
    &&& b.unread_count_flag == a.unread_count_flag
    &&& b.models.len() == a.models.len()
    &&& forall|m: int| 0 <= m < a.models.len() ==> #[trigger] b.models[m].len() == a.models[m].len()
    &&& forall|m: int, i: int| 0 <= m < a.models.len() && 0 <= i < a.models[m].len() ==>
        #[trigger] b.models[m][i] == (EntryView { is_read: b.models[m][i].is_read, ..a.models[m][i] })
            && (a.models[m][i].is_read ==> b.models[m][i].is_read)
}

pub proof fn lemma_set_read_marks(st: StoreView, suuid: Seq<char>, uuid: Seq<char>)
    requires
        st.wf(),
    ensures
        only_marks(st, set_read(st, suuid, uuid).0),
        set_read(st, suuid, uuid).0.wf(),
{
    let r = set_read(st, suuid, uuid).0;
    match list_pos(st.lists, suuid) {
        None => {},
        Some(li) => {
            let k = choose|i: int| is_list_at(st.lists, suuid, i);
            assert(is_list_at(st.lists, suuid, k));
            assert(st.lists[li].entry < st.models.len());
            let m = st.lists[li].entry as int;
            match entry_pos(st.models[m], uuid) {
                None => {},
                Some(ei) => {
                    let k2 = choose|i: int| is_entry_at(st.models[m], uuid, i);
                    assert(is_entry_at(st.models[m], uuid, k2));
                    assert forall|mm: int, i: int| 0 <= mm < st.models.len() && 0 <= i < st.models[mm].len() implies
                        #[trigger] r.models[mm][i] == (EntryView { is_read: r.models[mm][i].is_read, ..st.models[mm][i] })
                            && (st.models[mm][i].is_read ==> r.models[mm][i].is_read) by {
                    }
                },
            }
        },
    }
}

impl Store {
    /// Marks entry `uuid` of feed `suuid` as read (see [`set_read`]).
    pub fn set_read_entry(&mut self, suuid: &String, uuid: &String, actions: &mut Vec<Action>)
        requires
            old(self)@.wf(),
        ensures
            final(self)@.wf(),
            final(self)@ == set_read(old(self)@, suuid@, uuid@).0,
            actions_view(final(actions)@) == actions_view(old(actions)@) + set_read(old(self)@, suuid@, uuid@).1,
    {
        let ghost st = self@;
        match self.find_list(suuid) {
            None => {
                assert(actions_view(actions@) =~= actions_view(old(actions)@) + seq![]);
            },
            Some(li) => {
                assert(self@.lists[li as int].entry < self@.models.len());
                let m = self.rss_lists[li].entry;
                match find_entry(&self.models[m], uuid) {
                    None => {
                        assert(actions_view(actions@) =~= actions_view(old(actions)@) + seq![]);
                    },
                    Some(ei) => {
                        if self.models[m][ei].is_read {
                            assert(actions_view(actions@) =~= actions_view(old(actions)@) + seq![]);
                            return;
                        }
                        let mut e = self.models[m][ei].clone();
                        e.is_read = true;
                        if !str_eq(suuid.as_str(), UNREAD_UUID) {
                            let entry = RssEntry::from(&e);
                            push_action(actions, Action::Db {
                                op: DbOp::UpdateEntry { suuid: suuid.clone(), uuid: e.uuid.clone(), entry },
                                on_ok: None,
                                on_err: Some(Notice::new("保存失败！", NoticeKind::Warning)),
                                stop_on_err: false,
                            });
                        } else {
                            assert(actions_view(actions@) =~= actions_view(old(actions)@) + seq![]);
                        }
                        self.set_model_entry(m, ei, e);
                    },
                }
            },
        }
    }
}


/// The feed whose entry is marked, for an entry `e` of a pass: the feed the
/// entry came from when `by_feed` holds, `suuid` otherwise.
pub open spec fn pass_target(e: EntryView, suuid: Seq<char>, by_feed: bool) -> Seq<char> {
    if by_feed {
        e.suuid
    } else {
        suuid
    }
}

/// A pass over model `m` from position `i` (reading each position afresh,
/// as long as it is below `n` and the model's length) that marks each
/// unread entry read in the feed [`pass_target`] names.
pub open spec fn read_loop(st: StoreView, m: int, i: int, n: int, suuid: Seq<char>, by_feed: bool) -> (StoreView, Seq<ActionView>)
    decreases n - i,
{
    if i >= n || i >= st.models[m].len() {
        (st, seq![])
    } else {
        let e = st.models[m][i];
        if e.is_read {
            read_loop(st, m, i + 1, n, suuid, by_feed)
        } else {
            let r1 = set_read(st, pass_target(e, suuid, by_feed), e.uuid);
            let r2 = read_loop(r1.0, m, i + 1, n, suuid, by_feed);
            (r2.0, r1.1 + r2.1)
        }
    }
}

pub proof fn lemma_only_marks_trans(a: StoreView, b: StoreView, c: StoreView)
    requires
        only_marks(a, b),
        only_marks(b, c),
    ensures
        only_marks(a, c),
{
    assert forall|m: int, i: int| 0 <= m < a.models.len() && 0 <= i < a.models[m].len() implies
        #[trigger] c.models[m][i] == (EntryView { is_read: c.models[m][i].is_read, ..a.models[m][i] })
            && (a.models[m][i].is_read ==> c.models[m][i].is_read) by {
        assert(b.models[m][i] == (EntryView { is_read: b.models[m][i].is_read, ..a.models[m][i] }));
        assert(c.models[m][i] == (EntryView { is_read: c.models[m][i].is_read, ..b.models[m][i] }));
    }
}

pub proof fn lemma_only_marks_refl(a: StoreView)
    ensures
        only_marks(a, a),
{
}

pub proof fn lemma_read_loop_marks(st: StoreView, m: int, i: int, n: int, suuid: Seq<char>, by_feed: bool)
    requires
        st.wf(),
        0 <= m < st.models.len(),
    ensures
        only_marks(st, read_loop(st, m, i, n, suuid, by_feed).0),
        read_loop(st, m, i, n, suuid, by_feed).0.wf(),
    decreases n - i,
{
    if i >= n || i >= st.models[m].len() {
    } else {
        let e = st.models[m][i];
        if e.is_read {
            lemma_read_loop_marks(st, m, i + 1, n, suuid, by_feed);
        } else {
            let r1 = set_read(st, pass_target(e, suuid, by_feed), e.uuid);
            lemma_set_read_marks(st, pass_target(e, suuid, by_feed), e.uuid);
            lemma_read_loop_marks(r1.0, m, i + 1, n, suuid, by_feed);
            lemma_only_marks_trans(st, r1.0, read_loop(r1.0, m, i + 1, n, suuid, by_feed).0);
        }
    }
}

impl Store {
    /// Runs [`read_loop`] over all of model `m`.
    fn read_entries(&mut self, m: usize, suuid: &String, by_feed: bool, actions: &mut Vec<Action>)
        requires
            old(self)@.wf(),
            m < old(self)@.models.len(),
        ensures
            final(self)@ == read_loop(old(self)@, m as int, 0, old(self)@.models[m as int].len() as int, suuid@, by_feed).0,
            actions_view(final(actions)@) == actions_view(old(actions)@)
                + read_loop(old(self)@, m as int, 0, old(self)@.models[m as int].len() as int, suuid@, by_feed).1,
    {
        let ghost st0 = self@;
        let ghost acts0 = actions_view(actions@);
        let n = self.models[m].len();
        let ghost total = read_loop(st0, m as int, 0, n as int, suuid@, by_feed);
        let mut i: usize = 0;
        while i < self.models[m].len()
            invariant
                self@.wf(),
                m < self@.models.len(),
                self@.models[m as int].len() == n,
                self.models@.len() == self@.models.len(),
                i <= n,
                only_marks(st0, self@),
                total.0 == read_loop(self@, m as int, i as int, n as int, suuid@, by_feed).0,
                acts0 + total.1 == actions_view(actions@) + read_loop(self@, m as int, i as int, n as int, suuid@, by_feed).1,
            decreases n - i,
        {
            let ghost cur = self@;
            let ghost acts = actions_view(actions@);
            let ghost rest = read_loop(cur, m as int, i as int, n as int, suuid@, by_feed);
            assert(self.models@[m as int]@.len() == n);
            if !self.models[m][i].is_read {
                let target = if by_feed { self.models[m][i].suuid.clone() } else { suuid.clone() };
                let uuid = self.models[m][i].uuid.clone();
                let ghost r1 = set_read(cur, target@, uuid@);
                proof { lemma_set_read_marks(cur, target@, uuid@); }
                self.set_read_entry(&target, &uuid, actions);
                proof {
                    lemma_only_marks_trans(st0, cur, self@);
                    let r2 = read_loop(self@, m as int, i + 1, n as int, suuid@, by_feed);
                    assert(rest == (r2.0, r1.1 + r2.1));
                    assert(acts0 + total.1 =~= actions_view(actions@) + r2.1);
                }
            }
            i += 1;
        }
        assert(actions_view(actions@) + seq![] =~= actions_view(actions@));
    }

    /// Marks every unread entry on display as read in feed `suuid`.
    pub fn set_read_all_entry(&mut self, suuid: &String, actions: &mut Vec<Action>)
        requires
            old(self)@.wf(),
        ensures
            final(self)@.wf(),
            final(self)@ == read_loop(old(self)@, old(self)@.rss_entry as int, 0, old(self)@.shown().len() as int, suuid@, false).0,
            actions_view(final(actions)@) == actions_view(old(actions)@)
                + read_loop(old(self)@, old(self)@.rss_entry as int, 0, old(self)@.shown().len() as int, suuid@, false).1,
    {
        let m = self.rss_entry;
        proof { lemma_read_loop_marks(self@, m as int, 0, self@.shown().len() as int, suuid@, false); }
        self.read_entries(m, suuid, false, actions);
    }
}

/// Whether toggling the unread-count flags after "read all" of `suuid`
/// reaches feed `i`: every feed when `suuid` is the unread feed; otherwise
/// the unread feed and feed `suuid`, up to the first feed `suuid`.
pub open spec fn flip_visits(lists: Seq<ListView>, suuid: Seq<char>, i: int) -> bool {
    if suuid == unread_id() {
        true
    } else {
        &&& (lists[i].uuid == unread_id() || lists[i].uuid == suuid)
        &&& forall|j: int| 0 <= j < i ==> #[trigger] lists[j].uuid != suuid
    }
}

pub open spec fn flip_flags(lists: Seq<ListView>, suuid: Seq<char>) -> Seq<ListView> {
    Seq::new(
        lists.len(),
        |i: int|
            if flip_visits(lists, suuid, i) {
                ListView { unread_counts_flag: !lists[i].unread_counts_flag, ..lists[i] }
            } else {
                lists[i]
            },
    )
}

/// "Read all" of feed `suuid` (nothing for the favourite feed): each unread
/// entry of the feed is marked read where it also appears (in the feed it
/// came from when `suuid` is the unread feed, in the unread feed
/// otherwise), then each unread entry on display is marked read in `suuid`,
/// then the unread-count flags are toggled.
pub open spec fn read_all(st: StoreView, suuid: Seq<char>) -> (StoreView, Seq<ActionView>) {
    if suuid == favorite_id() {
        (st, seq![])
    } else {
        let r1 = match list_pos(st.lists, suuid) {
            None => (st, seq![]),
            Some(li) => read_loop(
                st,
                st.lists[li].entry as int,
                0,
                st.models[st.lists[li].entry as int].len() as int,
                unread_id(),
                suuid == unread_id(),
            ),
        };
        let r2 = read_loop(r1.0, r1.0.rss_entry as int, 0, r1.0.shown().len() as int, suuid, false);
        (
            StoreView {
                lists: flip_flags(r2.0.lists, suuid),
                unread_count_flag: !r2.0.unread_count_flag,
                ..r2.0
            },
            r1.1 + r2.1,
        )
    }
}

impl Store {
    fn flip_unread_flags(&mut self, suuid: &String)
        requires
            old(self)@.wf(),
        ensures
            final(self)@ == (StoreView { lists: flip_flags(old(self)@.lists, suuid@), ..old(self)@ }),
    {
        let ghost st0 = self@;
        let unread = str_eq(suuid.as_str(), UNREAD_UUID);
        let mut i: usize = 0;
        while i < self.rss_lists.len()
            invariant
                self.rss_lists.len() == st0.lists.len(),
                st0 == old(self)@,
                self@ == (StoreView { lists: self@.lists, ..st0 }),
                unread == (suuid@ == unread_id()),
                i <= st0.lists.len(),
                forall|j: int| 0 <= j < i ==> #[trigger] self@.lists[j] == flip_flags(st0.lists, suuid@)[j],
                forall|j: int| i <= j < st0.lists.len() ==> #[trigger] self@.lists[j] == st0.lists[j],
                !unread ==> forall|j: int| 0 <= j < i ==> #[trigger] st0.lists[j].uuid != suuid@,
            decreases st0.lists.len() - i,
        {
            assert(self@.lists[i as int] == self.rss_lists@[i as int]@);
            assert(self@.lists[i as int] == st0.lists[i as int]);
            let is_self = self.rss_lists[i].uuid == *suuid;
            assert(is_self == (st0.lists[i as int].uuid == suuid@));
            if unread || is_self || str_eq(self.rss_lists[i].uuid.as_str(), UNREAD_UUID) {
                let mut l = self.rss_lists[i].clone();
                l.unread_counts_flag = !l.unread_counts_flag;
                self.set_list(i, l);
            }
            if !unread && is_self {
                assert(self@.lists[i as int] == flip_flags(st0.lists, suuid@)[i as int]);
                assert forall|j: int| 0 <= j < st0.lists.len() implies #[trigger] self@.lists[j] == flip_flags(st0.lists, suuid@)[j] by {
                    if j > i {
                        assert(st0.lists[i as int].uuid == suuid@);
                        assert(!flip_visits(st0.lists, suuid@, j));
                    }
                }
                assert(self@.lists =~= flip_flags(st0.lists, suuid@));
                assert(self@ =~= (StoreView { lists: flip_flags(st0.lists, suuid@), ..st0 }));
                return;
            }
            i += 1;
        }
        assert(self@.lists =~= flip_flags(st0.lists, suuid@));
    }

    /// "Read all" of feed `suuid` (see [`read_all`]).
    pub fn on_set_read_all_entry(&mut self, suuid: &String, actions: &mut Vec<Action>)
        requires
            old(self)@.wf(),
        ensures
            final(self)@.wf(),
            final(self)@ == read_all(old(self)@, suuid@).0,
            actions_view(final(actions)@) == actions_view(old(actions)@) + read_all(old(self)@, suuid@).1,
    {
        if str_eq(suuid.as_str(), FAVORITE_UUID) {
            assert(actions_view(actions@) =~= actions_view(old(actions)@) + seq![]);
            return;
        }
        let ghost st0 = self@;
        let ghost acts0 = actions_view(actions@);
        match self.find_list(suuid) {
            None => {
                assert(actions_view(actions@) =~= actions_view(old(actions)@) + seq![]);
            },
            Some(li) => {
                assert(self@.lists[li as int].entry < self@.models.len());
                let m = self.rss_lists[li].entry;
                let by_feed = str_eq(suuid.as_str(), UNREAD_UUID);
                let target = UNREAD_UUID.to_owned();
                self.read_entries(m, &target, by_feed, actions);
            },
        }
        let ghost st1 = self@;
        let ghost acts1 = actions_view(actions@);
        proof {
            match list_pos(st0.lists, suuid@) {
                None => {},
                Some(li) => {
                    lemma_read_loop_marks(st0, st0.lists[li].entry as int, 0, st0.models[st0.lists[li].entry as int].len() as int, unread_id(), suuid@ == unread_id());
                },
            }
        }
        self.set_read_all_entry(suuid, actions);
        proof {
            lemma_read_loop_marks(st1, st1.rss_entry as int, 0, st1.shown().len() as int, suuid@, false);
        }
        self.unread_count_flag = !self.unread_count_flag;
        self.flip_unread_flags(suuid);
        assert(actions_view(actions@) =~= acts0 + read_all(st0, suuid@).1);
    }
}

/// Marking entry `uuid` as read from feed `suuid` (nothing for the
/// favourite feed). From the unread feed the entry is marked in the feed it
/// came from, then in the unread feed; from another feed, in the unread
/// feed, then in `suuid`.
pub open spec fn read_one(st: StoreView, suuid: Seq<char>, uuid: Seq<char>) -> (StoreView, Seq<ActionView>) {
    if suuid == favorite_id() {
        (st, seq![])
    } else if suuid == unread_id() {
        let r1 = match list_pos(st.lists, suuid) {
            None => (st, seq![]),
            Some(li) => {
                let m = st.lists[li].entry as int;
                match entry_pos(st.models[m], uuid) {
                    None => (st, seq![]),
                    Some(ei) => set_read(st, st.models[m][ei].suuid, uuid),
                }
            },
        };
        let r2 = set_read(r1.0, unread_id(), uuid);
        (r2.0, r1.1 + r2.1)
    } else {
        let r1 = set_read(st, unread_id(), uuid);
        let r2 = set_read(r1.0, suuid, uuid);
        (r2.0, r1.1 + r2.1)
    }
}

impl Store {
    /// Marks entry `uuid` as read from feed `suuid` (see [`read_one`]).
    pub fn on_set_read_entry(&mut self, suuid: &String, uuid: &String, actions: &mut Vec<Action>)
        requires
            old(self)@.wf(),
        ensures
            final(self)@.wf(),
            final(self)@ == read_one(old(self)@, suuid@, uuid@).0,
            actions_view(final(actions)@) == actions_view(old(actions)@) + read_one(old(self)@, suuid@, uuid@).1,
    {
        let ghost st0 = self@;
        let ghost acts0 = actions_view(actions@);
        if str_eq(suuid.as_str(), FAVORITE_UUID) {
            assert(actions_view(actions@) =~= acts0 + seq![]);
            return;
        }
        let unread = UNREAD_UUID.to_owned();
        if str_eq(suuid.as_str(), UNREAD_UUID) {
            match self.find_list(suuid) {
                None => {},
                Some(li) => {
                    assert(self@.lists[li as int].entry < self@.models.len());
                    let m = self.rss_lists[li].entry;
                    match find_entry(&self.models[m], uuid) {
                        None => {},
                        Some(ei) => {
                            let from = self.models[m][ei].suuid.clone();
                            self.set_read_entry(&from, uuid, actions);
                        },
                    }
                },
            }
            let ghost st1 = self@;
            let ghost acts1 = actions_view(actions@);
            proof {
                match list_pos(st0.lists, suuid@) {
                    None => { assert(acts1 =~= acts0 + seq![]); },
                    Some(li) => {
                        let m = st0.lists[li].entry as int;
                        match entry_pos(st0.models[m], uuid@) {
                            None => { assert(acts1 =~= acts0 + seq![]); },
                            Some(ei) => { lemma_set_read_marks(st0, st0.models[m][ei].suuid, uuid@); },
                        }
                    },
                }
            }
            self.set_read_entry(&unread, uuid, actions);
            assert(actions_view(actions@) =~= acts0 + read_one(st0, suuid@, uuid@).1);
        } else {
            self.set_read_entry(&unread, uuid, actions);
            proof { lemma_set_read_marks(st0, unread_id(), uuid@); }
            self.set_read_entry(suuid, uuid, actions);
            assert(actions_view(actions@) =~= acts0 + read_one(st0, suuid@, uuid@).1);
        }
    }
}

/// Removing entry `uuid` from feed `suuid`: the first feed with that uuid,
/// its first entry with that uuid leaves its model; unless the feed is the
/// unread feed, the entry is deleted from the database (reported either
/// way) and the digest of its link goes to the trash.
pub open spec fn remove(st: StoreView, suuid: Seq<char>, uuid: Seq<char>) -> (StoreView, Seq<ActionView>) {
    match list_pos(st.lists, suuid) {
        None => (st, seq![]),
        Some(li) => {
            let m = st.lists[li].entry as int;
            match entry_pos(st.models[m], uuid) {
                None => (st, seq![]),
                Some(ei) => {
                    let e = st.models[m][ei];
                    (
                        StoreView { models: st.models.update(m, st.models[m].remove(ei)), ..st },
                        if suuid == unread_id() {
                            seq![]
                        } else {
                            seq![
                                ActionView::Db {
                                    op: DbOpView::DeleteEntry { suuid, uuid },
                                    on_ok: Some(notice("删除成功！"@, NoticeKind::Success)),
                                    on_err: Some(notice("删除失败！"@, NoticeKind::Warning)),
                                    stop_on_err: false,
                                },
                                silent_write(DbOpView::InsertTrash { md5: md5_hex_of(e.url) }),
                            ]
                        },
                    )
                },
            }
        },
    }
}

/// Feeds, handles and flags stay; models only lose entries.
pub open spec fn only_shrinks(a: StoreView, b: StoreView) -> bool {
    &&& b.lists == a.lists
    &&& b.rss_entry == a.rss_entry
    &&& b.current == a.current
    &&& b.unread_count_flag == a.unread_count_flag
    &&& b.models.len() == a.models.len()
    &&& forall|m: int| 0 <= m < a.models.len() ==> #[trigger] b.models[m].len() <= a.models[m].len()
}

pub proof fn lemma_remove_shrinks(st: StoreView, suuid: Seq<char>, uuid: Seq<char>)
    requires
        st.wf(),
    ensures
        only_shrinks(st, remove(st, suuid, uuid).0),
        remove(st, suuid, uuid).0.wf(),
{
    match list_pos(st.lists, suuid) {
        None => {},
        Some(li) => {
            let k = choose|i: int| is_list_at(st.lists, suuid, i);
            assert(is_list_at(st.lists, suuid, k));
            assert(st.lists[li].entry < st.models.len());
            let m = st.lists[li].entry as int;
            match entry_pos(st.models[m], uuid) {
                None => {},
                Some(ei) => {
                    let k2 = choose|i: int| is_entry_at(st.models[m], uuid, i);
                    assert(is_entry_at(st.models[m], uuid, k2));
                },
            }
        },
    }
}

pub proof fn lemma_only_shrinks_trans(a: StoreView, b: StoreView, c: StoreView)
    requires
        only_shrinks(a, b),
        only_shrinks(b, c),
    ensures
        only_shrinks(a, c),
{
    assert forall|m: int| 0 <= m < a.models.len() implies #[trigger] c.models[m].len() <= a.models[m].len() by {
        assert(b.models[m].len() <= a.models[m].len());
        assert(c.models[m].len() <= b.models[m].len());
    }
}

/// A pass over model `m` from position `i` (reading each position afresh,
/// as long as it is below `n` and the model's length) that removes each
/// entry from the feed [`pass_target`] names.
pub open spec fn remove_loop(st: StoreView, m: int, i: int, n: int, suuid: Seq<char>, by_feed: bool) -> (StoreView, Seq<ActionView>)
    decreases n - i,
{
    if i >= n || i >= st.models[m].len() {
        (st, seq![])
    } else {
        let e = st.models[m][i];
        let r1 = remove(st, pass_target(e, suuid, by_feed), e.uuid);
        let r2 = remove_loop(r1.0, m, i + 1, n, suuid, by_feed);
        (r2.0, r1.1 + r2.1)
    }
}

pub proof fn lemma_remove_loop_shrinks(st: StoreView, m: int, i: int, n: int, suuid: Seq<char>, by_feed: bool)
    requires
        st.wf(),
        0 <= m < st.models.len(),
    ensures
        only_shrinks(st, remove_loop(st, m, i, n, suuid, by_feed).0),
        remove_loop(st, m, i, n, suuid, by_feed).0.wf(),
    decreases n - i,
{
    if i >= n || i >= st.models[m].len() {
    } else {
        let e = st.models[m][i];
        let r1 = remove(st, pass_target(e, suuid, by_feed), e.uuid);
        lemma_remove_shrinks(st, pass_target(e, suuid, by_feed), e.uuid);
        lemma_remove_loop_shrinks(r1.0, m, i + 1, n, suuid, by_feed);
        lemma_only_shrinks_trans(st, r1.0, remove_loop(r1.0, m, i + 1, n, suuid, by_feed).0);
    }
}

/// Clearing the entries on display: the digest of each one's link goes to
/// the trash, the model on display becomes empty, and unless `suuid` is
/// the unread feed its table is emptied (reported either way).
pub open spec fn remove_all(st: StoreView, suuid: Seq<char>) -> (StoreView, Seq<ActionView>) {
    (
        StoreView { models: st.models.update(st.rss_entry as int, seq![]), ..st },
        st.shown().map_values(|e: EntryView| silent_write(DbOpView::InsertTrash { md5: md5_hex_of(e.url) }))
            + if suuid == unread_id() {
            seq![]
        } else {
            seq![
                ActionView::Db {
                    op: DbOpView::DeleteAllEntries { suuid },
                    on_ok: Some(notice("清空成功！"@, NoticeKind::Success)),
                    on_err: Some(notice("清空失败！"@, NoticeKind::Warning)),
                    stop_on_err: false,
                },
            ]
        },
    )
}

/// "Remove all" of feed `suuid`: unless it is the favourite feed, each of
/// its entries is removed where it also appears (from the feed it came from
/// when `suuid` is the unread feed, from the unread feed otherwise); then
/// the entries on display are cleared.
pub open spec fn remove_all_of(st: StoreView, suuid: Seq<char>) -> (StoreView, Seq<ActionView>) {
    let r1 = if suuid == favorite_id() {
        (st, seq![])
    } else {
        match list_pos(st.lists, suuid) {
            None => (st, seq![]),
            Some(li) => remove_loop(
                st,
                st.lists[li].entry as int,
                0,
                st.models[st.lists[li].entry as int].len() as int,
                unread_id(),
                suuid == unread_id(),
            ),
        }
    };
    let r2 = remove_all(r1.0, suuid);
    (r2.0, r1.1 + r2.1)
}

/// Removing entry `uuid` from feed `suuid`. From the unread feed the entry
/// is removed from the feed it came from, then from the unread feed; from
/// another feed, from the unread feed (unless `suuid` is the favourite
/// feed), then from `suuid`.
pub open spec fn remove_one(st: StoreView, suuid: Seq<char>, uuid: Seq<char>) -> (StoreView, Seq<ActionView>) {
    if suuid == unread_id() {
        let r1 = match list_pos(st.lists, suuid) {
            None => (st, seq![]),
            Some(li) => {
                let m = st.lists[li].entry as int;
                match entry_pos(st.models[m], uuid) {
                    None => (st, seq![]),
                    Some(ei) => remove(st, st.models[m][ei].suuid, uuid),
                }
            },
        };
        let r2 = remove(r1.0, unread_id(), uuid);
        (r2.0, r1.1 + r2.1)
    } else {
        let r1 = if suuid != favorite_id() {
            remove(st, unread_id(), uuid)
        } else {
            (st, seq![])
        };
        let r2 = remove(r1.0, suuid, uuid);
        (r2.0, r1.1 + r2.1)
    }
}

impl Store {
    /// Removes entry `uuid` from feed `suuid` (see [`remove`]).
    pub fn remove_entry(&mut self, suuid: &String, uuid: &String, actions: &mut Vec<Action>)
        requires
            old(self)@.wf(),
        ensures
            final(self)@.wf(),
            final(self)@ == remove(old(self)@, suuid@, uuid@).0,
            actions_view(final(actions)@) == actions_view(old(actions)@) + remove(old(self)@, suuid@, uuid@).1,
    {
        let ghost acts0 = actions_view(actions@);
        match self.find_list(suuid) {
            None => {
                assert(actions_view(actions@) =~= acts0 + seq![]);
            },
            Some(li) => {
                assert(self@.lists[li as int].entry < self@.models.len());
                let m = self.rss_lists[li].entry;
                match find_entry(&self.models[m], uuid) {
                    None => {
                        assert(actions_view(actions@) =~= acts0 + seq![]);
                    },
                    Some(ei) => {
                        if !str_eq(suuid.as_str(), UNREAD_UUID) {
                            push_action(actions, Action::Db {
                                op: DbOp::DeleteEntry { suuid: suuid.clone(), uuid: uuid.clone() },
                                on_ok: Some(Notice::new("删除成功！", NoticeKind::Success)),
                                on_err: Some(Notice::new("删除失败！", NoticeKind::Warning)),
                                stop_on_err: false,
                            });
                            let md5 = md5_hex(self.models[m][ei].url.as_str());
                            push_action(actions, Action::Db {
                                op: DbOp::InsertTrash { md5 },
                                on_ok: None,
                                on_err: None,
                                stop_on_err: false,
                            });
                        }
                        let ghost before = self@;
                        self.remove_model_entry(m, ei);
                        assert(actions_view(actions@) =~= acts0 + remove(old(self)@, suuid@, uuid@).1);
                    },
                }
            },
        }
    }

    /// Runs [`remove_loop`] over model `m`.
    fn remove_entries(&mut self, m: usize, suuid: &String, by_feed: bool, actions: &mut Vec<Action>)
        requires
            old(self)@.wf(),
            m < old(self)@.models.len(),
        ensures
            final(self)@ == remove_loop(old(self)@, m as int, 0, old(self)@.models[m as int].len() as int, suuid@, by_feed).0,
            actions_view(final(actions)@) == actions_view(old(actions)@)
                + remove_loop(old(self)@, m as int, 0, old(self)@.models[m as int].len() as int, suuid@, by_feed).1,
    {
        let ghost st0 = self@;
        let ghost acts0 = actions_view(actions@);
        let n = self.models[m].len();
        let ghost total = remove_loop(st0, m as int, 0, n as int, suuid@, by_feed);
        let mut i: usize = 0;
        while i < self.models[m].len()
            invariant
                self@.wf(),
                m < self@.models.len(),
                self.models@.len() == self@.models.len(),
                self@.models[m as int].len() <= n,
                i <= n,
                total.0 == remove_loop(self@, m as int, i as int, n as int, suuid@, by_feed).0,
                acts0 + total.1 == actions_view(actions@) + remove_loop(self@, m as int, i as int, n as int, suuid@, by_feed).1,
            decreases n - i,
        {
            let ghost cur = self@;
            let ghost rest = remove_loop(cur, m as int, i as int, n as int, suuid@, by_feed);
            assert(self.models@[m as int]@.len() == cur.models[m as int].len());
            let target = if by_feed { self.models[m][i].suuid.clone() } else { suuid.clone() };
            let uuid = self.models[m][i].uuid.clone();
            let ghost r1 = remove(cur, target@, uuid@);
            proof { lemma_remove_shrinks(cur, target@, uuid@); }
            self.remove_entry(&target, &uuid, actions);
            proof {
                let r2 = remove_loop(self@, m as int, i + 1, n as int, suuid@, by_feed);
                assert(rest == (r2.0, r1.1 + r2.1));
                assert(acts0 + total.1 =~= actions_view(actions@) + r2.1);
            }
            i += 1;
        }
        assert(actions_view(actions@) + seq![] =~= actions_view(actions@));
    }

    /// Clears the entries on display (see [`remove_all`]).
    pub fn remove_all_entry(&mut self, suuid: &String, actions: &mut Vec<Action>)
        requires
            old(self)@.wf(),
        ensures
            final(self)@.wf(),
            final(self)@ == remove_all(old(self)@, suuid@).0,
            actions_view(final(actions)@) == actions_view(old(actions)@) + remove_all(old(self)@, suuid@).1,
    {
        let ghost st0 = self@;
        let ghost acts0 = actions_view(actions@);
        let m = self.rss_entry;
        let ghost trash = st0.shown().map_values(|e: EntryView| silent_write(DbOpView::InsertTrash { md5: md5_hex_of(e.url) }));
        let mut i: usize = 0;
        while i < self.models[m].len()
            invariant
                self@ == st0,
                m == st0.rss_entry,
                st0.wf(),
                self.models@.len() == st0.models.len(),
                self.models@[m as int]@.len() == st0.shown().len(),
                i <= st0.shown().len(),
                trash.len() == st0.shown().len(),
                trash == st0.shown().map_values(|e: EntryView| silent_write(DbOpView::InsertTrash { md5: md5_hex_of(e.url) })),
                actions_view(actions@) == acts0 + trash.take(i as int),
            decreases st0.shown().len() - i,
        {
            assert(self.models@[m as int]@[i as int]@ == st0.shown()[i as int]);
            let md5 = md5_hex(self.models[m][i].url.as_str());
            assert(trash[i as int] == silent_write(DbOpView::InsertTrash { md5: md5@ }));
            push_action(actions, Action::Db {
                op: DbOp::InsertTrash { md5 },
                on_ok: None,
                on_err: None,
                stop_on_err: false,
            });
            assert(trash.take(i + 1) =~= trash.take(i as int).push(trash[i as int]));
            i += 1;
        }
        assert(trash.take(i as int) =~= trash);
        self.clear_model(m);
        if !str_eq(suuid.as_str(), UNREAD_UUID) {
            push_action(actions, Action::Db {
                op: DbOp::DeleteAllEntries { suuid: suuid.clone() },
                on_ok: Some(Notice::new("清空成功！", NoticeKind::Success)),
                on_err: Some(Notice::new("清空失败！", NoticeKind::Warning)),
                stop_on_err: false,
            });
        }
        assert(actions_view(actions@) =~= acts0 + remove_all(st0, suuid@).1);
    }

    /// "Remove all" of feed `suuid` (see [`remove_all_of`]).
    pub fn on_remove_all_entry(&mut self, suuid: &String, actions: &mut Vec<Action>)
        requires
            old(self)@.wf(),
        ensures
            final(self)@.wf(),
            final(self)@ == remove_all_of(old(self)@, suuid@).0,
            actions_view(final(actions)@) == actions_view(old(actions)@) + remove_all_of(old(self)@, suuid@).1,
    {
        let ghost st0 = self@;
        let ghost acts0 = actions_view(actions@);
        if !str_eq(suuid.as_str(), FAVORITE_UUID) {
            match self.find_list(suuid) {
                None => {},
                Some(li) => {
                    assert(self@.lists[li as int].entry < self@.models.len());
                    let m = self.rss_lists[li].entry;
                    let by_feed = str_eq(suuid.as_str(), UNREAD_UUID);
                    let target = UNREAD_UUID.to_owned();
                    self.remove_entries(m, &target, by_feed, actions);
                    proof {
                        lemma_remove_loop_shrinks(st0, m as int, 0, st0.models[m as int].len() as int, unread_id(), by_feed);
                    }
                },
            }
        }
        let ghost acts1 = actions_view(actions@);
        assert(acts1 =~= acts0 + remove_all_of(st0, suuid@).1.take(acts1.len() - acts0.len())) by {
            if suuid@ == favorite_id() || list_pos(st0.lists, suuid@) is None {
                assert(acts1 =~= acts0);
            }
        }
        self.remove_all_entry(suuid, actions);
        assert(actions_view(actions@) =~= acts0 + remove_all_of(st0, suuid@).1);
    }

    /// Removes entry `uuid` from feed `suuid` (see [`remove_one`]).
    pub fn on_remove_entry(&mut self, suuid: &String, uuid: &String, actions: &mut Vec<Action>)
        requires
            old(self)@.wf(),
        ensures
            final(self)@.wf(),
            final(self)@ == remove_one(old(self)@, suuid@, uuid@).0,
            actions_view(final(actions)@) == actions_view(old(actions)@) + remove_one(old(self)@, suuid@, uuid@).1,
    {
        let ghost st0 = self@;
        let ghost acts0 = actions_view(actions@);
        let unread = UNREAD_UUID.to_owned();
        if str_eq(suuid.as_str(), UNREAD_UUID) {
            match self.find_list(suuid) {
                None => {},
                Some(li) => {
                    assert(self@.lists[li as int].entry < self@.models.len());
                    let m = self.rss_lists[li].entry;
                    match find_entry(&self.models[m], uuid) {
                        None => {},
                        Some(ei) => {
                            let from = self.models[m][ei].suuid.clone();
                            self.remove_entry(&from, uuid, actions);
                        },
                    }
                },
            }
            proof {
                match list_pos(st0.lists, suuid@) {
                    None => { assert(actions_view(actions@) =~= acts0 + seq![]); },
                    Some(li) => {
                        let m = st0.lists[li].entry as int;
                        match entry_pos(st0.models[m], uuid@) {
                            None => { assert(actions_view(actions@) =~= acts0 + seq![]); },
                            Some(ei) => { lemma_remove_shrinks(st0, st0.models[m][ei].suuid, uuid@); },
                        }
                    },
                }
            }
            self.remove_entry(&unread, uuid, actions);
            assert(actions_view(actions@) =~= acts0 + remove_one(st0, suuid@, uuid@).1);
        } else {
            if !str_eq(suuid.as_str(), FAVORITE_UUID) {
                self.remove_entry(&unread, uuid, actions);
                proof { lemma_remove_shrinks(st0, unread_id(), uuid@); }
            } else {
                assert(actions_view(actions@) =~= acts0 + seq![]);
            }
            self.remove_entry(suuid, uuid, actions);
            assert(actions_view(actions@) =~= acts0 + remove_one(st0, suuid@, uuid@).1);
        }
    }
}

/// The first feed with uuid `suuid`, or an empty feed when there is none.
pub open spec fn rsslist_of(lists: Seq<ListView>, suuid: Seq<char>) -> ListView {
    match list_pos(lists, suuid) {
        Some(i) => lists[i],
        None => empty_list(),
    }
}

/// The tags an entry of feed `suuid` keeps as a favourite: the feed's name
/// in front of the tags it had.
pub open spec fn favorite_tags(lists: Seq<ListView>, suuid: Seq<char>, tags: Seq<char>) -> Seq<char> {
    let name = rsslist_of(lists, suuid).name;
    if tags.len() == 0 {
        name
    } else {
        name + ","@ + tags
    }
}

/// Keeping entry `uuid` of the display as a favourite (nothing from the
/// favourite feed): the first entry on display with that uuid, read, with
/// the name of feed `suuid` in front of its tags unless `suuid` is the
/// unread feed, goes in front of the favourite feed's model and into its
/// table, unless an entry with the same link is there already.
pub open spec fn favorite(st: StoreView, suuid: Seq<char>, uuid: Seq<char>) -> (StoreView, Seq<ActionView>) {
    if suuid == favorite_id() {
        (st, seq![])
    } else {
        match entry_pos(st.shown(), uuid) {
            None => (st, seq![]),
            Some(ei) => {
                let e0 = st.shown()[ei];
                let e1 = if suuid != unread_id() {
                    EntryView { tags: favorite_tags(st.lists, suuid, e0.tags), ..e0 }
                } else {
                    e0
                };
                let e = EntryView { is_read: true, ..e1 };
                match list_pos(st.lists, favorite_id()) {
                    None => (st, seq![]),
                    Some(fi) => {
                        let fm = st.lists[fi].entry as int;
                        if has_url(st.models[fm], e.url) {
                            (st, seq![show("已经收藏！"@, NoticeKind::Info)])
                        } else {
                            (
                                StoreView { models: st.models.update(fm, st.models[fm].insert(0, e)), ..st },
                                seq![
                                    db_write(
                                        DbOpView::InsertEntry { suuid: favorite_id(), uuid: e.uuid, entry: entry_record(e) },
                                        "保存失败！"@,
                                    ),
                                    show("收藏成功！"@, NoticeKind::Success),
                                ],
                            )
                        }
                    },
                }
            },
        }
    }
}

impl Store {
    /// The first feed with uuid `suuid`, or an empty feed.
    pub fn get_rsslist(&self, suuid: &String) -> (r: RssList)
        ensures
            r@ == rsslist_of(self@.lists, suuid@),
    {
        match self.find_list(suuid) {
            Some(i) => self.rss_lists[i].clone(),
            None => RssList::default(),
        }
    }

    /// Keeps entry `uuid` as a favourite (see [`favorite`]).
    pub fn on_favorite_entry(&mut self, suuid: &String, uuid: &String, actions: &mut Vec<Action>)
        requires
            old(self)@.wf(),
        ensures
            final(self)@.wf(),
            final(self)@ == favorite(old(self)@, suuid@, uuid@).0,
            actions_view(final(actions)@) == actions_view(old(actions)@) + favorite(old(self)@, suuid@, uuid@).1,
    {
        let ghost st0 = self@;
        let ghost acts0 = actions_view(actions@);
        if str_eq(suuid.as_str(), FAVORITE_UUID) {
            assert(actions_view(actions@) =~= acts0 + seq![]);
            return;
        }
        let m = self.rss_entry;
        let ei = match find_entry(&self.models[m], uuid) {
            None => {
                assert(actions_view(actions@) =~= acts0 + seq![]);
                return;
            },
            Some(ei) => ei,
        };
        let mut entry = self.models[m][ei].clone();
        if !str_eq(suuid.as_str(), UNREAD_UUID) {
            let name = self.get_rsslist(suuid).name;
            if entry.tags.as_str().is_empty() {
                entry.tags = name;
            } else {
                let mut tags = name;
                tags.append(",");
                tags.append(entry.tags.as_str());
                entry.tags = tags;
            }
        }
        entry.is_read = true;
        let fav = FAVORITE_UUID.to_owned();
        match self.find_list(&fav) {
            None => {
                assert(actions_view(actions@) =~= acts0 + seq![]);
            },
            Some(fi) => {
                assert(self@.lists[fi as int].entry < self@.models.len());
                let fm = self.rss_lists[fi].entry;
                if contains_url(&self.models[fm], &entry.url) {
                    push_action(actions, Action::Show { notice: Notice::new("已经收藏！", NoticeKind::Info) });
                    assert(actions_view(actions@) =~= acts0 + favorite(st0, suuid@, uuid@).1);
                } else {
                    let record = RssEntry::from(&entry);
                    push_action(actions, Action::Db {
                        op: DbOp::InsertEntry { suuid: fav, uuid: entry.uuid.clone(), entry: record },
                        on_ok: None,
                        on_err: Some(Notice::new("保存失败！", NoticeKind::Warning)),
                        stop_on_err: false,
                    });
                    self.prepend_model_entry(fm, entry);
                    push_action(actions, Action::Show { notice: Notice::new("收藏成功！", NoticeKind::Success) });
                    assert(actions_view(actions@) =~= acts0 + favorite(st0, suuid@, uuid@).1);
                }
            },
        }
    }
}

/// Adding entry `entry` to feed `suuid` in front, shown as belonging to
/// `real_suuid`; when `suuid` is not the unread feed, only when the record
/// was `stored` in its table.
pub open spec fn add_new(st: StoreView, real_suuid: Seq<char>, suuid: Seq<char>, entry: RssEntryView, stored: bool) -> StoreView {
    if suuid != unread_id() && !stored {
        st
    } else {
        match list_pos(st.lists, suuid) {
            None => st,
            Some(li) => {
                let m = st.lists[li].entry as int;
                StoreView {
                    models: st.models.update(m, st.models[m].insert(0, EntryView { suuid: real_suuid, ..entry_of_record(entry) })),
                    ..st
                }
            },
        }
    }
}

/// The write that adding `entry` to feed `suuid` needs first: the record
/// goes into the feed's table unless the feed is the unread feed.
pub open spec fn add_new_write(suuid: Seq<char>, entry: RssEntryView) -> Option<DbOpView> {
    if suuid == unread_id() {
        None
    } else {
        Some(DbOpView::InsertEntry { suuid, uuid: entry.uuid, entry })
    }
}

pub open spec fn opt_op_view(o: Option<DbOp>) -> Option<DbOpView> {
    match o {
        Some(op) => Some(op@),
        None => None,
    }
}

/// The write that [`Store::update_new_entry`] of `entry` to feed `suuid`
/// needs before it; its outcome is the `stored` argument.
pub fn update_new_entry_write(suuid: &String, entry: &RssEntry) -> (r: Option<DbOp>)
    ensures
        opt_op_view(r) == add_new_write(suuid@, entry@),
{
    if str_eq(suuid.as_str(), UNREAD_UUID) {
        None
    } else {
        Some(DbOp::InsertEntry { suuid: suuid.clone(), uuid: entry.uuid.clone(), entry: entry.clone() })
    }
}

impl Store {
    /// Adds a new entry to feed `suuid` (see [`add_new`]).
    pub fn update_new_entry(&mut self, real_suuid: &String, suuid: &String, entry: RssEntry, stored: bool)
        requires
            old(self)@.wf(),
        ensures
            final(self)@ == add_new(old(self)@, real_suuid@, suuid@, entry@, stored),
            final(self)@.wf(),
    {
        proof { crate::logic::rss::lemma_add_new_wf(self@, real_suuid@, suuid@, entry@, stored); }
        if !str_eq(suuid.as_str(), UNREAD_UUID) && !stored {
            return;
        }
        match self.find_list(suuid) {
            None => {},
            Some(li) => {
                assert(self@.lists[li as int].entry < self@.models.len());
                let m = self.rss_lists[li].entry;
                let e = UiRssEntry {
                    uuid: entry.uuid,
                    url: entry.url,
                    title: entry.title,
                    pub_date: entry.pub_date,
                    tags: entry.tags,
                    is_read: entry.is_read,
                    suuid: real_suuid.clone(),
                };
                self.prepend_model_entry(m, e);
            },
        }
    }
}

/// Selects the unread entries.
pub open spec fn unread_filter() -> spec_fn(EntryView) -> bool {
    |e: EntryView| !e.is_read
}

/// Selects the read entries.
pub open spec fn read_filter() -> spec_fn(EntryView) -> bool {
    |e: EntryView| e.is_read
}

pub open spec fn default_entry() -> EntryView {
    EntryView {
        uuid: Seq::empty(),
        url: Seq::empty(),
        title: Seq::empty(),
        pub_date: Seq::empty(),
        tags: Seq::empty(),
        is_read: false,
        suuid: Seq::empty(),
    }
}

/// The entry shown for a stored row of feed `suuid`: the row's record with
/// the feed's uuid, or an empty entry for a row that could not be read.
pub open spec fn row_entry(suuid: Seq<char>, row: Option<RssEntryView>) -> EntryView {
    match row {
        Some(r) => EntryView { suuid, ..entry_of_record(r) },
        None => default_entry(),
    }
}

pub open spec fn rows_view(rows: Seq<Option<RssEntry>>) -> Seq<Option<RssEntryView>> {
    rows.map_values(|r: Option<RssEntry>|
        match r {
            Some(e) => Some(e@),
            None => None,
        })
}

/// The entries feed `suuid` shows when the program starts, from the rows
/// of its table (`None` when they could not be read): none for the unread
/// feed; otherwise the rows newest first, unread ones before read ones.
pub open spec fn db_entries(suuid: Seq<char>, rows: Option<Seq<Option<RssEntryView>>>) -> Seq<EntryView> {
    if suuid == unread_id() {
        seq![]
    } else {
        match rows {
            None => seq![],
            Some(rs) => {
                let es = rs.reverse().map_values(|r: Option<RssEntryView>| row_entry(suuid, r));
                es.filter(unread_filter()) + es.filter(read_filter())
            },
        }
    }
}

fn entry_of_row(suuid: &str, row: &Option<RssEntry>) -> (r: UiRssEntry)
    ensures
        r@ == row_entry(suuid@, match row { Some(e) => Some(e@), None => None }),
{
    match row {
        Some(e) => UiRssEntry {
            uuid: e.uuid.clone(),
            url: e.url.clone(),
            title: e.title.clone(),
            pub_date: e.pub_date.clone(),
            tags: e.tags.clone(),
            is_read: e.is_read,
            suuid: suuid.to_owned(),
        },
        None => UiRssEntry {
            uuid: String::new(),
            url: String::new(),
            title: String::new(),
            pub_date: String::new(),
            tags: String::new(),
            is_read: false,
            suuid: String::new(),
        },
    }
}

/// The entries feed `suuid` shows at start (see [`db_entries`]); `rows`
/// are the rows of its table in table order, each `None` where its JSON
/// could not be read, or `None` when the table could not be read.
pub fn get_from_db(suuid: &str, rows: &Option<Vec<Option<RssEntry>>>) -> (r: Vec<UiRssEntry>)
    ensures
        entries_view(r@) == db_entries(
            suuid@,
            match rows {
                Some(v) => Some(rows_view(v@)),
                None => None,
            },
        ),
{
    if str_eq(suuid, UNREAD_UUID) {
        let r: Vec<UiRssEntry> = Vec::new();
        assert(entries_view(r@) =~= seq![]);
        return r;
    }
    match rows {
        None => {
            let r: Vec<UiRssEntry> = Vec::new();
            assert(entries_view(r@) =~= seq![]);
            r
        },
        Some(v) => {
            let ghost rs = rows_view(v@);
            let ghost es = rs.reverse().map_values(|r: Option<RssEntryView>| row_entry(suuid@, r));
            let mut unread: Vec<UiRssEntry> = Vec::new();
            let mut read: Vec<UiRssEntry> = Vec::new();
            let n = v.len();
            let mut k: usize = 0;
            while k < n
                invariant
                    n == v@.len(),
                    rs == rows_view(v@),
                    es == rs.reverse().map_values(|r: Option<RssEntryView>| row_entry(suuid@, r)),
                    k <= n,
                    entries_view(unread@) == es.take(k as int).filter(unread_filter()),
                    entries_view(read@) == es.take(k as int).filter(read_filter()),
                decreases n - k,
            {
                let e = entry_of_row(suuid, &v[n - 1 - k]);
                assert(es[k as int] == e@);
                assert(es.take(k + 1) =~= es.take(k as int).push(e@));
                proof {
                    es.take(k as int).lemma_filter_push(e@, unread_filter());
                    es.take(k as int).lemma_filter_push(e@, read_filter());
                }
                if e.is_read {
                    let ghost ev = e@;
                    read.push(e);
                    assert(entries_view(read@) =~= es.take(k as int).filter(read_filter()).push(ev));
                } else {
                    let ghost ev = e@;
                    unread.push(e);
                    assert(entries_view(unread@) =~= es.take(k as int).filter(unread_filter()).push(ev));
                }
                k += 1;
            }
            assert(es.take(n as int) =~= es);
            let ghost uv = entries_view(unread@);
            let ghost rv = entries_view(read@);
            unread.append(&mut read);
            assert(entries_view(unread@) =~= uv + rv);
            unread
        },
    }
}

/// The number of unread entries of `entries`.
pub fn unread_counts(entries: &Vec<UiRssEntry>) -> (r: i32)
    requires
        entries_view(entries@).filter(unread_filter()).len() <= i32::MAX,
    ensures
        r == entries_view(entries@).filter(unread_filter()).len(),
{
    let ghost es = entries_view(entries@);
    let mut counts: i32 = 0;
    let mut i: usize = 0;
    while i < entries.len()
        invariant
            es == entries_view(entries@),
            es.filter(unread_filter()).len() <= i32::MAX,
            i <= entries@.len(),
            counts == es.take(i as int).filter(unread_filter()).len(),
        decreases entries@.len() - i,
    {
        assert(es.take(i + 1) =~= es.take(i as int).push(es[i as int]));
        proof {
            es.take(i as int).lemma_filter_push(es[i as int], unread_filter());
            es.lemma_filter_take_len(unread_filter(), i + 1);
        }
        if !entries[i].is_read {
            counts += 1;
        }
        i += 1;
    }
    assert(es.take(i as int) =~= es);
    counts
}

/// How a link is opened.
#[derive(Debug)]
pub enum OpenUrl {
    /// With the system's default browser.
    Default { url: String },
    /// By running the configured browser command with the link.
    Command { browser: String, url: String },
}

/// Opening `url`: with the configured `browser` command, or the default
/// browser when none is configured.
pub fn open_url(browser: &str, url: &str) -> (r: OpenUrl)
    ensures
        browser@.len() == 0 ==> (r matches OpenUrl::Default { url: u } && u@ == url@),
        browser@.len() != 0 ==> (r matches OpenUrl::Command { browser: b, url: u } && b@ == browser@ && u@ == url@),
{
    if browser.is_empty() {
        OpenUrl::Default { url: url.to_owned() }
    } else {
        OpenUrl::Command { browser: browser.to_owned(), url: url.to_owned() }
    }
}

pub open spec fn trim_fn() -> spec_fn(Seq<char>) -> Seq<char> {
    |x: Seq<char>| trim(x)
}

pub open spec fn nonempty_fn() -> spec_fn(Seq<char>) -> bool {
    |x: Seq<char>| x.len() > 0
}

/// The tags written in `text`: `text` trimmed and without leading and
/// trailing commas, split at each comma, each piece trimmed, empty pieces
/// left out.
pub open spec fn tag_list(text: Seq<char>) -> Seq<Seq<char>> {
    let t = strip_end(strip_start(trim(text), comma_pred()), comma_pred());
    split_char(t, ',').map_values(trim_fn()).filter(nonempty_fn())
}

/// Adds the trimmed `piece` to `out` unless it is empty.
fn push_tag(out: &mut Vec<String>, piece: &Vec<char>)
    ensures
        strings_view(final(out)@) == if trim(piece@).len() > 0 {
            strings_view(old(out)@).push(trim(piece@))
        } else {
            strings_view(old(out)@)
        },
{
    let (a, b) = strip_bounds(piece, 0, piece.len(), true);
    assert(piece@.subrange(0, piece@.len() as int) =~= piece@);
    if a < b {
        let t = string_of(piece, a, b);
        let ghost tv = t@;
        out.push(t);
        assert(strings_view(out@) =~= strings_view(old(out)@).push(tv));
    }
}

/// The tags written in `tags` (see [`tag_list`]).
pub fn parse_tags(tags: &str) -> (r: Vec<String>)
    ensures
        strings_view(r@) == tag_list(tags@),
{
    let v = to_chars(tags);
    let (a, b) = strip_bounds(&v, 0, v.len(), true);
    assert(v@.subrange(0, v@.len() as int) =~= v@);
    let (c, d) = strip_bounds(&v, a, b, false);
    let ghost region = v@.subrange(c as int, d as int);
    proof {
        let t1 = strip_start(v@.subrange(a as int, b as int), comma_pred());
        assert(region == strip_end(t1, comma_pred()));
    }
    let mut out: Vec<String> = Vec::new();
    let mut cur: Vec<char> = Vec::new();
    let ghost mut done: Seq<Seq<char>> = seq![];
    let mut k = c;
    assert(region.take(0) =~= Seq::<char>::empty());
    assert(split_char(Seq::<char>::empty(), ',') =~= done.push(cur@));
    while k < d
        invariant
            c <= k <= d <= v@.len(),
            region == v@.subrange(c as int, d as int),
            split_char(region.take(k - c), ',') == done.push(cur@),
            strings_view(out@) == done.map_values(trim_fn()).filter(nonempty_fn()),
        decreases d - k,
    {
        let ch = v[k];
        let ghost pre = region.take(k - c);
        assert(region.take(k + 1 - c) =~= pre.push(ch));
        assert(pre.push(ch).drop_last() =~= pre);
        if ch == ',' {
            proof {
                let x = cur@;
                assert(done.push(x).map_values(trim_fn()) =~= done.map_values(trim_fn()).push(trim(x)));
                done.map_values(trim_fn()).lemma_filter_push(trim(x), nonempty_fn());
            }
            push_tag(&mut out, &cur);
            proof {
                done = done.push(cur@);
            }
            cur = Vec::new();
            assert(split_char(region.take(k + 1 - c), ',') =~= done.push(cur@));
        } else {
            cur.push(ch);
            assert(split_char(region.take(k + 1 - c), ',') =~= done.push(cur@));
        }
        k += 1;
    }
    proof {
        let x = cur@;
        assert(region.take(d - c) =~= region);
        assert(done.push(x).map_values(trim_fn()) =~= done.map_values(trim_fn()).push(trim(x)));
        done.map_values(trim_fn()).lemma_filter_push(trim(x), nonempty_fn());
    }
    push_tag(&mut out, &cur);
    out
}

/// No two entries of `es` have the same uuid.
pub open spec fn distinct_uuids(es: Seq<EntryView>) -> bool {
    forall|i: int, j: int| 0 <= i < j < es.len() ==> (#[trigger] es[i]).uuid != (#[trigger] es[j]).uuid
}

/// No two entries of `es` link to the same place.
pub open spec fn distinct_urls(es: Seq<EntryView>) -> bool {
    forall|i: int, j: int| 0 <= i < j < es.len() ==> (#[trigger] es[i]).url != (#[trigger] es[j]).url
}

pub proof fn lemma_only_marks_keeps_uuids(a: StoreView, b: StoreView, m: int)
    requires
        only_marks(a, b),
        0 <= m < a.models.len(),
        distinct_uuids(a.models[m]),
    ensures
        distinct_uuids(b.models[m]),
{
    assert forall|i: int, j: int| 0 <= i < j < b.models[m].len() implies (#[trigger] b.models[m][i]).uuid != (#[trigger] b.models[m][j]).uuid by {
        assert(b.models[m][i] == (EntryView { is_read: b.models[m][i].is_read, ..a.models[m][i] }));
        assert(b.models[m][j] == (EntryView { is_read: b.models[m][j].is_read, ..a.models[m][j] }));
        assert(a.models[m][i].uuid != a.models[m][j].uuid);
    }
}

/// A pass that marks the display read in the display's own feed, when no
/// two of its entries share a uuid, leaves every entry read.
pub proof fn lemma_read_loop_reads_all(st: StoreView, m: int, i: int, n: int, suuid: Seq<char>, li: int)
    requires
        st.wf(),
        list_pos(st.lists, suuid) == Some(li),
        st.lists[li].entry == m,
        0 <= m < st.models.len(),
        n == st.models[m].len(),
        distinct_uuids(st.models[m]),
        0 <= i <= n,
        forall|j: int| 0 <= j < i ==> (#[trigger] st.models[m][j]).is_read,
    ensures
        forall|j: int| 0 <= j < n ==> (#[trigger] read_loop(st, m, i, n, suuid, false).0.models[m][j]).is_read,
    decreases n - i,
{
    if i >= n {
    } else {
        let e = st.models[m][i];
        if e.is_read {
            assert forall|j: int| 0 <= j < i + 1 implies (#[trigger] st.models[m][j]).is_read by {}
            lemma_read_loop_reads_all(st, m, i + 1, n, suuid, li);
            assert(read_loop(st, m, i, n, suuid, false) == read_loop(st, m, i + 1, n, suuid, false));
        } else {
            assert(is_entry_at(st.models[m], e.uuid, i)) by {
                assert forall|j: int| 0 <= j < i implies #[trigger] st.models[m][j].uuid != e.uuid by {
                    assert(st.models[m][j].uuid != st.models[m][i].uuid);
                }
            }
            crate::logic::store::lemma_entry_pos(st.models[m], e.uuid, i);
            let st1 = set_read(st, suuid, e.uuid).0;
            lemma_set_read_marks(st, suuid, e.uuid);
            lemma_only_marks_keeps_uuids(st, st1, m);
            assert(st1.models[m][i].is_read);
            assert forall|j: int| 0 <= j < i + 1 implies (#[trigger] st1.models[m][j]).is_read by {
                if j < i {
                    assert(st.models[m][j].is_read);
                }
            }
            lemma_read_loop_reads_all(st1, m, i + 1, n, suuid, li);
            assert(pass_target(e, suuid, false) == suuid);
            assert(read_loop(st, m, i, n, suuid, false).0 == read_loop(st1, m, i + 1, n, suuid, false).0);
        }
    }
}

/// "Read all" of a feed other than the favourite one, while that feed is
/// on display and no two of its entries share a uuid, leaves every entry on
/// display read.
pub proof fn law_read_all_reads_display(st: StoreView, suuid: Seq<char>)
    requires
        st.wf(),
        suuid != favorite_id(),
        list_pos(st.lists, suuid) is Some,
        st.lists[list_pos(st.lists, suuid)->0].entry == st.rss_entry,
        distinct_uuids(st.shown()),
    ensures
        forall|j: int| 0 <= j < read_all(st, suuid).0.shown().len() ==> (#[trigger] read_all(st, suuid).0.shown()[j]).is_read,
{
    let li = list_pos(st.lists, suuid)->0;
    let m = st.rss_entry as int;
    let r1 = read_loop(st, m, 0, st.models[m].len() as int, unread_id(), suuid == unread_id());
    lemma_read_loop_marks(st, m, 0, st.models[m].len() as int, unread_id(), suuid == unread_id());
    lemma_only_marks_keeps_uuids(st, r1.0, m);
    let n = r1.0.models[m].len() as int;
    assert(r1.0.lists == st.lists);
    assert(r1.0.rss_entry == st.rss_entry);
    lemma_read_loop_reads_all(r1.0, m, 0, n, suuid, li);
    let r2 = read_loop(r1.0, m, 0, n, suuid, false);
    lemma_read_loop_marks(r1.0, m, 0, n, suuid, false);
    assert(st.lists[li].entry as int == m);
    assert(r1.0.shown().len() == n);
    assert(read_all(st, suuid).0.models == r2.0.models);
    assert(read_all(st, suuid).0.rss_entry == st.rss_entry);
}

/// Marking an entry read changes nothing but read flags, and never unmarks
/// an entry.
pub proof fn law_read_one_only_marks(st: StoreView, suuid: Seq<char>, uuid: Seq<char>)
    requires
        st.wf(),
    ensures
        only_marks(st, read_one(st, suuid, uuid).0),
{
    if suuid == favorite_id() {
        lemma_only_marks_refl(st);
    } else if suuid == unread_id() {
        let r1 = match list_pos(st.lists, suuid) {
            None => (st, seq![]),
            Some(li) => {
                let m = st.lists[li].entry as int;
                match entry_pos(st.models[m], uuid) {
                    None => (st, seq![]),
                    Some(ei) => set_read(st, st.models[m][ei].suuid, uuid),
                }
            },
        };
        match list_pos(st.lists, suuid) {
            None => lemma_only_marks_refl(st),
            Some(li) => {
                let m = st.lists[li].entry as int;
                match entry_pos(st.models[m], uuid) {
                    None => lemma_only_marks_refl(st),
                    Some(ei) => lemma_set_read_marks(st, st.models[m][ei].suuid, uuid),
                }
            },
        }
        lemma_set_read_marks(r1.0, unread_id(), uuid);
        lemma_only_marks_trans(st, r1.0, set_read(r1.0, unread_id(), uuid).0);
    } else {
        let r1 = set_read(st, unread_id(), uuid);
        lemma_set_read_marks(st, unread_id(), uuid);
        lemma_set_read_marks(r1.0, suuid, uuid);
        lemma_only_marks_trans(st, r1.0, set_read(r1.0, suuid, uuid).0);
    }
}

/// None of `acts` empties an entry table.
pub open spec fn empties_no_table(acts: Seq<ActionView>) -> bool {
    forall|k: int| 0 <= k < acts.len() ==>
        !((#[trigger] acts[k]) matches ActionView::Db { op: DbOpView::DeleteAllEntries { .. }, .. })
}

proof fn lemma_empties_no_table_concat(a: Seq<ActionView>, b: Seq<ActionView>)
    requires
        empties_no_table(a),
        empties_no_table(b),
    ensures
        empties_no_table(a + b),
{
    assert forall|k: int| 0 <= k < (a + b).len() implies
        !((#[trigger] (a + b)[k]) matches ActionView::Db { op: DbOpView::DeleteAllEntries { .. }, .. }) by {
        if k < a.len() {
            assert((a + b)[k] == a[k]);
        } else {
            assert((a + b)[k] == b[k - a.len()]);
        }
    }
}

proof fn lemma_remove_loop_empties_no_table(st: StoreView, m: int, i: int, n: int, suuid: Seq<char>, by_feed: bool)
    ensures
        empties_no_table(remove_loop(st, m, i, n, suuid, by_feed).1),
    decreases n - i,
{
    if i >= n || i >= st.models[m].len() {
    } else {
        let e = st.models[m][i];
        let r1 = remove(st, pass_target(e, suuid, by_feed), e.uuid);
        lemma_remove_loop_empties_no_table(r1.0, m, i + 1, n, suuid, by_feed);
        lemma_empties_no_table_concat(r1.1, remove_loop(r1.0, m, i + 1, n, suuid, by_feed).1);
    }
}

/// "Remove all" of any feed but the unread one (the favourite feed
/// included) ends by emptying that feed's table, reported either way, and
/// leaves nothing on display; for the unread feed no table is emptied.
pub proof fn law_remove_all_empties_table(st: StoreView, suuid: Seq<char>)
    requires
        st.wf(),
    ensures
        remove_all_of(st, suuid).0.shown() == Seq::<EntryView>::empty(),
        suuid != unread_id() ==> remove_all_of(st, suuid).1.len() > 0
            && remove_all_of(st, suuid).1.last() == (ActionView::Db {
                op: DbOpView::DeleteAllEntries { suuid },
                on_ok: Some(notice("清空成功！"@, NoticeKind::Success)),
                on_err: Some(notice("清空失败！"@, NoticeKind::Warning)),
                stop_on_err: false,
            }),
        suuid == unread_id() ==> empties_no_table(remove_all_of(st, suuid).1),
{
    let r1 = if suuid == favorite_id() {
        (st, seq![])
    } else {
        match list_pos(st.lists, suuid) {
            None => (st, seq![]),
            Some(li) => remove_loop(
                st,
                st.lists[li].entry as int,
                0,
                st.models[st.lists[li].entry as int].len() as int,
                unread_id(),
                suuid == unread_id(),
            ),
        }
    };
    if suuid != favorite_id() {
        match list_pos(st.lists, suuid) {
            None => {},
            Some(li) => {
                let k = choose|i: int| is_list_at(st.lists, suuid, i);
                assert(is_list_at(st.lists, suuid, k));
                assert(st.lists[li].entry < st.models.len());
                lemma_remove_loop_shrinks(st, st.lists[li].entry as int, 0,
                    st.models[st.lists[li].entry as int].len() as int, unread_id(), suuid == unread_id());
            },
        }
    }
    assert(r1.0.wf());
    let r2 = remove_all(r1.0, suuid);
    let r = remove_all_of(st, suuid);
    assert(r.1 == r1.1 + r2.1);
    assert(r.0.shown() =~= Seq::<EntryView>::empty());
    if suuid == unread_id() {
        if suuid != favorite_id() {
            match list_pos(st.lists, suuid) {
                None => {},
                Some(li) => {
                    lemma_remove_loop_empties_no_table(st, st.lists[li].entry as int, 0,
                        st.models[st.lists[li].entry as int].len() as int, unread_id(), true);
                },
            }
        }
        let trash = r1.0.shown().map_values(|e: EntryView| silent_write(DbOpView::InsertTrash { md5: md5_hex_of(e.url) }));
        assert(r2.1 =~= trash);
        assert(empties_no_table(r2.1)) by {
            assert forall|k: int| 0 <= k < r2.1.len() implies
                !((#[trigger] r2.1[k]) matches ActionView::Db { op: DbOpView::DeleteAllEntries { .. }, .. }) by {
                assert(r2.1[k] == trash[k]);
            }
        }
        lemma_empties_no_table_concat(r1.1, r2.1);
    } else {
        assert((r1.1 + r2.1).last() == r2.1.last());
    }
}

/// Removing an entry found in a feed other than the unread feed (the
/// favourite feed included) takes it out of that feed's model and ends with
/// deleting it from that feed's table, reported either way, then putting
/// the digest of its link in the trash. (The feed's model must not be the
/// unread feed's: the unread feed's removal would take the entry first.)
pub proof fn law_remove_deletes_entry(st: StoreView, suuid: Seq<char>, uuid: Seq<char>)
    requires
        st.wf(),
        suuid != unread_id(),
        (list_pos(st.lists, suuid) is Some),
        (entry_pos(st.models[st.lists[list_pos(st.lists, suuid)->0].entry as int], uuid) is Some),
        list_pos(st.lists, unread_id()) matches Some(u)
            ==> st.lists[u].entry != st.lists[list_pos(st.lists, suuid)->0].entry,
    ensures
        ({
            let m = st.lists[list_pos(st.lists, suuid)->0].entry as int;
            let ei = entry_pos(st.models[m], uuid)->0;
            let e = st.models[m][ei];
            let r = remove_one(st, suuid, uuid);
            &&& r.0.models[m] == st.models[m].remove(ei)
            &&& r.1.len() >= 2
            &&& r.1[r.1.len() - 2] == (ActionView::Db {
                op: DbOpView::DeleteEntry { suuid, uuid },
                on_ok: Some(notice("删除成功！"@, NoticeKind::Success)),
                on_err: Some(notice("删除失败！"@, NoticeKind::Warning)),
                stop_on_err: false,
            })
            &&& r.1[r.1.len() - 1] == silent_write(DbOpView::InsertTrash { md5: md5_hex_of(e.url) })
        }),
{
    let li = list_pos(st.lists, suuid)->0;
    let k = choose|i: int| is_list_at(st.lists, suuid, i);
    assert(is_list_at(st.lists, suuid, k));
    let m = st.lists[li].entry as int;
    assert(0 <= m < st.models.len());
    let r1 = if suuid != favorite_id() {
        remove(st, unread_id(), uuid)
    } else {
        (st, seq![])
    };
    if suuid != favorite_id() {
        match list_pos(st.lists, unread_id()) {
            None => {},
            Some(u) => {
                let k2 = choose|i: int| is_list_at(st.lists, unread_id(), i);
                assert(is_list_at(st.lists, unread_id(), k2));
                let mu = st.lists[u].entry as int;
                match entry_pos(st.models[mu], uuid) {
                    None => {},
                    Some(_) => {
                        assert(r1.0.models[m] == st.models[m]);
                    },
                }
            },
        }
    }
    assert(r1.0.lists == st.lists);
    assert(r1.0.models[m] == st.models[m]);
    let r2 = remove(r1.0, suuid, uuid);
    let r = remove_one(st, suuid, uuid);
    assert(r.1 == r1.1 + r2.1);
    assert(r2.1.len() == 2);
}

/// Removing entries never adds one and changes no feed.
pub proof fn law_removals_only_shrink(st: StoreView, suuid: Seq<char>, uuid: Seq<char>)
    requires
        st.wf(),
    ensures
        only_shrinks(st, remove_one(st, suuid, uuid).0),
        only_shrinks(st, remove_all_of(st, suuid).0),
{
    if suuid == unread_id() {
        let r1 = match list_pos(st.lists, suuid) {
            None => (st, seq![]),
            Some(li) => {
                let m = st.lists[li].entry as int;
                match entry_pos(st.models[m], uuid) {
                    None => (st, seq![]),
                    Some(ei) => remove(st, st.models[m][ei].suuid, uuid),
                }
            },
        };
        match list_pos(st.lists, suuid) {
            None => {},
            Some(li) => {
                let m = st.lists[li].entry as int;
                match entry_pos(st.models[m], uuid) {
                    None => {},
                    Some(ei) => lemma_remove_shrinks(st, st.models[m][ei].suuid, uuid),
                }
            },
        }
        lemma_remove_shrinks(r1.0, unread_id(), uuid);
        lemma_only_shrinks_trans(st, r1.0, remove(r1.0, unread_id(), uuid).0);
    } else {
        let r1 = if suuid != favorite_id() { remove(st, unread_id(), uuid) } else { (st, seq![]) };
        if suuid != favorite_id() {
            lemma_remove_shrinks(st, unread_id(), uuid);
        }
        lemma_remove_shrinks(r1.0, suuid, uuid);
        lemma_only_shrinks_trans(st, r1.0, remove(r1.0, suuid, uuid).0);
    }
    let r1 = if suuid == favorite_id() {
        (st, seq![])
    } else {
        match list_pos(st.lists, suuid) {
            None => (st, seq![]),
            Some(li) => remove_loop(st, st.lists[li].entry as int, 0, st.models[st.lists[li].entry as int].len() as int, unread_id(), suuid == unread_id()),
        }
    };
    if suuid != favorite_id() {
        match list_pos(st.lists, suuid) {
            None => {},
            Some(li) => {
                let k = choose|i: int| crate::logic::store::is_list_at(st.lists, suuid, i);
                assert(crate::logic::store::is_list_at(st.lists, suuid, k));
                lemma_remove_loop_shrinks(st, st.lists[li].entry as int, 0, st.models[st.lists[li].entry as int].len() as int, unread_id(), suuid == unread_id());
            },
        }
    }
    let r2 = remove_all(r1.0, suuid).0;
    assert(only_shrinks(r1.0, r2));
    lemma_only_shrinks_trans(st, r1.0, r2);
}

/// Keeping an entry as a favourite never gives the favourite feed two
/// entries with the same link.
pub proof fn law_favorite_links_distinct(st: StoreView, suuid: Seq<char>, uuid: Seq<char>)
    requires
        st.wf(),
        list_pos(st.lists, favorite_id()) is Some,
        distinct_urls(st.models[st.lists[list_pos(st.lists, favorite_id())->0].entry as int]),
    ensures
        distinct_urls(favorite(st, suuid, uuid).0.models[st.lists[list_pos(st.lists, favorite_id())->0].entry as int]),
{
    let fi = list_pos(st.lists, favorite_id())->0;
    let k = choose|i: int| crate::logic::store::is_list_at(st.lists, favorite_id(), i);
    assert(crate::logic::store::is_list_at(st.lists, favorite_id(), k));
    let fm = st.lists[fi].entry as int;
    let r = favorite(st, suuid, uuid).0;
    if r.models[fm] != st.models[fm] {
        let ei = entry_pos(st.shown(), uuid)->0;
        let e0 = st.shown()[ei];
        let e1 = if suuid != unread_id() {
            EntryView { tags: favorite_tags(st.lists, suuid, e0.tags), ..e0 }
        } else {
            e0
        };
        let e = EntryView { is_read: true, ..e1 };
        assert(!has_url(st.models[fm], e.url));
        assert(r.models[fm] == st.models[fm].insert(0, e));
        assert forall|i: int, j: int| 0 <= i < j < r.models[fm].len() implies (#[trigger] r.models[fm][i]).url != (#[trigger] r.models[fm][j]).url by {
            if i == 0 {
                assert(r.models[fm][j] == st.models[fm][j - 1]);
            } else {
                assert(r.models[fm][i] == st.models[fm][i - 1]);
                assert(r.models[fm][j] == st.models[fm][j - 1]);
            }
        }
    }
}

/// The entries a feed shows at start: no read entry comes before an
/// unread one.
pub proof fn law_db_entries_unread_first(suuid: Seq<char>, rows: Option<Seq<Option<RssEntryView>>>)
    ensures
        forall|i: int, j: int| 0 <= i < j < db_entries(suuid, rows).len() && (#[trigger] db_entries(suuid, rows)[i]).is_read
            ==> (#[trigger] db_entries(suuid, rows)[j]).is_read,
{
    if suuid != unread_id() {
        match rows {
            None => {},
            Some(rs) => {
                let es = rs.reverse().map_values(|r: Option<RssEntryView>| row_entry(suuid, r));
                let u = es.filter(unread_filter());
                let rd = es.filter(read_filter());
                let r = u + rd;
                assert forall|i: int, j: int| 0 <= i < j < r.len() && (#[trigger] r[i]).is_read implies (#[trigger] r[j]).is_read by {
                    if i < u.len() {
                        es.lemma_filter_pred(unread_filter(), i);
                        assert(!u[i].is_read);
                    }
                    if j >= u.len() {
                        es.lemma_filter_pred(read_filter(), j - u.len());
                    } else {
                        es.lemma_filter_pred(unread_filter(), i);
                    }
                }
            },
        }
    }
}

/// Every tag is non-empty, holds no comma and has no whitespace at either
/// end.
pub proof fn law_tags_clean(text: Seq<char>)
    ensures
        forall|i: int| 0 <= i < tag_list(text).len() ==> {
            let t = #[trigger] tag_list(text)[i];
            &&& t.len() > 0
            &&& !t.contains(',')
            &&& !is_ws(t[0])
            &&& !is_ws(t.last())
        },
{
    let t0 = strip_end(strip_start(trim(text), comma_pred()), comma_pred());
    let pieces = split_char(t0, ',');
    let trimmed = pieces.map_values(trim_fn());
    lemma_split_pieces(t0, ',');
    assert forall|i: int| 0 <= i < tag_list(text).len() implies {
        let t = #[trigger] tag_list(text)[i];
        &&& t.len() > 0
        &&& !t.contains(',')
        &&& !is_ws(t[0])
        &&& !is_ws(t.last())
    } by {
        let t = tag_list(text)[i];
        trimmed.lemma_filter_pred(nonempty_fn(), i);
        assert(trimmed.filter(nonempty_fn()).contains(t));
        trimmed.lemma_filter_contains_rev(nonempty_fn(), t);
        let j = choose|j: int| 0 <= j < trimmed.len() && trimmed[j] == t;
        assert(t == trim(pieces[j]));
        lemma_trim_shape(pieces[j]);
        assert(!pieces[j].contains(','));
    }
}
} // verus!
