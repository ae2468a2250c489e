//! The feed list: its startup, the feed dialog's actions, marking,
//! switching, deleting and syncing feeds.
use vstd::prelude::*;
use crate::db::data::{RssConfig, RssConfigView, RssEntry, RssEntryView};
use crate::logic::action::{actions_view, notice, push_action, Action, ActionView, DbOp, DbOpView, Notice, NoticeKind};
use crate::logic::data::{config_of_list, empty_list, list_of_form, sync_item_of, EntryView, ListView, RssList, SyncItem, SyncItemView, UiRssConfig, UiRssConfigView, UiRssEntry};
use crate::logic::entry::{add_new, add_new_write, opt_op_view, db_entries, favorite_id, get_from_db, rows_view, unread_counts, unread_filter, unread_id};
use crate::logic::store::{contains_url, entries_view, has_url, lists_view, list_pos, opt_int, Store, StoreView};
use crate::util::ident::{is_v4_uuid_text, new_uuid};
use crate::util::feed::{feed_items_of, feed_items_view, read_feed, FeedItemView};
use crate::util::text::{chars_lt, lemma_seq_lt_irreflexive, lemma_seq_lt_transitive, lowercase_of, seq_lt, str_eq, to_chars, to_lowercase};

verus! {

/// The feed that gathers the unread entries of all feeds.
pub const UNREAD_UUID: &'static str = "unread-uuid";

/// The feed that holds the entries the user marked as favourite.
pub const FAVORITE_UUID: &'static str = "favorite-uuid";


/// Where a feed goes in the feed list: the unread feed first, then the
/// favourite feed, then marked feeds, then the others.
pub open spec fn rank(l: ListView) -> int {
    if l.uuid == unread_id() {
        0
    } else if l.uuid == favorite_id() {
        1
    } else if l.is_mark {
        2
    } else {
        3
    }
}

/// The key the feed list is ordered by: the rank and, among marked and
/// among other feeds, the lowercase name.
pub open spec fn list_key(l: ListView) -> (int, Seq<char>) {
    (rank(l), if rank(l) >= 2 { lowercase_of(l.name) } else { Seq::empty() })
}

pub open spec fn key_lt(a: (int, Seq<char>), b: (int, Seq<char>)) -> bool {
    a.0 < b.0 || (a.0 == b.0 && seq_lt(a.1, b.1))
}

/// No feed has a smaller key than a feed before it.
pub open spec fn lists_sorted(s: Seq<ListView>) -> bool {
    forall|i: int, j: int| 0 <= i < j < s.len() ==> !key_lt(list_key(#[trigger] s[j]), list_key(#[trigger] s[i]))
}

/// The feeds of `s` with key `k`, in order.
pub open spec fn with_key(s: Seq<ListView>, k: (int, Seq<char>)) -> Seq<ListView> {
    s.filter(|l: ListView| list_key(l) == k)
}

/// `out` is `input` sorted by key, feeds with equal keys in their order in
/// `input` (what a stable sort gives).
pub open spec fn stable_sorted(input: Seq<ListView>, out: Seq<ListView>) -> bool {
    &&& lists_sorted(out)
    &&& out.len() == input.len()
    &&& forall|k: (int, Seq<char>)| #[trigger] with_key(out, k) == with_key(input, k)
}

pub proof fn lemma_key_lt_irreflexive(a: (int, Seq<char>))
    ensures
        !key_lt(a, a),
{
    lemma_seq_lt_irreflexive(a.1);
}

pub proof fn lemma_key_lt_transitive(a: (int, Seq<char>), b: (int, Seq<char>), c: (int, Seq<char>))
    requires
        key_lt(a, b),
        key_lt(b, c),
    ensures
        key_lt(a, c),
{
    if a.0 == b.0 && b.0 == c.0 {
        lemma_seq_lt_transitive(a.1, b.1, c.1);
    }
}

pub proof fn lemma_with_key_push(s: Seq<ListView>, x: ListView, k: (int, Seq<char>))
    ensures
        with_key(s.push(x), k) == if list_key(x) == k { with_key(s, k).push(x) } else { with_key(s, k) },
{
    s.lemma_filter_push(x, |l: ListView| list_key(l) == k);
}

pub proof fn lemma_with_key_none(s: Seq<ListView>, k: (int, Seq<char>))
    requires
        forall|i: int| 0 <= i < s.len() ==> list_key(#[trigger] s[i]) != k,
    ensures
        with_key(s, k) == Seq::<ListView>::empty(),
    decreases s.len(),
{
    if s.len() == 0 {
        reveal(Seq::filter);
    } else {
        let t = s.drop_last();
        assert(t.push(s.last()) =~= s);
        assert forall|i: int| 0 <= i < t.len() implies list_key(#[trigger] t[i]) != k by {
            assert(t[i] == s[i]);
        }
        lemma_with_key_none(t, k);
        lemma_with_key_push(t, s.last(), k);
    }
}

pub proof fn lemma_with_key_add(a: Seq<ListView>, b: Seq<ListView>, k: (int, Seq<char>))
    ensures
        with_key(a + b, k) == with_key(a, k) + with_key(b, k),
{
    Seq::filter_distributes_over_add(a, b, |l: ListView| list_key(l) == k);
}

/// Inserting `x` after the feeds whose keys are not above its own keeps a
/// sorted list sorted and files `x` last among the feeds with its key.
pub proof fn lemma_insert_sorted(out: Seq<ListView>, x: ListView, p: int)
    requires
        lists_sorted(out),
        0 <= p <= out.len(),
        forall|j: int| 0 <= j < p ==> !key_lt(list_key(x), list_key(#[trigger] out[j])),
        p < out.len() ==> key_lt(list_key(x), list_key(out[p])),
    ensures
        lists_sorted(out.insert(p, x)),
        forall|k: (int, Seq<char>)| #[trigger] with_key(out.insert(p, x), k) == with_key(out.push(x), k),
{
    let r = out.insert(p, x);
    let kx = list_key(x);
    assert forall|i: int, j: int| 0 <= i < j < r.len() implies !key_lt(list_key(#[trigger] r[j]), list_key(#[trigger] r[i])) by {
        if j < p {
            assert(r[i] == out[i] && r[j] == out[j]);
        } else if j == p {
            assert(r[j] == x && r[i] == out[i]);
        } else if i > p {
            assert(r[i] == out[i - 1] && r[j] == out[j - 1]);
        } else if i == p {
            assert(r[i] == x && r[j] == out[j - 1]);
            let kp = list_key(out[p]);
            if key_lt(list_key(out[j - 1]), kx) {
                if j - 1 == p {
                    lemma_key_lt_transitive(kp, kx, kp);
                    lemma_key_lt_irreflexive(kp);
                } else {
                    lemma_key_lt_transitive(list_key(out[j - 1]), kx, kp);
                    assert(!key_lt(list_key(out[j - 1]), list_key(out[p])));
                }
            }
        } else {
            assert(r[i] == out[i] && r[j] == out[j - 1]);
        }
    }
    assert forall|k: (int, Seq<char>)| #[trigger] with_key(out.insert(p, x), k) == with_key(out.push(x), k) by {
        let a = out.take(p);
        let b = out.skip(p);
        assert(r =~= a + seq![x] + b);
        assert(out =~= a + b);
        lemma_with_key_add(a + seq![x], b, k);
        lemma_with_key_add(a, seq![x], k);
        lemma_with_key_add(a, b, k);
        assert(seq![x] =~= Seq::<ListView>::empty().push(x));
        lemma_with_key_push(Seq::<ListView>::empty(), x, k);
        lemma_with_key_none(Seq::<ListView>::empty(), k);
        lemma_with_key_push(out, x, k);
        if k == kx {
            assert forall|i: int| 0 <= i < b.len() implies list_key(#[trigger] b[i]) != k by {
                assert(b[i] == out[p + i]);
                if i == 0 {
                    lemma_key_lt_irreflexive(kx);
                } else {
                    if list_key(out[p + i]) == kx {
                        assert(!key_lt(list_key(out[p + i]), list_key(out[p])));
                    }
                }
            }
            lemma_with_key_none(b, k);
            assert(with_key(r, k) =~= with_key(out, k).push(x));
        } else {
            assert(with_key(r, k) =~= with_key(out, k));
        }
    }
}

/// The key of a feed as the sort computes it.
struct SortKey {
    rank: u8,
    name: Vec<char>,
}

impl SortKey {
    spec fn key(&self) -> (int, Seq<char>) {
        (self.rank as int, self.name@)
    }
}

fn key_of(l: &RssList) -> (r: SortKey)
    ensures
        r.key() == list_key(l@),
{
    if str_eq(l.uuid.as_str(), UNREAD_UUID) {
        SortKey { rank: 0, name: Vec::new() }
    } else if str_eq(l.uuid.as_str(), FAVORITE_UUID) {
        SortKey { rank: 1, name: Vec::new() }
    } else {
        let lower = to_lowercase(l.name.as_str());
        let name = to_chars(lower.as_str());
        SortKey { rank: if l.is_mark { 2 } else { 3 }, name }
    }
}

fn key_less(a: &SortKey, b: &SortKey) -> (r: bool)
    ensures
        r == key_lt(a.key(), b.key()),
{
    a.rank < b.rank || (a.rank == b.rank && chars_lt(&a.name, &b.name))
}

/// The feeds ordered for the feed list: by [`list_key`], stably.
pub fn sort_rss_lists(lists: &Vec<RssList>) -> (r: Vec<RssList>)
    ensures
        stable_sorted(lists_view(lists@), lists_view(r@)),
{
    let ghost input = lists_view(lists@);
    let mut out: Vec<RssList> = Vec::new();
    let mut keys: Vec<SortKey> = Vec::new();
    let mut i: usize = 0;
    assert(input.take(0) =~= Seq::<ListView>::empty());
    assert(lists_view(out@) =~= Seq::<ListView>::empty());
    while i < lists.len()
        invariant
            input == lists_view(lists@),
            i <= lists@.len(),
            out@.len() == i,
            keys@.len() == out@.len(),
            forall|j: int| 0 <= j < keys@.len() ==> #[trigger] keys@[j].key() == list_key(lists_view(out@)[j]),
            lists_sorted(lists_view(out@)),
            forall|k: (int, Seq<char>)| #[trigger] with_key(lists_view(out@), k) == with_key(input.take(i as int), k),
        decreases lists@.len() - i,
    {
        let x = lists[i].clone();
        let kx = key_of(&x);
        let ghost ov = lists_view(out@);
        let mut p: usize = 0;
        while p < keys.len() && !key_less(&kx, &keys[p])
            invariant
                p <= keys@.len(),
                keys@.len() == ov.len(),
                forall|j: int| 0 <= j < keys@.len() ==> #[trigger] keys@[j].key() == list_key(ov[j]),
                forall|j: int| 0 <= j < p ==> !key_lt(kx.key(), list_key(#[trigger] ov[j])),
            decreases keys@.len() - p,
        {
            assert(keys@[p as int].key() == list_key(ov[p as int]));
            p += 1;
        }
        proof {
            if p < keys@.len() {
                assert(keys@[p as int].key() == list_key(ov[p as int]));
            }
            lemma_insert_sorted(ov, x@, p as int);
            assert(input.take(i + 1) =~= input.take(i as int).push(x@));
            assert forall|k: (int, Seq<char>)| #[trigger] with_key(ov.push(x@), k) == with_key(input.take(i + 1), k) by {
                lemma_with_key_push(ov, x@, k);
                lemma_with_key_push(input.take(i as int), x@, k);
            }
        }
        let ghost xv = x@;
        let ghost kv = keys@;
        out.insert(p, x);
        keys.insert(p, kx);
        assert(lists_view(out@) =~= ov.insert(p as int, xv));
        assert forall|j: int| 0 <= j < keys@.len() implies #[trigger] keys@[j].key() == list_key(lists_view(out@)[j]) by {
            if j < p {
            } else if j == p {
            } else {
                assert(keys@[j] == kv[j - 1]);
            }
        }
        i += 1;
    }
    assert(input.take(i as int) =~= input);
    out
}

/// The write that records a feed the database does not hold yet; a failure
/// is reported and stops the writes that follow.
pub open spec fn record_feed(l: ListView) -> ActionView {
    ActionView::Db {
        op: DbOpView::InsertRss { uuid: l.uuid, config: config_of_list(l) },
        on_ok: None,
        on_err: Some(notice("出错！"@, NoticeKind::Warning)),
        stop_on_err: true,
    }
}

/// The writes that make the database hold each feed of `lists`: one for
/// each feed `i` that `exists[i]` does not say it holds.
pub open spec fn init_db_actions(lists: Seq<ListView>, exists: Seq<bool>) -> Seq<ActionView>
    decreases lists.len(),
{
    if lists.len() == 0 {
        seq![]
    } else {
        init_db_actions(lists.drop_last(), exists.drop_last()) + if exists.last() {
            seq![]
        } else {
            seq![record_feed(lists.last())]
        }
    }
}

impl Store {
    /// The writes that record the feeds of the list that the database does
    /// not hold; `exists[i]` tells whether it holds feed `i` (false where
    /// the query failed).
    pub fn init_db(&self, exists: &Vec<bool>) -> (r: Vec<Action>)
        requires
            exists@.len() == self.rss_lists@.len(),
        ensures
            actions_view(r@) == init_db_actions(self@.lists, exists@),
    {
        let ghost lists = self@.lists;
        let mut r: Vec<Action> = Vec::new();
        let mut i: usize = 0;
        assert(actions_view(r@) =~= init_db_actions(lists.take(0), exists@.take(0)));
        while i < self.rss_lists.len()
            invariant
                lists == self@.lists,
                exists@.len() == lists.len(),
                i <= lists.len(),
                actions_view(r@) == init_db_actions(lists.take(i as int), exists@.take(i as int)),
            decreases lists.len() - i,
        {
            assert(lists.take(i + 1).drop_last() =~= lists.take(i as int));
            assert(exists@.take(i + 1).drop_last() =~= exists@.take(i as int));
            if !exists[i] {
                let l = &self.rss_lists[i];
                push_action(&mut r, Action::Db {
                    op: DbOp::InsertRss { uuid: l.uuid.clone(), config: RssConfig::from(l) },
                    on_ok: None,
                    on_err: Some(Notice::new("出错！", NoticeKind::Warning)),
                    stop_on_err: true,
                });
            }
            assert(actions_view(r@) =~= init_db_actions(lists.take(i + 1), exists@.take(i + 1)));
            i += 1;
        }
        assert(lists.take(i as int) =~= lists);
        assert(exists@.take(i as int) =~= exists@);
        r
    }
}

/// A row of the `rss` table: a feed's uuid, its configuration (`None`
/// where the JSON could not be read) and the rows of its entry table.
#[derive(Debug)]
pub struct RssRow {
    pub uuid: String,
    pub config: Option<RssConfig>,
    pub entries: Option<Vec<Option<RssEntry>>>,
}

pub struct RssRowView {
    pub uuid: Seq<char>,
    pub config: Option<RssConfigView>,
    pub entries: Option<Seq<Option<RssEntryView>>>,
}

impl View for RssRow {
    type V = RssRowView;

    open spec fn view(&self) -> RssRowView {
        RssRowView {
            uuid: self.uuid@,
            config: match self.config {
                Some(c) => Some(c@),
                None => None,
            },
            entries: match self.entries {
                Some(v) => Some(rows_view(v@)),
                None => None,
            },
        }
    }
}

/// The unread entries of a feed row are few enough for an `i32` count.
pub open spec fn row_fits(r: RssRow) -> bool {
    r@.config is Some ==> db_entries(r@.uuid, r@.entries).filter(unread_filter()).len() <= i32::MAX
}

pub open spec fn rss_rows_view(v: Seq<RssRow>) -> Seq<RssRowView> {
    v.map_values(|r: RssRow| r@)
}

/// What reading the feed rows gathers: the feeds, the models (the ones
/// there were and one per feed), the handle of the model on display and
/// the unread entries.
pub struct InitAcc {
    pub lists: Seq<ListView>,
    pub models: Seq<Seq<EntryView>>,
    pub rss_entry: nat,
    pub unread: Seq<EntryView>,
}

/// `es` with tags `name`.
pub open spec fn tagged(es: Seq<EntryView>, name: Seq<char>) -> Seq<EntryView> {
    es.map_values(|e: EntryView| EntryView { tags: name, ..e })
}

/// The feed of a row with configuration `c` whose entries are `es`, held
/// in model `h`.
pub open spec fn list_of_row(uuid: Seq<char>, c: RssConfigView, es: Seq<EntryView>, h: nat) -> ListView {
    ListView {
        uuid,
        name: c.name,
        url: c.url,
        icon_index: c.icon_index,
        use_proxy: c.use_proxy,
        is_mark: c.is_mark,
        update_time: c.update_time,
        unread_count: es.filter(unread_filter()).len() as i32,
        entry: h,
        ..empty_list()
    }
}

/// Reading one row: a row whose configuration could not be read is left
/// out; otherwise its entries get a new model, its feed joins the list (the
/// unread feed's model goes on display) and its unread entries, tagged with
/// the feed's name, join the unread ones.
pub open spec fn init_step(acc: InitAcc, row: RssRowView) -> InitAcc {
    match row.config {
        None => acc,
        Some(c) => {
            let es = db_entries(row.uuid, row.entries);
            let h = acc.models.len();
            InitAcc {
                lists: acc.lists.push(list_of_row(row.uuid, c, es, h)),
                models: acc.models.push(es),
                rss_entry: if row.uuid == unread_id() { h } else { acc.rss_entry },
                unread: acc.unread + tagged(es.filter(unread_filter()), c.name),
            }
        },
    }
}

pub open spec fn init_fold(models: Seq<Seq<EntryView>>, rss_entry: nat, rows: Seq<RssRowView>) -> InitAcc
    decreases rows.len(),
{
    if rows.len() == 0 {
        InitAcc { lists: seq![], models, rss_entry, unread: seq![] }
    } else {
        init_step(init_fold(models, rss_entry, rows.drop_last()), rows.last())
    }
}

impl Store {
    /// Builds the feed list from the rows of the `rss` table, or leaves the
    /// store as it is where the table could not be read (`None`).
    pub fn init_rss(&mut self, rows: &Option<Vec<RssRow>>)
        requires
            old(self)@.wf(),
            rows matches Some(rs) ==> forall|i: int| 0 <= i < rs@.len() ==> row_fits(#[trigger] rs@[i]),
        ensures
            final(self)@.wf(),
            match rows {
                None => final(self)@ == old(self)@,
                Some(rs) => {
                    let acc = init_fold(old(self)@.models, old(self)@.rss_entry, rss_rows_view(rs@));
                    &&& stable_sorted(acc.lists, final(self)@.lists)
                    &&& final(self)@.models == acc.models.update(acc.rss_entry as int, acc.unread)
                    &&& final(self)@.rss_entry == acc.rss_entry
                    &&& final(self)@.current == old(self)@.current
                    &&& final(self)@.unread_count_flag == old(self)@.unread_count_flag
                },
            },
    {
        match rows {
            None => {},
            Some(rs) => self.init_from_rows(rs),
        }
    }

    /// Builds the feed list from the rows of the `rss` table (see
    /// [`init_step`]), orders it (see [`stable_sorted`]) and puts the unread
    /// entries in the model on display.
    fn init_from_rows(&mut self, rows: &Vec<RssRow>)
        requires
            old(self)@.wf(),
            forall|i: int| 0 <= i < rows@.len() ==> row_fits(#[trigger] rows@[i]),
        ensures
            final(self)@.wf(),
            ({
                let acc = init_fold(old(self)@.models, old(self)@.rss_entry, rss_rows_view(rows@));
                &&& stable_sorted(acc.lists, final(self)@.lists)
                &&& final(self)@.models == acc.models.update(acc.rss_entry as int, acc.unread)
                &&& final(self)@.rss_entry == acc.rss_entry
                &&& final(self)@.current == old(self)@.current
                &&& final(self)@.unread_count_flag == old(self)@.unread_count_flag
            }),
    {
        let ghost st0 = self@;
        let ghost rv = rss_rows_view(rows@);
        let mut lists: Vec<RssList> = Vec::new();
        let mut unread: Vec<UiRssEntry> = Vec::new();
        let mut i: usize = 0;
        assert(rv.take(0) =~= Seq::<RssRowView>::empty());
        assert(lists_view(lists@) =~= Seq::<ListView>::empty());
        assert(entries_view(unread@) =~= Seq::<EntryView>::empty());
        while i < rows.len()
            invariant
                rv == rss_rows_view(rows@),
                i <= rows@.len(),
                forall|j: int| 0 <= j < rows@.len() ==> row_fits(#[trigger] rows@[j]),
                self@.lists == st0.lists,
                self@.current == st0.current,
                self@.unread_count_flag == st0.unread_count_flag,
                self.models@.len() == self@.models.len(),
                ({
                    let acc = init_fold(st0.models, st0.rss_entry, rv.take(i as int));
                    &&& lists_view(lists@) == acc.lists
                    &&& self@.models == acc.models
                    &&& self@.rss_entry == acc.rss_entry
                    &&& entries_view(unread@) == acc.unread
                    &&& acc.rss_entry < acc.models.len()
                }),
            decreases rows@.len() - i,
        {
            let ghost acc = init_fold(st0.models, st0.rss_entry, rv.take(i as int));
            assert(rv.take(i + 1).drop_last() =~= rv.take(i as int));
            assert(rv.take(i + 1).last() == rows@[i as int]@);
            let row = &rows[i];
            let es = get_from_db(row.uuid.as_str(), &row.entries);
            match &row.config {
                None => {},
                Some(c) => {
                    let ghost ev = entries_view(es@);
                    assert(row_fits(rows@[i as int]));
                    let count = unread_counts(&es);
                    let mut j: usize = 0;
                    let ghost u0 = entries_view(unread@);
                    assert(ev.take(0) =~= Seq::<EntryView>::empty());
                    assert(tagged(ev.take(0).filter(unread_filter()), c.name@) =~= Seq::<EntryView>::empty()) by {
                        reveal(Seq::filter);
                    }
                    while j < es.len()
                        invariant
                            ev == entries_view(es@),
                            j <= es@.len(),
                            entries_view(unread@) == u0 + tagged(ev.take(j as int).filter(unread_filter()), c.name@),
                        decreases es@.len() - j,
                    {
                        assert(ev.take(j + 1) =~= ev.take(j as int).push(ev[j as int]));
                        proof { ev.take(j as int).lemma_filter_push(ev[j as int], unread_filter()); }
                        if !es[j].is_read {
                            let mut e = es[j].clone();
                            e.tags = c.name.clone();
                            let ghost e_v = e@;
                            let ghost before = entries_view(unread@);
                            unread.push(e);
                            assert(entries_view(unread@) =~= before.push(e_v));
                            assert(tagged(ev.take(j + 1).filter(unread_filter()), c.name@) =~= tagged(ev.take(j as int).filter(unread_filter()), c.name@).push(e_v));
                            assert(entries_view(unread@) =~= u0 + tagged(ev.take(j + 1).filter(unread_filter()), c.name@));
                        }
                        j += 1;
                    }
                    assert(ev.take(j as int) =~= ev);
                    let h = self.models.len();
                    self.models.push(es);
                    assert(self@.models =~= acc.models.push(ev));
                    if str_eq(row.uuid.as_str(), UNREAD_UUID) {
                        self.rss_entry = h;
                    }
                    let l = RssList {
                        uuid: row.uuid.clone(),
                        name: c.name.clone(),
                        url: c.url.clone(),
                        icon_index: c.icon_index,
                        use_proxy: c.use_proxy,
                        is_mark: c.is_mark,
                        update_time: c.update_time.clone(),
                        feed_format: String::new(),
                        unread_count: count,
                        unread_counts_flag: false,
                        entry: h,
                    };
                    let ghost lv = l@;
                    lists.push(l);
                    assert(lists_view(lists@) =~= acc.lists.push(lv));
                },
            }
            i += 1;
        }
        assert(rv.take(i as int) =~= rv);
        let ghost acc = init_fold(st0.models, st0.rss_entry, rv);
        let sorted = sort_rss_lists(&lists);
        let m = self.rss_entry;
        let ghost uv = entries_view(unread@);
        self.models.set(m, unread);
        assert(self@.models =~= acc.models.update(acc.rss_entry as int, uv));
        self.rss_lists = sorted;
        proof { lemma_init_handles(st0.models, st0.rss_entry, rv); }
        assert forall|k: int| 0 <= k < self@.lists.len() implies #[trigger] self@.lists[k].entry < self@.models.len() by {
            lemma_sorted_member(acc.lists, self@.lists, k);
        }
    }
}

pub proof fn lemma_init_handles(models: Seq<Seq<EntryView>>, rss_entry: nat, rows: Seq<RssRowView>)
    requires
        rss_entry < models.len(),
    ensures
        ({
            let acc = init_fold(models, rss_entry, rows);
            &&& acc.rss_entry < acc.models.len()
            &&& forall|i: int| 0 <= i < acc.lists.len() ==> #[trigger] acc.lists[i].entry < acc.models.len()
        }),
    decreases rows.len(),
{
    if rows.len() > 0 {
        lemma_init_handles(models, rss_entry, rows.drop_last());
    }
}

/// A feed of a stable sort of `input` is a feed of `input`.
pub proof fn lemma_sorted_member(input: Seq<ListView>, out: Seq<ListView>, k: int)
    requires
        stable_sorted(input, out),
        0 <= k < out.len(),
    ensures
        input.contains(out[k]),
{
    let x = out[k];
    let p = |l: ListView| list_key(l) == list_key(x);
    out.lemma_filter_contains(p, k);
    assert(with_key(out, list_key(x)) == with_key(input, list_key(x)));
    input.lemma_filter_contains_rev(p, x);
}

/// The feed dialog filled in from feed `l`.
pub open spec fn form_of_list(l: ListView) -> UiRssConfigView {
    UiRssConfigView {
        uuid: l.uuid,
        name: l.name,
        url: l.url,
        use_proxy: l.use_proxy,
        icon_index: l.icon_index,
        feed_format: Seq::empty(),
    }
}

/// A feed with `name`, `url`, `use_proxy` and `icon_index` from the dialog.
pub open spec fn edited(l: ListView, c: UiRssConfigView) -> ListView {
    ListView { name: c.name, url: c.url, use_proxy: c.use_proxy, icon_index: c.icon_index, ..l }
}

/// A failed write that is reported and stops what follows.
pub open spec fn guarded(op: DbOpView, ok_key: Option<Seq<char>>, err_key: Seq<char>) -> ActionView {
    ActionView::Db {
        op,
        on_ok: match ok_key {
            Some(k) => Some(notice(k, NoticeKind::Success)),
            None => None,
        },
        on_err: Some(notice(err_key, NoticeKind::Warning)),
        stop_on_err: true,
    }
}

/// The write that saving form `c` for feed `uuid` asks for: the edited
/// configuration of the first feed with that uuid, reported either way.
pub open spec fn save_write(st: StoreView, uuid: Seq<char>, c: UiRssConfigView) -> Option<ActionView> {
    match list_pos(st.lists, uuid) {
        Some(i) => Some(guarded(
            DbOpView::UpdateRss { uuid, config: config_of_list(edited(st.lists[i], c)) },
            Some("保存成功！"@),
            "保存失败！"@,
        )),
        None => None,
    }
}

/// The state after saving form `c` into feed `uuid`, when the write was
/// `saved`.
pub open spec fn saved_rss(st: StoreView, uuid: Seq<char>, c: UiRssConfigView, saved: bool) -> StoreView {
    match list_pos(st.lists, uuid) {
        Some(i) if saved => StoreView { lists: st.lists.update(i, edited(st.lists[i], c)), ..st },
        _ => st,
    }
}

pub open spec fn opt_action_view(a: Option<Action>) -> Option<ActionView> {
    match a {
        Some(x) => Some(x@),
        None => None,
    }
}

impl Store {
    /// The feed dialog for feed `uuid` (the first feed with that uuid).
    pub fn on_set_rss_dialog(&self, uuid: &String) -> (r: Option<UiRssConfig>)
        ensures
            match list_pos(self@.lists, uuid@) {
                Some(i) => r matches Some(c) && c@ == form_of_list(self@.lists[i]),
                None => r is None,
            },
    {
        match self.find_list(uuid) {
            None => None,
            Some(i) => {
                let l = &self.rss_lists[i];
                Some(UiRssConfig {
                    uuid: uuid.clone(),
                    name: l.name.clone(),
                    url: l.url.clone(),
                    use_proxy: l.use_proxy,
                    icon_index: l.icon_index,
                    feed_format: String::new(),
                })
            },
        }
    }
}

/// A new feed from the dialog's form with a fresh uuid, and the writes that
/// record it: its configuration, then its entry table; a failure of either
/// is reported and stops what follows. Once both succeeded,
/// [`Store::on_new_rss`] adds it.
pub fn new_rss_request(config: UiRssConfig) -> (r: (RssList, Vec<Action>))
    ensures
        r.0@ == (ListView { uuid: r.0@.uuid, ..list_of_form(config@) }),
        is_v4_uuid_text(r.0@.uuid),
        actions_view(r.1@) == seq![
            guarded(DbOpView::InsertRss { uuid: r.0@.uuid, config: config_of_list(r.0@) }, None, "新建失败！"@),
            guarded(DbOpView::CreateEntryTable { suuid: r.0@.uuid }, None, "新建失败！"@),
        ],
{
    let mut rss = RssList::from(config);
    rss.uuid = new_uuid();
    let mut actions: Vec<Action> = Vec::new();
    push_action(&mut actions, Action::Db {
        op: DbOp::InsertRss { uuid: rss.uuid.clone(), config: RssConfig::from(&rss) },
        on_ok: None,
        on_err: Some(Notice::new("新建失败！", NoticeKind::Warning)),
        stop_on_err: true,
    });
    push_action(&mut actions, Action::Db {
        op: DbOp::CreateEntryTable { suuid: rss.uuid.clone() },
        on_ok: None,
        on_err: Some(Notice::new("新建失败！", NoticeKind::Warning)),
        stop_on_err: true,
    });
    assert(actions_view(actions@) =~= seq![
        guarded(DbOpView::InsertRss { uuid: rss@.uuid, config: config_of_list(rss@) }, None, "新建失败！"@),
        guarded(DbOpView::CreateEntryTable { suuid: rss@.uuid }, None, "新建失败！"@),
    ]);
    (rss, actions)
}

impl Store {
    /// Adds feed `rss` at the end of the list with a new, empty entry model.
    pub fn on_new_rss(&mut self, rss: RssList) -> (r: Notice)
        requires
            old(self)@.wf(),
        ensures
            final(self)@.wf(),
            final(self)@ == (StoreView {
                lists: old(self)@.lists.push(ListView { entry: old(self)@.models.len(), ..rss@ }),
                models: old(self)@.models.push(seq![]),
                ..old(self)@
            }),
            r@ == notice("新建成功！"@, NoticeKind::Success),
    {
        let mut rss = rss;
        let h = self.models.len();
        self.models.push(Vec::new());
        rss.entry = h;
        let ghost lv = rss@;
        self.rss_lists.push(rss);
        assert(self@.lists =~= old(self)@.lists.push(lv));
        assert(self@.models =~= old(self)@.models.push(seq![])) by {
            assert(entries_view(self.models@[h as int]@) =~= Seq::<EntryView>::empty());
        }
        Notice::new("新建成功！", NoticeKind::Success)
    }

    /// The write that saving the dialog's form for feed `uuid` needs: the
    /// edited configuration of the first feed with that uuid, reported
    /// either way. Its outcome is the `saved` of [`Store::on_save_rss`].
    pub fn save_rss_request(&self, uuid: &String, config: &UiRssConfig) -> (r: Option<Action>)
        ensures
            opt_action_view(r) == save_write(self@, uuid@, config@),
    {
        match self.find_list(uuid) {
            None => None,
            Some(i) => {
                let mut l = self.rss_lists[i].clone();
                l.name = config.name.clone();
                l.url = config.url.clone();
                l.use_proxy = config.use_proxy;
                l.icon_index = config.icon_index;
                Some(Action::Db {
                    op: DbOp::UpdateRss { uuid: uuid.clone(), config: RssConfig::from(&l) },
                    on_ok: Some(Notice::new("保存成功！", NoticeKind::Success)),
                    on_err: Some(Notice::new("保存失败！", NoticeKind::Warning)),
                    stop_on_err: true,
                })
            },
        }
    }

    /// Saves the dialog's form into the first feed with uuid `uuid`, when
    /// the write of [`Store::save_rss_request`] succeeded.
    pub fn on_save_rss(&mut self, uuid: &String, config: &UiRssConfig, saved: bool)
        requires
            old(self)@.wf(),
        ensures
            final(self)@.wf(),
            final(self)@ == saved_rss(old(self)@, uuid@, config@, saved),
    {
        if !saved {
            return;
        }
        match self.find_list(uuid) {
            None => {},
            Some(i) => {
                let mut l = self.rss_lists[i].clone();
                l.name = config.name.clone();
                l.url = config.url.clone();
                l.use_proxy = config.use_proxy;
                l.icon_index = config.icon_index;
                assert(l@.entry == old(self)@.lists[i as int].entry);
                self.set_list(i, l);
                assert forall|k: int| 0 <= k < self@.lists.len() implies #[trigger] self@.lists[k].entry < self@.models.len() by {
                    assert(old(self)@.lists[k].entry < old(self)@.models.len());
                }
            },
        }
    }

    /// The writes that deleting feed `uuid` asks for: none but a refusal
    /// for the unread and the favourite feed; for a feed of the list, the
    /// deletion of its configuration (reported either way) and of its
    /// entry table (reported when it fails).
    pub fn delete_rss_request(&self, uuid: &String) -> (r: Vec<Action>)
        ensures
            actions_view(r@) == if uuid@ == unread_id() || uuid@ == favorite_id() {
                seq![ActionView::Show { notice: notice("不允许删！"@, NoticeKind::Warning) }]
            } else if list_pos(self@.lists, uuid@) is Some {
                seq![
                    ActionView::Db {
                        op: DbOpView::DeleteRss { uuid: uuid@ },
                        on_ok: Some(notice("删除会话成功！"@, NoticeKind::Success)),
                        on_err: Some(notice("删除会话失败！"@, NoticeKind::Warning)),
                        stop_on_err: false,
                    },
                    ActionView::Db {
                        op: DbOpView::DropEntryTable { suuid: uuid@ },
                        on_ok: None,
                        on_err: Some(notice("删除失败！"@, NoticeKind::Warning)),
                        stop_on_err: false,
                    },
                ]
            } else {
                seq![]
            },
    {
        let mut r: Vec<Action> = Vec::new();
        if str_eq(uuid.as_str(), UNREAD_UUID) || str_eq(uuid.as_str(), FAVORITE_UUID) {
            push_action(&mut r, Action::Show { notice: Notice::new("不允许删！", NoticeKind::Warning) });
            assert(actions_view(r@) =~= seq![ActionView::Show { notice: notice("不允许删！"@, NoticeKind::Warning) }]);
            return r;
        }
        match self.find_list(uuid) {
            None => {
                assert(actions_view(r@) =~= seq![]);
            },
            Some(_) => {
                push_action(&mut r, Action::Db {
                    op: DbOp::DeleteRss { uuid: uuid.clone() },
                    on_ok: Some(Notice::new("删除会话成功！", NoticeKind::Success)),
                    on_err: Some(Notice::new("删除会话失败！", NoticeKind::Warning)),
                    stop_on_err: false,
                });
                push_action(&mut r, Action::Db {
                    op: DbOp::DropEntryTable { suuid: uuid.clone() },
                    on_ok: None,
                    on_err: Some(Notice::new("删除失败！", NoticeKind::Warning)),
                    stop_on_err: false,
                });
                assert(actions_view(r@) =~= seq![
                    ActionView::Db {
                        op: DbOpView::DeleteRss { uuid: uuid@ },
                        on_ok: Some(notice("删除会话成功！"@, NoticeKind::Success)),
                        on_err: Some(notice("删除会话失败！"@, NoticeKind::Warning)),
                        stop_on_err: false,
                    },
                    ActionView::Db {
                        op: DbOpView::DropEntryTable { suuid: uuid@ },
                        on_ok: None,
                        on_err: Some(notice("删除失败！"@, NoticeKind::Warning)),
                        stop_on_err: false,
                    },
                ]);
            },
        }
        r
    }

    /// Deletes feed `uuid` from the list (not the unread or the favourite
    /// feed): the first feed with that uuid leaves the list, the unread
    /// feed becomes current when its configuration was `deleted` from the
    /// database, and the model on display is emptied.
    pub fn on_delete_rss(&mut self, uuid: &String, deleted: bool)
        requires
            old(self)@.wf(),
        ensures
            final(self)@.wf(),
            final(self)@ == if uuid@ == unread_id() || uuid@ == favorite_id() {
                old(self)@
            } else {
                match list_pos(old(self)@.lists, uuid@) {
                    None => old(self)@,
                    Some(i) => StoreView {
                        lists: old(self)@.lists.remove(i),
                        models: old(self)@.models.update(old(self)@.rss_entry as int, seq![]),
                        current: if deleted { unread_id() } else { old(self)@.current },
                        ..old(self)@
                    },
                }
            },
    {
        if str_eq(uuid.as_str(), UNREAD_UUID) || str_eq(uuid.as_str(), FAVORITE_UUID) {
            return;
        }
        match self.find_list(uuid) {
            None => {},
            Some(i) => {
                let _ = self.rss_lists.remove(i);
                assert(self@.lists =~= old(self)@.lists.remove(i as int));
                if deleted {
                    self.current_rss_uuid = UNREAD_UUID.to_owned();
                }
                let m = self.rss_entry;
                self.clear_model(m);
                assert forall|k: int| 0 <= k < self@.lists.len() implies #[trigger] self@.lists[k].entry < self@.models.len() by {
                    if k < i {
                        assert(self@.lists[k] == old(self)@.lists[k]);
                    } else {
                        assert(self@.lists[k] == old(self)@.lists[k + 1]);
                    }
                }
            },
        }
    }
}

/// The position a feed-list index names, when it names one.
pub open spec fn row_index(index: i32, len: nat) -> Option<int> {
    if 0 <= index < len {
        Some(index as int)
    } else {
        None
    }
}

/// Feed `l` with its mark toggled.
pub open spec fn toggled(l: ListView) -> ListView {
    ListView { is_mark: !l.is_mark, ..l }
}

/// Toggling the mark of the feed at `index`, when its write was `saved`.
pub open spec fn mark_toggled(st: StoreView, index: i32, saved: bool) -> StoreView {
    match row_index(index, st.lists.len()) {
        Some(i) if saved => StoreView { lists: st.lists.update(i, toggled(st.lists[i])), ..st },
        _ => st,
    }
}

/// Toggling a feed's mark twice, both writes saved, gives back the state.
pub proof fn law_toggle_mark_twice(st: StoreView, index: i32)
    ensures
        mark_toggled(mark_toggled(st, index, true), index, true) == st,
{
    match row_index(index, st.lists.len()) {
        Some(i) => {
            let s1 = mark_toggled(st, index, true);
            assert(toggled(toggled(st.lists[i])) == st.lists[i]);
            assert(s1.lists.update(i, toggled(s1.lists[i])) =~= st.lists);
        },
        None => {},
    }
}

impl Store {
    /// The write that toggling the mark of the feed at `index` needs: the
    /// toggled configuration, stored under `uuid`; a failure is reported.
    /// Its outcome is the `saved` of [`Store::on_toggle_rss_mark`].
    pub fn toggle_rss_mark_request(&self, index: i32, uuid: &String) -> (r: Option<Action>)
        ensures
            match row_index(index, self@.lists.len()) {
                Some(i) => r matches Some(a) && a@ == guarded(
                    DbOpView::UpdateRss { uuid: uuid@, config: config_of_list(toggled(self@.lists[i])) },
                    None,
                    "保存失败！"@,
                ),
                None => r is None,
            },
    {
        if index < 0 || index as usize >= self.rss_lists.len() {
            return None;
        }
        let mut l = self.rss_lists[index as usize].clone();
        l.is_mark = !l.is_mark;
        Some(Action::Db {
            op: DbOp::UpdateRss { uuid: uuid.clone(), config: RssConfig::from(&l) },
            on_ok: None,
            on_err: Some(Notice::new("保存失败！", NoticeKind::Warning)),
            stop_on_err: true,
        })
    }

    /// Toggles the mark of the feed at `index` when the write of
    /// [`Store::toggle_rss_mark_request`] succeeded.
    pub fn on_toggle_rss_mark(&mut self, index: i32, saved: bool)
        requires
            old(self)@.wf(),
        ensures
            final(self)@.wf(),
            final(self)@ == mark_toggled(old(self)@, index, saved),
    {
        if !saved || index < 0 || index as usize >= self.rss_lists.len() {
            return;
        }
        let i = index as usize;
        let mut l = self.rss_lists[i].clone();
        l.is_mark = !l.is_mark;
        self.set_list(i, l);
        assert forall|k: int| 0 <= k < self@.lists.len() implies #[trigger] self@.lists[k].entry < self@.models.len() by {
            assert(old(self)@.lists[k].entry < old(self)@.models.len());
        }
    }
}

/// Switching the display from feed `old` to feed `new`, reading the feeds
/// in order from `row` with `count` of them handled: a feed `old` takes the
/// model `re0` that was on display, a feed `new` puts its model on display
/// and becomes current; the pass ends after two such feeds.
pub open spec fn switch_loop(st: StoreView, old: Seq<char>, new: Seq<char>, re0: nat, row: int, count: int) -> StoreView
    decreases st.lists.len() - row,
{
    if row < 0 || row >= st.lists.len() {
        st
    } else {
        let l = st.lists[row];
        let next = if l.uuid == old {
            (StoreView { lists: st.lists.update(row, ListView { entry: re0, ..l }), ..st }, count + 1)
        } else if l.uuid == new {
            (StoreView { rss_entry: l.entry, current: new, ..st }, count + 1)
        } else {
            (st, count)
        };
        if next.1 == 2 {
            next.0
        } else {
            switch_loop(next.0, old, new, re0, row + 1, next.1)
        }
    }
}

/// Switching from feed `old` to feed `new`; nothing when they are the same
/// or `new` is empty.
pub open spec fn switch(st: StoreView, old: Seq<char>, new: Seq<char>) -> StoreView {
    if old == new || new.len() == 0 {
        st
    } else {
        switch_loop(st, old, new, st.rss_entry, 0, 0)
    }
}

pub proof fn lemma_switch_loop_wf(st: StoreView, old: Seq<char>, new: Seq<char>, re0: nat, row: int, count: int)
    requires
        st.wf(),
        re0 < st.models.len(),
    ensures
        switch_loop(st, old, new, re0, row, count).wf(),
        switch_loop(st, old, new, re0, row, count).lists.len() == st.lists.len(),
        switch_loop(st, old, new, re0, row, count).models == st.models,
    decreases st.lists.len() - row,
{
    if row < 0 || row >= st.lists.len() {
    } else {
        let l = st.lists[row];
        assert(l.entry < st.models.len());
        if l.uuid == old {
            let st1 = StoreView { lists: st.lists.update(row, ListView { entry: re0, ..l }), ..st };
            assert forall|k: int| 0 <= k < st1.lists.len() implies #[trigger] st1.lists[k].entry < st1.models.len() by {
                if k != row {
                    assert(st1.lists[k] == st.lists[k]);
                }
            }
            lemma_switch_loop_wf(st1, old, new, re0, row + 1, count + 1);
        } else if l.uuid == new {
            let st1 = StoreView { rss_entry: l.entry, current: new, ..st };
            lemma_switch_loop_wf(st1, old, new, re0, row + 1, count + 1);
        } else {
            lemma_switch_loop_wf(st, old, new, re0, row + 1, count);
        }
    }
}

impl Store {
    /// Switches the display from feed `old_uuid` to feed `new_uuid` (see
    /// [`switch`]).
    pub fn on_switch_rss(&mut self, old_uuid: &String, new_uuid: &String)
        requires
            old(self)@.wf(),
        ensures
            final(self)@.wf(),
            final(self)@ == switch(old(self)@, old_uuid@, new_uuid@),
    {
        if *old_uuid == *new_uuid || new_uuid.as_str().is_empty() {
            return;
        }
        let ghost st0 = self@;
        let entry = self.rss_entry;
        let mut index: usize = 0;
        let mut row: usize = 0;
        proof { lemma_switch_loop_wf(st0, old_uuid@, new_uuid@, entry as nat, 0, 0); }
        while row < self.rss_lists.len()
            invariant
                self@.wf(),
                st0 == old(self)@,
                entry as nat == st0.rss_entry,
                old_uuid@ != new_uuid@,
                new_uuid@.len() != 0,
                entry < self@.models.len(),
                self.rss_lists@.len() == self@.lists.len(),
                index < 2,
                switch_loop(st0, old_uuid@, new_uuid@, entry as nat, 0, 0)
                    == switch_loop(self@, old_uuid@, new_uuid@, entry as nat, row as int, index as int),
            decreases self@.lists.len() - row,
        {
            let ghost cur = self@;
            assert(self@.lists[row as int] == self.rss_lists@[row as int]@);
            assert(self@.lists[row as int].entry < self@.models.len());
            if self.rss_lists[row].uuid == *old_uuid {
                let mut l = self.rss_lists[row].clone();
                l.entry = entry;
                self.set_list(row, l);
                assert forall|k: int| 0 <= k < self@.lists.len() implies #[trigger] self@.lists[k].entry < self@.models.len() by {
                    if k != row {
                        assert(self@.lists[k] == cur.lists[k]);
                    }
                }
                index += 1;
            } else if self.rss_lists[row].uuid == *new_uuid {
                self.rss_entry = self.rss_lists[row].entry;
                self.current_rss_uuid = new_uuid.clone();
                index += 1;
            }
            if index == 2 {
                return;
            }
            row += 1;
        }
    }
}

/// Feeds a sync never fetches: the unread and the favourite feed.
pub open spec fn is_special(l: ListView) -> bool {
    l.uuid == unread_id() || l.uuid == favorite_id()
}

pub open spec fn fetched_filter() -> spec_fn(ListView) -> bool {
    |l: ListView| !is_special(l)
}

pub open spec fn sync_items_view(v: Seq<SyncItem>) -> Seq<SyncItemView> {
    v.map_values(|i: SyncItem| i@)
}

/// The feeds a sync of `suuid` fetches: every feed but the unread and the
/// favourite one for the unread feed; otherwise the first feed `suuid`.
pub open spec fn sync_targets(lists: Seq<ListView>, suuid: Seq<char>) -> Seq<SyncItemView> {
    if suuid == unread_id() {
        lists.filter(fetched_filter()).map_values(|l: ListView| sync_item_of(l))
    } else {
        match list_pos(lists, suuid) {
            Some(i) => seq![sync_item_of(lists[i])],
            None => seq![],
        }
    }
}

impl Store {
    /// The feeds a sync of `suuid` fetches (see [`sync_targets`]); for the
    /// favourite feed none, and a refusal to show.
    pub fn on_sync_rss(&self, suuid: &String) -> (r: (Vec<SyncItem>, Option<Notice>))
        ensures
            suuid@ == favorite_id() ==> sync_items_view(r.0@) == Seq::<SyncItemView>::empty()
                && (r.1 matches Some(n) && n@ == notice("不允许刷新！"@, NoticeKind::Warning)),
            suuid@ != favorite_id() ==> sync_items_view(r.0@) == sync_targets(self@.lists, suuid@) && r.1 is None,
    {
        let mut items: Vec<SyncItem> = Vec::new();
        if str_eq(suuid.as_str(), FAVORITE_UUID) {
            assert(sync_items_view(items@) =~= Seq::<SyncItemView>::empty());
            return (items, Some(Notice::new("不允许刷新！", NoticeKind::Warning)));
        }
        let ghost lists = self@.lists;
        let all = str_eq(suuid.as_str(), UNREAD_UUID);
        let mut i: usize = 0;
        assert(lists.take(0).filter(fetched_filter()) =~= Seq::<ListView>::empty()) by {
            reveal(Seq::filter);
        }
        assert(sync_items_view(items@) =~= lists.take(0).filter(fetched_filter()).map_values(|l: ListView| sync_item_of(l)));
        while i < self.rss_lists.len()
            invariant
                lists == self@.lists,
                all == (suuid@ == unread_id()),
                suuid@ != favorite_id(),
                i <= lists.len(),
                all ==> sync_items_view(items@) == lists.take(i as int).filter(fetched_filter()).map_values(|l: ListView| sync_item_of(l)),
                !all ==> items@.len() == 0,
                !all ==> forall|j: int| 0 <= j < i ==> #[trigger] lists[j].uuid != suuid@,
            decreases lists.len() - i,
        {
            let l = &self.rss_lists[i];
            assert(lists[i as int] == l@);
            assert(lists.take(i + 1) =~= lists.take(i as int).push(l@));
            proof { lists.take(i as int).lemma_filter_push(l@, fetched_filter()); }
            let special = str_eq(l.uuid.as_str(), UNREAD_UUID) || str_eq(l.uuid.as_str(), FAVORITE_UUID);
            if !special {
                if all {
                    let ghost before = sync_items_view(items@);
                    items.push(SyncItem::from(l.clone()));
                    assert(sync_items_view(items@) =~= before.push(sync_item_of(l@)));
                    assert(lists.take(i + 1).filter(fetched_filter()) =~= lists.take(i as int).filter(fetched_filter()).push(l@));
                    assert(sync_items_view(items@) =~= lists.take(i + 1).filter(fetched_filter()).map_values(|l: ListView| sync_item_of(l)));
                } else if l.uuid == *suuid {
                    items.push(SyncItem::from(l.clone()));
                    proof { crate::logic::store::lemma_list_pos(lists, suuid@, i as int); }
                    assert(sync_items_view(items@) =~= seq![sync_item_of(lists[i as int])]);
                    return (items, None);
                }
            } else if !all {
                assert(l@.uuid != suuid@);
            }
            i += 1;
        }
        assert(lists.take(i as int) =~= lists);
        if !all {
            assert(list_pos(lists, suuid@) is None) by {
                if exists|k: int| crate::logic::store::is_list_at(lists, suuid@, k) {
                    let k = choose|k: int| crate::logic::store::is_list_at(lists, suuid@, k);
                    assert(lists[k].uuid == suuid@);
                }
            }
            assert(sync_items_view(items@) =~= Seq::<SyncItemView>::empty());
        }
        (items, None)
    }
}

/// The position of the unread feed whose model a sync of the feed at `li`
/// checks for entries it shows already: the last unread feed at or before
/// `li`.
pub open spec fn is_last_unread(lists: Seq<ListView>, li: int, j: int) -> bool {
    &&& 0 <= j <= li < lists.len()
    &&& lists[j].uuid == unread_id()
    &&& forall|k: int| j < k <= li ==> #[trigger] lists[k].uuid != unread_id()
}

pub open spec fn last_unread(lists: Seq<ListView>, li: int) -> Option<int> {
    if exists|j: int| is_last_unread(lists, li, j) {
        Some(choose|j: int| is_last_unread(lists, li, j))
    } else {
        None
    }
}

/// Adding a fetched entry to feed `suuid` (the first feed with that uuid):
/// unless an entry with its link is there, it goes in front of the feed
/// (when `stored` in the feed's table); unless an entry with its link is
/// in the model of [`last_unread`], it goes in front of the unread feed,
/// tagged with the feed's name.
pub open spec fn new_entrys_step(st: StoreView, suuid: Seq<char>, entry: RssEntryView, stored: bool) -> StoreView {
    match list_pos(st.lists, suuid) {
        None => st,
        Some(li) => {
            let own = st.lists[li].entry as int;
            let st1 = if has_url(st.models[own], entry.url) {
                st
            } else {
                add_new(st, suuid, suuid, entry, stored)
            };
            let seen = match last_unread(st.lists, li) {
                Some(j) => has_url(st1.models[st.lists[j].entry as int], entry.url),
                None => false,
            };
            if seen {
                st1
            } else {
                add_new(st1, suuid, unread_id(), RssEntryView { tags: st.lists[li].name, ..entry }, true)
            }
        },
    }
}

/// The write that [`new_entrys_step`] needs first: the record into the
/// feed's table, when it adds the entry to a feed other than the unread
/// feed.
pub open spec fn new_entrys_write(st: StoreView, suuid: Seq<char>, entry: RssEntryView) -> Option<DbOpView> {
    match list_pos(st.lists, suuid) {
        None => None,
        Some(li) => if has_url(st.models[st.lists[li].entry as int], entry.url) {
            None
        } else {
            add_new_write(suuid, entry)
        },
    }
}

pub proof fn lemma_add_new_wf(st: StoreView, real_suuid: Seq<char>, suuid: Seq<char>, entry: RssEntryView, stored: bool)
    requires
        st.wf(),
    ensures
        add_new(st, real_suuid, suuid, entry, stored).wf(),
        add_new(st, real_suuid, suuid, entry, stored).lists == st.lists,
        add_new(st, real_suuid, suuid, entry, stored).models.len() == st.models.len(),
{
    match list_pos(st.lists, suuid) {
        None => {},
        Some(li) => {
            let k = choose|i: int| crate::logic::store::is_list_at(st.lists, suuid, i);
            assert(crate::logic::store::is_list_at(st.lists, suuid, k));
            assert(st.lists[li].entry < st.models.len());
        },
    }
}

impl Store {
    /// The position of the last unread feed at or before `li`.
    fn find_last_unread(&self, li: usize) -> (r: Option<usize>)
        requires
            li < self@.lists.len(),
        ensures
            opt_int(r) == last_unread(self@.lists, li as int),
    {
        let ghost lists = self@.lists;
        let n = self.rss_lists.len();
        assert(li < n);
        let mut j: usize = li + 1;
        while j > 0
            invariant
                lists == self@.lists,
                li < lists.len(),
                j <= li + 1,
                forall|k: int| j <= k <= li ==> #[trigger] lists[k].uuid != unread_id(),
            decreases j,
        {
            assert(lists[j - 1] == self.rss_lists@[j - 1]@);
            if str_eq(self.rss_lists[j - 1].uuid.as_str(), UNREAD_UUID) {
                let r = j - 1;
                assert(is_last_unread(lists, li as int, r as int));
                assert(last_unread(lists, li as int) == Some(r as int)) by {
                    let c = choose|x: int| is_last_unread(lists, li as int, x);
                    assert(is_last_unread(lists, li as int, c));
                    if c < r {
                        assert(lists[r as int].uuid == unread_id());
                    } else if c > r {
                        assert(lists[c].uuid == unread_id());
                    }
                }
                return Some(r);
            }
            j -= 1;
        }
        assert(!exists|x: int| is_last_unread(lists, li as int, x)) by {
            if exists|x: int| is_last_unread(lists, li as int, x) {
                let x = choose|x: int| is_last_unread(lists, li as int, x);
                assert(lists[x].uuid == unread_id());
            }
        }
        None
    }

    /// The write that adding fetched `entry` to feed `suuid` needs first
    /// (see [`new_entrys_write`]); its outcome is the `stored` of
    /// [`Store::update_new_entrys_step`].
    pub fn update_new_entrys_write(&self, suuid: &String, entry: &RssEntry) -> (r: Option<DbOp>)
        requires
            self@.wf(),
        ensures
            opt_op_view(r) == new_entrys_write(self@, suuid@, entry@),
    {
        match self.find_list(suuid) {
            None => None,
            Some(li) => {
                assert(self@.lists[li as int].entry < self@.models.len());
                let own = self.rss_lists[li].entry;
                if contains_url(&self.models[own], &entry.url) {
                    None
                } else {
                    crate::logic::entry::update_new_entry_write(suuid, entry)
                }
            },
        }
    }

    /// Adds fetched `entry` to feed `suuid` (see [`new_entrys_step`]);
    /// `stored` tells whether the write of
    /// [`Store::update_new_entrys_write`] succeeded. A sync of a feed runs
    /// this for each fetched entry in order.
    pub fn update_new_entrys_step(&mut self, suuid: &String, entry: RssEntry, stored: bool)
        requires
            old(self)@.wf(),
        ensures
            final(self)@.wf(),
            final(self)@ == new_entrys_step(old(self)@, suuid@, entry@, stored),
    {
        let ghost st0 = self@;
        match self.find_list(suuid) {
            None => {},
            Some(li) => {
                assert(self@.lists[li as int].entry < self@.models.len());
                let own = self.rss_lists[li].entry;
                let name = self.rss_lists[li].name.clone();
                let unread_at = self.find_last_unread(li);
                if !contains_url(&self.models[own], &entry.url) {
                    proof { lemma_add_new_wf(self@, suuid@, suuid@, entry@, stored); }
                    self.update_new_entry(suuid, suuid, entry.clone(), stored);
                }
                let seen = match unread_at {
                    Some(j) => {
                        assert(self@.lists[j as int].entry < self@.models.len());
                        let m = self.rss_lists[j].entry;
                        contains_url(&self.models[m], &entry.url)
                    },
                    None => false,
                };
                if !seen {
                    let mut e = entry;
                    e.tags = name;
                    let unread = UNREAD_UUID.to_owned();
                    proof { lemma_add_new_wf(self@, suuid@, unread@, e@, true); }
                    self.update_new_entry(suuid, &unread, e, true);
                }
            },
        }
    }
}

pub open spec fn str_or_empty(o: Option<Seq<char>>) -> Seq<char> {
    match o {
        Some(s) => s,
        None => Seq::empty(),
    }
}

/// A feed item becomes an entry when it has a link and a title.
pub open spec fn kept_filter() -> spec_fn(FeedItemView) -> bool {
    |it: FeedItemView| str_or_empty(it.link).len() > 0 && str_or_empty(it.title).len() > 0
}

/// Entry `e` is the new, unread entry for feed item `it`, with a fresh
/// uuid.
pub open spec fn entry_of_item(e: RssEntryView, it: FeedItemView) -> bool {
    &&& e.url == str_or_empty(it.link)
    &&& e.title == str_or_empty(it.title)
    &&& e.pub_date == str_or_empty(it.pub_date)
    &&& e.tags == Seq::<char>::empty()
    &&& !e.is_read
    &&& is_v4_uuid_text(e.uuid)
}

pub open spec fn rss_entries_view(v: Seq<RssEntry>) -> Seq<RssEntryView> {
    v.map_values(|e: RssEntry| e@)
}

fn text_or_empty(o: &Option<String>) -> (r: String)
    ensures
        r@ == str_or_empty(crate::util::feed::opt_str_view(*o)),
{
    match o {
        Some(s) => s.clone(),
        None => String::new(),
    }
}

/// The entries of the RSS document `content`: one for each item with a
/// link and a title, in document order (see [`entry_of_item`]); an error
/// when `content` is not an RSS document.
pub fn entries_of_feed(content: &[u8]) -> (r: Result<Vec<RssEntry>, String>)
    ensures
        match r {
            Ok(v) => match feed_items_of(content@) {
                Some(items) => {
                    let kept = items.filter(kept_filter());
                    &&& v@.len() == kept.len()
                    &&& forall|k: int| 0 <= k < kept.len() ==> entry_of_item(#[trigger] rss_entries_view(v@)[k], kept[k])
                },
                None => false,
            },
            Err(_) => feed_items_of(content@) is None,
        },
        r matches Ok(v) ==> forall|k: int| 0 <= k < v@.len() ==>
            (#[trigger] rss_entries_view(v@)[k]).url.len() > 0 && rss_entries_view(v@)[k].title.len() > 0,
{
    let items = match read_feed(content) {
        Ok(items) => items,
        Err(e) => return Err(e),
    };
    let ghost iv = feed_items_view(items@);
    let mut out: Vec<RssEntry> = Vec::new();
    let mut i: usize = 0;
    assert(iv.take(0).filter(kept_filter()) =~= Seq::<FeedItemView>::empty()) by {
        reveal(Seq::filter);
    }
    while i < items.len()
        invariant
            iv == feed_items_view(items@),
            feed_items_of(content@) == Some(iv),
            i <= items@.len(),
            out@.len() == iv.take(i as int).filter(kept_filter()).len(),
            forall|k: int| 0 <= k < out@.len() ==> entry_of_item(#[trigger] rss_entries_view(out@)[k], iv.take(i as int).filter(kept_filter())[k]),
        decreases items@.len() - i,
    {
        let item = &items[i];
        assert(iv[i as int] == item@);
        assert(iv.take(i + 1) =~= iv.take(i as int).push(item@));
        proof { iv.take(i as int).lemma_filter_push(item@, kept_filter()); }
        let url = text_or_empty(&item.link);
        let title = text_or_empty(&item.title);
        if url.as_str().is_empty() || title.as_str().is_empty() {
        } else {
            let e = RssEntry {
                url,
                title,
                uuid: new_uuid(),
                pub_date: text_or_empty(&item.pub_date),
                tags: String::new(),
                is_read: false,
            };
            let ghost ev = e@;
            let ghost before = rss_entries_view(out@);
            out.push(e);
            assert(rss_entries_view(out@) =~= before.push(ev));
        }
        i += 1;
    }
    assert(iv.take(i as int) =~= iv);
    assert forall|k: int| 0 <= k < out@.len() implies
        (#[trigger] rss_entries_view(out@)[k]).url.len() > 0 && rss_entries_view(out@)[k].title.len() > 0 by {
        iv.lemma_filter_pred(kept_filter(), k);
    }
    Ok(out)
}

/// The timeout of a feed request, in seconds: the configured one, at most
/// ten.
pub fn request_timeout(sync_timeout: u32) -> (r: u64)
    ensures
        r == if sync_timeout <= 10 { sync_timeout as u64 } else { 10 },
        r <= 10,
{
    if (sync_timeout as u64) < 10 {
        sync_timeout as u64
    } else {
        10
    }
}

/// The time between automatic syncs, in seconds: the configured number of
/// minutes, at least one.
pub fn sync_interval_secs(sync_interval: u32) -> (r: i64)
    ensures
        r == 60 * (if sync_interval >= 1 { sync_interval as int } else { 1 }),
{
    let minutes: i64 = if sync_interval as i64 > 1 { sync_interval as i64 } else { 1 };
    minutes * 60
}

/// Whether an automatic sync is due at time `now` (seconds) when the last
/// one was at `last`.
pub fn is_sync_due(last: i64, now: i64, sync_interval: u32) -> (r: bool)
    requires
        last + 60 * (if sync_interval >= 1 { sync_interval as int } else { 1 }) <= i64::MAX,
    ensures
        r == (last + 60 * (if sync_interval >= 1 { sync_interval as int } else { 1 }) < now),
        r ==> now - last > 60,
{
    let interval = sync_interval_secs(sync_interval);
    last + interval < now
}

/// The message at the end of a sync: a success when every fetch succeeded.
pub fn sync_done_notice(all_ok: bool) -> (r: Option<Notice>)
    ensures
        all_ok ==> (r matches Some(n) && n@ == notice("同步成功！"@, NoticeKind::Success)),
        !all_ok ==> r is None,
{
    if all_ok {
        Some(Notice::new("同步成功！", NoticeKind::Success))
    } else {
        None
    }
}

/// A sync never fetches the unread or the favourite feed.
pub proof fn law_sync_skips_special(lists: Seq<ListView>, suuid: Seq<char>)
    requires
        suuid != favorite_id(),
    ensures
        forall|k: int| 0 <= k < sync_targets(lists, suuid).len() ==>
            (#[trigger] sync_targets(lists, suuid)[k]).uuid != unread_id()
                && sync_targets(lists, suuid)[k].uuid != favorite_id(),
{
    let t = sync_targets(lists, suuid);
    if suuid == unread_id() {
        let f = lists.filter(fetched_filter());
        assert forall|k: int| 0 <= k < t.len() implies (#[trigger] t[k]).uuid != unread_id() && t[k].uuid != favorite_id() by {
            lists.lemma_filter_pred(fetched_filter(), k);
            assert(t[k] == sync_item_of(f[k]));
        }
    } else {
        match list_pos(lists, suuid) {
            Some(i) => {
                let c = choose|x: int| crate::logic::store::is_list_at(lists, suuid, x);
                assert(crate::logic::store::is_list_at(lists, suuid, c));
            },
            None => {},
        }
    }
}

/// The feed list is ordered by rank: the unread feed, then the favourite
/// feed, then marked feeds, then the others.
pub proof fn law_sorted_by_rank(s: Seq<ListView>)
    requires
        lists_sorted(s),
    ensures
        forall|i: int, j: int| 0 <= i < j < s.len() ==> rank(#[trigger] s[i]) <= rank(#[trigger] s[j]),
{
    assert forall|i: int, j: int| 0 <= i < j < s.len() implies rank(#[trigger] s[i]) <= rank(#[trigger] s[j]) by {
        assert(!key_lt(list_key(s[j]), list_key(s[i])));
    }
}

/// In any result of the feed-list sort, two marked feeds (neither the
/// unread nor the favourite feed) come in the order of their lowercase
/// names, and so do two unmarked ones; the unread feed comes before every
/// other feed and the favourite feed before every feed but the unread one.
pub proof fn law_feeds_by_name(input: Seq<ListView>, out: Seq<ListView>)
    requires
        stable_sorted(input, out),
    ensures
        forall|i: int, j: int|
            0 <= i < j < out.len()
                && out[i].uuid != unread_id() && out[i].uuid != favorite_id()
                && out[j].uuid != unread_id() && out[j].uuid != favorite_id()
                && out[i].is_mark == out[j].is_mark
                ==> !seq_lt(lowercase_of(#[trigger] out[j].name), lowercase_of(#[trigger] out[i].name)),
        forall|i: int, j: int|
            0 <= i < j < out.len()
                && out[i].uuid != unread_id() && out[i].uuid != favorite_id()
                && out[j].uuid != unread_id() && out[j].uuid != favorite_id()
                ==> (#[trigger] out[i].is_mark || !(#[trigger] out[j].is_mark)),
        forall|i: int, j: int| 0 <= i < j < out.len() && (#[trigger] out[j]).uuid == unread_id()
            ==> (#[trigger] out[i]).uuid == unread_id(),
        forall|i: int, j: int| 0 <= i < j < out.len() && (#[trigger] out[j]).uuid == favorite_id()
            ==> (#[trigger] out[i]).uuid == unread_id() || out[i].uuid == favorite_id(),
{
    assert forall|i: int, j: int| 0 <= i < j < out.len() implies !key_lt(list_key(#[trigger] out[j]), list_key(#[trigger] out[i])) by {}
}

/// Saving the feed dialog's form for a feed of the list: once the write is
/// saved, that feed takes the form's name, link, proxy choice and icon and
/// keeps everything else, no other feed or model changes, and the written
/// configuration carries the same name, link, proxy choice and icon, with
/// the feed's mark and update time. An unsaved write changes nothing.
pub proof fn law_save_takes_form(st: StoreView, uuid: Seq<char>, c: UiRssConfigView)
    requires
        (list_pos(st.lists, uuid) is Some),
    ensures
        ({
            let i = list_pos(st.lists, uuid)->0;
            let old_l = st.lists[i];
            let after = saved_rss(st, uuid, c, true);
            &&& after.lists.len() == st.lists.len()
            &&& after.lists[i].name == c.name
            &&& after.lists[i].url == c.url
            &&& after.lists[i].use_proxy == c.use_proxy
            &&& after.lists[i].icon_index == c.icon_index
            &&& after.lists[i].uuid == old_l.uuid
            &&& after.lists[i].is_mark == old_l.is_mark
            &&& after.lists[i].entry == old_l.entry
            &&& after.lists[i].update_time == old_l.update_time
            &&& forall|k: int| 0 <= k < st.lists.len() && k != i ==> #[trigger] after.lists[k] == st.lists[k]
            &&& after.models == st.models
            &&& save_write(st, uuid, c) matches Some(ActionView::Db { op: DbOpView::UpdateRss { uuid: u, config: cf }, .. })
                && u == uuid && cf.name == c.name && cf.url == c.url && cf.use_proxy == c.use_proxy
                && cf.icon_index == c.icon_index && cf.is_mark == old_l.is_mark && cf.update_time == old_l.update_time
        }),
        saved_rss(st, uuid, c, false) == st,
{
}

/// A sync step never gives a feed two entries with the same link, as long
/// as no unread feed shares the feed's model.
pub proof fn law_sync_keeps_links_distinct(st: StoreView, suuid: Seq<char>, entry: RssEntryView, stored: bool)
    requires
        st.wf(),
        list_pos(st.lists, suuid) is Some,
        crate::logic::entry::distinct_urls(st.models[st.lists[list_pos(st.lists, suuid)->0].entry as int]),
        forall|i: int| 0 <= i < st.lists.len() && (#[trigger] st.lists[i]).uuid == unread_id()
            ==> st.lists[i].entry != st.lists[list_pos(st.lists, suuid)->0].entry,
    ensures
        crate::logic::entry::distinct_urls(
            new_entrys_step(st, suuid, entry, stored).models[st.lists[list_pos(st.lists, suuid)->0].entry as int],
        ),
{
    let li = list_pos(st.lists, suuid)->0;
    let c = choose|x: int| crate::logic::store::is_list_at(st.lists, suuid, x);
    assert(crate::logic::store::is_list_at(st.lists, suuid, c));
    let m = st.lists[li].entry as int;
    assert(suuid != unread_id()) by {
        if suuid == unread_id() {
            assert(st.lists[li].uuid == unread_id());
        }
    }
    let st1 = if has_url(st.models[m], entry.url) { st } else { add_new(st, suuid, suuid, entry, stored) };
    lemma_add_new_wf(st, suuid, suuid, entry, stored);
    assert(crate::logic::entry::distinct_urls(st1.models[m])) by {
        if st1.models[m] != st.models[m] {
            let e = EntryView { suuid, ..crate::logic::data::entry_of_record(entry) };
            assert(st1.models[m] == st.models[m].insert(0, e));
            assert forall|i: int, j: int| 0 <= i < j < st1.models[m].len() implies (#[trigger] st1.models[m][i]).url != (#[trigger] st1.models[m][j]).url by {
                if i == 0 {
                    assert(st1.models[m][j] == st.models[m][j - 1]);
                } else {
                    assert(st1.models[m][i] == st.models[m][i - 1]);
                    assert(st1.models[m][j] == st.models[m][j - 1]);
                }
            }
        }
    }
    let e2 = RssEntryView { tags: st.lists[li].name, ..entry };
    let st2 = add_new(st1, suuid, unread_id(), e2, true);
    assert(st2.models[m] == st1.models[m]) by {
        match list_pos(st1.lists, unread_id()) {
            None => {},
            Some(ui) => {
                let c2 = choose|x: int| crate::logic::store::is_list_at(st1.lists, unread_id(), x);
                assert(crate::logic::store::is_list_at(st1.lists, unread_id(), c2));
                assert(st.lists[ui].uuid == unread_id());
            },
        }
    }
}

/// No two feeds share a uuid.
pub open spec fn distinct_feeds(lists: Seq<ListView>) -> bool {
    forall|i: int, j: int| 0 <= i < j < lists.len() ==> (#[trigger] lists[i]).uuid != (#[trigger] lists[j]).uuid
}

proof fn lemma_switch_after(st: StoreView, old: Seq<char>, new: Seq<char>, re0: nat, row: int, count: int)
    requires
        forall|r: int| row <= r < st.lists.len() ==> (#[trigger] st.lists[r]).uuid != new,
    ensures
        switch_loop(st, old, new, re0, row, count).rss_entry == st.rss_entry,
        switch_loop(st, old, new, re0, row, count).current == st.current,
    decreases st.lists.len() - row,
{
    if row < 0 || row >= st.lists.len() {
    } else {
        let l = st.lists[row];
        if l.uuid == old {
            let st1 = StoreView { lists: st.lists.update(row, ListView { entry: re0, ..l }), ..st };
            assert forall|r: int| row + 1 <= r < st1.lists.len() implies (#[trigger] st1.lists[r]).uuid != new by {
                assert(st1.lists[r] == st.lists[r]);
            }
            lemma_switch_after(st1, old, new, re0, row + 1, count + 1);
        } else {
            assert(l.uuid != new);
            lemma_switch_after(st, old, new, re0, row + 1, count);
        }
    }
}

proof fn lemma_switch_reaches(st: StoreView, old: Seq<char>, new: Seq<char>, re0: nat, row: int, count: int, p: int)
    requires
        old != new,
        distinct_feeds(st.lists),
        0 <= row <= p < st.lists.len(),
        st.lists[p].uuid == new,
        forall|r: int| row <= r < p ==> (#[trigger] st.lists[r]).uuid != new,
        0 <= count <= 1,
        count == 1 ==> forall|r: int| row <= r < p ==> (#[trigger] st.lists[r]).uuid != old,
    ensures
        switch_loop(st, old, new, re0, row, count).current == new,
        switch_loop(st, old, new, re0, row, count).rss_entry == st.lists[p].entry,
    decreases p - row,
{
    let l = st.lists[row];
    if row == p {
        let st1 = StoreView { rss_entry: l.entry, current: new, ..st };
        if count + 1 != 2 {
            assert forall|r: int| row + 1 <= r < st1.lists.len() implies (#[trigger] st1.lists[r]).uuid != new by {
                assert(st.lists[p].uuid != st.lists[r].uuid);
            }
            lemma_switch_after(st1, old, new, re0, row + 1, count + 1);
        }
    } else if l.uuid == old {
        let st1 = StoreView { lists: st.lists.update(row, ListView { entry: re0, ..l }), ..st };
        assert(count == 0);
        assert(distinct_feeds(st1.lists)) by {
            assert forall|i: int, j: int| 0 <= i < j < st1.lists.len() implies (#[trigger] st1.lists[i]).uuid != (#[trigger] st1.lists[j]).uuid by {
                assert(st.lists[i].uuid != st.lists[j].uuid);
            }
        }
        assert forall|r: int| row + 1 <= r < p implies (#[trigger] st1.lists[r]).uuid != old by {
            assert(st.lists[row].uuid != st.lists[r].uuid);
        }
        lemma_switch_reaches(st1, old, new, re0, row + 1, count + 1, p);
    } else {
        lemma_switch_reaches(st, old, new, re0, row + 1, count, p);
    }
}

/// Switching to a feed of the list, when no two feeds share a uuid, shows
/// that feed's model and makes it current.
pub proof fn law_switch_shows_new(st: StoreView, old: Seq<char>, new: Seq<char>)
    requires
        old != new,
        new.len() > 0,
        distinct_feeds(st.lists),
        list_pos(st.lists, new) is Some,
    ensures
        switch(st, old, new).current == new,
        switch(st, old, new).rss_entry == st.lists[list_pos(st.lists, new)->0].entry,
{
    let p = list_pos(st.lists, new)->0;
    let c = choose|x: int| crate::logic::store::is_list_at(st.lists, new, x);
    assert(crate::logic::store::is_list_at(st.lists, new, c));
    lemma_switch_reaches(st, old, new, st.rss_entry, 0, 0, p);
}

/// The configuration stored for a feed read at start is the configuration
/// it was read from.
pub proof fn law_feed_config_round_trip(uuid: Seq<char>, c: RssConfigView, es: Seq<EntryView>, h: nat)
    ensures
        config_of_list(list_of_row(uuid, c, es, h)) == c,
{
}
} // verus!
