//! The state that the window shows: the feeds, the entry models they hold,
//! the entry model on display and the current feed.
use vstd::prelude::*;
use crate::logic::data::{EntryView, ListView, RssList, UiRssEntry};

verus! {

/// The window's state. An entry model is a list of entries that several
/// holders may share: each feed holds one by its handle `entry`, an index
/// into `models`, and `rss_entry` is the handle of the model on display.
#[derive(Debug)]
pub struct Store {
    pub rss_lists: Vec<RssList>,
    pub models: Vec<Vec<UiRssEntry>>,
    pub rss_entry: usize,
    pub current_rss_uuid: String,
    pub unread_count_flag: bool,
}

pub struct StoreView {
    pub lists: Seq<ListView>,
    pub models: Seq<Seq<EntryView>>,
    pub rss_entry: nat,
    pub current: Seq<char>,
    pub unread_count_flag: bool,
}

pub open spec fn entries_view(v: Seq<UiRssEntry>) -> Seq<EntryView> {
    v.map_values(|e: UiRssEntry| e@)
}

pub open spec fn lists_view(v: Seq<RssList>) -> Seq<ListView> {
    v.map_values(|l: RssList| l@)
}

pub open spec fn models_view(v: Seq<Vec<UiRssEntry>>) -> Seq<Seq<EntryView>> {
    v.map_values(|m: Vec<UiRssEntry>| entries_view(m@))
}

impl View for Store {
    type V = StoreView;

    open spec fn view(&self) -> StoreView {
        StoreView {
            lists: lists_view(self.rss_lists@),
            models: models_view(self.models@),
            rss_entry: self.rss_entry as nat,
            current: self.current_rss_uuid@,
            unread_count_flag: self.unread_count_flag,
        }
    }
}

impl StoreView {
    /// Every handle names a model.
    pub open spec fn wf(self) -> bool {
        &&& self.rss_entry < self.models.len()
        &&& forall|i: int| 0 <= i < self.lists.len() ==> #[trigger] self.lists[i].entry < self.models.len()
    }

    /// The entries on display.
    pub open spec fn shown(self) -> Seq<EntryView> {
        self.models[self.rss_entry as int]
    }
}

/// `i` is the first position of a feed with uuid `u`.
pub open spec fn is_list_at(lists: Seq<ListView>, u: Seq<char>, i: int) -> bool {
    &&& 0 <= i < lists.len()
    &&& lists[i].uuid == u
    &&& forall|j: int| 0 <= j < i ==> #[trigger] lists[j].uuid != u
}

/// The first position of a feed with uuid `u`, if there is one.
pub open spec fn list_pos(lists: Seq<ListView>, u: Seq<char>) -> Option<int> {
    if exists|i: int| is_list_at(lists, u, i) {
        Some(choose|i: int| is_list_at(lists, u, i))
    } else {
        None
    }
}

/// `i` is the first position of an entry with uuid `u`.
pub open spec fn is_entry_at(es: Seq<EntryView>, u: Seq<char>, i: int) -> bool {
    &&& 0 <= i < es.len()
    &&& es[i].uuid == u
    &&& forall|j: int| 0 <= j < i ==> #[trigger] es[j].uuid != u
}

/// The first position of an entry with uuid `u`, if there is one.
pub open spec fn entry_pos(es: Seq<EntryView>, u: Seq<char>) -> Option<int> {
    if exists|i: int| is_entry_at(es, u, i) {
        Some(choose|i: int| is_entry_at(es, u, i))
    } else {
        None
    }
}

/// Some entry of `es` links to `url`.
pub open spec fn has_url(es: Seq<EntryView>, url: Seq<char>) -> bool {
    exists|i: int| 0 <= i < es.len() && #[trigger] es[i].url == url
}

pub open spec fn opt_int(r: Option<usize>) -> Option<int> {
    match r {
        Some(i) => Some(i as int),
        None => None,
    }
}

pub proof fn lemma_list_pos(lists: Seq<ListView>, u: Seq<char>, i: int)
    requires
        is_list_at(lists, u, i),
    ensures
        list_pos(lists, u) == Some(i),
{
    let k = choose|k: int| is_list_at(lists, u, k);
    assert(is_list_at(lists, u, k));
    if k < i {
        assert(lists[k].uuid != u);
    } else if i < k {
        assert(lists[i].uuid != u);
    }
}

pub proof fn lemma_entry_pos(es: Seq<EntryView>, u: Seq<char>, i: int)
    requires
        is_entry_at(es, u, i),
    ensures
        entry_pos(es, u) == Some(i),
{
    let k = choose|k: int| is_entry_at(es, u, k);
    assert(is_entry_at(es, u, k));
    if k < i {
        assert(es[k].uuid != u);
    } else if i < k {
        assert(es[i].uuid != u);
    }
}

/// The position of the first entry of `es` with uuid `u`.
pub fn find_entry(es: &Vec<UiRssEntry>, u: &String) -> (r: Option<usize>)
    ensures
        opt_int(r) == entry_pos(entries_view(es@), u@),
{
    let ghost ev = entries_view(es@);
    let mut i: usize = 0;
    while i < es.len()
        invariant
            i <= es.len(),
            ev == entries_view(es@),
            forall|j: int| 0 <= j < i ==> #[trigger] ev[j].uuid != u@,
        decreases es.len() - i,
    {
        if es[i].uuid == *u {
            proof { lemma_entry_pos(ev, u@, i as int); }
            return Some(i);
        }
        i += 1;
    }
    assert(!exists|k: int| is_entry_at(ev, u@, k)) by {
        if exists|k: int| is_entry_at(ev, u@, k) {
            let k = choose|k: int| is_entry_at(ev, u@, k);
            assert(ev[k].uuid == u@);
        }
    }
    None
}

/// Whether some entry of `es` links to `url`.
pub fn contains_url(es: &Vec<UiRssEntry>, url: &String) -> (r: bool)
    ensures
        r == has_url(entries_view(es@), url@),
{
    let ghost ev = entries_view(es@);
    let mut i: usize = 0;
    while i < es.len()
        invariant
            i <= es.len(),
            ev == entries_view(es@),
            forall|j: int| 0 <= j < i ==> #[trigger] ev[j].url != url@,
        decreases es.len() - i,
    {
        if es[i].url == *url {
            assert(ev[i as int].url == url@);
            return true;
        }
        i += 1;
    }
    false
}

impl Store {
    /// The position of the first feed with uuid `u`.
    pub fn find_list(&self, u: &String) -> (r: Option<usize>)
        ensures
            opt_int(r) == list_pos(self@.lists, u@),
    {
        let ghost lv = self@.lists;
        let mut i: usize = 0;
        while i < self.rss_lists.len()
            invariant
                i <= self.rss_lists.len(),
                lv == lists_view(self.rss_lists@),
                forall|j: int| 0 <= j < i ==> #[trigger] lv[j].uuid != u@,
            decreases self.rss_lists.len() - i,
        {
            if self.rss_lists[i].uuid == *u {
                proof { lemma_list_pos(lv, u@, i as int); }
                return Some(i);
            }
            i += 1;
        }
        assert(!exists|k: int| is_list_at(lv, u@, k)) by {
            if exists|k: int| is_list_at(lv, u@, k) {
                let k = choose|k: int| is_list_at(lv, u@, k);
                assert(lv[k].uuid == u@);
            }
        }
        None
    }

    /// Replaces entry `e` of model `m` by `x`.
    pub fn set_model_entry(&mut self, m: usize, e: usize, x: UiRssEntry)
        requires
            m < old(self).models.len(),
            e < old(self).models[m as int].len(),
        ensures
            final(self)@ == (StoreView {
                models: old(self)@.models.update(m as int, old(self)@.models[m as int].update(e as int, x@)),
                ..old(self)@
            }),
    {
        let ghost x_view = x@;
        self.models[m].set(e, x);
        assert(self@.models =~= old(self)@.models.update(m as int, old(self)@.models[m as int].update(e as int, x_view))) by {
            assert(entries_view(self.models@[m as int]@) =~= old(self)@.models[m as int].update(e as int, x_view));
        }
    }
}


impl Store {
    /// Replaces feed `i` by `l`.
    pub fn set_list(&mut self, i: usize, l: RssList)
        requires
            i < old(self).rss_lists.len(),
        ensures
            final(self)@ == (StoreView { lists: old(self)@.lists.update(i as int, l@), ..old(self)@ }),
            final(self).rss_lists@.len() == old(self).rss_lists@.len(),
            final(self).models@ == old(self).models@,
    {
        let ghost lv = l@;
        self.rss_lists.set(i, l);
        assert(self@.lists =~= old(self)@.lists.update(i as int, lv));
    }
}


impl Store {
    /// Removes entry `e` of model `m`.
    pub fn remove_model_entry(&mut self, m: usize, e: usize)
        requires
            m < old(self).models.len(),
            e < old(self).models[m as int].len(),
        ensures
            final(self)@ == (StoreView {
                models: old(self)@.models.update(m as int, old(self)@.models[m as int].remove(e as int)),
                ..old(self)@
            }),
    {
        let _ = self.models[m].remove(e);
        assert(self@.models =~= old(self)@.models.update(m as int, old(self)@.models[m as int].remove(e as int))) by {
            assert(entries_view(self.models@[m as int]@) =~= old(self)@.models[m as int].remove(e as int));
        }
    }

    /// Empties model `m`.
    pub fn clear_model(&mut self, m: usize)
        requires
            m < old(self).models.len(),
        ensures
            final(self)@ == (StoreView { models: old(self)@.models.update(m as int, seq![]), ..old(self)@ }),
    {
        self.models[m].clear();
        assert(self@.models =~= old(self)@.models.update(m as int, seq![])) by {
            assert(entries_view(self.models@[m as int]@) =~= Seq::<EntryView>::empty());
        }
    }

    /// Puts `x` in front of model `m`.
    pub fn prepend_model_entry(&mut self, m: usize, x: UiRssEntry)
        requires
            m < old(self).models.len(),
        ensures
            final(self)@ == (StoreView {
                models: old(self)@.models.update(m as int, old(self)@.models[m as int].insert(0, x@)),
                ..old(self)@
            }),
    {
        let ghost xv = x@;
        self.models[m].insert(0, x);
        assert(self@.models =~= old(self)@.models.update(m as int, old(self)@.models[m as int].insert(0, xv))) by {
            assert(entries_view(self.models@[m as int]@) =~= old(self)@.models[m as int].insert(0, xv));
        }
    }
}

impl Store {
    /// A window with no feeds and one empty entry model on display.
    pub fn new() -> (r: Store)
        ensures
            r@ == (StoreView {
                lists: seq![],
                models: seq![seq![]],
                rss_entry: 0,
                current: Seq::empty(),
                unread_count_flag: false,
            }),
            r@.wf(),
    {
        let mut models: Vec<Vec<UiRssEntry>> = Vec::new();
        models.push(Vec::new());
        let r = Store {
            rss_lists: Vec::new(),
            models,
            rss_entry: 0,
            current_rss_uuid: String::new(),
            unread_count_flag: false,
        };
        assert(r@.lists =~= seq![]);
        assert(r@.models =~= seq![seq![]]) by {
            assert(entries_view(r.models@[0]@) =~= Seq::<EntryView>::empty());
        }
        r
    }
}

} // verus!
