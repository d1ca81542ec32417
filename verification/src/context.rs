//! Server state: the registry of open pages with their numeric ids and the
//! selected page, the snapshot counter, and the performance trace state.
//! A page's browser handle is of any type `P`.

use vstd::prelude::*;

use crate::assoc::{
    assign, assign_entry, find, first_index, keys_of, lemma_assign, lemma_first_index,
    lemma_first_index_absent, lemma_first_index_at, lemma_first_index_keys, lemma_unassign,
    unassign, unassign_entry,
};
use crate::extensions::distinct_keys;
use crate::json::{JsonModel, JsonValue};
use crate::snapshot::TextSnapshot;
use crate::text::{decimal, owned, push_str, push_u64};

verus! {

/// Per-page state: the page's id, its browser handle and its latest
/// accessibility snapshot.
pub struct McpPageState<P> {
    id: u32,
    cdp_page: P,
    snapshot: Option<TextSnapshot>,
    isolated_context_name: Option<String>,
}

impl<P> McpPageState<P> {
    /// The page's id.
    pub closed spec fn page_id(&self) -> u32 {
        self.id
    }

    /// The page's browser handle.
    pub closed spec fn handle(&self) -> P {
        self.cdp_page
    }

    /// Whether a snapshot has been taken of the page.
    pub closed spec fn has_snapshot(&self) -> bool {
        self.snapshot is Some
    }

    /// The page's latest snapshot.
    pub closed spec fn stored_snapshot(&self) -> Option<TextSnapshot> {
        self.snapshot
    }

    /// The name of the isolated context the page belongs to.
    pub closed spec fn context_name(&self) -> Option<String> {
        self.isolated_context_name
    }

    /// New state for a page, with no snapshot yet.
    pub fn new(id: u32, cdp_page: P) -> (r: McpPageState<P>)
        ensures
            r.page_id() == id,
            r.handle() == cdp_page,
            !r.has_snapshot(),
            r.stored_snapshot() is None,
            r.context_name() is None,
    {
        McpPageState { id, cdp_page, snapshot: None, isolated_context_name: None }
    }

    /// The page's id.
    pub fn id(&self) -> (r: u32)
        ensures
            r == self.page_id(),
    {
        self.id
    }

    /// The page's browser handle.
    pub fn cdp_page(&self) -> (r: &P)
        ensures
            *r == self.handle(),
    {
        &self.cdp_page
    }

    /// The latest snapshot of the page.
    pub fn snapshot(&self) -> (r: Option<&TextSnapshot>)
        ensures
            r is Some == self.has_snapshot(),
            match r {
                Some(x) => self.stored_snapshot() == Some(*x),
                None => self.stored_snapshot() is None,
            },
    {
        self.snapshot.as_ref()
    }

    /// Records a new snapshot of the page.
    pub fn set_snapshot(&mut self, snapshot: TextSnapshot)
        ensures
            final(self).page_id() == old(self).page_id(),
            final(self).handle() == old(self).handle(),
            final(self).has_snapshot(),
            final(self).stored_snapshot() == Some(snapshot),
            final(self).context_name() == old(self).context_name(),
    {
        self.snapshot = Some(snapshot);
    }

    /// The name of the isolated context the page belongs to, if any.
    pub fn isolated_context_name(&self) -> (r: Option<&String>)
        ensures
            match r {
                Some(x) => self.context_name() == Some(*x),
                None => self.context_name() is None,
            },
    {
        self.isolated_context_name.as_ref()
    }

    /// Sets the name of the isolated context the page belongs to.
    pub fn set_isolated_context_name(&mut self, name: Option<String>)
        ensures
            final(self).page_id() == old(self).page_id(),
            final(self).handle() == old(self).handle(),
            final(self).has_snapshot() == old(self).has_snapshot(),
            final(self).stored_snapshot() == old(self).stored_snapshot(),
            final(self).context_name() == name,
    {
        self.isolated_context_name = name;
    }
}

/// Central server state.
pub struct McpContext<P> {
    pages: Vec<(String, McpPageState<P>)>,
    selected_page: Option<String>,
    next_page_id: u32,
    is_running_trace: bool,
    trace_results: Vec<JsonValue>,
    next_snapshot_id: u32,
}

/// The view of the server state.
pub struct ContextModel {
    /// Target id and page id of each open page, in registration order.
    pub pages: Seq<(Seq<char>, u32)>,
    /// The target id of the selected page.
    pub selected: Option<Seq<char>>,
    pub next_page_id: u32,
    pub running_trace: bool,
    pub trace_results: Seq<JsonModel>,
    pub next_snapshot_id: u32,
}

impl<P> View for McpContext<P> {
    type V = ContextModel;

    closed spec fn view(&self) -> ContextModel {
        ContextModel {
            pages: keys_of(self.pages@).map_values(
                |e: (Seq<char>, McpPageState<P>)| (e.0, e.1.id),
            ),
            selected: match self.selected_page {
                Some(s) => Some(s@),
                None => None,
            },
            next_page_id: self.next_page_id,
            running_trace: self.is_running_trace,
            trace_results: self.trace_results@.map_values(|v: JsonValue| v.model()),
            next_snapshot_id: self.next_snapshot_id,
        }
    }
}

/// Whether some page has the id.
pub open spec fn has_page_id(pages: Seq<(Seq<char>, u32)>, id: u32) -> bool {
    exists|i: int| 0 <= i < pages.len() && pages[i].1 == id
}

/// The well-formedness of the server state: one entry per target, page
/// ids below the next id and distinct, and a selected page that is open.
pub open spec fn context_wf(m: ContextModel) -> bool {
    &&& distinct_keys(m.pages)
    &&& forall|i: int| 0 <= i < m.pages.len() ==> #[trigger] m.pages[i].1 < m.next_page_id
    &&& forall|i: int, j: int|
        0 <= i < j < m.pages.len() ==> #[trigger] m.pages[i].1 != #[trigger] m.pages[j].1
    &&& match m.selected {
        Some(t) => find(m.pages, t) is Some,
        None => true,
    }
}

impl<P> McpContext<P> {
    /// The page registered for a target.
    pub closed spec fn page_state(&self, target: Seq<char>) -> Option<McpPageState<P>> {
        find(keys_of(self.pages@), target)
    }

    /// Whether the state is well formed.
    pub open spec fn wf(&self) -> bool {
        context_wf(self@)
    }

    proof fn lemma_page_state(&self, target: Seq<char>)
        ensures
            match self.page_state(target) {
                Some(s) => find(self@.pages, target) == Some(s.page_id()),
                None => find(self@.pages, target) is None,
            },
    {
        lemma_first_index_keys(keys_of(self.pages@), self@.pages, target);
        lemma_first_index(self@.pages, target);
    }

    /// An empty state: no pages, ids counted from 1, no trace.
    pub fn new() -> (r: McpContext<P>)
        ensures
            r@.pages.len() == 0,
            r@.selected is None,
            r@.next_page_id == 1,
            !r@.running_trace,
            r@.trace_results.len() == 0,
            r@.next_snapshot_id == 1,
            r.wf(),
    {
        let r = McpContext {
            pages: Vec::new(),
            selected_page: None,
            next_page_id: 1,
            is_running_trace: false,
            trace_results: Vec::new(),
            next_snapshot_id: 1,
        };
        assert(r@.pages =~= Seq::<(Seq<char>, u32)>::empty());
        assert(r@.trace_results =~= Seq::<JsonModel>::empty());
        r
    }

    /// Register a page under its target id with the next page id, which is
    /// returned; the first page registered becomes the selected one.
    pub fn register_page(&mut self, target_id: String, page: P) -> (r: u32)
        requires
            old(self).wf(),
            old(self)@.next_page_id < u32::MAX,
        ensures
            final(self).wf(),
            r == old(self)@.next_page_id,
            final(self)@.next_page_id == r + 1,
            final(self)@.pages == assign(old(self)@.pages, target_id@, r),
            final(self)@.selected == (match old(self)@.selected {
                Some(s) => Some(s),
                None => Some(target_id@),
            }),
            (final(self).page_state(target_id@) matches Some(s) && s.handle() == page
                && s.page_id() == r),
            forall|t: Seq<char>|
                t != target_id@ ==> #[trigger] final(self).page_state(t) == old(self).page_state(t),
            final(self)@.running_trace == old(self)@.running_trace,
            final(self)@.trace_results == old(self)@.trace_results,
            final(self)@.next_snapshot_id == old(self)@.next_snapshot_id,
    {
        let id = self.next_page_id;
        self.next_page_id = self.next_page_id + 1;
        let ghost key = target_id@;
        let key_copy = target_id.clone();
        let state = McpPageState::new(id, page);
        let ghost before = keys_of(self.pages@);
        assign_entry(&mut self.pages, target_id, state);
        if self.selected_page.is_none() {
            self.selected_page = Some(key_copy);
        }
        proof {
            let old_pages = old(self)@.pages;
            lemma_first_index_keys(before, old_pages, key);
            lemma_first_index(old_pages, key);
            let i = first_index(old_pages, key);
            let after = keys_of(self.pages@);
            if i >= 0 {
                assert(after =~= before.update(i, (key, state)));
            } else {
                assert(after =~= before.push((key, state)));
            }
            assert(self@.pages =~= assign(old_pages, key, id));
            assert forall|t: Seq<char>| t != key implies #[trigger] self.page_state(t) == old(
                self,
            ).page_state(t) by {
                lemma_assign(before, key, state, t);
            }
            lemma_assign(old_pages, key, id, key);
            lemma_assign(before, key, state, key);
            crate::extensions::lemma_assign_keeps_distinct(old_pages, key, id);
            let np = self@.pages;
            assert forall|a: int| 0 <= a < np.len() implies #[trigger] np[a].1 < self@.next_page_id by {
                if i >= 0 && a != i || i < 0 && a < old_pages.len() {
                    assert(np[a] == old_pages[a]);
                }
            }
            assert forall|a: int, b: int| 0 <= a < b < np.len() implies #[trigger] np[a].1
                != #[trigger] np[b].1 by {
                if i >= 0 {
                    if a != i {
                        assert(np[a] == old_pages[a]);
                    }
                    if b != i {
                        assert(np[b] == old_pages[b]);
                    }
                } else {
                    assert(np[a] == old_pages[a]);
                    if b < old_pages.len() {
                        assert(np[b] == old_pages[b]);
                    }
                }
            }
            match old(self)@.selected {
                Some(s) => {
                    if s != key {
                        lemma_assign(old_pages, key, id, s);
                    }
                },
                None => {},
            }
            assert(self@.trace_results =~= old(self)@.trace_results);
        }
        id
    }

    /// The id the next registered page gets.
    pub fn next_page_id(&self) -> (r: u32)
        ensures
            r == self@.next_page_id,
    {
        self.next_page_id
    }

    /// The id the next snapshot gets.
    pub fn peek_snapshot_id(&self) -> (r: u32)
        ensures
            r == self@.next_snapshot_id,
    {
        self.next_snapshot_id
    }

    /// Whether a page is registered for the target.
    pub fn knows_target(&self, target_id: &str) -> (r: bool)
        ensures
            r == (find(self@.pages, target_id@) is Some),
    {
        let r = crate::assoc::position(&self.pages, target_id);
        proof {
            lemma_first_index_keys(keys_of(self.pages@), self@.pages, target_id@);
        }
        r.is_some()
    }

    /// The state of the selected page.
    pub fn selected_page(&self) -> (r: Option<&McpPageState<P>>)
        ensures
            match self@.selected {
                Some(t) => match r {
                    Some(s) => self.page_state(t) == Some(*s) && find(self@.pages, t) == Some(
                        s.page_id(),
                    ),
                    None => self.page_state(t) is None && find(self@.pages, t) is None,
                },
                None => r is None,
            },
    {
        match &self.selected_page {
            Some(t) => {
                let r = crate::assoc::lookup_entry(&self.pages, t.as_str());
                proof {
                    self.lemma_page_state(t@);
                }
                r
            },
            None => None,
        }
    }

    /// Records a snapshot for the selected page, if a page is selected.
    pub fn set_selected_snapshot(&mut self, snapshot: TextSnapshot)
        requires
            old(self).wf(),
        ensures
            final(self)@ == old(self)@,
            final(self).wf(),
            match old(self)@.selected {
                Some(t) => final(self).page_state(t) matches Some(s) && old(self).page_state(t) matches Some(o)
                    && s.page_id() == o.page_id() && s.handle() == o.handle()
                    && s.stored_snapshot() == Some(snapshot),
                None => true,
            },
            forall|t: Seq<char>|
                old(self)@.selected != Some(t) ==> #[trigger] final(self).page_state(t) == old(
                    self,
                ).page_state(t),
    {
        match &self.selected_page {
            Some(t) => {
                let key = t.clone();
                match crate::assoc::position(&self.pages, key.as_str()) {
                    Some(i) => {
                        let ghost before = self.pages@;
                        let ghost snap = snapshot;
                        let mut entry = self.pages.remove(i);
                        entry.1.set_snapshot(snapshot);
                        self.pages.insert(i, entry);
                        proof {
                            let kb = keys_of(before);
                            let ka = keys_of(self.pages@);
                            assert(self.pages@ =~= before.update(i as int, self.pages@[i as int]));
                            assert forall|k: int| 0 <= k < kb.len() implies #[trigger] kb[k].0 == ka[k].0 by {
                                if k != i {
                                    assert(ka[k] == kb[k]);
                                }
                            }
                            lemma_first_index_keys(kb, ka, key@);
                            assert(first_index(kb, key@) == i as int);
                            assert(ka[i as int].1.stored_snapshot() == Some(snap));
                            assert(find(ka, key@) == Some(ka[i as int].1));
                            assert(find(kb, key@) == Some(kb[i as int].1));
                            assert forall|t: Seq<char>| t != key@ implies #[trigger] find(ka, t)
                                == find(kb, t) by {
                                lemma_first_index_keys(kb, ka, t);
                                lemma_first_index(kb, t);
                                let f = first_index(kb, t);
                                if f >= 0 {
                                    assert(f != i);
                                    assert(ka[f] == kb[f]);
                                }
                            }
                        }
                        assert(self@.pages =~= old(self)@.pages) by {
                            assert forall|k: int| 0 <= k < self.pages@.len() implies (
                                #[trigger] self.pages@[k]).0@ == before[k].0@ && self.pages@[k].1.id
                                == before[k].1.id by {}
                        }
                        assert(self@.trace_results =~= old(self)@.trace_results);
                    },
                    None => {
                        proof {
                            lemma_first_index_keys(keys_of(self.pages@), self@.pages, key@);
                        }
                    },
                }
            },
            None => {},
        }
    }

    /// Select a page by its page id.
    pub fn select_page(&mut self, page_id: u32) -> (r: Result<(), String>)
        requires
            old(self).wf(),
        ensures
            final(self).wf(),
            final(self)@.pages == old(self)@.pages,
            r is Ok == has_page_id(old(self)@.pages, page_id),
            r is Ok ==> (final(self)@.selected matches Some(t) && find(final(self)@.pages, t)
                == Some(page_id)),
            r is Err ==> final(self)@ == old(self)@,
            r matches Err(e) ==> e@ == "No page found with id "@ + decimal(page_id as nat),
            final(self)@.next_page_id == old(self)@.next_page_id,
            final(self)@.running_trace == old(self)@.running_trace,
            final(self)@.trace_results == old(self)@.trace_results,
            final(self)@.next_snapshot_id == old(self)@.next_snapshot_id,
            forall|t: Seq<char>| #[trigger] final(self).page_state(t) == old(self).page_state(t),
    {
        let ghost pages = self@.pages;
        let mut found: Option<usize> = None;
        let mut i: usize = 0;
        while i < self.pages.len()
            invariant
                i <= self.pages@.len(),
                pages == self@.pages,
                pages.len() == self.pages@.len(),
                found is None ==> forall|k: int| 0 <= k < i ==> pages[k].1 != page_id,
                found matches Some(j) ==> j < pages.len() && pages[j as int].1 == page_id,
            decreases self.pages@.len() - i,
        {
            assert(pages[i as int] == (self.pages@[i as int].0@, self.pages@[i as int].1.id));
            if found.is_none() && self.pages[i].1.id == page_id {
                found = Some(i);
            }
            i = i + 1;
        }
        match found {
            Some(j) => {
                let t = self.pages[j].0.clone();
                proof {
                    assert(pages[j as int] == (self.pages@[j as int].0@, self.pages@[j as int].1.id));
                    assert forall|k: int| 0 <= k < j implies #[trigger] pages[k].0 != pages[j as int].0 by {}
                    lemma_first_index_at(pages, pages[j as int].0, j as int);
                }
                self.selected_page = Some(t);
                assert(self@.pages =~= pages);
                assert(self@.trace_results =~= old(self)@.trace_results);
                Ok(())
            },
            None => {
                let mut e = owned("No page found with id ");
                push_u64(&mut e, page_id as u64);
                Err(e)
            },
        }
    }

    /// The state of the page with a page id.
    pub fn get_page(&self, page_id: u32) -> (r: Option<&McpPageState<P>>)
        ensures
            r is Some == has_page_id(self@.pages, page_id),
            r matches Some(s) ==> s.page_id() == page_id,
            self.wf() ==> (r matches Some(s) ==> exists|t: Seq<char>|
                find(self@.pages, t) == Some(page_id) && #[trigger] self.page_state(t) == Some(*s)),
            self.wf() ==> forall|t: Seq<char>|
                #[trigger] find(self@.pages, t) == Some(page_id) ==> (r matches Some(s)
                    && self.page_state(t) == Some(*s)),
    {
        let ghost pages = self@.pages;
        let mut i: usize = 0;
        while i < self.pages.len()
            invariant
                i <= self.pages@.len(),
                pages == self@.pages,
                pages.len() == self.pages@.len(),
                forall|k: int| 0 <= k < i ==> pages[k].1 != page_id,
            decreases self.pages@.len() - i,
        {
            assert(pages[i as int].1 == self.pages@[i as int].1.id);
            if self.pages[i].1.id == page_id {
                proof {
                    if self.wf() {
                        let t = pages[i as int].0;
                        assert forall|j: int| 0 <= j < i implies #[trigger] pages[j].0 != t by {}
                        lemma_first_index_at(pages, t, i as int);
                        lemma_first_index_keys(keys_of(self.pages@), pages, t);
                        assert(self.page_state(t) == Some(self.pages@[i as int].1));
                        assert forall|u: Seq<char>| #[trigger] find(pages, u) == Some(page_id) implies self.page_state(u)
                            == Some(self.pages@[i as int].1) by {
                            lemma_first_index(pages, u);
                            let f = first_index(pages, u);
                            assert(pages[f].1 == page_id);
                            assert(f == i);
                        }
                    }
                }
                return Some(&self.pages[i].1);
            }
            i = i + 1;
        }
        proof {
            assert forall|u: Seq<char>| #[trigger] find(pages, u) == Some(page_id) implies false by {
                lemma_first_index(pages, u);
                let f = first_index(pages, u);
                assert(pages[f].1 == page_id);
            }
        }
        None
    }

    /// All open pages, in registration order.
    pub fn list_pages(&self) -> (r: Vec<&McpPageState<P>>)
        ensures
            r@.len() == self@.pages.len(),
            forall|i: int| 0 <= i < r@.len() ==> #[trigger] r@[i].page_id() == self@.pages[i].1,
    {
        let mut out: Vec<&McpPageState<P>> = Vec::new();
        let mut i: usize = 0;
        while i < self.pages.len()
            invariant
                i <= self.pages@.len(),
                self@.pages.len() == self.pages@.len(),
                out@.len() == i,
                forall|k: int| 0 <= k < i ==> #[trigger] out@[k].page_id() == self@.pages[k].1,
            decreases self.pages@.len() - i,
        {
            out.push(&self.pages[i].1);
            i = i + 1;
        }
        out
    }

    /// Remove the page of a target. Where it was the selected page, another
    /// open page (if any) becomes the selected one.
    #[verifier::rlimit(40)]
    pub fn remove_page(&mut self, target_id: &str)
        requires
            old(self).wf(),
        ensures
            final(self).wf(),
            final(self)@.pages == unassign(old(self)@.pages, target_id@),
            final(self).page_state(target_id@) is None,
            forall|t: Seq<char>|
                t != target_id@ ==> #[trigger] final(self).page_state(t) == old(self).page_state(t),
            old(self)@.selected != Some(target_id@) ==> final(self)@.selected == old(
                self,
            )@.selected,
            old(self)@.selected == Some(target_id@) ==> (final(self)@.selected is None
                <==> final(self)@.pages.len() == 0),
            final(self)@.next_page_id == old(self)@.next_page_id,
            final(self)@.running_trace == old(self)@.running_trace,
            final(self)@.trace_results == old(self)@.trace_results,
            final(self)@.next_snapshot_id == old(self)@.next_snapshot_id,
    {
        let ghost old_pages = self@.pages;
        let ghost before = keys_of(self.pages@);
        unassign_entry(&mut self.pages, target_id);
        proof {
            lemma_first_index_keys(before, old_pages, target_id@);
            lemma_first_index(old_pages, target_id@);
            let i = first_index(old_pages, target_id@);
            if i >= 0 {
                assert(keys_of(self.pages@) =~= before.remove(i));
            }
            assert(self@.pages =~= unassign(old_pages, target_id@));
            assert forall|t: Seq<char>| t != target_id@ implies #[trigger] self.page_state(t) == old(
                self,
            ).page_state(t) by {
                lemma_unassign(before, target_id@, t);
            }
            assert forall|a: int, b: int| 0 <= a < b < before.len() implies #[trigger] before[a].0
                != #[trigger] before[b].0 by {
                assert(before[a].0 == old_pages[a].0);
                assert(before[b].0 == old_pages[b].0);
            }
            lemma_unassign(before, target_id@, target_id@);
            crate::extensions::lemma_unassign_keeps_distinct(old_pages, target_id@);
            let np = self@.pages;
            if i >= 0 {
                assert forall|a: int| 0 <= a < np.len() implies #[trigger] np[a].1 < self@.next_page_id by {
                    let a0 = if a < i { a } else { a + 1 };
                    assert(np[a] == old_pages[a0]);
                }
                assert forall|a: int, b: int| 0 <= a < b < np.len() implies #[trigger] np[a].1
                    != #[trigger] np[b].1 by {
                    let a0 = if a < i { a } else { a + 1 };
                    let b0 = if b < i { b } else { b + 1 };
                    assert(np[a] == old_pages[a0]);
                    assert(np[b] == old_pages[b0]);
                }
            }
            assert(self@.trace_results =~= old(self)@.trace_results);
        }
        let was_selected = match &self.selected_page {
            Some(s) => crate::text::str_eq(s.as_str(), target_id),
            None => false,
        };
        if was_selected {
            if self.pages.len() > 0 {
                let first = self.pages[0].0.clone();
                proof {
                    lemma_first_index_at(self@.pages, self@.pages[0].0, 0);
                }
                self.selected_page = Some(first);
            } else {
                self.selected_page = None;
            }
        } else {
            proof {
                match old(self)@.selected {
                    Some(s) => {
                        lemma_unassign(old_pages, target_id@, s);
                    },
                    None => {},
                }
            }
        }
        proof {
            assert forall|t: Seq<char>| t != target_id@ implies #[trigger] self.page_state(t) == old(
                self,
            ).page_state(t) by {
                lemma_unassign(before, target_id@, t);
            }
        }
    }

    /// The next snapshot id; the counter moves on.
    pub fn next_snapshot_id(&mut self) -> (r: u32)
        requires
            old(self)@.next_snapshot_id < u32::MAX,
        ensures
            r == old(self)@.next_snapshot_id,
            final(self)@ == (ContextModel { next_snapshot_id: (r + 1) as u32, ..old(self)@ }),
            forall|t: Seq<char>| #[trigger] final(self).page_state(t) == old(self).page_state(t),
    {
        let id = self.next_snapshot_id;
        self.next_snapshot_id = self.next_snapshot_id + 1;
        assert(self@.pages =~= old(self)@.pages);
        assert(self@.trace_results =~= old(self)@.trace_results);
        id
    }

    /// Whether a performance trace is being recorded.
    pub fn is_running_trace(&self) -> (r: bool)
        ensures
            r == self@.running_trace,
    {
        self.is_running_trace
    }

    /// The answer to a request to start a trace while one is being
    /// recorded; nothing where none is.
    pub fn trace_start_refusal(&self) -> (r: Option<&'static str>)
        ensures
            r is Some <==> self@.running_trace,
            r matches Some(m) ==> m@ == "A trace is already running. Stop it first."@,
    {
        if self.is_running_trace {
            Some("A trace is already running. Stop it first.")
        } else {
            None
        }
    }

    /// The answer to a request to stop a trace while none is being
    /// recorded; nothing where one is.
    pub fn trace_stop_refusal(&self) -> (r: Option<&'static str>)
        ensures
            r is Some <==> !self@.running_trace,
            r matches Some(m) ==> m@ == "No trace is running."@,
    {
        if self.is_running_trace {
            None
        } else {
            Some("No trace is running.")
        }
    }

    /// Records whether a performance trace is being recorded.
    pub fn set_running_trace(&mut self, running: bool)
        ensures
            final(self)@ == (ContextModel { running_trace: running, ..old(self)@ }),
            forall|t: Seq<char>| #[trigger] final(self).page_state(t) == old(self).page_state(t),
    {
        self.is_running_trace = running;
        assert(self@.pages =~= old(self)@.pages);
        assert(self@.trace_results =~= old(self)@.trace_results);
    }

    /// Keeps `result` as the only stored trace result.
    pub fn store_trace_result(&mut self, result: JsonValue)
        ensures
            final(self)@ == (ContextModel { trace_results: seq![result.model()], ..old(self)@ }),
            forall|t: Seq<char>| #[trigger] final(self).page_state(t) == old(self).page_state(t),
    {
        self.trace_results.clear();
        let ghost m = result.model();
        self.trace_results.push(result);
        assert(self@.pages =~= old(self)@.pages);
        assert(self@.trace_results =~= seq![m]);
    }

    /// The stored trace results.
    pub fn trace_results(&self) -> (r: &Vec<JsonValue>)
        ensures
            r@.map_values(|v: JsonValue| v.model()) == self@.trace_results,
    {
        &self.trace_results
    }
}

/// A registered page can be selected by the id its registration returned:
/// after `register_page` gives `id` to a target, a page with that id is open.
pub proof fn law_registered_page_selectable(pages: Seq<(Seq<char>, u32)>, target: Seq<char>, id: u32)
    ensures
        has_page_id(assign(pages, target, id), id),
{
    lemma_assign(pages, target, id, target);
    let np = assign(pages, target, id);
    lemma_first_index(np, target);
    let i = first_index(np, target);
    assert(np[i].1 == id);
}

/// What `register_page` does to a well-formed state, as its contract gives
/// it: the new page's id belongs to no page that was open, the page is
/// found under its target with that id, the next registration gets the
/// following id, and the first page registered becomes the selected one
/// (a selection already made stays). Registration is defined while the id
/// counter is below its maximum; past it the counter would overflow.
pub proof fn law_register_page(before: ContextModel, target: Seq<char>, after: ContextModel, id: u32)
    requires
        context_wf(before),
        before.next_page_id < u32::MAX,
        id == before.next_page_id,
        after.pages == assign(before.pages, target, id),
        after.next_page_id == id + 1,
        after.selected == (match before.selected {
            Some(s) => Some(s),
            None => Some(target),
        }),
    ensures
        !has_page_id(before.pages, id),
        has_page_id(after.pages, id),
        find(after.pages, target) == Some(id),
        after.next_page_id == id + 1,
        before.selected is None ==> after.selected == Some(target),
        before.selected is Some ==> after.selected == before.selected,
{
    law_registered_page_selectable(before.pages, target, id);
    lemma_assign(before.pages, target, id, target);
    if has_page_id(before.pages, id) {
        let i = choose|i: int| 0 <= i < before.pages.len() && before.pages[i].1 == id;
        assert(before.pages[i].1 < before.next_page_id);
    }
}

/// The page list shown by `list_pages`: one line per page (id and URL,
/// marking the selected one), or a notice when there is none.
pub open spec fn page_list_text(pages: Seq<(u32, Seq<char>)>, selected: Option<u32>) -> Seq<char> {
    if pages.len() == 0 {
        "No pages open."@
    } else {
        page_lines(pages, selected)
    }
}

/// The lines of a page list.
pub open spec fn page_lines(pages: Seq<(u32, Seq<char>)>, selected: Option<u32>) -> Seq<char>
    decreases pages.len(),
{
    if pages.len() == 0 {
        Seq::empty()
    } else {
        let p = pages.last();
        page_lines(pages.drop_last(), selected) + "Page "@ + decimal(p.0 as nat) + ": "@ + p.1 + (
        if selected == Some(p.0) {
            " (selected)"@
        } else {
            Seq::empty()
        }) + "\n"@
    }
}

/// Renders the page list from the pages' ids and URLs.
pub fn format_page_list(pages: &Vec<(u32, String)>, selected: Option<u32>) -> (r: String)
    ensures
        r@ == page_list_text(pages@.map_values(|p: (u32, String)| (p.0, p.1@)), selected),
{
    let ghost pv = pages@.map_values(|p: (u32, String)| (p.0, p.1@));
    if pages.len() == 0 {
        return owned("No pages open.");
    }
    let mut out = String::new();
    let mut i: usize = 0;
    while i < pages.len()
        invariant
            i <= pages@.len(),
            pv == pages@.map_values(|p: (u32, String)| (p.0, p.1@)),
            out@ == page_lines(pv.take(i as int), selected),
        decreases pages@.len() - i,
    {
        assert(pv.take(i + 1).drop_last() =~= pv.take(i as int));
        assert(pv.take(i + 1).last() == (pages@[i as int].0, pages@[i as int].1@));
        push_str(&mut out, "Page ");
        push_u64(&mut out, pages[i].0 as u64);
        push_str(&mut out, ": ");
        push_str(&mut out, pages[i].1.as_str());
        let is_selected = match selected {
            Some(s) => s == pages[i].0,
            None => false,
        };
        if is_selected {
            push_str(&mut out, " (selected)");
        }
        push_str(&mut out, "\n");
        i = i + 1;
        assert(out@ =~= page_lines(pv.take(i as int), selected));
    }
    assert(pv.take(pages@.len() as int) =~= pv);
    out
}

} // verus!
