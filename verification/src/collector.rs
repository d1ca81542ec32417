//! Event collectors: network requests and console messages per page.
//!
//! Each page (keyed by its target id) holds a list of navigation buckets;
//! events go into the newest bucket, and a navigation opens a new bucket,
//! keeping only the last three navigations. The network collector also
//! hands out stable request ids.
//!
//! The collectors here are plain values; sharing them between tasks (behind
//! a lock) is left to the caller.

use vstd::prelude::*;

use crate::assoc::{
    assign, assign_entry, find, first_index, keys_of, lemma_assign, lemma_first_index,
    lemma_first_index_keys, lookup_entry, position,
};
use crate::json::{model_get, opt_str, JsonModel, JsonValue};
use crate::text::owned;

verus! {

/// How many navigations a page keeps.
pub const KEPT_NAVIGATIONS: usize = 3;

/// The views of one bucket of events.
pub open spec fn bucket_model(b: Vec<JsonValue>) -> Seq<JsonModel> {
    b@.map_values(|v: JsonValue| v.model())
}

/// The views of a page's buckets.
pub open spec fn buckets_model(bs: Vec<Vec<JsonValue>>) -> Seq<Seq<JsonModel>> {
    bs@.map_values(|b: Vec<JsonValue>| bucket_model(b))
}

/// The views of the per-page bucket lists.
pub open spec fn pages_model(d: Seq<(String, Vec<Vec<JsonValue>>)>) -> Seq<
    (Seq<char>, Seq<Seq<JsonModel>>),
> {
    d.map_values(|e: (String, Vec<Vec<JsonValue>>)| (e.0@, buckets_model(e.1)))
}

/// Per-page navigation buckets.
pub type Pages = Seq<(Seq<char>, Seq<Seq<JsonModel>>)>;

/// Pages after `add_page`: a page that is not yet known starts with one
/// empty bucket; a known page is left as it is.
pub open spec fn page_added(pages: Pages, target: Seq<char>) -> Pages {
    if find(pages, target) is Some {
        pages
    } else {
        pages.push((target, seq![Seq::<JsonModel>::empty()]))
    }
}

/// The last `KEPT_NAVIGATIONS` buckets.
pub open spec fn keep_recent(b: Seq<Seq<JsonModel>>) -> Seq<Seq<JsonModel>> {
    if b.len() > 3 {
        b.subrange(b.len() - 3, b.len() as int)
    } else {
        b
    }
}

/// Pages after a navigation of `target`: a new empty bucket, and only the
/// last three buckets kept. Unknown pages are ignored.
pub open spec fn navigated(pages: Pages, target: Seq<char>) -> Pages {
    match find(pages, target) {
        Some(b) => assign(pages, target, keep_recent(b.push(Seq::empty()))),
        None => pages,
    }
}

/// Pages after an event for `target`: the event is appended to the newest
/// bucket. Unknown pages (and pages without buckets) are ignored.
pub open spec fn event_added(pages: Pages, target: Seq<char>, event: JsonModel) -> Pages {
    match find(pages, target) {
        Some(b) => if b.len() > 0 {
            assign(pages, target, b.drop_last().push(b.last().push(event)))
        } else {
            pages
        },
        None => pages,
    }
}

/// The events of the current navigation of `target` (none for an unknown page).
pub open spec fn current_events(pages: Pages, target: Seq<char>) -> Seq<JsonModel> {
    match find(pages, target) {
        Some(b) => if b.len() > 0 {
            b.last()
        } else {
            Seq::empty()
        },
        None => Seq::empty(),
    }
}

/// Every event kept for `target`, oldest navigation first.
pub open spec fn all_events(pages: Pages, target: Seq<char>) -> Seq<JsonModel> {
    match find(pages, target) {
        Some(b) => b.flatten_alt(),
        None => Seq::empty(),
    }
}

/// Every known page keeps between one and three navigation buckets.
pub open spec fn buckets_bounded(pages: Pages) -> bool {
    forall|i: int| 0 <= i < pages.len() ==> 1 <= #[trigger] pages[i].1.len() <= 3
}

/// The request id that an event carries (`requestId`, when it is a string).
pub open spec fn request_key(event: JsonModel) -> Option<Seq<char>> {
    opt_str(model_get(event, "requestId"@))
}

/// The state of a network collector.
pub struct NetworkState {
    pub pages: Pages,
    pub next_id: u32,
    pub ids: Seq<(Seq<char>, u32)>,
}

/// The network collector's state after recording `request` for `target`:
/// a request with an id gets the next stable id, and the request joins the
/// page's current navigation.
pub open spec fn request_recorded(s: NetworkState, target: Seq<char>, request: JsonModel) -> NetworkState {
    let with_id = match request_key(request) {
        Some(rid) => NetworkState {
            pages: s.pages,
            next_id: (s.next_id + 1) as u32,
            ids: assign(s.ids, rid, s.next_id),
        },
        None => s,
    };
    NetworkState {
        pages: event_added(with_id.pages, target, request),
        next_id: with_id.next_id,
        ids: with_id.ids,
    }
}

/// Collects network requests per page.
pub struct NetworkCollector {
    data: Vec<(String, Vec<Vec<JsonValue>>)>,
    next_id: u32,
    id_map: Vec<(String, u32)>,
}

impl View for NetworkCollector {
    type V = NetworkState;

    closed spec fn view(&self) -> NetworkState {
        NetworkState { pages: pages_model(self.data@), next_id: self.next_id, ids: keys_of(self.id_map@) }
    }
}

/// Copies of the events of one bucket.
fn copy_bucket(b: &Vec<JsonValue>) -> (r: Vec<JsonValue>)
    ensures
        bucket_model(r) == bucket_model(*b),
{
    let mut r: Vec<JsonValue> = Vec::new();
    let mut i: usize = 0;
    while i < b.len()
        invariant
            i <= b@.len(),
            r@.len() == i,
            forall|k: int| 0 <= k < i ==> #[trigger] r@[k].model() == b@[k].model(),
        decreases b@.len() - i,
    {
        r.push(b[i].duplicate());
        i = i + 1;
    }
    assert(bucket_model(r) =~= bucket_model(*b));
    r
}

/// Position of a page, with `find` on the page views.
fn page_position(data: &Vec<(String, Vec<Vec<JsonValue>>)>, target: &str) -> (r: Option<usize>)
    ensures
        match r {
            Some(i) => i < data@.len() && data@[i as int].0@ == target@ && first_index(
                pages_model(data@),
                target@,
            ) == i && find(pages_model(data@), target@) == Some(buckets_model(data@[i as int].1)),
            None => find(pages_model(data@), target@) is None,
        },
{
    let r = position(data, target);
    proof {
        lemma_first_index_keys(keys_of(data@), pages_model(data@), target@);
    }
    r
}

/// Adds a page with one empty bucket unless it is already known.
fn add_page_to(data: &mut Vec<(String, Vec<Vec<JsonValue>>)>, target: &str)
    ensures
        pages_model(final(data)@) == page_added(pages_model(old(data)@), target@),
{
    match page_position(data, target) {
        Some(_) => {},
        None => {
            let mut buckets: Vec<Vec<JsonValue>> = Vec::new();
            let first: Vec<JsonValue> = Vec::new();
            assert(bucket_model(first) =~= Seq::<JsonModel>::empty());
            buckets.push(first);
            let ghost fresh = buckets;
            data.push((owned(target), buckets));
            assert(buckets_model(fresh) =~= seq![Seq::<JsonModel>::empty()]);
            assert(pages_model(data@) =~= page_added(pages_model(old(data)@), target@));
        },
    }
}

/// Puts back a page's buckets at the position it was taken from.
proof fn lemma_put_back(
    data: Seq<(String, Vec<Vec<JsonValue>>)>,
    i: int,
    entry: (String, Vec<Vec<JsonValue>>),
    target: Seq<char>,
)
    requires
        0 <= i < data.len(),
        first_index(pages_model(data), target) == i,
        entry.0@ == target,
    ensures
        pages_model(data.remove(i).insert(i, entry)) == assign(
            pages_model(data),
            target,
            buckets_model(entry.1),
        ),
{
    assert(pages_model(data.remove(i).insert(i, entry)) =~= pages_model(data).update(
        i,
        (target, buckets_model(entry.1)),
    ));
}

/// Opens a new bucket for a known page, keeping the last three.
fn navigate_in(data: &mut Vec<(String, Vec<Vec<JsonValue>>)>, target: &str)
    ensures
        pages_model(final(data)@) == navigated(pages_model(old(data)@), target@),
{
    match page_position(data, target) {
        Some(i) => {
            let ghost old_data = data@;
            let (key, mut buckets) = data.remove(i);
            let fresh: Vec<JsonValue> = Vec::new();
            assert(bucket_model(fresh) =~= Seq::<JsonModel>::empty());
            buckets.push(fresh);
            let ghost full = buckets_model(buckets);
            assert(full =~= buckets_model(old_data[i as int].1).push(Seq::empty()));
            let ghost mut dropped: int = 0;
            while buckets.len() > KEPT_NAVIGATIONS
                invariant
                    0 <= dropped <= full.len(),
                    buckets_model(buckets) == full.subrange(dropped, full.len() as int),
                    full.len() > 3 ==> dropped <= full.len() - 3,
                    full.len() <= 3 ==> dropped == 0,
                decreases buckets@.len(),
            {
                let ghost before = buckets;
                buckets.remove(0);
                proof {
                    dropped = dropped + 1;
                    assert(buckets_model(buckets) =~= buckets_model(before).drop_first());
                    assert(buckets_model(buckets) =~= full.subrange(dropped, full.len() as int));
                }
            }
            assert(buckets_model(buckets) =~= keep_recent(full));
            let ghost entry = (key, buckets);
            data.insert(i, (key, buckets));
            proof {
                lemma_put_back(old_data, i as int, entry, target@);
            }
        },
        None => {},
    }
}

/// Appends an event to the newest bucket of a known page.
fn add_event_to(data: &mut Vec<(String, Vec<Vec<JsonValue>>)>, target: &str, event: JsonValue)
    ensures
        pages_model(final(data)@) == event_added(pages_model(old(data)@), target@, event.model()),
{
    match page_position(data, target) {
        Some(i) => {
            let ghost old_data = data@;
            let ghost em = event.model();
            let (key, mut buckets) = data.remove(i);
            let ghost old_b = buckets_model(buckets);
            if buckets.len() > 0 {
                let mut last = buckets.pop().unwrap();
                let ghost last_before = bucket_model(last);
                assert(last_before == old_b.last());
                last.push(event);
                assert(bucket_model(last) =~= last_before.push(em));
                let ghost shorter = buckets;
                assert(buckets_model(shorter) =~= old_b.drop_last());
                buckets.push(last);
                assert(buckets_model(buckets) =~= old_b.drop_last().push(old_b.last().push(em)));
                let ghost entry = (key, buckets);
                data.insert(i, (key, buckets));
                proof {
                    lemma_put_back(old_data, i as int, entry, target@);
                }
            } else {
                data.insert(i, (key, buckets));
                assert(data@ =~= old_data);
            }
        },
        None => {},
    }
}

/// Copies of the newest bucket of a page.
fn current_of(data: &Vec<(String, Vec<Vec<JsonValue>>)>, target: &str) -> (r: Vec<JsonValue>)
    ensures
        bucket_model(r) == current_events(pages_model(data@), target@),
{
    match page_position(data, target) {
        Some(i) => {
            let buckets = &data[i].1;
            if buckets.len() > 0 {
                copy_bucket(&buckets[buckets.len() - 1])
            } else {
                let r: Vec<JsonValue> = Vec::new();
                assert(bucket_model(r) =~= Seq::<JsonModel>::empty());
                r
            }
        },
        None => {
            let r: Vec<JsonValue> = Vec::new();
            assert(bucket_model(r) =~= Seq::<JsonModel>::empty());
            r
        },
    }
}

/// The id carried by a request, if it is a string.
fn request_key_of(request: &JsonValue) -> (r: Option<String>)
    ensures
        match r {
            Some(s) => request_key(request.model()) == Some(s@),
            None => request_key(request.model()) is None,
        },
{
    match request.get("requestId") {
        Some(v) => match v.as_str() {
            Some(s) => Some(owned(s)),
            None => None,
        },
        None => None,
    }
}

impl NetworkCollector {
    /// An empty collector.
    pub fn new() -> (r: Self)
        ensures
            r@.pages == Pages::empty(),
            r@.next_id == 0,
            r@.ids == Seq::<(Seq<char>, u32)>::empty(),
    {
        let r = NetworkCollector { data: Vec::new(), next_id: 0, id_map: Vec::new() };
        assert(r@.pages =~= Pages::empty());
        assert(r@.ids =~= Seq::<(Seq<char>, u32)>::empty());
        r
    }

    /// The id the next request with a `requestId` will get.
    pub fn next_request_id(&self) -> (r: u32)
        ensures
            r == self@.next_id,
    {
        self.next_id
    }

    /// Start collecting for a page.
    pub fn add_page(&mut self, target_id: &str)
        ensures
            final(self)@ == (NetworkState {
                pages: page_added(old(self)@.pages, target_id@),
                ..old(self)@
            }),
    {
        add_page_to(&mut self.data, target_id);
    }

    /// Record a new navigation for a page (starts a new bucket).
    pub fn on_navigation(&mut self, target_id: &str)
        ensures
            final(self)@ == (NetworkState {
                pages: navigated(old(self)@.pages, target_id@),
                ..old(self)@
            }),
    {
        navigate_in(&mut self.data, target_id);
    }

    /// Add a network request event. A request with a `requestId` gets the
    /// next stable id; the id counter must not be exhausted then.
    pub fn add_request(&mut self, target_id: &str, request: JsonValue)
        requires
            request_key(request.model()) is Some ==> old(self)@.next_id < u32::MAX,
        ensures
            final(self)@ == request_recorded(old(self)@, target_id@, request.model()),
    {
        match request_key_of(&request) {
            Some(rid) => {
                let id = self.next_id;
                self.next_id = self.next_id + 1;
                assign_entry(&mut self.id_map, rid, id);
            },
            None => {},
        }
        add_event_to(&mut self.data, target_id, request);
    }

    /// All requests of the page's current navigation.
    pub fn get_requests(&self, target_id: &str) -> (r: Vec<JsonValue>)
        ensures
            bucket_model(r) == current_events(self@.pages, target_id@),
    {
        current_of(&self.data, target_id)
    }

    /// The stable id given to a request.
    pub fn get_request_id(&self, cdp_request_id: &str) -> (r: Option<u32>)
        ensures
            r == find(self@.ids, cdp_request_id@),
    {
        match lookup_entry(&self.id_map, cdp_request_id) {
            Some(v) => Some(*v),
            None => None,
        }
    }
}

/// The state of a console collector.
pub struct ConsoleState {
    pub pages: Pages,
    pub next_id: u32,
}

/// Collects console messages per page.
pub struct ConsoleCollector {
    data: Vec<(String, Vec<Vec<JsonValue>>)>,
    next_id: u32,
}

impl View for ConsoleCollector {
    type V = ConsoleState;

    closed spec fn view(&self) -> ConsoleState {
        ConsoleState { pages: pages_model(self.data@), next_id: self.next_id }
    }
}

impl ConsoleCollector {
    /// An empty collector.
    pub fn new() -> (r: Self)
        ensures
            r@.pages == Pages::empty(),
            r@.next_id == 0,
    {
        let r = ConsoleCollector { data: Vec::new(), next_id: 0 };
        assert(r@.pages =~= Pages::empty());
        r
    }

    /// Start collecting for a page.
    pub fn add_page(&mut self, target_id: &str)
        ensures
            final(self)@ == (ConsoleState {
                pages: page_added(old(self)@.pages, target_id@),
                ..old(self)@
            }),
    {
        add_page_to(&mut self.data, target_id);
    }

    /// Record a new navigation.
    pub fn on_navigation(&mut self, target_id: &str)
        ensures
            final(self)@ == (ConsoleState {
                pages: navigated(old(self)@.pages, target_id@),
                ..old(self)@
            }),
    {
        navigate_in(&mut self.data, target_id);
    }

    /// Add a console message event.
    pub fn add_message(&mut self, target_id: &str, message: JsonValue)
        ensures
            final(self)@ == (ConsoleState {
                pages: event_added(old(self)@.pages, target_id@, message.model()),
                ..old(self)@
            }),
    {
        add_event_to(&mut self.data, target_id, message);
    }

    /// Messages of the page: every kept navigation, oldest first, when
    /// `include_preserved`, otherwise the current navigation only.
    pub fn get_messages(&self, target_id: &str, include_preserved: bool) -> (r: Vec<JsonValue>)
        ensures
            bucket_model(r) == if include_preserved {
                all_events(self@.pages, target_id@)
            } else {
                current_events(self@.pages, target_id@)
            },
    {
        if !include_preserved {
            return current_of(&self.data, target_id);
        }
        match page_position(&self.data, target_id) {
            Some(p) => {
                let buckets = &self.data[p].1;
                let ghost bm = buckets_model(*buckets);
                let mut r: Vec<JsonValue> = Vec::new();
                let mut i: usize = 0;
                while i < buckets.len()
                    invariant
                        i <= buckets@.len(),
                        bm.len() == buckets@.len(),
                        bm == buckets_model(*buckets),
                        bucket_model(r) == bm.take(i as int).flatten_alt(),
                    decreases buckets@.len() - i,
                {
                    let ghost before = bucket_model(r);
                    let copy = copy_bucket(&buckets[i]);
                    let mut j: usize = 0;
                    while j < copy.len()
                        invariant
                            i < buckets@.len(),
                            bm.len() == buckets@.len(),
                            j <= copy@.len(),
                            bucket_model(copy) == bm[i as int],
                            bucket_model(r) == before + bucket_model(copy).take(j as int),
                        decreases copy@.len() - j,
                    {
                        let ghost r_before = r;
                        let d = copy[j].duplicate();
                        r.push(d);
                        assert(r@ == r_before@.push(d));
                        assert(bucket_model(r) =~= bucket_model(r_before).push(d.model()));
                        assert(bucket_model(copy)[j as int] == copy@[j as int].model());
                        assert(bucket_model(copy).take(j + 1) =~= bucket_model(copy).take(j as int).push(
                            bucket_model(copy)[j as int],
                        ));
                        assert(bucket_model(r) =~= before + bucket_model(copy).take(j + 1));
                        j = j + 1;
                    }
                    assert(bucket_model(copy).take(copy@.len() as int) =~= bucket_model(copy));
                    assert(bm.take(i + 1).drop_last() =~= bm.take(i as int));
                    i = i + 1;
                }
                assert(bm.take(buckets@.len() as int) =~= bm);
                r
            },
            None => {
                let r: Vec<JsonValue> = Vec::new();
                assert(bucket_model(r) =~= Seq::<JsonModel>::empty());
                r
            },
        }
    }

    /// Get the next message id and advance the counter, which must not be
    /// exhausted.
    pub fn next_id(&mut self) -> (r: u32)
        requires
            old(self)@.next_id < u32::MAX,
        ensures
            r == old(self)@.next_id,
            final(self)@ == (ConsoleState { next_id: (old(self)@.next_id + 1) as u32, ..old(self)@ }),
    {
        let id = self.next_id;
        self.next_id = self.next_id + 1;
        id
    }
}

// ---------------------------------------------------------------------------
// Laws
// ---------------------------------------------------------------------------

/// Collecting for a page never loses what it already holds: adding a known
/// page changes nothing, and a new page starts with no events.
pub proof fn law_add_page_keeps_events(pages: Pages, target: Seq<char>, other: Seq<char>)
    ensures
        current_events(page_added(pages, target), target) == current_events(pages, target),
        find(page_added(pages, target), other) == if other == target && find(pages, target) is None {
            Some(seq![Seq::<JsonModel>::empty()])
        } else {
            find(pages, other)
        },
{
    if find(pages, target) is None {
        lemma_first_index(pages, target);
        lemma_first_index(pages, other);
        let p2 = page_added(pages, target);
        assert(p2 == assign(pages, target, seq![Seq::<JsonModel>::empty()]));
        lemma_assign(pages, target, seq![Seq::<JsonModel>::empty()], other);
        assert(seq![Seq::<JsonModel>::empty()].last() =~= Seq::<JsonModel>::empty());
    }
}

/// An event recorded for a known page is the last of its current events;
/// the earlier current events stay before it.
pub proof fn law_event_read_back(pages: Pages, target: Seq<char>, event: JsonModel)
    requires
        find(pages, target) is Some,
        find(pages, target).unwrap().len() > 0,
    ensures
        current_events(event_added(pages, target, event), target) == current_events(
            pages,
            target,
        ).push(event),
{
    let b = find(pages, target).unwrap();
    lemma_assign(pages, target, b.drop_last().push(b.last().push(event)), target);
}

/// Recording an event for one page leaves every other page as it was.
pub proof fn law_event_other_pages(pages: Pages, target: Seq<char>, event: JsonModel, other: Seq<char>)
    requires
        other != target,
    ensures
        find(event_added(pages, target, event), other) == find(pages, other),
{
    match find(pages, target) {
        Some(b) => {
            if b.len() > 0 {
                lemma_assign(pages, target, b.drop_last().push(b.last().push(event)), other);
            }
        },
        None => {},
    }
}

/// After a navigation, a known page's current events are empty, and the
/// events of the previous navigations remain (at most three navigations in all).
pub proof fn law_navigation_starts_fresh(pages: Pages, target: Seq<char>)
    requires
        find(pages, target) is Some,
    ensures
        current_events(navigated(pages, target), target) == Seq::<JsonModel>::empty(),
        find(navigated(pages, target), target) == Some(
            keep_recent(find(pages, target).unwrap().push(Seq::empty())),
        ),
{
    let b = find(pages, target).unwrap();
    lemma_assign(pages, target, keep_recent(b.push(Seq::empty())), target);
}

/// Navigating one page leaves every other page as it was.
pub proof fn law_navigation_other_pages(pages: Pages, target: Seq<char>, other: Seq<char>)
    requires
        other != target,
    ensures
        find(navigated(pages, target), other) == find(pages, other),
{
    match find(pages, target) {
        Some(b) => {
            lemma_assign(pages, target, keep_recent(b.push(Seq::empty())), other);
        },
        None => {},
    }
}

/// Pages keep between one and three navigation buckets under every operation.
pub proof fn law_buckets_bounded(pages: Pages, target: Seq<char>, event: JsonModel)
    requires
        buckets_bounded(pages),
    ensures
        buckets_bounded(page_added(pages, target)),
        buckets_bounded(navigated(pages, target)),
        buckets_bounded(event_added(pages, target, event)),
{
    lemma_first_index(pages, target);
    let i = first_index(pages, target);
    let p1 = page_added(pages, target);
    assert forall|k: int| 0 <= k < p1.len() implies 1 <= #[trigger] p1[k].1.len() <= 3 by {
        if k < pages.len() {
            assert(p1[k] == pages[k]);
        }
    }
    if i >= 0 {
        let b = pages[i].1;
        let nb = keep_recent(b.push(Seq::empty()));
        let p2 = navigated(pages, target);
        assert forall|k: int| 0 <= k < p2.len() implies 1 <= #[trigger] p2[k].1.len() <= 3 by {
            if k != i {
                assert(p2[k] == pages[k]);
            } else {
                assert(p2[k].1 == nb);
            }
        }
        let p3 = event_added(pages, target, event);
        assert forall|k: int| 0 <= k < p3.len() implies 1 <= #[trigger] p3[k].1.len() <= 3 by {
            if k != i {
                assert(p3[k] == pages[k]);
            }
        }
    }
}

/// A request carrying an id can be looked up by that id afterwards, under
/// the id that was next before it was recorded; ids are handed out in order.
pub proof fn law_request_id_read_back(s: NetworkState, target: Seq<char>, request: JsonModel)
    requires
        request_key(request) is Some,
        s.next_id < u32::MAX,
    ensures
        find(request_recorded(s, target, request).ids, request_key(request).unwrap()) == Some(
            s.next_id,
        ),
        request_recorded(s, target, request).next_id == s.next_id + 1,
{
    let rid = request_key(request).unwrap();
    lemma_assign(s.ids, rid, s.next_id, rid);
}

} // verus!
