//! The dedup cache: the set of location keys currently considered marked
//! active, and the per-cycle reconciliation that turns a snapshot of cell
//! reports into events for newly-activated locations.

use vstd::prelude::*;
use vstd::string::StrSliceExecFns;
use std::collections::hash_map::RandomState;
use dashmap::DashMap;
use crate::auth::{sanitize, spec_sanitize, MARKER};
use crate::types::{AppError, BattleEvent, Location, LocationView};

verus! {

#[verifier::external_type_specification]
#[verifier::external_body]
#[verifier::reject_recursive_types(K)]
#[verifier::reject_recursive_types(V)]
#[verifier::reject_recursive_types(S)]
pub struct ExDashMap<K, V, S>(DashMap<K, V, S>);

/// The set of keys a concurrent key-set map currently holds. What the
/// trusted operations below say of it is all that is known.
pub uninterp spec fn recorded_keys(m: DashMap<String, (), RandomState>) -> Set<Seq<char>>;

/// Relies on DashMap::new: a freshly created map holds no entries.
#[verifier::external_body]
fn dash_new() -> (m: DashMap<String, (), RandomState>)
    ensures
        recorded_keys(m) == Set::<Seq<char>>::empty(),
{
    DashMap::new()
}

/// Relies on DashMap::insert: adds the key and returns the previous value
/// under it, so `None` means the key was absent.
#[verifier::external_body]
fn dash_insert(m: &mut DashMap<String, (), RandomState>, key: &String) -> (r: bool)
    ensures
        recorded_keys(*final(m)) == recorded_keys(*old(m)).insert(key@),
        r == !recorded_keys(*old(m)).contains(key@),
{
    m.insert(key.clone(), ()).is_none()
}

/// Relies on DashMap::remove: takes the entry out and returns it if it
/// existed, so `Some` means the key was present.
#[verifier::external_body]
fn dash_remove(m: &mut DashMap<String, (), RandomState>, key: &String) -> (r: bool)
    ensures
        recorded_keys(*final(m)) == recorded_keys(*old(m)).remove(key@),
        r == recorded_keys(*old(m)).contains(key@),
{
    m.remove(key).is_some()
}

/// Relies on DashMap::contains_key: whether the map holds the key.
#[verifier::external_body]
fn dash_contains(m: &DashMap<String, (), RandomState>, key: &str) -> (r: bool)
    ensures
        r == recorded_keys(*m).contains(key@),
{
    m.contains_key(key)
}

/// Relies on DashMap::len: the number of entries in the map.
#[verifier::external_body]
fn dash_len(m: &DashMap<String, (), RandomState>) -> (n: usize)
    ensures
        n == recorded_keys(*m).len(),
{
    m.len()
}

/// Tracks which locations the most recent poll cycle observed as marked.
/// A key is present exactly while its location is considered active.
pub struct DedupCache {
    entries: DashMap<String, (), RandomState>,
}

impl DedupCache {
    /// The set of active location keys, for contracts.
    pub closed spec fn active_keys(&self) -> Set<Seq<char>> {
        recorded_keys(self.entries)
    }

    /// An empty cache: nothing is considered active yet.
    pub fn new() -> (c: DedupCache)
        ensures
            c.active_keys() == Set::<Seq<char>>::empty(),
    {
        DedupCache { entries: dash_new() }
    }

    /// Inserts the location's key. True exactly on an inactive-to-active
    /// transition, the edge on which an event is owed.
    pub fn mark_active(&mut self, loc: &Location) -> (r: bool)
        ensures
            final(self).active_keys() == old(self).active_keys().insert(loc@.key()),
            r == !old(self).active_keys().contains(loc@.key()),
    {
        let key = loc.as_string();
        dash_insert(&mut self.entries, &key)
    }

    /// Removes the location's key. True exactly when it was present;
    /// informational only, no event follows.
    pub fn mark_inactive(&mut self, loc: &Location) -> (r: bool)
        ensures
            final(self).active_keys() == old(self).active_keys().remove(loc@.key()),
            r == old(self).active_keys().contains(loc@.key()),
    {
        let key = loc.as_string();
        dash_remove(&mut self.entries, &key)
    }

    /// Whether the given concatenated coordinate key is currently active.
    pub fn contains_key(&self, key: &str) -> (r: bool)
        ensures
            r == self.active_keys().contains(key@),
    {
        dash_contains(&self.entries, key)
    }

    /// How many locations are currently active.
    pub fn len(&self) -> (n: usize)
        ensures
            n == self.active_keys().len(),
    {
        dash_len(&self.entries)
    }
}

/// What one snapshot reports of one grid cell: the raw text of its three
/// labelled corners, exactly as extracted from the page.
pub struct CellReport {
    pub bottom_left: String,
    pub bottom_right: String,
    pub top_right: String,
}

/// The mathematical value of a cell report.
pub struct CellView {
    pub bottom_left: Seq<char>,
    pub bottom_right: Seq<char>,
    pub top_right: Seq<char>,
}

impl View for CellReport {
    type V = CellView;

    open spec fn view(&self) -> CellView {
        CellView {
            bottom_left: self.bottom_left@,
            bottom_right: self.bottom_right@,
            top_right: self.top_right@,
        }
    }
}

/// The location a cell stands for, after sanitizing its coordinates.
pub open spec fn cell_location(c: CellView) -> LocationView {
    LocationView {
        bottom_right: spec_sanitize(c.bottom_right),
        top_right: spec_sanitize(c.top_right),
    }
}

/// The key under which a cell's location is tracked.
pub open spec fn cell_key(c: CellView) -> Seq<char> {
    cell_location(c).key()
}

/// Whether the snapshot reports the cell as marked: its bottom-left text
/// carries the marker glyph after sanitizing.
pub open spec fn cell_marked(c: CellView) -> bool {
    spec_sanitize(c.bottom_left).contains(MARKER)
}

/// Whether the cell yields a usable location: both sanitized coordinates
/// are non-empty.
pub open spec fn cell_valid(c: CellView) -> bool {
    spec_sanitize(c.bottom_right).len() > 0 && spec_sanitize(c.top_right).len() > 0
}

/// One cell's effect on the active set: a marked cell's key is inserted,
/// an unmarked cell's key is removed; cells not in the snapshot at all are
/// never touched.
pub open spec fn cache_step(s: Set<Seq<char>>, c: CellView) -> Set<Seq<char>> {
    if cell_marked(c) {
        s.insert(cell_key(c))
    } else {
        s.remove(cell_key(c))
    }
}

/// The active set after reconciling a snapshot, cell by cell in order.
pub open spec fn cache_after(s: Set<Seq<char>>, cells: Seq<CellView>) -> Set<Seq<char>>
    decreases cells.len(),
{
    if cells.len() == 0 {
        s
    } else {
        cache_step(cache_after(s, cells.drop_last()), cells.last())
    }
}

/// The events one cell emits against a given active set: exactly one, for
/// a marked cell whose key was absent.
pub open spec fn events_step(s: Set<Seq<char>>, c: CellView) -> Seq<LocationView> {
    if cell_marked(c) && !s.contains(cell_key(c)) {
        seq![cell_location(c)]
    } else {
        Seq::<LocationView>::empty()
    }
}

/// All events a snapshot emits: each cell is judged against the active set
/// left by the cells before it.
pub open spec fn events_after(s: Set<Seq<char>>, cells: Seq<CellView>) -> Seq<LocationView>
    decreases cells.len(),
{
    if cells.len() == 0 {
        Seq::<LocationView>::empty()
    } else {
        events_after(s, cells.drop_last()) + events_step(
            cache_after(s, cells.drop_last()),
            cells.last(),
        )
    }
}

/// The views of a snapshot's cells, in order.
pub open spec fn cell_views(cells: Seq<CellReport>) -> Seq<CellView> {
    cells.map_values(|c: CellReport| c@)
}

proof fn lemma_reconcile_step(s: Set<Seq<char>>, cells: Seq<CellView>, i: int)
    requires
        0 <= i < cells.len(),
    ensures
        cache_after(s, cells.take(i + 1)) == cache_step(cache_after(s, cells.take(i)), cells[i]),
        events_after(s, cells.take(i + 1)) == events_after(s, cells.take(i)) + events_step(
            cache_after(s, cells.take(i)),
            cells[i],
        ),
{
    assert(cells.take(i + 1).drop_last() =~= cells.take(i));
    assert(cells.take(i + 1).last() == cells[i]);
}

fn contains_char(s: &str, c: char) -> (r: bool)
    ensures
        r == s@.contains(c),
{
    let n = s.unicode_len();
    let mut i: usize = 0;
    while i < n
        invariant
            i <= n,
            n == s@.len(),
            forall|j: int| 0 <= j < i ==> s@[j] != c,
        decreases n - i,
    {
        if s.get_char(i) == c {
            assert(s@.contains(c)) by {
                assert(s@[i as int] == c);
            }
            return true;
        }
        i += 1;
    }
    assert(!s@.contains(c));
    false
}

impl DedupCache {
    /// One poll cycle's reconciliation: every cell reported marked is made
    /// active, every cell reported present-but-unmarked is made inactive,
    /// and each inactive-to-active edge yields one event for the cell's
    /// location. A cell whose sanitized coordinates come out empty stops
    /// the cycle with a parse failure; what was reconciled before it
    /// stands.
    pub fn reconcile(&mut self, cells: &Vec<CellReport>) -> (r: Result<
        Vec<BattleEvent>,
        AppError,
    >)
        ensures
            (r is Ok) <==> (forall|i: int|
                0 <= i < cells@.len() ==> cell_valid(cell_views(cells@)[i])),
            r is Ok ==> final(self).active_keys() == cache_after(
                old(self).active_keys(),
                cell_views(cells@),
            ),
            r is Ok ==> r->Ok_0@.map_values(|e: BattleEvent| e@) == events_after(
                old(self).active_keys(),
                cell_views(cells@),
            ),
            r is Err ==> (r->Err_0 matches AppError::HtmlParse(m) && m@
                == "Invalid location coordinates"@),
            r is Err ==> exists|k: int|
                {
                    &&& 0 <= k < cells@.len()
                    &&& !cell_valid(#[trigger] cell_views(cells@)[k])
                    &&& (forall|j: int| 0 <= j < k ==> cell_valid(cell_views(cells@)[j]))
                    &&& final(self).active_keys() == cache_after(
                        old(self).active_keys(),
                        cell_views(cells@).take(k),
                    )
                },
    {
        let ghost s0 = old(self).active_keys();
        let ghost cv = cell_views(cells@);
        let mut events: Vec<BattleEvent> = Vec::new();
        let mut i: usize = 0;
        while i < cells.len()
            invariant
                i <= cells@.len(),
                s0 == old(self).active_keys(),
                cv == cell_views(cells@),
                cv.len() == cells@.len(),
                forall|j: int| 0 <= j < i ==> cell_valid(cv[j]),
                self.active_keys() == cache_after(s0, cv.take(i as int)),
                events@.map_values(|e: BattleEvent| e@) == events_after(s0, cv.take(i as int)),
            decreases cells@.len() - i,
        {
            let cell = &cells[i];
            let sanitized_bottom_right = sanitize(cell.bottom_right.as_str());
            let sanitized_top_right = sanitize(cell.top_right.as_str());
            let location = match Location::new(sanitized_bottom_right, sanitized_top_right) {
                Ok(l) => l,
                Err(e) => {
                    proof {
                        let k = i as int;
                        assert(!cell_valid(cell_views(cells@)[k]));
                        assert(self.active_keys() == cache_after(
                            old(self).active_keys(),
                            cell_views(cells@).take(k),
                        ));
                    }
                    return Err(e);
                },
            };
            let marker_text = sanitize(cell.bottom_left.as_str());
            proof {
                lemma_reconcile_step(s0, cv, i as int);
                assert(location@ == cell_location(cv[i as int]));
            }
            if contains_char(marker_text.as_str(), MARKER) {
                let newly_active = self.mark_active(&location);
                if newly_active {
                    events.push(BattleEvent { location });
                    proof {
                        assert(events@.map_values(|e: BattleEvent| e@) =~= events_after(
                            s0,
                            cv.take(i + 1),
                        ));
                    }
                } else {
                    proof {
                        assert(events@.map_values(|e: BattleEvent| e@) =~= events_after(
                            s0,
                            cv.take(i + 1),
                        ));
                    }
                }
            } else {
                self.mark_inactive(&location);
                proof {
                    assert(events@.map_values(|e: BattleEvent| e@) =~= events_after(
                        s0,
                        cv.take(i + 1),
                    ));
                }
            }
            i += 1;
        }
        proof {
            assert(cv.take(cells@.len() as int) =~= cv);
        }
        Ok(events)
    }
}

/// A one-cell cycle acts on the active set and emits events exactly as
/// the single-cell step functions say.
pub proof fn lemma_single_cycle(s: Set<Seq<char>>, c: CellView)
    ensures
        cache_after(s, seq![c]) == cache_step(s, c),
        events_after(s, seq![c]) == events_step(s, c),
{
    let single = seq![c];
    assert(single.drop_last() =~= Seq::<CellView>::empty());
    assert(cache_after(s, Seq::<CellView>::empty()) == s);
    assert(events_after(s, Seq::<CellView>::empty()) == Seq::<LocationView>::empty());
    assert(single.last() == c);
    assert(cache_after(s, single) == cache_step(s, c));
    assert(events_after(s, single) == Seq::<LocationView>::empty() + events_step(s, c));
    assert(Seq::<LocationView>::empty() + events_step(s, c) =~= events_step(s, c));
}

/// Idempotence: a location reported marked in two consecutive cycles with
/// no inactive signal in between yields exactly one event, on the first
/// cycle's activation edge and never on the second.
pub proof fn lemma_mark_active_idempotent(s: Set<Seq<char>>, c: CellView)
    requires
        cell_marked(c),
        !s.contains(cell_key(c)),
    ensures
        events_after(s, seq![c]) == seq![cell_location(c)],
        events_after(cache_after(s, seq![c]), seq![c]) == Seq::<LocationView>::empty(),
{
    lemma_single_cycle(s, c);
    let s1 = cache_after(s, seq![c]);
    lemma_single_cycle(s1, c);
    assert(s1 == s.insert(cell_key(c)));
    assert(events_step(s, c) =~= seq![cell_location(c)]);
    assert(s1.contains(cell_key(c)));
    assert(events_step(s1, c) =~= Seq::<LocationView>::empty());
}

/// Re-trigger: active, then inactive, then active again for the same
/// location yields exactly two events, one per activation edge.
pub proof fn lemma_retrigger(s: Set<Seq<char>>, on: CellView, off: CellView)
    requires
        cell_marked(on),
        !cell_marked(off),
        cell_key(off) == cell_key(on),
        !s.contains(cell_key(on)),
    ensures
        ({
            let s1 = cache_after(s, seq![on]);
            let s2 = cache_after(s1, seq![off]);
            &&& events_after(s, seq![on]) == seq![cell_location(on)]
            &&& events_after(s1, seq![off]) == Seq::<LocationView>::empty()
            &&& events_after(s2, seq![on]) == seq![cell_location(on)]
        }),
{
    lemma_single_cycle(s, on);
    let s1 = cache_after(s, seq![on]);
    lemma_single_cycle(s1, off);
    let s2 = cache_after(s1, seq![off]);
    lemma_single_cycle(s2, on);
    assert(s1 == s.insert(cell_key(on)));
    assert(s2 == s1.remove(cell_key(on)));
    assert(events_step(s, on) =~= seq![cell_location(on)]);
    assert(events_step(s1, off) =~= Seq::<LocationView>::empty());
    assert(!s2.contains(cell_key(on)));
    assert(events_step(s2, on) =~= seq![cell_location(on)]);
}

} // verus!
