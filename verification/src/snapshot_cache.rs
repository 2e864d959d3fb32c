//! Per-stock snapshot caches keyed by event markers: a snapshot is computed
//! again only when the marker of its inputs changes.
use vstd::prelude::*;
use crate::catalog::{copy_strings, str_eq, strings_view};
use crate::financial_marker::{FinancialEventMarker, MarkerContent};
use crate::panel::DailyPanel;

verus! {

/// The content of an optional marker.
pub open spec fn opt_marker_view(m: Option<FinancialEventMarker>) -> Option<MarkerContent> {
    match m {
        Some(x) => Some(x@),
        None => None,
    }
}

/// Whether `b` is a clone of `a`: both absent, or both present with `b`
/// cloned from `a`.
pub open spec fn clone_of<T: Clone>(a: Option<T>, b: Option<T>) -> bool {
    &&& (a is None <==> b is None)
    &&& (a is Some ==> cloned(a.unwrap(), b.unwrap()))
}

/// The last marker and snapshot cached for each stock, by stock position.
#[derive(Clone, Debug)]
pub struct FinancialStockSnapshotCache<T> {
    slots: Vec<(Option<FinancialEventMarker>, Option<T>)>,
}

impl<T: Clone> FinancialStockSnapshotCache<T> {
    /// The cached marker of each stock.
    pub closed spec fn markers_view(self) -> Seq<Option<MarkerContent>> {
        self.slots@.map_values(|s: (Option<FinancialEventMarker>, Option<T>)| opt_marker_view(s.0))
    }

    /// The cached snapshot of each stock.
    pub closed spec fn snapshots_view(self) -> Seq<Option<T>> {
        self.slots@.map_values(|s: (Option<FinancialEventMarker>, Option<T>)| s.1)
    }

    /// An empty cache for `instrument_count` stocks.
    pub fn new(instrument_count: usize) -> (r: Self)
        ensures
            r.markers_view() == Seq::new(instrument_count as nat, |i: int| None::<MarkerContent>),
            r.snapshots_view() == Seq::new(instrument_count as nat, |i: int| None::<T>),
    {
        let mut slots: Vec<(Option<FinancialEventMarker>, Option<T>)> = Vec::new();
        let mut i: usize = 0;
        while i < instrument_count
            invariant
                i <= instrument_count,
                slots@.len() == i,
                forall|j: int| 0 <= j < i ==> (#[trigger] slots@[j]).0 is None && slots@[j].1 is None,
            decreases instrument_count - i,
        {
            slots.push((None, None));
            i = i + 1;
        }
        let r = FinancialStockSnapshotCache { slots };
        assert(r.markers_view() =~= Seq::new(instrument_count as nat, |i: int| None::<MarkerContent>));
        assert(r.snapshots_view() =~= Seq::new(instrument_count as nat, |i: int| None::<T>));
        r
    }

    /// Forgets the marker and snapshot of stock `instrument_idx`.
    pub fn clear(&mut self, instrument_idx: usize)
        ensures
            instrument_idx < old(self).markers_view().len() ==> final(self).markers_view() == old(self).markers_view().update(instrument_idx as int, None) && final(self).snapshots_view() == old(self).snapshots_view().update(instrument_idx as int, None),
            instrument_idx >= old(self).markers_view().len() ==> final(self).markers_view() == old(self).markers_view() && final(self).snapshots_view() == old(self).snapshots_view(),
    {
        if instrument_idx < self.slots.len() {
            self.slots.set(instrument_idx, (None, None));
            proof {
                assert(self.markers_view() =~= old(self).markers_view().update(instrument_idx as int, None));
                assert(self.snapshots_view() =~= old(self).snapshots_view().update(instrument_idx as int, None));
            }
        }
    }

    /// The cached snapshot of stock `instrument_idx` when its cached marker
    /// equals `marker`.
    fn lookup(&self, instrument_idx: usize, marker: &FinancialEventMarker) -> (r: Option<Option<T>>)
        requires
            instrument_idx < self.markers_view().len(),
        ensures
            r is Some <==> self.markers_view()[instrument_idx as int] == Some(marker@),
            r matches Some(s) ==> clone_of(self.snapshots_view()[instrument_idx as int], s),
    {
        let slot = &self.slots[instrument_idx];
        let same = match &slot.0 {
            Some(cached) => cached.same_as(marker),
            None => false,
        };
        if same {
            Some(slot.1.clone())
        } else {
            None
        }
    }

    /// Caches `marker` and a clone of `snapshot` for stock `instrument_idx`,
    /// and hands `snapshot` back.
    fn store(&mut self, instrument_idx: usize, marker: FinancialEventMarker, snapshot: Option<T>) -> (r:
        Option<T>)
        requires
            instrument_idx < old(self).markers_view().len(),
        ensures
            r == snapshot,
            final(self).markers_view() == old(self).markers_view().update(instrument_idx as int, Some(marker@)),
            final(self).snapshots_view().len() == old(self).snapshots_view().len(),
            clone_of(snapshot, final(self).snapshots_view()[instrument_idx as int]),
            forall|j: int|
                0 <= j < old(self).snapshots_view().len() && j != instrument_idx ==> #[trigger] final(self).snapshots_view()[j] == old(self).snapshots_view()[j],
    {
        let ghost m = marker@;
        let kept = snapshot.clone();
        self.slots.set(instrument_idx, (Some(marker), kept));
        proof {
            assert(self.markers_view() =~= old(self).markers_view().update(instrument_idx as int, Some(m)));
        }
        snapshot
    }

    /// The snapshot of stock `instrument_idx` for `marker`: the cached one
    /// when the cached marker equals `marker`, else a fresh one from
    /// `compute`, which is then cached.  Without a marker nothing is cached
    /// and nothing is returned; a position past the cache returns nothing.
    pub fn get_or_update<F>(&mut self, instrument_idx: usize, marker: Option<FinancialEventMarker>, compute: F) -> (r:
        Option<T>) where F: FnOnce() -> Option<T>
        requires
            call_requires(compute, ()),
        ensures
            final(self).markers_view().len() == old(self).markers_view().len(),
            final(self).snapshots_view().len() == old(self).snapshots_view().len(),
            instrument_idx >= old(self).markers_view().len() ==> r is None && final(self).markers_view()
                == old(self).markers_view() && final(self).snapshots_view() == old(self).snapshots_view(),
            instrument_idx < old(self).markers_view().len() && marker is None ==> r is None && final(self).markers_view() == old(self).markers_view().update(instrument_idx as int, None) && final(self).snapshots_view() == old(self).snapshots_view().update(instrument_idx as int, None),
            instrument_idx < old(self).markers_view().len() && marker is Some && old(self).markers_view()[instrument_idx as int]
                == opt_marker_view(marker) ==> final(self).markers_view() == old(self).markers_view()
                && final(self).snapshots_view() == old(self).snapshots_view() && clone_of(
                old(self).snapshots_view()[instrument_idx as int],
                r,
            ),
            instrument_idx < old(self).markers_view().len() && marker is Some && old(self).markers_view()[instrument_idx as int]
                != opt_marker_view(marker) ==> call_ensures(compute, (), r) && final(self).markers_view()
                == old(self).markers_view().update(instrument_idx as int, opt_marker_view(marker))
                && clone_of(r, final(self).snapshots_view()[instrument_idx as int]) && forall|j: int|
                0 <= j < old(self).snapshots_view().len() && j != instrument_idx ==> #[trigger] final(self).snapshots_view()[j] == old(self).snapshots_view()[j],
    {
        if instrument_idx >= self.slots.len() {
            return None;
        }
        let marker = match marker {
            Some(m) => m,
            None => {
                self.clear(instrument_idx);
                return None;
            },
        };
        match self.lookup(instrument_idx, &marker) {
            Some(cached) => cached,
            None => {
                let snapshot = compute();
                self.store(instrument_idx, marker, snapshot)
            },
        }
    }
}

/// The last position of `x` in `s`.
pub open spec fn last_pos(s: Seq<Seq<char>>, x: Seq<char>) -> Option<int>
    decreases s.len(),
{
    if s.len() == 0 {
        None
    } else if s.last() == x {
        Some(s.len() - 1)
    } else {
        last_pos(s.drop_last(), x)
    }
}

pub(crate) proof fn lemma_last_pos_bounds(s: Seq<Seq<char>>, x: Seq<char>)
    ensures
        last_pos(s, x) matches Some(j) ==> 0 <= j < s.len() && s[j] == x,
    decreases s.len(),
{
    if s.len() > 0 && s.last() != x {
        lemma_last_pos_bounds(s.drop_last(), x);
    }
}

/// The last position of `x` in `items`.
pub(crate) fn last_index_of(items: &[String], x: &str) -> (r: Option<usize>)
    ensures
        opt_usize_int(r) == last_pos(strings_view(items@), x@),
{
    let ghost v = strings_view(items@);
    let mut found: Option<usize> = None;
    let mut i: usize = 0;
    while i < items.len()
        invariant
            i <= items@.len(),
            v == strings_view(items@),
            opt_usize_int(found) == last_pos(v.subrange(0, i as int), x@),
        decreases items@.len() - i,
    {
        proof {
            assert(v.subrange(0, i + 1).drop_last() =~= v.subrange(0, i as int));
        }
        if str_eq(items[i].as_str(), x) {
            found = Some(i);
        }
        i = i + 1;
    }
    proof {
        assert(v.subrange(0, v.len() as int) =~= v);
    }
    found
}

/// An optional position widened to `int`.
pub open spec fn opt_usize_int(o: Option<usize>) -> Option<int> {
    match o {
        Some(x) => Some(x as int),
        None => None,
    }
}

/// Whether two string lists hold the same strings in the same order.
pub(crate) fn same_strings(a: &[String], b: &[String]) -> (r: bool)
    ensures
        r == (strings_view(a@) == strings_view(b@)),
{
    if a.len() != b.len() {
        proof {
            assert(strings_view(a@).len() != strings_view(b@).len());
        }
        return false;
    }
    let mut i: usize = 0;
    while i < a.len()
        invariant
            i <= a@.len(),
            a@.len() == b@.len(),
            forall|j: int| 0 <= j < i ==> a@[j]@ == b@[j]@,
        decreases a@.len() - i,
    {
        if !str_eq(a[i].as_str(), b[i].as_str()) {
            proof {
                assert(strings_view(a@)[i as int] != strings_view(b@)[i as int]);
            }
            return false;
        }
        i = i + 1;
    }
    assert(strings_view(a@) =~= strings_view(b@));
    true
}

/// A snapshot cache whose stock positions follow a list of instrument codes.
#[derive(Clone, Debug)]
pub struct InstrumentAlignedSnapshotCache<T> {
    instruments: Vec<String>,
    cache: FinancialStockSnapshotCache<T>,
}

impl<T: Clone> Default for InstrumentAlignedSnapshotCache<T> {
    fn default() -> (r: Self)
        ensures
            r.instruments_view().len() == 0,
            r.markers_view().len() == 0,
            r.snapshots_view().len() == 0,
    {
        InstrumentAlignedSnapshotCache { instruments: Vec::new(), cache: FinancialStockSnapshotCache::new(0) }
    }
}

impl<T: Clone> InstrumentAlignedSnapshotCache<T> {
    /// The instrument codes the positions follow.
    pub closed spec fn instruments_view(self) -> Seq<Seq<char>> {
        strings_view(self.instruments@)
    }

    /// The cached marker of each position.
    pub closed spec fn markers_view(self) -> Seq<Option<MarkerContent>> {
        self.cache.markers_view()
    }

    /// The cached snapshot of each position.
    pub closed spec fn snapshots_view(self) -> Seq<Option<T>> {
        self.cache.snapshots_view()
    }

    /// Re-keys the cache to `instruments`: each code keeps what was cached
    /// for it (for the last position it held), new codes start empty.
    pub fn align_to(&mut self, instruments: &[String])
        ensures
            strings_view(instruments@) == old(self).instruments_view() && old(self).markers_view().len()
                == instruments@.len() ==> final(self).instruments_view() == old(self).instruments_view()
                && final(self).markers_view() == old(self).markers_view() && final(self).snapshots_view()
                == old(self).snapshots_view(),
            final(self).instruments_view() == strings_view(instruments@),
            final(self).markers_view().len() == instruments@.len(),
            final(self).snapshots_view().len() == instruments@.len(),
            realigned(
                old(self).instruments_view(),
                old(self).markers_view(),
                old(self).snapshots_view(),
                strings_view(instruments@),
                final(self).markers_view(),
                final(self).snapshots_view(),
            ),
            !(strings_view(instruments@) == old(self).instruments_view() && old(self).markers_view().len()
                == instruments@.len()) ==> final(self).markers_view().len()
                == instruments@.len() && final(self).snapshots_view().len() == instruments@.len() && forall|k: int|
                0 <= k < instruments@.len() ==> match last_pos(old(self).instruments_view(), instruments@[k]@) {
                    Some(j) => if j < old(self).markers_view().len() {
                        #[trigger] final(self).markers_view()[k] == old(self).markers_view()[j] && clone_of(
                            old(self).snapshots_view()[j],
                            final(self).snapshots_view()[k],
                        )
                    } else {
                        final(self).markers_view()[k] is None && final(self).snapshots_view()[k] is None
                    },
                    None => final(self).markers_view()[k] is None && final(self).snapshots_view()[k] is None,
                },
    {
        if self.cache.slots.len() == instruments.len() && same_strings(&self.instruments, instruments) {
            proof {
                assert(self.cache.markers_view().len() == self.cache.slots@.len());
                assert(self.cache.snapshots_view().len() == self.cache.slots@.len());
            }
            return;
        }
        let ghost old_codes = strings_view(self.instruments@);
        let ghost old_markers = self.cache.markers_view();
        let ghost old_snaps = self.cache.snapshots_view();
        let mut slots: Vec<(Option<FinancialEventMarker>, Option<T>)> = Vec::new();
        let mut k: usize = 0;
        while k < instruments.len()
            invariant
                k <= instruments@.len(),
                slots@.len() == k,
                old_codes == strings_view(self.instruments@),
                old_markers == self.cache.markers_view(),
                old_snaps == self.cache.snapshots_view(),
                old_markers.len() == self.cache.slots@.len(),
                forall|q: int|
                    0 <= q < k ==> match last_pos(old_codes, instruments@[q]@) {
                        Some(j) => if j < old_markers.len() {
                            opt_marker_view((#[trigger] slots@[q]).0) == old_markers[j] && clone_of(
                                old_snaps[j],
                                slots@[q].1,
                            )
                        } else {
                            slots@[q].0 is None && slots@[q].1 is None
                        },
                        None => slots@[q].0 is None && slots@[q].1 is None,
                    },
            decreases instruments@.len() - k,
        {
            let slot = match last_index_of(&self.instruments, instruments[k].as_str()) {
                Some(j) => {
                    if j < self.cache.slots.len() {
                        let old_slot = &self.cache.slots[j];
                        let m = match &old_slot.0 {
                            Some(x) => Some(x.clone()),
                            None => None,
                        };
                        (m, old_slot.1.clone())
                    } else {
                        (None, None)
                    }
                },
                None => (None, None),
            };
            slots.push(slot);
            k = k + 1;
        }
        self.instruments = copy_strings(instruments);
        self.cache = FinancialStockSnapshotCache { slots };
    }

    /// Forgets what is cached for position `instrument_idx`.
    pub fn clear(&mut self, instrument_idx: usize)
        ensures
            final(self).instruments_view() == old(self).instruments_view(),
            instrument_idx < old(self).markers_view().len() ==> final(self).markers_view() == old(self).markers_view().update(instrument_idx as int, None) && final(self).snapshots_view() == old(self).snapshots_view().update(instrument_idx as int, None),
            instrument_idx >= old(self).markers_view().len() ==> final(self).markers_view() == old(self).markers_view() && final(self).snapshots_view() == old(self).snapshots_view(),
    {
        self.cache.clear(instrument_idx);
    }

    /// [`FinancialStockSnapshotCache::get_or_update`] on position `instrument_idx`.
    pub fn get_or_update<F>(&mut self, instrument_idx: usize, marker: Option<FinancialEventMarker>, compute: F) -> (r:
        Option<T>) where F: FnOnce() -> Option<T>
        requires
            call_requires(compute, ()),
        ensures
            final(self).instruments_view() == old(self).instruments_view(),
            final(self).markers_view().len() == old(self).markers_view().len(),
            final(self).snapshots_view().len() == old(self).snapshots_view().len(),
            instrument_idx >= old(self).markers_view().len() ==> r is None && final(self).markers_view()
                == old(self).markers_view() && final(self).snapshots_view() == old(self).snapshots_view(),
            instrument_idx < old(self).markers_view().len() && marker is None ==> r is None && final(self).markers_view() == old(self).markers_view().update(instrument_idx as int, None) && final(self).snapshots_view() == old(self).snapshots_view().update(instrument_idx as int, None),
            instrument_idx < old(self).markers_view().len() && marker is Some && old(self).markers_view()[instrument_idx as int]
                == opt_marker_view(marker) ==> final(self).markers_view() == old(self).markers_view()
                && final(self).snapshots_view() == old(self).snapshots_view() && clone_of(
                old(self).snapshots_view()[instrument_idx as int],
                r,
            ),
            instrument_idx < old(self).markers_view().len() && marker is Some && old(self).markers_view()[instrument_idx as int]
                != opt_marker_view(marker) ==> call_ensures(compute, (), r) && final(self).markers_view()
                == old(self).markers_view().update(instrument_idx as int, opt_marker_view(marker))
                && clone_of(r, final(self).snapshots_view()[instrument_idx as int]) && forall|j: int|
                0 <= j < old(self).snapshots_view().len() && j != instrument_idx ==> #[trigger] final(self).snapshots_view()[j] == old(self).snapshots_view()[j],
    {
        self.cache.get_or_update(instrument_idx, marker, compute)
    }
}

/// Offset of the cell of date position `d` and instrument position `i` in a
/// date-major grid of `m` instruments.
pub open spec fn cell_offset(d: int, i: int, m: int) -> int {
    d * m + i
}

pub(crate) proof fn lemma_cell_in_grid(d: int, i: int, n: int, m: int)
    requires
        0 <= d < n,
        0 <= i < m,
    ensures
        0 <= cell_offset(d, i, m) < n * m,
        d * m <= cell_offset(d, i, m),
        cell_offset(d, i, m) + 1 <= (d + 1) * m,
{
    assert(0 <= d * m) by (nonlinear_arith)
        requires
            0 <= d,
            0 <= m,
    ;
    assert((d + 1) * m <= n * m) by (nonlinear_arith)
        requires
            d + 1 <= n,
            0 <= m,
    ;
    assert((d + 1) * m == d * m + m) by (nonlinear_arith);
}

pub(crate) proof fn lemma_cells_distinct(d1: int, i1: int, d2: int, i2: int, m: int)
    requires
        0 <= i1 < m,
        0 <= i2 < m,
        d1 != d2,
        0 <= d1,
        0 <= d2,
    ensures
        cell_offset(d1, i1, m) != cell_offset(d2, i2, m),
{
    if d1 < d2 {
        assert(d1 * m + m <= d2 * m) by (nonlinear_arith)
            requires
                d1 + 1 <= d2,
                0 <= m,
        ;
    } else {
        assert(d2 * m + m <= d1 * m) by (nonlinear_arith)
            requires
                d2 + 1 <= d1,
                0 <= m,
        ;
    }
}

/// Whether a cell whose filters answered `marker` is computed afresh given
/// the stock's cached marker and snapshot `slot`: it has a marker and the
/// cached one differs.
pub open spec fn recomputes<T>(slot: (Option<MarkerContent>, Option<T>), marker: Option<FinancialEventMarker>) -> bool {
    match marker {
        Some(x) => slot.0 != Some(x@),
        None => false,
    }
}

/// The stock's cached marker and snapshot after one of its cells: a skipped
/// cell or one without a marker forgets both; the cached marker keeps them;
/// any other marker is cached with `kept`, the clone kept of the fresh
/// snapshot.
pub open spec fn slot_after<T>(
    slot: (Option<MarkerContent>, Option<T>),
    skipped: bool,
    marker: Option<FinancialEventMarker>,
    kept: Option<T>,
) -> (Option<MarkerContent>, Option<T>) {
    if skipped {
        (None, None)
    } else {
        match marker {
            None => (None, None),
            Some(x) => if slot.0 == Some(x@) {
                slot
            } else {
                (Some(x@), kept)
            },
        }
    }
}

/// Whether a cell's snapshot `v` and the clone `kept` the cache keeps of it
/// follow from the stock's cached `slot` and the filters' answers: no
/// snapshot for a skipped cell or one without a marker; a clone of the cached
/// snapshot when the cached marker is the cell's; otherwise the fresh
/// snapshot, of which `kept` is a clone.
pub open spec fn cell_value_follows<T: Clone>(
    slot: (Option<MarkerContent>, Option<T>),
    skipped: bool,
    marker: Option<FinancialEventMarker>,
    v: Option<T>,
    kept: Option<T>,
) -> bool {
    if skipped || marker is None {
        v is None
    } else if recomputes(slot, marker) {
        clone_of(v, kept)
    } else {
        clone_of(slot.1, v)
    }
}

/// Whether the closures, called on the cell of `code` at `offset` on
/// `date`, can answer `skipped` (`skip_fn`), then `marker` (`marker_fn`, when
/// not skipped), then `v` (`compute_fn`, when the cell is computed afresh).
pub open spec fn cell_calls<SkipFn, MarkerFn, ComputeFn, T>(
    skip_fn: SkipFn,
    marker_fn: MarkerFn,
    compute_fn: ComputeFn,
    date: i32,
    code: Seq<char>,
    offset: int,
    slot: (Option<MarkerContent>, Option<T>),
    skipped: bool,
    marker: Option<FinancialEventMarker>,
    v: Option<T>,
) -> bool where
    SkipFn: FnMut(i32, &str, usize) -> bool,
    MarkerFn: FnMut(i32, &str, usize) -> Option<FinancialEventMarker>,
    ComputeFn: FnMut(i32, &str, usize) -> Option<T>,
 {
    exists|c: &str|
        c@ == code && #[trigger] call_ensures(skip_fn, (date, c, offset as usize), skipped) && (!skipped
            ==> call_ensures(marker_fn, (date, c, offset as usize), marker) && (recomputes(slot, marker)
            ==> call_ensures(compute_fn, (date, c, offset as usize), v)))
}

/// One cell of a pass: the closures' answers for it, and the snapshot `v`
/// and kept clone `kept` that follow from them and the cached `slot`.
pub open spec fn cell_step<SkipFn, MarkerFn, ComputeFn, T: Clone>(
    skip_fn: SkipFn,
    marker_fn: MarkerFn,
    compute_fn: ComputeFn,
    date: i32,
    code: Seq<char>,
    offset: int,
    slot: (Option<MarkerContent>, Option<T>),
    skipped: bool,
    marker: Option<FinancialEventMarker>,
    v: Option<T>,
    kept: Option<T>,
) -> bool where
    SkipFn: FnMut(i32, &str, usize) -> bool,
    MarkerFn: FnMut(i32, &str, usize) -> Option<FinancialEventMarker>,
    ComputeFn: FnMut(i32, &str, usize) -> Option<T>,
 {
    &&& cell_calls(skip_fn, marker_fn, compute_fn, date, code, offset, slot, skipped, marker, v)
    &&& cell_value_follows(slot, skipped, marker, v, kept)
}

/// The cached marker and snapshot of stock `i` before date position `d` of
/// a pass over a panel of `m` stocks, when the cells' answers are `skips`
/// and `markers` and the cache keeps `kept` of each fresh snapshot (all
/// indexed by cell offset); dates outside `targets` leave it alone.
pub open spec fn panel_slot<T>(
    dates: Seq<i32>,
    targets: Seq<i32>,
    m: int,
    skips: Seq<bool>,
    markers: Seq<Option<FinancialEventMarker>>,
    kept: Seq<Option<T>>,
    d: nat,
    i: int,
) -> (Option<MarkerContent>, Option<T>)
    decreases d,
{
    if d == 0 {
        (None, None)
    } else {
        let prev = panel_slot(dates, targets, m, skips, markers, kept, (d - 1) as nat, i);
        if targets.contains(dates[d - 1]) {
            let off = cell_offset(d - 1, i, m);
            slot_after(prev, skips[off], markers[off], kept[off])
        } else {
            prev
        }
    }
}

/// Whether cell (`d`, `i`) of a pass holds what follows: nothing off the
/// target dates, else the step from the stock's slot before that date.
pub open spec fn panel_cell_done<SkipFn, MarkerFn, ComputeFn, T: Clone>(
    skip_fn: SkipFn,
    marker_fn: MarkerFn,
    compute_fn: ComputeFn,
    dates: Seq<i32>,
    codes: Seq<Seq<char>>,
    targets: Seq<i32>,
    skips: Seq<bool>,
    markers: Seq<Option<FinancialEventMarker>>,
    kept: Seq<Option<T>>,
    r: Seq<Option<T>>,
    d: int,
    i: int,
) -> bool where
    SkipFn: FnMut(i32, &str, usize) -> bool,
    MarkerFn: FnMut(i32, &str, usize) -> Option<FinancialEventMarker>,
    ComputeFn: FnMut(i32, &str, usize) -> Option<T>,
 {
    let m = codes.len() as int;
    let off = cell_offset(d, i, m);
    if targets.contains(dates[d]) {
        cell_step(
            skip_fn,
            marker_fn,
            compute_fn,
            dates[d],
            codes[i],
            off,
            panel_slot(dates, targets, m, skips, markers, kept, d as nat, i),
            skips[off],
            markers[off],
            r[off],
            kept[off],
        )
    } else {
        r[off] is None
    }
}

/// Whether `r` is what a pass over the whole panel gives when the closures
/// answer `skips` and `markers` and the cache keeps `kept`.
pub open spec fn panel_pass<SkipFn, MarkerFn, ComputeFn, T: Clone>(
    skip_fn: SkipFn,
    marker_fn: MarkerFn,
    compute_fn: ComputeFn,
    dates: Seq<i32>,
    codes: Seq<Seq<char>>,
    targets: Seq<i32>,
    skips: Seq<bool>,
    markers: Seq<Option<FinancialEventMarker>>,
    kept: Seq<Option<T>>,
    r: Seq<Option<T>>,
) -> bool where
    SkipFn: FnMut(i32, &str, usize) -> bool,
    MarkerFn: FnMut(i32, &str, usize) -> Option<FinancialEventMarker>,
    ComputeFn: FnMut(i32, &str, usize) -> Option<T>,
 {
    forall|d: int, i: int|
        0 <= d < dates.len() && 0 <= i < codes.len() ==> #[trigger] panel_cell_done(
            skip_fn,
            marker_fn,
            compute_fn,
            dates,
            codes,
            targets,
            skips,
            markers,
            kept,
            r,
            d,
            i,
        )
}

/// A stock's slot before date position `d` reads only the answers of its
/// own cells on earlier dates.
proof fn lemma_panel_slot_update<T>(
    dates: Seq<i32>,
    targets: Seq<i32>,
    m: int,
    skips: Seq<bool>,
    markers: Seq<Option<FinancialEventMarker>>,
    kept: Seq<Option<T>>,
    d0: int,
    i0: int,
    s: bool,
    mk: Option<FinancialEventMarker>,
    k: Option<T>,
    d: nat,
    i: int,
)
    requires
        0 <= d0 < dates.len(),
        0 <= i0 < m,
        0 <= i < m,
        d <= dates.len(),
        skips.len() == dates.len() * m,
        markers.len() == dates.len() * m,
        kept.len() == dates.len() * m,
        i != i0 || d <= d0,
    ensures
        panel_slot(
            dates,
            targets,
            m,
            skips.update(cell_offset(d0, i0, m), s),
            markers.update(cell_offset(d0, i0, m), mk),
            kept.update(cell_offset(d0, i0, m), k),
            d,
            i,
        ) == panel_slot(dates, targets, m, skips, markers, kept, d, i),
    decreases d,
{
    if d > 0 {
        lemma_panel_slot_update(dates, targets, m, skips, markers, kept, d0, i0, s, mk, k, (d - 1) as nat, i);
        let e = d - 1;
        lemma_cell_in_grid(e, i, dates.len() as int, m);
        lemma_cell_in_grid(d0, i0, dates.len() as int, m);
        if e != d0 {
            lemma_cells_distinct(e, i, d0, i0, m);
        }
        assert(cell_offset(e, i, m) != cell_offset(d0, i0, m));
    }
}

/// Snapshots for every cell of `panel` on its target dates, one stock at a
/// time, computed again only when the stock's marker changes: a skipped
/// cell, or one without a marker, gets no snapshot and forgets the cached
/// one; a cell whose marker is the cached one gets a clone of the cached
/// snapshot without a call of `compute_fn`.  Cells of other dates get no
/// snapshot.
pub fn cached_financial_stock_snapshots<T, SkipFn, MarkerFn, ComputeFn>(
    panel: &DailyPanel,
    mut skip_fn: SkipFn,
    mut marker_fn: MarkerFn,
    mut compute_fn: ComputeFn,
) -> (r: Vec<Option<T>>) where
    T: Clone,
    SkipFn: FnMut(i32, &str, usize) -> bool,
    MarkerFn: FnMut(i32, &str, usize) -> Option<FinancialEventMarker>,
    ComputeFn: FnMut(i32, &str, usize) -> Option<T>,

    requires
        forall|d: i32, c: &str, o: usize| #[trigger] call_requires(skip_fn, (d, c, o)),
        forall|d: i32, c: &str, o: usize| #[trigger] call_requires(marker_fn, (d, c, o)),
        forall|d: i32, c: &str, o: usize| #[trigger] call_requires(compute_fn, (d, c, o)),
    ensures
        r@.len() == panel.dates_view().len() * panel.instruments_view().len(),
        exists|skips: Seq<bool>, markers: Seq<Option<FinancialEventMarker>>, kept: Seq<Option<T>>|
            #[trigger] panel_pass(
                skip_fn,
                marker_fn,
                compute_fn,
                panel.dates_view(),
                panel.instruments_view(),
                panel.target_dates_view(),
                skips,
                markers,
                kept,
                r@,
            ),
{
    let ghost skip0 = skip_fn;
    let ghost marker0 = marker_fn;
    let ghost compute0 = compute_fn;
    let dates = panel.dates();
    let instruments = panel.instruments();
    let instrument_count = instruments.len();
    let total = panel.shape_len();
    let ghost n = dates@.len() as int;
    let ghost m = instrument_count as int;
    let ghost codes = panel.instruments_view();
    let ghost targets = panel.target_dates_view();
    proof {
        assert(instruments@.len() == panel.instruments_view().len());
    }
    let mut snapshots: Vec<Option<T>> = Vec::new();
    let mut k: usize = 0;
    while k < total
        invariant
            k <= total,
            snapshots@.len() == k,
            forall|j: int| 0 <= j < k ==> (#[trigger] snapshots@[j]) is None,
        decreases total - k,
    {
        snapshots.push(None);
        k = k + 1;
    }
    let mut cache = FinancialStockSnapshotCache::<T>::new(instrument_count);
    let ghost mut skips: Seq<bool> = Seq::new(total as nat, |j: int| false);
    let ghost mut markers: Seq<Option<FinancialEventMarker>> = Seq::new(total as nat, |j: int| None);
    let ghost mut kept: Seq<Option<T>> = Seq::new(total as nat, |j: int| None);
    proof {
        assert forall|d: int, i: int| 0 <= d < n && 0 <= i < m implies #[trigger] snapshots@[cell_offset(d, i, m)] is None by {
            lemma_cell_in_grid(d, i, n, m);
        }
    }
    let mut date_idx: usize = 0;
    while date_idx < dates.len()
        invariant
            date_idx <= n,
            n == dates@.len(),
            m == instrument_count,
            dates@ == panel.dates_view(),
            instruments@.len() == m,
            m == codes.len(),
            codes == panel.instruments_view(),
            targets == panel.target_dates_view(),
            instruments@.map_values(|s: String| s@) == codes,
            total == n * m,
            snapshots@.len() == total,
            skips.len() == total,
            markers.len() == total,
            kept.len() == total,
            cache.markers_view().len() == m,
            cache.snapshots_view().len() == m,
            forall|d: i32, c: &str, o: usize| #[trigger] call_requires(skip_fn, (d, c, o)),
            forall|d: i32, c: &str, o: usize| #[trigger] call_requires(marker_fn, (d, c, o)),
            forall|d: i32, c: &str, o: usize| #[trigger] call_requires(compute_fn, (d, c, o)),
            skip_fn == skip0,
            marker_fn == marker0,
            compute_fn == compute0,
            forall|d: int, i: int|
                0 <= d < date_idx && 0 <= i < m ==> #[trigger] panel_cell_done(
                    skip0,
                    marker0,
                    compute0,
                    dates@,
                    codes,
                    targets,
                    skips,
                    markers,
                    kept,
                    snapshots@,
                    d,
                    i,
                ),
            forall|d: int, i: int|
                date_idx <= d < n && 0 <= i < m ==> #[trigger] snapshots@[cell_offset(d, i, m)] is None,
            forall|i: int|
                0 <= i < m ==> (#[trigger] cache.markers_view()[i], cache.snapshots_view()[i]) == panel_slot(
                    dates@,
                    targets,
                    m,
                    skips,
                    markers,
                    kept,
                    date_idx as nat,
                    i,
                ),
        decreases n - date_idx,
    {
        let trade_date = dates[date_idx];
        let ghost d0 = date_idx as int;
        if !panel.is_target_date(trade_date) {
            proof {
                assert forall|d: int, i: int| 0 <= d < d0 + 1 && 0 <= i < m implies #[trigger] panel_cell_done(
                    skip0,
                    marker0,
                    compute0,
                    dates@,
                    codes,
                    targets,
                    skips,
                    markers,
                    kept,
                    snapshots@,
                    d,
                    i,
                ) by {
                    if d == d0 {
                        assert(snapshots@[cell_offset(d, i, m)] is None);
                    }
                }
                assert forall|i: int| 0 <= i < m implies (#[trigger] cache.markers_view()[i], cache.snapshots_view()[i])
                    == panel_slot(dates@, targets, m, skips, markers, kept, (d0 + 1) as nat, i) by {
                    assert(!targets.contains(dates@[d0]));
                }
            }
            date_idx = date_idx + 1;
            continue;
        }
        proof {
            if m > 0 {
                lemma_cell_in_grid(date_idx as int, 0, n, m);
            }
            assert(date_idx * m <= n * m) by (nonlinear_arith)
                requires
                    date_idx < n,
                    0 <= m,
            ;
        }
        let date_offset = date_idx * instrument_count;
        let mut instrument_idx: usize = 0;
        while instrument_idx < instrument_count
            invariant
                instrument_idx <= m,
                date_idx < n,
                d0 == date_idx,
                n == dates@.len(),
                m == instrument_count,
                dates@ == panel.dates_view(),
                instruments@.len() == m,
                total == n * m,
                date_offset == date_idx * m,
                targets.contains(dates@[d0]),
                trade_date == dates@[d0],
                snapshots@.len() == total,
                skips.len() == total,
                markers.len() == total,
                kept.len() == total,
                cache.markers_view().len() == m,
                cache.snapshots_view().len() == m,
                forall|d: i32, c: &str, o: usize| #[trigger] call_requires(skip_fn, (d, c, o)),
                forall|d: i32, c: &str, o: usize| #[trigger] call_requires(marker_fn, (d, c, o)),
                forall|d: i32, c: &str, o: usize| #[trigger] call_requires(compute_fn, (d, c, o)),
                skip_fn == skip0,
                marker_fn == marker0,
                compute_fn == compute0,
                m == codes.len(),
                codes == panel.instruments_view(),
                targets == panel.target_dates_view(),
                instruments@.map_values(|s: String| s@) == codes,
                forall|d: int, i: int|
                    0 <= d <= d0 && 0 <= i < m && (d < d0 || i < instrument_idx) ==> #[trigger] panel_cell_done(
                        skip0,
                        marker0,
                        compute0,
                        dates@,
                        codes,
                        targets,
                        skips,
                        markers,
                        kept,
                        snapshots@,
                        d,
                        i,
                    ),
                forall|d: int, i: int|
                    d0 <= d < n && 0 <= i < m && (d > d0 || i >= instrument_idx)
                        ==> #[trigger] snapshots@[cell_offset(d, i, m)] is None,
                forall|i: int|
                    0 <= i < m ==> (#[trigger] cache.markers_view()[i], cache.snapshots_view()[i]) == panel_slot(
                        dates@,
                        targets,
                        m,
                        skips,
                        markers,
                        kept,
                        if i < instrument_idx {
                            (d0 + 1) as nat
                        } else {
                            d0 as nat
                        },
                        i,
                    ),
            decreases m - instrument_idx,
        {
            proof {
                lemma_cell_in_grid(date_idx as int, instrument_idx as int, n, m);
            }
            let offset = date_offset + instrument_idx;
            let ts_code = instruments[instrument_idx].as_str();
            let ghost i0 = instrument_idx as int;
            let ghost off0 = cell_offset(d0, i0, m);
            let ghost slot0 = (cache.markers_view()[i0], cache.snapshots_view()[i0]);
            let ghost mb = cache.markers_view();
            let ghost sb = cache.snapshots_view();
            proof {
                assert(ts_code@ == codes[i0]);
                assert(offset as int == off0);
                assert(slot0 == panel_slot(dates@, targets, m, skips, markers, kept, d0 as nat, i0));
            }
            let skipped = skip_fn(trade_date, ts_code, offset);
            let mut value: Option<T> = None;
            let ghost mut found_view: Option<FinancialEventMarker> = None;
            let ghost mut kept_view: Option<T> = None;
            if skipped {
                cache.clear(instrument_idx);
            } else {
                let found = marker_fn(trade_date, ts_code, offset);
                proof {
                    found_view = found;
                }
                match found {
                    None => {
                        cache.clear(instrument_idx);
                    },
                    Some(marker) => {
                        match cache.lookup(instrument_idx, &marker) {
                            Some(cached) => {
                                value = cached;
                            },
                            None => {
                                let snapshot = compute_fn(trade_date, ts_code, offset);
                                proof {
                                    assert(call_ensures(compute0, (trade_date, ts_code, offset), snapshot));
                                }
                                value = cache.store(instrument_idx, marker, snapshot);
                                proof {
                                    kept_view = cache.snapshots_view()[i0];
                                }
                            },
                        }
                    },
                }
            }
            proof {
                assert(cell_calls(
                    skip0,
                    marker0,
                    compute0,
                    trade_date,
                    codes[i0],
                    off0,
                    slot0,
                    skipped,
                    found_view,
                    value,
                ));
                assert(cell_value_follows(slot0, skipped, found_view, value, kept_view));
                assert((cache.markers_view()[i0], cache.snapshots_view()[i0]) == slot_after(
                    slot0,
                    skipped,
                    found_view,
                    kept_view,
                ));
                assert forall|j: int| 0 <= j < m && j != i0 implies cache.markers_view()[j] == mb[j]
                    && cache.snapshots_view()[j] == sb[j] by {}
            }
            let ghost before = snapshots@;
            let ghost skips_before = skips;
            let ghost markers_before = markers;
            let ghost kept_before = kept;
            snapshots.set(offset, value);
            proof {
                skips = skips.update(off0, skipped);
                markers = markers.update(off0, found_view);
                kept = kept.update(off0, kept_view);
                assert forall|d: int, i: int|
                    0 <= d <= d0 && 0 <= i < m && (d < d0 || i < instrument_idx + 1) implies #[trigger] panel_cell_done(
                    skip0,
                    marker0,
                    compute0,
                    dates@,
                    codes,
                    targets,
                    skips,
                    markers,
                    kept,
                    snapshots@,
                    d,
                    i,
                ) by {
                    lemma_cell_in_grid(d, i, n, m);
                    lemma_panel_slot_update(
                        dates@,
                        targets,
                        m,
                        skips_before,
                        markers_before,
                        kept_before,
                        d0,
                        i0,
                        skipped,
                        found_view,
                        kept_view,
                        d as nat,
                        i,
                    );
                    if d == d0 && i == i0 {
                        assert(cell_offset(d, i, m) == off0);
                    } else {
                        if d != d0 {
                            lemma_cells_distinct(d, i, d0, i0, m);
                        }
                        assert(cell_offset(d, i, m) != off0);
                        assert(panel_cell_done(
                            skip0,
                            marker0,
                            compute0,
                            dates@,
                            codes,
                            targets,
                            skips_before,
                            markers_before,
                            kept_before,
                            before,
                            d,
                            i,
                        ));
                    }
                }
                assert forall|d: int, i: int|
                    d0 <= d < n && 0 <= i < m && (d > d0 || i >= instrument_idx + 1)
                        implies #[trigger] snapshots@[cell_offset(d, i, m)] is None by {
                    lemma_cell_in_grid(d, i, n, m);
                    if d != d0 {
                        lemma_cells_distinct(d, i, d0, i0, m);
                    }
                    assert(before[cell_offset(d, i, m)] is None);
                }
                assert forall|i: int| 0 <= i < m implies (#[trigger] cache.markers_view()[i], cache.snapshots_view()[i])
                    == panel_slot(
                    dates@,
                    targets,
                    m,
                    skips,
                    markers,
                    kept,
                    if i < instrument_idx + 1 {
                        (d0 + 1) as nat
                    } else {
                        d0 as nat
                    },
                    i,
                ) by {
                    if i == i0 {
                        lemma_panel_slot_update(
                            dates@,
                            targets,
                            m,
                            skips_before,
                            markers_before,
                            kept_before,
                            d0,
                            i0,
                            skipped,
                            found_view,
                            kept_view,
                            d0 as nat,
                            i,
                        );
                        lemma_cell_in_grid(d0, i0, n, m);
                        assert(skips[off0] == skipped && markers[off0] == found_view && kept[off0] == kept_view);
                    } else {
                        let dd: nat = if i < instrument_idx + 1 {
                            (d0 + 1) as nat
                        } else {
                            d0 as nat
                        };
                        lemma_panel_slot_update(
                            dates@,
                            targets,
                            m,
                            skips_before,
                            markers_before,
                            kept_before,
                            d0,
                            i0,
                            skipped,
                            found_view,
                            kept_view,
                            dd,
                            i,
                        );
                        assert(cache.markers_view()[i] == mb[i] && cache.snapshots_view()[i] == sb[i]);
                    }
                }
            }
            instrument_idx = instrument_idx + 1;
        }
        date_idx = date_idx + 1;
    }
    proof {
        assert(panel_pass(
            skip0,
            marker0,
            compute0,
            dates@,
            codes,
            targets,
            skips,
            markers,
            kept,
            snapshots@,
        ));
    }
    snapshots
}

/// Whether `markers` and `snaps` are what re-keying a cache over
/// `old_codes` (holding `old_markers` and `old_snaps`) to `codes` gives:
/// the cache unchanged when the codes are the same, else each code with a
/// clone of what was cached for the last position it held, and new codes
/// empty.
pub open spec fn realigned<T: Clone>(
    old_codes: Seq<Seq<char>>,
    old_markers: Seq<Option<MarkerContent>>,
    old_snaps: Seq<Option<T>>,
    codes: Seq<Seq<char>>,
    markers: Seq<Option<MarkerContent>>,
    snaps: Seq<Option<T>>,
) -> bool {
    &&& markers.len() == codes.len()
    &&& snaps.len() == codes.len()
    &&& if codes == old_codes && old_markers.len() == codes.len() {
        markers == old_markers && snaps == old_snaps
    } else {
        forall|k: int|
            0 <= k < codes.len() ==> match last_pos(old_codes, codes[k]) {
                Some(j) => if j < old_markers.len() {
                    #[trigger] markers[k] == old_markers[j] && clone_of(old_snaps[j], snaps[k])
                } else {
                    markers[k] is None && snaps[k] is None
                },
                None => markers[k] is None && snaps[k] is None,
            }
    }
}

/// Whether one day's pass over the stocks `codes` on `trade_date`, starting
/// from the cached markers `start_markers` and snapshots `start_snaps`, can
/// give the result `r` and leave the cache holding `markers` and `snaps`: a
/// date not in `dates` gives nothing and leaves the cache alone; otherwise
/// each stock takes one step on its cell of the first position of the date.
pub open spec fn day_pass<SkipFn, MarkerFn, ComputeFn, T: Clone>(
    skip_fn: SkipFn,
    marker_fn: MarkerFn,
    compute_fn: ComputeFn,
    dates: Seq<i32>,
    codes: Seq<Seq<char>>,
    trade_date: i32,
    start_markers: Seq<Option<MarkerContent>>,
    start_snaps: Seq<Option<T>>,
    markers: Seq<Option<MarkerContent>>,
    snaps: Seq<Option<T>>,
    r: Seq<Option<T>>,
) -> bool where
    SkipFn: FnMut(i32, &str, usize) -> bool,
    MarkerFn: FnMut(i32, &str, usize) -> Option<FinancialEventMarker>,
    ComputeFn: FnMut(i32, &str, usize) -> Option<T>,
 {
    if !dates.contains(trade_date) {
        &&& forall|i: int| 0 <= i < r.len() ==> (#[trigger] r[i]) is None
        &&& markers == start_markers
        &&& snaps == start_snaps
    } else {
        forall|d: int, i: int|
            0 <= d < dates.len() && dates[d] == trade_date && (forall|e: int| 0 <= e < d ==> dates[e] != trade_date)
                && 0 <= i < codes.len() ==> #[trigger] day_cell(
                skip_fn,
                marker_fn,
                compute_fn,
                codes,
                trade_date,
                d,
                i,
                start_markers,
                start_snaps,
                markers,
                snaps,
                r,
            )
    }
}

/// Whether stock `i` of `codes`, on date position `d`, takes one step from
/// its start slot to its slot `markers[i]`, `snaps[i]` with result `r[i]`,
/// the closures answering `skipped` and `marker`.
pub open spec fn day_step<SkipFn, MarkerFn, ComputeFn, T: Clone>(
    skip_fn: SkipFn,
    marker_fn: MarkerFn,
    compute_fn: ComputeFn,
    codes: Seq<Seq<char>>,
    trade_date: i32,
    d: int,
    i: int,
    start_markers: Seq<Option<MarkerContent>>,
    start_snaps: Seq<Option<T>>,
    markers: Seq<Option<MarkerContent>>,
    snaps: Seq<Option<T>>,
    r: Seq<Option<T>>,
    skipped: bool,
    marker: Option<FinancialEventMarker>,
) -> bool where
    SkipFn: FnMut(i32, &str, usize) -> bool,
    MarkerFn: FnMut(i32, &str, usize) -> Option<FinancialEventMarker>,
    ComputeFn: FnMut(i32, &str, usize) -> Option<T>,
 {
    &&& cell_step(
        skip_fn,
        marker_fn,
        compute_fn,
        trade_date,
        codes[i],
        cell_offset(d, i, codes.len() as int),
        (start_markers[i], start_snaps[i]),
        skipped,
        marker,
        r[i],
        snaps[i],
    )
    &&& (markers[i], snaps[i]) == slot_after((start_markers[i], start_snaps[i]), skipped, marker, snaps[i])
}

/// Whether stock `i` of `codes`, on date position `d`, takes one step from
/// its start slot to its slot `markers[i]`, `snaps[i]` with result `r[i]`,
/// for some answers of the closures.
pub open spec fn day_cell<SkipFn, MarkerFn, ComputeFn, T: Clone>(
    skip_fn: SkipFn,
    marker_fn: MarkerFn,
    compute_fn: ComputeFn,
    codes: Seq<Seq<char>>,
    trade_date: i32,
    d: int,
    i: int,
    start_markers: Seq<Option<MarkerContent>>,
    start_snaps: Seq<Option<T>>,
    markers: Seq<Option<MarkerContent>>,
    snaps: Seq<Option<T>>,
    r: Seq<Option<T>>,
) -> bool where
    SkipFn: FnMut(i32, &str, usize) -> bool,
    MarkerFn: FnMut(i32, &str, usize) -> Option<FinancialEventMarker>,
    ComputeFn: FnMut(i32, &str, usize) -> Option<T>,
 {
    exists|skipped: bool, marker: Option<FinancialEventMarker>|
        #[trigger] day_step(
            skip_fn,
            marker_fn,
            compute_fn,
            codes,
            trade_date,
            d,
            i,
            start_markers,
            start_snaps,
            markers,
            snaps,
            r,
            skipped,
            marker,
        )
}

/// Snapshots for the stocks of `panel` on `trade_date`, reusing and updating
/// `cache` (first re-keyed to the panel's instruments): a stock whose marker
/// is the one cached for it gets a clone of the cached snapshot without a
/// call of `compute_fn`; one with another marker gets a fresh snapshot, which
/// is cached; a skipped stock or one without a marker gets none and is
/// forgotten.  A date not in the panel gets no snapshots.
pub fn cached_financial_stock_snapshots_for_date<T, SkipFn, MarkerFn, ComputeFn>(
    panel: &DailyPanel,
    trade_date: i32,
    cache: &mut InstrumentAlignedSnapshotCache<T>,
    mut skip_fn: SkipFn,
    mut marker_fn: MarkerFn,
    mut compute_fn: ComputeFn,
) -> (r: Vec<Option<T>>) where
    T: Clone,
    SkipFn: FnMut(i32, &str, usize) -> bool,
    MarkerFn: FnMut(i32, &str, usize) -> Option<FinancialEventMarker>,
    ComputeFn: FnMut(i32, &str, usize) -> Option<T>,

    requires
        forall|d: i32, c: &str, o: usize| #[trigger] call_requires(skip_fn, (d, c, o)),
        forall|d: i32, c: &str, o: usize| #[trigger] call_requires(marker_fn, (d, c, o)),
        forall|d: i32, c: &str, o: usize| #[trigger] call_requires(compute_fn, (d, c, o)),
    ensures
        r@.len() == panel.instruments_view().len(),
        final(cache).instruments_view() == panel.instruments_view(),
        final(cache).markers_view().len() == panel.instruments_view().len(),
        final(cache).snapshots_view().len() == panel.instruments_view().len(),
        exists|start_markers: Seq<Option<MarkerContent>>, start_snaps: Seq<Option<T>>|
            #[trigger] realigned(
                old(cache).instruments_view(),
                old(cache).markers_view(),
                old(cache).snapshots_view(),
                panel.instruments_view(),
                start_markers,
                start_snaps,
            ) && day_pass(
                skip_fn,
                marker_fn,
                compute_fn,
                panel.dates_view(),
                panel.instruments_view(),
                trade_date,
                start_markers,
                start_snaps,
                final(cache).markers_view(),
                final(cache).snapshots_view(),
                r@,
            ),
{
    let ghost skip0 = skip_fn;
    let ghost marker0 = marker_fn;
    let ghost compute0 = compute_fn;
    let dates = panel.dates();
    let instruments = panel.instruments();
    proof {
        assert(strings_view(instruments@) == panel.instruments_view());
    }
    let instrument_count = instruments.len();
    let ghost n = dates@.len() as int;
    let ghost m = instrument_count as int;
    let ghost codes = panel.instruments_view();
    let total = panel.shape_len();
    cache.align_to(instruments);
    let ghost am = cache.markers_view();
    let ghost asn = cache.snapshots_view();
    proof {
        assert(realigned(old(cache).instruments_view(), old(cache).markers_view(), old(cache).snapshots_view(), codes, am, asn));
    }
    let mut output: Vec<Option<T>> = Vec::new();
    let mut k: usize = 0;
    while k < instrument_count
        invariant
            k <= instrument_count,
            output@.len() == k,
            forall|j: int| 0 <= j < k ==> (#[trigger] output@[j]) is None,
        decreases instrument_count - k,
    {
        output.push(None);
        k = k + 1;
    }
    let mut date_idx: usize = 0;
    while date_idx < dates.len()
        invariant
            date_idx <= dates@.len(),
            forall|j: int| 0 <= j < date_idx ==> dates@[j] != trade_date,
        ensures
            date_idx < dates@.len() ==> dates@[date_idx as int] == trade_date,
            date_idx >= dates@.len() ==> forall|j: int| 0 <= j < dates@.len() ==> dates@[j] != trade_date,
        decreases dates@.len() - date_idx,
    {
        if dates[date_idx] == trade_date {
            break;
        }
        date_idx = date_idx + 1;
    }
    if date_idx >= dates.len() {
        proof {
            assert(!panel.dates_view().contains(trade_date));
            assert(day_pass(skip0, marker0, compute0, panel.dates_view(), codes, trade_date, am, asn, am, asn, output@));
        }
        return output;
    }
    proof {
        assert(date_idx * m <= n * m) by (nonlinear_arith)
            requires
                date_idx < n,
                0 <= m,
        ;
        assert(cache.markers_view().len() == m);
    }
    let date_offset = date_idx * instrument_count;
    let ghost d0 = date_idx as int;
    let ghost mut skips: Seq<bool> = Seq::new(instrument_count as nat, |j: int| false);
    let ghost mut found_markers: Seq<Option<FinancialEventMarker>> = Seq::new(instrument_count as nat, |j: int| None);
    let mut instrument_idx: usize = 0;
    while instrument_idx < instrument_count
        invariant
            instrument_idx <= m,
            date_idx < n,
            d0 == date_idx,
            n == dates@.len(),
            m == instrument_count,
            instruments@.len() == m,
            total == n * m,
            date_offset == date_idx * m,
            output@.len() == m,
            skips.len() == m,
            found_markers.len() == m,
            am.len() == m,
            asn.len() == m,
            dates@ == panel.dates_view(),
            dates@[date_idx as int] == trade_date,
            cache.instruments_view() == panel.instruments_view(),
            cache.markers_view().len() == m,
            cache.snapshots_view().len() == m,
            forall|d: i32, c: &str, o: usize| #[trigger] call_requires(skip_fn, (d, c, o)),
            forall|d: i32, c: &str, o: usize| #[trigger] call_requires(marker_fn, (d, c, o)),
            forall|d: i32, c: &str, o: usize| #[trigger] call_requires(compute_fn, (d, c, o)),
            skip_fn == skip0,
            marker_fn == marker0,
            compute_fn == compute0,
            m == codes.len(),
            codes == panel.instruments_view(),
            instruments@.map_values(|s: String| s@) == codes,
            forall|i: int|
                0 <= i < instrument_idx ==> #[trigger] day_step(
                    skip0,
                    marker0,
                    compute0,
                    codes,
                    trade_date,
                    d0,
                    i,
                    am,
                    asn,
                    cache.markers_view(),
                    cache.snapshots_view(),
                    output@,
                    skips[i],
                    found_markers[i],
                ),
            forall|i: int|
                instrument_idx <= i < m ==> (#[trigger] output@[i]) is None && cache.markers_view()[i] == am[i]
                    && cache.snapshots_view()[i] == asn[i],
        decreases m - instrument_idx,
    {
        proof {
            lemma_cell_in_grid(date_idx as int, instrument_idx as int, n, m);
        }
        let offset = date_offset + instrument_idx;
        let ts_code = instruments[instrument_idx].as_str();
        let ghost i0 = instrument_idx as int;
        let ghost slot0 = (am[i0], asn[i0]);
        let ghost mb = cache.markers_view();
        let ghost sb = cache.snapshots_view();
        let ghost ob = output@;
        proof {
            assert(ts_code@ == codes[i0]);
            assert(offset as int == cell_offset(d0, i0, m));
            assert(output@[i0] is None);
            assert(slot0 == (mb[i0], sb[i0]));
        }
        let skipped = skip_fn(trade_date, ts_code, offset);
        let mut value: Option<T> = None;
        let ghost mut found_view: Option<FinancialEventMarker> = None;
        if skipped {
            cache.clear(instrument_idx);
        } else {
            let found = marker_fn(trade_date, ts_code, offset);
            proof {
                found_view = found;
            }
            match found {
                None => {
                    cache.clear(instrument_idx);
                },
                Some(marker) => {
                    match cache.cache.lookup(instrument_idx, &marker) {
                        Some(cached) => {
                            value = cached;
                        },
                        None => {
                            let snapshot = compute_fn(trade_date, ts_code, offset);
                            proof {
                                assert(call_ensures(compute0, (trade_date, ts_code, offset), snapshot));
                            }
                            value = cache.cache.store(instrument_idx, marker, snapshot);
                        },
                    }
                },
            }
        }
        output.set(instrument_idx, value);
        proof {
            skips = skips.update(i0, skipped);
            found_markers = found_markers.update(i0, found_view);
            assert(cell_calls(
                skip0,
                marker0,
                compute0,
                trade_date,
                codes[i0],
                cell_offset(d0, i0, m),
                slot0,
                skipped,
                found_view,
                value,
            ));
            assert((cache.markers_view()[i0], cache.snapshots_view()[i0]) == slot_after(
                slot0,
                skipped,
                found_view,
                cache.snapshots_view()[i0],
            ));
            assert forall|i: int|
                0 <= i < instrument_idx + 1 implies #[trigger] day_step(
                    skip0,
                    marker0,
                    compute0,
                    codes,
                    trade_date,
                    d0,
                    i,
                    am,
                    asn,
                    cache.markers_view(),
                    cache.snapshots_view(),
                    output@,
                    skips[i],
                    found_markers[i],
                ) by {
                if i < i0 {
                    assert(output@[i] == ob[i]);
                    assert(cache.markers_view()[i] == mb[i]);
                    assert(cache.snapshots_view()[i] == sb[i]);
                    assert(day_step(
                        skip0,
                        marker0,
                        compute0,
                        codes,
                        trade_date,
                        d0,
                        i,
                        am,
                        asn,
                        mb,
                        sb,
                        ob,
                        skips[i],
                        found_markers[i],
                    ));
                }
            }
            assert forall|i: int| instrument_idx + 1 <= i < m implies (#[trigger] output@[i]) is None
                && cache.markers_view()[i] == am[i] && cache.snapshots_view()[i] == asn[i] by {
                assert(output@[i] == ob[i]);
                assert(cache.markers_view()[i] == mb[i]);
                assert(cache.snapshots_view()[i] == sb[i]);
            }
        }
        instrument_idx = instrument_idx + 1;
    }
    proof {
        assert(panel.dates_view().contains(trade_date)) by {
            assert(panel.dates_view()[d0] == trade_date);
        }
        assert forall|d: int, i: int|
            0 <= d < n && dates@[d] == trade_date && (forall|e: int| 0 <= e < d ==> dates@[e] != trade_date)
                && 0 <= i < m implies #[trigger] day_cell(
                skip0,
                marker0,
                compute0,
                codes,
                trade_date,
                d,
                i,
                am,
                asn,
                cache.markers_view(),
                cache.snapshots_view(),
                output@,
            ) by {
            if d != d0 {
                if d < d0 {
                    assert(dates@[d] != trade_date);
                } else {
                    assert(dates@[d0] != trade_date);
                }
            }
            assert(day_step(
                skip0,
                marker0,
                compute0,
                codes,
                trade_date,
                d,
                i,
                am,
                asn,
                cache.markers_view(),
                cache.snapshots_view(),
                output@,
                skips[i],
                found_markers[i],
            ));
        }
        assert(day_pass(
            skip0,
            marker0,
            compute0,
            panel.dates_view(),
            codes,
            trade_date,
            am,
            asn,
            cache.markers_view(),
            cache.snapshots_view(),
            output@,
        ));
    }
    output
}

} // verus!
