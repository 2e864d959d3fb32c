//! Factor series on a daily panel: laying a series out on the panel grid,
//! and a cache that keeps the latest cross-section of slow factors so that
//! days without a financial event replay it instead of recomputing.
use vstd::prelude::*;
use crate::catalog::{
    FactorContext,
    FactorRowKey,
    FactorSeries,
    FactorSpec,
    FactorSpecView,
    FactorValue,
    copy_strings,
    multi_target_context,
    row_code,
    row_date,
    str_eq,
    strings_view,
};
use crate::financial_pit::{FinancialEventSchedule, event_between, processed_before, recomputes_at, targets_follow};
use crate::panel::{DailyPanel, is_bj_stock, spec_is_bj_stock};
use crate::snapshot_cache::{
    opt_usize_int,
    cell_offset,
    last_index_of,
    last_pos,
    lemma_cell_in_grid,
    lemma_cells_distinct,
    lemma_last_pos_bounds,
};

verus! {

/// The last position of `x` in `s`.
pub open spec fn last_date_pos(s: Seq<i32>, x: i32) -> Option<int>
    decreases s.len(),
{
    if s.len() == 0 {
        None
    } else if s.last() == x {
        Some(s.len() - 1)
    } else {
        last_date_pos(s.drop_last(), x)
    }
}

pub(crate) proof fn lemma_last_date_pos_bounds(s: Seq<i32>, x: i32)
    ensures
        last_date_pos(s, x) matches Some(j) ==> 0 <= j < s.len() && s[j] == x,
    decreases s.len(),
{
    if s.len() > 0 && s.last() != x {
        lemma_last_date_pos_bounds(s.drop_last(), x);
    }
}

/// The last position of `x` in `items`.
fn last_date_index(items: &[i32], x: i32) -> (r: Option<usize>)
    ensures
        match r {
            Some(j) => last_date_pos(items@, x) == Some(j as int),
            None => last_date_pos(items@, x) is None,
        },
{
    let mut found: Option<usize> = None;
    let mut i: usize = 0;
    while i < items.len()
        invariant
            i <= items@.len(),
            match found {
                Some(j) => last_date_pos(items@.subrange(0, i as int), x) == Some(j as int),
                None => last_date_pos(items@.subrange(0, i as int), x) is None,
            },
        decreases items@.len() - i,
    {
        proof {
            assert(items@.subrange(0, i + 1).drop_last() =~= items@.subrange(0, i as int));
        }
        if items[i] == x {
            found = Some(i);
        }
        i = i + 1;
    }
    proof {
        assert(items@.subrange(0, items@.len() as int) =~= items@);
    }
    found
}

/// The value `rows` give the cell of date position `d` and instrument
/// position `i`: that of the last row whose date was last seen at `d` and
/// whose code was last seen at `i` among the panel's dates and codes.
pub open spec fn series_cell<V>(
    dates: Seq<i32>,
    codes: Seq<Seq<char>>,
    rows: Seq<FactorValue<V>>,
    d: int,
    i: int,
) -> Option<V>
    decreases rows.len(),
{
    if rows.len() == 0 {
        None
    } else if last_date_pos(dates, row_date(rows.last())) == Some(d) && last_pos(codes, row_code(rows.last()))
        == Some(i) {
        rows.last().value
    } else {
        series_cell(dates, codes, rows.drop_last(), d, i)
    }
}

/// The value of the last row of `rows` dated `date` for code `code`; none
/// when no row has that key.
pub open spec fn last_row_value<V>(rows: Seq<FactorValue<V>>, date: i32, code: Seq<char>) -> Option<V>
    decreases rows.len(),
{
    if rows.len() == 0 {
        None
    } else if row_date(rows.last()) == date && row_code(rows.last()) == code {
        rows.last().value
    } else {
        last_row_value(rows.drop_last(), date, code)
    }
}

proof fn lemma_last_date_pos_of_distinct(s: Seq<i32>, k: int)
    requires
        0 <= k < s.len(),
        forall|a: int, b: int| 0 <= a < b < s.len() ==> s[a] != s[b],
    ensures
        last_date_pos(s, s[k]) == Some(k),
    decreases s.len(),
{
    if k < s.len() - 1 {
        let t = s.drop_last();
        assert(s[s.len() - 1] != s[k]);
        assert(t[k] == s[k]);
        lemma_last_date_pos_of_distinct(t, k);
    }
}

proof fn lemma_last_pos_of_distinct(s: Seq<Seq<char>>, k: int)
    requires
        0 <= k < s.len(),
        forall|a: int, b: int| 0 <= a < b < s.len() ==> s[a] != s[b],
    ensures
        last_pos(s, s[k]) == Some(k),
    decreases s.len(),
{
    if k < s.len() - 1 {
        let t = s.drop_last();
        assert(s[s.len() - 1] != s[k]);
        assert(t[k] == s[k]);
        lemma_last_pos_of_distinct(t, k);
    }
}

/// On a panel whose dates and codes are each distinct, a laid-out cell holds
/// the value of the last row keyed by that cell's date and code, and nothing
/// when no row has that key; rows with other keys do not touch it.
pub proof fn lemma_series_cell_is_last_row_with_key<V>(
    dates: Seq<i32>,
    codes: Seq<Seq<char>>,
    rows: Seq<FactorValue<V>>,
    d: int,
    i: int,
)
    requires
        0 <= d < dates.len(),
        0 <= i < codes.len(),
        forall|a: int, b: int| 0 <= a < b < dates.len() ==> dates[a] != dates[b],
        forall|a: int, b: int| 0 <= a < b < codes.len() ==> codes[a] != codes[b],
    ensures
        series_cell(dates, codes, rows, d, i) == last_row_value(rows, dates[d], codes[i]),
    decreases rows.len(),
{
    if rows.len() > 0 {
        lemma_series_cell_is_last_row_with_key(dates, codes, rows.drop_last(), d, i);
        let x = row_date(rows.last());
        let c = row_code(rows.last());
        lemma_last_date_pos_bounds(dates, x);
        lemma_last_pos_bounds(codes, c);
        lemma_last_date_pos_of_distinct(dates, d);
        lemma_last_pos_of_distinct(codes, i);
    }
}

/// The values of `series` laid out on the date-major grid of `panel`; rows
/// whose date or code the panel lacks are dropped, and a cell no row
/// reaches is empty.
pub fn factor_series_to_panel_column<V: Copy>(panel: &DailyPanel, series: &FactorSeries<V>) -> (r: Vec<
    Option<V>,
>)
    ensures
        r@.len() == panel.dates_view().len() * panel.instruments_view().len(),
        forall|d: int, i: int|
            0 <= d < panel.dates_view().len() && 0 <= i < panel.instruments_view().len() ==> #[trigger] r@[cell_offset(
                d,
                i,
                panel.instruments_view().len() as int,
            )] == series_cell(panel.dates_view(), panel.instruments_view(), series.values@, d, i),
        (forall|a: int, b: int|
            0 <= a < b < panel.dates_view().len() ==> panel.dates_view()[a] != panel.dates_view()[b]) && (forall|
            a: int,
            b: int,
        | 0 <= a < b < panel.instruments_view().len() ==> panel.instruments_view()[a] != panel.instruments_view()[b])
            ==> forall|d: int, i: int|
            0 <= d < panel.dates_view().len() && 0 <= i < panel.instruments_view().len() ==> #[trigger] r@[cell_offset(
                d,
                i,
                panel.instruments_view().len() as int,
            )] == last_row_value(series.values@, panel.dates_view()[d], panel.instruments_view()[i]),
{
    let dates = panel.dates();
    let instruments = panel.instruments();
    let ghost codes = panel.instruments_view();
    let ghost n = dates@.len() as int;
    let m = instruments.len();
    let total = panel.shape_len();
    let mut values: Vec<Option<V>> = Vec::new();
    let mut k: usize = 0;
    while k < total
        invariant
            k <= total,
            values@.len() == k,
            forall|j: int| 0 <= j < k ==> (#[trigger] values@[j]) is None,
        decreases total - k,
    {
        values.push(None);
        k = k + 1;
    }
    let rows = &series.values;
    proof {
        assert forall|d: int, i: int| 0 <= d < n && 0 <= i < m implies #[trigger] values@[cell_offset(d, i, m as int)]
            == series_cell(dates@, codes, rows@.subrange(0, 0), d, i) by {
            lemma_cell_in_grid(d, i, n, m as int);
        }
    }
    let mut t: usize = 0;
    while t < rows.len()
        invariant
            t <= rows@.len(),
            dates@ == panel.dates_view(),
            strings_view(instruments@) == codes,
            codes == panel.instruments_view(),
            n == dates@.len(),
            m == codes.len(),
            total == n * m,
            values@.len() == total,
            forall|d: int, i: int|
                0 <= d < n && 0 <= i < m ==> #[trigger] values@[cell_offset(d, i, m as int)] == series_cell(
                    dates@,
                    codes,
                    rows@.subrange(0, t as int),
                    d,
                    i,
                ),
        decreases rows@.len() - t,
    {
        let row = &rows[t];
        let ghost before = values@;
        let ghost prefix = rows@.subrange(0, t as int);
        let ghost next = rows@.subrange(0, t + 1);
        proof {
            assert(next.drop_last() =~= prefix);
            assert(next.last() == rows@[t as int]);
        }
        match &row.key {
            FactorRowKey::Daily { trade_date, ts_code } => {
                let date_idx = last_date_index(dates, *trade_date);
                let instrument_idx = last_index_of(instruments, ts_code.as_str());
                proof {
                    lemma_last_date_pos_bounds(dates@, *trade_date);
                    lemma_last_pos_bounds(codes, ts_code@);
                }
                match (date_idx, instrument_idx) {
                    (Some(di), Some(ii)) => {
                        proof {
                            lemma_cell_in_grid(di as int, ii as int, n, m as int);
                        }
                        let offset = di * m + ii;
                        values.set(offset, row.value);
                        proof {
                            assert forall|d: int, i: int| 0 <= d < n && 0 <= i < m implies #[trigger] values@[cell_offset(d, i, m as int)]
                                == series_cell(dates@, codes, next, d, i) by {
                                lemma_cell_in_grid(d, i, n, m as int);
                                if d == di && i == ii {
                                } else {
                                    if d != di {
                                        lemma_cells_distinct(d, i, di as int, ii as int, m as int);
                                    }
                                    assert(values@[cell_offset(d, i, m as int)] == before[cell_offset(d, i, m as int)]);
                                }
                            }
                        }
                    },
                    _ => {
                        proof {
                            assert forall|d: int, i: int| 0 <= d < n && 0 <= i < m implies #[trigger] values@[cell_offset(d, i, m as int)]
                                == series_cell(dates@, codes, next, d, i) by {
                                assert(before[cell_offset(d, i, m as int)] == series_cell(dates@, codes, prefix, d, i));
                            }
                        }
                    },
                }
            },
        }
        t = t + 1;
    }
    proof {
        assert(rows@.subrange(0, rows@.len() as int) =~= rows@);
        if (forall|a: int, b: int| 0 <= a < b < dates@.len() ==> dates@[a] != dates@[b]) && (forall|a: int, b: int|
            0 <= a < b < codes.len() ==> codes[a] != codes[b]) {
            assert forall|d: int, i: int| 0 <= d < n && 0 <= i < m implies #[trigger] values@[cell_offset(
                d,
                i,
                m as int,
            )] == last_row_value(rows@, dates@[d], codes[i]) by {
                lemma_series_cell_is_last_row_with_key(dates@, codes, rows@, d, i);
            }
        }
    }
    values
}

/// The value a series wrote for instrument position `k`: that of the last
/// row whose code was last seen at `k` among `codes`.
pub open spec fn written_at<V>(codes: Seq<Seq<char>>, rows: Seq<FactorValue<V>>, k: int) -> Option<V>
    decreases rows.len(),
{
    if rows.len() == 0 {
        None
    } else if last_pos(codes, row_code(rows.last())) == Some(k) {
        rows.last().value
    } else {
        written_at(codes, rows.drop_last(), k)
    }
}

/// Abstract content of a cached cross-section: the instrument codes it was
/// written for and the value of each position.
pub struct CrossSectionView<V> {
    pub instruments: Seq<Seq<char>>,
    pub values: Seq<Option<V>>,
}

/// The cross-section `rows` write on a panel with instrument codes `codes`.
pub open spec fn written_section<V>(codes: Seq<Seq<char>>, rows: Seq<FactorValue<V>>) -> CrossSectionView<V> {
    CrossSectionView { instruments: codes, values: Seq::new(codes.len(), |k: int| written_at(codes, rows, k)) }
}

/// The first position of `x` in `s`.
pub open spec fn first_key_pos(s: Seq<Seq<char>>, x: Seq<char>) -> Option<int>
    decreases s.len(),
{
    if s.len() == 0 {
        None
    } else {
        match first_key_pos(s.drop_last(), x) {
            Some(j) => Some(j),
            None => if s.last() == x {
                Some(s.len() - 1)
            } else {
                None
            },
        }
    }
}

/// The first position of `x` in `s`.
pub open spec fn first_date_pos(s: Seq<i32>, x: i32) -> Option<int>
    decreases s.len(),
{
    if s.len() == 0 {
        None
    } else {
        match first_date_pos(s.drop_last(), x) {
            Some(j) => Some(j),
            None => if s.last() == x {
                Some(s.len() - 1)
            } else {
                None
            },
        }
    }
}

proof fn lemma_first_key_pos(s: Seq<Seq<char>>, x: Seq<char>)
    ensures
        first_key_pos(s, x) matches Some(j) ==> 0 <= j < s.len() && s[j] == x && forall|i: int| 0 <= i < j ==> s[i] != x,
        first_key_pos(s, x) is None ==> forall|i: int| 0 <= i < s.len() ==> s[i] != x,
    decreases s.len(),
{
    if s.len() > 0 {
        let t = s.drop_last();
        lemma_first_key_pos(t, x);
        assert forall|i: int| 0 <= i < t.len() implies t[i] == s[i] by {}
    }
}

proof fn lemma_first_date_pos(s: Seq<i32>, x: i32)
    ensures
        first_date_pos(s, x) matches Some(j) ==> 0 <= j < s.len() && s[j] == x && forall|i: int| 0 <= i < j ==> s[i] != x,
        first_date_pos(s, x) is None ==> forall|i: int| 0 <= i < s.len() ==> s[i] != x,
    decreases s.len(),
{
    if s.len() > 0 {
        let t = s.drop_last();
        lemma_first_date_pos(t, x);
        assert forall|i: int| 0 <= i < t.len() implies t[i] == s[i] by {}
    }
}

/// A position with `x` and none before it is the first position of `x`.
proof fn lemma_first_key_pos_at(s: Seq<Seq<char>>, x: Seq<char>, j: int)
    requires
        0 <= j < s.len(),
        s[j] == x,
        forall|i: int| 0 <= i < j ==> s[i] != x,
    ensures
        first_key_pos(s, x) == Some(j),
    decreases s.len(),
{
    lemma_first_key_pos(s, x);
    if j < s.len() - 1 {
        lemma_first_key_pos_at(s.drop_last(), x, j);
    } else {
        lemma_first_key_pos(s.drop_last(), x);
    }
}

/// A position with `x` and none before it is the first position of `x`.
proof fn lemma_first_date_pos_at(s: Seq<i32>, x: i32, j: int)
    requires
        0 <= j < s.len(),
        s[j] == x,
        forall|i: int| 0 <= i < j ==> s[i] != x,
    ensures
        first_date_pos(s, x) == Some(j),
    decreases s.len(),
{
    lemma_first_date_pos(s, x);
    if j < s.len() - 1 {
        lemma_first_date_pos_at(s.drop_last(), x, j);
    } else {
        lemma_first_date_pos(s.drop_last(), x);
    }
}

/// The value replayed for the instrument at position `k` with code `code`
/// from `cached`: the cached value at `k` when the cached codes hold `code`
/// there, else the value at the last cached position of `code`.
pub open spec fn cached_value<V>(cached: Option<CrossSectionView<V>>, k: int, code: Seq<char>) -> Option<V> {
    match cached {
        None => None,
        Some(cs) => if 0 <= k < cs.instruments.len() && cs.instruments[k] == code {
            if k < cs.values.len() {
                cs.values[k]
            } else {
                None
            }
        } else {
            match last_pos(cs.instruments, code) {
                Some(j) => if j < cs.values.len() {
                    cs.values[j]
                } else {
                    None
                },
                None => None,
            }
        },
    }
}

/// The instrument positions present on date position `d` of a panel with
/// `m` instruments and presence flags `present`, in order.
pub open spec fn present_positions(present: Seq<bool>, d: int, m: int) -> Seq<int> {
    Seq::new(m as nat, |k: int| k).filter(|k: int| present[cell_offset(d, k, m)])
}

/// The rows a replay on `trade_date` gives: none when the panel lacks the
/// date, else one per instrument present that day, in panel order, with
/// the value [`cached_value`] finds.
pub open spec fn replay_rows<V>(
    dates: Seq<i32>,
    codes: Seq<Seq<char>>,
    present: Seq<bool>,
    cached: Option<CrossSectionView<V>>,
    trade_date: i32,
) -> Seq<(i32, Seq<char>, Option<V>)> {
    match first_date_pos(dates, trade_date) {
        None => Seq::empty(),
        Some(d) => present_positions(present, d, codes.len() as int).map_values(
            |k: int| (trade_date, codes[k], cached_value(cached, k, codes[k])),
        ),
    }
}

/// The date, code and value of `row`.
pub open spec fn row_view<V>(row: FactorValue<V>) -> (i32, Seq<char>, Option<V>) {
    (row_date(row), row_code(row), row.value)
}

/// A cached cross-section.
#[derive(Clone, Debug)]
struct CachedCrossSection<V> {
    instruments: Vec<String>,
    values: Vec<Option<V>>,
}

impl<V> CachedCrossSection<V> {
    spec fn view(self) -> CrossSectionView<V> {
        CrossSectionView { instruments: strings_view(self.instruments@), values: self.values@ }
    }
}

/// The latest cross-section of each slow factor, and the last trade date
/// processed.
#[derive(Clone, Debug)]
pub struct EventDrivenCrossSectionCache<V> {
    latest_values: Vec<(String, CachedCrossSection<V>)>,
    last_processed_trade_date: Option<i32>,
}

impl<V: Copy> Default for EventDrivenCrossSectionCache<V> {
    fn default() -> (r: Self)
        ensures
            r.last_processed() is None,
            forall|id: Seq<char>| #[trigger] r.cached(id) is None,
    {
        EventDrivenCrossSectionCache { latest_values: Vec::new(), last_processed_trade_date: None }
    }
}

impl<V: Copy> EventDrivenCrossSectionCache<V> {
    /// The factor ids cached, in the order they were first written.
    pub closed spec fn keys(self) -> Seq<Seq<char>> {
        self.latest_values@.map_values(|e: (String, CachedCrossSection<V>)| e.0@)
    }

    /// The latest cross-section cached for factor `id`.
    pub closed spec fn cached(self, id: Seq<char>) -> Option<CrossSectionView<V>> {
        match first_key_pos(self.keys(), id) {
            Some(p) => Some(self.latest_values@[p].1.view()),
            None => None,
        }
    }

    /// The last trade date processed.
    pub closed spec fn last_processed(self) -> Option<i32> {
        self.last_processed_trade_date
    }

    /// The first entry of factor `id`.
    fn find(&self, id: &str) -> (r: Option<usize>)
        ensures
            match r {
                Some(p) => first_key_pos(self.keys(), id@) == Some(p as int),
                None => first_key_pos(self.keys(), id@) is None,
            },
    {
        let ghost keys = self.keys();
        let mut i: usize = 0;
        while i < self.latest_values.len()
            invariant
                i <= self.latest_values@.len(),
                keys == self.keys(),
                keys.len() == self.latest_values@.len(),
                forall|j: int| 0 <= j < i ==> keys[j] != id@,
            decreases self.latest_values@.len() - i,
        {
            if str_eq(self.latest_values[i].0.as_str(), id) {
                proof {
                    lemma_first_key_pos_at(keys, id@, i as int);
                }
                return Some(i);
            }
            i = i + 1;
        }
        proof {
            lemma_first_key_pos(keys, id@);
        }
        None
    }

    /// Whether `trade_date` must be computed afresh: nothing was processed
    /// yet, or the schedule has an event since the last processed date.
    pub fn should_recompute(&self, schedule: &FinancialEventSchedule, trade_date: i32) -> (r: bool)
        requires
            self.last_processed() matches Some(p) ==> p < trade_date,
        ensures
            r == match self.last_processed() {
                None => true,
                Some(p) => event_between(schedule@, p as int, trade_date as int),
            },
    {
        match self.last_processed_trade_date {
            None => true,
            Some(p) => schedule.has_event_after_until(Some(p), trade_date),
        }
    }

    /// Records `trade_date` as processed.
    pub fn mark_processed(&mut self, trade_date: i32)
        ensures
            final(self).last_processed() == Some(trade_date),
            forall|id: Seq<char>| #[trigger] final(self).cached(id) == old(self).cached(id),
    {
        self.last_processed_trade_date = Some(trade_date);
    }

    /// The rows of factor `spec` on `trade_date` from the cached
    /// cross-section: one per instrument of `panel` present that day, with
    /// the value cached for its code; none when the panel lacks the date.
    pub fn replay_series(&self, spec: FactorSpec, panel: &DailyPanel, trade_date: i32) -> (r: FactorSeries<V>)
        ensures
            r.spec == spec,
            r.values@.map_values(|row: FactorValue<V>| row_view(row)) == replay_rows(
                panel.dates_view(),
                panel.instruments_view(),
                panel.present_view(),
                self.cached(spec.id@),
                trade_date,
            ),
    {
        let ghost cached = self.cached(spec.id@);
        let slot = self.find(spec.id.as_str());
        proof {
            lemma_first_key_pos(self.keys(), spec.id@);
        }
        let dates = panel.dates();
        let instruments = panel.instruments();
        let ghost codes = panel.instruments_view();
        let m = instruments.len();
        let total = panel.shape_len();
        let mut date_idx: Option<usize> = None;
        let mut i: usize = 0;
        while i < dates.len()
            invariant_except_break
                date_idx is None,
            invariant
                i <= dates@.len(),
                forall|j: int| 0 <= j < i ==> dates@[j] != trade_date,
            ensures
                date_idx matches Some(d) ==> d < dates@.len() && dates@[d as int] == trade_date && forall|j: int|
                    0 <= j < d ==> dates@[j] != trade_date,
                date_idx is None ==> forall|j: int| 0 <= j < dates@.len() ==> dates@[j] != trade_date,
            decreases dates@.len() - i,
        {
            if dates[i] == trade_date {
                date_idx = Some(i);
                break;
            }
            i = i + 1;
        }
        proof {
            lemma_first_date_pos(dates@, trade_date);
            if let Some(d) = date_idx {
                lemma_first_date_pos_at(dates@, trade_date, d as int);
            }
        }
        let mut values: Vec<FactorValue<V>> = Vec::new();
        if let Some(d) = date_idx {
            proof {
                lemma_first_date_pos(dates@, trade_date);
            }
            let ghost present = panel.present_view();
            let ghost pred = |k: int| present[cell_offset(d as int, k, m as int)];
            let ghost row = |k: int| (trade_date, codes[k], cached_value(cached, k, codes[k]));
            let mut k: usize = 0;
            while k < m
                invariant
                    k <= m,
                    m == codes.len(),
                    strings_view(instruments@) == codes,
                    d < dates@.len(),
                    dates@.len() * m == total,
                    total == present.len(),
                    present == panel.present_view(),
                    pred == (|k: int| present[cell_offset(d as int, k, m as int)]),
                    row == (|k: int| (trade_date, codes[k], cached_value(cached, k, codes[k]))),
                    cached == self.cached(spec.id@),
                    match slot {
                        Some(p) => p < self.latest_values@.len() && cached == Some(self.latest_values@[p as int].1.view()),
                        None => cached is None,
                    },
                    values@.map_values(|row: FactorValue<V>| row_view(row)) == Seq::new(k as nat, |t: int| t).filter(
                        pred,
                    ).map_values(row),
                decreases m - k,
            {
                proof {
                    lemma_cell_in_grid(d as int, k as int, dates@.len() as int, m as int);
                    assert(Seq::new((k + 1) as nat, |t: int| t) =~= Seq::new(k as nat, |t: int| t).push(k as int));
                    Seq::new(k as nat, |t: int| t).lemma_filter_push(k as int, pred);
                }
                let offset = d * m + k;
                if panel.is_present_offset(offset) {
                    let code = &instruments[k];
                    proof {
                        assert(code@ == codes[k as int]);
                    }
                    let value = match slot {
                        None => None,
                        Some(p) => {
                            let section = &self.latest_values[p].1;
                            if k < section.instruments.len() && str_eq(section.instruments[k].as_str(), code.as_str()) {
                                if k < section.values.len() {
                                    section.values[k]
                                } else {
                                    None
                                }
                            } else {
                                proof {
                                    lemma_last_pos_bounds(strings_view(section.instruments@), code@);
                                }
                                match last_index_of(&section.instruments, code.as_str()) {
                                    Some(j) => if j < section.values.len() {
                                        section.values[j]
                                    } else {
                                        None
                                    },
                                    None => None,
                                }
                            }
                        },
                    };
                    let ghost before = values@;
                    values.push(
                        FactorValue {
                            key: FactorRowKey::Daily { trade_date, ts_code: code.clone() },
                            value,
                        },
                    );
                    proof {
                        assert(values@.map_values(|row: FactorValue<V>| row_view(row)) =~= before.map_values(
                            |row: FactorValue<V>| row_view(row),
                        ).push(row(k as int)));
                        assert(Seq::new(k as nat, |t: int| t).filter(pred).push(k as int).map_values(row)
                            =~= Seq::new(k as nat, |t: int| t).filter(pred).map_values(row).push(row(k as int)));
                    }
                }
                k = k + 1;
            }
            proof {
                assert(Seq::new(m as nat, |t: int| t) =~= Seq::new(codes.len(), |t: int| t));
            }
        } else {
            proof {
                assert(values@.map_values(|row: FactorValue<V>| row_view(row)) =~= Seq::empty());
            }
        }
        FactorSeries { spec, values }
    }

    /// Replaces the cross-section of `series`' factor with the values it
    /// gives the instruments of `panel`, matched by code.
    pub fn update_series(&mut self, series: &FactorSeries<V>, panel: &DailyPanel)
        ensures
            final(self).last_processed() == old(self).last_processed(),
            final(self).cached(series.spec.id@) == Some(written_section(panel.instruments_view(), series.values@)),
            forall|id: Seq<char>| id != series.spec.id@ ==> #[trigger] final(self).cached(id) == old(self).cached(id),
    {
        let instruments = panel.instruments();
        let ghost codes = panel.instruments_view();
        let m = instruments.len();
        let mut values: Vec<Option<V>> = Vec::new();
        let mut k: usize = 0;
        while k < m
            invariant
                k <= m,
                values@.len() == k,
                forall|j: int| 0 <= j < k ==> (#[trigger] values@[j]) is None,
            decreases m - k,
        {
            values.push(None);
            k = k + 1;
        }
        let rows = &series.values;
        let mut t: usize = 0;
        while t < rows.len()
            invariant
                t <= rows@.len(),
                m == codes.len(),
                strings_view(instruments@) == codes,
                values@.len() == m,
                forall|j: int| 0 <= j < m ==> #[trigger] values@[j] == written_at(codes, rows@.subrange(0, t as int), j),
            decreases rows@.len() - t,
        {
            let ghost before = values@;
            let ghost next = rows@.subrange(0, t + 1);
            proof {
                assert(next.drop_last() =~= rows@.subrange(0, t as int));
                assert(next.last() == rows@[t as int]);
            }
            match &rows[t].key {
                FactorRowKey::Daily { ts_code, .. } => {
                    proof {
                        lemma_last_pos_bounds(codes, ts_code@);
                    }
                    if let Some(idx) = last_index_of(instruments, ts_code.as_str()) {
                        values.set(idx, rows[t].value);
                    }
                },
            }
            proof {
                assert forall|j: int| 0 <= j < m implies #[trigger] values@[j] == written_at(codes, next, j) by {
                    assert(before[j] == written_at(codes, rows@.subrange(0, t as int), j));
                }
            }
            t = t + 1;
        }
        proof {
            assert(rows@.subrange(0, rows@.len() as int) =~= rows@);
        }
        let section = CachedCrossSection { instruments: copy_strings(instruments), values };
        let ghost section_view = section.view();
        proof {
            assert(section_view.values =~= written_section(codes, rows@).values);
        }
        let ghost old_keys = self.keys();
        match self.find(series.spec.id.as_str()) {
            Some(p) => {
                proof {
                    lemma_first_key_pos(old_keys, series.spec.id@);
                    assert(old_keys.len() == self.latest_values@.len());
                }
                self.latest_values.set(p, (series.spec.id.clone(), section));
                proof {
                    assert(self.keys() =~= old_keys);
                    assert forall|id: Seq<char>| id != series.spec.id@ implies #[trigger] self.cached(id) == old(self).cached(id) by {
                        lemma_first_key_pos(old_keys, id);
                    }
                }
            },
            None => {
                self.latest_values.push((series.spec.id.clone(), section));
                proof {
                    assert(self.keys() =~= old_keys.push(series.spec.id@));
                    assert(self.keys().drop_last() =~= old_keys);
                    assert forall|id: Seq<char>| id != series.spec.id@ implies #[trigger] self.cached(id) == old(self).cached(id) by {
                        lemma_first_key_pos(old_keys, id);
                    }
                }
            },
        }
    }
}

/// A replay right after an update on the same panel gives back what the
/// update wrote: each instrument present that day gets the value the
/// series wrote for its position.
pub proof fn lemma_replay_gives_back_update<V: Copy>(
    cache: EventDrivenCrossSectionCache<V>,
    id: Seq<char>,
    panel: DailyPanel,
    rows: Seq<FactorValue<V>>,
    trade_date: i32,
)
    requires
        cache.cached(id) == Some(written_section(panel.instruments_view(), rows)),
    ensures
        replay_rows(panel.dates_view(), panel.instruments_view(), panel.present_view(), cache.cached(id), trade_date)
            == match first_date_pos(panel.dates_view(), trade_date) {
            None => Seq::empty(),
            Some(d) => present_positions(panel.present_view(), d, panel.instruments_view().len() as int).map_values(
                |k: int| (trade_date, panel.instruments_view()[k], written_at(panel.instruments_view(), rows, k)),
            ),
        },
{
    let codes = panel.instruments_view();
    let m = codes.len() as int;
    if let Some(d) = first_date_pos(panel.dates_view(), trade_date) {
        let ks = present_positions(panel.present_view(), d, m);
        let lhs = ks.map_values(|k: int| (trade_date, codes[k], cached_value(cache.cached(id), k, codes[k])));
        let rhs = ks.map_values(|k: int| (trade_date, codes[k], written_at(codes, rows, k)));
        assert forall|t: int| 0 <= t < ks.len() implies lhs[t] == rhs[t] by {
            let k = ks[t];
            let pred = |k: int| panel.present_view()[cell_offset(d, k, m)];
            assert(ks.contains(k));
            Seq::new(m as nat, |j: int| j).lemma_filter_contains_rev(pred, k);
        }
        assert(lhs =~= rhs);
    }
}

/// The factor ids of `specs`, in order.
pub open spec fn spec_ids(specs: Seq<FactorSpec>) -> Seq<Seq<char>> {
    specs.map_values(|s: FactorSpec| s.id@)
}

/// The ids of `ids` without repeats, in order of first occurrence.
pub open spec fn distinct_ids(ids: Seq<Seq<char>>) -> Seq<Seq<char>>
    decreases ids.len(),
{
    if ids.len() == 0 {
        Seq::empty()
    } else {
        let d = distinct_ids(ids.drop_last());
        if d.contains(ids.last()) {
            d
        } else {
            d.push(ids.last())
        }
    }
}

/// The definition of the last spec in `specs` with factor id `id`.
pub open spec fn last_spec_with(specs: Seq<FactorSpec>, id: Seq<char>) -> Option<FactorSpecView>
    decreases specs.len(),
{
    if specs.len() == 0 {
        None
    } else if specs.last().id@ == id {
        Some(specs.last()@)
    } else {
        last_spec_with(specs.drop_last(), id)
    }
}

/// The dates, codes and values of `rows`.
pub open spec fn rows_view<V>(rows: Seq<FactorValue<V>>) -> Seq<(i32, Seq<char>, Option<V>)> {
    rows.map_values(|row: FactorValue<V>| row_view(row))
}

/// `rows` once for each occurrence of `id` in `ids`.
pub open spec fn chunk_for<R>(ids: Seq<Seq<char>>, id: Seq<char>, rows: Seq<R>) -> Seq<R>
    decreases ids.len(),
{
    if ids.len() == 0 {
        Seq::empty()
    } else {
        chunk_for(ids.drop_last(), id, rows) + if ids.last() == id {
            rows
        } else {
            Seq::empty()
        }
    }
}

/// The rows a run over `targets` gives factor `id` when every date replays
/// `cached`: each date's replay, once per spec with that id.
pub open spec fn replay_run<V>(
    dates: Seq<i32>,
    codes: Seq<Seq<char>>,
    present: Seq<bool>,
    cached: Option<CrossSectionView<V>>,
    targets: Seq<i32>,
    ids: Seq<Seq<char>>,
    id: Seq<char>,
) -> Seq<(i32, Seq<char>, Option<V>)>
    decreases targets.len(),
{
    if targets.len() == 0 {
        Seq::empty()
    } else {
        replay_run(dates, codes, present, cached, targets.drop_last(), ids, id) + chunk_for(
            ids,
            id,
            replay_rows(dates, codes, present, cached, targets.last()),
        )
    }
}

/// The factor ids of the series in `series`, in order.
pub open spec fn series_ids<V>(series: Seq<FactorSeries<V>>) -> Seq<Seq<char>> {
    series.map_values(|s: FactorSeries<V>| s.spec.id@)
}

/// The rows an event output `series` gives factor `id`: those of its last
/// series of that id, none when it has none.
pub open spec fn event_rows<V>(series: Seq<FactorSeries<V>>, id: Seq<char>) -> Seq<FactorValue<V>> {
    match last_pos(series_ids(series), id) {
        Some(q) => series[q].values@,
        None => Seq::empty(),
    }
}

/// Whether `c` is `context` narrowed to the single target `date`.
pub open spec fn one_date_context(c: FactorContext, context: FactorContext, date: i32) -> bool {
    &&& c.asset_class == context.asset_class
    &&& c.frequency == context.frequency
    &&& c.start_date == date
    &&& c.end_date == date
    &&& c.load_start_date == context.load_start_date
    &&& c.load_dates@ == context.load_dates@
    &&& c.target_dates@ == seq![date]
}

/// Whether `compute_on_event` can give `output` for `requested_ids` and
/// `context` narrowed to `date`.
pub open spec fn event_output<V, E, F>(
    compute_on_event: F,
    requested_ids: &[String],
    context: FactorContext,
    date: i32,
    output: Vec<FactorSeries<V>>,
) -> bool where F: FnMut(&[String], &FactorContext) -> Result<Vec<FactorSeries<V>>, E> {
    exists|c: FactorContext|
        one_date_context(c, context, date) && #[trigger] call_ensures(
            compute_on_event,
            (requested_ids, &c),
            Ok(output),
        )
}

/// The cross-section cached for `id` after the first `i` targets of a run
/// from `start`: a recomputed target writes the rows its event output
/// (`outs` at that target) gives each requested id; a replayed one writes
/// nothing.
pub open spec fn stream_cached<V: Copy>(
    start: EventDrivenCrossSectionCache<V>,
    events: Set<i32>,
    targets: Seq<i32>,
    codes: Seq<Seq<char>>,
    ids: Seq<Seq<char>>,
    outs: Seq<Vec<FactorSeries<V>>>,
    i: nat,
    id: Seq<char>,
) -> Option<CrossSectionView<V>>
    decreases i,
{
    if i == 0 {
        start.cached(id)
    } else if recomputes_at(start.last_processed(), events, targets, i - 1) && ids.contains(id) {
        Some(written_section(codes, event_rows(outs[i - 1]@, id)))
    } else {
        stream_cached(start, events, targets, codes, ids, outs, (i - 1) as nat, id)
    }
}

/// The rows the first `i` targets of a run from `start` give factor `id`:
/// on a recomputed target the rows its event output gives `id`, on any other
/// the replay of the cross-section cached by then; each once per spec with
/// that id.
pub open spec fn stream_rows<V: Copy>(
    start: EventDrivenCrossSectionCache<V>,
    events: Set<i32>,
    targets: Seq<i32>,
    dates: Seq<i32>,
    codes: Seq<Seq<char>>,
    present: Seq<bool>,
    ids: Seq<Seq<char>>,
    outs: Seq<Vec<FactorSeries<V>>>,
    i: nat,
    id: Seq<char>,
) -> Seq<(i32, Seq<char>, Option<V>)>
    decreases i,
{
    if i == 0 {
        Seq::empty()
    } else {
        stream_rows(start, events, targets, dates, codes, present, ids, outs, (i - 1) as nat, id) + if recomputes_at(
            start.last_processed(),
            events,
            targets,
            i - 1,
        ) {
            chunk_for(ids, id, rows_view(event_rows(outs[i - 1]@, id)))
        } else {
            chunk_for(
                ids,
                id,
                replay_rows(
                    dates,
                    codes,
                    present,
                    stream_cached(start, events, targets, codes, ids, outs, (i - 1) as nat, id),
                    targets[i - 1],
                ),
            )
        }
    }
}

/// Between events a run keeps what the last event wrote: after a recomputed
/// target `i` and until the next recomputed one, the cross-section cached for
/// a requested id is the one written from target `i`'s event output.
pub proof fn lemma_stream_keeps_last_event<V: Copy>(
    start: EventDrivenCrossSectionCache<V>,
    events: Set<i32>,
    targets: Seq<i32>,
    codes: Seq<Seq<char>>,
    ids: Seq<Seq<char>>,
    outs: Seq<Vec<FactorSeries<V>>>,
    i: nat,
    j: nat,
    id: Seq<char>,
)
    requires
        i < j,
        recomputes_at(start.last_processed(), events, targets, i as int),
        forall|k: int| i < k < j ==> !recomputes_at(start.last_processed(), events, targets, k),
        ids.contains(id),
    ensures
        stream_cached(start, events, targets, codes, ids, outs, j, id) == Some(
            written_section(codes, event_rows(outs[i as int]@, id)),
        ),
    decreases j,
{
    if j > i + 1 {
        lemma_stream_keeps_last_event(start, events, targets, codes, ids, outs, i, (j - 1) as nat, id);
        assert(!recomputes_at(start.last_processed(), events, targets, j - 1));
    }
}

/// A run reads `outs` only at the targets before `i`.
proof fn lemma_stream_prefix<V: Copy>(
    start: EventDrivenCrossSectionCache<V>,
    events: Set<i32>,
    targets: Seq<i32>,
    dates: Seq<i32>,
    codes: Seq<Seq<char>>,
    present: Seq<bool>,
    ids: Seq<Seq<char>>,
    outs: Seq<Vec<FactorSeries<V>>>,
    other: Seq<Vec<FactorSeries<V>>>,
    i: nat,
    id: Seq<char>,
)
    requires
        i <= outs.len(),
        i <= other.len(),
        forall|k: int| 0 <= k < i ==> outs[k] == other[k],
    ensures
        stream_cached(start, events, targets, codes, ids, outs, i, id) == stream_cached(
            start,
            events,
            targets,
            codes,
            ids,
            other,
            i,
            id,
        ),
        stream_rows(start, events, targets, dates, codes, present, ids, outs, i, id) == stream_rows(
            start,
            events,
            targets,
            dates,
            codes,
            present,
            ids,
            other,
            i,
            id,
        ),
    decreases i,
{
    if i > 0 {
        lemma_stream_prefix(start, events, targets, dates, codes, present, ids, outs, other, (i - 1) as nat, id);
        assert(outs[i - 1] == other[i - 1]);
    }
}

/// Without a recomputed target among the first `i`, the cache is the one the
/// run started from and every target replays it.
proof fn lemma_stream_without_events<V: Copy>(
    start: EventDrivenCrossSectionCache<V>,
    events: Set<i32>,
    targets: Seq<i32>,
    dates: Seq<i32>,
    codes: Seq<Seq<char>>,
    present: Seq<bool>,
    ids: Seq<Seq<char>>,
    outs: Seq<Vec<FactorSeries<V>>>,
    i: nat,
    id: Seq<char>,
)
    requires
        i <= targets.len(),
        forall|k: int| 0 <= k < i ==> !recomputes_at(start.last_processed(), events, targets, k),
    ensures
        stream_cached(start, events, targets, codes, ids, outs, i, id) == start.cached(id),
        stream_rows(start, events, targets, dates, codes, present, ids, outs, i, id) == replay_run(
            dates,
            codes,
            present,
            start.cached(id),
            targets.subrange(0, i as int),
            ids,
            id,
        ),
    decreases i,
{
    if i > 0 {
        lemma_stream_without_events(start, events, targets, dates, codes, present, ids, outs, (i - 1) as nat, id);
        assert(!recomputes_at(start.last_processed(), events, targets, i - 1));
        assert(targets.subrange(0, i as int).drop_last() =~= targets.subrange(0, i - 1));
    }
}

/// What a cross-section write reads of its rows: their codes and values.
proof fn lemma_written_section_by_view<V>(codes: Seq<Seq<char>>, a: Seq<FactorValue<V>>, b: Seq<FactorValue<V>>)
    requires
        rows_view(a) == rows_view(b),
    ensures
        written_section(codes, a) == written_section(codes, b),
{
    assert forall|k: int| 0 <= k < codes.len() implies written_at(codes, a, k) == written_at(codes, b, k) by {
        lemma_written_at_by_view(codes, a, b, k);
    }
    assert(written_section(codes, a).values =~= written_section(codes, b).values);
}

proof fn lemma_written_at_by_view<V>(codes: Seq<Seq<char>>, a: Seq<FactorValue<V>>, b: Seq<FactorValue<V>>, k: int)
    requires
        rows_view(a) == rows_view(b),
    ensures
        written_at(codes, a, k) == written_at(codes, b, k),
    decreases a.len(),
{
    assert(a.len() == rows_view(a).len() && b.len() == rows_view(b).len());
    if a.len() > 0 {
        assert(rows_view(a)[a.len() - 1] == rows_view(b)[b.len() - 1]);
        assert(rows_view(a.drop_last()) =~= rows_view(a).drop_last());
        assert(rows_view(b.drop_last()) =~= rows_view(b).drop_last());
        lemma_written_at_by_view(codes, a.drop_last(), b.drop_last(), k);
    }
}

proof fn lemma_distinct_ids(ids: Seq<Seq<char>>)
    ensures
        forall|x: Seq<char>| #[trigger] distinct_ids(ids).contains(x) <==> ids.contains(x),
        forall|i: int, j: int|
            0 <= i < j < distinct_ids(ids).len() ==> distinct_ids(ids)[i] != distinct_ids(ids)[j],
    decreases ids.len(),
{
    if ids.len() > 0 {
        let t = ids.drop_last();
        let l = ids.last();
        lemma_distinct_ids(t);
        let d = distinct_ids(t);
        assert forall|x: Seq<char>| ids.contains(x) <==> (t.contains(x) || x == l) by {
            if ids.contains(x) {
                let k = choose|k: int| 0 <= k < ids.len() && ids[k] == x;
                if k < ids.len() - 1 {
                    assert(t[k] == x);
                }
            }
            if t.contains(x) {
                let k = choose|k: int| 0 <= k < t.len() && t[k] == x;
                assert(ids[k] == x);
            }
            if x == l {
                assert(ids[ids.len() - 1] == x);
            }
        }
        if !d.contains(l) {
            let dd = d.push(l);
            assert(distinct_ids(ids) == dd);
            assert forall|x: Seq<char>| dd.contains(x) <==> (d.contains(x) || x == l) by {
                if dd.contains(x) {
                    let k = choose|k: int| 0 <= k < dd.len() && dd[k] == x;
                    if k < d.len() {
                        assert(d[k] == x);
                    }
                }
                if d.contains(x) {
                    let k = choose|k: int| 0 <= k < d.len() && d[k] == x;
                    assert(dd[k] == x);
                }
                if x == l {
                    assert(dd[d.len() as int] == x);
                }
            }
            assert forall|i: int, j: int| 0 <= i < j < dd.len() implies dd[i] != dd[j] by {
                if j == d.len() {
                    assert(dd[i] == d[i]);
                    assert(d.contains(d[i]));
                } else {
                    assert(dd[i] == d[i] && dd[j] == d[j]);
                }
            }
        }
    }
}

/// The distinct factor ids of `specs` in order of first occurrence, each
/// with a copy of the last spec that has it.
fn distinct_specs(specs: &[FactorSpec]) -> (r: (Vec<String>, Vec<FactorSpec>))
    ensures
        strings_view(r.0@) == distinct_ids(spec_ids(specs@)),
        r.1@.len() == r.0@.len(),
        forall|j: int| 0 <= j < r.1@.len() ==> Some((#[trigger] r.1@[j])@) == last_spec_with(specs@, r.0@[j]@),
{
    let mut ids: Vec<String> = Vec::new();
    let mut copies: Vec<FactorSpec> = Vec::new();
    let mut k: usize = 0;
    while k < specs.len()
        invariant
            k <= specs@.len(),
            strings_view(ids@) == distinct_ids(spec_ids(specs@.subrange(0, k as int))),
            copies@.len() == ids@.len(),
            forall|j: int|
                0 <= j < copies@.len() ==> Some((#[trigger] copies@[j])@) == last_spec_with(
                    specs@.subrange(0, k as int),
                    ids@[j]@,
                ),
        decreases specs@.len() - k,
    {
        let ghost prev = specs@.subrange(0, k as int);
        let ghost next = specs@.subrange(0, k + 1);
        proof {
            assert(next.drop_last() =~= prev);
            assert(spec_ids(next).drop_last() =~= spec_ids(prev));
            assert(spec_ids(next).last() == specs@[k as int].id@);
            lemma_distinct_ids(spec_ids(prev));
        }
        let spec = &specs[k];
        let ghost before_ids = ids@;
        let ghost before_copies = copies@;
        match first_string_index(&ids, spec.id.as_str()) {
            Some(p) => {
                proof {
                    lemma_first_key_pos(strings_view(ids@), spec.id@);
                    assert(strings_view(ids@).contains(spec.id@));
                }
                copies.set(p, spec.clone());
                proof {
                    assert forall|j: int| 0 <= j < copies@.len() implies Some((#[trigger] copies@[j])@) == last_spec_with(
                        next,
                        ids@[j]@,
                    ) by {
                        if j == p {
                        } else {
                            assert(strings_view(ids@)[j] != spec.id@);
                            assert(copies@[j] == before_copies[j]);
                        }
                    }
                }
            },
            None => {
                proof {
                    lemma_first_key_pos(strings_view(ids@), spec.id@);
                    if strings_view(ids@).contains(spec.id@) {
                        let q = choose|q: int| 0 <= q < strings_view(ids@).len() && strings_view(ids@)[q] == spec.id@;
                    }
                }
                ids.push(spec.id.clone());
                copies.push(spec.clone());
                proof {
                    assert(strings_view(ids@) =~= strings_view(before_ids).push(spec.id@));
                    assert forall|j: int| 0 <= j < copies@.len() implies Some((#[trigger] copies@[j])@) == last_spec_with(
                        next,
                        ids@[j]@,
                    ) by {
                        if j < before_copies.len() {
                            assert(strings_view(before_ids)[j] != spec.id@);
                            assert(copies@[j] == before_copies[j]);
                            assert(ids@[j] == before_ids[j]);
                        }
                    }
                }
            },
        }
        k = k + 1;
    }
    proof {
        assert(specs@.subrange(0, specs@.len() as int) =~= specs@);
    }
    (ids, copies)
}

/// The first position of `x` in `items`.
fn first_string_index(items: &Vec<String>, x: &str) -> (r: Option<usize>)
    ensures
        match r {
            Some(p) => first_key_pos(strings_view(items@), x@) == Some(p as int),
            None => first_key_pos(strings_view(items@), x@) is None,
        },
{
    let ghost v = strings_view(items@);
    let mut i: usize = 0;
    while i < items.len()
        invariant
            i <= items@.len(),
            v == strings_view(items@),
            forall|j: int| 0 <= j < i ==> v[j] != x@,
        decreases items@.len() - i,
    {
        if str_eq(items[i].as_str(), x) {
            proof {
                lemma_first_key_pos_at(v, x@, i as int);
            }
            return Some(i);
        }
        i = i + 1;
    }
    proof {
        lemma_first_key_pos(v, x@);
    }
    None
}

/// The last position in `series` of a series of factor `id`.
fn last_series_index<V>(series: &Vec<FactorSeries<V>>, id: &str) -> (r: Option<usize>)
    ensures
        opt_usize_int(r) == last_pos(series_ids(series@), id@),
{
    let ghost v = series_ids(series@);
    let mut found: Option<usize> = None;
    let mut i: usize = 0;
    while i < series.len()
        invariant
            i <= series@.len(),
            v == series_ids(series@),
            opt_usize_int(found) == last_pos(v.subrange(0, i as int), id@),
        decreases series@.len() - i,
    {
        proof {
            assert(v.subrange(0, i + 1).drop_last() =~= v.subrange(0, i as int));
        }
        if str_eq(series[i].spec.id.as_str(), id) {
            found = Some(i);
        }
        i = i + 1;
    }
    proof {
        assert(v.subrange(0, v.len() as int) =~= v);
    }
    found
}

/// Copies of `rows`, in order.
fn copy_rows<V: Copy>(rows: &Vec<FactorValue<V>>) -> (r: Vec<FactorValue<V>>)
    ensures
        rows_view(r@) == rows_view(rows@),
{
    let mut out: Vec<FactorValue<V>> = Vec::new();
    let mut i: usize = 0;
    while i < rows.len()
        invariant
            i <= rows@.len(),
            rows_view(out@) =~= rows_view(rows@.subrange(0, i as int)),
        decreases rows@.len() - i,
    {
        let ghost before = out@;
        out.push(rows[i].clone());
        proof {
            assert(rows@.subrange(0, i + 1) =~= rows@.subrange(0, i as int).push(rows@[i as int]));
            assert(rows_view(out@) =~= rows_view(before).push(row_view(rows@[i as int])));
        }
        i = i + 1;
    }
    assert(rows@.subrange(0, rows@.len() as int) =~= rows@);
    out
}

/// Appends `rows` to the rows collected at position `p`.
fn append_rows<V>(out: &mut Vec<Vec<FactorValue<V>>>, p: usize, rows: Vec<FactorValue<V>>)
    requires
        p < old(out)@.len(),
    ensures
        final(out)@.len() == old(out)@.len(),
        rows_view(final(out)@[p as int]@) == rows_view(old(out)@[p as int]@) + rows_view(rows@),
        forall|j: int| 0 <= j < old(out)@.len() && j != p ==> #[trigger] final(out)@[j] == old(out)@[j],
{
    let mut current = out.remove(p);
    let mut rows = rows;
    let ghost before = current@;
    let ghost added = rows@;
    current.append(&mut rows);
    assert(rows_view(current@) =~= rows_view(before) + rows_view(added));
    out.insert(p, current);
}

/// The series of `specs` over the target dates of `context`, computed date
/// by date: a date with an event since the last processed one (or the
/// first date ever) calls `compute_on_event` on the requested ids and that
/// single date and stores what it gives in `state`; any other date replays
/// `state`. Each distinct factor id gets one series, under the last spec
/// with that id, holding the rows of every date once per spec with the id;
/// an error of `compute_on_event` ends the run.
pub fn compute_financial_event_snapshot_streaming_on_panel<V: Copy, E, F>(
    requested_ids: &[String],
    context: &FactorContext,
    panel: &DailyPanel,
    state: &mut EventDrivenCrossSectionCache<V>,
    schedule: &FinancialEventSchedule,
    specs: &[FactorSpec],
    mut compute_on_event: F,
) -> (r: Result<Vec<FactorSeries<V>>, E>) where
    F: FnMut(&[String], &FactorContext) -> Result<Vec<FactorSeries<V>>, E>,

    requires
        targets_follow(old(state).last_processed(), context.target_dates@),
        forall|ids: &[String], c: &FactorContext| #[trigger] call_requires(compute_on_event, (ids, c)),
    ensures
        r is Ok ==> final(state).last_processed() == if context.target_dates@.len() > 0 {
            Some(context.target_dates@.last())
        } else {
            old(state).last_processed()
        },
        r matches Ok(out) ==> out@.len() == distinct_ids(spec_ids(specs@)).len() && forall|j: int|
            0 <= j < out@.len() ==> Some((#[trigger] out@[j]).spec@) == last_spec_with(
                specs@,
                distinct_ids(spec_ids(specs@))[j],
            ),
        r matches Ok(out) ==> exists|outs: Seq<Vec<FactorSeries<V>>>|
            {
                &&& outs.len() == context.target_dates@.len()
                &&& forall|i: int|
                    0 <= i < outs.len() && recomputes_at(
                        old(state).last_processed(),
                        schedule@,
                        context.target_dates@,
                        i,
                    ) ==> event_output(
                        compute_on_event,
                        requested_ids,
                        *context,
                        context.target_dates@[i],
                        #[trigger] outs[i],
                    )
                &&& forall|id: Seq<char>|
                    #[trigger] final(state).cached(id) == stream_cached(
                        *old(state),
                        schedule@,
                        context.target_dates@,
                        panel.instruments_view(),
                        spec_ids(specs@),
                        outs,
                        outs.len(),
                        id,
                    )
                &&& forall|j: int|
                    0 <= j < out@.len() ==> rows_view((#[trigger] out@[j]).values@) == stream_rows(
                        *old(state),
                        schedule@,
                        context.target_dates@,
                        panel.dates_view(),
                        panel.instruments_view(),
                        panel.present_view(),
                        spec_ids(specs@),
                        outs,
                        outs.len(),
                        distinct_ids(spec_ids(specs@))[j],
                    )
            },
        (forall|i: int|
            0 <= i < context.target_dates@.len() ==> !recomputes_at(
                old(state).last_processed(),
                schedule@,
                context.target_dates@,
                i,
            )) ==> {
            &&& r is Ok
            &&& forall|id: Seq<char>| #[trigger] final(state).cached(id) == old(state).cached(id)
            &&& r matches Ok(out) ==> forall|j: int|
                0 <= j < out@.len() ==> rows_view((#[trigger] out@[j]).values@) == replay_run(
                    panel.dates_view(),
                    panel.instruments_view(),
                    panel.present_view(),
                    old(state).cached(distinct_ids(spec_ids(specs@))[j]),
                    context.target_dates@,
                    spec_ids(specs@),
                    distinct_ids(spec_ids(specs@))[j],
                )
        },
{
    let ghost targets = context.target_dates@;
    let ghost start = *old(state);
    let ghost ids_all = spec_ids(specs@);
    let ghost distinct = distinct_ids(ids_all);
    let ghost events = schedule@;
    let ghost dates = panel.dates_view();
    let ghost codes = panel.instruments_view();
    let ghost present = panel.present_view();
    let ghost compute0 = compute_on_event;
    let (out_ids, out_specs) = distinct_specs(specs);
    proof {
        lemma_distinct_ids(ids_all);
    }
    let mut out_values: Vec<Vec<FactorValue<V>>> = Vec::new();
    let mut j: usize = 0;
    while j < out_ids.len()
        invariant
            j <= out_ids@.len(),
            out_values@.len() == j,
            forall|q: int| 0 <= q < j ==> (#[trigger] out_values@[q])@.len() == 0,
        decreases out_ids@.len() - j,
    {
        out_values.push(Vec::new());
        j = j + 1;
    }
    let ghost mut outs: Seq<Vec<FactorSeries<V>>> = Seq::empty();
    proof {
        assert forall|q: int| 0 <= q < out_values@.len() implies rows_view((#[trigger] out_values@[q])@)
            == stream_rows(start, events, targets, dates, codes, present, ids_all, outs, 0, distinct[q]) by {
            assert(rows_view(out_values@[q]@) =~= Seq::empty());
        }
    }
    let mut i: usize = 0;
    while i < context.target_dates.len()
        invariant
            i <= targets.len(),
            targets == context.target_dates@,
            start == *old(state),
            events == schedule@,
            dates == panel.dates_view(),
            codes == panel.instruments_view(),
            present == panel.present_view(),
            compute_on_event == compute0,
            targets_follow(start.last_processed(), targets),
            state.last_processed() == processed_before(start.last_processed(), targets, i as int),
            forall|ids: &[String], c: &FactorContext| #[trigger] call_requires(compute_on_event, (ids, c)),
            strings_view(out_ids@) == distinct,
            distinct == distinct_ids(ids_all),
            ids_all == spec_ids(specs@),
            forall|x: Seq<char>| #[trigger] distinct.contains(x) <==> ids_all.contains(x),
            forall|a: int, b: int| 0 <= a < b < distinct.len() ==> distinct[a] != distinct[b],
            out_values@.len() == out_ids@.len(),
            outs.len() == i,
            forall|k: int|
                0 <= k < i && recomputes_at(start.last_processed(), events, targets, k) ==> event_output(
                    compute0,
                    requested_ids,
                    *context,
                    targets[k],
                    #[trigger] outs[k],
                ),
            forall|id: Seq<char>|
                #[trigger] state.cached(id) == stream_cached(start, events, targets, codes, ids_all, outs, i as nat, id),
            forall|q: int|
                0 <= q < out_values@.len() ==> rows_view((#[trigger] out_values@[q])@) == stream_rows(
                    start,
                    events,
                    targets,
                    dates,
                    codes,
                    present,
                    ids_all,
                    outs,
                    i as nat,
                    distinct[q],
                ),
        decreases targets.len() - i,
    {
        let trade_date = context.target_dates[i];
        proof {
            if i > 0 {
                assert(targets[i - 1] < targets[i as int]);
            }
        }
        let recompute = state.should_recompute(schedule, trade_date);
        proof {
            assert(recompute == recomputes_at(start.last_processed(), events, targets, i as int));
        }
        let ghost before_outs = outs;
        if recompute {
            let one: [i32; 1] = [trade_date];
            let event_context = multi_target_context(context, &one);
            let result = compute_on_event(requested_ids, &event_context);
            let event_series = match result {
                Ok(series) => series,
                Err(e) => {
                    proof {
                        assert(start.last_processed() == old(state).last_processed());
                        assert(recomputes_at(old(state).last_processed(), schedule@, context.target_dates@, i as int));
                    }
                    return Err(e);
                },
            };
            let ghost ev = event_series@;
            proof {
                assert(one@ =~= seq![trade_date]);
                assert(one_date_context(event_context, *context, trade_date));
                assert(event_output(compute0, requested_ids, *context, trade_date, event_series));
                outs = outs.push(event_series);
            }
            let mut k: usize = 0;
            while k < specs.len()
                invariant
                    k <= specs@.len(),
                    strings_view(out_ids@) == distinct,
                    forall|x: Seq<char>| #[trigger] distinct.contains(x) <==> ids_all.contains(x),
                    forall|a: int, b: int| 0 <= a < b < distinct.len() ==> distinct[a] != distinct[b],
                    ids_all == spec_ids(specs@),
                    codes == panel.instruments_view(),
                    out_values@.len() == out_ids@.len(),
                    ev == event_series@,
                    state.last_processed() == processed_before(start.last_processed(), targets, i as int),
                    forall|id: Seq<char>|
                        spec_ids(specs@.subrange(0, k as int)).contains(id) ==> #[trigger] state.cached(id) == Some(
                            written_section(codes, event_rows(ev, id)),
                        ),
                    forall|id: Seq<char>|
                        !spec_ids(specs@.subrange(0, k as int)).contains(id) ==> #[trigger] state.cached(id)
                            == stream_cached(start, events, targets, codes, ids_all, before_outs, i as nat, id),
                    forall|q: int|
                        0 <= q < out_values@.len() ==> rows_view((#[trigger] out_values@[q])@) == stream_rows(
                            start,
                            events,
                            targets,
                            dates,
                            codes,
                            present,
                            ids_all,
                            before_outs,
                            i as nat,
                            distinct[q],
                        ) + chunk_for(
                            spec_ids(specs@.subrange(0, k as int)),
                            distinct[q],
                            rows_view(event_rows(ev, distinct[q])),
                        ),
                decreases specs@.len() - k,
            {
                let spec = &specs[k];
                let ghost id = spec.id@;
                let ghost prev_ids = spec_ids(specs@.subrange(0, k as int));
                let ghost next_ids = spec_ids(specs@.subrange(0, k + 1));
                proof {
                    assert(specs@.subrange(0, k + 1).drop_last() =~= specs@.subrange(0, k as int));
                    assert(next_ids.drop_last() =~= prev_ids);
                    assert(next_ids.last() == id);
                    assert(ids_all[k as int] == id);
                    assert(distinct.contains(id));
                    lemma_last_pos_bounds(series_ids(ev), id);
                }
                let found = last_series_index(&event_series, spec.id.as_str());
                let series = match found {
                    Some(q) => FactorSeries { spec: event_series[q].spec.clone(), values: copy_rows(&event_series[q].values) },
                    None => FactorSeries { spec: spec.clone(), values: Vec::new() },
                };
                proof {
                    assert(series.spec.id@ == id);
                    assert(rows_view(series.values@) == rows_view(event_rows(ev, id)));
                    lemma_written_section_by_view(codes, series.values@, event_rows(ev, id));
                }
                let ghost before_cache = *state;
                state.update_series(&series, panel);
                proof {
                    assert forall|x: Seq<char>| next_ids.contains(x) implies #[trigger] state.cached(x) == Some(
                        written_section(codes, event_rows(ev, x)),
                    ) by {
                        if x != id {
                            let w = choose|w: int| 0 <= w < next_ids.len() && next_ids[w] == x;
                            assert(prev_ids[w] == x);
                        }
                    }
                    assert forall|x: Seq<char>| !next_ids.contains(x) implies #[trigger] state.cached(x)
                        == stream_cached(start, events, targets, codes, ids_all, before_outs, i as nat, x) by {
                        assert(next_ids[next_ids.len() - 1] == id);
                        if prev_ids.contains(x) {
                            let w = choose|w: int| 0 <= w < prev_ids.len() && prev_ids[w] == x;
                            assert(next_ids[w] == x);
                        }
                        assert(before_cache.cached(x) == stream_cached(start, events, targets, codes, ids_all, before_outs, i as nat, x));
                    }
                }
                let ghost before = out_values@;
                let ghost chunk = rows_view(event_rows(ev, id));
                match first_string_index(&out_ids, series.spec.id.as_str()) {
                    Some(p) => {
                        proof {
                            lemma_first_key_pos(strings_view(out_ids@), series.spec.id@);
                        }
                        append_rows(&mut out_values, p, series.values);
                        proof {
                            assert forall|q: int| 0 <= q < out_values@.len() implies rows_view((#[trigger] out_values@[q])@)
                                == stream_rows(
                                start,
                                events,
                                targets,
                                dates,
                                codes,
                                present,
                                ids_all,
                                before_outs,
                                i as nat,
                                distinct[q],
                            ) + chunk_for(next_ids, distinct[q], rows_view(event_rows(ev, distinct[q]))) by {
                                if q == p {
                                    assert(distinct[q] == id);
                                } else {
                                    assert(distinct[q] != id);
                                    assert(out_values@[q] == before[q]);
                                }
                                assert(chunk_for(next_ids, distinct[q], rows_view(event_rows(ev, distinct[q])))
                                    =~= chunk_for(prev_ids, distinct[q], rows_view(event_rows(ev, distinct[q])))
                                    + if next_ids.last() == distinct[q] {
                                    rows_view(event_rows(ev, distinct[q]))
                                } else {
                                    Seq::empty()
                                });
                            }
                        }
                    },
                    None => {
                        proof {
                            lemma_first_key_pos(strings_view(out_ids@), series.spec.id@);
                            let w = choose|w: int| 0 <= w < distinct.len() && distinct[w] == id;
                            assert(strings_view(out_ids@)[w] == id);
                        }
                    },
                }
                k = k + 1;
            }
            proof {
                assert(specs@.subrange(0, specs@.len() as int) =~= specs@);
                assert forall|x: Seq<char>| #[trigger] state.cached(x) == stream_cached(
                    start,
                    events,
                    targets,
                    codes,
                    ids_all,
                    outs,
                    (i + 1) as nat,
                    x,
                ) by {
                    lemma_stream_prefix(start, events, targets, dates, codes, present, ids_all, outs, before_outs, i as nat, x);
                }
                assert forall|q: int| 0 <= q < out_values@.len() implies rows_view((#[trigger] out_values@[q])@)
                    == stream_rows(start, events, targets, dates, codes, present, ids_all, outs, (i + 1) as nat, distinct[q]) by {
                    lemma_stream_prefix(
                        start,
                        events,
                        targets,
                        dates,
                        codes,
                        present,
                        ids_all,
                        outs,
                        before_outs,
                        i as nat,
                        distinct[q],
                    );
                    assert(outs[i as int] == event_series);
                }
            }
        } else {
            let ghost replayed = |x: Seq<char>|
                replay_rows(
                    dates,
                    codes,
                    present,
                    stream_cached(start, events, targets, codes, ids_all, before_outs, i as nat, x),
                    trade_date,
                );
            let mut k: usize = 0;
            while k < specs.len()
                invariant
                    k <= specs@.len(),
                    strings_view(out_ids@) == distinct,
                    forall|x: Seq<char>| #[trigger] distinct.contains(x) <==> ids_all.contains(x),
                    forall|a: int, b: int| 0 <= a < b < distinct.len() ==> distinct[a] != distinct[b],
                    ids_all == spec_ids(specs@),
                    dates == panel.dates_view(),
                    codes == panel.instruments_view(),
                    present == panel.present_view(),
                    out_values@.len() == out_ids@.len(),
                    state.last_processed() == processed_before(start.last_processed(), targets, i as int),
                    forall|id: Seq<char>|
                        #[trigger] state.cached(id) == stream_cached(
                            start,
                            events,
                            targets,
                            codes,
                            ids_all,
                            before_outs,
                            i as nat,
                            id,
                        ),
                    replayed == (|x: Seq<char>|
                        replay_rows(
                            dates,
                            codes,
                            present,
                            stream_cached(start, events, targets, codes, ids_all, before_outs, i as nat, x),
                            trade_date,
                        )),
                    forall|q: int|
                        0 <= q < out_values@.len() ==> rows_view((#[trigger] out_values@[q])@) == stream_rows(
                            start,
                            events,
                            targets,
                            dates,
                            codes,
                            present,
                            ids_all,
                            before_outs,
                            i as nat,
                            distinct[q],
                        ) + chunk_for(spec_ids(specs@.subrange(0, k as int)), distinct[q], replayed(distinct[q])),
                decreases specs@.len() - k,
            {
                let spec = &specs[k];
                let series = state.replay_series(spec.clone(), panel, trade_date);
                let ghost prev_ids = spec_ids(specs@.subrange(0, k as int));
                let ghost next_ids = spec_ids(specs@.subrange(0, k + 1));
                proof {
                    assert(specs@.subrange(0, k + 1).drop_last() =~= specs@.subrange(0, k as int));
                    assert(next_ids.drop_last() =~= prev_ids);
                    assert(next_ids.last() == spec.id@);
                    assert(ids_all[k as int] == spec.id@);
                    assert(distinct.contains(spec.id@));
                }
                let ghost before = out_values@;
                if let Some(p) = first_string_index(&out_ids, series.spec.id.as_str()) {
                    proof {
                        lemma_first_key_pos(strings_view(out_ids@), series.spec.id@);
                    }
                    append_rows(&mut out_values, p, series.values);
                    proof {
                        assert forall|q: int| 0 <= q < out_values@.len() implies rows_view((#[trigger] out_values@[q])@)
                            == stream_rows(
                            start,
                            events,
                            targets,
                            dates,
                            codes,
                            present,
                            ids_all,
                            before_outs,
                            i as nat,
                            distinct[q],
                        ) + chunk_for(next_ids, distinct[q], replayed(distinct[q])) by {
                            if q == p {
                                assert(distinct[q] == spec.id@);
                            } else {
                                assert(distinct[q] != spec.id@);
                                assert(out_values@[q] == before[q]);
                            }
                            assert(chunk_for(next_ids, distinct[q], replayed(distinct[q])) =~= chunk_for(
                                prev_ids,
                                distinct[q],
                                replayed(distinct[q]),
                            ) + if next_ids.last() == distinct[q] {
                                replayed(distinct[q])
                            } else {
                                Seq::empty()
                            });
                        }
                    }
                } else {
                    proof {
                        lemma_first_key_pos(strings_view(out_ids@), series.spec.id@);
                    }
                }
                k = k + 1;
            }
            proof {
                assert(specs@.subrange(0, specs@.len() as int) =~= specs@);
                let filler: Vec<FactorSeries<V>> = vstd::pervasive::arbitrary();
                outs = outs.push(filler);
                assert forall|x: Seq<char>| #[trigger] state.cached(x) == stream_cached(
                    start,
                    events,
                    targets,
                    codes,
                    ids_all,
                    outs,
                    (i + 1) as nat,
                    x,
                ) by {
                    lemma_stream_prefix(start, events, targets, dates, codes, present, ids_all, outs, before_outs, i as nat, x);
                }
                assert forall|q: int| 0 <= q < out_values@.len() implies rows_view((#[trigger] out_values@[q])@)
                    == stream_rows(start, events, targets, dates, codes, present, ids_all, outs, (i + 1) as nat, distinct[q]) by {
                    lemma_stream_prefix(
                        start,
                        events,
                        targets,
                        dates,
                        codes,
                        present,
                        ids_all,
                        outs,
                        before_outs,
                        i as nat,
                        distinct[q],
                    );
                }
            }
        }
        proof {
            assert forall|k: int|
                0 <= k < i + 1 && recomputes_at(start.last_processed(), events, targets, k) implies event_output(
                compute0,
                requested_ids,
                *context,
                targets[k],
                #[trigger] outs[k],
            ) by {
                if k < i {
                    assert(outs[k] == before_outs[k]);
                }
            }
        }
        state.mark_processed(trade_date);
        i = i + 1;
    }
    proof {
        assert(targets.subrange(0, targets.len() as int) =~= targets);
        if forall|k: int| 0 <= k < targets.len() ==> !recomputes_at(start.last_processed(), events, targets, k) {
            assert forall|x: Seq<char>| #[trigger] state.cached(x) == start.cached(x) by {
                lemma_stream_without_events(start, events, targets, dates, codes, present, ids_all, outs, targets.len(), x);
            }
            assert forall|q: int| 0 <= q < out_values@.len() implies rows_view((#[trigger] out_values@[q])@) == replay_run(
                dates,
                codes,
                present,
                start.cached(distinct[q]),
                targets,
                ids_all,
                distinct[q],
            ) by {
                lemma_stream_without_events(
                    start,
                    events,
                    targets,
                    dates,
                    codes,
                    present,
                    ids_all,
                    outs,
                    targets.len(),
                    distinct[q],
                );
            }
        }
    }
    let mut out: Vec<FactorSeries<V>> = Vec::new();
    let mut spec_queue = out_specs;
    let mut value_queue = out_values;
    let ghost all_specs = spec_queue@;
    let ghost all_values = value_queue@;
    let mut n: usize = 0;
    while spec_queue.len() > 0 && value_queue.len() > 0
        invariant
            spec_queue@ == all_specs.subrange(n as int, all_specs.len() as int),
            value_queue@ == all_values.subrange(n as int, all_values.len() as int),
            all_specs.len() == all_values.len(),
            all_specs.len() <= usize::MAX,
            n <= all_specs.len(),
            out@.len() == n,
            forall|q: int|
                0 <= q < n ==> (#[trigger] out@[q]).spec == all_specs[q] && out@[q].values == all_values[q],
        decreases spec_queue@.len(),
    {
        let spec = spec_queue.remove(0);
        let values = value_queue.remove(0);
        out.push(FactorSeries { spec, values });
        n = n + 1;
        proof {
            assert(spec_queue@ =~= all_specs.subrange(n as int, all_specs.len() as int));
            assert(value_queue@ =~= all_values.subrange(n as int, all_values.len() as int));
        }
    }
    proof {
        assert(outs.len() == targets.len());
    }
    Ok(out)
}

/// `values` with every empty cell of a present, non-Beijing instrument set
/// to `fill`.
pub open spec fn filled_cell<V>(
    values: Seq<Option<V>>,
    codes: Seq<Seq<char>>,
    present: Seq<bool>,
    fill: V,
    d: int,
    i: int,
) -> Option<V> {
    let k = cell_offset(d, i, codes.len() as int);
    if present[k] && !spec_is_bj_stock(codes[i]) && values[k] is None {
        Some(fill)
    } else {
        values[k]
    }
}

/// `values`, a column of `panel`, with every empty cell of an instrument
/// present that day and not listed in Beijing set to `fill` (a zero rank).
pub fn fill_present_non_bj_missing_ranks_with_zero<V: Copy>(values: &[Option<V>], panel: &DailyPanel, fill: V) -> (r:
    Vec<Option<V>>)
    requires
        values@.len() == panel.dates_view().len() * panel.instruments_view().len(),
    ensures
        r@.len() == values@.len(),
        forall|d: int, i: int|
            0 <= d < panel.dates_view().len() && 0 <= i < panel.instruments_view().len() ==> #[trigger] r@[cell_offset(
                d,
                i,
                panel.instruments_view().len() as int,
            )] == filled_cell(values@, panel.instruments_view(), panel.present_view(), fill, d, i),
{
    let instruments = panel.instruments();
    let ghost codes = panel.instruments_view();
    let m = instruments.len();
    let n = panel.dates().len();
    let total = panel.shape_len();
    let mut out: Vec<Option<V>> = Vec::new();
    let mut t: usize = 0;
    while t < values.len()
        invariant
            t <= values@.len(),
            out@ == values@.subrange(0, t as int),
        decreases values@.len() - t,
    {
        out.push(values[t]);
        t = t + 1;
    }
    proof {
        assert(values@.subrange(0, values@.len() as int) =~= values@);
    }
    let mut d: usize = 0;
    while d < n
        invariant
            d <= n,
            n == panel.dates_view().len(),
            m == codes.len(),
            strings_view(instruments@) == codes,
            codes == panel.instruments_view(),
            total == n * m,
            total == values@.len(),
            total == panel.present_view().len(),
            out@.len() == total,
            forall|dd: int, i: int|
                0 <= dd < n && 0 <= i < m ==> #[trigger] out@[cell_offset(dd, i, m as int)] == if dd < d {
                    filled_cell(values@, codes, panel.present_view(), fill, dd, i)
                } else {
                    values@[cell_offset(dd, i, m as int)]
                },
        decreases n - d,
    {
        let mut i: usize = 0;
        while i < m
            invariant
                d < n,
                i <= m,
                n == panel.dates_view().len(),
                m == codes.len(),
                strings_view(instruments@) == codes,
                codes == panel.instruments_view(),
                total == n * m,
                total == values@.len(),
                total == panel.present_view().len(),
                out@.len() == total,
                forall|dd: int, ii: int|
                    0 <= dd < n && 0 <= ii < m ==> #[trigger] out@[cell_offset(dd, ii, m as int)] == if dd < d || (dd
                        == d && ii < i) {
                        filled_cell(values@, codes, panel.present_view(), fill, dd, ii)
                    } else {
                        values@[cell_offset(dd, ii, m as int)]
                    },
            decreases m - i,
        {
            proof {
                lemma_cell_in_grid(d as int, i as int, n as int, m as int);
            }
            let offset = d * m + i;
            let ghost before = out@;
            proof {
                assert(instruments@[i as int]@ == codes[i as int]);
            }
            if panel.is_present_offset(offset) && !is_bj_stock(instruments[i].as_str()) && out[offset].is_none() {
                out.set(offset, Some(fill));
            }
            proof {
                assert forall|dd: int, ii: int| 0 <= dd < n && 0 <= ii < m implies #[trigger] out@[cell_offset(dd, ii, m as int)]
                    == if dd < d || (dd == d && ii < i + 1) {
                    filled_cell(values@, codes, panel.present_view(), fill, dd, ii)
                } else {
                    values@[cell_offset(dd, ii, m as int)]
                } by {
                    lemma_cell_in_grid(dd, ii, n as int, m as int);
                    if dd != d {
                        lemma_cells_distinct(dd, ii, d as int, i as int, m as int);
                    }
                    if dd == d && ii == i {
                        assert(before[cell_offset(dd, ii, m as int)] == values@[cell_offset(dd, ii, m as int)]);
                    } else {
                        assert(out@[cell_offset(dd, ii, m as int)] == before[cell_offset(dd, ii, m as int)]);
                    }
                }
            }
            i = i + 1;
        }
        d = d + 1;
    }
    out
}

/// The rows of `column`, a column of `panel`, on `trade_date`: one per
/// instrument present that day, in panel order; none when the panel lacks
/// the date.
pub open spec fn column_rows<V>(
    dates: Seq<i32>,
    codes: Seq<Seq<char>>,
    present: Seq<bool>,
    column: Seq<Option<V>>,
    trade_date: i32,
) -> Seq<(i32, Seq<char>, Option<V>)> {
    match first_date_pos(dates, trade_date) {
        None => Seq::empty(),
        Some(d) => present_positions(present, d, codes.len() as int).map_values(
            |k: int| (trade_date, codes[k], column[cell_offset(d, k, codes.len() as int)]),
        ),
    }
}

/// The series of `spec` with the values `column`, a column of `panel`,
/// holds on `trade_date` for the instruments present that day.
pub fn factor_series_for_trade_date<V: Copy>(
    spec: FactorSpec,
    panel: &DailyPanel,
    trade_date: i32,
    column: &[Option<V>],
) -> (r: FactorSeries<V>)
    requires
        column@.len() == panel.dates_view().len() * panel.instruments_view().len(),
    ensures
        r.spec == spec,
        rows_view(r.values@) == column_rows(
            panel.dates_view(),
            panel.instruments_view(),
            panel.present_view(),
            column@,
            trade_date,
        ),
{
    let dates = panel.dates();
    let instruments = panel.instruments();
    let ghost codes = panel.instruments_view();
    let m = instruments.len();
    let total = panel.shape_len();
    let mut date_idx: Option<usize> = None;
    let mut i: usize = 0;
    while i < dates.len()
        invariant_except_break
            date_idx is None,
        invariant
            i <= dates@.len(),
            forall|j: int| 0 <= j < i ==> dates@[j] != trade_date,
        ensures
            date_idx matches Some(d) ==> d < dates@.len() && dates@[d as int] == trade_date && forall|j: int|
                0 <= j < d ==> dates@[j] != trade_date,
            date_idx is None ==> forall|j: int| 0 <= j < dates@.len() ==> dates@[j] != trade_date,
        decreases dates@.len() - i,
    {
        if dates[i] == trade_date {
            date_idx = Some(i);
            break;
        }
        i = i + 1;
    }
    proof {
        lemma_first_date_pos(dates@, trade_date);
        if let Some(d) = date_idx {
            lemma_first_date_pos_at(dates@, trade_date, d as int);
        }
    }
    let mut values: Vec<FactorValue<V>> = Vec::new();
    if let Some(d) = date_idx {
        let ghost present = panel.present_view();
        let ghost pred = |k: int| present[cell_offset(d as int, k, m as int)];
        let ghost row = |k: int| (trade_date, codes[k], column@[cell_offset(d as int, k, m as int)]);
        let mut k: usize = 0;
        while k < m
            invariant
                k <= m,
                m == codes.len(),
                strings_view(instruments@) == codes,
                d < dates@.len(),
                dates@.len() * m == total,
                total == present.len(),
                total == column@.len(),
                present == panel.present_view(),
                pred == (|k: int| present[cell_offset(d as int, k, m as int)]),
                row == (|k: int| (trade_date, codes[k], column@[cell_offset(d as int, k, m as int)])),
                rows_view(values@) == Seq::new(k as nat, |t: int| t).filter(pred).map_values(row),
            decreases m - k,
        {
            proof {
                lemma_cell_in_grid(d as int, k as int, dates@.len() as int, m as int);
                assert(Seq::new((k + 1) as nat, |t: int| t) =~= Seq::new(k as nat, |t: int| t).push(k as int));
                Seq::new(k as nat, |t: int| t).lemma_filter_push(k as int, pred);
            }
            let offset = d * m + k;
            if panel.is_present_offset(offset) {
                let code = &instruments[k];
                proof {
                    assert(code@ == codes[k as int]);
                }
                let ghost before = values@;
                values.push(
                    FactorValue { key: FactorRowKey::Daily { trade_date, ts_code: code.clone() }, value: column[offset] },
                );
                proof {
                    assert(rows_view(values@) =~= rows_view(before).push(row(k as int)));
                    assert(Seq::new(k as nat, |t: int| t).filter(pred).push(k as int).map_values(row)
                        =~= Seq::new(k as nat, |t: int| t).filter(pred).map_values(row).push(row(k as int)));
                }
            }
            k = k + 1;
        }
        proof {
            assert(Seq::new(m as nat, |t: int| t) =~= Seq::new(codes.len(), |t: int| t));
        }
    } else {
        proof {
            assert(rows_view(values@) =~= Seq::empty());
        }
    }
    FactorSeries { spec, values }
}

} // verus!
