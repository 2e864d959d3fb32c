//! Spreading per-date values over the instruments of a daily panel.
use vstd::prelude::*;
use crate::event_cache::last_date_pos;
use crate::panel::DailyPanel;
use crate::snapshot_cache::{cell_offset, lemma_cell_in_grid};

verus! {

/// `values` with `value` pushed `count` times.
fn push_repeated<V: Copy>(values: &mut Vec<Option<V>>, value: Option<V>, count: usize)
    ensures
        final(values)@.len() == old(values)@.len() + count,
        forall|j: int| 0 <= j < old(values)@.len() ==> #[trigger] final(values)@[j] == old(values)@[j],
        forall|j: int|
            old(values)@.len() <= j < old(values)@.len() + count ==> #[trigger] final(values)@[j] == value,
{
    let ghost start = values@;
    let mut k: usize = 0;
    while k < count
        invariant
            k <= count,
            values@.len() == start.len() + k,
            forall|j: int| 0 <= j < start.len() ==> #[trigger] values@[j] == start[j],
            forall|j: int| start.len() <= j < start.len() + k ==> #[trigger] values@[j] == value,
        decreases count - k,
    {
        values.push(value);
        k = k + 1;
    }
}

/// The column of `panel` whose cells on date position `d` all hold
/// `daily_values[d]`, or nothing past its end.
pub fn expand_daily_values<V: Copy>(panel: &DailyPanel, daily_values: &[Option<V>]) -> (r: Vec<Option<V>>)
    ensures
        r@.len() == panel.dates_view().len() * panel.instruments_view().len(),
        forall|d: int, i: int|
            0 <= d < panel.dates_view().len() && 0 <= i < panel.instruments_view().len() ==> #[trigger] r@[cell_offset(
                d,
                i,
                panel.instruments_view().len() as int,
            )] == if d < daily_values@.len() {
                daily_values@[d]
            } else {
                None
            },
{
    let n = panel.dates().len();
    let m = panel.instruments().len();
    let total = panel.shape_len();
    let mut values: Vec<Option<V>> = Vec::new();
    let mut d: usize = 0;
    while d < n
        invariant
            d <= n,
            n == panel.dates_view().len(),
            m == panel.instruments_view().len(),
            total == n * m,
            values@.len() == d * m,
            forall|dd: int, i: int|
                0 <= dd < d && 0 <= i < m ==> #[trigger] values@[cell_offset(dd, i, m as int)] == if dd
                    < daily_values@.len() {
                    daily_values@[dd]
                } else {
                    None
                },
        decreases n - d,
    {
        let value = if d < daily_values.len() {
            daily_values[d]
        } else {
            None
        };
        proof {
            assert((d + 1) * m == d * m + m) by (nonlinear_arith);
            assert((d + 1) * m <= n * m) by (nonlinear_arith)
                requires
                    d < n,
            ;
        }
        let ghost before = values@;
        push_repeated(&mut values, value, m);
        proof {
            assert forall|dd: int, i: int| 0 <= dd < d + 1 && 0 <= i < m implies #[trigger] values@[cell_offset(dd, i, m as int)]
                == if dd < daily_values@.len() {
                daily_values@[dd]
            } else {
                None
            } by {
                lemma_cell_in_grid(dd, i, d + 1, m as int);
                if dd < d {
                    lemma_cell_in_grid(dd, i, d as int, m as int);
                    assert(values@[cell_offset(dd, i, m as int)] == before[cell_offset(dd, i, m as int)]);
                }
            }
        }
        d = d + 1;
    }
    values
}

/// The value an index column gives stock date `date`: the index's value
/// (its first instrument) on the last index date equal to `date`.
pub open spec fn index_value_on<V>(
    index_dates: Seq<i32>,
    index_width: int,
    index_column: Seq<Option<V>>,
    date: i32,
) -> Option<V> {
    if index_width == 0 {
        None
    } else {
        match last_date_pos(index_dates, date) {
            Some(p) => index_column[p * index_width],
            None => None,
        }
    }
}

/// Row `p` of a grid `m` wide and `n` high starts inside the grid.
proof fn lemma_index_position_in_grid(p: int, n: int, m: int)
    requires
        0 <= p < n,
        0 < m,
    ensures
        0 <= p * m < n * m,
{
    assert(0 <= p * m < n * m) by (nonlinear_arith)
        requires
            0 <= p < n,
            0 < m,
    ;
}

/// The column of `stock_panel` whose cells on each date hold the value
/// `index_column`, a column of `index_panel`, gives that date; empty when
/// the index panel has no instrument.
pub fn expand_index_column<V: Copy>(
    stock_panel: &DailyPanel,
    index_panel: &DailyPanel,
    index_column: &[Option<V>],
) -> (r: Vec<Option<V>>)
    requires
        index_column@.len() == index_panel.dates_view().len() * index_panel.instruments_view().len(),
    ensures
        r@.len() == stock_panel.dates_view().len() * stock_panel.instruments_view().len(),
        forall|d: int, i: int|
            0 <= d < stock_panel.dates_view().len() && 0 <= i < stock_panel.instruments_view().len()
                ==> #[trigger] r@[cell_offset(d, i, stock_panel.instruments_view().len() as int)] == index_value_on(
                index_panel.dates_view(),
                index_panel.instruments_view().len() as int,
                index_column@,
                stock_panel.dates_view()[d],
            ),
{
    let index_dates = index_panel.dates();
    let index_width = index_panel.instruments().len();
    let stock_dates = stock_panel.dates();
    let n = stock_dates.len();
    let m = stock_panel.instruments().len();
    let total = stock_panel.shape_len();
    let mut values: Vec<Option<V>> = Vec::new();
    let mut d: usize = 0;
    while d < n
        invariant
            d <= n,
            n == stock_dates@.len(),
            stock_dates@ == stock_panel.dates_view(),
            index_dates@ == index_panel.dates_view(),
            index_width == index_panel.instruments_view().len(),
            index_column@.len() == index_dates@.len() * index_width,
            m == stock_panel.instruments_view().len(),
            total == n * m,
            values@.len() == d * m,
            forall|dd: int, i: int|
                0 <= dd < d && 0 <= i < m ==> #[trigger] values@[cell_offset(dd, i, m as int)] == index_value_on(
                    index_dates@,
                    index_width as int,
                    index_column@,
                    stock_dates@[dd],
                ),
        decreases n - d,
    {
        let date = stock_dates[d];
        let mut value: Option<V> = None;
        if index_width > 0 {
            let mut found: Option<usize> = None;
            let mut t: usize = 0;
            while t < index_dates.len()
                invariant
                    t <= index_dates@.len(),
                    match found {
                        Some(p) => last_date_pos(index_dates@.subrange(0, t as int), date) == Some(p as int),
                        None => last_date_pos(index_dates@.subrange(0, t as int), date) is None,
                    },
                decreases index_dates@.len() - t,
            {
                proof {
                    assert(index_dates@.subrange(0, t + 1).drop_last() =~= index_dates@.subrange(0, t as int));
                }
                if index_dates[t] == date {
                    found = Some(t);
                }
                t = t + 1;
            }
            proof {
                assert(index_dates@.subrange(0, index_dates@.len() as int) =~= index_dates@);
            }
            let column_len = index_column.len();
            if let Some(p) = found {
                proof {
                    crate::event_cache::lemma_last_date_pos_bounds(index_dates@, date);
                    lemma_index_position_in_grid(p as int, index_dates@.len() as int, index_width as int);
                    assert(p * index_width < column_len);
                }
                value = index_column[p * index_width];
            }
        }
        proof {
            assert((d + 1) * m == d * m + m) by (nonlinear_arith);
            assert((d + 1) * m <= n * m) by (nonlinear_arith)
                requires
                    d < n,
            ;
        }
        let ghost before = values@;
        push_repeated(&mut values, value, m);
        proof {
            assert forall|dd: int, i: int| 0 <= dd < d + 1 && 0 <= i < m implies #[trigger] values@[cell_offset(dd, i, m as int)]
                == index_value_on(index_dates@, index_width as int, index_column@, stock_dates@[dd]) by {
                lemma_cell_in_grid(dd, i, d + 1, m as int);
                if dd < d {
                    lemma_cell_in_grid(dd, i, d as int, m as int);
                    assert(values@[cell_offset(dd, i, m as int)] == before[cell_offset(dd, i, m as int)]);
                }
            }
        }
        d = d + 1;
    }
    values
}

} // verus!
