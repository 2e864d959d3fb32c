//! Industry classification of stocks over time: which sector, industry or
//! sub-industry a stock belonged to on a given date.
use vstd::prelude::*;
use crate::catalog::strings_view;
use crate::table::{ColumnView, Table, TableError, TableView, columns_have_len, date_cells, find_column};

verus! {

/// The level of a classification hierarchy.
#[derive(Clone, Copy, Debug, PartialEq, Eq, Structural)]
pub enum ClassificationLevel {
    Sector,
    Industry,
    Subindustry,
}

/// The column that holds the group codes of `level`.
pub open spec fn level_column(level: ClassificationLevel) -> Seq<char> {
    match level {
        ClassificationLevel::Sector => "l1_code"@,
        ClassificationLevel::Industry => "l2_code"@,
        ClassificationLevel::Subindustry => "l3_code"@,
    }
}

impl ClassificationLevel {
    fn code_column(self) -> (r: &'static str)
        ensures
            r@ == level_column(self),
    {
        match self {
            ClassificationLevel::Sector => "l1_code",
            ClassificationLevel::Industry => "l2_code",
            ClassificationLevel::Subindustry => "l3_code",
        }
    }
}

/// A stock's membership of a group from `in_date` to `out_date`, inclusive.
#[derive(Clone, Debug)]
struct ClassificationInterval {
    ts_code: String,
    in_date: i32,
    out_date: i32,
    code: String,
}

/// Abstract content of a membership interval.
pub struct IntervalView {
    pub ts_code: Seq<char>,
    pub in_date: i32,
    pub out_date: i32,
    pub code: Seq<char>,
}

spec fn interval_view(iv: ClassificationInterval) -> IntervalView {
    IntervalView { ts_code: iv.ts_code@, in_date: iv.in_date, out_date: iv.out_date, code: iv.code@ }
}

/// Whether interval `iv` places `ts_code` in a group on `date`.
pub open spec fn covers(iv: IntervalView, ts_code: Seq<char>, date: i32) -> bool {
    iv.ts_code == ts_code && iv.in_date <= date && date <= iv.out_date
}

/// Whether interval `k` is the one that decides the group of `ts_code` on
/// `date`: of the covering intervals, the one that began last, and of those
/// that began on the same date, the last listed.
pub open spec fn deciding_interval(ivs: Seq<IntervalView>, k: int, ts_code: Seq<char>, date: i32) -> bool {
    &&& 0 <= k < ivs.len()
    &&& covers(ivs[k], ts_code, date)
    &&& forall|j: int|
        0 <= j < ivs.len() && #[trigger] covers(ivs[j], ts_code, date) ==> ivs[j].in_date <= ivs[k].in_date
            && (j > k ==> ivs[j].in_date < ivs[k].in_date)
}

/// The group of `ts_code` on `date`.
pub open spec fn group_of(ivs: Seq<IntervalView>, ts_code: Seq<char>, date: i32) -> Option<Seq<char>> {
    if exists|k: int| deciding_interval(ivs, k, ts_code, date) {
        Some(ivs[choose|k: int| deciding_interval(ivs, k, ts_code, date)].code)
    } else {
        None
    }
}

/// At most one interval decides a group.
pub proof fn lemma_deciding_interval_unique(ivs: Seq<IntervalView>, k1: int, k2: int, ts_code: Seq<char>, date: i32)
    requires
        deciding_interval(ivs, k1, ts_code, date),
        deciding_interval(ivs, k2, ts_code, date),
    ensures
        k1 == k2,
{
    assert(covers(ivs[k1], ts_code, date));
    assert(covers(ivs[k2], ts_code, date));
}

/// The first of the columns `ts_code` (text), `in_date`, `out_date` and the
/// level's code column (text) that `t` lacks or holds with the wrong type.
pub open spec fn classification_failure(t: TableView, level: ClassificationLevel) -> Option<(bool, Seq<char>)> {
    let cols = t.columns;
    let code_col = level_column(level);
    if find_column(cols, "ts_code"@) is None {
        Some((true, "ts_code"@))
    } else if !(find_column(cols, "ts_code"@) matches Some(ColumnView::Utf8(_))) {
        Some((false, "ts_code"@))
    } else if find_column(cols, "in_date"@) is None {
        Some((true, "in_date"@))
    } else if find_column(cols, "out_date"@) is None {
        Some((true, "out_date"@))
    } else if find_column(cols, code_col) is None {
        Some((true, code_col))
    } else if !(find_column(cols, code_col) matches Some(ColumnView::Utf8(_))) {
        Some((false, code_col))
    } else {
        None
    }
}

/// Whether `e` reports a missing (`missing`) or mistyped column `name`.
pub open spec fn reports_column(e: TableError, missing: bool, name: Seq<char>) -> bool {
    if missing {
        e matches TableError::MissingColumn(m) && m@ == name
    } else {
        e matches TableError::WrongType(m) && m@ == name
    }
}

/// The text cells of column `name`.
pub open spec fn text_column(t: TableView, name: Seq<char>) -> Seq<Option<Seq<char>>> {
    match find_column(t.columns, name) {
        Some(ColumnView::Utf8(v)) => v,
        _ => Seq::empty(),
    }
}

/// The cells of column `name` read as dates.
pub open spec fn dates_of(t: TableView, name: Seq<char>) -> Seq<Option<i32>> {
    match find_column(t.columns, name) {
        Some(c) => date_cells(c),
        None => Seq::empty(),
    }
}

/// Whether row `i` yields an interval: it has a code, an entry date and a
/// non-empty group code.
pub open spec fn row_yields_interval(t: TableView, level: ClassificationLevel, i: int) -> bool {
    &&& text_column(t, "ts_code"@)[i] is Some
    &&& dates_of(t, "in_date"@)[i] is Some
    &&& text_column(t, level_column(level))[i] matches Some(c) && c.len() > 0
}

/// The interval of row `i`; a missing exit date means still a member
/// (`99991231`).
pub open spec fn row_interval(t: TableView, level: ClassificationLevel, i: int) -> IntervalView {
    IntervalView {
        ts_code: text_column(t, "ts_code"@)[i].unwrap(),
        in_date: dates_of(t, "in_date"@)[i].unwrap(),
        out_date: match dates_of(t, "out_date"@)[i] {
            Some(d) => d,
            None => 99_991_231,
        },
        code: text_column(t, level_column(level))[i].unwrap(),
    }
}

/// The intervals of the first `n` rows, in row order.
pub open spec fn table_intervals(t: TableView, level: ClassificationLevel, n: nat) -> Seq<IntervalView>
    decreases n,
{
    if n == 0 {
        Seq::empty()
    } else {
        let prev = table_intervals(t, level, (n - 1) as nat);
        if row_yields_interval(t, level, n - 1) {
            prev.push(row_interval(t, level, n - 1))
        } else {
            prev
        }
    }
}

/// The depth of `level` in the classification hierarchy: sectors are level
/// 1, industries level 2, sub-industries level 3.
pub open spec fn level_depth(level: ClassificationLevel) -> int {
    match level {
        ClassificationLevel::Sector => 1,
        ClassificationLevel::Industry => 2,
        ClassificationLevel::Subindustry => 3,
    }
}

/// The name `l<k>_code` of the code column of hierarchy level `k`.
pub open spec fn depth_code_column(k: int) -> Seq<char> {
    seq!['l', (48 + k) as char, '_', 'c', 'o', 'd', 'e']
}

/// The codes of a level are read from the column of its depth: `l1_code`
/// for sectors, `l2_code` for industries, `l3_code` for sub-industries.
pub proof fn lemma_level_reads_its_depth_column(level: ClassificationLevel)
    ensures
        level_column(level) == depth_code_column(level_depth(level)),
{
    reveal_strlit("l1_code");
    reveal_strlit("l2_code");
    reveal_strlit("l3_code");
    assert(level_column(level) =~= depth_code_column(level_depth(level)));
}

/// Every interval a table yields at `level` carries the code of one of its
/// rows in the column of the level's depth.
pub proof fn lemma_interval_code_from_depth_column(t: TableView, level: ClassificationLevel, n: nat, k: int)
    requires
        0 <= k < table_intervals(t, level, n).len(),
    ensures
        exists|i: int|
            0 <= i < n && #[trigger] text_column(t, depth_code_column(level_depth(level)))[i] == Some(
                table_intervals(t, level, n)[k].code,
            ),
    decreases n,
{
    lemma_level_reads_its_depth_column(level);
    let prev = table_intervals(t, level, (n - 1) as nat);
    if k < prev.len() {
        lemma_interval_code_from_depth_column(t, level, (n - 1) as nat, k);
        let i = choose|i: int|
            0 <= i < n - 1 && #[trigger] text_column(t, depth_code_column(level_depth(level)))[i] == Some(
                prev[k].code,
            );
        assert(0 <= i < n);
    } else {
        assert(text_column(t, depth_code_column(level_depth(level)))[n - 1] == Some(
            table_intervals(t, level, n)[k].code,
        ));
    }
}

/// Group membership intervals of stocks.
#[derive(Clone, Debug)]
pub struct ClassificationMap {
    intervals: Vec<ClassificationInterval>,
}

impl ClassificationMap {
    /// The intervals, in table row order.
    pub closed spec fn intervals_view(self) -> Seq<IntervalView> {
        self.intervals@.map_values(|iv: ClassificationInterval| interval_view(iv))
    }

    /// The membership intervals of `table` at `level`.
    pub fn from_table(table: &Table, level: ClassificationLevel) -> (r: Result<Self, TableError>)
        requires
            columns_have_len(table@.columns, table@.len),
        ensures
            r is Err <==> classification_failure(table@, level) is Some,
            r matches Err(e) ==> classification_failure(table@, level) matches Some(f) && reports_column(
                e,
                f.0,
                f.1,
            ),
            r matches Ok(map) ==> map.intervals_view() == table_intervals(table@, level, table@.len),
    {
        let ts_codes = match table.required_utf8("ts_code") {
            Ok(v) => v,
            Err(e) => {
                return Err(e);
            },
        };
        let in_dates = match table.required_i32_date_cast("in_date") {
            Ok(v) => v,
            Err(e) => {
                return Err(e);
            },
        };
        let out_dates = match table.required_i32_date_cast("out_date") {
            Ok(v) => v,
            Err(e) => {
                return Err(e);
            },
        };
        let codes = match table.required_utf8(level.code_column()) {
            Ok(v) => v,
            Err(e) => {
                return Err(e);
            },
        };
        let ghost t = table@;
        proof {
            crate::table::lemma_found_column_len(t.columns, "ts_code"@, t.len);
            crate::table::lemma_found_column_len(t.columns, "in_date"@, t.len);
            crate::table::lemma_found_column_len(t.columns, "out_date"@, t.len);
            crate::table::lemma_found_column_len(t.columns, level_column(level), t.len);
        }
        let mut intervals: Vec<ClassificationInterval> = Vec::new();
        let mut idx: usize = 0;
        while idx < table.len
            invariant
                idx <= table.len,
                t == table@,
                ts_codes@.len() == t.len,
                in_dates@.len() == t.len,
                out_dates@.len() == t.len,
                codes@.len() == t.len,
                crate::table::text_cells_view(ts_codes@) == text_column(t, "ts_code"@),
                in_dates@ == dates_of(t, "in_date"@),
                out_dates@ == dates_of(t, "out_date"@),
                crate::table::text_cells_view(codes@) == text_column(t, level_column(level)),
                intervals@.map_values(|iv: ClassificationInterval| interval_view(iv)) == table_intervals(
                    t,
                    level,
                    idx as nat,
                ),
            decreases table.len - idx,
        {
            let ghost before = intervals@.map_values(|iv: ClassificationInterval| interval_view(iv));
            match (&ts_codes[idx], in_dates[idx], &codes[idx]) {
                (Some(ts_code), Some(in_date), Some(code)) => {
                    if code.as_str().unicode_len() == 0 {
                        proof {
                            assert(crate::table::text_cells_view(codes@)[idx as int] == Some(code@));
                            assert(!row_yields_interval(t, level, idx as int));
                        }
                    } else {
                        let out_date = match out_dates[idx] {
                            Some(d) => d,
                            None => 99_991_231,
                        };
                        intervals.push(
                            ClassificationInterval {
                                ts_code: ts_code.clone(),
                                in_date,
                                out_date,
                                code: code.clone(),
                            },
                        );
                        proof {
                            assert(crate::table::text_cells_view(codes@)[idx as int] == Some(code@));
                            assert(crate::table::text_cells_view(ts_codes@)[idx as int] == Some(ts_code@));
                            assert(row_yields_interval(t, level, idx as int));
                            assert(intervals@.map_values(|iv: ClassificationInterval| interval_view(iv))
                                =~= before.push(row_interval(t, level, idx as int)));
                        }
                    }
                },
                _ => {
                    proof {
                        assert(crate::table::text_cells_view(codes@)[idx as int] is None ==> codes@[idx as int] is None);
                        assert(crate::table::text_cells_view(ts_codes@)[idx as int] is None ==> ts_codes@[idx as int] is None);
                        assert(!row_yields_interval(t, level, idx as int));
                    }
                },
            }
            idx = idx + 1;
        }
        Ok(ClassificationMap { intervals })
    }

    /// Position of the interval that decides the group of `ts_code` on `trade_date`.
    fn deciding_position(&self, trade_date: i32, ts_code: &str) -> (r: Option<usize>)
        ensures
            r is None <==> !exists|k: int| deciding_interval(self.intervals_view(), k, ts_code@, trade_date),
            r matches Some(k) ==> deciding_interval(self.intervals_view(), k as int, ts_code@, trade_date),
    {
        let ghost ivs = self.intervals_view();
        let mut best: Option<usize> = None;
        let mut i: usize = 0;
        while i < self.intervals.len()
            invariant
                i <= self.intervals@.len(),
                ivs == self.intervals_view(),
                best is None ==> forall|j: int| 0 <= j < i ==> !#[trigger] covers(ivs[j], ts_code@, trade_date),
                best matches Some(b) ==> b < i && covers(ivs[b as int], ts_code@, trade_date) && forall|j: int|
                    0 <= j < i && #[trigger] covers(ivs[j], ts_code@, trade_date) ==> ivs[j].in_date
                        <= ivs[b as int].in_date && (j > b ==> ivs[j].in_date < ivs[b as int].in_date),
            decreases self.intervals@.len() - i,
        {
            let iv = &self.intervals[i];
            proof {
                assert(ivs[i as int] == interval_view(self.intervals@[i as int]));
            }
            if iv.in_date <= trade_date && trade_date <= iv.out_date && crate::catalog::str_eq(
                iv.ts_code.as_str(),
                ts_code,
            ) {
                match best {
                    None => {
                        best = Some(i);
                    },
                    Some(b) => {
                        if iv.in_date >= self.intervals[b].in_date {
                            best = Some(i);
                        }
                    },
                }
            }
            i = i + 1;
        }
        proof {
            if best is None {
                if exists|k: int| deciding_interval(ivs, k, ts_code@, trade_date) {
                    let k = choose|k: int| deciding_interval(ivs, k, ts_code@, trade_date);
                    assert(covers(ivs[k], ts_code@, trade_date));
                }
            }
            if let Some(b) = best {
                assert(deciding_interval(ivs, b as int, ts_code@, trade_date));
            }
        }
        best
    }

    /// The group `ts_code` belonged to on `trade_date`: of the intervals that
    /// cover the date, the one that began last (the last listed among those
    /// that began together).
    pub fn group_for(&self, trade_date: i32, ts_code: &str) -> (r: Option<&str>)
        ensures
            match r {
                Some(g) => group_of(self.intervals_view(), ts_code@, trade_date) == Some(g@),
                None => group_of(self.intervals_view(), ts_code@, trade_date) is None,
            },
    {
        match self.deciding_position(trade_date, ts_code) {
            Some(k) => {
                proof {
                    let ivs = self.intervals_view();
                    let c = choose|c: int| deciding_interval(ivs, c, ts_code@, trade_date);
                    lemma_deciding_interval_unique(ivs, c, k as int, ts_code@, trade_date);
                    assert(ivs[k as int] == interval_view(self.intervals@[k as int]));
                }
                Some(self.intervals[k].code.as_str())
            },
            None => None,
        }
    }

    /// The group of each of `ts_codes` on `trade_date`.
    pub fn groups_for(&self, trade_date: i32, ts_codes: &[String]) -> (r: Vec<Option<String>>)
        ensures
            r@.len() == ts_codes@.len(),
            forall|i: int|
                0 <= i < ts_codes@.len() ==> match #[trigger] r@[i] {
                    Some(g) => group_of(self.intervals_view(), ts_codes@[i]@, trade_date) == Some(g@),
                    None => group_of(self.intervals_view(), ts_codes@[i]@, trade_date) is None,
                },
    {
        let mut out: Vec<Option<String>> = Vec::new();
        let mut i: usize = 0;
        while i < ts_codes.len()
            invariant
                i <= ts_codes@.len(),
                out@.len() == i,
                forall|j: int|
                    0 <= j < i ==> match #[trigger] out@[j] {
                        Some(g) => group_of(self.intervals_view(), ts_codes@[j]@, trade_date) == Some(g@),
                        None => group_of(self.intervals_view(), ts_codes@[j]@, trade_date) is None,
                    },
            decreases ts_codes@.len() - i,
        {
            let g = match self.group_for(trade_date, ts_codes[i].as_str()) {
                Some(s) => Some(s.to_owned()),
                None => None,
            };
            out.push(g);
            i = i + 1;
        }
        out
    }
}


} // verus!
