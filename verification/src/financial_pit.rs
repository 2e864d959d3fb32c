//! Point-in-time financial statement indexes: every disclosed version of a
//! statement, and readers that see, for a trade date, only the versions
//! disclosed by then, choosing among report types in a stated preference.
use std::sync::Arc;
use vstd::prelude::*;
use crate::dates::{add_days, add_days_fits, add_months, shifted_month_index, spec_add_days, spec_add_months, trunc_rem};
use crate::intraday_time::{chars_of, trim_range, trimmed};
use crate::table::{
    ColumnView,
    Table,
    TableError,
    TableView,
    columns_have_len,
    date_cells,
    find_column,
    i64_cells,
    text_cells_view,
};

verus! {

/// Report types in the order in which they are preferred.
#[derive(Clone, Debug, Eq, Ord, PartialEq, PartialOrd)]
pub struct ReportTypePreference {
    order: Vec<i64>,
}

impl View for ReportTypePreference {
    type V = Seq<i64>;

    closed spec fn view(&self) -> Seq<i64> {
        self.order@
    }
}

impl ReportTypePreference {
    /// A preference for `order`, first entry most preferred.
    pub fn new(order: &[i64]) -> (r: Self)
        ensures
            r@ == order@,
    {
        let mut out: Vec<i64> = Vec::new();
        let mut i: usize = 0;
        while i < order.len()
            invariant
                i <= order@.len(),
                out@ =~= order@.subrange(0, i as int),
            decreases order@.len() - i,
        {
            out.push(order[i]);
            i = i + 1;
        }
        ReportTypePreference { order: out }
    }

    /// Single-quarter income statements: type 3, then type 2.
    pub fn income_single_quarter() -> (r: Self)
        ensures
            r@ == seq![3i64, 2i64],
    {
        ReportTypePreference { order: vec![3i64, 2i64] }
    }

    /// Consolidated balance sheets: type 1, then type 4.
    pub fn balance_sheet_consolidated() -> (r: Self)
        ensures
            r@ == seq![1i64, 4i64],
    {
        ReportTypePreference { order: vec![1i64, 4i64] }
    }

    /// Consolidated statements: type 1, then type 4.
    pub fn consolidated() -> (r: Self)
        ensures
            r@ == seq![1i64, 4i64],
    {
        ReportTypePreference { order: vec![1i64, 4i64] }
    }

    /// Whether `report_type` is one of the preferred types.
    pub fn contains(&self, report_type: i64) -> (r: bool)
        ensures
            r == self@.contains(report_type),
    {
        let mut i: usize = 0;
        while i < self.order.len()
            invariant
                i <= self.order@.len(),
                forall|j: int| 0 <= j < i ==> self.order@[j] != report_type,
            decreases self.order@.len() - i,
        {
            if self.order[i] == report_type {
                return true;
            }
            i = i + 1;
        }
        false
    }
}

/// One indexed statement version: where it came from and its key fields.
#[derive(Debug)]
struct FinancialIndexedRecord {
    ts_code: String,
    source_idx: usize,
    row_idx: usize,
    end_date: i32,
    disclosure_date: i32,
    report_type: i64,
    update_flag: i64,
}

/// Abstract content of one indexed statement version.
pub struct IndexedRow {
    pub code: Seq<char>,
    pub source_idx: nat,
    pub row_idx: nat,
    pub end_date: i32,
    pub disclosure_date: i32,
    pub report_type: i64,
    pub update_flag: i64,
}

spec fn row_of(r: FinancialIndexedRecord) -> IndexedRow {
    IndexedRow {
        code: r.ts_code@,
        source_idx: r.source_idx as nat,
        row_idx: r.row_idx as nat,
        end_date: r.end_date,
        disclosure_date: r.disclosure_date,
        report_type: r.report_type,
        update_flag: r.update_flag,
    }
}

spec fn rows_of(v: Seq<FinancialIndexedRecord>) -> Seq<IndexedRow> {
    v.map_values(|r: FinancialIndexedRecord| row_of(r))
}

/// How a source table fails to provide the statement key columns.
pub enum ColumnFailure {
    Missing,
    WrongType,
}

/// Whether `e` reports `failure` of the column `name`.
pub open spec fn reports(e: TableError, failure: ColumnFailure, name: Seq<char>) -> bool {
    match failure {
        ColumnFailure::Missing => e matches TableError::MissingColumn(m) && m@ == name,
        ColumnFailure::WrongType => e matches TableError::WrongType(m) && m@ == name,
    }
}

/// The first key column, in the order `ts_code` (text), `ann_date`,
/// `f_ann_date`, `end_date`, `update_flag` (integer) and the optional
/// `report_type` (integer), that `t` lacks or holds with the wrong type.
pub open spec fn key_column_failure(t: TableView) -> Option<(ColumnFailure, Seq<char>)> {
    let cols = t.columns;
    if find_column(cols, "ts_code"@) is None {
        Some((ColumnFailure::Missing, "ts_code"@))
    } else if !(find_column(cols, "ts_code"@) matches Some(ColumnView::Utf8(_))) {
        Some((ColumnFailure::WrongType, "ts_code"@))
    } else if find_column(cols, "ann_date"@) is None {
        Some((ColumnFailure::Missing, "ann_date"@))
    } else if find_column(cols, "f_ann_date"@) is None {
        Some((ColumnFailure::Missing, "f_ann_date"@))
    } else if find_column(cols, "end_date"@) is None {
        Some((ColumnFailure::Missing, "end_date"@))
    } else if find_column(cols, "update_flag"@) is None {
        Some((ColumnFailure::Missing, "update_flag"@))
    } else if find_column(cols, "update_flag"@) matches Some(ColumnView::Utf8(_)) {
        Some((ColumnFailure::WrongType, "update_flag"@))
    } else if find_column(cols, "report_type"@) matches Some(ColumnView::Utf8(_)) {
        Some((ColumnFailure::WrongType, "report_type"@))
    } else {
        None
    }
}

/// The text cells of the `ts_code` column.
pub open spec fn code_cells(t: TableView) -> Seq<Option<Seq<char>>> {
    match find_column(t.columns, "ts_code"@) {
        Some(ColumnView::Utf8(v)) => v,
        _ => Seq::empty(),
    }
}

/// The date column `name` read as dates.
pub open spec fn date_column(t: TableView, name: Seq<char>) -> Seq<Option<i32>> {
    match find_column(t.columns, name) {
        Some(c) => date_cells(c),
        None => Seq::empty(),
    }
}

/// The integer column `name` widened to 64 bits.
pub open spec fn int_column(t: TableView, name: Seq<char>) -> Seq<Option<i64>> {
    match find_column(t.columns, name) {
        Some(c) => match i64_cells(c) {
            Some(v) => v,
            None => Seq::empty(),
        },
        None => Seq::empty(),
    }
}

/// Report types per row: the `report_type` column, or type 1 throughout when
/// the table has none.
pub open spec fn report_type_cells(t: TableView) -> Seq<Option<i64>> {
    if find_column(t.columns, "report_type"@) is Some {
        int_column(t, "report_type"@)
    } else {
        Seq::new(t.len, |i: int| Some(1i64))
    }
}

/// Disclosure date of row `i`: the final announcement date, else the
/// announcement date.
pub open spec fn disclosure_cell(t: TableView, i: int) -> Option<i32> {
    match date_column(t, "f_ann_date"@)[i] {
        Some(d) => Some(d),
        None => date_column(t, "ann_date"@)[i],
    }
}

/// Whether row `i` of `t` is indexed: it has a code, an end date, a
/// disclosure date and a report type, and was disclosed by `max_disclosure`.
pub open spec fn row_indexed(t: TableView, i: int, max_disclosure: Option<i32>) -> bool {
    &&& code_cells(t)[i] is Some
    &&& date_column(t, "end_date"@)[i] is Some
    &&& disclosure_cell(t, i) is Some
    &&& report_type_cells(t)[i] is Some
    &&& !(max_disclosure matches Some(m) && disclosure_cell(t, i).unwrap() > m)
}

/// The indexed version of row `i` of source `s`.
pub open spec fn indexed_row(t: TableView, s: nat, i: int) -> IndexedRow {
    IndexedRow {
        code: code_cells(t)[i].unwrap(),
        source_idx: s,
        row_idx: i as nat,
        end_date: date_column(t, "end_date"@)[i].unwrap(),
        disclosure_date: disclosure_cell(t, i).unwrap(),
        report_type: report_type_cells(t)[i].unwrap(),
        update_flag: match int_column(t, "update_flag"@)[i] {
            Some(f) => f,
            None => 0,
        },
    }
}

/// The indexed versions of the first `n` rows of source `s`, in row order.
pub open spec fn table_rows(t: TableView, s: nat, max_disclosure: Option<i32>, n: nat) -> Seq<
    IndexedRow,
>
    decreases n,
{
    if n == 0 {
        Seq::empty()
    } else {
        let prev = table_rows(t, s, max_disclosure, (n - 1) as nat);
        if row_indexed(t, n - 1, max_disclosure) {
            prev.push(indexed_row(t, s, n - 1))
        } else {
            prev
        }
    }
}

/// Every indexed version counts from its actual disclosure: its disclosure
/// date is its `f_ann_date` cell when that cell holds a date, and its
/// `ann_date` cell only when `f_ann_date` is empty.
pub proof fn lemma_indexed_disclosure_prefers_f_ann_date(
    t: TableView,
    s: nat,
    max_disclosure: Option<i32>,
    n: nat,
    k: int,
)
    requires
        0 <= k < table_rows(t, s, max_disclosure, n).len(),
    ensures
        ({
            let r = table_rows(t, s, max_disclosure, n)[k];
            &&& r.row_idx < n
            &&& (date_column(t, "f_ann_date"@)[r.row_idx as int] matches Some(f) ==> r.disclosure_date == f)
            &&& (date_column(t, "f_ann_date"@)[r.row_idx as int] is None ==> date_column(t, "ann_date"@)[r.row_idx as int]
                == Some(r.disclosure_date))
        }),
    decreases n,
{
    if n > 0 {
        let prev = table_rows(t, s, max_disclosure, (n - 1) as nat);
        if k < prev.len() {
            lemma_indexed_disclosure_prefers_f_ann_date(t, s, max_disclosure, (n - 1) as nat, k);
        }
    }
}


/// The indexed versions of the first `n` sources, source by source.
pub open spec fn sources_rows(sources: Seq<TableView>, max_disclosure: Option<i32>, n: nat) -> Seq<
    IndexedRow,
>
    decreases n,
{
    if n == 0 {
        Seq::empty()
    } else {
        let t = sources[n - 1];
        sources_rows(sources, max_disclosure, (n - 1) as nat) + table_rows(
            t,
            (n - 1) as nat,
            max_disclosure,
            t.len,
        )
    }
}

/// Whether every column of every source has as many cells as its table has rows.
pub open spec fn sources_well_shaped(sources: Seq<TableView>) -> bool {
    forall|i: int| 0 <= i < sources.len() ==> columns_have_len(#[trigger] sources[i].columns, sources[i].len)
}

/// The first source that fails to provide its key columns.
pub open spec fn first_failing_source(sources: Seq<TableView>) -> Option<int> {
    if exists|i: int| 0 <= i < sources.len() && (#[trigger] key_column_failure(sources[i])) is Some {
        Some(
            choose|i: int|
                0 <= i < sources.len() && (#[trigger] key_column_failure(sources[i])) is Some && forall|
                    j: int,
                | 0 <= j < i ==> key_column_failure(#[trigger] sources[j]) is None,
        )
    } else {
        None
    }
}

/// The table views of shared tables.
pub open spec fn tables_view(sources: Seq<Arc<Table>>) -> Seq<TableView> {
    sources.map_values(|t: Arc<Table>| t@)
}

/// Every disclosed version of the statements of one or more source tables.
#[derive(Debug)]
pub struct FinancialPitIndex {
    sources: Vec<Arc<Table>>,
    records: Vec<FinancialIndexedRecord>,
}

impl FinancialPitIndex {
    #[verifier::type_invariant]
    spec fn sources_cover_records(self) -> bool {
        forall|k: int| 0 <= k < self.records@.len() ==> #[trigger] self.records@[k].source_idx < self.sources@.len()
    }

    /// The indexed versions, in source then row order.
    pub closed spec fn rows(self) -> Seq<IndexedRow> {
        rows_of(self.records@)
    }

    /// The source tables.
    pub closed spec fn sources_view(self) -> Seq<TableView> {
        tables_view(self.sources@)
    }

    /// The index of one table.
    pub fn from_table(table: Arc<Table>) -> (r: Result<Self, TableError>)
        requires
            columns_have_len(table@.columns, table@.len),
        ensures
            r is Err <==> key_column_failure(table@) is Some,
            r matches Err(e) ==> key_column_failure(table@) matches Some(f) && reports(e, f.0, f.1),
            r matches Ok(index) ==> index.rows() == table_rows(table@, 0, None, table@.len)
                && index.sources_view() == seq![table@],
    {
        let ghost t = table@;
        let mut sources: Vec<Arc<Table>> = Vec::new();
        sources.push(table);
        proof {
            assert(tables_view(sources@) =~= seq![t]);
        }
        let r = Self::from_source_tables(sources, None);
        proof {
            let tv = seq![t];
            assert(tv[0] == t);
            assert(sources_rows(tv, None, 0) =~= Seq::<IndexedRow>::empty());
            assert(sources_rows(tv, None, 1) =~= table_rows(t, 0, None, t.len));
            if key_column_failure(t) is Some {
                assert(first_failing_source(tv) == Some(0int));
            }
        }
        r
    }

    /// The index of several tables; with `max_disclosure_date`, versions
    /// disclosed after it are left out.
    pub fn from_source_tables(sources: Vec<Arc<Table>>, max_disclosure_date: Option<i32>) -> (r:
        Result<Self, TableError>)
        requires
            sources_well_shaped(tables_view(sources@)),
        ensures
            r is Err <==> first_failing_source(tables_view(sources@)) is Some,
            r matches Err(e) ==> first_failing_source(tables_view(sources@)) matches Some(i)
                && key_column_failure(tables_view(sources@)[i]) matches Some(f) && reports(
                e,
                f.0,
                f.1,
            ),
            r matches Ok(index) ==> index.rows() == sources_rows(
                tables_view(sources@),
                max_disclosure_date,
                sources@.len(),
            ) && index.sources_view() == tables_view(sources@),
    {
        let ghost views = tables_view(sources@);
        let mut records: Vec<FinancialIndexedRecord> = Vec::new();
        let mut s: usize = 0;
        while s < sources.len()
            invariant
                s <= sources@.len(),
                views == tables_view(sources@),
                sources_well_shaped(views),
                forall|j: int| 0 <= j < s ==> key_column_failure(#[trigger] views[j]) is None,
                rows_of(records@) == sources_rows(views, max_disclosure_date, s as nat),
            forall|k: int| 0 <= k < records@.len() ==> #[trigger] records@[k].source_idx < s,
            decreases sources@.len() - s,
        {
            let table: &Table = &*sources[s];
            let ghost t = views[s as int];
            let ghost before_records = records@;
            assert(t == table@);
            match index_table(table, s, max_disclosure_date, &mut records) {
                Ok(()) => {},
                Err(e) => {
                    proof {
                        let i = s as int;
                        assert(0 <= i < views.len() && key_column_failure(views[i]) is Some);
                        let c = choose|c: int|
                            0 <= c < views.len() && (#[trigger] key_column_failure(views[c])) is Some
                                && forall|j: int| 0 <= j < c ==> key_column_failure(#[trigger] views[j]) is None;
                        if c < i {
                        } else if c > i {
                            assert(key_column_failure(views[i]) is None);
                        }
                    }
                    return Err(e);
                },
            }
            proof {
                assert forall|k: int| 0 <= k < records@.len() implies #[trigger] records@[k].source_idx < s + 1 by {
                    if k < before_records.len() {
                        assert(records@[k] == before_records[k]);
                    }
                }
            }
            s = s + 1;
        }
        proof {
            if exists|i: int| 0 <= i < views.len() && (#[trigger] key_column_failure(views[i])) is Some {
                let i = choose|i: int| 0 <= i < views.len() && (#[trigger] key_column_failure(views[i])) is Some;
                assert(key_column_failure(views[i]) is None);
            }
        }
        Ok(FinancialPitIndex { sources, records })
    }

    /// A reader that chooses among report types by `preference`.
    pub fn reader(&self, preference: ReportTypePreference) -> (r: FinancialPitReader<'_>)
        ensures
            r.rows() == self.rows(),
            r.preference_view() == preference@,
    {
        FinancialPitReader { index: self, preference }
    }

    /// Number of indexed versions.
    pub fn len(&self) -> (r: usize)
        ensures
            r == self.rows().len(),
    {
        self.records.len()
    }
}

/// Appends the indexed versions of `table` (source `s`) to `records`.
fn index_table(
    table: &Table,
    s: usize,
    max_disclosure_date: Option<i32>,
    records: &mut Vec<FinancialIndexedRecord>,
) -> (r: Result<(), TableError>)
    requires
        columns_have_len(table@.columns, table@.len),
    ensures
        r is Err <==> key_column_failure(table@) is Some,
        r matches Err(e) ==> key_column_failure(table@) matches Some(f) && reports(e, f.0, f.1),
        r is Ok ==> rows_of(final(records)@) == rows_of(old(records)@) + table_rows(
            table@,
            s as nat,
            max_disclosure_date,
            table@.len,
        ),
        final(records)@.len() >= old(records)@.len(),
        forall|k: int| 0 <= k < old(records)@.len() ==> #[trigger] final(records)@[k] == old(records)@[k],
        forall|k: int|
            old(records)@.len() <= k < final(records)@.len() ==> #[trigger] final(records)@[k].source_idx == s,
{
    let ts_codes = match table.required_utf8("ts_code") {
        Ok(v) => v,
        Err(e) => {
            return Err(e);
        },
    };
    let ann_dates = match table.required_i32_date_cast("ann_date") {
        Ok(v) => v,
        Err(e) => {
            return Err(e);
        },
    };
    let f_ann_dates = match table.required_i32_date_cast("f_ann_date") {
        Ok(v) => v,
        Err(e) => {
            return Err(e);
        },
    };
    let end_dates = match table.required_i32_date_cast("end_date") {
        Ok(v) => v,
        Err(e) => {
            return Err(e);
        },
    };
    let update_flags = match table.required_i64_cast("update_flag") {
        Ok(v) => v,
        Err(e) => {
            return Err(e);
        },
    };
    let has_report_type = table.has_column("report_type");
    let report_types: Vec<Option<i64>> = if has_report_type {
        match table.required_i64_cast("report_type") {
            Ok(v) => v,
            Err(e) => {
                return Err(e);
            },
        }
    } else {
        let mut ones: Vec<Option<i64>> = Vec::new();
        let mut k: usize = 0;
        while k < table.len
            invariant
                k <= table.len,
                ones@ =~= Seq::new(k as nat, |i: int| Some(1i64)),
            decreases table.len - k,
        {
            ones.push(Some(1i64));
            k = k + 1;
        }
        ones
    };
    let ghost t = table@;
    proof {
        assert(key_column_failure(t) is None);
        assert(text_cells_view(ts_codes@) == code_cells(t));
        assert(ann_dates@ == date_column(t, "ann_date"@));
        assert(f_ann_dates@ == date_column(t, "f_ann_date"@));
        assert(end_dates@ == date_column(t, "end_date"@));
        assert(update_flags@ == int_column(t, "update_flag"@));
        assert(report_types@ == report_type_cells(t));
        crate::table::lemma_found_column_len(t.columns, "ts_code"@, t.len);
        crate::table::lemma_found_column_len(t.columns, "ann_date"@, t.len);
        crate::table::lemma_found_column_len(t.columns, "f_ann_date"@, t.len);
        crate::table::lemma_found_column_len(t.columns, "end_date"@, t.len);
        crate::table::lemma_found_column_len(t.columns, "update_flag"@, t.len);
        crate::table::lemma_found_column_len(t.columns, "report_type"@, t.len);
    }
    let ghost start = rows_of(records@);
    let mut idx: usize = 0;
    while idx < table.len
        invariant
            idx <= table.len,
            t == table@,
            ts_codes@.len() == t.len,
            ann_dates@.len() == t.len,
            f_ann_dates@.len() == t.len,
            end_dates@.len() == t.len,
            update_flags@.len() == t.len,
            report_types@.len() == t.len,
            text_cells_view(ts_codes@) == code_cells(t),
            ann_dates@ == date_column(t, "ann_date"@),
            f_ann_dates@ == date_column(t, "f_ann_date"@),
            end_dates@ == date_column(t, "end_date"@),
            update_flags@ == int_column(t, "update_flag"@),
            report_types@ == report_type_cells(t),
            rows_of(records@) == start + table_rows(t, s as nat, max_disclosure_date, idx as nat),
            records@.len() >= old(records)@.len(),
            forall|k: int| 0 <= k < old(records)@.len() ==> #[trigger] records@[k] == old(records)@[k],
            forall|k: int|
                old(records)@.len() <= k < records@.len() ==> #[trigger] records@[k].source_idx == s,
        decreases table.len - idx,
    {
        let disclosure = match f_ann_dates[idx] {
            Some(d) => Some(d),
            None => ann_dates[idx],
        };
        let ghost before = rows_of(records@);
        match (&ts_codes[idx], end_dates[idx], disclosure, report_types[idx]) {
            (Some(code), Some(end_date), Some(disclosure_date), Some(report_type)) => {
                let late = match max_disclosure_date {
                    Some(m) => disclosure_date > m,
                    None => false,
                };
                if !late {
                    let update_flag = match update_flags[idx] {
                        Some(f) => f,
                        None => 0,
                    };
                    records.push(
                        FinancialIndexedRecord {
                            ts_code: code.clone(),
                            source_idx: s,
                            row_idx: idx,
                            end_date,
                            disclosure_date,
                            report_type,
                            update_flag,
                        },
                    );
                    proof {
                        assert(text_cells_view(ts_codes@)[idx as int] == Some(code@));
                        assert(row_indexed(t, idx as int, max_disclosure_date));
                        assert(rows_of(records@) =~= before.push(indexed_row(t, s as nat, idx as int)));
                    }
                } else {
                    proof {
                        assert(!row_indexed(t, idx as int, max_disclosure_date));
                    }
                }
            },
            _ => {
                proof {
                    assert(text_cells_view(ts_codes@)[idx as int] is None ==> ts_codes@[idx as int] is None);
                    assert(!row_indexed(t, idx as int, max_disclosure_date));
                }
            },
        }
        idx = idx + 1;
    }
    Ok(())
}


/// Whether `r` is a version of the `end` statement of `code` with report
/// type `rt` that was disclosed by `trade`.
pub open spec fn matches_key(r: IndexedRow, code: Seq<char>, trade: i32, end: i32, rt: i64) -> bool {
    r.code == code && r.end_date == end && r.report_type == rt && r.disclosure_date <= trade
}

/// Whether `a` is a later version than `b`: disclosed later, or on the same
/// date with a higher update flag.
pub open spec fn newer(a: IndexedRow, b: IndexedRow) -> bool {
    a.disclosure_date > b.disclosure_date || (a.disclosure_date == b.disclosure_date
        && a.update_flag > b.update_flag)
}

/// Whether row `k` is the version a reader sees: the latest visible version
/// of its key, and among equally late versions the first indexed.
pub open spec fn is_current_version(
    rows: Seq<IndexedRow>,
    k: int,
    code: Seq<char>,
    trade: i32,
    end: i32,
    rt: i64,
) -> bool {
    &&& 0 <= k < rows.len()
    &&& matches_key(rows[k], code, trade, end, rt)
    &&& forall|j: int|
        0 <= j < rows.len() && #[trigger] matches_key(rows[j], code, trade, end, rt) ==> !newer(
            rows[j],
            rows[k],
        ) && (j < k ==> newer(rows[k], rows[j]))
}

/// Whether some version of the key is visible.
pub open spec fn has_version(rows: Seq<IndexedRow>, code: Seq<char>, trade: i32, end: i32, rt: i64) -> bool {
    exists|k: int| 0 <= k < rows.len() && #[trigger] matches_key(rows[k], code, trade, end, rt)
}

/// The first position from `p` on in `pref` whose report type has a visible
/// version of the `end` statement of `code`.
pub open spec fn first_available_pos(
    rows: Seq<IndexedRow>,
    pref: Seq<i64>,
    code: Seq<char>,
    trade: i32,
    end: i32,
    p: nat,
) -> Option<nat>
    decreases pref.len() - p,
{
    if p >= pref.len() {
        None
    } else if has_version(rows, code, trade, end, pref[p as int]) {
        Some(p)
    } else {
        first_available_pos(rows, pref, code, trade, end, p + 1)
    }
}

/// Whether some version of the `end` statement of `code` of a preferred
/// report type was disclosed by `trade`.
pub open spec fn available(rows: Seq<IndexedRow>, pref: Seq<i64>, code: Seq<char>, trade: i32, end: i32) -> bool {
    exists|k: int|
        0 <= k < rows.len() && (#[trigger] rows[k]).code == code && rows[k].end_date == end
            && rows[k].disclosure_date <= trade && pref.contains(rows[k].report_type)
}

/// Whether row `k` is a version of a statement of `code` of a preferred
/// report type disclosed by `trade`.
pub open spec fn visible_row(rows: Seq<IndexedRow>, pref: Seq<i64>, code: Seq<char>, trade: i32, k: int) -> bool {
    0 <= k < rows.len() && rows[k].code == code && rows[k].disclosure_date <= trade && pref.contains(
        rows[k].report_type,
    )
}

/// A reader finds a record for an end date exactly when some version of a
/// preferred report type was disclosed by the trade date.
pub proof fn lemma_record_found_iff_available(
    rows: Seq<IndexedRow>,
    pref: Seq<i64>,
    code: Seq<char>,
    trade: i32,
    end: i32,
)
    ensures
        first_available_pos(rows, pref, code, trade, end, 0) is Some <==> available(
            rows,
            pref,
            code,
            trade,
            end,
        ),
{
    lemma_first_available_from(rows, pref, code, trade, end, 0);
}

proof fn lemma_first_available_from(
    rows: Seq<IndexedRow>,
    pref: Seq<i64>,
    code: Seq<char>,
    trade: i32,
    end: i32,
    p: nat,
)
    ensures
        first_available_pos(rows, pref, code, trade, end, p) is Some <==> exists|q: int, k: int|
            p <= q < pref.len() && 0 <= k < rows.len() && #[trigger] matches_key(
                rows[k],
                code,
                trade,
                end,
                pref[q],
            ),
        first_available_pos(rows, pref, code, trade, end, p) matches Some(q) ==> p <= q < pref.len()
            && has_version(rows, code, trade, end, pref[q as int]),
        p == 0 ==> (first_available_pos(rows, pref, code, trade, end, p) is Some <==> available(
            rows,
            pref,
            code,
            trade,
            end,
        )),
    decreases pref.len() - p,
{
    if p < pref.len() {
        lemma_first_available_from(rows, pref, code, trade, end, p + 1);
        if has_version(rows, code, trade, end, pref[p as int]) {
            let k = choose|k: int| 0 <= k < rows.len() && #[trigger] matches_key(rows[k], code, trade, end, pref[p as int]);
            assert(matches_key(rows[k], code, trade, end, pref[p as int]));
        }
    }
    if p == 0 {
        if available(rows, pref, code, trade, end) {
            let k = choose|k: int|
                0 <= k < rows.len() && (#[trigger] rows[k]).code == code && rows[k].end_date == end
                    && rows[k].disclosure_date <= trade && pref.contains(rows[k].report_type);
            let q = choose|q: int| 0 <= q < pref.len() && pref[q] == rows[k].report_type;
            assert(matches_key(rows[k], code, trade, end, pref[q]));
        }
        if exists|q: int, k: int|
            0 <= q < pref.len() && 0 <= k < rows.len() && #[trigger] matches_key(rows[k], code, trade, end, pref[q]) {
            let (q, k) = choose|q: int, k: int|
                0 <= q < pref.len() && 0 <= k < rows.len() && #[trigger] matches_key(rows[k], code, trade, end, pref[q]);
            assert(pref.contains(rows[k].report_type));
        }
    }
}

/// The version a reader with preference `pref` sees of the `end` statement of
/// `code` on `trade`, if any.
pub open spec fn seen_record(rows: Seq<IndexedRow>, pref: Seq<i64>, code: Seq<char>, trade: i32, end: i32) -> Option<IndexedRow> {
    match first_available_pos(rows, pref, code, trade, end, 0) {
        Some(p) => Some(rows[choose|k: int| is_current_version(rows, k, code, trade, end, pref[p as int])]),
        None => None,
    }
}

/// At most one row is the current version of a key.
pub proof fn lemma_current_version_unique(
    rows: Seq<IndexedRow>,
    k1: int,
    k2: int,
    code: Seq<char>,
    trade: i32,
    end: i32,
    rt: i64,
)
    requires
        is_current_version(rows, k1, code, trade, end, rt),
        is_current_version(rows, k2, code, trade, end, rt),
    ensures
        k1 == k2,
{
    assert(matches_key(rows[k1], code, trade, end, rt));
    assert(matches_key(rows[k2], code, trade, end, rt));
}

/// The latest end date, among year-end dates only when `annual`, for which a
/// reader finds a version on `trade`.
pub open spec fn latest_end(rows: Seq<IndexedRow>, pref: Seq<i64>, code: Seq<char>, trade: i32, annual: bool) -> Option<i32> {
    if exists|e: i32| (annual ==> trunc_rem(e as int, 10000) == 1231) && #[trigger] available(rows, pref, code, trade, e) {
        Some(
            choose|e: i32|
                (annual ==> trunc_rem(e as int, 10000) == 1231) && #[trigger] available(rows, pref, code, trade, e)
                    && forall|e2: i32|
                    (annual ==> trunc_rem(e2 as int, 10000) == 1231) && #[trigger] available(rows, pref, code, trade, e2) ==> e2 <= e,
        )
    } else {
        None
    }
}

/// A reader of an index that sees the versions disclosed by a trade date and
/// prefers report types in a stated order.
#[derive(Debug)]
pub struct FinancialPitReader<'a> {
    index: &'a FinancialPitIndex,
    preference: ReportTypePreference,
}

/// The key fields of one statement version, with the table it came from.
#[derive(Clone, Copy, Debug)]
pub struct PitFinancialRecordView<'a> {
    table: &'a Table,
    record: &'a FinancialIndexedRecord,
}

impl<'a> PitFinancialRecordView<'a> {
    /// The version this view shows.
    pub closed spec fn row(self) -> IndexedRow {
        row_of(*self.record)
    }

    /// The content of the table the version was read from.
    pub closed spec fn table_view(self) -> TableView {
        self.table@
    }

    /// End date of the reporting period.
    pub fn end_date(&self) -> (r: i32)
        ensures
            r == self.row().end_date,
    {
        self.record.end_date
    }

    /// Date the version was disclosed.
    pub fn disclosure_date(&self) -> (r: i32)
        ensures
            r == self.row().disclosure_date,
    {
        self.record.disclosure_date
    }

    /// Report type of the version.
    pub fn report_type(&self) -> (r: i64)
        ensures
            r == self.row().report_type,
    {
        self.record.report_type
    }

    /// Update flag of the version.
    pub fn update_flag(&self) -> (r: i64)
        ensures
            r == self.row().update_flag,
    {
        self.record.update_flag
    }

    /// The table the version was read from.
    pub fn table(&self) -> (r: &'a Table)
        ensures
            r@ == self.table_view(),
    {
        self.table
    }

    /// Row of the version in its table.
    pub fn row_idx(&self) -> (r: usize)
        ensures
            r == self.row().row_idx,
    {
        self.record.row_idx
    }
}

impl<'a> FinancialPitReader<'a> {
    /// The indexed versions.
    pub closed spec fn rows(self) -> Seq<IndexedRow> {
        self.index.rows()
    }

    /// The report type preference.
    pub closed spec fn preference_view(self) -> Seq<i64> {
        self.preference@
    }

    /// Position of the version of the key that the reader sees.
    fn current_version(&self, ts_code: &str, trade_date: i32, end_date: i32, report_type: i64) -> (r:
        Option<usize>)
        ensures
            r is None <==> !has_version(self.rows(), ts_code@, trade_date, end_date, report_type),
            r matches Some(k) ==> is_current_version(
                self.rows(),
                k as int,
                ts_code@,
                trade_date,
                end_date,
                report_type,
            ),
    {
        let records = &self.index.records;
        let ghost rows = self.rows();
        assert(rows == rows_of(records@));
        let mut best: Option<usize> = None;
        let mut i: usize = 0;
        while i < records.len()
            invariant
                i <= records@.len(),
                rows == rows_of(records@),
                best is None ==> forall|j: int| 0 <= j < i ==> !#[trigger] matches_key(rows[j], ts_code@, trade_date, end_date, report_type),
                best matches Some(b) ==> b < i && matches_key(rows[b as int], ts_code@, trade_date, end_date, report_type)
                    && forall|j: int| 0 <= j < i && #[trigger] matches_key(rows[j], ts_code@, trade_date, end_date, report_type)
                        ==> !newer(rows[j], rows[b as int]) && (j < b ==> newer(rows[b as int], rows[j])),
            decreases records@.len() - i,
        {
            let rec = &records[i];
            if rec.end_date == end_date && rec.report_type == report_type && rec.disclosure_date <= trade_date
                && crate::catalog::str_eq(rec.ts_code.as_str(), ts_code) {
                proof {
                    assert(matches_key(rows[i as int], ts_code@, trade_date, end_date, report_type));
                }
                match best {
                    None => {
                        best = Some(i);
                    },
                    Some(b) => {
                        let cur = &records[b];
                        if rec.disclosure_date > cur.disclosure_date || (rec.disclosure_date
                            == cur.disclosure_date && rec.update_flag > cur.update_flag) {
                            best = Some(i);
                        }
                    },
                }
            } else {
                proof {
                    assert(!matches_key(rows[i as int], ts_code@, trade_date, end_date, report_type));
                }
            }
            i = i + 1;
        }
        best
    }

    /// The version of the `end_date` statement of `ts_code` seen on
    /// `trade_date`: of the first preferred report type with a version
    /// disclosed by then, the latest such version.
    pub fn record_for_end_date(&self, ts_code: &str, trade_date: i32, end_date: i32) -> (r: Option<
        PitFinancialRecordView<'a>,
    >)
        ensures
            r is None <==> first_available_pos(
                self.rows(),
                self.preference_view(),
                ts_code@,
                trade_date,
                end_date,
                0,
            ) is None,
            r matches Some(v) ==> first_available_pos(
                self.rows(),
                self.preference_view(),
                ts_code@,
                trade_date,
                end_date,
                0,
            ) matches Some(p) && exists|k: int|
                is_current_version(
                    self.rows(),
                    k,
                    ts_code@,
                    trade_date,
                    end_date,
                    self.preference_view()[p as int],
                ) && #[trigger] self.rows()[k] == v.row(),
            match r {
                Some(v) => seen_record(self.rows(), self.preference_view(), ts_code@, trade_date, end_date) == Some(v.row()),
                None => seen_record(self.rows(), self.preference_view(), ts_code@, trade_date, end_date) is None,
            },
    {
        let ghost rows = self.rows();
        let ghost pref = self.preference_view();
        let mut p: usize = 0;
        while p < self.preference.order.len()
            invariant
                p <= pref.len(),
                pref == self.preference.order@,
                rows == self.rows(),
                first_available_pos(rows, pref, ts_code@, trade_date, end_date, 0)
                    == first_available_pos(rows, pref, ts_code@, trade_date, end_date, p as nat),
            decreases pref.len() - p,
        {
            match self.current_version(ts_code, trade_date, end_date, self.preference.order[p]) {
                Some(k) => {
                    proof {
                        use_type_invariant(self.index);
                        assert(rows_of(self.index.records@)[k as int] == row_of(self.index.records@[k as int]));
                    }
                    let record = &self.index.records[k];
                    let table: &Table = &*self.index.sources[record.source_idx];
                    let view = PitFinancialRecordView { table, record };
                    proof {
                        assert(rows[k as int] == view.row());
                        let kk = choose|kk: int| is_current_version(rows, kk, ts_code@, trade_date, end_date, pref[p as int]);
                        lemma_current_version_unique(rows, kk, k as int, ts_code@, trade_date, end_date, pref[p as int]);
                    }
                    return Some(view);
                },
                None => {},
            }
            p = p + 1;
        }
        None
    }

    /// The latest end date of `ts_code` for which [`Self::record_for_end_date`]
    /// finds a version on `trade_date`.
    pub fn latest_quarter_end_date(&self, ts_code: &str, trade_date: i32) -> (r: Option<i32>)
        ensures
            r is None ==> forall|e: i32|
                !#[trigger] available(self.rows(), self.preference_view(), ts_code@, trade_date, e),
            r matches Some(e) ==> available(self.rows(), self.preference_view(), ts_code@, trade_date, e)
                && forall|e2: i32|
                #[trigger] available(self.rows(), self.preference_view(), ts_code@, trade_date, e2)
                    ==> e2 <= e,
            r == latest_end(self.rows(), self.preference_view(), ts_code@, trade_date, false),
    {
        self.latest_end_date_where(ts_code, trade_date, false)
    }

    /// The latest year-end (`MMDD` = 1231) date of `ts_code` for which
    /// [`Self::record_for_end_date`] finds a version on `trade_date`.
    pub fn latest_annual_end_date(&self, ts_code: &str, trade_date: i32) -> (r: Option<i32>)
        ensures
            r is None ==> forall|e: i32|
                trunc_rem(e as int, 10000) == 1231 ==> !#[trigger] available(
                    self.rows(),
                    self.preference_view(),
                    ts_code@,
                    trade_date,
                    e,
                ),
            r matches Some(e) ==> trunc_rem(e as int, 10000) == 1231 && available(
                self.rows(),
                self.preference_view(),
                ts_code@,
                trade_date,
                e,
            ) && forall|e2: i32|
                trunc_rem(e2 as int, 10000) == 1231 && #[trigger] available(
                    self.rows(),
                    self.preference_view(),
                    ts_code@,
                    trade_date,
                    e2,
                ) ==> e2 <= e,
            r == latest_end(self.rows(), self.preference_view(), ts_code@, trade_date, true),
    {
        self.latest_end_date_where(ts_code, trade_date, true)
    }

    /// The latest available end date, among year-end dates only when `annual`.
    fn latest_end_date_where(&self, ts_code: &str, trade_date: i32, annual: bool) -> (r: Option<i32>)
        ensures
            r is None ==> forall|e: i32|
                (annual ==> trunc_rem(e as int, 10000) == 1231) ==> !#[trigger] available(
                    self.rows(),
                    self.preference_view(),
                    ts_code@,
                    trade_date,
                    e,
                ),
            r matches Some(e) ==> (annual ==> trunc_rem(e as int, 10000) == 1231) && available(
                self.rows(),
                self.preference_view(),
                ts_code@,
                trade_date,
                e,
            ) && forall|e2: i32|
                (annual ==> trunc_rem(e2 as int, 10000) == 1231) && #[trigger] available(
                    self.rows(),
                    self.preference_view(),
                    ts_code@,
                    trade_date,
                    e2,
                ) ==> e2 <= e,
            r == latest_end(self.rows(), self.preference_view(), ts_code@, trade_date, annual),
    {
        let records = &self.index.records;
        let ghost rows = self.rows();
        let ghost pref = self.preference_view();
        assert(rows == rows_of(records@));
        let mut best: Option<i32> = None;
        let mut i: usize = 0;
        while i < records.len()
            invariant
                i <= records@.len(),
                rows == rows_of(records@),
                pref == self.preference_view(),
                best is None ==> forall|j: int|
                    0 <= j < i && #[trigger] visible_row(rows, pref, ts_code@, trade_date, j) ==> (annual
                        && trunc_rem(rows[j].end_date as int, 10000) != 1231),
                best matches Some(e) ==> (annual ==> trunc_rem(e as int, 10000) == 1231) && available(
                    rows,
                    pref,
                    ts_code@,
                    trade_date,
                    e,
                ) && forall|j: int|
                    0 <= j < i && #[trigger] visible_row(rows, pref, ts_code@, trade_date, j) && (annual
                        ==> trunc_rem(rows[j].end_date as int, 10000) == 1231) ==> rows[j].end_date <= e,
            decreases records@.len() - i,
        {
            let rec = &records[i];
            proof {
                assert(rows[i as int] == row_of(records@[i as int]));
            }
            let in_scope = !annual || rec.end_date % 10000 == 1231;
            if rec.disclosure_date <= trade_date && in_scope && self.preference.contains(rec.report_type)
                && crate::catalog::str_eq(rec.ts_code.as_str(), ts_code) {
                proof {
                    assert(visible_row(rows, pref, ts_code@, trade_date, i as int));
                    assert(available(rows, pref, ts_code@, trade_date, rec.end_date));
                }
                match best {
                    None => {
                        best = Some(rec.end_date);
                    },
                    Some(e) => {
                        if rec.end_date > e {
                            best = Some(rec.end_date);
                        }
                    },
                }
            } else {
                proof {
                    assert(!visible_row(rows, pref, ts_code@, trade_date, i as int) || (annual
                        && trunc_rem(rows[i as int].end_date as int, 10000) != 1231));
                }
            }
            i = i + 1;
        }
        proof {
            assert forall|e2: i32|
                (annual ==> trunc_rem(e2 as int, 10000) == 1231) && #[trigger] available(
                    rows,
                    pref,
                    ts_code@,
                    trade_date,
                    e2,
                ) implies (best matches Some(e) && e2 <= e) by {
                let k = choose|k: int|
                    0 <= k < rows.len() && (#[trigger] rows[k]).code == ts_code@ && rows[k].end_date == e2
                        && rows[k].disclosure_date <= trade_date && pref.contains(rows[k].report_type);
                assert(visible_row(rows, pref, ts_code@, trade_date, k));
            }
            if let Some(e) = best {
                let c = choose|c: i32|
                    (annual ==> trunc_rem(c as int, 10000) == 1231) && #[trigger] available(rows, pref, ts_code@, trade_date, c)
                        && forall|e2: i32|
                        (annual ==> trunc_rem(e2 as int, 10000) == 1231) && #[trigger] available(rows, pref, ts_code@, trade_date, e2) ==> e2 <= c;
                assert(c <= e && e <= c);
            }
        }
        best
    }
}

/// Whether `events` holds a date after `lo` and up to `hi`.
pub open spec fn event_between(events: Set<i32>, lo: int, hi: int) -> bool {
    exists|d: i32| events.contains(d) && lo < d <= hi
}

/// The disclosure dates of the preferred report types of an index.
pub open spec fn reader_event_dates(rows: Seq<IndexedRow>, pref: Seq<i64>) -> Set<i32> {
    Set::new(
        |d: i32|
            exists|k: int|
                0 <= k < rows.len() && (#[trigger] rows[k]).disclosure_date == d && pref.contains(
                    rows[k].report_type,
                ),
    )
}

/// The dates on which any of `readers` sees a new disclosure.
pub open spec fn readers_event_dates(readers: Seq<FinancialPitReader>) -> Set<i32> {
    Set::new(
        |d: i32|
            exists|i: int|
                0 <= i < readers.len() && reader_event_dates(
                    (#[trigger] readers[i]).rows(),
                    readers[i].preference_view(),
                ).contains(d),
    )
}

/// The dates on which new financial information became public.
#[derive(Clone, Debug)]
pub struct FinancialEventSchedule {
    event_dates: Vec<i32>,
}

impl View for FinancialEventSchedule {
    type V = Set<i32>;

    closed spec fn view(&self) -> Set<i32> {
        Set::new(|d: i32| self.event_dates@.contains(d))
    }
}

impl Default for FinancialEventSchedule {
    fn default() -> (r: Self)
        ensures
            r@ == Set::<i32>::empty(),
    {
        let r = FinancialEventSchedule { event_dates: Vec::new() };
        assert(r@ =~= Set::<i32>::empty());
        r
    }
}

/// Adds `d` to `dates` unless it is there already.
fn insert_date(dates: &mut Vec<i32>, d: i32)
    ensures
        forall|x: i32| #[trigger] final(dates)@.contains(x) <==> old(dates)@.contains(x) || x == d,
{
    let mut i: usize = 0;
    while i < dates.len()
        invariant
            i <= dates@.len(),
            forall|j: int| 0 <= j < i ==> dates@[j] != d,
        decreases dates@.len() - i,
    {
        if dates[i] == d {
            return;
        }
        i = i + 1;
    }
    let ghost before = dates@;
    dates.push(d);
    proof {
        assert forall|x: i32| #[trigger] dates@.contains(x) <==> before.contains(x) || x == d by {
            if before.contains(x) {
                let j = choose|j: int| 0 <= j < before.len() && before[j] == x;
                assert(dates@[j] == x);
            }
            if x == d {
                assert(dates@[before.len() as int] == d);
            }
            if dates@.contains(x) {
                let j = choose|j: int| 0 <= j < dates@.len() && dates@[j] == x;
                if j < before.len() {
                    assert(before[j] == x);
                }
            }
        }
    }
}

/// Adds the disclosure dates that `reader` sees to `event_dates`.
fn collect_pit_reader_event_dates(reader: &FinancialPitReader<'_>, event_dates: &mut Vec<i32>)
    ensures
        forall|x: i32| #[trigger] final(event_dates)@.contains(x) <==> old(event_dates)@.contains(x)
            || reader_event_dates(reader.rows(), reader.preference_view()).contains(x),
{
    let records = &reader.index.records;
    let ghost rows = reader.rows();
    let ghost pref = reader.preference_view();
    let ghost start = event_dates@;
    assert(rows == rows_of(records@));
    let mut i: usize = 0;
    while i < records.len()
        invariant
            i <= records@.len(),
            rows == rows_of(records@),
            pref == reader.preference_view(),
            forall|x: i32| #[trigger] event_dates@.contains(x) <==> start.contains(x) || exists|k: int|
                0 <= k < i && (#[trigger] rows[k]).disclosure_date == x && pref.contains(rows[k].report_type),
        decreases records@.len() - i,
    {
        let rec = &records[i];
        proof {
            assert(rows[i as int] == row_of(records@[i as int]));
        }
        let ghost before = event_dates@;
        if reader.preference.contains(rec.report_type) {
            insert_date(event_dates, rec.disclosure_date);
        }
        proof {
            assert forall|x: i32| #[trigger] event_dates@.contains(x) <==> start.contains(x) || exists|k: int|
                0 <= k < i + 1 && (#[trigger] rows[k]).disclosure_date == x && pref.contains(rows[k].report_type) by {
                if exists|k: int| 0 <= k < i + 1 && (#[trigger] rows[k]).disclosure_date == x && pref.contains(rows[k].report_type) {
                    let k = choose|k: int| 0 <= k < i + 1 && (#[trigger] rows[k]).disclosure_date == x && pref.contains(rows[k].report_type);
                    if k < i {
                        assert(before.contains(x));
                    }
                }
                if before.contains(x) && !start.contains(x) {
                    let k = choose|k: int| 0 <= k < i && (#[trigger] rows[k]).disclosure_date == x && pref.contains(rows[k].report_type);
                    assert(0 <= k < i + 1);
                }
            }
        }
        i = i + 1;
    }
    proof {
        assert forall|x: i32| #[trigger] event_dates@.contains(x) <==> start.contains(x)
            || reader_event_dates(rows, pref).contains(x) by {
            if reader_event_dates(rows, pref).contains(x) {
                let k = choose|k: int|
                    0 <= k < rows.len() && (#[trigger] rows[k]).disclosure_date == x && pref.contains(rows[k].report_type);
                assert(0 <= k < i);
            }
        }
    }
}

impl FinancialEventSchedule {
    /// The disclosure dates of the preferred report types of every reader.
    pub fn from_pit_readers(readers: &[FinancialPitReader<'_>]) -> (r: Self)
        ensures
            r@ == readers_event_dates(readers@),
    {
        let mut event_dates: Vec<i32> = Vec::new();
        let mut i: usize = 0;
        while i < readers.len()
            invariant
                i <= readers@.len(),
                forall|x: i32| #[trigger] event_dates@.contains(x) <==> exists|j: int|
                    0 <= j < i && reader_event_dates(
                        (#[trigger] readers@[j]).rows(),
                        readers@[j].preference_view(),
                    ).contains(x),
            decreases readers@.len() - i,
        {
            let ghost before = event_dates@;
            collect_pit_reader_event_dates(&readers[i], &mut event_dates);
            proof {
                assert forall|x: i32| #[trigger] event_dates@.contains(x) <==> exists|j: int|
                    0 <= j < i + 1 && reader_event_dates(
                        (#[trigger] readers@[j]).rows(),
                        readers@[j].preference_view(),
                    ).contains(x) by {
                    if exists|j: int| 0 <= j < i + 1 && reader_event_dates(
                        (#[trigger] readers@[j]).rows(),
                        readers@[j].preference_view(),
                    ).contains(x) {
                        let j = choose|j: int| 0 <= j < i + 1 && reader_event_dates(
                            (#[trigger] readers@[j]).rows(),
                            readers@[j].preference_view(),
                        ).contains(x);
                        if j < i {
                            assert(before.contains(x));
                        }
                    }
                    if before.contains(x) {
                        let j = choose|j: int| 0 <= j < i && reader_event_dates(
                            (#[trigger] readers@[j]).rows(),
                            readers@[j].preference_view(),
                        ).contains(x);
                        assert(0 <= j < i + 1);
                    }
                }
            }
            i = i + 1;
        }
        let r = FinancialEventSchedule { event_dates };
        assert(r@ =~= readers_event_dates(readers@));
        r
    }

    /// Adds the dates of `other`.
    pub fn merge(&mut self, other: Self)
        ensures
            final(self)@ == old(self)@.union(other@),
    {
        let mut i: usize = 0;
        while i < other.event_dates.len()
            invariant
                i <= other.event_dates@.len(),
                forall|x: i32| #[trigger] self.event_dates@.contains(x) <==> old(self).event_dates@.contains(x)
                    || other.event_dates@.subrange(0, i as int).contains(x),
            decreases other.event_dates@.len() - i,
        {
            let ghost before = self.event_dates@;
            insert_date(&mut self.event_dates, other.event_dates[i]);
            proof {
                let pre = other.event_dates@.subrange(0, i as int);
                let post = other.event_dates@.subrange(0, i + 1);
                assert(post =~= pre.push(other.event_dates@[i as int]));
                assert forall|x: i32| #[trigger] self.event_dates@.contains(x) <==> old(self).event_dates@.contains(x)
                    || post.contains(x) by {
                    if post.contains(x) {
                        let j = choose|j: int| 0 <= j < post.len() && post[j] == x;
                        if j < i {
                            assert(pre[j] == x);
                        }
                    }
                    if pre.contains(x) {
                        let j = choose|j: int| 0 <= j < pre.len() && pre[j] == x;
                        assert(post[j] == x);
                    }
                    if x == other.event_dates@[i as int] {
                        assert(post[i as int] == x);
                    }
                    assert(before.contains(x) <==> old(self).event_dates@.contains(x) || pre.contains(x));
                }
            }
            i = i + 1;
        }
        proof {
            assert(other.event_dates@.subrange(0, other.event_dates@.len() as int) =~= other.event_dates@);
            assert(self@ =~= old(self)@.union(other@));
        }
    }

    /// Whether a date after `after_exclusive` (or, without it, after the
    /// least `i32`) and up to `until_inclusive` is an event date.
    pub fn has_event_after_until(&self, after_exclusive: Option<i32>, until_inclusive: i32) -> (r: bool)
        requires
            match after_exclusive {
                Some(a) => a < until_inclusive,
                None => i32::MIN < until_inclusive,
            },
        ensures
            r == event_between(
                self@,
                match after_exclusive {
                    Some(a) => a as int,
                    None => i32::MIN as int,
                },
                until_inclusive as int,
            ),
    {
        let lower: i32 = match after_exclusive {
            Some(a) => a,
            None => i32::MIN,
        };
        let ghost lo: int = match after_exclusive {
            Some(a) => a as int,
            None => i32::MIN as int,
        };
        assert(lower as int == lo);
        let mut i: usize = 0;
        while i < self.event_dates.len()
            invariant
                i <= self.event_dates@.len(),
                forall|j: int| 0 <= j < i ==> !(lower < #[trigger] self.event_dates@[j] <= until_inclusive),
                lower as int == lo,
                lo == match after_exclusive {
                    Some(a) => a as int,
                    None => i32::MIN as int,
                },
            decreases self.event_dates@.len() - i,
        {
            let d = self.event_dates[i];
            if lower < d && d <= until_inclusive {
                proof {
                    assert(self.event_dates@[i as int] == d);
                    assert(self.event_dates@.contains(d));
                    assert(self@.contains(d));
                    assert(event_between(self@, lower as int, until_inclusive as int));
                }
                return true;
            }
            i = i + 1;
        }
        proof {
            if event_between(self@, lower as int, until_inclusive as int) {
                let d = choose|d: i32| self@.contains(d) && lower < d <= until_inclusive;
                assert(self.event_dates@.contains(d));
                let j = choose|j: int| 0 <= j < self.event_dates@.len() && self.event_dates@[j] == d;
                assert(!(lower < self.event_dates@[j] <= until_inclusive));
            }
        }
        false
    }
}

/// Merging schedules finds an event in a window exactly when one of them does.
pub proof fn lemma_merged_schedule_event_between(a: Set<i32>, b: Set<i32>, lo: int, hi: int)
    ensures
        event_between(a.union(b), lo, hi) <==> event_between(a, lo, hi) || event_between(b, lo, hi),
{
    if event_between(a.union(b), lo, hi) {
        let d = choose|d: i32| a.union(b).contains(d) && lo < d <= hi;
        if a.contains(d) {
            assert(event_between(a, lo, hi));
        } else {
            assert(event_between(b, lo, hi));
        }
    }
    if event_between(a, lo, hi) {
        let d = choose|d: i32| a.contains(d) && lo < d <= hi;
        assert(a.union(b).contains(d));
    }
    if event_between(b, lo, hi) {
        let d = choose|d: i32| b.contains(d) && lo < d <= hi;
        assert(a.union(b).contains(d));
    }
}

/// The processing state of a dividend that has been carried out.
pub open spec fn implemented_div_proc() -> Seq<char> {
    seq!['\u{5b9e}', '\u{65bd}']
}

/// What one dividend row tells the event schedule: its codes and dates as
/// read from the table, its processing state, and whether its cash amount
/// per share and its base share are usable numbers (the base share above
/// zero).
pub struct DividendEventRow {
    pub ts_code: Option<String>,
    pub ann_date: Option<i32>,
    pub ex_date: Option<i32>,
    pub div_proc: Option<String>,
    pub amounts_usable: bool,
}

/// Whether `row` is a carried-out dividend with a code, both dates and
/// usable amounts.
pub open spec fn dividend_row_counts(row: DividendEventRow) -> bool {
    &&& row.div_proc matches Some(p) && trimmed(p@) == implemented_div_proc()
    &&& row.ts_code is Some
    &&& row.ann_date is Some
    &&& row.ex_date is Some
    &&& row.amounts_usable
}

/// The day after the first anniversary of `ex_date`.
pub open spec fn dividend_anniversary_event(ex_date: i32) -> int {
    spec_add_days(spec_add_months(ex_date as int, 12), 1)
}

/// Whether the date arithmetic on `ex_date` stays within `i32`.
pub open spec fn ex_date_fits(ex_date: i32) -> bool {
    &&& ex_date >= 0
    &&& i32::MIN <= shifted_month_index(ex_date as int, 12) <= i32::MAX
    &&& -214_748 <= shifted_month_index(ex_date as int, 12) / 12 <= 214_748
    &&& spec_add_months(ex_date as int, 12) >= 0
    &&& add_days_fits(spec_add_months(ex_date as int, 12), 1)
}

/// The event dates of the dividend rows `rows`: for each counted row its
/// announcement date, its ex-date and the day after the ex-date's first
/// anniversary.
pub open spec fn dividend_event_dates(rows: Seq<DividendEventRow>) -> Set<i32> {
    Set::new(
        |x: i32|
            exists|k: int|
                0 <= k < rows.len() && dividend_row_counts(#[trigger] rows[k]) && (x == rows[k].ann_date.unwrap()
                    || x == rows[k].ex_date.unwrap() || x as int == dividend_anniversary_event(
                    rows[k].ex_date.unwrap(),
                )),
    )
}

/// Whether the processing state `p` reads as carried out once trimmed.
fn is_implemented_div_proc(p: &str) -> (r: bool)
    ensures
        r == (trimmed(p@) == implemented_div_proc()),
{
    let chars = chars_of(p);
    let (a, b) = trim_range(chars.as_slice(), 0, chars.len());
    proof {
        assert(chars@.subrange(0, chars@.len() as int) =~= chars@);
    }
    if b - a != 2 {
        proof {
            assert(trimmed(p@) == chars@.subrange(a as int, b as int));
            assert(implemented_div_proc().len() == 2);
        }
        return false;
    }
    let r = chars[a] == '\u{5b9e}' && chars[a + 1] == '\u{65bd}';
    proof {
        let t = chars@.subrange(a as int, b as int);
        if r {
            assert(t =~= implemented_div_proc());
        } else {
            assert(t[0] != '\u{5b9e}' || t[1] != '\u{65bd}');
        }
    }
    r
}

impl FinancialEventSchedule {
    /// The schedule of the dividend rows `rows`: the announcement date, the
    /// ex-date and the day after the ex-date's first anniversary of every
    /// carried-out dividend with a code, both dates and usable amounts.
    pub fn from_dividend_rows(rows: &[DividendEventRow]) -> (r: Self)
        requires
            forall|k: int|
                0 <= k < rows@.len() && dividend_row_counts(#[trigger] rows@[k]) ==> ex_date_fits(
                    rows@[k].ex_date.unwrap(),
                ),
        ensures
            r@ == dividend_event_dates(rows@),
    {
        let mut event_dates: Vec<i32> = Vec::new();
        let mut i: usize = 0;
        while i < rows.len()
            invariant
                i <= rows@.len(),
                forall|k: int|
                    0 <= k < rows@.len() && dividend_row_counts(#[trigger] rows@[k]) ==> ex_date_fits(
                        rows@[k].ex_date.unwrap(),
                    ),
                forall|x: i32|
                    #[trigger] event_dates@.contains(x) <==> dividend_event_dates(rows@.subrange(0, i as int)).contains(
                        x,
                    ),
            decreases rows@.len() - i,
        {
            let row = &rows[i];
            let ghost prev = rows@.subrange(0, i as int);
            let ghost next = rows@.subrange(0, i + 1);
            let counts = match (&row.div_proc, &row.ts_code, row.ann_date, row.ex_date) {
                (Some(p), Some(_), Some(_), Some(_)) => row.amounts_usable && is_implemented_div_proc(p.as_str()),
                _ => false,
            };
            proof {
                assert(counts == dividend_row_counts(rows@[i as int]));
            }
            if counts {
                let ann = row.ann_date.unwrap();
                let ex = row.ex_date.unwrap();
                let anniversary = add_days(add_months(ex, 12), 1);
                insert_date(&mut event_dates, ann);
                insert_date(&mut event_dates, ex);
                insert_date(&mut event_dates, anniversary);
            }
            proof {
                assert forall|x: i32| #[trigger] event_dates@.contains(x) <==> dividend_event_dates(next).contains(x) by {
                    if dividend_event_dates(next).contains(x) {
                        let k = choose|k: int|
                            0 <= k < next.len() && dividend_row_counts(#[trigger] next[k]) && (x
                                == next[k].ann_date.unwrap() || x == next[k].ex_date.unwrap() || x as int
                                == dividend_anniversary_event(next[k].ex_date.unwrap()));
                        if k < i {
                            assert(prev[k] == next[k]);
                            assert(dividend_event_dates(prev).contains(x));
                        }
                    }
                    if dividend_event_dates(prev).contains(x) {
                        let k = choose|k: int|
                            0 <= k < prev.len() && dividend_row_counts(#[trigger] prev[k]) && (x
                                == prev[k].ann_date.unwrap() || x == prev[k].ex_date.unwrap() || x as int
                                == dividend_anniversary_event(prev[k].ex_date.unwrap()));
                        assert(next[k] == prev[k]);
                    }
                    if counts && (x == rows@[i as int].ann_date.unwrap() || x == rows@[i as int].ex_date.unwrap()
                        || x as int == dividend_anniversary_event(rows@[i as int].ex_date.unwrap())) {
                        assert(next[i as int] == rows@[i as int]);
                    }
                }
            }
            i = i + 1;
        }
        proof {
            assert(rows@.subrange(0, rows@.len() as int) =~= rows@);
        }
        let r = FinancialEventSchedule { event_dates };
        assert(r@ =~= dividend_event_dates(rows@));
        r
    }
}

/// The trade date processed before target `i`: `last` for the first target.
pub open spec fn processed_before(last: Option<i32>, targets: Seq<i32>, i: int) -> Option<i32> {
    if i == 0 {
        last
    } else {
        Some(targets[i - 1])
    }
}

/// Whether target `i` is recomputed: nothing was processed before it, or an
/// event fell after the date processed before it and up to it.
pub open spec fn recomputes_at(last: Option<i32>, events: Set<i32>, targets: Seq<i32>, i: int) -> bool {
    match processed_before(last, targets, i) {
        None => true,
        Some(p) => event_between(events, p as int, targets[i] as int),
    }
}

/// The targets among the first `n` that are recomputed, in order.
pub open spec fn event_trade_dates_prefix(last: Option<i32>, events: Set<i32>, targets: Seq<i32>, n: nat) -> Seq<
    i32,
>
    decreases n,
{
    if n == 0 {
        Seq::empty()
    } else {
        let prev = event_trade_dates_prefix(last, events, targets, (n - 1) as nat);
        if recomputes_at(last, events, targets, n - 1) {
            prev.push(targets[n - 1])
        } else {
            prev
        }
    }
}

/// Whether `targets` is strictly increasing and starts after `last`.
pub open spec fn targets_follow(last: Option<i32>, targets: Seq<i32>) -> bool {
    &&& forall|i: int, j: int| 0 <= i < j < targets.len() ==> targets[i] < targets[j]
    &&& (targets.len() > 0 ==> match last {
        Some(p) => p < targets[0],
        None => true,
    })
}

/// The target dates on which a snapshot must be recomputed: those with an
/// event since the date processed before them.
pub fn financial_event_trade_dates(
    last_processed_trade_date: Option<i32>,
    schedule: &FinancialEventSchedule,
    target_dates: &[i32],
) -> (r: Vec<i32>)
    requires
        targets_follow(last_processed_trade_date, target_dates@),
    ensures
        r@ == event_trade_dates_prefix(
            last_processed_trade_date,
            schedule@,
            target_dates@,
            target_dates@.len(),
        ),
{
    let mut last_processed = last_processed_trade_date;
    let mut event_trade_dates: Vec<i32> = Vec::new();
    let mut i: usize = 0;
    while i < target_dates.len()
        invariant
            i <= target_dates@.len(),
            targets_follow(last_processed_trade_date, target_dates@),
            last_processed == processed_before(last_processed_trade_date, target_dates@, i as int),
            event_trade_dates@ == event_trade_dates_prefix(
                last_processed_trade_date,
                schedule@,
                target_dates@,
                i as nat,
            ),
        decreases target_dates@.len() - i,
    {
        let trade_date = target_dates[i];
        let should_recompute = match last_processed {
            None => true,
            Some(p) => {
                proof {
                    if i > 0 {
                        assert(target_dates@[i - 1] < target_dates@[i as int]);
                    }
                }
                schedule.has_event_after_until(last_processed, trade_date)
            },
        };
        if should_recompute {
            event_trade_dates.push(trade_date);
        }
        last_processed = Some(trade_date);
        i = i + 1;
    }
    event_trade_dates
}

/// Every recomputed date is a target date, and the first target is
/// recomputed when nothing was processed before.
pub proof fn lemma_event_trade_dates_are_targets(
    last: Option<i32>,
    events: Set<i32>,
    targets: Seq<i32>,
    n: nat,
)
    requires
        n <= targets.len(),
    ensures
        forall|x: i32| #[trigger] event_trade_dates_prefix(last, events, targets, n).contains(x)
            ==> targets.contains(x),
        last is None && n > 0 ==> event_trade_dates_prefix(last, events, targets, n).len() > 0
            && event_trade_dates_prefix(last, events, targets, n)[0] == targets[0],
    decreases n,
{
    if n > 0 {
        lemma_event_trade_dates_are_targets(last, events, targets, (n - 1) as nat);
        let prev = event_trade_dates_prefix(last, events, targets, (n - 1) as nat);
        let cur = event_trade_dates_prefix(last, events, targets, n);
        assert forall|x: i32| #[trigger] cur.contains(x) implies targets.contains(x) by {
            let j = choose|j: int| 0 <= j < cur.len() && cur[j] == x;
            if j < prev.len() {
                assert(prev[j] == x);
                assert(prev.contains(x));
            } else {
                assert(targets[n - 1] == x);
            }
        }
        if last is None && n == 1 {
            assert(event_trade_dates_prefix(last, events, targets, 0).len() == 0);
        }
    }
}

} // verus!
