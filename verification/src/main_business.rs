//! Point-in-time main business (revenue breakdown) records of stocks: the
//! industry breakdown rows of the original disclosures, by stock and period.
use vstd::prelude::*;
use crate::catalog::str_eq;
use crate::cross_section::{dates_of, reports_column, text_column};
use crate::table::{ColumnView, Table, TableError, TableView, columns_have_len, find_column, i64_cells};

verus! {

/// One indexed breakdown row: its stock, period end, update flag, breakdown
/// kind and item.
pub struct MainBusinessRowView {
    pub ts_code: Seq<char>,
    pub end_date: i32,
    pub update_flag: i64,
    pub bz_type: Option<Seq<char>>,
    pub bz_item: Option<Seq<char>>,
}

/// The first column, in the order `ts_code` (text), `end_date`,
/// `update_flag` (integer), `bz_type` (text), `bz_item` (text), that `t`
/// lacks (`true`) or holds with the wrong type (`false`).
pub open spec fn main_business_failure(t: TableView) -> Option<(bool, Seq<char>)> {
    let cols = t.columns;
    if find_column(cols, "ts_code"@) is None {
        Some((true, "ts_code"@))
    } else if !(find_column(cols, "ts_code"@) matches Some(ColumnView::Utf8(_))) {
        Some((false, "ts_code"@))
    } else if find_column(cols, "end_date"@) is None {
        Some((true, "end_date"@))
    } else if find_column(cols, "update_flag"@) is None {
        Some((true, "update_flag"@))
    } else if find_column(cols, "update_flag"@) matches Some(ColumnView::Utf8(_)) {
        Some((false, "update_flag"@))
    } else if find_column(cols, "bz_type"@) is None {
        Some((true, "bz_type"@))
    } else if !(find_column(cols, "bz_type"@) matches Some(ColumnView::Utf8(_))) {
        Some((false, "bz_type"@))
    } else if find_column(cols, "bz_item"@) is None {
        Some((true, "bz_item"@))
    } else if !(find_column(cols, "bz_item"@) matches Some(ColumnView::Utf8(_))) {
        Some((false, "bz_item"@))
    } else {
        None
    }
}

/// The update flags of `t`, read as integers.
pub open spec fn flags_of(t: TableView) -> Seq<Option<i64>> {
    match find_column(t.columns, "update_flag"@) {
        Some(c) => match i64_cells(c) {
            Some(v) => v,
            None => Seq::empty(),
        },
        None => Seq::empty(),
    }
}

/// Whether row `i` of `t` is indexed: it has a stock code, a period end and
/// an update flag.
pub open spec fn row_indexed(t: TableView, i: int) -> bool {
    &&& text_column(t, "ts_code"@)[i] is Some
    &&& dates_of(t, "end_date"@)[i] is Some
    &&& flags_of(t)[i] is Some
}

/// The indexed view of row `i` of `t`.
pub open spec fn row_view(t: TableView, i: int) -> MainBusinessRowView {
    MainBusinessRowView {
        ts_code: text_column(t, "ts_code"@)[i].unwrap(),
        end_date: dates_of(t, "end_date"@)[i].unwrap(),
        update_flag: flags_of(t)[i].unwrap(),
        bz_type: text_column(t, "bz_type"@)[i],
        bz_item: text_column(t, "bz_item"@)[i],
    }
}

/// The indexed rows among the first `n` rows of `t`, in row order.
pub open spec fn table_rows(t: TableView, n: nat) -> Seq<MainBusinessRowView>
    decreases n,
{
    if n == 0 {
        Seq::empty()
    } else {
        let prev = table_rows(t, (n - 1) as nat);
        if row_indexed(t, n - 1) {
            prev.push(row_view(t, n - 1))
        } else {
            prev
        }
    }
}

/// Whether `row` is an industry breakdown of the original disclosure: update
/// flag 0 and kind `I` (in either case).
pub open spec fn is_industry_update0(row: MainBusinessRowView) -> bool {
    &&& row.update_flag == 0
    &&& row.bz_type matches Some(k) && (k == "I"@ || k == "i"@)
}

/// The positions of the rows of `ts_code` and period end `end_date`, in
/// order.
pub open spec fn positions_for(rows: Seq<MainBusinessRowView>, ts_code: Seq<char>, end_date: i32) -> Seq<int> {
    Seq::new(rows.len(), |k: int| k).filter(|k: int| rows[k].ts_code == ts_code && rows[k].end_date == end_date)
}

/// Whether some industry row of `ts_code` has period end `e`.
pub open spec fn has_industry_end(rows: Seq<MainBusinessRowView>, ts_code: Seq<char>, e: i32) -> bool {
    exists|k: int|
        0 <= k < rows.len() && #[trigger] rows[k].ts_code == ts_code && rows[k].end_date == e
            && is_industry_update0(rows[k])
}

#[derive(Clone, Debug)]
struct MainBusinessIndexedRow {
    ts_code: String,
    end_date: i32,
    update_flag: i64,
    bz_type: Option<String>,
    bz_item: Option<String>,
}

spec fn indexed_view(r: MainBusinessIndexedRow) -> MainBusinessRowView {
    MainBusinessRowView {
        ts_code: r.ts_code@,
        end_date: r.end_date,
        update_flag: r.update_flag,
        bz_type: match r.bz_type {
            Some(s) => Some(s@),
            None => None,
        },
        bz_item: match r.bz_item {
            Some(s) => Some(s@),
            None => None,
        },
    }
}

/// Main business breakdown rows, indexed by stock and period.
#[derive(Clone, Debug)]
pub struct MainBusinessIndex {
    rows: Vec<MainBusinessIndexedRow>,
}

/// One indexed breakdown row of a [`MainBusinessIndex`].
#[derive(Clone, Copy, Debug)]
pub struct MainBusinessRecordView<'a> {
    index: &'a MainBusinessIndex,
    row_pos: usize,
}

/// Read access to a [`MainBusinessIndex`].
#[derive(Clone, Copy, Debug)]
pub struct MainBusinessReader<'a> {
    index: &'a MainBusinessIndex,
}

impl MainBusinessIndex {
    /// The indexed rows, in table row order.
    pub closed spec fn rows(self) -> Seq<MainBusinessRowView> {
        self.rows@.map_values(|r: MainBusinessIndexedRow| indexed_view(r))
    }

    /// The index of `table`: its rows with a stock code, a period end and an
    /// update flag.
    pub fn from_table(table: &Table) -> (r: Result<Self, TableError>)
        requires
            columns_have_len(table@.columns, table@.len),
        ensures
            r is Err <==> main_business_failure(table@) is Some,
            r matches Err(e) ==> main_business_failure(table@) matches Some(f) && reports_column(e, f.0, f.1),
            r matches Ok(index) ==> index.rows() == table_rows(table@, table@.len),
    {
        let ts_codes = match table.required_utf8("ts_code") {
            Ok(v) => v,
            Err(e) => {
                return Err(e);
            },
        };
        let end_dates = match table.required_i32_date_cast("end_date") {
            Ok(v) => v,
            Err(e) => {
                return Err(e);
            },
        };
        let update_flags = match table.required_i64_cast("update_flag") {
            Ok(v) => v,
            Err(e) => {
                return Err(e);
            },
        };
        let bz_types = match table.required_utf8("bz_type") {
            Ok(v) => v,
            Err(e) => {
                return Err(e);
            },
        };
        let bz_items = match table.required_utf8("bz_item") {
            Ok(v) => v,
            Err(e) => {
                return Err(e);
            },
        };
        let ghost t = table@;
        proof {
            crate::table::lemma_found_column_len(t.columns, "ts_code"@, t.len);
            crate::table::lemma_found_column_len(t.columns, "end_date"@, t.len);
            crate::table::lemma_found_column_len(t.columns, "update_flag"@, t.len);
            crate::table::lemma_found_column_len(t.columns, "bz_type"@, t.len);
            crate::table::lemma_found_column_len(t.columns, "bz_item"@, t.len);
        }
        let mut rows: Vec<MainBusinessIndexedRow> = Vec::new();
        let mut idx: usize = 0;
        while idx < table.len
            invariant
                idx <= table.len,
                t == table@,
                ts_codes@.len() == t.len,
                end_dates@.len() == t.len,
                update_flags@.len() == t.len,
                bz_types@.len() == t.len,
                bz_items@.len() == t.len,
                crate::table::text_cells_view(ts_codes@) == text_column(t, "ts_code"@),
                end_dates@ == dates_of(t, "end_date"@),
                update_flags@ == flags_of(t),
                crate::table::text_cells_view(bz_types@) == text_column(t, "bz_type"@),
                crate::table::text_cells_view(bz_items@) == text_column(t, "bz_item"@),
                rows@.map_values(|r: MainBusinessIndexedRow| indexed_view(r)) == table_rows(t, idx as nat),
            decreases table.len - idx,
        {
            let ghost before = rows@.map_values(|r: MainBusinessIndexedRow| indexed_view(r));
            proof {
                assert(crate::table::text_cells_view(ts_codes@)[idx as int] is None ==> ts_codes@[idx as int] is None);
                assert(crate::table::text_cells_view(bz_types@)[idx as int] == match bz_types@[idx as int] {
                    Some(s) => Some(s@),
                    None => None::<Seq<char>>,
                });
                assert(crate::table::text_cells_view(bz_items@)[idx as int] == match bz_items@[idx as int] {
                    Some(s) => Some(s@),
                    None => None::<Seq<char>>,
                });
            }
            match (&ts_codes[idx], end_dates[idx], update_flags[idx]) {
                (Some(ts_code), Some(end_date), Some(update_flag)) => {
                    rows.push(
                        MainBusinessIndexedRow {
                            ts_code: ts_code.clone(),
                            end_date,
                            update_flag,
                            bz_type: bz_types[idx].clone(),
                            bz_item: bz_items[idx].clone(),
                        },
                    );
                    proof {
                        assert(crate::table::text_cells_view(ts_codes@)[idx as int] == Some(ts_code@));
                        assert(row_indexed(t, idx as int));
                        assert(rows@.map_values(|r: MainBusinessIndexedRow| indexed_view(r)) =~= before.push(
                            row_view(t, idx as int),
                        ));
                    }
                },
                _ => {
                    proof {
                        assert(!row_indexed(t, idx as int));
                    }
                },
            }
            idx = idx + 1;
        }
        Ok(MainBusinessIndex { rows })
    }

    /// A reader of this index.
    pub fn reader(&self) -> (r: MainBusinessReader<'_>)
        ensures
            r.rows() == self.rows(),
    {
        MainBusinessReader { index: self }
    }

    /// The number of indexed rows.
    pub fn len(&self) -> (r: usize)
        ensures
            r == self.rows().len(),
    {
        self.rows.len()
    }
}

impl<'a> MainBusinessRecordView<'a> {
    #[verifier::type_invariant]
    spec fn position_in_index(self) -> bool {
        self.row_pos < self.index.rows@.len()
    }

    /// The rows of the index this record belongs to.
    pub closed spec fn index_rows(self) -> Seq<MainBusinessRowView> {
        self.index.rows()
    }

    /// The position of this record among the indexed rows.
    pub closed spec fn position(self) -> int {
        self.row_pos as int
    }

    /// The indexed row of this record.
    pub closed spec fn row(self) -> MainBusinessRowView {
        self.index.rows()[self.row_pos as int]
    }

    /// The period end.
    pub fn end_date(&self) -> (r: i32)
        ensures
            r == self.row().end_date,
    {
        proof {
            use_type_invariant(self);
        }
        self.index.rows[self.row_pos].end_date
    }

    /// The update flag.
    pub fn update_flag(&self) -> (r: i64)
        ensures
            r == self.row().update_flag,
    {
        proof {
            use_type_invariant(self);
        }
        self.index.rows[self.row_pos].update_flag
    }

    /// The breakdown kind.
    pub fn bz_type(&self) -> (r: Option<&'a str>)
        ensures
            match r {
                Some(s) => self.row().bz_type == Some(s@),
                None => self.row().bz_type is None,
            },
    {
        proof {
            use_type_invariant(self);
        }
        match &self.index.rows[self.row_pos].bz_type {
            Some(s) => Some(s.as_str()),
            None => None,
        }
    }

    /// The breakdown item.
    pub fn bz_item(&self) -> (r: Option<&'a str>)
        ensures
            match r {
                Some(s) => self.row().bz_item == Some(s@),
                None => self.row().bz_item is None,
            },
    {
        proof {
            use_type_invariant(self);
        }
        match &self.index.rows[self.row_pos].bz_item {
            Some(s) => Some(s.as_str()),
            None => None,
        }
    }
}

/// Whether `s` is `I` in either case.
fn is_industry_kind(s: &str) -> (r: bool)
    ensures
        r == (s@ == "I"@ || s@ == "i"@),
{
    str_eq(s, "I") || str_eq(s, "i")
}

impl<'a> MainBusinessReader<'a> {
    /// The rows the reader reads.
    pub closed spec fn rows(self) -> Seq<MainBusinessRowView> {
        self.index.rows()
    }

    /// The records of `ts_code` with period end `end_date`, in row order.
    pub fn records_for_end_date(&self, ts_code: &str, end_date: i32) -> (r: Vec<MainBusinessRecordView<'a>>)
        ensures
            r@.map_values(|v: MainBusinessRecordView<'a>| v.position()) == positions_for(
                self.rows(),
                ts_code@,
                end_date,
            ),
            forall|j: int| 0 <= j < r@.len() ==> (#[trigger] r@[j]).index_rows() == self.rows(),
            forall|j: int| 0 <= j < r@.len() ==> (#[trigger] r@[j]).row() == self.rows()[r@[j].position()],
    {
        let rows = &self.index.rows;
        let ghost view = self.rows();
        let ghost pred = |k: int| view[k].ts_code == ts_code@ && view[k].end_date == end_date;
        let mut out: Vec<MainBusinessRecordView<'a>> = Vec::new();
        let mut k: usize = 0;
        while k < rows.len()
            invariant
                k <= rows@.len(),
                view == self.rows(),
                view.len() == rows@.len(),
                *rows == self.index.rows,
                pred == (|k: int| view[k].ts_code == ts_code@ && view[k].end_date == end_date),
                out@.map_values(|v: MainBusinessRecordView<'a>| v.position()) == Seq::new(k as nat, |t: int| t).filter(
                    pred,
                ),
                forall|j: int| 0 <= j < out@.len() ==> (#[trigger] out@[j]).index_rows() == view,
                forall|j: int| 0 <= j < out@.len() ==> (#[trigger] out@[j]).row() == view[out@[j].position()],
            decreases rows@.len() - k,
        {
            proof {
                assert(Seq::new((k + 1) as nat, |t: int| t) =~= Seq::new(k as nat, |t: int| t).push(k as int));
                Seq::new(k as nat, |t: int| t).lemma_filter_push(k as int, pred);
            }
            let row = &rows[k];
            proof {
                assert(view[k as int] == indexed_view(*row));
            }
            if str_eq(row.ts_code.as_str(), ts_code) && row.end_date == end_date {
                let ghost before = out@;
                let record = MainBusinessRecordView { index: self.index, row_pos: k };
                out.push(record);
                proof {
                    assert(out@.map_values(|v: MainBusinessRecordView<'a>| v.position()) =~= before.map_values(
                        |v: MainBusinessRecordView<'a>| v.position(),
                    ).push(k as int));
                }
            }
            k = k + 1;
        }
        proof {
            assert(Seq::new(rows@.len() as nat, |t: int| t) =~= Seq::new(view.len(), |t: int| t));
        }
        out
    }

    /// The industry records of the original disclosure (update flag 0, kind
    /// `I`) of `ts_code` with period end `end_date`, in row order.
    pub fn industry_update0_records(&self, ts_code: &str, end_date: i32) -> (r: Vec<MainBusinessRecordView<'a>>)
        ensures
            r@.map_values(|v: MainBusinessRecordView<'a>| v.position()) == positions_for(
                self.rows(),
                ts_code@,
                end_date,
            ).filter(|k: int| is_industry_update0(self.rows()[k])),
            forall|j: int| 0 <= j < r@.len() ==> (#[trigger] r@[j]).index_rows() == self.rows(),
            forall|j: int| 0 <= j < r@.len() ==> (#[trigger] r@[j]).row() == self.rows()[r@[j].position()],
    {
        let records = self.records_for_end_date(ts_code, end_date);
        let ghost view = self.rows();
        let ghost ps = positions_for(view, ts_code@, end_date);
        let ghost keep = |k: int| is_industry_update0(view[k]);
        let mut out: Vec<MainBusinessRecordView<'a>> = Vec::new();
        let mut i: usize = 0;
        while i < records.len()
            invariant
                i <= records@.len(),
                view == self.rows(),
                keep == (|k: int| is_industry_update0(view[k])),
                records@.map_values(|v: MainBusinessRecordView<'a>| v.position()) == ps,
                forall|j: int| 0 <= j < records@.len() ==> (#[trigger] records@[j]).index_rows() == view,
                forall|j: int| 0 <= j < records@.len() ==> (#[trigger] records@[j]).row() == view[records@[j].position()],
                out@.map_values(|v: MainBusinessRecordView<'a>| v.position()) == ps.subrange(0, i as int).filter(keep),
                forall|j: int| 0 <= j < out@.len() ==> (#[trigger] out@[j]).index_rows() == view,
                forall|j: int| 0 <= j < out@.len() ==> (#[trigger] out@[j]).row() == view[out@[j].position()],
            decreases records@.len() - i,
        {
            proof {
                assert(ps.subrange(0, i + 1) =~= ps.subrange(0, i as int).push(ps[i as int]));
                ps.subrange(0, i as int).lemma_filter_push(ps[i as int], keep);
                assert(ps[i as int] == records@[i as int].position());
            }
            let record = records[i];
            let kind_ok = match record.bz_type() {
                Some(s) => is_industry_kind(s),
                None => false,
            };
            if record.update_flag() == 0 && kind_ok {
                let ghost before = out@;
                out.push(record);
                proof {
                    assert(out@.map_values(|v: MainBusinessRecordView<'a>| v.position()) =~= before.map_values(
                        |v: MainBusinessRecordView<'a>| v.position(),
                    ).push(record.position()));
                }
            }
            i = i + 1;
        }
        proof {
            assert(ps.subrange(0, ps.len() as int) =~= ps);
        }
        out
    }

    /// The latest period end, up to `max_end_date`, at which `ts_code` has an
    /// industry record of the original disclosure.
    pub fn latest_industry_update0_end_date(&self, ts_code: &str, max_end_date: i32) -> (r: Option<i32>)
        ensures
            match r {
                Some(e) => e <= max_end_date && has_industry_end(self.rows(), ts_code@, e) && forall|k: int|
                    0 <= k < self.rows().len() && #[trigger] self.rows()[k].ts_code == ts_code@
                        && self.rows()[k].end_date <= max_end_date && is_industry_update0(self.rows()[k])
                        ==> self.rows()[k].end_date <= e,
                None => forall|k: int|
                    0 <= k < self.rows().len() && #[trigger] self.rows()[k].ts_code == ts_code@
                        && self.rows()[k].end_date <= max_end_date ==> !is_industry_update0(self.rows()[k]),
            },
    {
        let rows = &self.index.rows;
        let ghost view = self.rows();
        let mut best: Option<i32> = None;
        let mut k: usize = 0;
        while k < rows.len()
            invariant
                k <= rows@.len(),
                view == self.rows(),
                view.len() == rows@.len(),
                *rows == self.index.rows,
                match best {
                    Some(e) => e <= max_end_date && has_industry_end(view, ts_code@, e) && forall|j: int|
                        0 <= j < k && #[trigger] view[j].ts_code == ts_code@ && view[j].end_date <= max_end_date
                            && is_industry_update0(view[j]) ==> view[j].end_date <= e,
                    None => forall|j: int|
                        0 <= j < k && #[trigger] view[j].ts_code == ts_code@ && view[j].end_date <= max_end_date
                            ==> !is_industry_update0(view[j]),
                },
            decreases rows@.len() - k,
        {
            let row = &rows[k];
            proof {
                assert(view[k as int] == indexed_view(*row));
            }
            let kind_ok = match &row.bz_type {
                Some(s) => is_industry_kind(s.as_str()),
                None => false,
            };
            if str_eq(row.ts_code.as_str(), ts_code) && row.end_date <= max_end_date && row.update_flag == 0
                && kind_ok {
                proof {
                    assert(is_industry_update0(view[k as int]));
                    assert(view[k as int].ts_code == ts_code@);
                }
                match best {
                    Some(e) => {
                        if row.end_date > e {
                            best = Some(row.end_date);
                        }
                    },
                    None => {
                        best = Some(row.end_date);
                    },
                }
            }
            k = k + 1;
        }
        best
    }
}

} // verus!
