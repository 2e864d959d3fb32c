//! Event markers: the canonical summary of which financial records (and
//! synthetic inputs) a per-stock snapshot was computed from.  Two markers are
//! equal exactly when the same records went into them, whatever the order in
//! which they were included and however often.
use vstd::prelude::*;
use crate::dates::{previous_quarter_end_date, spec_previous_quarter_end_date, trunc_div, trunc_rem};
use crate::financial_pit::{
    FinancialPitReader,
    IndexedRow,
    PitFinancialRecordView,
    latest_end,
    seen_record,
};

verus! {

/// The statement a financial record comes from.
#[derive(Clone, Copy, Debug, PartialEq, Eq, Structural, Hash, PartialOrd, Ord)]
pub enum FinancialStatementDataset {
    Income,
    BalanceSheet,
    CashFlow,
}

/// Position of a dataset in declaration order.
pub open spec fn dataset_rank(d: FinancialStatementDataset) -> int {
    match d {
        FinancialStatementDataset::Income => 0,
        FinancialStatementDataset::BalanceSheet => 1,
        FinancialStatementDataset::CashFlow => 2,
    }
}

/// Identity of one disclosed version of a financial statement.
#[derive(Clone, Copy, Debug, PartialEq, Eq, Structural, Hash, PartialOrd, Ord)]
pub struct FinancialRecordMarker {
    pub dataset: FinancialStatementDataset,
    pub end_date: i32,
    pub disclosure_date: i32,
    pub report_type: i64,
    pub update_flag: i64,
}

impl FinancialRecordMarker {
    /// A marker with the given fields.
    pub fn from_fields(
        dataset: FinancialStatementDataset,
        end_date: i32,
        disclosure_date: i32,
        report_type: i64,
        update_flag: i64,
    ) -> (r: Self)
        ensures
            r == (FinancialRecordMarker {
                dataset,
                end_date,
                disclosure_date,
                report_type,
                update_flag,
            }),
    {
        FinancialRecordMarker { dataset, end_date, disclosure_date, report_type, update_flag }
    }

    /// The marker of the version `record` shows.
    pub fn from_record_view(dataset: FinancialStatementDataset, record: &PitFinancialRecordView<'_>) -> (r:
        Self)
        ensures
            r == marker_of(dataset, record.row()),
    {
        Self::from_fields(
            dataset,
            record.end_date(),
            record.disclosure_date(),
            record.report_type(),
            record.update_flag(),
        )
    }
}

/// The marker of an indexed version.
pub open spec fn marker_of(dataset: FinancialStatementDataset, row: IndexedRow) -> FinancialRecordMarker {
    FinancialRecordMarker {
        dataset,
        end_date: row.end_date,
        disclosure_date: row.disclosure_date,
        report_type: row.report_type,
        update_flag: row.update_flag,
    }
}

/// A keyed integer that stands for an input that is not a statement record.
#[derive(Clone, Copy, Debug, PartialEq, Eq, Hash, PartialOrd, Ord)]
pub struct FinancialSyntheticMarker {
    pub key: &'static str,
    pub value: i64,
}

/// Abstract content of a synthetic marker: its key's characters and its value.
pub open spec fn synthetic_view(m: FinancialSyntheticMarker) -> (Seq<char>, i64) {
    (m.key@, m.value)
}

/// The synthetic markers of a list, by content.
pub open spec fn synthetics_view(v: Seq<FinancialSyntheticMarker>) -> Seq<(Seq<char>, i64)> {
    v.map_values(|m: FinancialSyntheticMarker| synthetic_view(m))
}

/// Lexicographic order on character sequences by code point; a proper
/// prefix comes first.
pub open spec fn chars_lt(a: Seq<char>, b: Seq<char>) -> bool
    decreases a.len(),
{
    if a.len() == 0 {
        b.len() > 0
    } else if b.len() == 0 {
        false
    } else if a[0] != b[0] {
        (a[0] as int) < (b[0] as int)
    } else {
        chars_lt(a.drop_first(), b.drop_first())
    }
}

/// The order of record markers: by dataset, end date, disclosure date,
/// report type, then update flag.
pub open spec fn record_lt(a: FinancialRecordMarker, b: FinancialRecordMarker) -> bool {
    if dataset_rank(a.dataset) != dataset_rank(b.dataset) {
        dataset_rank(a.dataset) < dataset_rank(b.dataset)
    } else if a.end_date != b.end_date {
        a.end_date < b.end_date
    } else if a.disclosure_date != b.disclosure_date {
        a.disclosure_date < b.disclosure_date
    } else if a.report_type != b.report_type {
        a.report_type < b.report_type
    } else {
        a.update_flag < b.update_flag
    }
}

/// The order of synthetic markers: by key, then value.
pub open spec fn synthetic_lt(a: (Seq<char>, i64), b: (Seq<char>, i64)) -> bool {
    chars_lt(a.0, b.0) || (a.0 == b.0 && a.1 < b.1)
}

/// Whether `s` is strictly increasing under `lt` (so holds no element twice).
pub open spec fn strictly_sorted<A>(s: Seq<A>, lt: spec_fn(A, A) -> bool) -> bool {
    forall|i: int, j: int| 0 <= i < j < s.len() ==> #[trigger] lt(s[i], s[j])
}

/// Whether `lt` is irreflexive and transitive.
pub open spec fn strict_order<A>(lt: spec_fn(A, A) -> bool) -> bool {
    &&& forall|x: A| !#[trigger] lt(x, x)
    &&& forall|x: A, y: A, z: A| #[trigger] lt(x, y) && #[trigger] lt(y, z) ==> lt(x, z)
}

/// Whether `s` and `t` hold the same elements.
pub open spec fn same_members<A>(s: Seq<A>, t: Seq<A>) -> bool {
    forall|x: A| s.contains(x) <==> t.contains(x)
}

proof fn lemma_chars_lt_irreflexive(a: Seq<char>)
    ensures
        !chars_lt(a, a),
    decreases a.len(),
{
    if a.len() > 0 {
        lemma_chars_lt_irreflexive(a.drop_first());
    }
}

proof fn lemma_chars_lt_transitive(a: Seq<char>, b: Seq<char>, c: Seq<char>)
    requires
        chars_lt(a, b),
        chars_lt(b, c),
    ensures
        chars_lt(a, c),
    decreases a.len(),
{
    if a.len() > 0 && b.len() > 0 && c.len() > 0 && a[0] == b[0] && b[0] == c[0] {
        lemma_chars_lt_transitive(a.drop_first(), b.drop_first(), c.drop_first());
    }
}

proof fn lemma_chars_lt_total(a: Seq<char>, b: Seq<char>)
    requires
        a != b,
    ensures
        chars_lt(a, b) || chars_lt(b, a),
    decreases a.len(),
{
    if a.len() > 0 && b.len() > 0 && a[0] == b[0] {
        if a.drop_first() == b.drop_first() {
            assert(a =~= seq![a[0]] + a.drop_first());
            assert(b =~= seq![b[0]] + b.drop_first());
        }
        lemma_chars_lt_total(a.drop_first(), b.drop_first());
    } else if a.len() > 0 && b.len() > 0 {
        assert((a[0] as int) != (b[0] as int));
    } else if a.len() == 0 && b.len() == 0 {
        assert(a =~= b);
    }
}

/// The record order is a strict total order.
pub proof fn lemma_record_order()
    ensures
        strict_order(|a: FinancialRecordMarker, b: FinancialRecordMarker| record_lt(a, b)),
        forall|a: FinancialRecordMarker, b: FinancialRecordMarker|
            a != b ==> #[trigger] record_lt(a, b) || record_lt(b, a),
{
    assert forall|a: FinancialRecordMarker, b: FinancialRecordMarker| a != b implies #[trigger] record_lt(
        a,
        b,
    ) || record_lt(b, a) by {
        if dataset_rank(a.dataset) == dataset_rank(b.dataset) {
            assert(a.dataset == b.dataset);
        }
    }
}

/// The synthetic order is a strict total order.
pub proof fn lemma_synthetic_order()
    ensures
        strict_order(|a: (Seq<char>, i64), b: (Seq<char>, i64)| synthetic_lt(a, b)),
        forall|a: (Seq<char>, i64), b: (Seq<char>, i64)|
            a != b ==> #[trigger] synthetic_lt(a, b) || synthetic_lt(b, a),
        forall|x: (Seq<char>, i64), y: (Seq<char>, i64), z: (Seq<char>, i64)|
            #[trigger] synthetic_lt(x, y) && #[trigger] synthetic_lt(y, z) ==> synthetic_lt(x, z),
{
    assert forall|x: (Seq<char>, i64)| !#[trigger] synthetic_lt(x, x) by {
        lemma_chars_lt_irreflexive(x.0);
    }
    assert forall|x: (Seq<char>, i64), y: (Seq<char>, i64), z: (Seq<char>, i64)| #[trigger]
        synthetic_lt(x, y) && #[trigger] synthetic_lt(y, z) implies synthetic_lt(x, z) by {
        if chars_lt(x.0, y.0) && chars_lt(y.0, z.0) {
            lemma_chars_lt_transitive(x.0, y.0, z.0);
        }
    }
    assert forall|a: (Seq<char>, i64), b: (Seq<char>, i64)| a != b implies #[trigger] synthetic_lt(
        a,
        b,
    ) || synthetic_lt(b, a) by {
        if a.0 != b.0 {
            lemma_chars_lt_total(a.0, b.0);
        }
    }
}

/// Two strictly sorted sequences with the same members are the same sequence.
pub proof fn lemma_sorted_members_determine<A>(s: Seq<A>, t: Seq<A>, lt: spec_fn(A, A) -> bool)
    requires
        strict_order(lt),
        strictly_sorted(s, lt),
        strictly_sorted(t, lt),
        same_members(s, t),
    ensures
        s == t,
    decreases s.len(),
{
    if s.len() == 0 {
        if t.len() > 0 {
            assert(t.contains(t[0]));
        }
        assert(s =~= t);
    } else if t.len() == 0 {
        assert(s.contains(s[0]));
    } else {
        if s[0] != t[0] {
            assert(s.contains(s[0]));
            let j = choose|j: int| 0 <= j < t.len() && t[j] == s[0];
            assert(t.contains(t[0]));
            let i = choose|i: int| 0 <= i < s.len() && s[i] == t[0];
            assert(i != 0);
            assert(j != 0);
            assert(lt(s[0], s[i]));
            assert(lt(t[0], t[j]));
            assert(lt(s[0], s[0]));
        }
        let s1 = s.drop_first();
        let t1 = t.drop_first();
        assert forall|i: int, j: int| 0 <= i < j < s1.len() implies #[trigger] lt(s1[i], s1[j]) by {
            assert(lt(s[i + 1], s[j + 1]));
        }
        assert forall|i: int, j: int| 0 <= i < j < t1.len() implies #[trigger] lt(t1[i], t1[j]) by {
            assert(lt(t[i + 1], t[j + 1]));
        }
        assert forall|x: A| s1.contains(x) implies t1.contains(x) by {
            let i = choose|i: int| 0 <= i < s1.len() && s1[i] == x;
            assert(s.contains(x) && s[i + 1] == x);
            assert(lt(s[0], s[i + 1]));
            let j = choose|j: int| 0 <= j < t.len() && t[j] == x;
            if j == 0 {
                assert(lt(x, x));
            }
            assert(t1[j - 1] == x);
        }
        assert forall|x: A| t1.contains(x) implies s1.contains(x) by {
            let j = choose|j: int| 0 <= j < t1.len() && t1[j] == x;
            assert(t.contains(x) && t[j + 1] == x);
            assert(lt(t[0], t[j + 1]));
            let i = choose|i: int| 0 <= i < s.len() && s[i] == x;
            if i == 0 {
                assert(lt(x, x));
            }
            assert(s1[i - 1] == x);
        }
        lemma_sorted_members_determine(s1, t1, lt);
        assert(s =~= seq![s[0]] + s1);
        assert(t =~= seq![t[0]] + t1);
    }
}

/// Whether `a` orders before `b` under [`record_lt`].
fn record_before(a: &FinancialRecordMarker, b: &FinancialRecordMarker) -> (r: bool)
    ensures
        r == record_lt(*a, *b),
{
    let ra: u8 = match a.dataset {
        FinancialStatementDataset::Income => 0,
        FinancialStatementDataset::BalanceSheet => 1,
        FinancialStatementDataset::CashFlow => 2,
    };
    let rb: u8 = match b.dataset {
        FinancialStatementDataset::Income => 0,
        FinancialStatementDataset::BalanceSheet => 1,
        FinancialStatementDataset::CashFlow => 2,
    };
    if ra != rb {
        ra < rb
    } else if a.end_date != b.end_date {
        a.end_date < b.end_date
    } else if a.disclosure_date != b.disclosure_date {
        a.disclosure_date < b.disclosure_date
    } else if a.report_type != b.report_type {
        a.report_type < b.report_type
    } else {
        a.update_flag < b.update_flag
    }
}

/// Whether `a` orders before `b` under [`chars_lt`].
fn str_before(a: &str, b: &str) -> (r: bool)
    ensures
        r == chars_lt(a@, b@),
{
    let n = a.unicode_len();
    let m = b.unicode_len();
    let mut i: usize = 0;
    proof {
        assert(a@.skip(0) =~= a@);
        assert(b@.skip(0) =~= b@);
    }
    while i < n && i < m
        invariant
            n == a@.len(),
            m == b@.len(),
            i <= n,
            i <= m,
            chars_lt(a@, b@) == chars_lt(a@.skip(i as int), b@.skip(i as int)),
        decreases n - i,
    {
        let x = a.get_char(i);
        let y = b.get_char(i);
        if x != y {
            proof {
                assert(a@.skip(i as int)[0] == x);
                assert(b@.skip(i as int)[0] == y);
            }
            return (x as u32) < (y as u32);
        }
        proof {
            assert(a@.skip(i as int).drop_first() =~= a@.skip(i + 1));
            assert(b@.skip(i as int).drop_first() =~= b@.skip(i + 1));
        }
        i = i + 1;
    }
    i < m && i == n
}

/// Whether `a` orders before `b` under [`synthetic_lt`].
fn synthetic_before(a: &FinancialSyntheticMarker, b: &FinancialSyntheticMarker) -> (r: bool)
    ensures
        r == synthetic_lt(synthetic_view(*a), synthetic_view(*b)),
{
    if str_before(a.key, b.key) {
        true
    } else if crate::catalog::str_eq(a.key, b.key) {
        a.value < b.value
    } else {
        false
    }
}

/// Adds `x` to the strictly sorted `v`, unless it is there already.
fn insert_record(v: &mut Vec<FinancialRecordMarker>, x: FinancialRecordMarker)
    requires
        strictly_sorted(old(v)@, |a: FinancialRecordMarker, b: FinancialRecordMarker| record_lt(a, b)),
    ensures
        strictly_sorted(final(v)@, |a: FinancialRecordMarker, b: FinancialRecordMarker| record_lt(a, b)),
        forall|y: FinancialRecordMarker| #[trigger] final(v)@.contains(y) <==> old(v)@.contains(y) || y == x,
{
    proof {
        lemma_record_order();
    }
    let ghost lt = |a: FinancialRecordMarker, b: FinancialRecordMarker| record_lt(a, b);
    let mut p: usize = 0;
    while p < v.len() && record_before(&v[p], &x)
        invariant
            p <= v@.len(),
            forall|i: int| 0 <= i < p ==> record_lt(#[trigger] v@[i], x),
        decreases v@.len() - p,
    {
        p = p + 1;
    }
    if p < v.len() && v[p] == x {
        return;
    }
    let ghost before = v@;
    v.insert(p, x);
    proof {
        assert forall|i: int, j: int| 0 <= i < j < v@.len() implies #[trigger] lt(v@[i], v@[j]) by {
            if j < p {
                assert(lt(before[i], before[j]));
            } else if j == p {
                assert(record_lt(before[i], x));
            } else if i == p {
                assert(record_lt(x, before[p as int]));
                if j - 1 > p {
                    assert(lt(before[p as int], before[j - 1]));
                }
            } else if i < p {
                assert(record_lt(before[i], x));
                assert(record_lt(x, before[p as int]));
                if j - 1 > p {
                    assert(lt(before[p as int], before[j - 1]));
                }
            } else {
                assert(lt(before[i - 1], before[j - 1]));
            }
        }
        assert forall|y: FinancialRecordMarker| #[trigger] v@.contains(y) <==> before.contains(y)
            || y == x by {
            if before.contains(y) {
                let i = choose|i: int| 0 <= i < before.len() && before[i] == y;
                if i < p {
                    assert(v@[i] == y);
                } else {
                    assert(v@[i + 1] == y);
                }
            }
            if y == x {
                assert(v@[p as int] == x);
            }
            if v@.contains(y) {
                let i = choose|i: int| 0 <= i < v@.len() && v@[i] == y;
                if i < p {
                    assert(before[i] == y);
                } else if i > p {
                    assert(before[i - 1] == y);
                }
            }
        }
    }
}

/// Adds `x` to the strictly sorted `v`, unless an equal marker is there already.
fn insert_synthetic(v: &mut Vec<FinancialSyntheticMarker>, x: FinancialSyntheticMarker)
    requires
        strictly_sorted(
            synthetics_view(old(v)@),
            |a: (Seq<char>, i64), b: (Seq<char>, i64)| synthetic_lt(a, b),
        ),
    ensures
        strictly_sorted(
            synthetics_view(final(v)@),
            |a: (Seq<char>, i64), b: (Seq<char>, i64)| synthetic_lt(a, b),
        ),
        forall|y: (Seq<char>, i64)| #[trigger] synthetics_view(final(v)@).contains(y) <==> synthetics_view(
            old(v)@,
        ).contains(y) || y == synthetic_view(x),
{
    proof {
        lemma_synthetic_order();
    }
    let ghost lt = |a: (Seq<char>, i64), b: (Seq<char>, i64)| synthetic_lt(a, b);
    let ghost xv = synthetic_view(x);
    let mut p: usize = 0;
    while p < v.len() && synthetic_before(&v[p], &x)
        invariant
            p <= v@.len(),
            xv == synthetic_view(x),
            forall|i: int| 0 <= i < p ==> synthetic_lt(#[trigger] synthetics_view(v@)[i], xv),
        decreases v@.len() - p,
    {
        p = p + 1;
    }
    if p < v.len() && crate::catalog::str_eq(v[p].key, x.key) && v[p].value == x.value {
        proof {
            let sv = synthetics_view(v@);
            assert(sv[p as int] == xv);
            assert forall|y: (Seq<char>, i64)| #[trigger] sv.contains(y) <==> sv.contains(y)
                || y == xv by {
                if y == xv {
                    assert(sv[p as int] == y);
                }
            }
        }
        return;
    }
    let ghost before = synthetics_view(v@);
    v.insert(p, x);
    proof {
        let after = synthetics_view(v@);
        assert(after =~= before.insert(p as int, xv));
        assert(strictly_sorted(before, lt));
        assert(forall|i: int| 0 <= i < p ==> synthetic_lt(#[trigger] before[i], xv));
        assert(p < before.len() ==> synthetic_lt(xv, before[p as int])) by {
            if p < before.len() {
                assert(before[p as int] != xv);
                assert(!synthetic_lt(before[p as int], xv));
            }
        }
        assert forall|i: int, j: int| 0 <= i < j < after.len() implies #[trigger] lt(
            after[i],
            after[j],
        ) by {
            if j < p {
                assert(lt(before[i], before[j]));
            } else if j == p {
                assert(synthetic_lt(before[i], xv));
            } else if i == p {
                if j - 1 > p {
                    assert(lt(before[p as int], before[j - 1]));
                }
            } else if i < p {
                assert(synthetic_lt(before[i], xv));
                if j - 1 > p {
                    assert(lt(before[p as int], before[j - 1]));
                }
            } else {
                assert(lt(before[i - 1], before[j - 1]));
            }
        }
        assert forall|y: (Seq<char>, i64)| #[trigger] after.contains(y) <==> before.contains(y)
            || y == xv by {
            if before.contains(y) {
                let i = choose|i: int| 0 <= i < before.len() && before[i] == y;
                if i < p {
                    assert(after[i] == y);
                } else {
                    assert(after[i + 1] == y);
                }
            }
            if y == xv {
                assert(after[p as int] == xv);
            }
            if after.contains(y) {
                let i = choose|i: int| 0 <= i < after.len() && after[i] == y;
                if i < p {
                    assert(before[i] == y);
                } else if i > p {
                    assert(before[i - 1] == y);
                }
            }
        }
    }
}

/// Abstract content of a marker or a marker builder: record markers and
/// synthetic markers by content.
pub type MarkerContent = (Seq<FinancialRecordMarker>, Seq<(Seq<char>, i64)>);

/// Whether a marker content is in canonical form: each part strictly sorted.
pub open spec fn canonical(m: MarkerContent) -> bool {
    &&& strictly_sorted(m.0, |a: FinancialRecordMarker, b: FinancialRecordMarker| record_lt(a, b))
    &&& strictly_sorted(m.1, |a: (Seq<char>, i64), b: (Seq<char>, i64)| synthetic_lt(a, b))
}

/// The canonical summary of the inputs of a snapshot: sorted, without repeats.
#[derive(Debug, PartialEq, Eq)]
pub struct FinancialEventMarker {
    records: Vec<FinancialRecordMarker>,
    synthetic: Vec<FinancialSyntheticMarker>,
}

impl View for FinancialEventMarker {
    type V = MarkerContent;

    closed spec fn view(&self) -> MarkerContent {
        (self.records@, synthetics_view(self.synthetic@))
    }
}

impl Clone for FinancialEventMarker {
    fn clone(&self) -> (r: Self)
        ensures
            r@ == self@,
    {
        FinancialEventMarker { records: copy_records(&self.records), synthetic: copy_synthetic(&self.synthetic) }
    }
}

fn copy_records(v: &Vec<FinancialRecordMarker>) -> (r: Vec<FinancialRecordMarker>)
    ensures
        r@ == v@,
{
    let mut out: Vec<FinancialRecordMarker> = Vec::new();
    let mut i: usize = 0;
    while i < v.len()
        invariant
            i <= v@.len(),
            out@ =~= v@.subrange(0, i as int),
        decreases v@.len() - i,
    {
        out.push(v[i]);
        i = i + 1;
    }
    out
}

fn copy_synthetic(v: &Vec<FinancialSyntheticMarker>) -> (r: Vec<FinancialSyntheticMarker>)
    ensures
        synthetics_view(r@) == synthetics_view(v@),
{
    let mut out: Vec<FinancialSyntheticMarker> = Vec::new();
    let mut i: usize = 0;
    while i < v.len()
        invariant
            i <= v@.len(),
            out@ =~= v@.subrange(0, i as int),
        decreases v@.len() - i,
    {
        out.push(v[i]);
        i = i + 1;
    }
    out
}

impl FinancialEventMarker {
    /// Whether the marker holds nothing.
    pub fn is_empty(&self) -> (r: bool)
        ensures
            r == (self@.0.len() == 0 && self@.1.len() == 0),
    {
        self.records.len() == 0 && self.synthetic.len() == 0
    }

    /// Whether `self` and `other` hold the same markers in the same order.
    pub fn same_as(&self, other: &FinancialEventMarker) -> (r: bool)
        ensures
            r == (self@ == other@),
    {
        if self.records.len() != other.records.len() || self.synthetic.len() != other.synthetic.len() {
            proof {
                assert(self@.0.len() == self.records@.len());
                assert(other@.0.len() == other.records@.len());
                assert(self@.1.len() == self.synthetic@.len());
                assert(other@.1.len() == other.synthetic@.len());
            }
            return false;
        }
        let mut i: usize = 0;
        while i < self.records.len()
            invariant
                i <= self.records@.len(),
                self.records@.len() == other.records@.len(),
                forall|j: int| 0 <= j < i ==> self.records@[j] == other.records@[j],
            decreases self.records@.len() - i,
        {
            if self.records[i] != other.records[i] {
                proof {
                    assert(self@.0[i as int] != other@.0[i as int]);
                }
                return false;
            }
            i = i + 1;
        }
        assert(self.records@ =~= other.records@);
        let ghost a = synthetics_view(self.synthetic@);
        let ghost b = synthetics_view(other.synthetic@);
        let mut k: usize = 0;
        while k < self.synthetic.len()
            invariant
                k <= self.synthetic@.len(),
                self.synthetic@.len() == other.synthetic@.len(),
                a == synthetics_view(self.synthetic@),
                b == synthetics_view(other.synthetic@),
                forall|j: int| 0 <= j < k ==> a[j] == b[j],
            decreases self.synthetic@.len() - k,
        {
            if !crate::catalog::str_eq(self.synthetic[k].key, other.synthetic[k].key)
                || self.synthetic[k].value != other.synthetic[k].value {
                proof {
                    assert(a[k as int] != b[k as int]);
                }
                return false;
            }
            k = k + 1;
        }
        assert(a =~= b);
        true
    }
}

/// Collects the records and synthetic inputs of a snapshot.
#[derive(Clone, Debug)]
pub struct FinancialEventMarkerBuilder {
    records: Vec<FinancialRecordMarker>,
    synthetic: Vec<FinancialSyntheticMarker>,
}

impl View for FinancialEventMarkerBuilder {
    type V = MarkerContent;

    closed spec fn view(&self) -> MarkerContent {
        (self.records@, synthetics_view(self.synthetic@))
    }
}

impl Default for FinancialEventMarkerBuilder {
    fn default() -> (r: Self)
        ensures
            r@.0.len() == 0,
            r@.1.len() == 0,
    {
        FinancialEventMarkerBuilder { records: Vec::new(), synthetic: Vec::new() }
    }
}

impl FinancialEventMarkerBuilder {
    /// An empty builder.
    pub fn new() -> (r: Self)
        ensures
            r@.0.len() == 0,
            r@.1.len() == 0,
    {
        FinancialEventMarkerBuilder { records: Vec::new(), synthetic: Vec::new() }
    }

    /// Includes the record marker `m`.
    pub(crate) fn include_record(&mut self, m: FinancialRecordMarker)
        ensures
            final(self)@ == (old(self)@.0.push(m), old(self)@.1),
    {
        self.records.push(m);
        proof {
            assert(synthetics_view(self.synthetic@) == old(self)@.1);
        }
    }

    /// Includes the synthetic input `key` = `value`.
    pub fn include_synthetic(&mut self, key: &'static str, value: i64) -> (r: &mut Self)
        ensures
            r@ == (old(self)@.0, old(self)@.1.push((key@, value))),
            final(self)@ == final(r)@,
    {
        let ghost before = self.synthetic@;
        self.synthetic.push(FinancialSyntheticMarker { key, value });
        proof {
            assert(synthetics_view(self.synthetic@) =~= synthetics_view(before).push((key@, value)));
        }
        self
    }

    /// The canonical marker of what was included: each part sorted, with
    /// repeats removed; `None` when nothing was included.
    pub fn build(self) -> (r: Option<FinancialEventMarker>)
        ensures
            r is None <==> (self@.0.len() == 0 && self@.1.len() == 0),
            r matches Some(m) ==> canonical(m@) && same_members(m@.0, self@.0) && same_members(
                m@.1,
                self@.1,
            ),
    {
        let mut records: Vec<FinancialRecordMarker> = Vec::new();
        let mut i: usize = 0;
        while i < self.records.len()
            invariant
                i <= self.records@.len(),
                strictly_sorted(records@, |a: FinancialRecordMarker, b: FinancialRecordMarker| record_lt(a, b)),
                forall|y: FinancialRecordMarker| #[trigger] records@.contains(y) <==> self.records@.subrange(0, i as int).contains(y),
            decreases self.records@.len() - i,
        {
            let ghost before = records@;
            insert_record(&mut records, self.records[i]);
            proof {
                let pre = self.records@.subrange(0, i as int);
                let post = self.records@.subrange(0, i + 1);
                assert(post =~= pre.push(self.records@[i as int]));
                assert forall|y: FinancialRecordMarker| #[trigger] records@.contains(y) <==> post.contains(y) by {
                    if post.contains(y) {
                        let j = choose|j: int| 0 <= j < post.len() && post[j] == y;
                        if j < i {
                            assert(pre[j] == y);
                        }
                    }
                    if pre.contains(y) {
                        let j = choose|j: int| 0 <= j < pre.len() && pre[j] == y;
                        assert(post[j] == y);
                    }
                    if y == self.records@[i as int] {
                        assert(post[i as int] == y);
                    }
                    assert(before.contains(y) <==> pre.contains(y));
                }
            }
            i = i + 1;
        }
        let ghost sv = synthetics_view(self.synthetic@);
        let mut synthetic: Vec<FinancialSyntheticMarker> = Vec::new();
        let mut k: usize = 0;
        while k < self.synthetic.len()
            invariant
                k <= self.synthetic@.len(),
                sv == synthetics_view(self.synthetic@),
                strictly_sorted(
                    synthetics_view(synthetic@),
                    |a: (Seq<char>, i64), b: (Seq<char>, i64)| synthetic_lt(a, b),
                ),
                forall|y: (Seq<char>, i64)| #[trigger] synthetics_view(synthetic@).contains(y) <==> sv.subrange(0, k as int).contains(y),
            decreases self.synthetic@.len() - k,
        {
            let ghost before = synthetics_view(synthetic@);
            insert_synthetic(&mut synthetic, self.synthetic[k]);
            proof {
                let pre = sv.subrange(0, k as int);
                let post = sv.subrange(0, k + 1);
                assert(post =~= pre.push(sv[k as int]));
                assert forall|y: (Seq<char>, i64)| #[trigger] synthetics_view(synthetic@).contains(y) <==> post.contains(y) by {
                    if post.contains(y) {
                        let j = choose|j: int| 0 <= j < post.len() && post[j] == y;
                        if j < k {
                            assert(pre[j] == y);
                        }
                    }
                    if pre.contains(y) {
                        let j = choose|j: int| 0 <= j < pre.len() && pre[j] == y;
                        assert(post[j] == y);
                    }
                    if y == sv[k as int] {
                        assert(post[k as int] == y);
                    }
                    assert(before.contains(y) <==> pre.contains(y));
                }
            }
            k = k + 1;
        }
        proof {
            assert(self.records@.subrange(0, self.records@.len() as int) =~= self.records@);
            assert(sv.subrange(0, sv.len() as int) =~= sv);
            if self.records@.len() > 0 {
                assert(self.records@.contains(self.records@[0]));
                assert(records@.contains(self.records@[0]));
            }
            if sv.len() > 0 {
                assert(sv.contains(sv[0]));
                assert(synthetics_view(synthetic@).contains(sv[0]));
            }
            if records@.len() > 0 {
                assert(records@.contains(records@[0]));
            }
            if synthetic@.len() > 0 {
                assert(synthetics_view(synthetic@).contains(synthetics_view(synthetic@)[0]));
            }
        }
        if records.len() == 0 && synthetic.len() == 0 {
            None
        } else {
            Some(FinancialEventMarker { records, synthetic })
        }
    }
}

/// Canonical markers are equal exactly when they hold the same record markers
/// and the same synthetic markers: neither the order in which inputs were
/// included nor repeated inclusion changes a built marker.
pub proof fn lemma_canonical_markers_equal_iff_same_members(a: MarkerContent, b: MarkerContent)
    requires
        canonical(a),
        canonical(b),
    ensures
        a == b <==> (same_members(a.0, b.0) && same_members(a.1, b.1)),
{
    if same_members(a.0, b.0) && same_members(a.1, b.1) {
        lemma_record_order();
        lemma_synthetic_order();
        lemma_sorted_members_determine(
            a.0,
            b.0,
            |x: FinancialRecordMarker, y: FinancialRecordMarker| record_lt(x, y),
        );
        lemma_sorted_members_determine(
            a.1,
            b.1,
            |x: (Seq<char>, i64), y: (Seq<char>, i64)| synthetic_lt(x, y),
        );
    }
}

/// `m` with the record marker `rec` added, if there is one.
pub open spec fn with_record(m: MarkerContent, rec: Option<FinancialRecordMarker>) -> MarkerContent {
    match rec {
        Some(x) => (m.0.push(x), m.1),
        None => m,
    }
}

/// The marker of the version a reader sees of the `end` statement of `code` on `trade`.
pub open spec fn seen_marker(
    dataset: FinancialStatementDataset,
    rows: Seq<IndexedRow>,
    pref: Seq<i64>,
    code: Seq<char>,
    trade: i32,
    end: i32,
) -> Option<FinancialRecordMarker> {
    match seen_record(rows, pref, code, trade, end) {
        Some(row) => Some(marker_of(dataset, row)),
        None => None,
    }
}

/// An optional date widened to `int`.
pub open spec fn opt_int(o: Option<i32>) -> Option<int> {
    match o {
        Some(x) => Some(x as int),
        None => None,
    }
}

/// `m` with the seen versions of up to `steps` quarters added, starting at
/// `end` and stepping back one quarter at a time while there is a quarter to
/// step back to.
pub open spec fn with_quarters(
    m: MarkerContent,
    dataset: FinancialStatementDataset,
    rows: Seq<IndexedRow>,
    pref: Seq<i64>,
    code: Seq<char>,
    trade: i32,
    end: Option<int>,
    steps: nat,
) -> MarkerContent
    decreases steps,
{
    if steps == 0 {
        m
    } else {
        match end {
            None => m,
            Some(e) => with_quarters(
                with_record(m, seen_marker(dataset, rows, pref, code, trade, e as i32)),
                dataset,
                rows,
                pref,
                code,
                trade,
                spec_previous_quarter_end_date(e),
                (steps - 1) as nat,
            ),
        }
    }
}

/// `m` with the seen year-end versions of `count` years added, from `year`
/// back.
pub open spec fn with_years(
    m: MarkerContent,
    dataset: FinancialStatementDataset,
    rows: Seq<IndexedRow>,
    pref: Seq<i64>,
    code: Seq<char>,
    trade: i32,
    year: int,
    count: nat,
) -> MarkerContent
    decreases count,
{
    if count == 0 {
        m
    } else {
        with_years(
            with_record(m, seen_marker(dataset, rows, pref, code, trade, (year * 10000 + 1231) as i32)),
            dataset,
            rows,
            pref,
            code,
            trade,
            year - 1,
            (count - 1) as nat,
        )
    }
}

impl FinancialEventMarkerBuilder {
    /// Includes the version `record` shows, if any.
    pub fn include_record_view(
        &mut self,
        dataset: FinancialStatementDataset,
        record: Option<PitFinancialRecordView<'_>>,
    ) -> (r: &mut Self)
        ensures
            r@ == with_record(
                old(self)@,
                match record {
                    Some(v) => Some(marker_of(dataset, v.row())),
                    None => None,
                },
            ),
            final(self)@ == final(r)@,
    {
        if let Some(record) = record {
            self.include_record(FinancialRecordMarker::from_record_view(dataset, &record));
        }
        self
    }

    /// Includes the version of the `end_date` statement of `ts_code` that
    /// `data` sees on `trade_date`, if any.
    pub fn include_reader_record_for_end_date(
        &mut self,
        dataset: FinancialStatementDataset,
        data: &FinancialPitReader<'_>,
        ts_code: &str,
        trade_date: i32,
        end_date: i32,
    ) -> (r: &mut Self)
        ensures
            r@ == with_record(
                old(self)@,
                seen_marker(dataset, data.rows(), data.preference_view(), ts_code@, trade_date, end_date),
            ),
            final(self)@ == final(r)@,
    {
        let record = data.record_for_end_date(ts_code, trade_date, end_date);
        self.include_record_view(dataset, record)
    }

    /// Includes the seen versions of the four quarters ending at `end_date`.
    pub fn include_reader_ttm_for_end_date(
        &mut self,
        dataset: FinancialStatementDataset,
        data: &FinancialPitReader<'_>,
        ts_code: &str,
        trade_date: i32,
        end_date: i32,
    ) -> (r: &mut Self)
        ensures
            r@ == with_quarters(
                old(self)@,
                dataset,
                data.rows(),
                data.preference_view(),
                ts_code@,
                trade_date,
                Some(end_date as int),
                4,
            ),
            final(self)@ == final(r)@,
    {
        self.add_quarters(dataset, data, ts_code, trade_date, end_date);
        self
    }

    fn add_quarters(
        &mut self,
        dataset: FinancialStatementDataset,
        data: &FinancialPitReader<'_>,
        ts_code: &str,
        trade_date: i32,
        end_date: i32,
    )
        ensures
            final(self)@ == with_quarters(
                old(self)@,
                dataset,
                data.rows(),
                data.preference_view(),
                ts_code@,
                trade_date,
                Some(end_date as int),
                4,
            ),
    {
        let ghost rows = data.rows();
        let ghost pref = data.preference_view();
        let ghost target = with_quarters(
            self@,
            dataset,
            rows,
            pref,
            ts_code@,
            trade_date,
            Some(end_date as int),
            4,
        );
        let mut current: Option<i32> = Some(end_date);
        let mut step: usize = 0;
        while step < 4
            invariant
                step <= 4,
                rows == data.rows(),
                pref == data.preference_view(),
                target == with_quarters(
                    self@,
                    dataset,
                    rows,
                    pref,
                    ts_code@,
                    trade_date,
                    opt_int(current),
                    (4 - step) as nat,
                ),
            ensures
                target == self@,
            decreases 4 - step,
        {
            let e = match current {
                Some(e) => e,
                None => {
                    break;
                },
            };
            self.include_reader_record_for_end_date(dataset, data, ts_code, trade_date, e);
            current = previous_quarter_end_date(e);
            proof {
                assert(opt_int(current) == spec_previous_quarter_end_date(e as int));
            }
            step = step + 1;
        }
    }

    /// Includes the trailing four quarters ending at the latest end date that
    /// `data` sees for `ts_code` on `trade_date`.
    pub fn include_reader_latest_ttm(
        &mut self,
        dataset: FinancialStatementDataset,
        data: &FinancialPitReader<'_>,
        ts_code: &str,
        trade_date: i32,
    ) -> (r: &mut Self)
        ensures
            r@ == match latest_end(data.rows(), data.preference_view(), ts_code@, trade_date, false) {
                Some(e) => with_quarters(
                    old(self)@,
                    dataset,
                    data.rows(),
                    data.preference_view(),
                    ts_code@,
                    trade_date,
                    Some(e as int),
                    4,
                ),
                None => old(self)@,
            },
            final(self)@ == final(r)@,
    {
        if let Some(end_date) = data.latest_quarter_end_date(ts_code, trade_date) {
            self.add_quarters(dataset, data, ts_code, trade_date, end_date);
        }
        self
    }

    /// Includes the version of the latest end date that `data` sees for
    /// `ts_code` on `trade_date`.
    pub fn include_reader_latest_quarter(
        &mut self,
        dataset: FinancialStatementDataset,
        data: &FinancialPitReader<'_>,
        ts_code: &str,
        trade_date: i32,
    ) -> (r: &mut Self)
        ensures
            r@ == match latest_end(data.rows(), data.preference_view(), ts_code@, trade_date, false) {
                Some(e) => with_record(
                    old(self)@,
                    seen_marker(dataset, data.rows(), data.preference_view(), ts_code@, trade_date, e),
                ),
                None => old(self)@,
            },
            final(self)@ == final(r)@,
    {
        if let Some(end_date) = data.latest_quarter_end_date(ts_code, trade_date) {
            self.include_reader_record_for_end_date(dataset, data, ts_code, trade_date, end_date);
        }
        self
    }

    /// Includes the version of the latest year-end date that `data` sees for
    /// `ts_code` on `trade_date`.
    pub fn include_reader_latest_annual(
        &mut self,
        dataset: FinancialStatementDataset,
        data: &FinancialPitReader<'_>,
        ts_code: &str,
        trade_date: i32,
    ) -> (r: &mut Self)
        ensures
            r@ == match latest_end(data.rows(), data.preference_view(), ts_code@, trade_date, true) {
                Some(e) => with_record(
                    old(self)@,
                    seen_marker(dataset, data.rows(), data.preference_view(), ts_code@, trade_date, e),
                ),
                None => old(self)@,
            },
            final(self)@ == final(r)@,
    {
        if let Some(end_date) = data.latest_annual_end_date(ts_code, trade_date) {
            self.include_reader_record_for_end_date(dataset, data, ts_code, trade_date, end_date);
        }
        self
    }

    /// Includes the year-end versions of `count` years, from the latest
    /// year end that `data` sees for `ts_code` on `trade_date` back.
    pub fn include_reader_annual_chain(
        &mut self,
        dataset: FinancialStatementDataset,
        data: &FinancialPitReader<'_>,
        ts_code: &str,
        trade_date: i32,
        count: usize,
    ) -> (r: &mut Self)
        requires
            count <= 214_748,
        ensures
            r@ == match latest_end(data.rows(), data.preference_view(), ts_code@, trade_date, true) {
                Some(anchor) => with_years(
                    old(self)@,
                    dataset,
                    data.rows(),
                    data.preference_view(),
                    ts_code@,
                    trade_date,
                    trunc_div(anchor as int, 10000),
                    count as nat,
                ),
                None => old(self)@,
            },
            final(self)@ == final(r)@,
    {
        let anchor = match data.latest_annual_end_date(ts_code, trade_date) {
            Some(a) => a,
            None => {
                return self;
            },
        };
        let ghost rows = data.rows();
        let ghost pref = data.preference_view();
        let ghost target = with_years(
            self@,
            dataset,
            rows,
            pref,
            ts_code@,
            trade_date,
            trunc_div(anchor as int, 10000),
            count as nat,
        );
        proof {
            if anchor <= 0 {
                assert(trunc_div(anchor as int, 10000) <= 0);
                assert(trunc_rem(anchor as int, 10000) <= 0) by (nonlinear_arith)
                    requires
                        anchor <= 0,
                        trunc_div(anchor as int, 10000) == -((-anchor) / 10000),
                        trunc_rem(anchor as int, 10000) == anchor - 10000 * trunc_div(anchor as int, 10000),
                ;
            }
        }
        let mut year: i32 = anchor / 10_000;
        let mut i: usize = 0;
        while i < count
            invariant
                i <= count,
                count <= 214_748,
                0 <= year as int + i as int <= 214_748,
                rows == data.rows(),
                pref == data.preference_view(),
                target == with_years(
                    self@,
                    dataset,
                    rows,
                    pref,
                    ts_code@,
                    trade_date,
                    year as int,
                    (count - i) as nat,
                ),
            decreases count - i,
        {
            let end_date = year * 10_000 + 1231;
            self.include_reader_record_for_end_date(dataset, data, ts_code, trade_date, end_date);
            year = year - 1;
            i = i + 1;
        }
        self
    }
}

} // verus!
