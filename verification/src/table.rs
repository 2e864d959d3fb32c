//! Column-oriented in-memory tables of text and integer columns, with the
//! typed column accessors the financial indexes read.
use vstd::prelude::*;
use crate::catalog::str_eq;

verus! {

/// The values of one column.
#[derive(Clone, Debug)]
pub enum ColumnData {
    Utf8(Vec<Option<String>>),
    I32(Vec<Option<i32>>),
    I64(Vec<Option<i64>>),
}

/// Abstract content of a [`ColumnData`].
pub enum ColumnView {
    Utf8(Seq<Option<Seq<char>>>),
    I32(Seq<Option<i32>>),
    I64(Seq<Option<i64>>),
}

/// Text cells as character sequences.
pub open spec fn text_cells_view(cells: Seq<Option<String>>) -> Seq<Option<Seq<char>>> {
    cells.map_values(
        |c: Option<String>|
            match c {
                Some(s) => Some(s@),
                None => None,
            },
    )
}

impl View for ColumnData {
    type V = ColumnView;

    open spec fn view(&self) -> ColumnView {
        match self {
            ColumnData::Utf8(v) => ColumnView::Utf8(text_cells_view(v@)),
            ColumnData::I32(v) => ColumnView::I32(v@),
            ColumnData::I64(v) => ColumnView::I64(v@),
        }
    }
}

impl ColumnView {
    /// Number of cells.
    pub open spec fn len(self) -> nat {
        match self {
            ColumnView::Utf8(v) => v.len(),
            ColumnView::I32(v) => v.len(),
            ColumnView::I64(v) => v.len(),
        }
    }
}

impl ColumnData {
    /// Number of cells.
    pub fn len(&self) -> (r: usize)
        ensures
            r == self@.len(),
    {
        match self {
            ColumnData::Utf8(v) => v.len(),
            ColumnData::I32(v) => v.len(),
            ColumnData::I64(v) => v.len(),
        }
    }
}

/// Errors of table construction and column access.
#[derive(Clone, Debug, PartialEq, Eq)]
pub enum TableError {
    /// Two columns have different lengths.
    LengthMismatch,
    /// No column has the requested name.
    MissingColumn(String),
    /// The column exists but holds another type.
    WrongType(String),
}

/// Named columns of equal length.
#[derive(Clone, Debug)]
pub struct Table {
    pub columns: Vec<(String, ColumnData)>,
    pub len: usize,
}

/// Abstract content of a [`Table`]: named columns in order, and the row count.
pub struct TableView {
    pub columns: Seq<(Seq<char>, ColumnView)>,
    pub len: nat,
}

impl View for Table {
    type V = TableView;

    open spec fn view(&self) -> TableView {
        TableView {
            columns: self.columns@.map_values(|c: (String, ColumnData)| (c.0@, c.1@)),
            len: self.len as nat,
        }
    }
}

/// The first column named `name`.
pub open spec fn find_column(columns: Seq<(Seq<char>, ColumnView)>, name: Seq<char>) -> Option<
    ColumnView,
>
    decreases columns.len(),
{
    if columns.len() == 0 {
        None
    } else if columns[0].0 == name {
        Some(columns[0].1)
    } else {
        find_column(columns.drop_first(), name)
    }
}

/// Whether every column has `len` cells.
pub open spec fn columns_have_len(columns: Seq<(Seq<char>, ColumnView)>, len: nat) -> bool {
    forall|i: int| 0 <= i < columns.len() ==> #[trigger] columns[i].1.len() == len
}

/// A column found in a table whose columns all have `len` cells has `len` cells.
pub proof fn lemma_found_column_len(cols: Seq<(Seq<char>, ColumnView)>, name: Seq<char>, len: nat)
    requires
        columns_have_len(cols, len),
    ensures
        find_column(cols, name) matches Some(c) ==> c.len() == len,
    decreases cols.len(),
{
    if cols.len() > 0 {
        assert(cols[0].1.len() == len);
        let rest = cols.drop_first();
        assert forall|i: int| 0 <= i < rest.len() implies #[trigger] rest[i].1.len() == len by {
            assert(cols[i + 1].1.len() == len);
        }
        lemma_found_column_len(rest, name, len);
    }
}

/// Whether all columns have as many cells as the first.
pub open spec fn uniform_columns(columns: Seq<(Seq<char>, ColumnView)>) -> bool {
    forall|i: int| 0 <= i < columns.len() ==> #[trigger] columns[i].1.len() == columns[0].1.len()
}

/// Whether `c` is an ASCII digit.
pub open spec fn is_digit(c: char) -> bool {
    48 <= (c as int) <= 57
}

/// Value of the ASCII digit `c`.
pub open spec fn digit_value(c: char) -> int {
    (c as int) - 48
}

/// Value of a run of ASCII digits.
pub open spec fn digits_value(s: Seq<char>) -> int
    decreases s.len(),
{
    if s.len() == 0 {
        0
    } else {
        digits_value(s.drop_last()) * 10 + digit_value(s.last())
    }
}

/// Whether every character of `s` is an ASCII digit.
pub open spec fn all_digits(s: Seq<char>) -> bool {
    forall|i: int| 0 <= i < s.len() ==> is_digit(#[trigger] s[i])
}

/// The date a text cell holds: eight digits `YYYYMMDD`, or `YYYY-MM-DD`;
/// any other text (such as `nan`) holds no date.
pub open spec fn date_from_text(s: Seq<char>) -> Option<i32> {
    if s.len() == 8 && all_digits(s) {
        Some(digits_value(s) as i32)
    } else if s.len() == 10 && s[4] == '-' && s[7] == '-' && all_digits(s.subrange(0, 4))
        && all_digits(s.subrange(5, 7)) && all_digits(s.subrange(8, 10)) {
        Some(
            (digits_value(s.subrange(0, 4)) * 10_000 + digits_value(s.subrange(5, 7)) * 100
                + digits_value(s.subrange(8, 10))) as i32,
        )
    } else {
        None
    }
}

/// A column read as dates: integer cells as they are (64-bit values outside
/// the 32-bit range become empty), text cells through [`date_from_text`].
pub open spec fn date_cells(column: ColumnView) -> Seq<Option<i32>> {
    match column {
        ColumnView::I32(v) => v,
        ColumnView::I64(v) => v.map_values(
            |c: Option<i64>|
                match c {
                    Some(x) => if i32::MIN <= x <= i32::MAX {
                        Some(x as i32)
                    } else {
                        None
                    },
                    None => None,
                },
        ),
        ColumnView::Utf8(v) => v.map_values(
            |c: Option<Seq<char>>|
                match c {
                    Some(s) => date_from_text(s),
                    None => None,
                },
        ),
    }
}

/// A column read as 64-bit integers: 32-bit cells widen, text columns are refused.
pub open spec fn i64_cells(column: ColumnView) -> Option<Seq<Option<i64>>> {
    match column {
        ColumnView::I32(v) => Some(
            v.map_values(
                |c: Option<i32>|
                    match c {
                        Some(x) => Some(x as i64),
                        None => None,
                    },
            ),
        ),
        ColumnView::I64(v) => Some(v),
        ColumnView::Utf8(_) => None,
    }
}

/// Digit runs of at most `n` digits are below `10^n`; eight digits stay below `10^8`.
pub proof fn lemma_digits_value_bound(s: Seq<char>)
    requires
        all_digits(s),
        s.len() <= 8,
    ensures
        0 <= digits_value(s) < 100_000_000,
        s.len() <= 4 ==> digits_value(s) < 10_000,
        s.len() <= 2 ==> digits_value(s) < 100,
{
    lemma_digits_value_pow(s, s.len());
    lemma_pow10_mono(s.len(), 8);
    assert(pow10(8) == 100_000_000) by {
        reveal_with_fuel(pow10, 9);
    }
    if s.len() <= 4 {
        lemma_pow10_mono(s.len(), 4);
        assert(pow10(4) == 10_000) by {
            reveal_with_fuel(pow10, 5);
        }
    }
    if s.len() <= 2 {
        lemma_pow10_mono(s.len(), 2);
        assert(pow10(2) == 100) by {
            reveal_with_fuel(pow10, 3);
        }
    }
}

/// Ten to the power `n`.
pub open spec fn pow10(n: nat) -> int
    decreases n,
{
    if n == 0 {
        1
    } else {
        10 * pow10((n - 1) as nat)
    }
}

proof fn lemma_pow10_mono(a: nat, b: nat)
    requires
        a <= b,
    ensures
        0 < pow10(a) <= pow10(b),
    decreases b,
{
    if a < b {
        lemma_pow10_mono(a, (b - 1) as nat);
    } else {
        lemma_pow10_pos(a);
    }
}

proof fn lemma_pow10_pos(a: nat)
    ensures
        0 < pow10(a),
    decreases a,
{
    if a > 0 {
        lemma_pow10_pos((a - 1) as nat);
    }
}

proof fn lemma_digits_value_pow(s: Seq<char>, n: nat)
    requires
        all_digits(s),
        s.len() == n,
    ensures
        0 <= digits_value(s) < pow10(n),
    decreases n,
{
    if n > 0 {
        let t = s.drop_last();
        assert(all_digits(t)) by {
            assert forall|i: int| 0 <= i < t.len() implies is_digit(#[trigger] t[i]) by {
                assert(t[i] == s[i]);
            }
        }
        lemma_digits_value_pow(t, (n - 1) as nat);
        assert(is_digit(s[s.len() - 1]));
    }
}


/// Value of the digits `s[from..to]`, when all of them are ASCII digits.
fn digits_in(s: &str, from: usize, to: usize) -> (r: Option<i32>)
    requires
        from <= to <= s@.len(),
        to - from <= 8,
    ensures
        r.is_some() == all_digits(s@.subrange(from as int, to as int)),
        r matches Some(v) ==> v as int == digits_value(s@.subrange(from as int, to as int)),
{
    let mut value: i32 = 0;
    let mut i: usize = from;
    while i < to
        invariant
            from <= i <= to,
            to <= s@.len(),
            to - from <= 8,
            all_digits(s@.subrange(from as int, i as int)),
            value as int == digits_value(s@.subrange(from as int, i as int)),
        decreases to - i,
    {
        let c = s.get_char(i);
        if !('0' <= c && c <= '9') {
            proof {
                assert(s@.subrange(from as int, to as int)[i - from] == c);
            }
            return None;
        }
        proof {
            let t = s@.subrange(from as int, i + 1);
            assert(t.drop_last() =~= s@.subrange(from as int, i as int));
            assert(t.last() == c);
            assert(all_digits(t)) by {
                assert forall|k: int| 0 <= k < t.len() implies is_digit(#[trigger] t[k]) by {
                    if k < t.len() - 1 {
                        assert(t[k] == s@.subrange(from as int, i as int)[k]);
                    }
                }
            }
            lemma_digits_value_bound(t);
        }
        value = value * 10 + (c as i32 - 48);
        i = i + 1;
    }
    Some(value)
}

/// The date written in a text cell; see [`date_from_text`].
pub fn parse_date_text(s: &str) -> (r: Option<i32>)
    ensures
        r == date_from_text(s@),
{
    let n = s.unicode_len();
    if n == 8 {
        proof {
            assert(s@.subrange(0, 8) =~= s@);
        }
        match digits_in(s, 0, 8) {
            Some(v) => Some(v),
            None => None,
        }
    } else if n == 10 {
        let dash1 = s.get_char(4);
        let dash2 = s.get_char(7);
        if dash1 != '-' || dash2 != '-' {
            return None;
        }
        let y = digits_in(s, 0, 4);
        let m = digits_in(s, 5, 7);
        let d = digits_in(s, 8, 10);
        match (y, m, d) {
            (Some(y), Some(m), Some(d)) => {
                proof {
                    lemma_digits_value_bound(s@.subrange(0, 4));
                    lemma_digits_value_bound(s@.subrange(5, 7));
                    lemma_digits_value_bound(s@.subrange(8, 10));
                }
                Some(y * 10_000 + m * 100 + d)
            },
            _ => None,
        }
    } else {
        None
    }
}

impl Table {
    /// A table of `columns`; they must all have the same number of cells.
    pub fn new(columns: Vec<(String, ColumnData)>) -> (r: Result<Table, TableError>)
        ensures
            r.is_ok() == uniform_columns(columns@.map_values(|c: (String, ColumnData)| (c.0@, c.1@))),
            r matches Ok(t) ==> t@.columns == columns@.map_values(
                |c: (String, ColumnData)| (c.0@, c.1@),
            ) && (columns@.len() == 0 ==> t.len == 0) && (columns@.len() > 0 ==> t.len
                == columns@[0].1@.len()),
            r matches Err(e) ==> e == TableError::LengthMismatch,
    {
        let ghost view = columns@.map_values(|c: (String, ColumnData)| (c.0@, c.1@));
        let len = if columns.len() > 0 {
            columns[0].1.len()
        } else {
            0
        };
        let mut i: usize = 0;
        while i < columns.len()
            invariant
                i <= columns@.len(),
                view == columns@.map_values(|c: (String, ColumnData)| (c.0@, c.1@)),
                columns@.len() > 0 ==> len == columns@[0].1@.len(),
                forall|j: int| 0 <= j < i ==> #[trigger] view[j].1.len() == len,
            decreases columns@.len() - i,
        {
            if columns[i].1.len() != len {
                proof {
                    assert(view[i as int].1.len() != view[0].1.len());
                }
                return Err(TableError::LengthMismatch);
            }
            i = i + 1;
        }
        Ok(Table { columns, len })
    }

    /// The first column named `name`.
    pub fn column(&self, name: &str) -> (r: Option<&ColumnData>)
        ensures
            r.is_some() == find_column(self@.columns, name@).is_some(),
            r matches Some(c) ==> Some(c@) == find_column(self@.columns, name@),
    {
        let mut i: usize = 0;
        proof {
            assert(self@.columns.subrange(0, self@.columns.len() as int) =~= self@.columns);
        }
        while i < self.columns.len()
            invariant
                i <= self.columns@.len(),
                find_column(self@.columns, name@) == find_column(
                    self@.columns.subrange(i as int, self@.columns.len() as int),
                    name@,
                ),
            decreases self.columns@.len() - i,
        {
            let ghost rest = self@.columns.subrange(i as int, self@.columns.len() as int);
            if str_eq(self.columns[i].0.as_str(), name) {
                return Some(&self.columns[i].1);
            }
            proof {
                assert(rest.drop_first() =~= self@.columns.subrange(i + 1, self@.columns.len() as int));
            }
            i = i + 1;
        }
        None
    }

    /// Whether some column is named `name`.
    pub fn has_column(&self, name: &str) -> (r: bool)
        ensures
            r == find_column(self@.columns, name@).is_some(),
    {
        self.column(name).is_some()
    }

    /// The text column `name`.
    pub fn required_utf8(&self, name: &str) -> (r: Result<&Vec<Option<String>>, TableError>)
        ensures
            match r {
                Ok(v) => find_column(self@.columns, name@) == Some(
                    ColumnView::Utf8(text_cells_view(v@)),
                ),
                Err(e) => match find_column(self@.columns, name@) {
                    None => e matches TableError::MissingColumn(m) && m@ == name@,
                    Some(ColumnView::Utf8(_)) => false,
                    Some(_) => e matches TableError::WrongType(m) && m@ == name@,
                },
            },
    {
        match self.column(name) {
            Some(ColumnData::Utf8(v)) => Ok(v),
            Some(_) => Err(TableError::WrongType(name.to_owned())),
            None => Err(TableError::MissingColumn(name.to_owned())),
        }
    }

    /// The 32-bit integer column `name`.
    pub fn required_i32(&self, name: &str) -> (r: Result<&Vec<Option<i32>>, TableError>)
        ensures
            match r {
                Ok(v) => find_column(self@.columns, name@) == Some(ColumnView::I32(v@)),
                Err(e) => match find_column(self@.columns, name@) {
                    None => e matches TableError::MissingColumn(m) && m@ == name@,
                    Some(ColumnView::I32(_)) => false,
                    Some(_) => e matches TableError::WrongType(m) && m@ == name@,
                },
            },
    {
        match self.column(name) {
            Some(ColumnData::I32(v)) => Ok(v),
            Some(_) => Err(TableError::WrongType(name.to_owned())),
            None => Err(TableError::MissingColumn(name.to_owned())),
        }
    }

    /// The column `name` read as dates; see [`date_cells`].
    pub fn required_i32_date_cast(&self, name: &str) -> (r: Result<Vec<Option<i32>>, TableError>)
        ensures
            match r {
                Ok(v) => find_column(self@.columns, name@) matches Some(c) && v@ == date_cells(c),
                Err(e) => find_column(self@.columns, name@) is None && (e matches TableError::MissingColumn(m) && m@ == name@),
            },
    {
        match self.column(name) {
            None => Err(TableError::MissingColumn(name.to_owned())),
            Some(ColumnData::I32(v)) => Ok(v.clone()),
            Some(ColumnData::I64(v)) => {
                let mut out: Vec<Option<i32>> = Vec::new();
                let mut i: usize = 0;
                while i < v.len()
                    invariant
                        i <= v@.len(),
                        out@ =~= date_cells(ColumnView::I64(v@)).subrange(0, i as int),
                    decreases v@.len() - i,
                {
                    let cell = match v[i] {
                        Some(x) => if i32::MIN as i64 <= x && x <= i32::MAX as i64 {
                            Some(x as i32)
                        } else {
                            None
                        },
                        None => None,
                    };
                    out.push(cell);
                    i = i + 1;
                }
                Ok(out)
            },
            Some(ColumnData::Utf8(v)) => {
                let mut out: Vec<Option<i32>> = Vec::new();
                let mut i: usize = 0;
                while i < v.len()
                    invariant
                        i <= v@.len(),
                        out@ =~= date_cells(ColumnView::Utf8(text_cells_view(v@))).subrange(
                            0,
                            i as int,
                        ),
                    decreases v@.len() - i,
                {
                    let cell = match &v[i] {
                        Some(text) => parse_date_text(text.as_str()),
                        None => None,
                    };
                    out.push(cell);
                    i = i + 1;
                }
                Ok(out)
            },
        }
    }

    /// The column `name` read as 64-bit integers; see [`i64_cells`].
    pub fn required_i64_cast(&self, name: &str) -> (r: Result<Vec<Option<i64>>, TableError>)
        ensures
            match r {
                Ok(v) => find_column(self@.columns, name@) matches Some(c) && i64_cells(c) == Some(
                    v@,
                ),
                Err(e) => match find_column(self@.columns, name@) {
                    None => e matches TableError::MissingColumn(m) && m@ == name@,
                    Some(c) => i64_cells(c) is None && (e matches TableError::WrongType(m) && m@
                        == name@),
                },
            },
    {
        match self.column(name) {
            None => Err(TableError::MissingColumn(name.to_owned())),
            Some(ColumnData::I64(v)) => Ok(v.clone()),
            Some(ColumnData::I32(v)) => {
                let mut out: Vec<Option<i64>> = Vec::new();
                let mut i: usize = 0;
                while i < v.len()
                    invariant
                        i <= v@.len(),
                        i64_cells(ColumnView::I32(v@)) matches Some(all) && out@ =~= all.subrange(
                            0,
                            i as int,
                        ),
                    decreases v@.len() - i,
                {
                    let cell = match v[i] {
                        Some(x) => Some(x as i64),
                        None => None,
                    };
                    out.push(cell);
                    i = i + 1;
                }
                proof {
                    let all = i64_cells(ColumnView::I32(v@)).unwrap();
                    assert(all.subrange(0, v@.len() as int) =~= all);
                }
                Ok(out)
            },
            Some(ColumnData::Utf8(_)) => Err(TableError::WrongType(name.to_owned())),
        }
    }
}

} // verus!
