//! The date-by-instrument grid that daily factors are laid out on.
use vstd::prelude::*;

verus! {

/// Whether `ts_code` is a Beijing Stock Exchange listing (suffix `.BJ`).
pub open spec fn spec_is_bj_stock(ts_code: Seq<char>) -> bool {
    ts_code.len() >= 3 && ts_code.subrange(ts_code.len() - 3, ts_code.len() as int) =~= seq![
        '.',
        'B',
        'J',
    ]
}

/// Whether `ts_code` is listed on the Beijing Stock Exchange.
pub fn is_bj_stock(ts_code: &str) -> (r: bool)
    ensures
        r == spec_is_bj_stock(ts_code@),
{
    let n = ts_code.unicode_len();
    if n < 3 {
        return false;
    }
    let a = ts_code.get_char(n - 3);
    let b = ts_code.get_char(n - 2);
    let c = ts_code.get_char(n - 1);
    let r = a == '.' && b == 'B' && c == 'J';
    proof {
        let tail = ts_code@.subrange(n - 3, n as int);
        assert(tail[0] == a && tail[1] == b && tail[2] == c);
        if r {
            assert(tail =~= seq!['.', 'B', 'J']);
        } else {
            if tail =~= seq!['.', 'B', 'J'] {
                assert(tail[0] == '.' && tail[1] == 'B' && tail[2] == 'J');
            }
        }
    }
    r
}

/// Errors of panel construction.
#[derive(Clone, Copy, Debug, PartialEq, Eq)]
pub enum PanelError {
    /// The presence mask does not hold one flag per date and instrument.
    ShapeMismatch,
}

/// A grid of trade dates by instruments, stored date-major: the cell of date
/// `d` and instrument `i` is at offset `d * instruments + i`.
#[derive(Debug)]
pub struct DailyPanel {
    dates: Vec<i32>,
    instruments: Vec<String>,
    target_dates: Vec<i32>,
    present: Vec<bool>,
}

impl DailyPanel {
    #[verifier::type_invariant]
    spec fn shape_holds(self) -> bool {
        self.present@.len() == self.dates@.len() * self.instruments@.len()
    }

    /// Trade dates, in panel order.
    pub closed spec fn dates_view(self) -> Seq<i32> {
        self.dates@
    }

    /// Instrument codes, in panel order.
    pub closed spec fn instruments_view(self) -> Seq<Seq<char>> {
        self.instruments@.map_values(|s: String| s@)
    }

    /// Dates for which values are to be produced.
    pub closed spec fn target_dates_view(self) -> Seq<i32> {
        self.target_dates@
    }

    /// Whether each cell holds a listed instrument, date-major.
    pub closed spec fn present_view(self) -> Seq<bool> {
        self.present@
    }

    /// A panel over `dates` and `instruments`, with `present` flagging the
    /// cells that hold a listed instrument.
    pub fn from_index(
        dates: Vec<i32>,
        instruments: Vec<String>,
        target_dates: &[i32],
        present: Vec<bool>,
    ) -> (r: Result<Self, PanelError>)
        ensures
            r.is_ok() == (present@.len() == dates@.len() * instruments@.len()),
            r matches Ok(p) ==> p.dates_view() == dates@ && p.instruments_view()
                == instruments@.map_values(|s: String| s@) && p.target_dates_view()
                == target_dates@ && p.present_view() == present@,
            r matches Err(e) ==> e == PanelError::ShapeMismatch,
    {
        let n = dates.len();
        let m = instruments.len();
        let len = present.len();
        if m != 0 && present.len() / m != n || m != 0 && present.len() % m != 0 {
            proof {
                assert(len != n * m) by (nonlinear_arith)
                    requires
                        m != 0,
                        (len as int) / (m as int) != n || (len as int) % (m as int) != 0,
                ;
            }
            return Err(PanelError::ShapeMismatch);
        }
        if m == 0 && present.len() != 0 {
            return Err(PanelError::ShapeMismatch);
        }
        proof {
            if m != 0 {
                vstd::arithmetic::div_mod::lemma_fundamental_div_mod(len as int, m as int);
                assert(len == n * m) by (nonlinear_arith)
                    requires
                        len == m * ((len as int) / (m as int)) + (len as int) % (m as int),
                        (len as int) / (m as int) == n,
                        (len as int) % (m as int) == 0,
                ;
            } else {
                assert(len == n * m) by (nonlinear_arith)
                    requires
                        m == 0,
                        len == 0,
                ;
            }
        }
        let mut targets: Vec<i32> = Vec::new();
        let mut i: usize = 0;
        while i < target_dates.len()
            invariant
                i <= target_dates@.len(),
                targets@ =~= target_dates@.subrange(0, i as int),
                present@.len() == dates@.len() * instruments@.len(),
            decreases target_dates@.len() - i,
        {
            targets.push(target_dates[i]);
            i = i + 1;
        }
        Ok(DailyPanel { dates, instruments, target_dates: targets, present })
    }

    /// Trade dates.
    pub fn dates(&self) -> (r: &[i32])
        ensures
            r@ == self.dates_view(),
    {
        self.dates.as_slice()
    }

    /// Instrument codes.
    pub fn instruments(&self) -> (r: &[String])
        ensures
            r@.map_values(|s: String| s@) == self.instruments_view(),
    {
        self.instruments.as_slice()
    }

    /// Number of cells, dates times instruments.
    pub fn shape_len(&self) -> (r: usize)
        ensures
            r == self.dates_view().len() * self.instruments_view().len(),
            r == self.present_view().len(),
    {
        proof {
            use_type_invariant(self);
        }
        self.present.len()
    }

    /// Whether `trade_date` is a target date.
    pub fn is_target_date(&self, trade_date: i32) -> (r: bool)
        ensures
            r == self.target_dates_view().contains(trade_date),
    {
        let mut i: usize = 0;
        while i < self.target_dates.len()
            invariant
                i <= self.target_dates@.len(),
                forall|j: int| 0 <= j < i ==> self.target_dates@[j] != trade_date,
            decreases self.target_dates@.len() - i,
        {
            if self.target_dates[i] == trade_date {
                return true;
            }
            i = i + 1;
        }
        false
    }

    /// Whether the cell at `offset` holds a listed instrument; offsets past
    /// the grid hold none.
    pub fn is_present_offset(&self, offset: usize) -> (r: bool)
        ensures
            r == (offset < self.present_view().len() && self.present_view()[offset as int]),
    {
        if offset < self.present.len() {
            self.present[offset]
        } else {
            false
        }
    }
}

} // verus!
