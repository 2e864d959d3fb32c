//! Calendar arithmetic on integer dates written as `YYYYMMDD`.
use vstd::prelude::*;

verus! {

/// Quotient of `a / b` rounded toward zero, as Rust's `/` on signed integers.
pub open spec fn trunc_div(a: int, b: int) -> int
    recommends
        b > 0,
{
    if a >= 0 {
        a / b
    } else {
        -((-a) / b)
    }
}

/// Remainder matching [`trunc_div`], as Rust's `%` on signed integers.
pub open spec fn trunc_rem(a: int, b: int) -> int
    recommends
        b > 0,
{
    a - b * trunc_div(a, b)
}

/// Year part of a `YYYYMMDD` date.
pub open spec fn year_of(date: int) -> int {
    trunc_div(date, 10_000)
}

/// `MMDD` part of a `YYYYMMDD` date.
pub open spec fn month_day_of(date: int) -> int {
    trunc_rem(date, 10_000)
}

/// Month part of a `YYYYMMDD` date.
pub open spec fn month_of(date: int) -> int {
    trunc_rem(trunc_div(date, 100), 100)
}

/// Day part of a `YYYYMMDD` date.
pub open spec fn day_of(date: int) -> int {
    trunc_rem(date, 100)
}

/// The quarter end that precedes the quarter end `end_date`, or `None` when
/// `end_date` is not one of `MM31`/`0630`/`0930`/`1231`.
pub open spec fn spec_previous_quarter_end_date(end_date: int) -> Option<int> {
    let year = year_of(end_date);
    let md = month_day_of(end_date);
    if md == 331 {
        Some((year - 1) * 10_000 + 1231)
    } else if md == 630 {
        Some(year * 10_000 + 331)
    } else if md == 930 {
        Some(year * 10_000 + 630)
    } else if md == 1231 {
        Some(year * 10_000 + 930)
    } else {
        None
    }
}

/// Whether `date` is a quarter end (`0331`, `0630`, `0930` or `1231` of a year >= 0).
pub open spec fn is_quarter_end(date: int) -> bool {
    date >= 0 && {
        let md = date % 10_000;
        md == 331 || md == 630 || md == 930 || md == 1231
    }
}

/// The quarter end before `end_date`: `0331` steps back to the previous
/// year's `1231`, the other quarter ends step back three months.
pub fn previous_quarter_end_date(end_date: i32) -> (r: Option<i32>)
    ensures
        r.is_some() == spec_previous_quarter_end_date(end_date as int).is_some(),
        r.is_some() ==> r.unwrap() as int == spec_previous_quarter_end_date(end_date as int).unwrap(),
{
    let year = end_date / 10_000;
    let md = end_date % 10_000;
    if md == 331 {
        Some((year - 1) * 10_000 + 1231)
    } else if md == 630 {
        Some(year * 10_000 + 331)
    } else if md == 930 {
        Some(year * 10_000 + 630)
    } else if md == 1231 {
        Some(year * 10_000 + 930)
    } else {
        None
    }
}

/// Stepping back one quarter from a quarter end of a year >= 1 lands on a
/// strictly earlier quarter end, and an end date that is not a quarter end
/// has no previous quarter end.
pub proof fn lemma_previous_quarter_end_is_earlier_quarter_end(end_date: int)
    requires
        end_date >= 10_000,
    ensures
        is_quarter_end(end_date) <==> spec_previous_quarter_end_date(end_date).is_some(),
        is_quarter_end(end_date) ==> {
            let p = spec_previous_quarter_end_date(end_date).unwrap();
            &&& p < end_date
            &&& is_quarter_end(p)
            &&& end_date - p <= 9100
        },
{
    let y = end_date / 10_000;
    let md = end_date % 10_000;
    vstd::arithmetic::div_mod::lemma_fundamental_div_mod(end_date, 10_000);
    assert(0 <= md < 10_000);
    assert(year_of(end_date) == y && month_day_of(end_date) == md);
    if md == 331 || md == 630 || md == 930 || md == 1231 {
        let p = spec_previous_quarter_end_date(end_date).unwrap();
        let (py, pmd) = if md == 331 {
            (y - 1, 1231int)
        } else if md == 630 {
            (y, 331int)
        } else if md == 930 {
            (y, 630int)
        } else {
            (y, 930int)
        };
        assert(p == py * 10_000 + pmd);
        vstd::arithmetic::div_mod::lemma_mod_multiples_vanish(py, pmd, 10_000);
        vstd::arithmetic::div_mod::lemma_small_mod(pmd as nat, 10_000);
        assert(p % 10_000 == pmd);
    }
}

/// Same `MMDD` one year earlier.
pub open spec fn spec_same_quarter_previous_year(end_date: int) -> int {
    (year_of(end_date) - 1) * 10_000 + month_day_of(end_date)
}

/// The year and `MMDD` parts of `year * 10000 + md`.
proof fn lemma_date_parts(year: int, md: int)
    requires
        year >= 0,
        0 <= md < 10_000,
    ensures
        year_of(year * 10_000 + md) == year,
        month_day_of(year * 10_000 + md) == md,
{
    vstd::arithmetic::div_mod::lemma_fundamental_div_mod_converse(year * 10_000 + md, 10_000, year, md);
}

/// Four quarters back from a quarter end is the same quarter a year
/// earlier.
pub proof fn lemma_four_quarters_back_is_previous_year(end_date: int)
    requires
        end_date >= 10_000,
        spec_previous_quarter_end_date(end_date) is Some,
    ensures
        spec_nth_previous_quarter_end(end_date, 4) == Some(spec_same_quarter_previous_year(end_date)),
{
    let y = year_of(end_date);
    let md = month_day_of(end_date);
    vstd::arithmetic::div_mod::lemma_fundamental_div_mod(end_date, 10_000);
    assert(y == end_date / 10_000 && md == end_date % 10_000);
    assert(y >= 1);
    assert(end_date == y * 10_000 + md);
    lemma_date_parts(y, 331);
    lemma_date_parts(y, 630);
    lemma_date_parts(y, 930);
    lemma_date_parts(y, 1231);
    lemma_date_parts(y - 1, 331);
    lemma_date_parts(y - 1, 630);
    lemma_date_parts(y - 1, 930);
    lemma_date_parts(y - 1, 1231);
    reveal_with_fuel(spec_nth_previous_quarter_end, 5);
}

/// The same month and day one year earlier.
pub fn same_quarter_previous_year(end_date: i32) -> (r: i32)
    requires
        end_date >= -2_147_473_648,
    ensures
        r as int == spec_same_quarter_previous_year(end_date as int),
{
    (end_date / 10_000 - 1) * 10_000 + end_date % 10_000
}

/// Gregorian leap year.
pub open spec fn spec_is_leap_year(year: int) -> bool {
    (trunc_rem(year, 4) == 0 && trunc_rem(year, 100) != 0) || trunc_rem(year, 400) == 0
}

/// Gregorian leap year rule.
pub fn is_leap_year(year: i32) -> (r: bool)
    ensures
        r == spec_is_leap_year(year as int),
{
    (year % 4 == 0 && year % 100 != 0) || year % 400 == 0
}

/// Number of days in `month` of `year`; months outside `1..=12` count 30.
pub open spec fn spec_days_in_month(year: int, month: int) -> int {
    if month == 1 || month == 3 || month == 5 || month == 7 || month == 8 || month == 10
        || month == 12 {
        31
    } else if month == 4 || month == 6 || month == 9 || month == 11 {
        30
    } else if month == 2 {
        if spec_is_leap_year(year) {
            29
        } else {
            28
        }
    } else {
        30
    }
}

/// Days in a month of the Gregorian calendar.
pub fn days_in_month(year: i32, month: u32) -> (r: u32)
    ensures
        r as int == spec_days_in_month(year as int, month as int),
        28 <= r <= 31,
{
    match month {
        1 | 3 | 5 | 7 | 8 | 10 | 12 => 31,
        4 | 6 | 9 | 11 => 30,
        2 => {
            if is_leap_year(year) {
                29
            } else {
                28
            }
        },
        _ => 30,
    }
}

/// Splits a non-negative `YYYYMMDD` date into year, month and day.
pub fn ymd(date: i32) -> (r: (i32, u32, u32))
    requires
        date >= 0,
    ensures
        r.0 as int == date / 10_000,
        r.1 as int == (date / 100) % 100,
        r.2 as int == date % 100,
{
    (date / 10_000, ((date / 100) % 100) as u32, (date % 100) as u32)
}

/// Month index `year * 12 + month - 1` shifted by `delta` months.
pub open spec fn shifted_month_index(date: int, delta: int) -> int {
    (date / 10_000) * 12 + (date / 100) % 100 - 1 + delta
}

/// The date `delta` months after `date` (before it when negative); the day is
/// clamped to the length of the target month.
pub open spec fn spec_add_months(date: int, delta: int) -> int {
    let index = shifted_month_index(date, delta);
    let new_year = index / 12;
    let new_month = index % 12 + 1;
    let day = date % 100;
    let dim = spec_days_in_month(new_year, new_month);
    let new_day = if day < dim {
        day
    } else {
        dim
    };
    new_year * 10_000 + new_month * 100 + new_day
}

/// Shifts a date by whole months, clamping the day to the target month.
pub fn add_months(date: i32, months_delta: i32) -> (r: i32)
    requires
        date >= 0,
        i32::MIN <= shifted_month_index(date as int, months_delta as int) <= i32::MAX,
        -214_748 <= shifted_month_index(date as int, months_delta as int) / 12 <= 214_748,
    ensures
        r as int == spec_add_months(date as int, months_delta as int),
{
    let (year, month, day) = ymd(date);
    proof {
        assert(0 <= year <= 214_748);
        assert(0 <= month <= 99);
    }
    let month_index = year * 12 + month as i32 - 1 + months_delta;
    let (new_year, new_month) = if month_index >= 0 {
        (month_index / 12, month_index % 12 + 1)
    } else {
        let q = (-(month_index + 1)) / 12;
        let y = -q - 1;
        (y, month_index - y * 12 + 1)
    };
    proof {
        assert(new_year as int == month_index as int / 12 && new_month as int == month_index as int
            % 12 + 1) by (nonlinear_arith)
            requires
                month_index >= 0 ==> new_year == month_index / 12 && new_month == month_index
                    % 12 + 1,
                month_index < 0 ==> new_year == -((-month_index - 1) / 12) - 1 && new_month
                    == month_index - new_year * 12 + 1,
        ;
    }
    let dim = days_in_month(new_year, new_month as u32);
    let new_day = if day < dim {
        day
    } else {
        dim
    };
    new_year * 10_000 + new_month * 100 + new_day as i32
}


/// The calendar day after `(year, month, day)`; a month past December rolls
/// into January of the next year.
pub open spec fn next_day(year: int, month: int, day: int) -> (int, int, int) {
    if day + 1 > spec_days_in_month(year, month) {
        if month + 1 > 12 {
            (year + 1, 1, 1)
        } else {
            (year, month + 1, 1)
        }
    } else {
        (year, month, day + 1)
    }
}

/// The calendar day before `(year, month, day)`.
pub open spec fn prev_day(year: int, month: int, day: int) -> (int, int, int) {
    if day > 1 {
        (year, month, day - 1)
    } else if month > 1 {
        (year, month - 1, spec_days_in_month(year, month - 1))
    } else {
        (year - 1, 12, spec_days_in_month(year - 1, 12))
    }
}

/// `(year, month, day)` moved `steps` days forward.
pub open spec fn days_forward(year: int, month: int, day: int, steps: nat) -> (int, int, int)
    decreases steps,
{
    if steps == 0 {
        (year, month, day)
    } else {
        let t = next_day(year, month, day);
        days_forward(t.0, t.1, t.2, (steps - 1) as nat)
    }
}

/// `(year, month, day)` moved `steps` days backward.
pub open spec fn days_backward(year: int, month: int, day: int, steps: nat) -> (int, int, int)
    decreases steps,
{
    if steps == 0 {
        (year, month, day)
    } else {
        let t = prev_day(year, month, day);
        days_backward(t.0, t.1, t.2, (steps - 1) as nat)
    }
}

/// The date `delta` calendar days after a non-negative `YYYYMMDD` date.
pub open spec fn spec_add_days(date: int, delta: int) -> int {
    let t = if delta >= 0 {
        days_forward(date / 10_000, (date / 100) % 100, date % 100, delta as nat)
    } else {
        days_backward(date / 10_000, (date / 100) % 100, date % 100, (-delta) as nat)
    };
    if delta == 0 {
        date
    } else {
        t.0 * 10_000 + t.1 * 100 + t.2
    }
}

proof fn lemma_days_forward_step(year: int, month: int, day: int, steps: nat)
    ensures
        ({
            let t = days_forward(year, month, day, steps);
            let n = next_day(t.0, t.1, t.2);
            days_forward(year, month, day, steps + 1) == n
        }),
    decreases steps,
{
    let t = next_day(year, month, day);
    assert(days_forward(year, month, day, steps + 1) == days_forward(t.0, t.1, t.2, steps));
    if steps > 0 {
        lemma_days_forward_step(t.0, t.1, t.2, (steps - 1) as nat);
        assert(days_forward(year, month, day, steps) == days_forward(t.0, t.1, t.2, (steps - 1) as nat));
    }
}

proof fn lemma_days_backward_step(year: int, month: int, day: int, steps: nat)
    ensures
        ({
            let t = days_backward(year, month, day, steps);
            let n = prev_day(t.0, t.1, t.2);
            days_backward(year, month, day, steps + 1) == n
        }),
    decreases steps,
{
    let t = prev_day(year, month, day);
    assert(days_backward(year, month, day, steps + 1) == days_backward(t.0, t.1, t.2, steps));
    if steps > 0 {
        lemma_days_backward_step(t.0, t.1, t.2, (steps - 1) as nat);
        assert(days_backward(year, month, day, steps) == days_backward(t.0, t.1, t.2, (steps - 1) as nat));
    }
}

/// The year, month and day `delta` calendar days after a non-negative
/// `YYYYMMDD` date.
pub open spec fn days_moved(date: int, delta: int) -> (int, int, int) {
    if delta >= 0 {
        days_forward(date / 10_000, (date / 100) % 100, date % 100, delta as nat)
    } else {
        days_backward(date / 10_000, (date / 100) % 100, date % 100, (-delta) as nat)
    }
}

/// Whether moving `date` by `delta` days writes a date that fits in `i32`.
pub open spec fn add_days_fits(date: int, delta: int) -> bool {
    delta == 0 || {
        let t = days_moved(date, delta);
        &&& i32::MIN <= t.0 * 10_000 <= i32::MAX
        &&& i32::MIN <= t.0 * 10_000 + t.1 * 100 + t.2 <= i32::MAX
    }
}

proof fn lemma_days_forward_year_grows(year: int, month: int, day: int, i: nat, n: nat)
    requires
        i <= n,
    ensures
        year <= days_forward(year, month, day, i).0 <= days_forward(year, month, day, n).0,
        days_forward(year, month, day, n).0 <= year + n,
    decreases n,
{
    if n > 0 {
        lemma_days_forward_step(year, month, day, (n - 1) as nat);
        if i < n {
            lemma_days_forward_year_grows(year, month, day, i, (n - 1) as nat);
        } else {
            lemma_days_forward_year_grows(year, month, day, (n - 1) as nat, (n - 1) as nat);
        }
    }
}

proof fn lemma_days_backward_year_shrinks(year: int, month: int, day: int, i: nat, n: nat)
    requires
        i <= n,
    ensures
        year >= days_backward(year, month, day, i).0 >= days_backward(year, month, day, n).0,
        days_backward(year, month, day, n).0 >= year - n,
    decreases n,
{
    if n > 0 {
        lemma_days_backward_step(year, month, day, (n - 1) as nat);
        if i < n {
            lemma_days_backward_year_shrinks(year, month, day, i, (n - 1) as nat);
        } else {
            lemma_days_backward_year_shrinks(year, month, day, (n - 1) as nat, (n - 1) as nat);
        }
    }
}

/// Moves a date by whole calendar days, one day at a time.
pub fn add_days(date: i32, days_delta: i32) -> (r: i32)
    requires
        date >= 0,
        add_days_fits(date as int, days_delta as int),
    ensures
        r as int == spec_add_days(date as int, days_delta as int),
{
    if days_delta == 0 {
        return date;
    }
    let (y0, m0, d0) = ymd(date);
    let mut year = y0;
    let mut month = m0;
    let mut day = d0;
    if days_delta > 0 {
        proof {
            lemma_days_forward_year_grows(y0 as int, m0 as int, d0 as int, 0, days_delta as nat);
        }
        let mut i: i32 = 0;
        while i < days_delta
            invariant
                0 <= i <= days_delta,
                y0 <= year,
                year as int <= days_moved(date as int, days_delta as int).0,
                0 <= month <= 99,
                0 <= day <= 99,
                y0 as int == date / 10_000,
                m0 as int == (date / 100) % 100,
                d0 as int == date % 100,
                days_delta > 0,
                date >= 0,
                add_days_fits(date as int, days_delta as int),
                (year as int, month as int, day as int) == days_forward(
                    y0 as int,
                    m0 as int,
                    d0 as int,
                    i as nat,
                ),
            decreases days_delta - i,
        {
            proof {
                lemma_days_forward_step(y0 as int, m0 as int, d0 as int, i as nat);
                lemma_days_forward_year_grows(y0 as int, m0 as int, d0 as int, (i + 1) as nat, days_delta as nat);
            }
            day = day + 1;
            let days = days_in_month(year, month);
            if day > days {
                day = 1;
                month = month + 1;
                if month > 12 {
                    month = 1;
                    year = year + 1;
                }
            }
            i = i + 1;
        }
    } else {
        proof {
            lemma_days_backward_year_shrinks(y0 as int, m0 as int, d0 as int, 0, (-days_delta) as nat);
        }
        let mut i: i32 = days_delta;
        while i < 0
            invariant
                days_delta <= i <= 0,
                year <= y0,
                year as int >= days_moved(date as int, days_delta as int).0,
                0 <= month <= 99,
                0 <= day <= 99,
                y0 as int == date / 10_000,
                m0 as int == (date / 100) % 100,
                d0 as int == date % 100,
                days_delta < 0,
                date >= 0,
                add_days_fits(date as int, days_delta as int),
                (year as int, month as int, day as int) == days_backward(
                    y0 as int,
                    m0 as int,
                    d0 as int,
                    (i - days_delta) as nat,
                ),
            decreases -i,
        {
            proof {
                lemma_days_backward_step(y0 as int, m0 as int, d0 as int, (i - days_delta) as nat);
                lemma_days_backward_year_shrinks(
                    y0 as int,
                    m0 as int,
                    d0 as int,
                    (i - days_delta + 1) as nat,
                    (-days_delta) as nat,
                );
            }
            if day > 1 {
                day = day - 1;
            } else {
                if month > 1 {
                    month = month - 1;
                } else {
                    month = 12;
                    year = year - 1;
                }
                day = days_in_month(year, month);
            }
            i = i + 1;
        }
    }
    year * 10_000 + month as i32 * 100 + day as i32
}


/// The quarter end `count` quarters before `end_date`, stepping with
/// [`spec_previous_quarter_end_date`]; `None` once a step is undefined.
pub open spec fn spec_nth_previous_quarter_end(end_date: int, count: nat) -> Option<int>
    decreases count,
{
    if count == 0 {
        Some(end_date)
    } else {
        match spec_nth_previous_quarter_end(end_date, (count - 1) as nat) {
            Some(d) => spec_previous_quarter_end_date(d),
            None => None,
        }
    }
}

proof fn lemma_nth_previous_in_range(end_date: int, count: nat)
    requires
        i32::MIN <= end_date <= i32::MAX,
    ensures
        spec_nth_previous_quarter_end(end_date, count) matches Some(d) ==> i32::MIN <= d
            <= i32::MAX,
    decreases count,
{
    if count > 0 {
        lemma_nth_previous_in_range(end_date, (count - 1) as nat);
        if let Some(d) = spec_nth_previous_quarter_end(end_date, (count - 1) as nat) {
            let y = trunc_div(d, 10_000);
            assert(-214_749 <= y <= 214_748);
        }
    }
}

/// The quarter end `count` quarters before `end_date`.
pub fn nth_previous_quarter_end_date(end_date: i32, count: usize) -> (r: Option<i32>)
    ensures
        r.is_some() == spec_nth_previous_quarter_end(end_date as int, count as nat).is_some(),
        r.is_some() ==> r.unwrap() as int == spec_nth_previous_quarter_end(
            end_date as int,
            count as nat,
        ).unwrap(),
{
    let mut current = end_date;
    let mut i: usize = 0;
    while i < count
        invariant
            i <= count,
            spec_nth_previous_quarter_end(end_date as int, i as nat) == Some(current as int),
        decreases count - i,
    {
        match previous_quarter_end_date(current) {
            Some(p) => {
                current = p;
            },
            None => {
                proof {
                    lemma_nth_none_stays_none(end_date as int, (i + 1) as nat, count as nat);
                }
                return None;
            },
        }
        i = i + 1;
    }
    Some(current)
}

proof fn lemma_nth_none_stays_none(end_date: int, k: nat, n: nat)
    requires
        k <= n,
        spec_nth_previous_quarter_end(end_date, k) is None,
    ensures
        spec_nth_previous_quarter_end(end_date, n) is None,
    decreases n - k,
{
    if k < n {
        lemma_nth_none_stays_none(end_date, k + 1, n);
    }
}

/// The chain `anchor, previous(anchor), ...` of `len` quarter ends, present
/// only when the quarter end after the last element is also defined.
pub open spec fn spec_quarter_chain(anchor: int, len: nat) -> Option<Seq<int>> {
    if spec_nth_previous_quarter_end(anchor, len) is Some {
        Some(Seq::new(len, |i: int| spec_nth_previous_quarter_end(anchor, i as nat).unwrap()))
    } else {
        None
    }
}

proof fn lemma_nth_prefix_some(end_date: int, k: nat, n: nat)
    requires
        k <= n,
        spec_nth_previous_quarter_end(end_date, n) is Some,
    ensures
        spec_nth_previous_quarter_end(end_date, k) is Some,
    decreases n - k,
{
    if k < n {
        lemma_nth_prefix_some(end_date, k + 1, n);
    }
}

/// The `len` quarter ends ending at `anchor`, newest first; `None` as soon as
/// stepping back past a quarter end is undefined, including the step after
/// the last element.
pub fn quarter_chain(anchor: i32, len: usize) -> (r: Option<Vec<i32>>)
    ensures
        r.is_some() == spec_quarter_chain(anchor as int, len as nat).is_some(),
        r.is_some() ==> r.unwrap()@.map_values(|v: i32| v as int) =~= spec_quarter_chain(
            anchor as int,
            len as nat,
        ).unwrap(),
{
    let mut output: Vec<i32> = Vec::new();
    let mut current = anchor;
    let mut i: usize = 0;
    while i < len
        invariant
            i <= len,
            output@.len() == i,
            spec_nth_previous_quarter_end(anchor as int, i as nat) == Some(current as int),
            forall|j: int|
                0 <= j < i ==> spec_nth_previous_quarter_end(anchor as int, j as nat) == Some(
                    output@[j] as int,
                ),
        decreases len - i,
    {
        output.push(current);
        match previous_quarter_end_date(current) {
            Some(p) => {
                current = p;
            },
            None => {
                proof {
                    lemma_nth_none_stays_none(anchor as int, (i + 1) as nat, len as nat);
                }
                return None;
            },
        }
        i = i + 1;
    }
    Some(output)
}

/// Up to `count` quarter ends ending at `latest_end`, oldest first; the chain
/// stops early when stepping back is undefined.
pub open spec fn spec_quarter_chain_ascending(latest_end: int, count: nat) -> Seq<int> {
    let n = spec_defined_prefix(latest_end, count);
    Seq::new(n, |i: int| spec_nth_previous_quarter_end(latest_end, (n - 1 - i) as nat).unwrap())
}

/// How many of the first `count` quarter steps from `latest_end` are defined.
pub open spec fn spec_defined_prefix(latest_end: int, count: nat) -> nat
    decreases count,
{
    if count == 0 {
        0
    } else {
        let k = spec_defined_prefix(latest_end, (count - 1) as nat);
        if k == count - 1 && spec_nth_previous_quarter_end(latest_end, k) is Some {
            count
        } else {
            k
        }
    }
}

proof fn lemma_defined_prefix(latest_end: int, count: nat)
    ensures
        spec_defined_prefix(latest_end, count) <= count,
        forall|j: nat|
            j < spec_defined_prefix(latest_end, count) ==> #[trigger] spec_nth_previous_quarter_end(
                latest_end,
                j,
            ) is Some,
        spec_defined_prefix(latest_end, count) < count ==> spec_nth_previous_quarter_end(
            latest_end,
            spec_defined_prefix(latest_end, count),
        ) is None,
    decreases count,
{
    if count > 0 {
        lemma_defined_prefix(latest_end, (count - 1) as nat);
        let k = spec_defined_prefix(latest_end, (count - 1) as nat);
        if k < count - 1 {
            lemma_nth_none_stays_none(latest_end, k, (count - 1) as nat);
        }
    }
}

/// Up to `count` quarter ends ending at `latest_end`, oldest first.
pub fn quarter_chain_ascending(latest_end: i32, count: usize) -> (r: Vec<i32>)
    ensures
        r@.map_values(|v: i32| v as int) =~= spec_quarter_chain_ascending(
            latest_end as int,
            count as nat,
        ),
{
    let mut dates: Vec<i32> = Vec::new();
    let mut current: Option<i32> = Some(latest_end);
    let mut i: usize = 0;
    proof {
        lemma_defined_prefix(latest_end as int, count as nat);
    }
    let ghost n = spec_defined_prefix(latest_end as int, count as nat);
    while i < count
        invariant
            i <= count,
            n == spec_defined_prefix(latest_end as int, count as nat),
            n <= count,
            forall|j: nat| j < n ==> #[trigger] spec_nth_previous_quarter_end(latest_end as int, j) is Some,
            n < count ==> spec_nth_previous_quarter_end(latest_end as int, n) is None,
            dates@.len() == if i <= n { i as nat } else { n },
            current.is_some() == spec_nth_previous_quarter_end(latest_end as int, i as nat).is_some(),
            current.is_some() ==> current.unwrap() as int == spec_nth_previous_quarter_end(
                latest_end as int,
                i as nat,
            ).unwrap(),
            i > n ==> current.is_none(),
            forall|j: int|
                0 <= j < dates@.len() ==> spec_nth_previous_quarter_end(latest_end as int, j as nat)
                    == Some(dates@[j] as int),
        ensures
            dates@.len() == n,
            forall|j: int|
                0 <= j < dates@.len() ==> spec_nth_previous_quarter_end(latest_end as int, j as nat)
                    == Some(dates@[j] as int),
        decreases count - i,
    {
        let end_date = match current {
            Some(d) => d,
            None => {
                proof {
                    if i < n {
                        assert(spec_nth_previous_quarter_end(latest_end as int, i as nat) is Some);
                    }
                }
                break;
            },
        };
        proof {
            if i > n {
                assert(false);
            }
            if i == n {
                assert(false);
            }
        }
        dates.push(end_date);
        current = previous_quarter_end_date(end_date);
        proof {
            if current.is_none() && i + 1 <= n {
                assert(spec_nth_previous_quarter_end(latest_end as int, (i + 1) as nat) is None);
            }
        }
        i = i + 1;
    }
    proof {
        assert(dates@.len() == n);
    }
    let mut ascending: Vec<i32> = Vec::new();
    let mut k: usize = dates.len();
    while k > 0
        invariant
            k <= dates@.len(),
            dates@.len() == n,
            ascending@.len() == n - k,
            forall|j: int|
                0 <= j < ascending@.len() ==> ascending@[j] == dates@[n - 1 - j],
        decreases k,
    {
        k = k - 1;
        ascending.push(dates[k]);
    }
    ascending
}


/// Splits a `YYYYMMDD` date into year, month and day with Rust's truncating
/// division.
pub fn split_yyyymmdd(date: i32) -> (r: (i32, i32, i32))
    ensures
        r.0 as int == year_of(date as int),
        r.1 as int == month_of(date as int),
        r.2 as int == day_of(date as int),
{
    let year = date / 10_000;
    let month = (date / 100) % 100;
    let day = date % 100;
    (year, month, day)
}

/// Days from 1970-01-01 to the proleptic Gregorian date `(year, month, day)`
/// (the civil-from-days inverse with eras of 400 years).
pub open spec fn spec_days_from_civil(year: int, month: int, day: int) -> int {
    let y = year - if month <= 2 {
        1int
    } else {
        0int
    };
    let era = trunc_div(
        if y >= 0 {
            y
        } else {
            y - 399
        },
        400,
    );
    let yoe = y - era * 400;
    let mp = month + if month > 2 {
        -3int
    } else {
        9int
    };
    let doy = trunc_div(153 * mp + 2, 5) + day - 1;
    let doe = yoe * 365 + trunc_div(yoe, 4) - trunc_div(yoe, 100) + doy;
    era * 146097 + doe
}

/// The year counted from March of `(year, month)`.
pub open spec fn civil_shifted_year(year: int, month: int) -> int {
    year - if month <= 2 {
        1int
    } else {
        0int
    }
}

/// The 400-year era of `(year, month)`.
pub open spec fn civil_era(year: int, month: int) -> int {
    let y = civil_shifted_year(year, month);
    trunc_div(
        if y >= 0 {
            y
        } else {
            y - 399
        },
        400,
    )
}

/// The month counted from March.
pub open spec fn civil_march_month(month: int) -> int {
    month + if month > 2 {
        -3int
    } else {
        9int
    }
}

/// The day of the March-based year.
pub open spec fn civil_day_of_year(month: int, day: int) -> int {
    trunc_div(153 * civil_march_month(month) + 2, 5) + day - 1
}

/// The day of the era.
pub open spec fn civil_day_of_era(year: int, month: int, day: int) -> int {
    let yoe = civil_shifted_year(year, month) - civil_era(year, month) * 400;
    yoe * 365 + trunc_div(yoe, 4) - trunc_div(yoe, 100) + civil_day_of_year(month, day)
}

/// Whether every step of the day count of `(year, month, day)` stays within
/// `i32`.
pub open spec fn civil_fits(year: int, month: int, day: int) -> bool {
    let y = civil_shifted_year(year, month);
    let mp = civil_march_month(month);
    let q = trunc_div(153 * mp + 2, 5);
    let era = civil_era(year, month);
    &&& i32::MIN <= y
    &&& (y >= 0 || i32::MIN <= y - 399)
    &&& i32::MIN <= 153 * mp <= i32::MAX
    &&& i32::MIN <= 153 * mp + 2 <= i32::MAX
    &&& i32::MIN <= q + day <= i32::MAX
    &&& i32::MIN <= q + day - 1 <= i32::MAX
    &&& i32::MIN <= civil_day_of_era(year, month, day) <= i32::MAX
    &&& i32::MIN <= era * 146097 <= i32::MAX
    &&& i32::MIN <= era * 146097 + civil_day_of_era(year, month, day) <= i32::MAX
}

proof fn lemma_year_of_era(y: int, era: int)
    requires
        era == trunc_div(
            if y >= 0 {
                y
            } else {
                y - 399
            },
            400,
        ),
    ensures
        0 <= y - era * 400 <= 399,
        era * 400 <= y || y < 0,
{
    if y >= 0 {
        assert(0 <= y - (y / 400) * 400 <= 399) by (nonlinear_arith)
            requires
                y >= 0,
        ;
    } else {
        let k = (399 - y) / 400;
        assert(era == -k);
        assert(0 <= y + k * 400 <= 399) by (nonlinear_arith)
            requires
                y < 0,
                k == (399 - y) / 400,
        ;
    }
}

/// Dates whose year, month and day are those of a `YYYYMMDD` value keep the
/// day count within `i32`.
proof fn lemma_civil_fits_small(year: int, month: int, day: int)
    requires
        -300_000 <= year <= 300_000,
        -100 <= month <= 100,
        -100 <= day <= 100,
    ensures
        civil_fits(year, month, day),
{
    let y = civil_shifted_year(year, month);
    let era = civil_era(year, month);
    lemma_year_of_era(y, era);
    assert(-752 <= era <= 751) by (nonlinear_arith)
        requires
            -300_001 <= y <= 300_000,
            y >= 0 ==> era == y / 400,
            y < 0 ==> era == -((399 - y) / 400),
    ;
    let mp = civil_march_month(month);
    let v = 153 * mp + 2;
    assert(-13_921 <= v <= 16_832);
    if v >= 0 {
        assert(0 <= v / 5 <= 4_000) by (nonlinear_arith)
            requires
                0 <= v <= 16_832,
        ;
    } else {
        assert(0 <= (-v) / 5 <= 3_000) by (nonlinear_arith)
            requires
                0 < -v <= 13_921,
        ;
    }
    assert(-3_000 <= trunc_div(153 * mp + 2, 5) <= 4_000);
    let yoe = y - era * 400;
    assert(-10_000_000 <= civil_day_of_era(year, month, day) <= 10_000_000) by (nonlinear_arith)
        requires
            0 <= yoe <= 399,
            -4_000 <= civil_day_of_year(month, day) <= 5_000,
            civil_day_of_era(year, month, day) == yoe * 365 + trunc_div(yoe, 4) - trunc_div(yoe, 100)
                + civil_day_of_year(month, day),
            trunc_div(yoe, 4) == yoe / 4,
            trunc_div(yoe, 100) == yoe / 100,
    ;
}

/// The first day of the month after `(year, month)`.
pub open spec fn next_month_start(year: int, month: int) -> (int, int) {
    if month == 12 {
        (year + 1, 1)
    } else {
        (year, month + 1)
    }
}

/// A month other than February lasts as many days as the civil day count
/// runs from its first day to the first day of the next month: 31 for
/// January, March, May, July, August, October and December, 30 for April,
/// June, September and November.
pub proof fn lemma_month_length_is_day_count(year: int, month: int)
    requires
        1 <= month <= 12,
        month != 2,
    ensures
        spec_days_in_month(year, month) == spec_days_from_civil(
            next_month_start(year, month).0,
            next_month_start(year, month).1,
            1,
        ) - spec_days_from_civil(year, month, 1),
{
    let n = next_month_start(year, month);
    assert(civil_shifted_year(n.0, n.1) == civil_shifted_year(year, month));
    let mp = civil_march_month(month);
    let mq = civil_march_month(n.1);
    assert(0 <= 153 * mp + 2 && 0 <= 153 * mq + 2);
    assert(trunc_div(153 * mp + 2, 5) == (153 * mp + 2) / 5);
    assert(trunc_div(153 * mq + 2, 5) == (153 * mq + 2) / 5);
    if month == 1 {
        assert(mp == 10 && mq == 11);
    } else if month == 3 {
        assert(mp == 0 && mq == 1);
    } else if month == 4 {
        assert(mp == 1 && mq == 2);
    } else if month == 5 {
        assert(mp == 2 && mq == 3);
    } else if month == 6 {
        assert(mp == 3 && mq == 4);
    } else if month == 7 {
        assert(mp == 4 && mq == 5);
    } else if month == 8 {
        assert(mp == 5 && mq == 6);
    } else if month == 9 {
        assert(mp == 6 && mq == 7);
    } else if month == 10 {
        assert(mp == 7 && mq == 8);
    } else if month == 11 {
        assert(mp == 8 && mq == 9);
    } else {
        assert(mp == 9 && mq == 10);
    }
}

proof fn lemma_floor_div_step(y: int, d: int)
    requires
        y >= 0,
        d > 0,
    ensures
        (y + 1) / d - y / d == if (y + 1) % d == 0 {
            1int
        } else {
            0int
        },
{
    let q = y / d;
    let r = y % d;
    vstd::arithmetic::div_mod::lemma_fundamental_div_mod(y, d);
    if r + 1 < d {
        vstd::arithmetic::div_mod::lemma_fundamental_div_mod_converse(y + 1, d, q, r + 1);
    } else {
        assert(y + 1 == (q + 1) * d) by (nonlinear_arith)
            requires
                y == d * q + r,
                r + 1 >= d,
                r < d,
        ;
        vstd::arithmetic::div_mod::lemma_fundamental_div_mod_converse(y + 1, d, q + 1, 0);
    }
}

/// The era-based day count of the start of the March-based year `y`, as the
/// plain Gregorian count of years and leap days.
proof fn lemma_civil_year_start(y: int)
    requires
        y >= 0,
    ensures
        ({
            let era = trunc_div(y, 400);
            let yoe = y - era * 400;
            era * 146097 + yoe * 365 + trunc_div(yoe, 4) - trunc_div(yoe, 100) == 365 * y + y / 4 - y / 100 + y
                / 400
        }),
{
    let era = y / 400;
    let yoe = y % 400;
    vstd::arithmetic::div_mod::lemma_fundamental_div_mod(y, 400);
    assert(0 <= yoe < 400);
    vstd::arithmetic::div_mod::lemma_fundamental_div_mod(yoe, 4);
    vstd::arithmetic::div_mod::lemma_fundamental_div_mod(yoe, 100);
    vstd::arithmetic::div_mod::lemma_fundamental_div_mod_converse(y, 4, 100 * era + yoe / 4, yoe % 4);
    vstd::arithmetic::div_mod::lemma_fundamental_div_mod_converse(y, 100, 4 * era + yoe / 100, yoe % 100);
    assert(y - era * 400 == yoe);
}

/// February lasts as many days as the civil day count runs from its first
/// day to the first of March: 29 days in a Gregorian leap year (divisible by
/// 4 and not by 100, or by 400), 28 otherwise.
pub proof fn lemma_february_length_is_day_count(year: int)
    requires
        year >= 1,
    ensures
        spec_days_in_month(year, 2) == spec_days_from_civil(year, 3, 1) - spec_days_from_civil(year, 2, 1),
        spec_days_in_month(year, 2) == if (year % 4 == 0 && year % 100 != 0) || year % 400 == 0 {
            29int
        } else {
            28int
        },
{
    let y0 = year - 1;
    lemma_civil_year_start(y0);
    lemma_civil_year_start(year);
    lemma_floor_div_step(y0, 4);
    lemma_floor_div_step(y0, 100);
    lemma_floor_div_step(y0, 400);
    assert(trunc_div(1685int, 5) == 337);
    assert(trunc_div(2int, 5) == 0);
    assert(trunc_rem(year, 4) == year % 4);
    assert(trunc_rem(year, 100) == year % 100);
    assert(trunc_rem(year, 400) == year % 400);
}

/// Moving a calendar date one day forward advances its civil day count by
/// exactly one (the last day of February of year 0 aside): `add_days` of a
/// valid date gives the next calendar date.
pub proof fn lemma_next_day_advances_day_count(year: int, month: int, day: int)
    requires
        year >= 0,
        1 <= month <= 12,
        1 <= day <= spec_days_in_month(year, month),
        !(year == 0 && month == 2 && day == spec_days_in_month(year, month)),
    ensures
        ({
            let r = spec_add_days(year * 10_000 + month * 100 + day, 1);
            spec_days_from_civil(year_of(r), month_of(r), day_of(r)) == spec_days_from_civil(year, month, day) + 1
        }),
{
    let date = year * 10_000 + month * 100 + day;
    vstd::arithmetic::div_mod::lemma_fundamental_div_mod_converse(date, 10_000, year, month * 100 + day);
    vstd::arithmetic::div_mod::lemma_fundamental_div_mod_converse(date, 100, year * 100 + month, day);
    vstd::arithmetic::div_mod::lemma_fundamental_div_mod_converse(year * 100 + month, 100, year, month);
    assert(date / 10_000 == year && (date / 100) % 100 == month && date % 100 == day);
    let n = next_day(year, month, day);
    assert(days_forward(year, month, day, 1) == days_forward(n.0, n.1, n.2, 0));
    let r = spec_add_days(date, 1);
    assert(r == n.0 * 10_000 + n.1 * 100 + n.2);
    assert(1 <= n.1 <= 12 && 1 <= n.2 <= 31 && n.0 >= 0);
    vstd::arithmetic::div_mod::lemma_fundamental_div_mod_converse(r, 10_000, n.0, n.1 * 100 + n.2);
    vstd::arithmetic::div_mod::lemma_fundamental_div_mod_converse(r, 100, n.0 * 100 + n.1, n.2);
    vstd::arithmetic::div_mod::lemma_fundamental_div_mod_converse(n.0 * 100 + n.1, 100, n.0, n.1);
    assert(year_of(r) == n.0 && month_of(r) == n.1 && day_of(r) == n.2);
    if day < spec_days_in_month(year, month) {
        assert(n == (year, month, day + 1));
    } else if month == 2 {
        lemma_february_length_is_day_count(year);
        assert(n == (year, 3int, 1int));
    } else {
        lemma_month_length_is_day_count(year, month);
        assert(n == (next_month_start(year, month).0, next_month_start(year, month).1, 1int));
    }
}

/// Day count of a civil date relative to 1970-01-01.
pub fn days_from_civil(year: i32, month: i32, day: i32) -> (r: i32)
    requires
        civil_fits(year as int, month as int, day as int),
    ensures
        r as int == spec_days_from_civil(year as int, month as int, day as int),
{
    let y = year - if month <= 2 {
        1
    } else {
        0
    };
    let era = (if y >= 0 {
        y
    } else {
        y - 399
    }) / 400;
    proof {
        assert(era as int == civil_era(year as int, month as int));
        lemma_year_of_era(y as int, era as int);
        assert(-5_368_710 <= era <= 5_368_709) by (nonlinear_arith)
            requires
                y >= 0 ==> era == y / 400,
                y < 0 ==> era == -((399 - y) / 400),
                i32::MIN <= y <= i32::MAX,
        ;
    }
    let yoe = y - era * 400;
    let mp = month + if month > 2 {
        -3
    } else {
        9
    };
    let doy = (153 * mp + 2) / 5 + day - 1;
    let doe = yoe * 365 + yoe / 4 - yoe / 100 + doy;
    proof {
        assert(doe as int == civil_day_of_era(year as int, month as int, day as int));
    }
    era * 146097 + doe
}

/// Week number of a date: weeks run Monday to Sunday.
pub open spec fn spec_week_index(date: int) -> int {
    (spec_days_from_civil(year_of(date), month_of(date), day_of(date)) + 2) / 7
}

/// Monday-based week number of a `YYYYMMDD` date.
pub fn week_index(date: i32) -> (r: i32)
    ensures
        r as int == spec_week_index(date as int),
{
    let (year, month, day) = split_yyyymmdd(date);
    proof {
        lemma_civil_fits_small(year as int, month as int, day as int);
    }
    let days = days_from_civil(year, month, day);
    let t = days + 2;
    if t >= 0 {
        t / 7
    } else {
        -((-t - 1) / 7) - 1
    }
}

/// Whether position `idx` of `dates` is the last date of its week in the
/// list: the next entry, if any, falls in another week.
pub open spec fn is_week_end_position(dates: Seq<i32>, idx: int) -> bool {
    idx + 1 >= dates.len() || spec_week_index(dates[idx + 1] as int) != spec_week_index(
        dates[idx] as int,
    )
}

/// Positions `idx` of `dates` whose next entry lies in a different week or
/// that are last.
pub fn week_end_indices(dates: &[i32]) -> (r: Vec<usize>)
    ensures
        forall|k: int| 0 <= k < r@.len() ==> (r@[k] as int) < dates@.len(),
        forall|k: int, l: int| 0 <= k < l < r@.len() ==> r@[k] < r@[l],
        forall|idx: int|
            0 <= idx < dates@.len() ==> (is_week_end_position(dates@, idx) <==> r@.contains(
                idx as usize,
            )),
{
    let mut output: Vec<usize> = Vec::new();
    let mut idx: usize = 0;
    while idx < dates.len()
        invariant
            idx <= dates@.len(),
            forall|k: int| 0 <= k < output@.len() ==> (output@[k] as int) < idx,
            forall|k: int, l: int| 0 <= k < l < output@.len() ==> output@[k] < output@[l],
            forall|j: int|
                0 <= j < idx ==> (is_week_end_position(dates@, j) <==> output@.contains(
                    j as usize,
                )),
        decreases dates@.len() - idx,
    {
        let current = week_index(dates[idx]);
        let is_end = if idx + 1 < dates.len() {
            week_index(dates[idx + 1]) != current
        } else {
            true
        };
        let ghost before = output@;
        if is_end {
            output.push(idx);
        }
        proof {
            assert(is_end == is_week_end_position(dates@, idx as int));
            assert forall|j: int| 0 <= j < idx + 1 implies (is_week_end_position(dates@, j)
                <==> output@.contains(j as usize)) by {
                if is_end {
                    assert(output@ == before.push(idx));
                    if j < idx {
                        if output@.contains(j as usize) {
                            let k = choose|k: int| 0 <= k < output@.len() && output@[k] == j as usize;
                            if k == before.len() {
                                assert(output@[k] == idx);
                            } else {
                                assert(before[k] == j as usize);
                            }
                        }
                        if before.contains(j as usize) {
                            let k = choose|k: int| 0 <= k < before.len() && before[k] == j as usize;
                            assert(output@[k] == j as usize);
                        }
                    } else {
                        assert(output@[before.len() as int] == idx);
                    }
                } else {
                    if j == idx {
                        if output@.contains(j as usize) {
                            let k = choose|k: int| 0 <= k < output@.len() && output@[k] == j as usize;
                            assert((output@[k] as int) < idx);
                        }
                    }
                }
            }
        }
        idx = idx + 1;
    }
    output
}

/// The dates among the first `n` of `dates` that end a week run, in list order.
pub open spec fn week_end_prefix(dates: Seq<i32>, n: nat) -> Seq<i32>
    decreases n,
{
    if n == 0 {
        Seq::empty()
    } else {
        let prev = week_end_prefix(dates, (n - 1) as nat);
        if is_week_end_position(dates, n - 1) {
            prev.push(dates[n - 1])
        } else {
            prev
        }
    }
}

/// The dates of `dates` that end a week run, in list order.
pub fn week_end_dates(dates: &[i32]) -> (r: Vec<i32>)
    ensures
        r@ == week_end_prefix(dates@, dates@.len()),
{
    let mut output: Vec<i32> = Vec::new();
    let mut idx: usize = 0;
    while idx < dates.len()
        invariant
            idx <= dates@.len(),
            output@ == week_end_prefix(dates@, idx as nat),
        decreases dates@.len() - idx,
    {
        let current = week_index(dates[idx]);
        let is_end = if idx + 1 < dates.len() {
            week_index(dates[idx + 1]) != current
        } else {
            true
        };
        if is_end {
            output.push(dates[idx]);
        }
        idx = idx + 1;
    }
    output
}

/// Whether `s` is strictly increasing.
pub open spec fn strictly_increasing(s: Seq<i32>) -> bool {
    forall|i: int, j: int| 0 <= i < j < s.len() ==> s[i] < s[j]
}

/// Adds `x` to the strictly increasing `v`, unless it is there already.
fn insert_sorted(v: &mut Vec<i32>, x: i32)
    requires
        strictly_increasing(old(v)@),
    ensures
        strictly_increasing(final(v)@),
        forall|y: i32| #[trigger] final(v)@.contains(y) <==> old(v)@.contains(y) || y == x,
{
    let mut p: usize = 0;
    while p < v.len() && v[p] < x
        invariant
            p <= v@.len(),
            forall|i: int| 0 <= i < p ==> #[trigger] v@[i] < x,
        decreases v@.len() - p,
    {
        p = p + 1;
    }
    if p < v.len() && v[p] == x {
        return;
    }
    let ghost before = v@;
    v.insert(p, x);
    proof {
        assert forall|y: i32| #[trigger] v@.contains(y) <==> before.contains(y) || y == x by {
            if before.contains(y) {
                let i = choose|i: int| 0 <= i < before.len() && before[i] == y;
                if i < p {
                    assert(v@[i] == y);
                } else {
                    assert(v@[i + 1] == y);
                }
            }
            if y == x {
                assert(v@[p as int] == x);
            }
            if v@.contains(y) {
                let i = choose|i: int| 0 <= i < v@.len() && v@[i] == y;
                if i < p {
                    assert(before[i] == y);
                } else if i > p {
                    assert(before[i - 1] == y);
                }
            }
        }
    }
}

/// The distinct values of `values`, in increasing order.
pub fn sorted_unique(values: &[i32]) -> (r: Vec<i32>)
    ensures
        strictly_increasing(r@),
        forall|y: i32| #[trigger] r@.contains(y) <==> values@.contains(y),
{
    let mut out: Vec<i32> = Vec::new();
    let mut i: usize = 0;
    while i < values.len()
        invariant
            i <= values@.len(),
            strictly_increasing(out@),
            forall|y: i32| #[trigger] out@.contains(y) <==> values@.subrange(0, i as int).contains(y),
        decreases values@.len() - i,
    {
        let ghost before = out@;
        insert_sorted(&mut out, values[i]);
        proof {
            let pre = values@.subrange(0, i as int);
            let post = values@.subrange(0, i + 1);
            assert forall|y: i32| #[trigger] out@.contains(y) <==> post.contains(y) by {
                if post.contains(y) {
                    let j = choose|j: int| 0 <= j < post.len() && post[j] == y;
                    if j < i {
                        assert(pre[j] == y);
                    }
                }
                if pre.contains(y) {
                    let j = choose|j: int| 0 <= j < pre.len() && pre[j] == y;
                    assert(post[j] == y);
                }
                if y == values@[i as int] {
                    assert(post[i as int] == y);
                }
                assert(before.contains(y) <==> pre.contains(y));
            }
        }
        i = i + 1;
    }
    assert(values@.subrange(0, values@.len() as int) =~= values@);
    out
}

/// Index of the first entry of `dates` that is on or after `target`.
pub open spec fn spec_first_on_or_after(dates: Seq<i32>, target: i32) -> Option<int> {
    if exists|i: int| 0 <= i < dates.len() && dates[i] >= target {
        Some(choose|i: int| 0 <= i < dates.len() && dates[i] >= target && forall|j: int| 0 <= j < i ==> dates[j] < target)
    } else {
        None
    }
}

/// Index of the first date in `dates` that is on or after `target`.
pub fn first_date_on_or_after(dates: &[i32], target: i32) -> (r: Option<usize>)
    ensures
        r.is_none() <==> forall|i: int| 0 <= i < dates@.len() ==> dates@[i] < target,
        r matches Some(i) ==> i < dates@.len() && dates@[i as int] >= target && forall|j: int|
            0 <= j < i ==> dates@[j] < target,
        match r {
            Some(i) => spec_first_on_or_after(dates@, target) == Some(i as int),
            None => spec_first_on_or_after(dates@, target) is None,
        },
{
    let mut i: usize = 0;
    while i < dates.len()
        invariant
            i <= dates@.len(),
            forall|j: int| 0 <= j < i ==> dates@[j] < target,
        decreases dates@.len() - i,
    {
        if dates[i] >= target {
            proof {
                let c = choose|c: int| 0 <= c < dates@.len() && dates@[c] >= target && forall|j: int| 0 <= j < c ==> dates@[j] < target;
                assert(0 <= i < dates@.len() && dates@[i as int] >= target && forall|j: int| 0 <= j < i ==> dates@[j] < target);
                if c < i {
                    assert(dates@[c] < target);
                } else if c > i {
                    assert(dates@[i as int] < target);
                }
            }
            return Some(i);
        }
        i = i + 1;
    }
    None
}

} // verus!
