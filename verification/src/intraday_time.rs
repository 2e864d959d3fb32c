//! Reading the time of day out of minute-bar timestamps such as
//! `2026-01-05 09:31:00`, `2026-01-05T09:31` or `09:31`.
use vstd::prelude::*;
use crate::table::{all_digits, digits_value, is_digit};

verus! {

/// Whether `c` is white space (Unicode `White_Space`), as `char::is_whitespace`.
pub open spec fn is_ws(c: char) -> bool {
    let x = c as u32;
    (0x09 <= x <= 0x0D) || x == 0x20 || x == 0x85 || x == 0xA0 || x == 0x1680 || (0x2000 <= x
        <= 0x200A) || x == 0x2028 || x == 0x2029 || x == 0x202F || x == 0x205F || x == 0x3000
}

/// Whether `c` is an ASCII character.
pub open spec fn is_ascii_char(c: char) -> bool {
    (c as u32) < 0x80
}

/// Number of bytes of `c` in UTF-8.
pub open spec fn utf8_len(c: char) -> int {
    let x = c as u32;
    if x < 0x80 {
        1
    } else if x < 0x800 {
        2
    } else if x < 0x10000 {
        3
    } else {
        4
    }
}

/// Number of bytes of `s` in UTF-8.
pub open spec fn utf8_byte_len(s: Seq<char>) -> int
    decreases s.len(),
{
    if s.len() == 0 {
        0
    } else {
        utf8_byte_len(s.drop_last()) + utf8_len(s.last())
    }
}

/// `s` without leading white space.
pub open spec fn strip_front(s: Seq<char>) -> Seq<char>
    decreases s.len(),
{
    if s.len() > 0 && is_ws(s[0]) {
        strip_front(s.drop_first())
    } else {
        s
    }
}

/// `s` without trailing white space.
pub open spec fn strip_back(s: Seq<char>) -> Seq<char>
    decreases s.len(),
{
    if s.len() > 0 && is_ws(s.last()) {
        strip_back(s.drop_last())
    } else {
        s
    }
}

/// `s` without leading and trailing white space, as `str::trim`.
pub open spec fn trimmed(s: Seq<char>) -> Seq<char> {
    strip_back(strip_front(s))
}

/// The characters after the last `c` in `s`, if `s` holds one.
pub open spec fn after_last(s: Seq<char>, c: char) -> Option<Seq<char>>
    decreases s.len(),
{
    if s.len() == 0 {
        None
    } else if s.last() == c {
        Some(Seq::empty())
    } else {
        match after_last(s.drop_last(), c) {
            Some(t) => Some(t.push(s.last())),
            None => None,
        }
    }
}

/// The characters after the last white space in `s`, or all of `s`.
pub open spec fn after_last_ws(s: Seq<char>) -> Seq<char>
    decreases s.len(),
{
    if s.len() == 0 {
        s
    } else if is_ws(s.last()) {
        Seq::empty()
    } else {
        after_last_ws(s.drop_last()).push(s.last())
    }
}

/// The characters before the first `c` in `s`, or all of `s`.
pub open spec fn before_first(s: Seq<char>, c: char) -> Seq<char>
    decreases s.len(),
{
    if s.len() == 0 {
        s
    } else if s[0] == c {
        Seq::empty()
    } else {
        seq![s[0]] + before_first(s.drop_first(), c)
    }
}

/// The characters after the first `c` in `s`, if `s` holds one.
pub open spec fn after_first(s: Seq<char>, c: char) -> Option<Seq<char>>
    decreases s.len(),
{
    if s.len() == 0 {
        None
    } else if s[0] == c {
        Some(s.drop_first())
    } else {
        after_first(s.drop_first(), c)
    }
}

/// The integer `s` spells, as `i32::from_str`: an optional sign and one or
/// more ASCII digits, within the `i32` range.
pub open spec fn parse_i32(s: Seq<char>) -> Option<i32> {
    if s.len() > 0 && (s[0] == '+' || s[0] == '-') {
        let d = s.drop_first();
        if d.len() > 0 && all_digits(d) {
            let v = if s[0] == '-' {
                -digits_value(d)
            } else {
                digits_value(d)
            };
            if i32::MIN <= v <= i32::MAX {
                Some(v as i32)
            } else {
                None
            }
        } else {
            None
        }
    } else if s.len() > 0 && all_digits(s) {
        if digits_value(s) <= i32::MAX {
            Some(digits_value(s) as i32)
        } else {
            None
        }
    } else {
        None
    }
}

/// The time part of a timestamp: trimmed, then what follows the last space
/// (or else the last `T`), trimmed again; `None` for a blank timestamp.
pub open spec fn time_part(s: Seq<char>) -> Option<Seq<char>> {
    let t = trimmed(s);
    if t.len() == 0 {
        None
    } else {
        Some(
            trimmed(
                match after_last(t, ' ') {
                    Some(x) => x,
                    None => match after_last(t, 'T') {
                        Some(x) => x,
                        None => t,
                    },
                },
            ),
        )
    }
}

/// Whether the first `n` characters of `v` are ASCII.
pub open spec fn ascii_prefix(v: Seq<char>, n: int) -> bool {
    v.len() >= n && forall|i: int| 0 <= i < n ==> is_ascii_char(#[trigger] v[i])
}

/// Hour and minute of an `HH:MM...` time part: the integers of characters
/// 0..2 and 3..5.
pub open spec fn hour_minute(v: Seq<char>) -> Option<(i32, i32)> {
    if ascii_prefix(v, 5) {
        match (parse_i32(v.subrange(0, 2)), parse_i32(v.subrange(3, 5))) {
            (Some(h), Some(m)) => Some((h, m)),
            _ => None,
        }
    } else {
        None
    }
}

/// Minutes since midnight of a timestamp read as `HH:MM`.
pub open spec fn spec_time_to_minutes(s: Seq<char>) -> Option<int> {
    match time_part(s) {
        Some(v) => match hour_minute(v) {
            Some((h, m)) => Some(h * 60 + m),
            None => None,
        },
        None => None,
    }
}

/// Seconds since midnight of a timestamp read as `HH:MM[:SS]`: seconds are
/// read from characters 6..8 when the time part has eight or more bytes.
pub open spec fn spec_time_to_seconds(s: Seq<char>) -> Option<int> {
    match time_part(s) {
        Some(v) => match hour_minute(v) {
            Some((h, m)) => if utf8_byte_len(v) >= 8 {
                if ascii_prefix(v, 8) {
                    match parse_i32(v.subrange(6, 8)) {
                        Some(sec) => Some(h * 3600 + m * 60 + sec),
                        None => None,
                    }
                } else {
                    None
                }
            } else {
                Some(h * 3600 + m * 60)
            },
            None => None,
        },
        None => None,
    }
}

/// The last white-space separated token of `s` (empty for a blank `s`).
pub open spec fn last_token(s: Seq<char>) -> Seq<char> {
    after_last_ws(strip_back(s))
}

/// Hour and minute of the last token of `s` read as `H:M`: the integers
/// before the first `:` and between it and the next `:`.
pub open spec fn colon_hour_minute(s: Seq<char>) -> Option<(i32, i32)> {
    let t = last_token(s);
    match after_first(t, ':') {
        Some(rest) => match (parse_i32(before_first(t, ':')), parse_i32(before_first(rest, ':'))) {
            (Some(h), Some(m)) => Some((h, m)),
            _ => None,
        },
        None => None,
    }
}

/// The characters of `s`.
pub fn chars_of(s: &str) -> (r: Vec<char>)
    ensures
        r@ == s@,
{
    let n = s.unicode_len();
    let mut out: Vec<char> = Vec::new();
    let mut i: usize = 0;
    while i < n
        invariant
            n == s@.len(),
            i <= n,
            out@ =~= s@.subrange(0, i as int),
        decreases n - i,
    {
        out.push(s.get_char(i));
        i = i + 1;
    }
    assert(out@ =~= s@);
    out
}

/// Whether `c` is white space.
pub fn char_is_ws(c: char) -> (r: bool)
    ensures
        r == is_ws(c),
{
    let x = c as u32;
    (0x09 <= x && x <= 0x0D) || x == 0x20 || x == 0x85 || x == 0xA0 || x == 0x1680 || (0x2000 <= x
        && x <= 0x200A) || x == 0x2028 || x == 0x2029 || x == 0x202F || x == 0x205F || x == 0x3000
}

proof fn lemma_strip_front_step(s: Seq<char>, lo: int, hi: int)
    requires
        0 <= lo < hi <= s.len(),
        is_ws(s[lo]),
    ensures
        strip_front(s.subrange(lo, hi)) == strip_front(s.subrange(lo + 1, hi)),
{
    assert(s.subrange(lo, hi).drop_first() =~= s.subrange(lo + 1, hi));
}

proof fn lemma_strip_back_step(s: Seq<char>, lo: int, hi: int)
    requires
        0 <= lo < hi <= s.len(),
        is_ws(s[hi - 1]),
    ensures
        strip_back(s.subrange(lo, hi)) == strip_back(s.subrange(lo, hi - 1)),
{
    assert(s.subrange(lo, hi).drop_last() =~= s.subrange(lo, hi - 1));
}

/// The bounds of `s[lo..hi]` trimmed.
pub(crate) fn trim_range(s: &[char], lo: usize, hi: usize) -> (r: (usize, usize))
    requires
        lo <= hi <= s@.len(),
    ensures
        lo <= r.0 <= r.1 <= hi,
        s@.subrange(r.0 as int, r.1 as int) == trimmed(s@.subrange(lo as int, hi as int)),
{
    let mut a = lo;
    while a < hi && char_is_ws(s[a])
        invariant
            lo <= a <= hi,
            hi <= s@.len(),
            strip_front(s@.subrange(lo as int, hi as int)) == strip_front(s@.subrange(a as int, hi as int)),
        decreases hi - a,
    {
        proof {
            lemma_strip_front_step(s@, a as int, hi as int);
        }
        a = a + 1;
    }
    let ghost front = s@.subrange(a as int, hi as int);
    assert(strip_front(front) == front);
    let mut b = hi;
    while b > a && char_is_ws(s[b - 1])
        invariant
            a <= b <= hi,
            hi <= s@.len(),
            strip_back(front) == strip_back(s@.subrange(a as int, b as int)),
            front == s@.subrange(a as int, hi as int),
        decreases b - a,
    {
        proof {
            lemma_strip_back_step(s@, a as int, b as int);
        }
        b = b - 1;
    }
    (a, b)
}

/// Position just after the last `c` in `s[lo..hi]`.
fn after_last_range(s: &[char], lo: usize, hi: usize, c: char) -> (r: Option<usize>)
    requires
        lo <= hi <= s@.len(),
    ensures
        match r {
            Some(p) => lo < p <= hi && after_last(s@.subrange(lo as int, hi as int), c) == Some(
                s@.subrange(p as int, hi as int),
            ),
            None => after_last(s@.subrange(lo as int, hi as int), c) is None,
        },
{
    let mut b = hi;
    while b > lo && s[b - 1] != c
        invariant
            lo <= b <= hi,
            hi <= s@.len(),
            forall|j: int| b <= j < hi ==> s@[j] != c,
        decreases b - lo,
    {
        b = b - 1;
    }
    proof {
        lemma_after_last_range(s@, lo as int, b as int, hi as int, c);
    }
    if b > lo {
        Some(b)
    } else {
        None
    }
}

proof fn lemma_after_last_range(s: Seq<char>, lo: int, b: int, hi: int, c: char)
    requires
        0 <= lo <= b <= hi <= s.len(),
        forall|j: int| b <= j < hi ==> s[j] != c,
        b > lo ==> s[b - 1] == c,
    ensures
        b > lo ==> after_last(s.subrange(lo, hi), c) == Some(s.subrange(b, hi)),
        b == lo ==> after_last(s.subrange(lo, hi), c) is None,
    decreases hi - b,
{
    if hi > b {
        lemma_after_last_range(s, lo, b, hi - 1, c);
        assert(s.subrange(lo, hi).drop_last() =~= s.subrange(lo, hi - 1));
        assert(s.subrange(b, hi - 1).push(s[hi - 1]) =~= s.subrange(b, hi));
    } else if b > lo {
        assert(s.subrange(lo, hi).last() == c);
        assert(s.subrange(b, hi) =~= Seq::<char>::empty());
    }
}

/// Position just after the last white space in `s[lo..hi]`, or `lo`.
fn after_last_ws_range(s: &[char], lo: usize, hi: usize) -> (r: usize)
    requires
        lo <= hi <= s@.len(),
    ensures
        lo <= r <= hi,
        after_last_ws(s@.subrange(lo as int, hi as int)) == s@.subrange(r as int, hi as int),
{
    let mut b = hi;
    while b > lo && !char_is_ws(s[b - 1])
        invariant
            lo <= b <= hi,
            hi <= s@.len(),
            forall|j: int| b <= j < hi ==> !is_ws(s@[j]),
        decreases b - lo,
    {
        b = b - 1;
    }
    proof {
        lemma_after_last_ws_range(s@, lo as int, b as int, hi as int);
    }
    b
}

proof fn lemma_after_last_ws_range(s: Seq<char>, lo: int, b: int, hi: int)
    requires
        0 <= lo <= b <= hi <= s.len(),
        forall|j: int| b <= j < hi ==> !is_ws(s[j]),
        b > lo ==> is_ws(s[b - 1]),
    ensures
        after_last_ws(s.subrange(lo, hi)) == s.subrange(b, hi),
    decreases hi - lo,
{
    if hi > b {
        lemma_after_last_ws_range(s, lo, b, hi - 1);
        assert(s.subrange(lo, hi).drop_last() =~= s.subrange(lo, hi - 1));
        assert(s.subrange(b, hi - 1).push(s[hi - 1]) =~= s.subrange(b, hi));
    } else if b > lo {
        assert(is_ws(s.subrange(lo, hi).last()));
        assert(s.subrange(b, hi) =~= Seq::<char>::empty());
    } else {
        assert(s.subrange(lo, hi) =~= Seq::<char>::empty());
    }
}

/// Position of the first `c` in `s[lo..hi]`, or `hi`.
fn first_index_range(s: &[char], lo: usize, hi: usize, c: char) -> (r: usize)
    requires
        lo <= hi <= s@.len(),
    ensures
        lo <= r <= hi,
        before_first(s@.subrange(lo as int, hi as int), c) == s@.subrange(lo as int, r as int),
        r < hi ==> after_first(s@.subrange(lo as int, hi as int), c) == Some(
            s@.subrange(r + 1, hi as int),
        ),
        r == hi ==> after_first(s@.subrange(lo as int, hi as int), c) is None,
{
    let mut a = lo;
    while a < hi && s[a] != c
        invariant
            lo <= a <= hi,
            hi <= s@.len(),
            forall|j: int| lo <= j < a ==> s@[j] != c,
        decreases hi - a,
    {
        a = a + 1;
    }
    proof {
        lemma_first_index_range(s@, lo as int, a as int, hi as int, c);
    }
    a
}

proof fn lemma_first_index_range(s: Seq<char>, lo: int, a: int, hi: int, c: char)
    requires
        0 <= lo <= a <= hi <= s.len(),
        forall|j: int| lo <= j < a ==> s[j] != c,
        a < hi ==> s[a] == c,
    ensures
        before_first(s.subrange(lo, hi), c) == s.subrange(lo, a),
        a < hi ==> after_first(s.subrange(lo, hi), c) == Some(s.subrange(a + 1, hi)),
        a == hi ==> after_first(s.subrange(lo, hi), c) is None,
    decreases a - lo,
{
    if lo < a {
        lemma_first_index_range(s, lo + 1, a, hi, c);
        assert(s.subrange(lo, hi).drop_first() =~= s.subrange(lo + 1, hi));
        assert(seq![s[lo]] + s.subrange(lo + 1, a) =~= s.subrange(lo, a));
    } else if a < hi {
        assert(s.subrange(lo, hi)[0] == c);
        assert(s.subrange(lo, hi).drop_first() =~= s.subrange(a + 1, hi));
        assert(s.subrange(lo, a) =~= Seq::<char>::empty());
    } else {
        assert(s.subrange(lo, hi) =~= Seq::<char>::empty());
        assert(s.subrange(lo, a) =~= Seq::<char>::empty());
    }
}

proof fn lemma_digits_nonneg(s: Seq<char>)
    requires
        all_digits(s),
    ensures
        digits_value(s) >= 0,
    decreases s.len(),
{
    if s.len() > 0 {
        assert(is_digit(s[s.len() - 1]));
        lemma_digits_nonneg(s.drop_last());
    }
}

/// Whether `c` is an ASCII digit.
fn char_is_digit(c: char) -> (r: bool)
    ensures
        r == is_digit(c),
{
    let x = c as u32;
    48 <= x && x <= 57
}

/// The integer `s[lo..hi]` spells; see [`parse_i32`].
pub fn parse_i32_range(s: &[char], lo: usize, hi: usize) -> (r: Option<i32>)
    requires
        lo <= hi <= s@.len(),
    ensures
        r == parse_i32(s@.subrange(lo as int, hi as int)),
{
    let ghost t = s@.subrange(lo as int, hi as int);
    if lo == hi {
        return None;
    }
    let negative = s[lo] == '-';
    let signed = s[lo] == '+' || negative;
    let start = if signed {
        lo + 1
    } else {
        lo
    };
    if start == hi {
        proof {
            assert(t[0] == s@[lo as int]);
            assert(t.drop_first().len() == 0);
        }
        return None;
    }
    let ghost d = s@.subrange(start as int, hi as int);
    proof {
        if signed {
            assert(t.drop_first() =~= d);
        } else {
            assert(t =~= d);
        }
    }
    let cap: i64 = 3_000_000_000;
    let mut acc: i64 = 0;
    let mut i = start;
    while i < hi
        invariant
            start <= i <= hi,
            hi <= s@.len(),
            cap == 3_000_000_000,
            lo < hi,
            t == s@.subrange(lo as int, hi as int),
            t[0] == s@[lo as int],
            negative == (s@[lo as int] == '-'),
            signed == (s@[lo as int] == '+' || s@[lo as int] == '-'),
            signed ==> t.drop_first() == d,
            !signed ==> t == d,
            d == s@.subrange(start as int, hi as int),
            all_digits(s@.subrange(start as int, i as int)),
            0 <= acc <= cap,
            acc < cap ==> acc == digits_value(s@.subrange(start as int, i as int)),
            acc == cap ==> digits_value(s@.subrange(start as int, i as int)) >= cap,
        decreases hi - i,
    {
        let c = s[i];
        if !char_is_digit(c) {
            proof {
                assert(d[i - start] == c);
                assert(!all_digits(d));
                assert(t[0] == s@[lo as int]);
            }
            return None;
        }
        let ghost prefix = s@.subrange(start as int, i as int);
        let ghost next = s@.subrange(start as int, i + 1);
        proof {
            assert(next.drop_last() =~= prefix);
            assert(next.last() == c);
            assert(digits_value(next) == digits_value(prefix) * 10 + ((c as int) - 48));
            lemma_digits_nonneg(prefix);
            assert forall|j: int| 0 <= j < next.len() implies is_digit(#[trigger] next[j]) by {
                if j < prefix.len() {
                    assert(next[j] == prefix[j]);
                }
            }
        }
        let digit = (c as u32 - 48) as i64;
        if acc < cap {
            let grown = acc * 10 + digit;
            if grown >= cap {
                acc = cap;
            } else {
                acc = grown;
            }
        }
        proof {
            if acc == cap {
                assert(digits_value(next) >= cap) by (nonlinear_arith)
                    requires
                        digits_value(next) == digits_value(prefix) * 10 + ((c as int) - 48),
                        digits_value(prefix) >= 0,
                        (c as int) - 48 >= 0,
                        digits_value(prefix) >= cap || digits_value(prefix) * 10 + ((c as int) - 48) >= cap,
                ;
            }
        }
        i = i + 1;
    }
    proof {
        assert(s@.subrange(start as int, hi as int) == d);
        lemma_digits_nonneg(d);
        assert(t[0] == s@[lo as int]);
    }
    if negative {
        if acc > 2_147_483_648 {
            return None;
        }
        Some((-acc) as i32)
    } else {
        if acc > 2_147_483_647 {
            return None;
        }
        Some(acc as i32)
    }
}

/// Bounds of the time part of `s`; see [`time_part`].
fn time_part_range(s: &[char]) -> (r: Option<(usize, usize)>)
    ensures
        match r {
            Some((a, b)) => a <= b <= s@.len() && time_part(s@) == Some(s@.subrange(a as int, b as int)),
            None => time_part(s@) is None,
        },
{
    let n = s.len();
    let (a, b) = trim_range(s, 0, n);
    proof {
        assert(s@.subrange(0, n as int) =~= s@);
    }
    if a == b {
        return None;
    }
    let ghost t = s@.subrange(a as int, b as int);
    let start = match after_last_range(s, a, b, ' ') {
        Some(p) => p,
        None => match after_last_range(s, a, b, 'T') {
            Some(p) => p,
            None => a,
        },
    };
    let (x, y) = trim_range(s, start, b);
    Some((x, y))
}

/// Hour and minute of the time part `s[a..b]`; see [`hour_minute`].
fn hour_minute_range(s: &[char], a: usize, b: usize) -> (r: Option<(i32, i32)>)
    requires
        a <= b <= s@.len(),
    ensures
        r == hour_minute(s@.subrange(a as int, b as int)),
{
    let ghost v = s@.subrange(a as int, b as int);
    if b - a < 5 {
        return None;
    }
    let mut i: usize = 0;
    while i < 5
        invariant
            i <= 5,
            a + 5 <= b <= s@.len(),
            v == s@.subrange(a as int, b as int),
            forall|j: int| 0 <= j < i ==> is_ascii_char(#[trigger] v[j]),
        decreases 5 - i,
    {
        if (s[a + i] as u32) >= 0x80 {
            proof {
                assert(v[i as int] == s@[a + i]);
            }
            return None;
        }
        proof {
            assert(v[i as int] == s@[a + i]);
        }
        i = i + 1;
    }
    proof {
        assert(v.subrange(0, 2) =~= s@.subrange(a as int, a + 2));
        assert(v.subrange(3, 5) =~= s@.subrange(a + 3, a + 5));
    }
    match (parse_i32_range(s, a, a + 2), parse_i32_range(s, a + 3, a + 5)) {
        (Some(h), Some(m)) => Some((h, m)),
        _ => None,
    }
}

proof fn lemma_two_char_parse_bound(t: Seq<char>)
    requires
        t.len() == 2,
    ensures
        parse_i32(t) matches Some(v) ==> -9 <= v <= 99,
{
    if parse_i32(t) is Some {
        if t[0] == '+' || t[0] == '-' {
            let d = t.drop_first();
            assert(d.len() == 1);
            assert(d.drop_last() =~= Seq::<char>::empty());
            assert(digits_value(d.drop_last()) == 0);
            assert(is_digit(d[0]));
            assert(digits_value(d) == crate::table::digit_value(d[0]));
        } else {
            let t1 = t.drop_last();
            assert(t1.drop_last() =~= Seq::<char>::empty());
            assert(digits_value(t1.drop_last()) == 0);
            assert(is_digit(t[0]) && is_digit(t[1]));
            assert(t1[0] == t[0]);
            assert(digits_value(t1) == crate::table::digit_value(t1[0]));
            assert(digits_value(t) == digits_value(t1) * 10 + crate::table::digit_value(t[1]));
        }
    }
}

/// Minutes since midnight of `value` read as `HH:MM`; see [`spec_time_to_minutes`].
pub fn time_to_minutes(value: &str) -> (r: Option<i32>)
    ensures
        r matches Some(m) ==> spec_time_to_minutes(value@) == Some(m as int),
        r is None ==> spec_time_to_minutes(value@) is None,
{
    let s = chars_of(value);
    let (a, b) = match time_part_range(&s) {
        Some(range) => range,
        None => {
            return None;
        },
    };
    match hour_minute_range(&s, a, b) {
        Some((h, m)) => {
            proof {
                let v = s@.subrange(a as int, b as int);
                lemma_two_char_parse_bound(v.subrange(0, 2));
                lemma_two_char_parse_bound(v.subrange(3, 5));
            }
            Some(h * 60 + m)
        },
        None => None,
    }
}

/// Number of bytes of `s[a..b]` in UTF-8, counted up to `limit`.
fn utf8_len_at_least(s: &[char], a: usize, b: usize, limit: usize) -> (r: bool)
    requires
        a <= b <= s@.len(),
        1 <= limit <= 8,
    ensures
        r == (utf8_byte_len(s@.subrange(a as int, b as int)) >= limit),
{
    let mut total: usize = 0;
    let mut i = a;
    while i < b
        invariant
            a <= i <= b,
            b <= s@.len(),
            1 <= limit <= 8,
            total as int == utf8_byte_len(s@.subrange(a as int, i as int)),
            total < limit,
        decreases b - i,
    {
        proof {
            assert(s@.subrange(a as int, i + 1).drop_last() =~= s@.subrange(a as int, i as int));
        }
        let x = s[i] as u32;
        let w: usize = if x < 0x80 {
            1
        } else if x < 0x800 {
            2
        } else if x < 0x10000 {
            3
        } else {
            4
        };
        total = total + w;
        i = i + 1;
        if total >= limit {
            proof {
                lemma_utf8_len_monotone(s@.subrange(a as int, b as int), (i - a) as int);
                assert(s@.subrange(a as int, b as int).subrange(0, (i - a) as int) =~= s@.subrange(a as int, i as int));
            }
            return true;
        }
    }
    proof {
        assert(s@.subrange(a as int, i as int) == s@.subrange(a as int, b as int));
    }
    false
}

proof fn lemma_utf8_len_monotone(s: Seq<char>, k: int)
    requires
        0 <= k <= s.len(),
    ensures
        utf8_byte_len(s.subrange(0, k)) <= utf8_byte_len(s),
    decreases s.len() - k,
{
    if k < s.len() {
        lemma_utf8_len_monotone(s, k + 1);
        assert(s.subrange(0, k + 1).drop_last() =~= s.subrange(0, k));
    } else {
        assert(s.subrange(0, k) =~= s);
    }
}

/// Seconds since midnight of `value` read as `HH:MM[:SS]`; see
/// [`spec_time_to_seconds`].
pub fn time_to_seconds(value: &str) -> (r: Option<i32>)
    ensures
        r matches Some(x) ==> spec_time_to_seconds(value@) == Some(x as int),
        r is None ==> spec_time_to_seconds(value@) is None,
{
    let s = chars_of(value);
    let (a, b) = match time_part_range(&s) {
        Some(range) => range,
        None => {
            return None;
        },
    };
    let ghost v = s@.subrange(a as int, b as int);
    let (h, m) = match hour_minute_range(&s, a, b) {
        Some(hm) => hm,
        None => {
            return None;
        },
    };
    proof {
        lemma_two_char_parse_bound(v.subrange(0, 2));
        lemma_two_char_parse_bound(v.subrange(3, 5));
    }
    if !utf8_len_at_least(&s, a, b, 8) {
        return Some(h * 3600 + m * 60);
    }
    if b - a < 8 {
        proof {
            assert(!ascii_prefix(v, 8));
        }
        return None;
    }
    let mut i: usize = 5;
    while i < 8
        invariant
            5 <= i <= 8,
            a + 8 <= b <= s@.len(),
            v == s@.subrange(a as int, b as int),
            s@ == value@,
            time_part(s@) == Some(v),
            hour_minute(v) == Some((h, m)),
            utf8_byte_len(v) >= 8,
            ascii_prefix(v, 5),
            forall|j: int| 0 <= j < i ==> is_ascii_char(#[trigger] v[j]),
        decreases 8 - i,
    {
        proof {
            assert(v[i as int] == s@[a + i]);
        }
        if (s[a + i] as u32) >= 0x80 {
            proof {
                assert(!is_ascii_char(v[i as int]));
                assert(!ascii_prefix(v, 8));
            }
            return None;
        }
        i = i + 1;
    }
    proof {
        assert(v.subrange(6, 8) =~= s@.subrange(a + 6, a + 8));
    }
    match parse_i32_range(&s, a + 6, a + 8) {
        Some(sec) => {
            proof {
                lemma_two_char_parse_bound(v.subrange(6, 8));
            }
            Some(h * 3600 + m * 60 + sec)
        },
        None => None,
    }
}

/// Hour and minute of the last token of `s` read as `H:M`; see [`colon_hour_minute`].
fn colon_hour_minute_range(s: &[char]) -> (r: Option<(i32, i32)>)
    ensures
        r == colon_hour_minute(s@),
{
    let n = s.len();
    let mut b = n;
    proof {
        assert(s@.subrange(0, n as int) =~= s@);
    }
    while b > 0 && char_is_ws(s[b - 1])
        invariant
            b <= n,
            n == s@.len(),
            strip_back(s@) == strip_back(s@.subrange(0, b as int)),
        decreases b,
    {
        proof {
            lemma_strip_back_step(s@, 0, b as int);
        }
        b = b - 1;
    }
    proof {
        assert(s@.subrange(0, n as int) =~= s@);
    }
    let a = after_last_ws_range(s, 0, b);
    let ghost t = s@.subrange(a as int, b as int);
    assert(last_token(s@) == t);
    let c1 = first_index_range(s, a, b, ':');
    if c1 == b {
        return None;
    }
    let c2 = first_index_range(s, c1 + 1, b, ':');
    match (parse_i32_range(s, a, c1), parse_i32_range(s, c1 + 1, c2)) {
        (Some(h), Some(m)) => Some((h, m)),
        _ => None,
    }
}

/// Whether reading `s` as `H:M` and counting minutes stays within `i32`.
pub open spec fn colon_minutes_in_range(s: Seq<char>) -> bool {
    match colon_hour_minute(s) {
        Some((h, m)) => i32::MIN <= h * 60 <= i32::MAX && i32::MIN <= h * 60 + m <= i32::MAX,
        None => true,
    }
}

/// Whether reading `s` as `H:M` and counting seconds stays within `i32`.
pub open spec fn colon_seconds_in_range(s: Seq<char>) -> bool {
    match colon_hour_minute(s) {
        Some((h, m)) => i32::MIN <= h * 3600 <= i32::MAX && i32::MIN <= m * 60 <= i32::MAX && i32::MIN
            <= h * 3600 + m * 60 <= i32::MAX,
        None => true,
    }
}

/// Minutes since midnight of the last token of `value` read as `H:M`.
pub fn minute_of_day(value: &str) -> (r: Option<i32>)
    requires
        colon_minutes_in_range(value@),
    ensures
        r == match colon_hour_minute(value@) {
            Some((h, m)) => Some((h * 60 + m) as i32),
            None => None,
        },
{
    let s = chars_of(value);
    match colon_hour_minute_range(&s) {
        Some((h, m)) => Some(h * 60 + m),
        None => None,
    }
}

/// Seconds since midnight of the last token of `value` read as `H:M`.
pub fn colon_time_to_seconds(value: &str) -> (r: Option<i32>)
    requires
        colon_seconds_in_range(value@),
    ensures
        r == match colon_hour_minute(value@) {
            Some((h, m)) => Some((h * 3600 + m * 60) as i32),
            None => None,
        },
{
    let s = chars_of(value);
    match colon_hour_minute_range(&s) {
        Some((h, m)) => Some(h * 3600 + m * 60),
        None => None,
    }
}

} // verus!
