//! Message timestamps: reading them as milliseconds, and the order of messages.
use crate::protocol::types::{NormalizedChatMessage, NormalizedEvent};
use crate::text::{chars_of, digits_value, is_digit, split_all, trim, unsigned_digits};
use std::cmp::Ordering;
use vstd::prelude::*;

verus! {

/// The value of a non-empty run of decimal digits, if it fits in `u128`.
pub open spec fn digits_u128(d: Seq<char>) -> Option<nat> {
    if d.len() > 0 && (forall|i: int| 0 <= i < d.len() ==> is_digit(#[trigger] d[i])) && digits_value(d)
        <= u128::MAX {
        Some(digits_value(d))
    } else {
        None
    }
}

proof fn lemma_digits_value_prefix(s: Seq<char>, k: int)
    requires
        0 <= k <= s.len(),
        forall|i: int| 0 <= i < s.len() ==> is_digit(#[trigger] s[i]),
    ensures
        digits_value(s.take(k)) <= digits_value(s),
    decreases s.len() - k,
{
    if k < s.len() {
        assert(s.drop_last().take(k) =~= s.take(k));
        assert forall|i: int| 0 <= i < s.drop_last().len() implies is_digit(#[trigger] s.drop_last()[i]) by {
            assert(s.drop_last()[i] == s[i]);
        }
        lemma_digits_value_prefix(s.drop_last(), k);
    } else {
        assert(s.take(k) =~= s);
    }
}

/// Parses the digits `v[lo..hi]` (no sign) into a `u128`; `None` when they are not all digits,
/// are none, or overflow.
fn parse_digits_u128(v: &Vec<char>, lo: usize, hi: usize) -> (r: Option<u128>)
    requires
        lo <= hi <= v@.len(),
    ensures
        match r {
            Some(x) => digits_u128(v@.subrange(lo as int, hi as int)) == Some(x as nat),
            None => digits_u128(v@.subrange(lo as int, hi as int)) is None,
        },
{
    let ghost d = v@.subrange(lo as int, hi as int);
    if lo == hi {
        return None;
    }
    let mut acc: u128 = 0;
    let mut i = lo;
    while i < hi
        invariant
            lo <= i <= hi <= v@.len(),
            d == v@.subrange(lo as int, hi as int),
            forall|j: int| lo <= j < i ==> is_digit(#[trigger] v@[j]),
            acc as nat == digits_value(v@.subrange(lo as int, i as int)),
        decreases hi - i,
    {
        let c = v[i];
        if !('0' <= c && c <= '9') {
            proof {
                assert(d[i - lo] == v@[i as int]);
            }
            return None;
        }
        let dv = ((c as u32) - 48) as u128;
        if acc > (u128::MAX - dv) / 10 {
            proof {
                assert(acc * 10 + dv > u128::MAX) by (nonlinear_arith)
                    requires
                        acc > (u128::MAX - dv) / 10,
                        dv <= 9,
                ;
                let p = v@.subrange(lo as int, i + 1);
                assert(p.drop_last() =~= v@.subrange(lo as int, i as int));
                assert(p.last() == c);
                if forall|j: int| 0 <= j < d.len() ==> is_digit(#[trigger] d[j]) {
                    assert(d.take(i + 1 - lo) =~= p);
                    lemma_digits_value_prefix(d, i + 1 - lo);
                }
            }
            return None;
        }
        assert(acc * 10 + dv <= u128::MAX) by (nonlinear_arith)
            requires
                acc <= (u128::MAX - dv) / 10,
                dv <= 9,
        ;
        proof {
            assert(v@.subrange(lo as int, i + 1).drop_last() =~= v@.subrange(lo as int, i as int));
        }
        acc = acc * 10 + dv;
        i = i + 1;
    }
    proof {
        assert(v@.subrange(lo as int, i as int) =~= d);
        assert forall|j: int| 0 <= j < d.len() implies is_digit(#[trigger] d[j]) by {
            assert(d[j] == v@[lo + j]);
        }
    }
    Some(acc)
}

/// `str::parse` of a signed integer type whose values run from `-neg_limit` to `pos_limit`: an
/// optional sign, then one or more digits, in range.
pub open spec fn signed_value(s: Seq<char>, neg_limit: nat, pos_limit: nat) -> Option<int> {
    if s.len() > 0 && s[0] == '-' {
        match digits_u128(s.drop_first()) {
            Some(m) => if m <= neg_limit {
                Some(-m)
            } else {
                None
            },
            None => None,
        }
    } else {
        match digits_u128(unsigned_digits(s)) {
            Some(m) => if m <= pos_limit {
                Some(m as int)
            } else {
                None
            },
            None => None,
        }
    }
}

/// `str::parse::<u32>`: an optional `+`, then one or more digits, at most `u32::MAX`.
pub open spec fn u32_value(s: Seq<char>) -> Option<int> {
    match digits_u128(unsigned_digits(s)) {
        Some(m) => if m <= u32::MAX {
            Some(m as int)
        } else {
            None
        },
        None => None,
    }
}

/// The sign and digits of `v[lo..hi]`: whether it starts with `-` (when `signed`), and where
/// the digits start.
fn sign_split(v: &Vec<char>, lo: usize, hi: usize, signed: bool) -> (r: (bool, usize))
    requires
        lo <= hi <= v@.len(),
    ensures
        lo <= r.1 <= hi,
        r.0 ==> signed && v@.subrange(lo as int, hi as int).len() > 0 && v@.subrange(lo as int, hi as int)[0] == '-'
            && v@.subrange(r.1 as int, hi as int) == v@.subrange(lo as int, hi as int).drop_first(),
        !r.0 ==> !(signed && v@.subrange(lo as int, hi as int).len() > 0 && v@.subrange(lo as int, hi as int)[0]
            == '-') && v@.subrange(r.1 as int, hi as int) == unsigned_digits(v@.subrange(lo as int, hi as int)),
{
    let ghost s = v@.subrange(lo as int, hi as int);
    if lo < hi && signed && v[lo] == '-' {
        assert(v@.subrange(lo + 1, hi as int) =~= s.drop_first());
        (true, lo + 1)
    } else if lo < hi && v[lo] == '+' {
        assert(v@.subrange(lo + 1, hi as int) =~= s.drop_first());
        (false, lo + 1)
    } else {
        (false, lo)
    }
}

/// `str::parse::<i128>` of `v[lo..hi]`.
fn parse_i128_range(v: &Vec<char>, lo: usize, hi: usize) -> (r: Option<i128>)
    requires
        lo <= hi <= v@.len(),
    ensures
        match r {
            Some(x) => signed_value(v@.subrange(lo as int, hi as int), 0x8000_0000_0000_0000_0000_0000_0000_0000, 0x7fff_ffff_ffff_ffff_ffff_ffff_ffff_ffff) == Some(x as int),
            None => signed_value(v@.subrange(lo as int, hi as int), 0x8000_0000_0000_0000_0000_0000_0000_0000, 0x7fff_ffff_ffff_ffff_ffff_ffff_ffff_ffff) is None,
        },
{
    let (neg, start) = sign_split(v, lo, hi, true);
    match parse_digits_u128(v, start, hi) {
        None => None,
        Some(m) => {
            if neg {
                if m > 0x8000_0000_0000_0000_0000_0000_0000_0000 {
                    None
                } else if m == 0x8000_0000_0000_0000_0000_0000_0000_0000 {
                    Some(i128::MIN)
                } else {
                    Some(-(m as i128))
                }
            } else {
                if m > 0x7fff_ffff_ffff_ffff_ffff_ffff_ffff_ffff {
                    None
                } else {
                    Some(m as i128)
                }
            }
        },
    }
}

/// `str::parse::<i32>` of `v[lo..hi]`.
fn parse_i32_range(v: &Vec<char>, lo: usize, hi: usize) -> (r: Option<i32>)
    requires
        lo <= hi <= v@.len(),
    ensures
        match r {
            Some(x) => signed_value(v@.subrange(lo as int, hi as int), 0x8000_0000, 0x7fff_ffff) == Some(x as int),
            None => signed_value(v@.subrange(lo as int, hi as int), 0x8000_0000, 0x7fff_ffff) is None,
        },
{
    let (neg, start) = sign_split(v, lo, hi, true);
    match parse_digits_u128(v, start, hi) {
        None => None,
        Some(m) => {
            if neg {
                if m > 0x8000_0000 {
                    None
                } else {
                    Some((-(m as i64)) as i32)
                }
            } else {
                if m > 0x7fff_ffff {
                    None
                } else {
                    Some(m as i32)
                }
            }
        },
    }
}

/// `str::parse::<u32>` of `v[lo..hi]`.
fn parse_u32_range(v: &Vec<char>, lo: usize, hi: usize) -> (r: Option<u32>)
    requires
        lo <= hi <= v@.len(),
    ensures
        match r {
            Some(x) => u32_value(v@.subrange(lo as int, hi as int)) == Some(x as int),
            None => u32_value(v@.subrange(lo as int, hi as int)) is None,
        },
{
    let (_neg, start) = sign_split(v, lo, hi, false);
    match parse_digits_u128(v, start, hi) {
        None => None,
        Some(m) => if m > 0xffff_ffff {
            None
        } else {
            Some(m as u32)
        },
    }
}

/// A leap year of the Gregorian calendar.
pub open spec fn is_leap(y: int) -> bool {
    (y % 4 == 0 && y % 100 != 0) || y % 400 == 0
}

/// Whether `year` is a leap year.
pub fn is_leap_year(year: i32) -> (r: bool)
    ensures
        r == is_leap(year as int),
{
    let y = year as i64;
    let m4 = if y >= 0 { y % 4 } else { (4 - (-y) % 4) % 4 };
    let m100 = if y >= 0 { y % 100 } else { (100 - (-y) % 100) % 100 };
    let m400 = if y >= 0 { y % 400 } else { (400 - (-y) % 400) % 400 };
    proof {
        lemma_neg_mod(y as int, 4);
        lemma_neg_mod(y as int, 100);
        lemma_neg_mod(y as int, 400);
    }
    (m4 == 0 && m100 != 0) || m400 == 0
}

proof fn lemma_neg_mod(y: int, n: int)
    requires
        n > 0,
    ensures
        y < 0 ==> y % n == (n - (-y) % n) % n,
{
    if y < 0 {
        let q = (-y) / n;
        let r = (-y) % n;
        assert(-y == q * n + r && 0 <= r < n) by (nonlinear_arith)
            requires
                n > 0,
                q == (-y) / n,
                r == (-y) % n,
        ;
        if r == 0 {
            assert(y == (-q) * n) by (nonlinear_arith)
                requires
                    -y == q * n + r,
                    r == 0,
            ;
            assert(y % n == 0) by (nonlinear_arith)
                requires
                    y == (-q) * n,
                    n > 0,
            ;
            assert((n - r) % n == 0) by (nonlinear_arith)
                requires
                    r == 0,
                    n > 0,
            ;
        } else {
            assert(y == (-q - 1) * n + (n - r)) by (nonlinear_arith)
                requires
                    -y == q * n + r,
            ;
            assert(y % n == n - r) by (nonlinear_arith)
                requires
                    y == (-q - 1) * n + (n - r),
                    0 < n - r < n,
            ;
            assert((n - r) % n == n - r) by (nonlinear_arith)
                requires
                    0 < n - r < n,
            ;
        }
    }
}

/// The number of days of month `m` of year `y`, for a month from 1 to 12.
pub open spec fn month_len(y: int, m: int) -> Option<nat> {
    if m == 1 || m == 3 || m == 5 || m == 7 || m == 8 || m == 10 || m == 12 {
        Some(31)
    } else if m == 4 || m == 6 || m == 9 || m == 11 {
        Some(30)
    } else if m == 2 {
        if is_leap(y) {
            Some(29)
        } else {
            Some(28)
        }
    } else {
        None
    }
}

/// The number of days of a month, `None` for a month outside 1 to 12.
pub fn days_in_month(year: i32, month: u32) -> (r: Option<u32>)
    ensures
        match r {
            Some(n) => month_len(year as int, month as int) == Some(n as nat),
            None => month_len(year as int, month as int) is None,
        },
{
    match month {
        1 | 3 | 5 | 7 | 8 | 10 | 12 => Some(31),
        4 | 6 | 9 | 11 => Some(30),
        2 => if is_leap_year(year) {
            Some(29)
        } else {
            Some(28)
        },
        _ => None,
    }
}

/// The number of days of a year.
pub open spec fn year_len(y: int) -> int {
    if is_leap(y) {
        366
    } else {
        365
    }
}

/// The number of days from 1 January 1970 to 1 January of year `y` (negative before 1970).
pub open spec fn days_before_year(y: int) -> int
    decreases (if y >= 1970 {
        y - 1970
    } else {
        1970 - y
    }),
{
    if y == 1970 {
        0
    } else if y > 1970 {
        days_before_year(y - 1) + year_len(y - 1)
    } else {
        days_before_year(y + 1) - year_len(y)
    }
}

/// The number of days of year `y` before the first of month `m`.
pub open spec fn days_before_month(y: int, m: int) -> int
    decreases m,
{
    if m <= 1 {
        0
    } else {
        days_before_month(y, m - 1) + match month_len(y, m - 1) {
            Some(n) => n as int,
            None => 0,
        }
    }
}

/// The day number of a date of the proleptic Gregorian calendar: days since 1 January 1970.
pub open spec fn civil_day(y: int, m: int, d: int) -> int {
    days_before_year(y) + days_before_month(y, m) + d - 1
}

/// The shifted year (starting in March) that a date falls in.
pub open spec fn shifted_year(y: int, m: int) -> int {
    y - if m <= 2 {
        1int
    } else {
        0int
    }
}

/// Days from the shifted epoch to the first of March of shifted year `a`, by 400-year eras.
pub open spec fn days_to_shifted_year(a: int) -> int {
    let era = a / 400;
    let yoe = a % 400;
    era * 146097 + yoe * 365 + yoe / 4 - yoe / 100
}

/// The day of a date counted in 400-year eras of shifted years (starting in March).
pub open spec fn era_day(y: int, m: int, d: int) -> int {
    let mp = if m > 2 {
        m - 3
    } else {
        m + 9
    };
    days_to_shifted_year(shifted_year(y, m)) + (153 * mp + 2) / 5 + d - 1 - 719468
}

/// `a = 400 * q + r` with `0 <= r < 400` names the era and the year of era of `a`.
proof fn lemma_era_split(a: int, q: int, r: int)
    requires
        0 <= r < 400,
        a == q * 400 + r,
    ensures
        a / 400 == q,
        a % 400 == r,
        a % 4 == r % 4,
        a % 100 == r % 100,
{
    vstd::arithmetic::div_mod::lemma_fundamental_div_mod_converse(a, 400, q, r);
    vstd::arithmetic::div_mod::lemma_fundamental_div_mod(r, 4);
    vstd::arithmetic::div_mod::lemma_fundamental_div_mod_converse(a, 4, q * 100 + r / 4, r % 4);
    vstd::arithmetic::div_mod::lemma_fundamental_div_mod(r, 100);
    vstd::arithmetic::div_mod::lemma_fundamental_div_mod_converse(a, 100, q * 4 + r / 100, r % 100);
}

/// A shifted year is as long as the calendar year in which its February falls.
proof fn lemma_shifted_year_step(a: int)
    ensures
        days_to_shifted_year(a + 1) - days_to_shifted_year(a) == year_len(a + 1),
{
    let q = a / 400;
    let t = a % 400;
    vstd::arithmetic::div_mod::lemma_fundamental_div_mod(a, 400);
    assert(a == q * 400 + t);
    assert(0 <= t < 400);
    lemma_era_split(a, q, t);
    if t < 399 {
        lemma_era_split(a + 1, q, t + 1);
        assert(a + 1 == q * 400 + (t + 1));
        let u = t + 1;
        vstd::arithmetic::div_mod::lemma_fundamental_div_mod(u, 4);
        vstd::arithmetic::div_mod::lemma_fundamental_div_mod(t, 4);
        vstd::arithmetic::div_mod::lemma_fundamental_div_mod(u, 100);
        vstd::arithmetic::div_mod::lemma_fundamental_div_mod(t, 100);
        assert(u / 4 - t / 4 == if u % 4 == 0 {
            1int
        } else {
            0int
        });
        assert(u / 100 - t / 100 == if u % 100 == 0 {
            1int
        } else {
            0int
        });
        assert((a + 1) % 400 != 0);
    } else {
        lemma_era_split(a + 1, q + 1, 0);
        assert(a + 1 == (q + 1) * 400 + 0);
        assert(days_to_shifted_year(a) == q * 146097 + 399 * 365 + 99 - 3);
        assert(days_to_shifted_year(a + 1) == (q + 1) * 146097);
        assert((q + 1) * 146097 == q * 146097 + 146097) by (nonlinear_arith);
    }
}

/// Within a year, the first of a month follows the first of the previous month by that
/// month's length.
proof fn lemma_era_day_month_step(y: int, m: int)
    requires
        1 <= m <= 11,
    ensures
        era_day(y, m + 1, 1) == era_day(y, m, 1) + (month_len(y, m)->Some_0 as int),
{
    if m == 2 {
        lemma_shifted_year_step(y - 1);
        assert(shifted_year(y, 2) == y - 1);
        assert(shifted_year(y, 3) == y);
        assert((153 * 11 + 2) / 5 == 337);
        assert((153 * 0 + 2) / 5 == 0);
    } else if m == 1 {
        assert((153 * 10 + 2) / 5 == 306);
        assert((153 * 11 + 2) / 5 == 337);
    } else {
        let k = m - 3;
        assert(0 <= k <= 8);
        assert((153 * 0 + 2) / 5 == 0);
        assert((153 * 1 + 2) / 5 == 31);
        assert((153 * 2 + 2) / 5 == 61);
        assert((153 * 3 + 2) / 5 == 92);
        assert((153 * 4 + 2) / 5 == 122);
        assert((153 * 5 + 2) / 5 == 153);
        assert((153 * 6 + 2) / 5 == 184);
        assert((153 * 7 + 2) / 5 == 214);
        assert((153 * 8 + 2) / 5 == 245);
        assert((153 * 9 + 2) / 5 == 275);
    }
}

/// The first of January follows the first of December of the year before by 31 days.
proof fn lemma_era_day_year_step(y: int)
    ensures
        era_day(y + 1, 1, 1) == era_day(y, 12, 1) + 31,
{
    assert(shifted_year(y + 1, 1) == y);
    assert(shifted_year(y, 12) == y);
    assert((153 * 9 + 2) / 5 == 275);
    assert((153 * 10 + 2) / 5 == 306);
}

/// The first of month `m` is `days_before_month` days after the first of January.
proof fn lemma_era_day_months(y: int, m: int)
    requires
        1 <= m <= 12,
    ensures
        era_day(y, m, 1) == era_day(y, 1, 1) + days_before_month(y, m),
    decreases m,
{
    if m > 1 {
        lemma_era_day_months(y, m - 1);
        lemma_era_day_month_step(y, m - 1);
    }
}

/// The first of January follows the first of January of the year before by that year's
/// length.
proof fn lemma_era_day_years(y: int)
    ensures
        era_day(y + 1, 1, 1) == era_day(y, 1, 1) + year_len(y),
{
    lemma_era_day_months(y, 12);
    lemma_era_day_year_step(y);
    reveal_with_fuel(days_before_month, 12);
}

/// The first of January of year `y` is `days_before_year(y)` days from 1 January 1970.
proof fn lemma_era_day_new_year(y: int)
    ensures
        era_day(y, 1, 1) == days_before_year(y),
    decreases (if y >= 1970 {
        y - 1970
    } else {
        1970 - y
    }),
{
    if y == 1970 {
        assert(shifted_year(1970, 1) == 1969);
        lemma_era_split(1969, 4, 369);
        assert((153 * 10 + 2) / 5 == 306);
        assert(369int / 4 == 92);
        assert(369int / 100 == 3);
    } else if y > 1970 {
        lemma_era_day_new_year(y - 1);
        lemma_era_day_years(y - 1);
    } else {
        lemma_era_day_new_year(y + 1);
        lemma_era_day_years(y);
    }
}

/// The era-based day count is the day number of the calendar date.
pub proof fn era_day_is_civil_day(y: int, m: int, d: int)
    requires
        1 <= m <= 12,
    ensures
        era_day(y, m, d) == civil_day(y, m, d),
{
    lemma_era_day_new_year(y);
    lemma_era_day_months(y, m);
}

/// The date arithmetic stays within `i32` (as the reference algorithm computes it) for a
/// valid date: its shifted year is at least `i32::MIN + 399`.
pub open spec fn civil_in_range(y: int, m: int, d: int) -> bool {
    match month_len(y, m) {
        Some(n) => 1 <= d <= n ==> shifted_year(y, m) >= i32::MIN + 399,
        None => true,
    }
}

/// The day number (days since 1 January 1970) of a date, or `None` when the month is not 1 to
/// 12 or the day is past the month's end.
pub fn days_from_civil(year: i32, month: u32, day: u32) -> (r: Option<i128>)
    requires
        civil_in_range(year as int, month as int, day as int),
        day >= 1,
    ensures
        match month_len(year as int, month as int) {
            Some(n) => if day <= n {
                r is Some && r->0 == civil_day(year as int, month as int, day as int)
            } else {
                r is None
            },
            None => r is None,
        },
        r matches Some(x) ==> -0x10_0000_0000_0000 <= x <= 0x10_0000_0000_0000,
{
    let month_days = match days_in_month(year, month) {
        Some(n) => n,
        None => return None,
    };
    if day > month_days {
        return None;
    }
    let ay: i64 = (year as i64) - if month <= 2 {
        1
    } else {
        0
    };
    let era: i64 = if ay >= 0 {
        ay / 400
    } else {
        -((399 - ay) / 400)
    };
    proof {
        if ay < 0 {
            let q = (399 - ay) / 400;
            let r = (399 - ay) % 400;
            vstd::arithmetic::div_mod::lemma_fundamental_div_mod(399 - ay, 400);
            lemma_era_split(ay as int, -q, 399 - r);
        } else {
            vstd::arithmetic::div_mod::lemma_fundamental_div_mod(ay as int, 400);
            lemma_era_split(ay as int, (ay as int) / 400, (ay as int) % 400);
        }
        assert(era == (ay as int) / 400);
        assert(ay - era * 400 == (ay as int) % 400) by (nonlinear_arith)
            requires
                era == (ay as int) / 400,
        {
            vstd::arithmetic::div_mod::lemma_fundamental_div_mod(ay as int, 400);
        }
    }
    let yoe: i64 = ay - era * 400;
    let mp: i64 = if month > 2 {
        month as i64 - 3
    } else {
        month as i64 + 9
    };
    let doy: i64 = (153 * mp + 2) / 5 + day as i64 - 1;
    let doe: i64 = yoe * 365 + yoe / 4 - yoe / 100 + doy;
    proof {
        era_day_is_civil_day(year as int, month as int, day as int);
        assert(shifted_year(year as int, month as int) == ay);
    }
    Some((era as i128) * 146097 + (doe as i128) - 719468)
}

/// The milliseconds written by the digits after a seconds' decimal point: up to three
/// leading digits, as hundreds, tens and units.
pub open spec fn fraction_digits(f: Seq<char>, factor: int) -> int
    decreases f.len(),
{
    if f.len() == 0 || factor == 0 || !is_digit(f[0]) {
        0
    } else {
        ((f[0] as u32) - 48) * factor + fraction_digits(f.drop_first(), factor / 10)
    }
}

/// The milliseconds of a seconds fraction such as `5` (500) or `123456` (123).
pub open spec fn fraction_millis(f: Seq<char>) -> int {
    fraction_digits(f, 100)
}

/// The milliseconds of the fraction `v[lo..hi]`.
fn parse_millis_fraction(v: &Vec<char>, lo: usize, hi: usize) -> (r: i128)
    requires
        lo <= hi <= v@.len(),
    ensures
        r == fraction_millis(v@.subrange(lo as int, hi as int)),
        0 <= r < 1000,
{
    let mut millis: i128 = 0;
    let mut factor: i128 = 100;
    let mut i = lo;
    proof {
        assert(v@.subrange(lo as int, hi as int).skip(0) =~= v@.subrange(lo as int, hi as int));
    }
    while i < hi && factor > 0 && '0' <= v[i] && v[i] <= '9'
        invariant
            lo <= i <= hi <= v@.len(),
            factor == 100 || factor == 10 || factor == 1 || factor == 0,
            factor == 100 ==> millis == 0,
            factor == 10 ==> 0 <= millis <= 900,
            factor == 1 ==> 0 <= millis <= 990,
            factor == 0 ==> 0 <= millis <= 999,
            fraction_millis(v@.subrange(lo as int, hi as int)) == millis + fraction_digits(
                v@.subrange(i as int, hi as int),
                factor as int,
            ),
        decreases hi - i,
    {
        proof {
            assert(v@.subrange(i as int, hi as int).drop_first() =~= v@.subrange(i + 1, hi as int));
            assert(v@.subrange(i as int, hi as int)[0] == v@[i as int]);
        }
        let d = ((v[i] as u32) - 48) as i128;
        millis = millis + d * factor;
        factor = factor / 10;
        i = i + 1;
    }
    proof {
        if i < hi {
            assert(v@.subrange(i as int, hi as int)[0] == v@[i as int]);
        }
    }
    millis
}

/// The number of trailing copies of `c` in `s`.
pub open spec fn trail_count(s: Seq<char>, c: char) -> nat
    decreases s.len(),
{
    if s.len() > 0 && s.last() == c {
        1 + trail_count(s.drop_last(), c)
    } else {
        0
    }
}

/// `str::trim_end_matches` with a character pattern.
pub open spec fn trim_end_char(s: Seq<char>, c: char) -> Seq<char> {
    s.take(s.len() - trail_count(s, c))
}

/// The year, month and day of the date part `yyyy-mm-dd` (extra `-` parts are ignored).
pub open spec fn date_fields(date: Seq<char>) -> Option<(int, int, int)> {
    let dp = split_all(date, '-');
    if dp.len() < 3 {
        None
    } else {
        match (signed_value(dp[0], 0x8000_0000, 0x7fff_ffff), u32_value(dp[1]), u32_value(dp[2])) {
            (Some(y), Some(m), Some(d)) => Some((y, m, d)),
            _ => None,
        }
    }
}

/// The hour, minute, second and milliseconds of the time part `hh:mm:ss[.fff][Z]` (extra `:`
/// parts are ignored).
pub open spec fn time_fields(time: Seq<char>) -> Option<(int, int, int, int)> {
    let tp = split_all(trim_end_char(time, 'Z'), ':');
    if tp.len() < 3 {
        None
    } else {
        let sp = tp[2];
        let st = match crate::text::split_once(sp, '.') {
            Some(p) => p.0,
            None => sp,
        };
        let ms = match crate::text::split_once(sp, '.') {
            Some(p) => fraction_millis(p.1),
            None => 0,
        };
        match (u32_value(tp[0]), u32_value(tp[1]), u32_value(st)) {
            (Some(h), Some(mi), Some(sec)) => Some((h, mi, sec, ms)),
            _ => None,
        }
    }
}

/// The fields of an ISO-8601 UTC timestamp `date T time`.
pub open spec fn iso_fields(value: Seq<char>) -> Option<(int, int, int, int, int, int, int)> {
    match crate::text::split_once(value, 'T') {
        None => None,
        Some(p) => match (date_fields(p.0), time_fields(p.1)) {
            (Some(dt), Some(tm)) => Some((dt.0, dt.1, dt.2, tm.0, tm.1, tm.2, tm.3)),
            _ => None,
        },
    }
}

/// The fields name a real time: month 1 to 12, a day of the month, hour up to 23, minute up
/// to 59, second up to 60.
pub open spec fn iso_fields_valid(f: (int, int, int, int, int, int, int)) -> bool {
    &&& 1 <= f.1 <= 12
    &&& f.2 != 0
    &&& f.3 <= 23
    &&& f.4 <= 59
    &&& f.5 <= 60
    &&& month_len(f.0, f.1) matches Some(n) && f.2 <= n
}

/// Milliseconds since the Unix epoch of an ISO-8601 UTC timestamp, when it is one.
pub open spec fn iso_millis(value: Seq<char>) -> Option<int> {
    match iso_fields(value) {
        Some(f) => if iso_fields_valid(f) {
            Some((((civil_day(f.0, f.1, f.2) * 24 + f.3) * 60 + f.4) * 60 + f.5) * 1000 + f.6)
        } else {
            None
        },
        None => None,
    }
}

/// Reads the date part `v[lo..hi]`.
fn parse_date_fields(v: &Vec<char>, lo: usize, hi: usize) -> (r: Option<(i32, u32, u32)>)
    requires
        lo <= hi <= v@.len(),
    ensures
        match r {
            Some(f) => date_fields(v@.subrange(lo as int, hi as int)) == Some((f.0 as int, f.1 as int, f.2 as int)),
            None => date_fields(v@.subrange(lo as int, hi as int)) is None,
        },
{
    let rs = crate::text::split_ranges(v, lo, hi, '-');
    if rs.len() < 3 {
        return None;
    }
    let ghost dp = crate::text::pieces_of(v@, rs@);
    assert(dp[0] == v@.subrange(rs@[0].0 as int, rs@[0].1 as int));
    assert(dp[1] == v@.subrange(rs@[1].0 as int, rs@[1].1 as int));
    assert(dp[2] == v@.subrange(rs@[2].0 as int, rs@[2].1 as int));
    let year = match parse_i32_range(v, rs[0].0, rs[0].1) {
        Some(y) => y,
        None => return None,
    };
    let month = match parse_u32_range(v, rs[1].0, rs[1].1) {
        Some(m) => m,
        None => return None,
    };
    let day = match parse_u32_range(v, rs[2].0, rs[2].1) {
        Some(d) => d,
        None => return None,
    };
    Some((year, month, day))
}

proof fn lemma_trim_end_step(s: Seq<char>, c: char)
    requires
        s.len() > 0,
        s.last() == c,
    ensures
        trim_end_char(s, c) == trim_end_char(s.drop_last(), c),
{
    let t = s.drop_last();
    lemma_trail_count_bound(t, c);
    assert(trail_count(s, c) == 1 + trail_count(t, c));
    assert(s.take(s.len() - trail_count(s, c)) =~= t.take(t.len() - trail_count(t, c)));
}

proof fn lemma_trail_count_bound(s: Seq<char>, c: char)
    ensures
        trail_count(s, c) <= s.len(),
    decreases s.len(),
{
    if s.len() > 0 && s.last() == c {
        lemma_trail_count_bound(s.drop_last(), c);
    }
}

/// Reads the time part `v[lo..hi]`.
fn parse_time_fields(v: &Vec<char>, lo: usize, hi: usize) -> (r: Option<(u32, u32, u32, i128)>)
    requires
        lo <= hi <= v@.len(),
    ensures
        match r {
            Some(f) => time_fields(v@.subrange(lo as int, hi as int)) == Some(
                (f.0 as int, f.1 as int, f.2 as int, f.3 as int),
            ),
            None => time_fields(v@.subrange(lo as int, hi as int)) is None,
        },
        r matches Some(f) ==> 0 <= f.3 < 1000,
{
    let ghost s = v@.subrange(lo as int, hi as int);
    let mut e = hi;
    while e > lo && v[e - 1] == 'Z'
        invariant
            lo <= e <= hi <= v@.len(),
            s == v@.subrange(lo as int, hi as int),
            trim_end_char(s, 'Z') == trim_end_char(v@.subrange(lo as int, e as int), 'Z'),
        decreases e,
    {
        proof {
            let t = v@.subrange(lo as int, e as int);
            assert(t.last() == v@[e - 1]);
            lemma_trim_end_step(t, 'Z');
            assert(t.drop_last() =~= v@.subrange(lo as int, e - 1));
        }
        e = e - 1;
    }
    proof {
        let t = v@.subrange(lo as int, e as int);
        if e > lo {
            assert(t.last() == v@[e - 1]);
        }
        assert(trim_end_char(t, 'Z') =~= t);
    }
    let rs = crate::text::split_ranges(v, lo, e, ':');
    if rs.len() < 3 {
        return None;
    }
    let ghost tp = crate::text::pieces_of(v@, rs@);
    assert(tp[0] == v@.subrange(rs@[0].0 as int, rs@[0].1 as int));
    assert(tp[1] == v@.subrange(rs@[1].0 as int, rs@[1].1 as int));
    assert(tp[2] == v@.subrange(rs@[2].0 as int, rs@[2].1 as int));
    let (a, b) = rs[2];
    let (second_end, millis) = match crate::text::find_char(v, a, b, '.') {
        Some(k) => {
            let ms = parse_millis_fraction(v, k + 1, b);
            proof {
                let sp = v@.subrange(a as int, b as int);
                assert(sp.take(k - a) =~= v@.subrange(a as int, k as int));
                assert(sp.skip(k - a + 1) =~= v@.subrange(k + 1, b as int));
            }
            (k, ms)
        },
        None => (b, 0),
    };
    let hour = match parse_u32_range(v, rs[0].0, rs[0].1) {
        Some(h) => h,
        None => return None,
    };
    let minute = match parse_u32_range(v, rs[1].0, rs[1].1) {
        Some(m) => m,
        None => return None,
    };
    let second = match parse_u32_range(v, a, second_end) {
        Some(x) => x,
        None => return None,
    };
    Some((hour, minute, second, millis))
}

/// Reading the timestamp `value` never leaves the range of the date arithmetic: when it has
/// the form of an ISO-8601 timestamp, its date is not within 400 years of the smallest `i32`
/// year.
pub open spec fn timestamp_in_range(value: Seq<char>) -> bool {
    iso_fields(value) matches Some(f) ==> civil_in_range(f.0, f.1, f.2)
}

/// Milliseconds since the Unix epoch of the ISO-8601 UTC timestamp `v[lo..hi]`
/// (`yyyy-mm-ddThh:mm:ss[.fff][Z]`), or `None` when it is not one.
fn iso_utc_timestamp_millis(v: &Vec<char>, lo: usize, hi: usize) -> (r: Option<i128>)
    requires
        lo <= hi <= v@.len(),
        timestamp_in_range(v@.subrange(lo as int, hi as int)),
    ensures
        match r {
            Some(x) => iso_millis(v@.subrange(lo as int, hi as int)) == Some(x as int),
            None => iso_millis(v@.subrange(lo as int, hi as int)) is None,
        },
{
    let ghost s = v@.subrange(lo as int, hi as int);
    let t = match crate::text::find_char(v, lo, hi, 'T') {
        Some(k) => k,
        None => return None,
    };
    proof {
        assert(s.take(t - lo) =~= v@.subrange(lo as int, t as int));
        assert(s.skip(t - lo + 1) =~= v@.subrange(t + 1, hi as int));
    }
    let (year, month, day) = match parse_date_fields(v, lo, t) {
        Some(f) => f,
        None => return None,
    };
    let (hour, minute, second, millis) = match parse_time_fields(v, t + 1, hi) {
        Some(f) => f,
        None => return None,
    };
    if month < 1 || month > 12 || day == 0 || hour > 23 || minute > 59 || second > 60 {
        return None;
    }
    let days = match days_from_civil(year, month, day) {
        Some(d) => d,
        None => return None,
    };
    proof {
        let f = (year as int, month as int, day as int, hour as int, minute as int, second as int, millis as int);
        assert(crate::text::split_once(s, 'T') == Some(
            (v@.subrange(lo as int, t as int), v@.subrange(t + 1, hi as int)),
        ));
        assert(iso_fields(s) == Some(f));
        assert(iso_fields_valid(f));
        assert(days == civil_day(f.0, f.1, f.2));
    }
    Some((((days * 24 + hour as i128) * 60 + minute as i128) * 60 + second as i128) * 1000 + millis)
}

/// The number whose two's-complement 128-bit form is `u` (for `u < 2^128`).
pub open spec fn as_signed_128(u: nat) -> int {
    if u < 0x8000_0000_0000_0000_0000_0000_0000_0000 {
        u as int
    } else {
        u - 0x1_0000_0000_0000_0000_0000_0000_0000_0000
    }
}

/// The order key of a timestamp that is neither a number nor an ISO-8601 time: its first 16
/// UTF-8 bytes read as a big-endian two's-complement `i128`.
pub open spec fn string_order_key(value: Seq<char>) -> int {
    let b = vstd::utf8::encode_utf8(value);
    as_signed_128(crate::overlay::server::be_value(if b.len() <= 16 { b } else { b.take(16) }))
}

proof fn lemma_pow256_16()
    ensures
        crate::overlay::server::pow256(16) == 0x1_0000_0000_0000_0000_0000_0000_0000_0000,
{
    reveal_with_fuel(crate::overlay::server::pow256, 17);
}

proof fn lemma_be_value_bound(b: Seq<u8>)
    ensures
        crate::overlay::server::be_value(b) < crate::overlay::server::pow256(b.len()),
    decreases b.len(),
{
    if b.len() > 0 {
        lemma_be_value_bound(b.drop_last());
    }
}

/// The order key of a timestamp read as text ([`string_order_key`]).
fn stable_string_order_key(value: &str) -> (r: i128)
    ensures
        r == string_order_key(value@),
{
    let bytes = value.as_bytes();
    let n: usize = if bytes.len() < 16 {
        bytes.len()
    } else {
        16
    };
    let ghost b = bytes@;
    let ghost head = if b.len() <= 16 {
        b
    } else {
        b.take(16)
    };
    proof {
        assert(head =~= b.take(n as int));
    }
    let mut acc: u128 = 0;
    let mut i: usize = 0;
    while i < n
        invariant
            n <= 16,
            n <= bytes@.len(),
            i <= n,
            b == bytes@,
            acc == crate::overlay::server::be_value(b.take(i as int)),
            acc < crate::overlay::server::pow256(i as nat),
        decreases n - i,
    {
        proof {
            assert(b.take(i + 1).drop_last() =~= b.take(i as int));
            crate::overlay::server::lemma_pow256_mono(i as nat, 15);
            lemma_pow256_16();
            assert(crate::overlay::server::pow256(15) * 256 == crate::overlay::server::pow256(16));
            assert(acc * 256 + 255 < 0x1_0000_0000_0000_0000_0000_0000_0000_0000) by (nonlinear_arith)
                requires
                    acc < crate::overlay::server::pow256(i as nat),
                    crate::overlay::server::pow256(i as nat) <= crate::overlay::server::pow256(15),
                    crate::overlay::server::pow256(15) * 256 == 0x1_0000_0000_0000_0000_0000_0000_0000_0000,
            ;
        }
        acc = acc * 256 + bytes[i] as u128;
        i = i + 1;
    }
    proof {
        assert(head =~= b.take(n as int));
    }
    if acc < 0x8000_0000_0000_0000_0000_0000_0000_0000 {
        acc as i128
    } else {
        let m: u128 = 0xffff_ffff_ffff_ffff_ffff_ffff_ffff_ffff - acc;
        -(m as i128) - 1
    }
}

/// The number of milliseconds a message timestamp stands for: the trimmed text as an `i128`
/// when it is one, else as an ISO-8601 UTC time, else its [`string_order_key`].
pub open spec fn timestamp_value(s: Seq<char>) -> int {
    let t = trim(s);
    match signed_value(
        t,
        0x8000_0000_0000_0000_0000_0000_0000_0000,
        0x7fff_ffff_ffff_ffff_ffff_ffff_ffff_ffff,
    ) {
        Some(x) => x,
        None => match iso_millis(t) {
            Some(x) => x,
            None => string_order_key(t),
        },
    }
}

/// The timestamp's text can be read without leaving the date arithmetic's range.
pub open spec fn timestamp_readable(s: Seq<char>) -> bool {
    timestamp_in_range(trim(s))
}

/// Reads a message timestamp as milliseconds ([`timestamp_value`]).
fn timestamp_millis(timestamp: &str) -> (r: i128)
    requires
        timestamp_readable(timestamp@),
    ensures
        r == timestamp_value(timestamp@),
{
    let v = chars_of(timestamp);
    let (a, b) = crate::text::trim_bounds(&v);
    if let Some(x) = parse_i128_range(&v, a, b) {
        return x;
    }
    match iso_utc_timestamp_millis(&v, a, b) {
        Some(x) => x,
        None => {
            let t = crate::text::string_from_range(&v, a, b);
            stable_string_order_key(t.as_str())
        },
    }
}

/// A chat item: a message or an event.
#[derive(Debug, Clone, PartialEq)]
pub enum NormalizedChatItem {
    Message(NormalizedChatMessage),
    Event(NormalizedEvent),
}

/// An event as the library hands it on: unchanged.
pub fn normalize_event(event: NormalizedEvent) -> (r: NormalizedEvent)
    ensures
        r == event,
{
    event
}

/// A message as the library hands it on: unchanged.
pub fn normalize_message(message: NormalizedChatMessage) -> (r: NormalizedChatMessage)
    ensures
        r == message,
{
    message
}

/// The milliseconds a message's timestamp stands for ([`timestamp_value`]).
pub fn message_timestamp_millis(message: &NormalizedChatMessage) -> (r: i128)
    requires
        timestamp_readable(message.timestamp@),
    ensures
        r == timestamp_value(message.timestamp@),
{
    timestamp_millis(&message.timestamp)
}

/// `a` comes before `b` in the lexicographic order of their characters. As UTF-8 keeps the
/// order of code points, this is the order of the `String`s.
pub open spec fn chars_less(a: Seq<char>, b: Seq<char>) -> bool
    decreases a.len(),
{
    if b.len() == 0 {
        false
    } else if a.len() == 0 {
        true
    } else if a[0] != b[0] {
        a[0] < b[0]
    } else {
        chars_less(a.drop_first(), b.drop_first())
    }
}

proof fn lemma_chars_less_at(a: Seq<char>, b: Seq<char>, k: int)
    requires
        0 <= k <= a.len(),
        k <= b.len(),
        forall|j: int| 0 <= j < k ==> a[j] == b[j],
        k == a.len() || k == b.len() || a[k] != b[k],
    ensures
        chars_less(a, b) <==> (k < b.len() && (k == a.len() || a[k] < b[k])),
        (a == b) <==> (k == a.len() && k == b.len()),
    decreases k,
{
    if k > 0 {
        assert forall|j: int| 0 <= j < k - 1 implies a.drop_first()[j] == b.drop_first()[j] by {
            assert(a[j + 1] == b[j + 1]);
        }
        lemma_chars_less_at(a.drop_first(), b.drop_first(), k - 1);
        assert(a[0] == b[0]);
        if a.drop_first() == b.drop_first() {
            assert(a =~= seq![a[0]] + a.drop_first());
            assert(b =~= seq![b[0]] + b.drop_first());
        }
        if a == b {
            assert(a.drop_first() =~= b.drop_first());
        }
    } else if a.len() > 0 && b.len() > 0 {
        assert(a[0] != b[0]);
    } else if a.len() == 0 && b.len() == 0 {
        assert(a =~= b);
    }
}

/// Where `a` and `b` first differ: the length of their common prefix.
fn common_prefix_len(a: &Vec<char>, b: &Vec<char>) -> (k: usize)
    ensures
        k <= a@.len(),
        k <= b@.len(),
        chars_less(a@, b@) <==> (k < b@.len() && (k == a@.len() || a@[k as int] < b@[k as int])),
        (a@ == b@) <==> (k == a@.len() && k == b@.len()),
{
    let mut k: usize = 0;
    while k < a.len() && k < b.len() && a[k] == b[k]
        invariant
            k <= a@.len(),
            k <= b@.len(),
            forall|j: int| 0 <= j < k ==> a@[j] == b@[j],
        decreases a@.len() - k,
    {
        k = k + 1;
    }
    proof {
        lemma_chars_less_at(a@, b@, k as int);
    }
    k
}

/// Whether `a` comes before `b` in `String`'s order ([`chars_less`]).
pub fn str_less(a: &str, b: &str) -> (r: bool)
    ensures
        r == chars_less(a@, b@),
{
    let av = chars_of(a);
    let bv = chars_of(b);
    let k = common_prefix_len(&av, &bv);
    k < bv.len() && (k == av.len() || av[k] < bv[k])
}

/// The order of two strings of characters: equal, or which comes first.
pub open spec fn chars_order(a: Seq<char>, b: Seq<char>) -> Ordering {
    if a == b {
        Ordering::Equal
    } else if chars_less(a, b) {
        Ordering::Less
    } else {
        Ordering::Greater
    }
}

/// `String`'s order on two ids.
fn compare_ids(a: &str, b: &str) -> (r: Ordering)
    ensures
        r == chars_order(a@, b@),
{
    let av = chars_of(a);
    let bv = chars_of(b);
    let k = common_prefix_len(&av, &bv);
    if k == av.len() && k == bv.len() {
        Ordering::Equal
    } else if k < bv.len() && (k == av.len() || av[k] < bv[k]) {
        Ordering::Less
    } else {
        Ordering::Greater
    }
}

/// The order of two messages: by the milliseconds of their timestamps, then by id.
pub open spec fn message_order(a: crate::protocol::types::MessageView, b: crate::protocol::types::MessageView) -> Ordering {
    let x = timestamp_value(a.6);
    let y = timestamp_value(b.6);
    if x < y {
        Ordering::Less
    } else if y < x {
        Ordering::Greater
    } else {
        chars_order(a.0, b.0)
    }
}

/// `a` sorts strictly before `b`.
pub open spec fn message_before(a: crate::protocol::types::MessageView, b: crate::protocol::types::MessageView) -> bool {
    message_order(a, b) == Ordering::Less
}

/// Compares two messages by timestamp, then by id ([`message_order`]).
pub(crate) fn compare_message_keys(
    left: &NormalizedChatMessage,
    right: &NormalizedChatMessage,
) -> (r: Ordering)
    requires
        timestamp_readable(left.timestamp@),
        timestamp_readable(right.timestamp@),
    ensures
        r == message_order(left@, right@),
{
    let x = timestamp_millis(&left.timestamp);
    let y = timestamp_millis(&right.timestamp);
    if x < y {
        Ordering::Less
    } else if y < x {
        Ordering::Greater
    } else {
        compare_ids(&left.id, &right.id)
    }
}

pub proof fn lemma_chars_less_irreflexive(a: Seq<char>)
    ensures
        !chars_less(a, a),
    decreases a.len(),
{
    if a.len() > 0 {
        lemma_chars_less_irreflexive(a.drop_first());
    }
}

pub proof fn lemma_chars_less_asymmetric(a: Seq<char>, b: Seq<char>)
    ensures
        chars_less(a, b) ==> !chars_less(b, a),
    decreases a.len(),
{
    if a.len() > 0 && b.len() > 0 && a[0] == b[0] {
        lemma_chars_less_asymmetric(a.drop_first(), b.drop_first());
    }
}

pub proof fn lemma_chars_less_transitive(a: Seq<char>, b: Seq<char>, c: Seq<char>)
    requires
        chars_less(a, b),
        chars_less(b, c),
    ensures
        chars_less(a, c),
    decreases a.len(),
{
    if a.len() > 0 && a[0] == b[0] && b[0] == c[0] {
        lemma_chars_less_transitive(a.drop_first(), b.drop_first(), c.drop_first());
    }
}

pub proof fn lemma_chars_less_total(a: Seq<char>, b: Seq<char>)
    ensures
        a == b || chars_less(a, b) || chars_less(b, a),
    decreases a.len(),
{
    if a.len() == 0 && b.len() == 0 {
        assert(a =~= b);
    } else if a.len() > 0 && b.len() > 0 && a[0] == b[0] {
        lemma_chars_less_total(a.drop_first(), b.drop_first());
        if a.drop_first() == b.drop_first() {
            assert(a =~= seq![a[0]] + a.drop_first());
            assert(b =~= seq![b[0]] + b.drop_first());
        }
    }
}

/// The message order is a total order: swapping the two messages swaps `Less` and `Greater`,
/// and two messages are `Equal` exactly when their timestamps stand for the same time and
/// their ids are the same.
pub proof fn message_order_antisymmetric(a: crate::protocol::types::MessageView, b: crate::protocol::types::MessageView)
    ensures
        (message_order(a, b) == Ordering::Less) <==> (message_order(b, a) == Ordering::Greater),
        (message_order(a, b) == Ordering::Equal) <==> (message_order(b, a) == Ordering::Equal),
        (message_order(a, b) == Ordering::Equal) <==> (timestamp_value(a.6) == timestamp_value(b.6)
            && a.0 == b.0),
{
    lemma_chars_less_asymmetric(a.0, b.0);
    lemma_chars_less_asymmetric(b.0, a.0);
    lemma_chars_less_total(a.0, b.0);
}

/// The message order is transitive, both strictly and not.
pub proof fn message_order_transitive(
    a: crate::protocol::types::MessageView,
    b: crate::protocol::types::MessageView,
    c: crate::protocol::types::MessageView,
)
    ensures
        message_order(a, b) == Ordering::Less && message_order(b, c) == Ordering::Less
            ==> message_order(a, c) == Ordering::Less,
        message_order(a, b) != Ordering::Greater && message_order(b, c) != Ordering::Greater
            ==> message_order(a, c) != Ordering::Greater,
{
    if chars_less(a.0, b.0) && chars_less(b.0, c.0) {
        lemma_chars_less_transitive(a.0, b.0, c.0);
    }
    lemma_chars_less_irreflexive(a.0);
    lemma_chars_less_asymmetric(a.0, c.0);
    lemma_chars_less_total(a.0, c.0);
}

} // verus!
