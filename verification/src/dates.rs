//! Calendar dates as plain year/month/day values, with the month
//! arithmetic and day clamping used by the installment schedule.

use vstd::prelude::*;
use crate::digits::{dec_digits2, dec_digits4, push_dec2, push_dec4};

verus! {

/// Smallest year a date may carry.
pub const YEAR_MIN: i32 = -262144;

/// Largest year a date may carry.
pub const YEAR_MAX: i32 = 262143;

/// A calendar date in the proleptic Gregorian calendar.
#[derive(Clone, Copy, Debug, PartialEq, Eq, Structural)]
pub struct DateYmd {
    pub year: i32,
    pub month: u32,
    pub day: u32,
}

/// Whether `y` is a leap year.
pub open spec fn is_leap_year(y: int) -> bool {
    (y % 4 == 0 && y % 100 != 0) || y % 400 == 0
}

/// Number of days of month `m` of year `y`.
pub open spec fn days_in_month_spec(y: int, m: int) -> int
    recommends
        1 <= m <= 12,
{
    if m == 2 {
        if is_leap_year(y) {
            29
        } else {
            28
        }
    } else if m == 4 || m == 6 || m == 9 || m == 11 {
        30
    } else {
        31
    }
}

/// Whether `d` names a real calendar date within the supported years.
pub open spec fn valid_date(d: DateYmd) -> bool {
    &&& YEAR_MIN <= d.year <= YEAR_MAX
    &&& 1 <= d.month <= 12
    &&& 1 <= d.day <= days_in_month_spec(d.year as int, d.month as int)
}

/// Number of days of month `month` of year `year`.
pub fn days_in_month(year: i32, month: u32) -> (n: u32)
    requires
        1 <= month <= 12,
    ensures
        n == days_in_month_spec(year as int, month as int),
        28 <= n <= 31,
{
    if month == 2 {
        if (year % 4 == 0 && year % 100 != 0) || year % 400 == 0 {
            29
        } else {
            28
        }
    } else if month == 4 || month == 6 || month == 9 || month == 11 {
        30
    } else {
        31
    }
}

impl DateYmd {
    /// Whether this value names a real calendar date.
    pub fn is_valid(&self) -> (r: bool)
        ensures
            r == valid_date(*self),
    {
        if self.year < YEAR_MIN || self.year > YEAR_MAX {
            return false;
        }
        if self.month < 1 || self.month > 12 {
            return false;
        }
        1 <= self.day && self.day <= days_in_month(self.year, self.month)
    }
}

/// The date `months` whole months after `d`: the month index advances
/// and the day is capped at the last day of the target month.
pub open spec fn add_months_spec(d: DateYmd, months: int) -> DateYmd
    recommends
        valid_date(d),
        0 <= months,
{
    let t = d.month - 1 + months;
    let y = d.year + t / 12;
    let m = t % 12 + 1;
    let cap = days_in_month_spec(y, m);
    let dd = if d.day <= cap {
        d.day as int
    } else {
        cap
    };
    DateYmd { year: y as i32, month: m as u32, day: dd as u32 }
}

/// Advances `d` by the given number of whole months, capping the day of
/// month at the last day of the target month.
pub fn add_months(d: DateYmd, months: i32) -> (r: DateYmd)
    requires
        valid_date(d),
        0 <= months,
    ensures
        r == add_months_spec(d, months as int),
        1 <= r.month <= 12,
        1 <= r.day <= days_in_month_spec(r.year as int, r.month as int),
        d.year <= r.year <= d.year + 1 + months / 12,
{
    let t: i64 = (d.month as i64) - 1 + (months as i64);
    let y64: i64 = (d.year as i64) + t / 12;
    let y: i32 = y64 as i32;
    let m: u32 = (t % 12) as u32 + 1;
    let cap: u32 = days_in_month(y, m);
    let dd: u32 = if d.day <= cap {
        d.day
    } else {
        cap
    };
    DateYmd { year: y, month: m, day: dd }
}

/// `d` with its day of month replaced by `due_day`, clamped to the
/// range from 1 to the last day of that month.
pub open spec fn clamp_day_spec(d: DateYmd, due_day: int) -> DateYmd
    recommends
        1 <= d.month <= 12,
{
    let cap = days_in_month_spec(d.year as int, d.month as int);
    let dd = if due_day < 1 {
        1
    } else if due_day > cap {
        cap
    } else {
        due_day
    };
    DateYmd { year: d.year, month: d.month, day: dd as u32 }
}

/// Replaces the day of month of `d` by `due_day`, clamped to the days
/// the month really has.
pub fn clamp_day(d: DateYmd, due_day: i32) -> (r: DateYmd)
    requires
        1 <= d.month <= 12,
    ensures
        r == clamp_day_spec(d, due_day as int),
        1 <= r.day <= days_in_month_spec(d.year as int, d.month as int),
        r.year == d.year && r.month == d.month,
{
    let cap: u32 = days_in_month(d.year, d.month);
    let dd: u32 = if due_day < 1 {
        1
    } else if due_day > cap as i32 {
        cap
    } else {
        due_day as u32
    };
    DateYmd { year: d.year, month: d.month, day: dd }
}

/// Due date of the installment `index` months after `first`, with the
/// day of month moved to `due_day` (clamped) when one is given.
pub open spec fn due_date_spec(first: DateYmd, index: int, due_day: Option<i32>) -> DateYmd
    recommends
        valid_date(first),
        0 <= index,
{
    let advanced = add_months_spec(first, index);
    match due_day {
        Some(day) => clamp_day_spec(advanced, day as int),
        None => advanced,
    }
}

/// Computes the due date of the installment `index` months after
/// `first`, applying the optional fixed due day.
pub fn due_date_for(first: DateYmd, index: i32, due_day: Option<i32>) -> (r: DateYmd)
    requires
        valid_date(first),
        0 <= index,
    ensures
        r == due_date_spec(first, index as int, due_day),
        1 <= r.month <= 12,
        1 <= r.day <= days_in_month_spec(r.year as int, r.month as int),
        first.year <= r.year <= first.year + 1 + index / 12,
{
    let advanced = add_months(first, index);
    match due_day {
        Some(day) => clamp_day(advanced, day),
        None => advanced,
    }
}

/// The `YYYYMMDD` stamp of a date: the year zero-padded to four digits,
/// then month and day zero-padded to two.
pub open spec fn yyyymmdd_spec(d: DateYmd) -> Seq<char>
    recommends
        0 <= d.year <= 9999,
{
    dec_digits4(d.year as int) + dec_digits2(d.month as int) + dec_digits2(d.day as int)
}

/// Appends the `YYYYMMDD` stamp of `d`.
pub fn push_yyyymmdd(out: &mut String, d: DateYmd)
    requires
        0 <= d.year <= 9999,
    ensures
        final(out)@ == old(out)@ + yyyymmdd_spec(d),
{
    push_dec4(out, d.year as u64);
    push_dec2(out, d.month as u64);
    push_dec2(out, d.day as u64);
    assert(out@ =~= old(out)@ + yyyymmdd_spec(d));
}

/// Relies on chrono's `Utc::now`, `date_naive` and the `Datelike`
/// accessors: whatever instant the clock reports, the returned civil
/// date is a real calendar date within chrono's supported years.
#[verifier::external_body]
pub fn current_date() -> (d: DateYmd)
    ensures
        valid_date(d),
{
    let now = chrono::Utc::now().date_naive();
    DateYmd {
        year: chrono::Datelike::year(&now),
        month: chrono::Datelike::month(&now),
        day: chrono::Datelike::day(&now),
    }
}

/// Law: a fixed due day of 31 applied to a due date falling in April
/// is clamped to 30, the last valid day of that month.
pub proof fn lemma_due_day_31_in_april(d: DateYmd)
    requires
        d.month == 4,
    ensures
        clamp_day_spec(d, 31).day == 30,
        clamp_day_spec(d, 31).month == 4,
        clamp_day_spec(d, 31).year == d.year,
{
}

/// Whether `a` is on or before `b` in calendar order.
pub open spec fn date_le(a: DateYmd, b: DateYmd) -> bool {
    if a.year != b.year {
        a.year < b.year
    } else if a.month != b.month {
        a.month < b.month
    } else {
        a.day <= b.day
    }
}

/// Whether `a` is strictly before `b` in calendar order.
pub open spec fn date_before(a: DateYmd, b: DateYmd) -> bool {
    date_le(a, b) && a != b
}

/// Any two dates are ordered one way or the other.
pub proof fn lemma_date_le_total(a: DateYmd, b: DateYmd)
    ensures
        date_le(a, b) || date_le(b, a),
{
}

/// Two dates ordered both ways are the same date.
pub proof fn lemma_date_le_antisymmetric(a: DateYmd, b: DateYmd)
    requires
        date_le(a, b),
        date_le(b, a),
    ensures
        a == b,
{
}

/// Calendar order is transitive.
pub proof fn lemma_date_le_trans(a: DateYmd, b: DateYmd, c: DateYmd)
    requires
        date_le(a, b),
        date_le(b, c),
    ensures
        date_le(a, c),
{
}

/// Decides whether `a` is on or before `b` in calendar order.
pub fn date_le_exec(a: &DateYmd, b: &DateYmd) -> (r: bool)
    ensures
        r == date_le(*a, *b),
{
    if a.year != b.year {
        a.year < b.year
    } else if a.month != b.month {
        a.month < b.month
    } else {
        a.day <= b.day
    }
}

} // verus!
