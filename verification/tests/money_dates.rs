use school_ledger::dates::{add_months, clamp_day, days_in_month, due_date_for, DateYmd};
use school_ledger::money::installment_amounts;

fn ymd(year: i32, month: u32, day: u32) -> DateYmd {
    DateYmd { year, month, day }
}

#[test]
fn split_absorbs_remainder_on_last_installment() {
    let amounts = installment_amounts(29999, 3);
    assert_eq!(amounts, vec![10000, 10000, 9999]);
    assert_eq!(amounts.iter().sum::<i64>(), 29999);
}

#[test]
fn split_single_installment_keeps_total() {
    assert_eq!(installment_amounts(10000, 1), vec![10000]);
}

#[test]
fn split_rounds_half_up_on_base() {
    assert_eq!(installment_amounts(101, 2), vec![51, 50]);
    assert_eq!(installment_amounts(100, 3), vec![33, 33, 34]);
}

#[test]
fn split_sums_exactly_for_awkward_counts() {
    for count in 1..=40u32 {
        let amounts = installment_amounts(99999, count);
        assert_eq!(amounts.len(), count as usize);
        assert_eq!(amounts.iter().sum::<i64>(), 99999);
    }
}

#[test]
fn february_length_follows_leap_years() {
    assert_eq!(days_in_month(2024, 2), 29);
    assert_eq!(days_in_month(2023, 2), 28);
    assert_eq!(days_in_month(1900, 2), 28);
    assert_eq!(days_in_month(2000, 2), 29);
    assert_eq!(days_in_month(2025, 4), 30);
    assert_eq!(days_in_month(2025, 12), 31);
}

#[test]
fn add_months_wraps_the_year() {
    assert_eq!(add_months(ymd(2025, 12, 10), 2), ymd(2026, 2, 10));
    assert_eq!(add_months(ymd(2025, 1, 31), 1), ymd(2025, 2, 28));
    assert_eq!(add_months(ymd(2024, 1, 31), 1), ymd(2024, 2, 29));
}

#[test]
fn due_day_31_in_april_clamps_to_30() {
    assert_eq!(clamp_day(ymd(2025, 4, 15), 31), ymd(2025, 4, 30));
    assert_eq!(due_date_for(ymd(2025, 3, 31), 1, Some(31)), ymd(2025, 4, 30));
}

#[test]
fn due_day_below_one_clamps_to_first() {
    assert_eq!(clamp_day(ymd(2025, 5, 15), 0), ymd(2025, 5, 1));
}

#[test]
fn due_dates_advance_by_whole_months() {
    let first = ymd(2025, 3, 1);
    assert_eq!(due_date_for(first, 0, None), ymd(2025, 3, 1));
    assert_eq!(due_date_for(first, 11, None), ymd(2026, 2, 1));
    assert_eq!(due_date_for(first, 1, Some(15)), ymd(2025, 4, 15));
}
