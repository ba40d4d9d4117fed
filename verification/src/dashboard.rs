//! Dashboard aggregates: the summary shape and the overdue-client
//! count over billing due dates.

use vstd::prelude::*;
use crate::dates::{date_le, date_le_exec, DateYmd};

verus! {

/// The dashboard summary counters.
pub struct DashboardSummaryResponse {
    pub students_total: i64,
    pub classes_total: i64,
    pub teachers_total: i64,
    pub overdue_clients_total: i64,
}

/// How many of the billing due dates lie strictly before `today`.
pub open spec fn overdue_count(dates: Seq<DateYmd>, today: DateYmd) -> int
    decreases dates.len(),
{
    if dates.len() == 0 {
        0
    } else {
        overdue_count(dates.drop_last(), today) + (if !date_le(today, dates.last()) {
            1int
        } else {
            0int
        })
    }
}

/// Counts the clients whose billing due date already passed.
pub fn count_overdue_clients(dates: &Vec<DateYmd>, today: DateYmd) -> (n: u64)
    requires
        dates@.len() < 0x7fff_ffff_ffff_ffff,
    ensures
        n == overdue_count(dates@, today),
{
    let len = dates.len();
    let mut n: u64 = 0;
    let mut i: usize = 0;
    while i < len
        invariant
            len == dates@.len(),
            len < 0x7fff_ffff_ffff_ffff,
            0 <= i <= len,
            n == overdue_count(dates@.take(i as int), today),
            n <= i,
        decreases len - i,
    {
        proof {
            assert(dates@.take(i + 1).drop_last() =~= dates@.take(i as int));
            assert(dates@.take(i + 1).last() == dates@[i as int]);
        }
        if !date_le_exec(&today, &dates[i]) {
            n = n + 1;
        }
        i = i + 1;
    }
    proof {
        assert(dates@.take(len as int) =~= dates@);
    }
    n
}

} // verus!
