//! Money as scaled integers: every amount is a number of cents.
//!
//! The installment generator splits a contract total into `count`
//! slices: every slice but the last carries the rounded per-installment
//! base, and the last absorbs the rounding remainder, so the slice
//! amounts always sum exactly to the total.

use vstd::prelude::*;
use vstd::arithmetic::div_mod::lemma_fundamental_div_mod;

verus! {

/// Largest amount of cents the ledger accepts for a single record.
pub const MAX_AMOUNT_CENTS: i64 = 1_000_000_000_000_000;

/// The per-installment base: `total / count` in cents, rounded half up.
pub open spec fn split_base(total: int, count: int) -> int
    recommends
        count >= 1,
{
    (2 * total + count) / (2 * count)
}

/// Amount of installment `i` (0-based) out of `count` for a given total:
/// the base for every slice but the last, and the remainder for the last.
pub open spec fn installment_amount(total: int, count: int, i: int) -> int
    recommends
        count >= 1,
        0 <= i < count,
{
    if i < count - 1 {
        split_base(total, count)
    } else {
        total - (count - 1) * split_base(total, count)
    }
}

/// Sum of a sequence of cent amounts.
pub open spec fn sum_cents(s: Seq<i64>) -> int
    decreases s.len(),
{
    if s.len() == 0 {
        0
    } else {
        sum_cents(s.drop_last()) + s.last()
    }
}

/// The rounded base stays within `[0, total]`, and `count` bases do not
/// overshoot the total by more than `count` cents.
pub proof fn lemma_split_base_bounds(total: int, count: int)
    requires
        total >= 1,
        count >= 1,
    ensures
        0 <= split_base(total, count) <= total,
        count * split_base(total, count) <= total + count,
{
    let b = split_base(total, count);
    let n = 2 * total + count;
    let d = 2 * count;
    lemma_fundamental_div_mod(n, d);
    let r = n % d;
    assert(n == d * (n / d) + r);
    assert(0 <= r < d);
    assert(b >= 0) by (nonlinear_arith)
        requires
            n == d * b + r,
            0 <= r < d,
            n >= 0,
            d >= 2,
    ;
    assert(d * b <= n);
    assert(2 * (count * b) == d * b) by (nonlinear_arith)
        requires
            d == 2 * count,
    ;
    assert(count * b <= total + count);
    assert(b <= total) by (nonlinear_arith)
        requires
            n == d * b + r,
            0 <= r < d,
            total >= 1,
            count >= 1,
            n == 2 * total + count,
            d == 2 * count,
    ;
}

/// The generated installment amounts for `total` cents over `count`
/// slices. Every slice but the last is the rounded base; the last is
/// the remainder, so the amounts always sum exactly to the total.
pub fn installment_amounts(total: i64, count: u32) -> (amounts: Vec<i64>)
    requires
        1 <= total <= MAX_AMOUNT_CENTS,
        count >= 1,
    ensures
        amounts.len() == count,
        forall|i: int|
            0 <= i < count ==> amounts[i] == installment_amount(total as int, count as int, i),
        forall|i: int| 0 <= i < count ==> #[trigger] amounts[i] <= total,
        sum_cents(amounts@) == total,
{
    proof {
        lemma_split_base_bounds(total as int, count as int);
    }
    let wide: i128 = (2 * (total as i128) + (count as i128)) / (2 * (count as i128));
    assert(wide == split_base(total as int, count as int));
    let base: i64 = wide as i64;
    let mut amounts: Vec<i64> = Vec::new();
    let mut i: u32 = 0;
    let mut allocated: i64 = 0;
    while i < count - 1
        invariant
            0 <= i <= count - 1,
            1 <= total <= MAX_AMOUNT_CENTS,
            count >= 1,
            base == split_base(total as int, count as int),
            0 <= base <= total,
            count * base <= total + count,
            amounts.len() == i,
            allocated == i * base,
            forall|j: int|
                0 <= j < i ==> amounts[j] == installment_amount(total as int, count as int, j),
            sum_cents(amounts@) == allocated,
        decreases count - i,
    {
        assert(0 <= i * base && i * base + base == (i + 1) * base && (i + 1) * base <= count
            * base) by (nonlinear_arith)
            requires
                0 <= base,
                0 <= i,
                i + 1 <= count,
        ;
        let ghost prev = amounts@;
        amounts.push(base);
        proof {
            assert(amounts@.drop_last() =~= prev);
        }
        allocated = allocated + base;
        i = i + 1;
        assert(allocated == i * base) by (nonlinear_arith)
            requires
                allocated == (i - 1) * base + base,
        ;
    }
    assert(allocated == (count - 1) * base);
    assert(0 <= allocated && allocated <= count * base) by (nonlinear_arith)
        requires
            allocated == (count - 1) * base,
            0 <= base,
            count >= 1,
    ;
    let last: i64 = total - allocated;
    let ghost prev = amounts@;
    amounts.push(last);
    proof {
        assert(amounts@.drop_last() =~= prev);
    }
    amounts
}

} // verus!
