use vstd::prelude::*;

verus! {

/// One hundred percent, in basis points.
pub const BASIS_POINTS: i128 = 10000;

/// Seconds in a day.
pub const SECONDS_PER_DAY: u64 = 86400;

/// Seconds in a year of 365 days.
pub const SECONDS_PER_YEAR: u64 = 31536000;

/// Whether `x` can be held as a signed fixed-point amount.
pub open spec fn fits_i128(x: int) -> bool {
    i128::MIN <= x <= i128::MAX
}

/// The quotient of `a` by a positive `b`, rounded toward zero.
pub open spec fn trunc_div(a: int, b: int) -> int {
    if a >= 0 {
        a / b
    } else {
        -((-a) / b)
    }
}

/// `bp` basis points of `amount`, rounded toward zero.
pub open spec fn bp_of(amount: int, bp: int) -> int {
    trunc_div(amount * bp, 10000)
}

/// Whole days between `now` and a later `due_date`.
pub open spec fn days_between(now: int, due_date: int) -> int {
    (due_date - now) / 86400
}

/// `bp` basis points of `amount`.
pub fn basis_points_of(amount: i128, bp: u32) -> (r: i128)
    requires
        fits_i128(amount * bp),
    ensures
        r == bp_of(amount as int, bp as int),
{
    let wide: i128 = bp as i128;
    amount * wide / BASIS_POINTS
}

/// Whole days from `now` until `due_date`.
pub fn days_until(now: u64, due_date: u64) -> (days: u64)
    requires
        now <= due_date,
    ensures
        days as int == days_between(now as int, due_date as int),
{
    (due_date - now) / SECONDS_PER_DAY
}

/// A truncating quotient has the sign of its dividend and is no larger.
pub proof fn lemma_trunc_div_bounds(a: int, b: int)
    requires
        b > 0,
    ensures
        a >= 0 ==> 0 <= trunc_div(a, b) <= a,
        a <= 0 ==> a <= trunc_div(a, b) <= 0,
{
    if a >= 0 {
        assert(0 <= a / b <= a) by (nonlinear_arith)
            requires
                a >= 0,
                b > 0,
        ;
    } else {
        let m = -a;
        assert(0 <= m / b <= m) by (nonlinear_arith)
            requires
                m >= 0,
                b > 0,
        ;
    }
}

} // verus!
