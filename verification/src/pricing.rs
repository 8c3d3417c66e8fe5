use vstd::prelude::*;

use crate::dutch_auction::{calculate_rate_bump, spec_rate_bump};
use crate::error::FusionError;
use crate::types::DutchAuctionData;
use crate::BASE_1E5;
use vstd::arithmetic::div_mod::{lemma_div_is_ordered, lemma_div_multiples_vanish};
use vstd::arithmetic::mul::{lemma_mul_inequality, lemma_mul_upper_bound};

verus! {

/// `a * b / c`, rounded down, over the mathematical integers.
pub open spec fn spec_muldiv_floor(a: int, b: int, c: int) -> int {
    a * b / c
}

/// `a * b / c`, rounded up, over the mathematical integers (for `c > 0`).
pub open spec fn spec_muldiv_ceil(a: int, b: int, c: int) -> int {
    (a * b + c - 1) / c
}

/// For nonnegative `x` and positive `d`: `x / d >= 0`.
pub proof fn lemma_div_nonneg(x: int, d: int)
    requires
        0 <= x,
        0 < d,
    ensures
        0 <= x / d,
{
    lemma_div_is_ordered(0, x, d);
}

/// Rounding `x * b / c` down never exceeds `x` when the rate `b` is at most
/// the denominator `c`.
pub proof fn lemma_muldiv_floor_le(x: int, b: int, c: int)
    requires
        0 <= x,
        0 <= b <= c,
        0 < c,
    ensures
        0 <= spec_muldiv_floor(x, b, c) <= x,
{
    lemma_mul_inequality(b, c, x);
    assert(x * b == b * x) by (nonlinear_arith);
    assert(x * c == c * x) by (nonlinear_arith);
    lemma_div_is_ordered(x * b, x * c, c);
    lemma_div_multiples_vanish(x, c);
    assert(0 <= x * b) by (nonlinear_arith)
        requires
            0 <= x,
            0 <= b,
    ;
    lemma_div_nonneg(x * b, c);
}

/// Floor of `a * b / c`, or `None` when `c` is zero or the quotient does not
/// fit in a `u64`.
pub fn mul_div_floor(a: u64, b: u64, c: u64) -> (r: Option<u64>)
    ensures
        c == 0 ==> r is None,
        c != 0 ==> {
            let q = spec_muldiv_floor(a as int, b as int, c as int);
            match r {
                Some(v) => v == q,
                None => q > u64::MAX,
            }
        },
{
    if c == 0 {
        return None;
    }
    proof {
        lemma_mul_upper_bound(a as int, u64::MAX as int, b as int, u64::MAX as int);
    }
    let p: u128 = (a as u128) * (b as u128);
    let q: u128 = p / (c as u128);
    proof {
        lemma_div_nonneg(p as int, c as int);
    }
    if q > u64::MAX as u128 {
        None
    } else {
        Some(q as u64)
    }
}

/// Ceiling of `a * b / c`, or `None` when `c` is zero or the quotient does
/// not fit in a `u64`.
pub fn mul_div_ceil(a: u64, b: u64, c: u64) -> (r: Option<u64>)
    ensures
        c == 0 ==> r is None,
        c != 0 ==> {
            let q = spec_muldiv_ceil(a as int, b as int, c as int);
            match r {
                Some(v) => v == q,
                None => q > u64::MAX,
            }
        },
{
    if c == 0 {
        return None;
    }
    proof {
        lemma_mul_upper_bound(a as int, u64::MAX as int, b as int, u64::MAX as int);
    }
    let p: u128 = (a as u128) * (b as u128);
    let q: u128 = (p + (c - 1) as u128) / (c as u128);
    proof {
        lemma_div_nonneg((p + (c - 1) as u128) as int, c as int);
    }
    if q > u64::MAX as u128 {
        None
    } else {
        Some(q as u64)
    }
}

/// The counter-amount a fill owes: the per-order rate scaled by the fraction
/// filled, rounded up, then — when a rate bump applies — inflated by it and
/// rounded up again, so that truncation never shorts the maker. Fails exactly
/// when the order's source amount is zero or a quotient exceeds the machine
/// range.
pub open spec fn spec_get_dst_amount(
    initial_src_amount: u64,
    initial_dst_amount: u64,
    src_amount: u64,
    rate_bump: Option<int>,
) -> Result<u64, FusionError> {
    if initial_src_amount == 0 {
        Err(FusionError::IntegerOverflow)
    } else {
        let base = spec_muldiv_ceil(
            initial_dst_amount as int,
            src_amount as int,
            initial_src_amount as int,
        );
        if base > u64::MAX {
            Err(FusionError::IntegerOverflow)
        } else {
            match rate_bump {
                Option::None => Ok(base as u64),
                Option::Some(bump) => {
                    let bumped = spec_muldiv_ceil(base, BASE_1E5 + bump, BASE_1E5 as int);
                    if bumped > u64::MAX {
                        Err(FusionError::IntegerOverflow)
                    } else {
                        Ok(bumped as u64)
                    }
                },
            }
        }
    }
}

/// Counter-amount of `dst_mint` the taker owes for taking `src_amount` out of
/// an order priced at `initial_dst_amount` per `initial_src_amount`, inflated
/// by the auction's rate bump at `timestamp` when a schedule is supplied.
pub fn get_dst_amount(
    initial_src_amount: u64,
    initial_dst_amount: u64,
    src_amount: u64,
    opt_data: Option<&DutchAuctionData>,
    timestamp: u64,
) -> (r: Result<u64, FusionError>)
    ensures
        opt_data is None ==> r == spec_get_dst_amount(
            initial_src_amount,
            initial_dst_amount,
            src_amount,
            Option::None,
        ),
        opt_data matches Some(data) ==> r == spec_get_dst_amount(
            initial_src_amount,
            initial_dst_amount,
            src_amount,
            Option::Some(spec_rate_bump(timestamp as int, *data)),
        ),
{
    let result = match mul_div_ceil(initial_dst_amount, src_amount, initial_src_amount) {
        Some(v) => v,
        None => {
            return Err(FusionError::IntegerOverflow);
        },
    };
    match opt_data {
        None => Ok(result),
        Some(data) => {
            let rate_bump = calculate_rate_bump(timestamp, data);
            match mul_div_ceil(result, BASE_1E5 + rate_bump, BASE_1E5) {
                Some(v) => Ok(v),
                None => Err(FusionError::IntegerOverflow),
            }
        },
    }
}

} // verus!
