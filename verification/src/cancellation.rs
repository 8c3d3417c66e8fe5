use vstd::prelude::*;

use vstd::arithmetic::div_mod::{lemma_div_is_ordered, lemma_div_multiples_vanish};
use vstd::arithmetic::mul::{lemma_mul_inequality, lemma_mul_upper_bound};

verus! {

/// The cancellation premium multiplier at `now`, in basis points where
/// `BASE_1E3` = 100%: zero at the expiration time, rising linearly to
/// `max_multiplier` over the cancellation window, and capped there once the
/// window has passed. Meaningful for `now >= expiration_time`.
pub open spec fn spec_premium_multiplier(
    now: int,
    expiration_time: int,
    duration: int,
    max_multiplier: int,
) -> int {
    if now >= expiration_time + duration {
        max_multiplier
    } else {
        (now - expiration_time) * max_multiplier / duration
    }
}

/// Computes the premium multiplier a resolver has earned by `timestamp` for
/// cancelling an order that expired at `expiration_time`.
pub fn calculate_premium_multiplier(
    timestamp: u32,
    expiration_time: u32,
    cancellation_auction_duration: u32,
    max_cancellation_multiplier: u16,
) -> (r: u64)
    requires
        timestamp >= expiration_time,
    ensures
        r == spec_premium_multiplier(
            timestamp as int,
            expiration_time as int,
            cancellation_auction_duration as int,
            max_cancellation_multiplier as int,
        ),
        r <= max_cancellation_multiplier,
{
    let auction_end = expiration_time as u64 + cancellation_auction_duration as u64;
    if timestamp as u64 >= auction_end {
        max_cancellation_multiplier as u64
    } else {
        let elapsed = timestamp as u64 - expiration_time as u64;
        let duration = cancellation_auction_duration as u64;
        proof {
            lemma_mul_upper_bound(elapsed as int, u32::MAX as int, max_cancellation_multiplier as int, u16::MAX as int);
            lemma_mul_inequality(elapsed as int, duration as int, max_cancellation_multiplier as int);
            lemma_div_is_ordered(
                elapsed * max_cancellation_multiplier,
                duration * max_cancellation_multiplier,
                duration as int,
            );
            lemma_div_multiples_vanish(max_cancellation_multiplier as int, duration as int);
            crate::pricing::lemma_div_nonneg(elapsed * max_cancellation_multiplier, duration as int);
        }
        (elapsed * max_cancellation_multiplier as u64) / duration
    }
}

} // verus!
