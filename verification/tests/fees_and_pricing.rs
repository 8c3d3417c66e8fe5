use fusion_swap::error::FusionError;
use fusion_swap::fees::get_fee_amounts;
use fusion_swap::pricing::{get_dst_amount, mul_div_ceil, mul_div_floor};
use fusion_swap::types::{DutchAuctionData, PointAndTimeDelta};

#[test]
fn mul_div_rounding_directions() {
    assert_eq!(mul_div_floor(7, 3, 2), Some(10));
    assert_eq!(mul_div_ceil(7, 3, 2), Some(11));
    assert_eq!(mul_div_floor(10, 10, 5), Some(20));
    assert_eq!(mul_div_ceil(10, 10, 5), Some(20));
}

#[test]
fn mul_div_zero_divisor() {
    assert_eq!(mul_div_floor(1, 1, 0), None);
    assert_eq!(mul_div_ceil(1, 1, 0), None);
}

#[test]
fn mul_div_overflow() {
    assert_eq!(mul_div_floor(u64::MAX, u64::MAX, 1), None);
    assert_eq!(mul_div_ceil(u64::MAX, 2, 1), None);
    assert_eq!(mul_div_floor(u64::MAX, 2, 2), Some(u64::MAX));
}

#[test]
fn pricing_example() {
    // A fill of half the order at the floor rate, with no rate bump.
    assert_eq!(get_dst_amount(1000, 2000, 500, None, 0), Ok(1000));
}

#[test]
fn pricing_rounds_up_for_the_maker() {
    // ceil(1000 * 1 / 3) = 334
    assert_eq!(get_dst_amount(3, 1000, 1, None, 0), Ok(334));
}

#[test]
fn pricing_zero_src_amount_is_rejected() {
    assert_eq!(
        get_dst_amount(0, 2000, 500, None, 0),
        Err(FusionError::IntegerOverflow)
    );
}

#[test]
fn pricing_applies_rate_bump() {
    // Before the auction starts the full initial bump applies:
    // ceil(1000 * (100000 + 50000) / 100000) = 1500.
    let data = DutchAuctionData {
        auction_start_time: 100,
        auction_finish_time: 200,
        initial_rate_bump: 50000,
        points_and_time_deltas: vec![],
    };
    assert_eq!(get_dst_amount(1000, 2000, 500, Some(&data), 50), Ok(1500));
    // At or after the finish the bump is zero.
    assert_eq!(get_dst_amount(1000, 2000, 500, Some(&data), 200), Ok(1000));
}

#[test]
fn pricing_interpolates_through_breakpoints() {
    let data = DutchAuctionData {
        auction_start_time: 100,
        auction_finish_time: 200,
        initial_rate_bump: 1000,
        points_and_time_deltas: vec![
            PointAndTimeDelta { rate_bump: 500, time_delta: 10 },
            PointAndTimeDelta { rate_bump: 200, time_delta: 10 },
        ],
    };
    // Halfway into the first segment: (5*500 + 5*1000) / 10 = 750.
    // ceil(1000 * 100750 / 100000) = 1008.
    assert_eq!(get_dst_amount(1000, 2000, 500, Some(&data), 105), Ok(1008));
}

#[test]
fn fee_split_example() {
    // 0.5% protocol fee on a gross of 1000.
    assert_eq!(get_fee_amounts(0, 500, 0, 1000, 1000), Ok((5, 0, 995)));
}

#[test]
fn fee_split_integrator() {
    // 1% integrator fee on a gross of 1000, nothing else.
    assert_eq!(get_fee_amounts(1000, 0, 0, 1000, 1000), Ok((0, 10, 990)));
}

#[test]
fn surplus_capture_example() {
    // Gross 1200 against an estimate of 1000 with a 10% surplus share.
    assert_eq!(get_fee_amounts(0, 0, 10, 1200, 1000), Ok((20, 0, 1180)));
}

#[test]
fn fee_split_conserves_value() {
    let gross = 987_654_321u64;
    let (p, i, n) = get_fee_amounts(1234, 4321, 37, gross, 900_000_000).unwrap();
    assert_eq!(p + i + n, gross);
}

#[test]
fn fee_split_overflow_when_fees_exceed_gross() {
    // 60% + 60% of the gross cannot both be taken.
    assert_eq!(
        get_fee_amounts(60000, 60000, 0, 1000, 1000),
        Err(FusionError::IntegerOverflow)
    );
}
