use fusion_swap::dutch_auction::calculate_rate_bump;
use fusion_swap::types::{DutchAuctionData, PointAndTimeDelta};

fn two_point_schedule() -> DutchAuctionData {
    DutchAuctionData {
        auction_start_time: 100,
        auction_finish_time: 200,
        initial_rate_bump: 1000,
        points_and_time_deltas: vec![
            PointAndTimeDelta { rate_bump: 500, time_delta: 10 },
            PointAndTimeDelta { rate_bump: 200, time_delta: 10 },
        ],
    }
}

#[test]
fn initial_bump_at_and_before_start() {
    let data = two_point_schedule();
    assert_eq!(calculate_rate_bump(0, &data), 1000);
    assert_eq!(calculate_rate_bump(100, &data), 1000);
}

#[test]
fn zero_at_and_after_finish() {
    let data = two_point_schedule();
    assert_eq!(calculate_rate_bump(200, &data), 0);
    assert_eq!(calculate_rate_bump(1_000_000, &data), 0);
}

#[test]
fn declared_rate_exactly_at_breakpoints() {
    let data = two_point_schedule();
    assert_eq!(calculate_rate_bump(110, &data), 500);
    assert_eq!(calculate_rate_bump(120, &data), 200);
}

#[test]
fn interpolates_within_a_segment() {
    let data = two_point_schedule();
    // (5 * 500 + 5 * 1000) / 10 = 750, rounded down.
    assert_eq!(calculate_rate_bump(105, &data), 750);
    // (5 * 200 + 5 * 500) / 10 = 350.
    assert_eq!(calculate_rate_bump(115, &data), 350);
}

#[test]
fn final_segment_rounds_up() {
    let data = two_point_schedule();
    // Between the last breakpoint (120, 200) and (200, 0):
    // ceil((200 - 130) * 200 / (200 - 120)) = ceil(175.0) = 175,
    // ceil((200 - 133) * 200 / 80) = ceil(167.5) = 168.
    assert_eq!(calculate_rate_bump(130, &data), 175);
    assert_eq!(calculate_rate_bump(133, &data), 168);
}

#[test]
fn plain_linear_decay_without_breakpoints() {
    let data = DutchAuctionData {
        auction_start_time: 0,
        auction_finish_time: 100,
        initial_rate_bump: 1000,
        points_and_time_deltas: vec![],
    };
    // ceil((100 - 50) * 1000 / 100) = 500.
    assert_eq!(calculate_rate_bump(50, &data), 500);
    // ceil((100 - 99) * 1000 / 100) = 10.
    assert_eq!(calculate_rate_bump(99, &data), 10);
}

#[test]
fn decay_is_monotonic_over_the_window() {
    let data = two_point_schedule();
    let mut previous = calculate_rate_bump(100, &data);
    for t in 101..=200u64 {
        let bump = calculate_rate_bump(t, &data);
        assert!(bump <= previous, "rate bump rose at t = {}", t);
        previous = bump;
    }
}
