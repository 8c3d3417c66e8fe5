use vstd::prelude::*;

use crate::pricing::lemma_div_nonneg;
use crate::types::{DutchAuctionData, PointAndTimeDelta};
use vstd::arithmetic::div_mod::{
    lemma_div_is_ordered, lemma_div_multiples_vanish, lemma_div_multiples_vanish_fancy,
};

verus! {

/// `a / d` rounded up, for `a >= 0` and `d > 0`.
pub open spec fn spec_div_up(a: int, d: int) -> int {
    (a + d - 1) / d
}

/// The rate bump at time `t`, walking the remaining breakpoints `pts` from
/// the segment that starts at `(cur_time, cur_rate)`; interpolation inside a
/// segment rounds down, and the closing segment toward `(finish, 0)` rounds
/// up. Meaningful for `cur_time < t < finish`.
pub open spec fn segment_rate_bump(
    t: int,
    cur_time: int,
    cur_rate: int,
    pts: Seq<PointAndTimeDelta>,
    finish: int,
) -> int
    decreases pts.len(),
{
    if pts.len() == 0 {
        spec_div_up((finish - t) * cur_rate, finish - cur_time)
    } else {
        let next_time = cur_time + pts[0].time_delta;
        let next_rate = pts[0].rate_bump as int;
        if t <= next_time {
            ((t - cur_time) * next_rate + (next_time - t) * cur_rate) / (next_time - cur_time)
        } else {
            segment_rate_bump(t, next_time, next_rate, pts.drop_first(), finish)
        }
    }
}

/// The auction rate bump at time `t`: the initial bump at or before the
/// start, zero at or after the finish, and the piecewise-linear interpolation
/// through the breakpoints in between.
pub open spec fn spec_rate_bump(t: int, data: DutchAuctionData) -> int {
    if t <= data.auction_start_time as int {
        data.initial_rate_bump as int
    } else if t >= data.auction_finish_time as int {
        0
    } else {
        segment_rate_bump(
            t,
            data.auction_start_time as int,
            data.initial_rate_bump as int,
            data.points_and_time_deltas@,
            data.auction_finish_time as int,
        )
    }
}

/// The breakpoint rates never rise along the schedule, starting from `rate`.
pub open spec fn rates_non_increasing(rate: int, pts: Seq<PointAndTimeDelta>) -> bool
    decreases pts.len(),
{
    pts.len() == 0 || (pts[0].rate_bump <= rate && rates_non_increasing(
        pts[0].rate_bump as int,
        pts.drop_first(),
    ))
}

/// Time elapsed from the auction start to breakpoint `k - 1`: the sum of the
/// first `k` time deltas.
pub open spec fn cum_delta(pts: Seq<PointAndTimeDelta>, k: int) -> int
    decreases k,
{
    if k <= 0 {
        0
    } else {
        cum_delta(pts, k - 1) + pts[k - 1].time_delta
    }
}

/// Absolute time of the schedule's breakpoint `k`.
pub open spec fn breakpoint_time(data: DutchAuctionData, k: int) -> int {
    data.auction_start_time + cum_delta(data.points_and_time_deltas@, k + 1)
}

/// Computes the current rate bump for the given timestamp, in basis points
/// where `BASE_1E5` = 100%. Total: every schedule, however shaped, yields a
/// bump, and the bump always fits the range of a single breakpoint rate.
pub fn calculate_rate_bump(timestamp: u64, data: &DutchAuctionData) -> (r: u64)
    ensures
        r == spec_rate_bump(timestamp as int, *data),
        r <= u16::MAX,
{
    if timestamp <= data.auction_start_time as u64 {
        return data.initial_rate_bump as u64;
    }
    let auction_finish_time = data.auction_finish_time as u64;
    if timestamp >= auction_finish_time {
        return 0;
    }

    let ghost pts = data.points_and_time_deltas@;
    let ghost t = timestamp as int;
    let ghost finish = auction_finish_time as int;

    let mut current_rate_bump: u64 = data.initial_rate_bump as u64;
    let mut current_point_time: u64 = data.auction_start_time as u64;
    let n = data.points_and_time_deltas.len();
    let mut i: usize = 0;

    proof {
        assert(pts.skip(0) =~= pts);
    }

    while i < n
        invariant
            i <= n,
            n == pts.len(),
            pts == data.points_and_time_deltas@,
            t == timestamp as int,
            finish == data.auction_finish_time as int,
            current_point_time < timestamp < auction_finish_time,
            auction_finish_time == data.auction_finish_time as u64,
            current_rate_bump <= u16::MAX,
            spec_rate_bump(t, *data) == segment_rate_bump(
                t,
                current_point_time as int,
                current_rate_bump as int,
                pts.skip(i as int),
                finish,
            ),
        decreases n - i,
    {
        let p = data.points_and_time_deltas[i];
        let next_rate_bump = p.rate_bump as u64;
        let point_time_delta = p.time_delta as u64;
        let next_point_time = current_point_time + point_time_delta;

        proof {
            assert(pts.skip(i as int)[0] == pts[i as int]);
        }

        if timestamp <= next_point_time {
            proof {
                vstd::arithmetic::mul::lemma_mul_upper_bound(
                    (timestamp - current_point_time) as int,
                    u32::MAX as int,
                    next_rate_bump as int,
                    u16::MAX as int,
                );
                vstd::arithmetic::mul::lemma_mul_upper_bound(
                    (next_point_time - timestamp) as int,
                    u16::MAX as int,
                    current_rate_bump as int,
                    u16::MAX as int,
                );
            }
            let num = (timestamp - current_point_time) * next_rate_bump + (next_point_time
                - timestamp) * current_rate_bump;
            let den = next_point_time - current_point_time;
            proof {
                let a = current_point_time as int;
                let b = next_point_time as int;
                let r1 = current_rate_bump as int;
                let r2 = next_rate_bump as int;
                assert((t - a) * r2 + (b - t) * r1 <= (b - a) * 0xffff) by (nonlinear_arith)
                    requires
                        a < t <= b,
                        0 <= r1 <= 0xffff,
                        0 <= r2 <= 0xffff,
                ;
                assert(0 <= (t - a) * r2 + (b - t) * r1) by (nonlinear_arith)
                    requires
                        a < t <= b,
                        0 <= r1,
                        0 <= r2,
                ;
                lemma_div_is_ordered(num as int, (b - a) * 0xffff, b - a);
                lemma_div_multiples_vanish(0xffff, b - a);
                lemma_div_nonneg(num as int, b - a);
            }
            return num / den;
        }

        current_rate_bump = next_rate_bump;
        current_point_time = next_point_time;
        i = i + 1;
        proof {
            assert(pts.skip(i - 1 as int).drop_first() =~= pts.skip(i as int));
        }
    }

    proof {
        assert(pts.skip(n as int) =~= Seq::<PointAndTimeDelta>::empty());
    }
    proof {
        vstd::arithmetic::mul::lemma_mul_upper_bound(
            (auction_finish_time - timestamp) as int,
            u32::MAX as int,
            current_rate_bump as int,
            u16::MAX as int,
        );
    }
    let num = (auction_finish_time - timestamp) * current_rate_bump;
    let den = auction_finish_time - current_point_time;
    proof {
        let a = current_point_time as int;
        let r1 = current_rate_bump as int;
        assert((finish - t) * r1 <= (finish - a) * r1) by (nonlinear_arith)
            requires
                a < t < finish,
                0 <= r1,
        ;
        assert(0 <= (finish - t) * r1) by (nonlinear_arith)
            requires
                t < finish,
                0 <= r1,
        ;
        lemma_div_is_ordered(num + (finish - a) - 1, (finish - a) * r1 + (finish - a) - 1, finish - a);
        lemma_div_multiples_vanish_fancy(r1, (finish - a) - 1, finish - a);
        lemma_div_nonneg(num + (finish - a) - 1, finish - a);
    }
    (num + (den - 1)) / den
}

/// Rounding up respects the ordering of the numerators.
proof fn lemma_div_up_ordered(x: int, y: int, d: int)
    requires
        x <= y,
        0 < d,
    ensures
        spec_div_up(x, d) <= spec_div_up(y, d),
{
    lemma_div_is_ordered(x + d - 1, y + d - 1, d);
}

/// Rounding up an exact multiple loses nothing: `div_up(d * x, d) == x`.
proof fn lemma_div_up_exact(x: int, d: int)
    requires
        0 < d,
    ensures
        spec_div_up(d * x, d) == x,
{
    lemma_div_multiples_vanish_fancy(x, d - 1, d);
}

/// Inside the window the interpolated bump stays between zero and the rate
/// at the segment's left end, as long as the rates never rise.
proof fn lemma_segment_upper(
    t: int,
    cur_time: int,
    cur_rate: int,
    pts: Seq<PointAndTimeDelta>,
    finish: int,
)
    requires
        cur_time < t < finish,
        0 <= cur_rate,
        rates_non_increasing(cur_rate, pts),
    ensures
        0 <= segment_rate_bump(t, cur_time, cur_rate, pts, finish) <= cur_rate,
    decreases pts.len(),
{
    if pts.len() == 0 {
        let num = (finish - t) * cur_rate;
        let den = finish - cur_time;
        assert((finish - t) * cur_rate <= (finish - cur_time) * cur_rate) by (nonlinear_arith)
            requires
                cur_time < t < finish,
                0 <= cur_rate,
        ;
        assert(0 <= (finish - t) * cur_rate) by (nonlinear_arith)
            requires
                t < finish,
                0 <= cur_rate,
        ;
        lemma_div_up_ordered(num, den * cur_rate, den);
        lemma_div_up_exact(cur_rate, den);
        lemma_div_up_ordered(0, num, den);
        lemma_div_up_exact(0, den);
    } else {
        let next_time = cur_time + pts[0].time_delta;
        let next_rate = pts[0].rate_bump as int;
        if t <= next_time {
            let num = (t - cur_time) * next_rate + (next_time - t) * cur_rate;
            let den = next_time - cur_time;
            assert((t - cur_time) * next_rate + (next_time - t) * cur_rate <= (next_time
                - cur_time) * cur_rate) by (nonlinear_arith)
                requires
                    cur_time < t <= next_time,
                    0 <= next_rate <= cur_rate,
            ;
            assert(0 <= (t - cur_time) * next_rate + (next_time - t) * cur_rate)
                by (nonlinear_arith)
                requires
                    cur_time < t <= next_time,
                    0 <= next_rate,
                    0 <= cur_rate,
            ;
            lemma_div_is_ordered(num, den * cur_rate, den);
            lemma_div_multiples_vanish(cur_rate, den);
            lemma_div_nonneg(num, den);
        } else {
            lemma_segment_upper(t, next_time, next_rate, pts.drop_first(), finish);
        }
    }
}

/// Inside the window the interpolated bump never rises with time, as long as
/// the rates never rise.
proof fn lemma_segment_monotone(
    t1: int,
    t2: int,
    cur_time: int,
    cur_rate: int,
    pts: Seq<PointAndTimeDelta>,
    finish: int,
)
    requires
        cur_time < t1 <= t2 < finish,
        0 <= cur_rate,
        rates_non_increasing(cur_rate, pts),
    ensures
        segment_rate_bump(t1, cur_time, cur_rate, pts, finish) >= segment_rate_bump(
            t2,
            cur_time,
            cur_rate,
            pts,
            finish,
        ),
    decreases pts.len(),
{
    if pts.len() == 0 {
        let num1 = (finish - t1) * cur_rate;
        let num2 = (finish - t2) * cur_rate;
        assert((finish - t2) * cur_rate <= (finish - t1) * cur_rate) by (nonlinear_arith)
            requires
                t1 <= t2,
                0 <= cur_rate,
        ;
        lemma_div_up_ordered(num2, num1, finish - cur_time);
    } else {
        let next_time = cur_time + pts[0].time_delta;
        let next_rate = pts[0].rate_bump as int;
        if t2 <= next_time {
            let den = next_time - cur_time;
            let num1 = (t1 - cur_time) * next_rate + (next_time - t1) * cur_rate;
            let num2 = (t2 - cur_time) * next_rate + (next_time - t2) * cur_rate;
            assert((t2 - cur_time) * next_rate + (next_time - t2) * cur_rate <= (t1 - cur_time)
                * next_rate + (next_time - t1) * cur_rate) by (nonlinear_arith)
                requires
                    t1 <= t2,
                    next_rate <= cur_rate,
            ;
            lemma_div_is_ordered(num2, num1, den);
        } else if t1 <= next_time {
            let den = next_time - cur_time;
            let num1 = (t1 - cur_time) * next_rate + (next_time - t1) * cur_rate;
            assert((next_time - cur_time) * next_rate <= (t1 - cur_time) * next_rate + (next_time
                - t1) * cur_rate) by (nonlinear_arith)
                requires
                    cur_time < t1 <= next_time,
                    next_rate <= cur_rate,
            ;
            lemma_div_is_ordered(den * next_rate, num1, den);
            lemma_div_multiples_vanish(next_rate, den);
            lemma_segment_upper(t2, next_time, next_rate, pts.drop_first(), finish);
        } else {
            lemma_segment_monotone(t1, t2, next_time, next_rate, pts.drop_first(), finish);
        }
    }
}

/// Monotonic decay: between the start and the finish of the auction the rate
/// bump never rises with time, for every schedule whose declared breakpoint
/// rates never rise.
pub proof fn lemma_rate_bump_monotonic(data: DutchAuctionData, t1: int, t2: int)
    requires
        rates_non_increasing(data.initial_rate_bump as int, data.points_and_time_deltas@),
        data.auction_start_time <= t1 < t2 <= data.auction_finish_time,
    ensures
        spec_rate_bump(t1, data) >= spec_rate_bump(t2, data),
{
    let start = data.auction_start_time as int;
    let finish = data.auction_finish_time as int;
    let init = data.initial_rate_bump as int;
    let pts = data.points_and_time_deltas@;
    if t2 <= start {
    } else if t1 <= start {
        if t2 >= finish {
        } else {
            lemma_segment_upper(t2, start, init, pts, finish);
        }
    } else if t2 >= finish {
        lemma_segment_upper(t1, start, init, pts, finish);
    } else {
        lemma_segment_monotone(t1, t2, start, init, pts, finish);
    }
}

/// The curve's endpoints: the initial bump holds exactly at the start and the
/// bump is exactly zero at the finish.
pub proof fn lemma_rate_bump_endpoints(data: DutchAuctionData)
    requires
        data.auction_start_time < data.auction_finish_time,
    ensures
        spec_rate_bump(data.auction_start_time as int, data) == data.initial_rate_bump,
        spec_rate_bump(data.auction_finish_time as int, data) == 0,
{
}

/// The sum of `k` unit-or-larger deltas is at least `k`.
proof fn lemma_cum_delta_lower(pts: Seq<PointAndTimeDelta>, k: int)
    requires
        0 <= k <= pts.len(),
        forall|i: int| 0 <= i < pts.len() ==> #[trigger] pts[i].time_delta >= 1,
    ensures
        cum_delta(pts, k) >= k,
    decreases k,
{
    if k > 0 {
        lemma_cum_delta_lower(pts, k - 1);
    }
}

/// Splitting the cumulative delta at the first breakpoint.
proof fn lemma_cum_delta_shift(pts: Seq<PointAndTimeDelta>, k: int)
    requires
        1 <= k <= pts.len(),
    ensures
        cum_delta(pts, k) == pts[0].time_delta + cum_delta(pts.drop_first(), k - 1),
    decreases k,
{
    if k == 1 {
        assert(cum_delta(pts, 0) == 0);
        assert(cum_delta(pts.drop_first(), 0) == 0);
    } else {
        lemma_cum_delta_shift(pts, k - 1);
        assert(pts.drop_first()[k - 2] == pts[k - 1]);
    }
}

/// The interpolation hits the declared rate exactly at a breakpoint's time.
proof fn lemma_segment_at_breakpoint(
    cur_time: int,
    cur_rate: int,
    pts: Seq<PointAndTimeDelta>,
    finish: int,
    k: int,
)
    requires
        0 <= k < pts.len(),
        forall|i: int| 0 <= i < pts.len() ==> #[trigger] pts[i].time_delta >= 1,
        cur_time + cum_delta(pts, k + 1) < finish,
    ensures
        segment_rate_bump(cur_time + cum_delta(pts, k + 1), cur_time, cur_rate, pts, finish)
            == pts[k].rate_bump,
    decreases k,
{
    let tt = cur_time + cum_delta(pts, k + 1);
    let next_time = cur_time + pts[0].time_delta;
    let next_rate = pts[0].rate_bump as int;
    let den = next_time - cur_time;
    if k == 0 {
        assert(cum_delta(pts, 0) == 0);
        assert(tt == next_time);
        assert((tt - cur_time) * next_rate + (next_time - tt) * cur_rate == den * next_rate)
            by (nonlinear_arith)
            requires
                tt == next_time,
                den == next_time - cur_time,
        ;
        lemma_div_multiples_vanish(next_rate, den);
    } else {
        let rest = pts.drop_first();
        lemma_cum_delta_shift(pts, k + 1);
        assert(forall|i: int| 0 <= i < rest.len() ==> #[trigger] rest[i].time_delta >= 1);
        lemma_cum_delta_lower(rest, k);
        assert(tt > next_time);
        lemma_segment_at_breakpoint(next_time, next_rate, rest, finish, k - 1);
        assert(rest[k - 1] == pts[k]);
    }
}

/// Continuity at breakpoints: evaluated exactly at a declared breakpoint that
/// lies inside the auction window, the curve returns that breakpoint's
/// declared rate, with no rounding deviation from either side's formula.
pub proof fn lemma_rate_bump_at_breakpoint(data: DutchAuctionData, k: int)
    requires
        data.wf(),
        0 <= k < data.points_and_time_deltas@.len(),
        breakpoint_time(data, k) < data.auction_finish_time,
    ensures
        spec_rate_bump(breakpoint_time(data, k), data)
            == data.points_and_time_deltas@[k].rate_bump,
{
    let pts = data.points_and_time_deltas@;
    let start = data.auction_start_time as int;
    lemma_cum_delta_lower(pts, k + 1);
    lemma_segment_at_breakpoint(
        start,
        data.initial_rate_bump as int,
        pts,
        data.auction_finish_time as int,
        k,
    );
}

} // verus!
