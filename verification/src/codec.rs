use vstd::prelude::*;

use crate::types::{
    DutchAuctionData, FeeConfig, OrderConfig, PointAndTimeDelta, ReducedFeeConfig,
    ReducedOrderConfig,
};
use vstd::bytes::{
    spec_u16_from_le_bytes, spec_u16_to_le_bytes, spec_u32_from_le_bytes, spec_u32_to_le_bytes,
    spec_u64_from_le_bytes, spec_u64_to_le_bytes, u16_from_le_bytes, u16_to_le_bytes,
    u32_from_le_bytes, u32_to_le_bytes, u64_from_le_bytes, u64_to_le_bytes,
};
use vstd::slice::{slice_index_get, slice_subrange};

verus! {

// The canonical binary encoding of an order's terms: fixed-width integers in
// little-endian byte order, in declaration order; a boolean is one byte, 0 or
// 1; an optional field is a presence byte, 0 or 1, followed by the value when
// present; a breakpoint list is its length as four bytes followed by its
// elements. This layout is the persisted wire format, and the order-identity
// digest is taken over it, so it must never change shape silently.

/// One byte for a boolean: 1 for true, 0 for false.
pub open spec fn spec_bool_byte(b: bool) -> u8 {
    if b {
        1u8
    } else {
        0u8
    }
}

/// Presence byte, then the 32 key bytes when present.
pub open spec fn spec_opt_key_bytes(o: Option<[u8; 32]>) -> Seq<u8> {
    match o {
        Option::None => seq![0u8],
        Option::Some(k) => seq![1u8] + k@,
    }
}

/// Each breakpoint is its rate bump then its time delta, two bytes each.
pub open spec fn spec_points_bytes(pts: Seq<PointAndTimeDelta>) -> Seq<u8>
    decreases pts.len(),
{
    if pts.len() == 0 {
        Seq::<u8>::empty()
    } else {
        spec_u16_to_le_bytes(pts[0].rate_bump) + spec_u16_to_le_bytes(pts[0].time_delta)
            + spec_points_bytes(pts.drop_first())
    }
}

/// A schedule: start, finish, initial bump, then the length-prefixed breakpoints.
pub open spec fn spec_auction_bytes(d: DutchAuctionData) -> Seq<u8> {
    spec_u32_to_le_bytes(d.auction_start_time) + spec_u32_to_le_bytes(d.auction_finish_time)
        + spec_u16_to_le_bytes(d.initial_rate_bump) + spec_u32_to_le_bytes(
        d.points_and_time_deltas@.len() as u32,
    ) + spec_points_bytes(d.points_and_time_deltas@)
}

/// Full fee terms, destinations included.
pub open spec fn spec_fee_bytes(f: FeeConfig) -> Seq<u8> {
    spec_opt_key_bytes(f.protocol_dst_ata) + spec_opt_key_bytes(f.integrator_dst_ata)
        + spec_u16_to_le_bytes(f.protocol_fee) + spec_u16_to_le_bytes(f.integrator_fee) + seq![
        f.surplus_percentage,
    ] + spec_u64_to_le_bytes(f.min_cancellation_premium) + spec_u16_to_le_bytes(
        f.max_cancellation_multiplier,
    )
}

/// Reduced fee terms, as transmitted.
pub open spec fn spec_reduced_fee_bytes(f: ReducedFeeConfig) -> Seq<u8> {
    spec_u16_to_le_bytes(f.protocol_fee) + spec_u16_to_le_bytes(f.integrator_fee) + seq![
        f.surplus_percentage,
    ] + spec_u64_to_le_bytes(f.min_cancellation_premium) + spec_u16_to_le_bytes(
        f.max_cancellation_multiplier,
    )
}

/// The canonical encoding of an order's full terms, the input of the
/// order-identity digest.
pub open spec fn spec_order_bytes(o: OrderConfig) -> Seq<u8> {
    spec_u32_to_le_bytes(o.id) + spec_u64_to_le_bytes(o.src_amount) + spec_u64_to_le_bytes(
        o.min_dst_amount,
    ) + spec_u64_to_le_bytes(o.estimated_dst_amount) + spec_u32_to_le_bytes(o.expiration_time)
        + seq![spec_bool_byte(o.native_dst_asset)] + o.receiver@ + spec_fee_bytes(o.fee)
        + spec_auction_bytes(o.dutch_auction_data) + spec_u32_to_le_bytes(
        o.cancellation_auction_duration,
    ) + o.src_mint@ + o.dst_mint@
}

/// The canonical encoding of an order's transmitted (reduced) form.
pub open spec fn spec_reduced_order_bytes(o: ReducedOrderConfig) -> Seq<u8> {
    spec_u32_to_le_bytes(o.id) + spec_u64_to_le_bytes(o.src_amount) + spec_u64_to_le_bytes(
        o.min_dst_amount,
    ) + spec_u64_to_le_bytes(o.estimated_dst_amount) + spec_u32_to_le_bytes(o.expiration_time)
        + seq![spec_bool_byte(o.native_dst_asset)] + spec_reduced_fee_bytes(o.fee)
        + spec_auction_bytes(o.dutch_auction_data) + spec_u32_to_le_bytes(
        o.cancellation_auction_duration,
    )
}

fn push_u16(out: &mut Vec<u8>, x: u16)
    ensures
        final(out)@ == old(out)@ + spec_u16_to_le_bytes(x),
{
    let mut b = u16_to_le_bytes(x);
    out.append(&mut b);
}

fn push_u32(out: &mut Vec<u8>, x: u32)
    ensures
        final(out)@ == old(out)@ + spec_u32_to_le_bytes(x),
{
    let mut b = u32_to_le_bytes(x);
    out.append(&mut b);
}

fn push_u64(out: &mut Vec<u8>, x: u64)
    ensures
        final(out)@ == old(out)@ + spec_u64_to_le_bytes(x),
{
    let mut b = u64_to_le_bytes(x);
    out.append(&mut b);
}

fn push_bool(out: &mut Vec<u8>, b: bool)
    ensures
        final(out)@ == old(out)@ + seq![spec_bool_byte(b)],
{
    if b {
        out.push(1);
    } else {
        out.push(0);
    }
    proof {
        assert(out@ =~= old(out)@ + seq![spec_bool_byte(b)]);
    }
}

fn push_key(out: &mut Vec<u8>, k: &[u8; 32])
    ensures
        final(out)@ == old(out)@ + k@,
{
    let mut i: usize = 0;
    while i < 32
        invariant
            i <= 32,
            out@ == old(out)@ + k@.take(i as int),
        decreases 32 - i,
    {
        let byte = k[i];
        out.push(byte);
        i = i + 1;
        proof {
            assert(out@ =~= old(out)@ + k@.take(i as int));
        }
    }
    proof {
        assert(k@.take(32) =~= k@);
    }
}

fn push_opt_key(out: &mut Vec<u8>, o: &Option<[u8; 32]>)
    ensures
        final(out)@ == old(out)@ + spec_opt_key_bytes(*o),
{
    match o {
        Option::None => {
            out.push(0);
            proof {
                assert(out@ =~= old(out)@ + spec_opt_key_bytes(*o));
            }
        },
        Option::Some(k) => {
            out.push(1);
            push_key(out, k);
            proof {
                assert(out@ =~= old(out)@ + spec_opt_key_bytes(*o));
            }
        },
    }
}

fn push_points(out: &mut Vec<u8>, pts: &Vec<PointAndTimeDelta>)
    ensures
        final(out)@ == old(out)@ + spec_points_bytes(pts@),
{
    let n = pts.len();
    let mut i: usize = 0;
    proof {
        assert(pts@.skip(0) =~= pts@);
    }
    while i < n
        invariant
            i <= n,
            n == pts@.len(),
            old(out)@ + spec_points_bytes(pts@) =~= out@ + spec_points_bytes(pts@.skip(i as int)),
        decreases n - i,
    {
        let p = pts[i];
        proof {
            assert(pts@.skip(i as int)[0] == pts@[i as int]);
            assert(pts@.skip(i as int).drop_first() =~= pts@.skip(i + 1));
        }
        push_u16(out, p.rate_bump);
        push_u16(out, p.time_delta);
        i = i + 1;
    }
    proof {
        assert(pts@.skip(n as int) =~= Seq::<PointAndTimeDelta>::empty());
        assert(out@ =~= old(out)@ + spec_points_bytes(pts@));
    }
}

fn push_auction(out: &mut Vec<u8>, d: &DutchAuctionData)
    requires
        d.points_and_time_deltas@.len() <= u32::MAX,
    ensures
        final(out)@ == old(out)@ + spec_auction_bytes(*d),
{
    push_u32(out, d.auction_start_time);
    push_u32(out, d.auction_finish_time);
    push_u16(out, d.initial_rate_bump);
    push_u32(out, d.points_and_time_deltas.len() as u32);
    push_points(out, &d.points_and_time_deltas);
    proof {
        assert(out@ =~= old(out)@ + spec_auction_bytes(*d));
    }
}

/// Serializes an order's full terms into the canonical wire format.
pub fn encode_order(o: &OrderConfig) -> (r: Vec<u8>)
    requires
        o.dutch_auction_data.points_and_time_deltas@.len() <= u32::MAX,
    ensures
        r@ == spec_order_bytes(*o),
{
    let mut out: Vec<u8> = Vec::new();
    push_u32(&mut out, o.id);
    push_u64(&mut out, o.src_amount);
    push_u64(&mut out, o.min_dst_amount);
    push_u64(&mut out, o.estimated_dst_amount);
    push_u32(&mut out, o.expiration_time);
    push_bool(&mut out, o.native_dst_asset);
    push_key(&mut out, &o.receiver);
    push_opt_key(&mut out, &o.fee.protocol_dst_ata);
    push_opt_key(&mut out, &o.fee.integrator_dst_ata);
    push_u16(&mut out, o.fee.protocol_fee);
    push_u16(&mut out, o.fee.integrator_fee);
    out.push(o.fee.surplus_percentage);
    push_u64(&mut out, o.fee.min_cancellation_premium);
    push_u16(&mut out, o.fee.max_cancellation_multiplier);
    push_auction(&mut out, &o.dutch_auction_data);
    push_u32(&mut out, o.cancellation_auction_duration);
    push_key(&mut out, &o.src_mint);
    push_key(&mut out, &o.dst_mint);
    proof {
        assert(out@ =~= spec_order_bytes(*o));
    }
    out
}

/// Serializes an order's transmitted (reduced) form into the canonical wire
/// format.
pub fn encode_reduced_order(o: &ReducedOrderConfig) -> (r: Vec<u8>)
    requires
        o.dutch_auction_data.points_and_time_deltas@.len() <= u32::MAX,
    ensures
        r@ == spec_reduced_order_bytes(*o),
{
    let mut out: Vec<u8> = Vec::new();
    push_u32(&mut out, o.id);
    push_u64(&mut out, o.src_amount);
    push_u64(&mut out, o.min_dst_amount);
    push_u64(&mut out, o.estimated_dst_amount);
    push_u32(&mut out, o.expiration_time);
    push_bool(&mut out, o.native_dst_asset);
    push_u16(&mut out, o.fee.protocol_fee);
    push_u16(&mut out, o.fee.integrator_fee);
    out.push(o.fee.surplus_percentage);
    push_u64(&mut out, o.fee.min_cancellation_premium);
    push_u16(&mut out, o.fee.max_cancellation_multiplier);
    push_auction(&mut out, &o.dutch_auction_data);
    push_u32(&mut out, o.cancellation_auction_duration);
    proof {
        assert(out@ =~= spec_reduced_order_bytes(*o));
    }
    out
}

fn read_u16(bytes: &[u8], pos: usize) -> (r: u16)
    requires
        pos + 2 <= bytes@.len(),
    ensures
        r == spec_u16_from_le_bytes(bytes@.subrange(pos as int, pos as int + 2)),
{
    let _len = bytes.len();
    u16_from_le_bytes(slice_subrange(bytes, pos, pos + 2))
}

fn read_u32(bytes: &[u8], pos: usize) -> (r: u32)
    requires
        pos + 4 <= bytes@.len(),
    ensures
        r == spec_u32_from_le_bytes(bytes@.subrange(pos as int, pos as int + 4)),
{
    let _len = bytes.len();
    u32_from_le_bytes(slice_subrange(bytes, pos, pos + 4))
}

fn read_u64(bytes: &[u8], pos: usize) -> (r: u64)
    requires
        pos + 8 <= bytes@.len(),
    ensures
        r == spec_u64_from_le_bytes(bytes@.subrange(pos as int, pos as int + 8)),
{
    let _len = bytes.len();
    u64_from_le_bytes(slice_subrange(bytes, pos, pos + 8))
}

/// Whether `bytes` begins with a well-formed reduced-order encoding: room for
/// the fixed-width fields, a valid boolean byte, and room for as many
/// breakpoints as the length prefix declares, plus the trailing duration.
pub open spec fn spec_reduced_prefix_ok(bytes: Seq<u8>) -> bool {
    &&& bytes.len() >= 62
    &&& (bytes[32] == 0 || bytes[32] == 1)
    &&& bytes.len() >= 66 + 4 * (spec_u32_from_le_bytes(bytes.subrange(58, 62)) as int)
}

/// Parses the canonical encoding of a transmitted order from the front of
/// `bytes`, returning the order and how many bytes it occupied, or `None`
/// when no well-formed encoding is there. Parsing succeeds exactly on
/// well-formed input, and every decoded field is pinned to the bytes it was
/// read from.
pub fn decode_reduced_order(bytes: &[u8]) -> (r: Option<(ReducedOrderConfig, usize)>)
    ensures
        r is Some <==> spec_reduced_prefix_ok(bytes@),
        r matches Some((order, consumed)) ==> {
            let pts = order.dutch_auction_data.points_and_time_deltas@;
            &&& consumed == 66 + 4 * pts.len()
            &&& consumed <= bytes@.len()
            &&& order.id == spec_u32_from_le_bytes(bytes@.subrange(0, 4))
            &&& order.src_amount == spec_u64_from_le_bytes(bytes@.subrange(4, 12))
            &&& order.min_dst_amount == spec_u64_from_le_bytes(bytes@.subrange(12, 20))
            &&& order.estimated_dst_amount == spec_u64_from_le_bytes(bytes@.subrange(20, 28))
            &&& order.expiration_time == spec_u32_from_le_bytes(bytes@.subrange(28, 32))
            &&& order.native_dst_asset == (bytes@[32] == 1)
            &&& order.fee.protocol_fee == spec_u16_from_le_bytes(bytes@.subrange(33, 35))
            &&& order.fee.integrator_fee == spec_u16_from_le_bytes(bytes@.subrange(35, 37))
            &&& order.fee.surplus_percentage == bytes@[37]
            &&& order.fee.min_cancellation_premium == spec_u64_from_le_bytes(
                bytes@.subrange(38, 46),
            )
            &&& order.fee.max_cancellation_multiplier == spec_u16_from_le_bytes(
                bytes@.subrange(46, 48),
            )
            &&& order.dutch_auction_data.auction_start_time == spec_u32_from_le_bytes(
                bytes@.subrange(48, 52),
            )
            &&& order.dutch_auction_data.auction_finish_time == spec_u32_from_le_bytes(
                bytes@.subrange(52, 56),
            )
            &&& order.dutch_auction_data.initial_rate_bump == spec_u16_from_le_bytes(
                bytes@.subrange(56, 58),
            )
            &&& pts.len() == spec_u32_from_le_bytes(bytes@.subrange(58, 62))
            &&& forall|j: int|
                0 <= j < pts.len() ==> #[trigger] pts[j] == (PointAndTimeDelta {
                    rate_bump: spec_u16_from_le_bytes(bytes@.subrange(62 + 4 * j, 64 + 4 * j)),
                    time_delta: spec_u16_from_le_bytes(bytes@.subrange(64 + 4 * j, 66 + 4 * j)),
                })
            &&& order.cancellation_auction_duration == spec_u32_from_le_bytes(
                bytes@.subrange(consumed - 4, consumed as int),
            )
        },
{
    if bytes.len() < 62 {
        return None;
    }
    let native_byte = *slice_index_get(bytes, 32);
    if native_byte != 0 && native_byte != 1 {
        return None;
    }
    let count = read_u32(bytes, 58) as usize;

    let mut points: Vec<PointAndTimeDelta> = Vec::new();
    let mut pos: usize = 62;
    let mut k: usize = 0;
    while k < count
        invariant
            k <= count,
            pos == 62 + 4 * k,
            pos <= bytes@.len(),
            points@.len() == k,
            bytes@.len() >= 62,
            native_byte == bytes@[32],
            native_byte == 0 || native_byte == 1,
            count == spec_u32_from_le_bytes(bytes@.subrange(58, 62)),
            forall|j: int|
                0 <= j < k ==> #[trigger] points@[j] == (PointAndTimeDelta {
                    rate_bump: spec_u16_from_le_bytes(bytes@.subrange(62 + 4 * j, 64 + 4 * j)),
                    time_delta: spec_u16_from_le_bytes(bytes@.subrange(64 + 4 * j, 66 + 4 * j)),
                }),
        decreases count - k,
    {
        if bytes.len() - pos < 4 {
            return None;
        }
        let rate_bump = read_u16(bytes, pos);
        let time_delta = read_u16(bytes, pos + 2);
        points.push(PointAndTimeDelta { rate_bump, time_delta });
        pos = pos + 4;
        k = k + 1;
    }

    if bytes.len() - pos < 4 {
        return None;
    }
    let cancellation_auction_duration = read_u32(bytes, pos);
    let order = ReducedOrderConfig {
        id: read_u32(bytes, 0),
        src_amount: read_u64(bytes, 4),
        min_dst_amount: read_u64(bytes, 12),
        estimated_dst_amount: read_u64(bytes, 20),
        expiration_time: read_u32(bytes, 28),
        native_dst_asset: native_byte == 1,
        fee: ReducedFeeConfig {
            protocol_fee: read_u16(bytes, 33),
            integrator_fee: read_u16(bytes, 35),
            surplus_percentage: *slice_index_get(bytes, 37),
            min_cancellation_premium: read_u64(bytes, 38),
            max_cancellation_multiplier: read_u16(bytes, 46),
        },
        dutch_auction_data: DutchAuctionData {
            auction_start_time: read_u32(bytes, 48),
            auction_finish_time: read_u32(bytes, 52),
            initial_rate_bump: read_u16(bytes, 56),
            points_and_time_deltas: points,
        },
        cancellation_auction_duration,
    };
    Some((order, pos + 4))
}

/// Equal concatenations with equal-length heads have equal heads and tails.
proof fn lemma_concat_split(x1: Seq<u8>, y1: Seq<u8>, x2: Seq<u8>, y2: Seq<u8>)
    requires
        x1 + y1 == x2 + y2,
        x1.len() == x2.len(),
    ensures
        x1 == x2,
        y1 == y2,
{
    assert forall|i: int| 0 <= i < x1.len() implies x1[i] == x2[i] by {
        assert((x1 + y1)[i] == x1[i]);
        assert((x2 + y2)[i] == x2[i]);
    }
    assert(x1 =~= x2);
    assert((x1 + y1).len() == x1.len() + y1.len());
    assert((x2 + y2).len() == x2.len() + y2.len());
    assert forall|i: int| 0 <= i < y1.len() implies y1[i] == y2[i] by {
        assert((x1 + y1)[x1.len() + i] == y1[i]);
        assert((x2 + y2)[x2.len() + i] == y2[i]);
    }
    assert(y1 =~= y2);
}

/// A two-byte field at the front of equal streams carries equal values.
proof fn lemma_u16_prefix_injective(v1: u16, v2: u16, t1: Seq<u8>, t2: Seq<u8>)
    requires
        spec_u16_to_le_bytes(v1) + t1 == spec_u16_to_le_bytes(v2) + t2,
    ensures
        v1 == v2,
        t1 == t2,
{
    vstd::bytes::lemma_auto_spec_u16_to_from_le_bytes();
    lemma_concat_split(spec_u16_to_le_bytes(v1), t1, spec_u16_to_le_bytes(v2), t2);
}

/// A four-byte field at the front of equal streams carries equal values.
proof fn lemma_u32_prefix_injective(v1: u32, v2: u32, t1: Seq<u8>, t2: Seq<u8>)
    requires
        spec_u32_to_le_bytes(v1) + t1 == spec_u32_to_le_bytes(v2) + t2,
    ensures
        v1 == v2,
        t1 == t2,
{
    vstd::bytes::lemma_auto_spec_u32_to_from_le_bytes();
    lemma_concat_split(spec_u32_to_le_bytes(v1), t1, spec_u32_to_le_bytes(v2), t2);
}

/// An eight-byte field at the front of equal streams carries equal values.
proof fn lemma_u64_prefix_injective(v1: u64, v2: u64, t1: Seq<u8>, t2: Seq<u8>)
    requires
        spec_u64_to_le_bytes(v1) + t1 == spec_u64_to_le_bytes(v2) + t2,
    ensures
        v1 == v2,
        t1 == t2,
{
    vstd::bytes::lemma_auto_spec_u64_to_from_le_bytes();
    lemma_concat_split(spec_u64_to_le_bytes(v1), t1, spec_u64_to_le_bytes(v2), t2);
}

/// A single byte at the front of equal streams is equal.
proof fn lemma_byte_prefix_injective(v1: u8, v2: u8, t1: Seq<u8>, t2: Seq<u8>)
    requires
        seq![v1] + t1 == seq![v2] + t2,
    ensures
        v1 == v2,
        t1 == t2,
{
    lemma_concat_split(seq![v1], t1, seq![v2], t2);
    assert(seq![v1][0] == v1);
    assert(seq![v2][0] == v2);
}

/// A 32-byte identity at the front of equal streams is equal.
proof fn lemma_key_prefix_injective(k1: [u8; 32], k2: [u8; 32], t1: Seq<u8>, t2: Seq<u8>)
    requires
        k1@ + t1 == k2@ + t2,
    ensures
        k1 == k2,
        t1 == t2,
{
    lemma_concat_split(k1@, t1, k2@, t2);
}

/// An optional identity at the front of equal streams is equal: the presence
/// byte separates the two shapes.
proof fn lemma_opt_key_prefix_injective(
    o1: Option<[u8; 32]>,
    o2: Option<[u8; 32]>,
    t1: Seq<u8>,
    t2: Seq<u8>,
)
    requires
        spec_opt_key_bytes(o1) + t1 == spec_opt_key_bytes(o2) + t2,
    ensures
        o1 == o2,
        t1 == t2,
{
    match (o1, o2) {
        (Option::None, Option::None) => {
            lemma_concat_split(seq![0u8], t1, seq![0u8], t2);
        },
        (Option::Some(k1), Option::Some(k2)) => {
            assert((seq![1u8] + k1@) + t1 =~= seq![1u8] + (k1@ + t1));
            assert((seq![1u8] + k2@) + t2 =~= seq![1u8] + (k2@ + t2));
            lemma_byte_prefix_injective(1u8, 1u8, k1@ + t1, k2@ + t2);
            lemma_key_prefix_injective(k1, k2, t1, t2);
        },
        (Option::None, Option::Some(k2)) => {
            assert((seq![0u8] + t1)[0] == 0u8);
            assert(((seq![1u8] + k2@) + t2)[0] == (seq![1u8] + k2@)[0]);
            assert(false);
        },
        (Option::Some(k1), Option::None) => {
            assert((seq![0u8] + t2)[0] == 0u8);
            assert(((seq![1u8] + k1@) + t1)[0] == (seq![1u8] + k1@)[0]);
            assert(false);
        },
    }
}

/// Equally long breakpoint lists at the front of equal streams are equal.
proof fn lemma_points_prefix_injective(
    p1: Seq<PointAndTimeDelta>,
    p2: Seq<PointAndTimeDelta>,
    t1: Seq<u8>,
    t2: Seq<u8>,
)
    requires
        spec_points_bytes(p1) + t1 == spec_points_bytes(p2) + t2,
        p1.len() == p2.len(),
    ensures
        p1 == p2,
        t1 == t2,
    decreases p1.len(),
{
    if p1.len() == 0 {
        assert(spec_points_bytes(p1) + t1 =~= t1);
        assert(spec_points_bytes(p2) + t2 =~= t2);
        assert(p1 =~= p2);
    } else {
        let rest1 = p1.drop_first();
        let rest2 = p2.drop_first();
        assert((spec_u16_to_le_bytes(p1[0].rate_bump) + spec_u16_to_le_bytes(p1[0].time_delta)
            + spec_points_bytes(rest1)) + t1 =~= spec_u16_to_le_bytes(p1[0].rate_bump) + (
        spec_u16_to_le_bytes(p1[0].time_delta) + (spec_points_bytes(rest1) + t1)));
        assert((spec_u16_to_le_bytes(p2[0].rate_bump) + spec_u16_to_le_bytes(p2[0].time_delta)
            + spec_points_bytes(rest2)) + t2 =~= spec_u16_to_le_bytes(p2[0].rate_bump) + (
        spec_u16_to_le_bytes(p2[0].time_delta) + (spec_points_bytes(rest2) + t2)));
        lemma_u16_prefix_injective(
            p1[0].rate_bump,
            p2[0].rate_bump,
            spec_u16_to_le_bytes(p1[0].time_delta) + (spec_points_bytes(rest1) + t1),
            spec_u16_to_le_bytes(p2[0].time_delta) + (spec_points_bytes(rest2) + t2),
        );
        lemma_u16_prefix_injective(
            p1[0].time_delta,
            p2[0].time_delta,
            spec_points_bytes(rest1) + t1,
            spec_points_bytes(rest2) + t2,
        );
        lemma_points_prefix_injective(rest1, rest2, t1, t2);
        assert forall|i: int| 0 <= i < p1.len() implies p1[i] == p2[i] by {
            if i == 0 {
                assert(p1[0].rate_bump == p2[0].rate_bump);
                assert(p1[0].time_delta == p2[0].time_delta);
            } else {
                assert(rest1[i - 1] == p1[i]);
                assert(rest2[i - 1] == p2[i]);
            }
        }
        assert(p1 =~= p2);
    }
}

/// A schedule at the front of equal streams is equal, field by field.
#[verifier::rlimit(100)]
#[verifier::spinoff_prover]
proof fn lemma_auction_prefix_injective(
    a1: DutchAuctionData,
    a2: DutchAuctionData,
    t1: Seq<u8>,
    t2: Seq<u8>,
)
    requires
        spec_auction_bytes(a1) + t1 == spec_auction_bytes(a2) + t2,
        a1.points_and_time_deltas@.len() <= u32::MAX,
        a2.points_and_time_deltas@.len() <= u32::MAX,
    ensures
        a1.auction_start_time == a2.auction_start_time,
        a1.auction_finish_time == a2.auction_finish_time,
        a1.initial_rate_bump == a2.initial_rate_bump,
        a1.points_and_time_deltas@ == a2.points_and_time_deltas@,
        t1 == t2,
{
    let pts1 = a1.points_and_time_deltas@;
    let pts2 = a2.points_and_time_deltas@;
    assert(spec_auction_bytes(a1) + t1 =~= spec_u32_to_le_bytes(a1.auction_start_time) + (
    spec_u32_to_le_bytes(a1.auction_finish_time) + (spec_u16_to_le_bytes(a1.initial_rate_bump) + (
    spec_u32_to_le_bytes(pts1.len() as u32) + (spec_points_bytes(pts1) + t1)))));
    assert(spec_auction_bytes(a2) + t2 =~= spec_u32_to_le_bytes(a2.auction_start_time) + (
    spec_u32_to_le_bytes(a2.auction_finish_time) + (spec_u16_to_le_bytes(a2.initial_rate_bump) + (
    spec_u32_to_le_bytes(pts2.len() as u32) + (spec_points_bytes(pts2) + t2)))));
    lemma_u32_prefix_injective(
        a1.auction_start_time,
        a2.auction_start_time,
        spec_u32_to_le_bytes(a1.auction_finish_time) + (spec_u16_to_le_bytes(a1.initial_rate_bump)
            + (spec_u32_to_le_bytes(pts1.len() as u32) + (spec_points_bytes(pts1) + t1))),
        spec_u32_to_le_bytes(a2.auction_finish_time) + (spec_u16_to_le_bytes(a2.initial_rate_bump)
            + (spec_u32_to_le_bytes(pts2.len() as u32) + (spec_points_bytes(pts2) + t2))),
    );
    lemma_u32_prefix_injective(
        a1.auction_finish_time,
        a2.auction_finish_time,
        spec_u16_to_le_bytes(a1.initial_rate_bump) + (spec_u32_to_le_bytes(pts1.len() as u32) + (
        spec_points_bytes(pts1) + t1)),
        spec_u16_to_le_bytes(a2.initial_rate_bump) + (spec_u32_to_le_bytes(pts2.len() as u32) + (
        spec_points_bytes(pts2) + t2)),
    );
    lemma_u16_prefix_injective(
        a1.initial_rate_bump,
        a2.initial_rate_bump,
        spec_u32_to_le_bytes(pts1.len() as u32) + (spec_points_bytes(pts1) + t1),
        spec_u32_to_le_bytes(pts2.len() as u32) + (spec_points_bytes(pts2) + t2),
    );
    lemma_u32_prefix_injective(
        pts1.len() as u32,
        pts2.len() as u32,
        spec_points_bytes(pts1) + t1,
        spec_points_bytes(pts2) + t2,
    );
    lemma_points_prefix_injective(pts1, pts2, t1, t2);
}

/// Fee terms at the front of equal streams are equal.
#[verifier::rlimit(100)]
#[verifier::spinoff_prover]
proof fn lemma_fee_prefix_injective(f1: FeeConfig, f2: FeeConfig, t1: Seq<u8>, t2: Seq<u8>)
    requires
        spec_fee_bytes(f1) + t1 == spec_fee_bytes(f2) + t2,
    ensures
        f1 == f2,
        t1 == t2,
{
    assert(spec_fee_bytes(f1) + t1 =~= spec_opt_key_bytes(f1.protocol_dst_ata) + (
    spec_opt_key_bytes(f1.integrator_dst_ata) + (spec_u16_to_le_bytes(f1.protocol_fee) + (
    spec_u16_to_le_bytes(f1.integrator_fee) + (seq![f1.surplus_percentage] + (
    spec_u64_to_le_bytes(f1.min_cancellation_premium) + (spec_u16_to_le_bytes(
        f1.max_cancellation_multiplier,
    ) + t1)))))));
    assert(spec_fee_bytes(f2) + t2 =~= spec_opt_key_bytes(f2.protocol_dst_ata) + (
    spec_opt_key_bytes(f2.integrator_dst_ata) + (spec_u16_to_le_bytes(f2.protocol_fee) + (
    spec_u16_to_le_bytes(f2.integrator_fee) + (seq![f2.surplus_percentage] + (
    spec_u64_to_le_bytes(f2.min_cancellation_premium) + (spec_u16_to_le_bytes(
        f2.max_cancellation_multiplier,
    ) + t2)))))));
    lemma_opt_key_prefix_injective(
        f1.protocol_dst_ata,
        f2.protocol_dst_ata,
        spec_opt_key_bytes(f1.integrator_dst_ata) + (spec_u16_to_le_bytes(f1.protocol_fee) + (
        spec_u16_to_le_bytes(f1.integrator_fee) + (seq![f1.surplus_percentage] + (
        spec_u64_to_le_bytes(f1.min_cancellation_premium) + (spec_u16_to_le_bytes(
            f1.max_cancellation_multiplier,
        ) + t1))))),
        spec_opt_key_bytes(f2.integrator_dst_ata) + (spec_u16_to_le_bytes(f2.protocol_fee) + (
        spec_u16_to_le_bytes(f2.integrator_fee) + (seq![f2.surplus_percentage] + (
        spec_u64_to_le_bytes(f2.min_cancellation_premium) + (spec_u16_to_le_bytes(
            f2.max_cancellation_multiplier,
        ) + t2))))),
    );
    lemma_opt_key_prefix_injective(
        f1.integrator_dst_ata,
        f2.integrator_dst_ata,
        spec_u16_to_le_bytes(f1.protocol_fee) + (spec_u16_to_le_bytes(f1.integrator_fee) + (seq![
            f1.surplus_percentage,
        ] + (spec_u64_to_le_bytes(f1.min_cancellation_premium) + (spec_u16_to_le_bytes(
            f1.max_cancellation_multiplier,
        ) + t1)))),
        spec_u16_to_le_bytes(f2.protocol_fee) + (spec_u16_to_le_bytes(f2.integrator_fee) + (seq![
            f2.surplus_percentage,
        ] + (spec_u64_to_le_bytes(f2.min_cancellation_premium) + (spec_u16_to_le_bytes(
            f2.max_cancellation_multiplier,
        ) + t2)))),
    );
    lemma_u16_prefix_injective(
        f1.protocol_fee,
        f2.protocol_fee,
        spec_u16_to_le_bytes(f1.integrator_fee) + (seq![f1.surplus_percentage] + (
        spec_u64_to_le_bytes(f1.min_cancellation_premium) + (spec_u16_to_le_bytes(
            f1.max_cancellation_multiplier,
        ) + t1))),
        spec_u16_to_le_bytes(f2.integrator_fee) + (seq![f2.surplus_percentage] + (
        spec_u64_to_le_bytes(f2.min_cancellation_premium) + (spec_u16_to_le_bytes(
            f2.max_cancellation_multiplier,
        ) + t2))),
    );
    lemma_u16_prefix_injective(
        f1.integrator_fee,
        f2.integrator_fee,
        seq![f1.surplus_percentage] + (spec_u64_to_le_bytes(f1.min_cancellation_premium) + (
        spec_u16_to_le_bytes(f1.max_cancellation_multiplier) + t1)),
        seq![f2.surplus_percentage] + (spec_u64_to_le_bytes(f2.min_cancellation_premium) + (
        spec_u16_to_le_bytes(f2.max_cancellation_multiplier) + t2)),
    );
    lemma_byte_prefix_injective(
        f1.surplus_percentage,
        f2.surplus_percentage,
        spec_u64_to_le_bytes(f1.min_cancellation_premium) + (spec_u16_to_le_bytes(
            f1.max_cancellation_multiplier,
        ) + t1),
        spec_u64_to_le_bytes(f2.min_cancellation_premium) + (spec_u16_to_le_bytes(
            f2.max_cancellation_multiplier,
        ) + t2),
    );
    lemma_u64_prefix_injective(
        f1.min_cancellation_premium,
        f2.min_cancellation_premium,
        spec_u16_to_le_bytes(f1.max_cancellation_multiplier) + t1,
        spec_u16_to_le_bytes(f2.max_cancellation_multiplier) + t2,
    );
    lemma_u16_prefix_injective(
        f1.max_cancellation_multiplier,
        f2.max_cancellation_multiplier,
        t1,
        t2,
    );
}

/// Tamper evidence of the order identity, on the encoding side: two orders
/// encode to the same bytes only when every one of their terms agrees —
/// including every breakpoint of the schedule. Any semantic difference in
/// terms therefore changes the digest's input.
#[verifier::rlimit(100)]
#[verifier::spinoff_prover]
pub proof fn lemma_order_bytes_injective(a: OrderConfig, b: OrderConfig)
    requires
        spec_order_bytes(a) == spec_order_bytes(b),
        a.dutch_auction_data.points_and_time_deltas@.len() <= u32::MAX,
        b.dutch_auction_data.points_and_time_deltas@.len() <= u32::MAX,
    ensures
        a.id == b.id,
        a.src_amount == b.src_amount,
        a.min_dst_amount == b.min_dst_amount,
        a.estimated_dst_amount == b.estimated_dst_amount,
        a.expiration_time == b.expiration_time,
        a.native_dst_asset == b.native_dst_asset,
        a.receiver == b.receiver,
        a.fee == b.fee,
        a.dutch_auction_data.auction_start_time == b.dutch_auction_data.auction_start_time,
        a.dutch_auction_data.auction_finish_time == b.dutch_auction_data.auction_finish_time,
        a.dutch_auction_data.initial_rate_bump == b.dutch_auction_data.initial_rate_bump,
        a.dutch_auction_data.points_and_time_deltas@
            == b.dutch_auction_data.points_and_time_deltas@,
        a.cancellation_auction_duration == b.cancellation_auction_duration,
        a.src_mint == b.src_mint,
        a.dst_mint == b.dst_mint,
{
    let ta = spec_fee_bytes(a.fee) + (spec_auction_bytes(a.dutch_auction_data) + (
    spec_u32_to_le_bytes(a.cancellation_auction_duration) + (a.src_mint@ + a.dst_mint@)));
    let tb = spec_fee_bytes(b.fee) + (spec_auction_bytes(b.dutch_auction_data) + (
    spec_u32_to_le_bytes(b.cancellation_auction_duration) + (b.src_mint@ + b.dst_mint@)));
    assert(spec_order_bytes(a) =~= spec_u32_to_le_bytes(a.id) + (spec_u64_to_le_bytes(a.src_amount)
        + (spec_u64_to_le_bytes(a.min_dst_amount) + (spec_u64_to_le_bytes(a.estimated_dst_amount)
        + (spec_u32_to_le_bytes(a.expiration_time) + (seq![spec_bool_byte(a.native_dst_asset)] + (
    a.receiver@ + ta)))))));
    assert(spec_order_bytes(b) =~= spec_u32_to_le_bytes(b.id) + (spec_u64_to_le_bytes(b.src_amount)
        + (spec_u64_to_le_bytes(b.min_dst_amount) + (spec_u64_to_le_bytes(b.estimated_dst_amount)
        + (spec_u32_to_le_bytes(b.expiration_time) + (seq![spec_bool_byte(b.native_dst_asset)] + (
    b.receiver@ + tb)))))));
    lemma_u32_prefix_injective(
        a.id,
        b.id,
        spec_u64_to_le_bytes(a.src_amount) + (spec_u64_to_le_bytes(a.min_dst_amount) + (
        spec_u64_to_le_bytes(a.estimated_dst_amount) + (spec_u32_to_le_bytes(a.expiration_time) + (
        seq![spec_bool_byte(a.native_dst_asset)] + (a.receiver@ + ta))))),
        spec_u64_to_le_bytes(b.src_amount) + (spec_u64_to_le_bytes(b.min_dst_amount) + (
        spec_u64_to_le_bytes(b.estimated_dst_amount) + (spec_u32_to_le_bytes(b.expiration_time) + (
        seq![spec_bool_byte(b.native_dst_asset)] + (b.receiver@ + tb))))),
    );
    lemma_u64_prefix_injective(
        a.src_amount,
        b.src_amount,
        spec_u64_to_le_bytes(a.min_dst_amount) + (spec_u64_to_le_bytes(a.estimated_dst_amount) + (
        spec_u32_to_le_bytes(a.expiration_time) + (seq![spec_bool_byte(a.native_dst_asset)] + (
        a.receiver@ + ta)))),
        spec_u64_to_le_bytes(b.min_dst_amount) + (spec_u64_to_le_bytes(b.estimated_dst_amount) + (
        spec_u32_to_le_bytes(b.expiration_time) + (seq![spec_bool_byte(b.native_dst_asset)] + (
        b.receiver@ + tb)))),
    );
    lemma_u64_prefix_injective(
        a.min_dst_amount,
        b.min_dst_amount,
        spec_u64_to_le_bytes(a.estimated_dst_amount) + (spec_u32_to_le_bytes(a.expiration_time) + (
        seq![spec_bool_byte(a.native_dst_asset)] + (a.receiver@ + ta))),
        spec_u64_to_le_bytes(b.estimated_dst_amount) + (spec_u32_to_le_bytes(b.expiration_time) + (
        seq![spec_bool_byte(b.native_dst_asset)] + (b.receiver@ + tb))),
    );
    lemma_u64_prefix_injective(
        a.estimated_dst_amount,
        b.estimated_dst_amount,
        spec_u32_to_le_bytes(a.expiration_time) + (seq![spec_bool_byte(a.native_dst_asset)] + (
        a.receiver@ + ta)),
        spec_u32_to_le_bytes(b.expiration_time) + (seq![spec_bool_byte(b.native_dst_asset)] + (
        b.receiver@ + tb)),
    );
    lemma_u32_prefix_injective(
        a.expiration_time,
        b.expiration_time,
        seq![spec_bool_byte(a.native_dst_asset)] + (a.receiver@ + ta),
        seq![spec_bool_byte(b.native_dst_asset)] + (b.receiver@ + tb),
    );
    lemma_byte_prefix_injective(
        spec_bool_byte(a.native_dst_asset),
        spec_bool_byte(b.native_dst_asset),
        a.receiver@ + ta,
        b.receiver@ + tb,
    );
    lemma_key_prefix_injective(a.receiver, b.receiver, ta, tb);
    lemma_fee_prefix_injective(
        a.fee,
        b.fee,
        spec_auction_bytes(a.dutch_auction_data) + (spec_u32_to_le_bytes(
            a.cancellation_auction_duration,
        ) + (a.src_mint@ + a.dst_mint@)),
        spec_auction_bytes(b.dutch_auction_data) + (spec_u32_to_le_bytes(
            b.cancellation_auction_duration,
        ) + (b.src_mint@ + b.dst_mint@)),
    );
    lemma_auction_prefix_injective(
        a.dutch_auction_data,
        b.dutch_auction_data,
        spec_u32_to_le_bytes(a.cancellation_auction_duration) + (a.src_mint@ + a.dst_mint@),
        spec_u32_to_le_bytes(b.cancellation_auction_duration) + (b.src_mint@ + b.dst_mint@),
    );
    lemma_u32_prefix_injective(
        a.cancellation_auction_duration,
        b.cancellation_auction_duration,
        a.src_mint@ + a.dst_mint@,
        b.src_mint@ + b.dst_mint@,
    );
    lemma_key_prefix_injective(a.src_mint, b.src_mint, a.dst_mint@, b.dst_mint@);
}

/// The breakpoint list's encoding is four bytes per breakpoint.
proof fn lemma_points_bytes_len(pts: Seq<PointAndTimeDelta>)
    ensures
        spec_points_bytes(pts).len() == 4 * pts.len(),
    decreases pts.len(),
{
    vstd::bytes::lemma_auto_spec_u16_to_from_le_bytes();
    if pts.len() > 0 {
        lemma_points_bytes_len(pts.drop_first());
    }
}

/// Breakpoint `j`'s two fields sit at bytes `4j..4j+2` and `4j+2..4j+4` of
/// the breakpoint list's encoding.
proof fn lemma_points_bytes_index(pts: Seq<PointAndTimeDelta>, j: int)
    requires
        0 <= j < pts.len(),
    ensures
        spec_points_bytes(pts).subrange(4 * j, 4 * j + 2) == spec_u16_to_le_bytes(
            pts[j].rate_bump,
        ),
        spec_points_bytes(pts).subrange(4 * j + 2, 4 * j + 4) == spec_u16_to_le_bytes(
            pts[j].time_delta,
        ),
    decreases j,
{
    vstd::bytes::lemma_auto_spec_u16_to_from_le_bytes();
    lemma_points_bytes_len(pts);
    if j == 0 {
        assert(spec_points_bytes(pts).subrange(0, 2) =~= spec_u16_to_le_bytes(pts[0].rate_bump));
        assert(spec_points_bytes(pts).subrange(2, 4) =~= spec_u16_to_le_bytes(pts[0].time_delta));
    } else {
        let rest = pts.drop_first();
        lemma_points_bytes_index(rest, j - 1);
        lemma_points_bytes_len(rest);
        assert(spec_points_bytes(pts).subrange(4 * j, 4 * j + 2) =~= spec_points_bytes(
            rest,
        ).subrange(4 * (j - 1), 4 * (j - 1) + 2));
        assert(spec_points_bytes(pts).subrange(4 * j + 2, 4 * j + 4) =~= spec_points_bytes(
            rest,
        ).subrange(4 * (j - 1) + 2, 4 * (j - 1) + 4));
    }
}

/// Round trip of the wire format: a transmitted order's own encoding, with
/// anything at all appended, is a well-formed prefix, and every field that a
/// parse extracts from it is the field that was encoded. Together with the
/// contract of `decode_reduced_order` this says that decoding
/// `encode_reduced_order(o)` followed by any tail yields exactly `o` again
/// and consumes exactly the encoding — the identity digest is therefore
/// stable across a store-and-reload of the terms.
#[verifier::rlimit(50)]
#[verifier::spinoff_prover]
pub proof fn lemma_reduced_round_trip(o: ReducedOrderConfig, rest: Seq<u8>)
    requires
        o.dutch_auction_data.points_and_time_deltas@.len() <= u32::MAX,
    ensures
        spec_reduced_order_bytes(o).len() == 66 + 4
            * o.dutch_auction_data.points_and_time_deltas@.len(),
        spec_reduced_prefix_ok(spec_reduced_order_bytes(o) + rest),
        spec_u32_from_le_bytes((spec_reduced_order_bytes(o) + rest).subrange(0, 4)) == o.id,
        spec_u64_from_le_bytes((spec_reduced_order_bytes(o) + rest).subrange(4, 12))
            == o.src_amount,
        spec_u64_from_le_bytes((spec_reduced_order_bytes(o) + rest).subrange(12, 20))
            == o.min_dst_amount,
        spec_u64_from_le_bytes((spec_reduced_order_bytes(o) + rest).subrange(20, 28))
            == o.estimated_dst_amount,
        spec_u32_from_le_bytes((spec_reduced_order_bytes(o) + rest).subrange(28, 32))
            == o.expiration_time,
        ((spec_reduced_order_bytes(o) + rest)[32] == 1) == o.native_dst_asset,
        spec_u16_from_le_bytes((spec_reduced_order_bytes(o) + rest).subrange(33, 35))
            == o.fee.protocol_fee,
        spec_u16_from_le_bytes((spec_reduced_order_bytes(o) + rest).subrange(35, 37))
            == o.fee.integrator_fee,
        (spec_reduced_order_bytes(o) + rest)[37] == o.fee.surplus_percentage,
        spec_u64_from_le_bytes((spec_reduced_order_bytes(o) + rest).subrange(38, 46))
            == o.fee.min_cancellation_premium,
        spec_u16_from_le_bytes((spec_reduced_order_bytes(o) + rest).subrange(46, 48))
            == o.fee.max_cancellation_multiplier,
        spec_u32_from_le_bytes((spec_reduced_order_bytes(o) + rest).subrange(48, 52))
            == o.dutch_auction_data.auction_start_time,
        spec_u32_from_le_bytes((spec_reduced_order_bytes(o) + rest).subrange(52, 56))
            == o.dutch_auction_data.auction_finish_time,
        spec_u16_from_le_bytes((spec_reduced_order_bytes(o) + rest).subrange(56, 58))
            == o.dutch_auction_data.initial_rate_bump,
        spec_u32_from_le_bytes((spec_reduced_order_bytes(o) + rest).subrange(58, 62))
            == o.dutch_auction_data.points_and_time_deltas@.len(),
        forall|j: int|
            0 <= j < o.dutch_auction_data.points_and_time_deltas@.len()
                ==> #[trigger] spec_u16_from_le_bytes(
                (spec_reduced_order_bytes(o) + rest).subrange(62 + 4 * j, 64 + 4 * j),
            ) == o.dutch_auction_data.points_and_time_deltas@[j].rate_bump
                && spec_u16_from_le_bytes(
                (spec_reduced_order_bytes(o) + rest).subrange(64 + 4 * j, 66 + 4 * j),
            ) == o.dutch_auction_data.points_and_time_deltas@[j].time_delta,
        spec_u32_from_le_bytes(
            (spec_reduced_order_bytes(o) + rest).subrange(
                62 + 4 * o.dutch_auction_data.points_and_time_deltas@.len() as int,
                66 + 4 * o.dutch_auction_data.points_and_time_deltas@.len() as int,
            ),
        ) == o.cancellation_auction_duration,
{
    vstd::bytes::lemma_auto_spec_u16_to_from_le_bytes();
    vstd::bytes::lemma_auto_spec_u32_to_from_le_bytes();
    vstd::bytes::lemma_auto_spec_u64_to_from_le_bytes();
    let pts = o.dutch_auction_data.points_and_time_deltas@;
    let n = pts.len() as int;
    lemma_points_bytes_len(pts);
    let e = spec_reduced_order_bytes(o);
    assert(e.len() == 66 + 4 * n);
    let b = e + rest;
    assert(b.subrange(0, 4) =~= spec_u32_to_le_bytes(o.id));
    assert(b.subrange(4, 12) =~= spec_u64_to_le_bytes(o.src_amount));
    assert(b.subrange(12, 20) =~= spec_u64_to_le_bytes(o.min_dst_amount));
    assert(b.subrange(20, 28) =~= spec_u64_to_le_bytes(o.estimated_dst_amount));
    assert(b.subrange(28, 32) =~= spec_u32_to_le_bytes(o.expiration_time));
    assert(b[32] == spec_bool_byte(o.native_dst_asset));
    assert(b.subrange(33, 35) =~= spec_u16_to_le_bytes(o.fee.protocol_fee));
    assert(b.subrange(35, 37) =~= spec_u16_to_le_bytes(o.fee.integrator_fee));
    assert(b[37] == o.fee.surplus_percentage);
    assert(b.subrange(38, 46) =~= spec_u64_to_le_bytes(o.fee.min_cancellation_premium));
    assert(b.subrange(46, 48) =~= spec_u16_to_le_bytes(o.fee.max_cancellation_multiplier));
    assert(b.subrange(48, 52) =~= spec_u32_to_le_bytes(o.dutch_auction_data.auction_start_time));
    assert(b.subrange(52, 56) =~= spec_u32_to_le_bytes(o.dutch_auction_data.auction_finish_time));
    assert(b.subrange(56, 58) =~= spec_u16_to_le_bytes(o.dutch_auction_data.initial_rate_bump));
    assert(b.subrange(58, 62) =~= spec_u32_to_le_bytes(pts.len() as u32));
    assert(b.subrange(62, 62 + 4 * n) =~= spec_points_bytes(pts));
    assert forall|j: int| 0 <= j < n implies #[trigger] spec_u16_from_le_bytes(
        b.subrange(62 + 4 * j, 64 + 4 * j),
    ) == pts[j].rate_bump && spec_u16_from_le_bytes(b.subrange(64 + 4 * j, 66 + 4 * j))
        == pts[j].time_delta by {
        lemma_points_bytes_index(pts, j);
        assert(b.subrange(62 + 4 * j, 64 + 4 * j) =~= spec_points_bytes(pts).subrange(
            4 * j,
            4 * j + 2,
        ));
        assert(b.subrange(64 + 4 * j, 66 + 4 * j) =~= spec_points_bytes(pts).subrange(
            4 * j + 2,
            4 * j + 4,
        ));
    }
    assert(b.subrange(62 + 4 * n, 66 + 4 * n) =~= spec_u32_to_le_bytes(
        o.cancellation_auction_duration,
    ));
}

} // verus!
