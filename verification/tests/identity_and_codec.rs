use fusion_swap::codec::{decode_reduced_order, encode_order, encode_reduced_order};
use fusion_swap::identity::{bytes32_eq, order_hash};
use fusion_swap::types::{
    DutchAuctionData, FeeConfig, OrderConfig, PointAndTimeDelta, ReducedFeeConfig,
    ReducedOrderConfig,
};

fn sample_order(id: u32) -> OrderConfig {
    OrderConfig {
        id,
        src_amount: 1_000_000,
        min_dst_amount: 2_000_000,
        estimated_dst_amount: 2_100_000,
        expiration_time: 1_700_000_000,
        native_dst_asset: false,
        receiver: [7u8; 32],
        fee: FeeConfig {
            protocol_dst_ata: Some([1u8; 32]),
            integrator_dst_ata: None,
            protocol_fee: 500,
            integrator_fee: 0,
            surplus_percentage: 10,
            min_cancellation_premium: 42,
            max_cancellation_multiplier: 500,
        },
        dutch_auction_data: DutchAuctionData {
            auction_start_time: 1_600_000_000,
            auction_finish_time: 1_600_003_600,
            initial_rate_bump: 5000,
            points_and_time_deltas: vec![
                PointAndTimeDelta { rate_bump: 2500, time_delta: 600 },
                PointAndTimeDelta { rate_bump: 1000, time_delta: 600 },
            ],
        },
        cancellation_auction_duration: 3600,
        src_mint: [2u8; 32],
        dst_mint: [3u8; 32],
    }
}

fn sample_reduced(id: u32) -> ReducedOrderConfig {
    ReducedOrderConfig {
        id,
        src_amount: 1_000_000,
        min_dst_amount: 2_000_000,
        estimated_dst_amount: 2_100_000,
        expiration_time: 1_700_000_000,
        native_dst_asset: true,
        fee: ReducedFeeConfig {
            protocol_fee: 500,
            integrator_fee: 77,
            surplus_percentage: 10,
            min_cancellation_premium: 42,
            max_cancellation_multiplier: 500,
        },
        dutch_auction_data: DutchAuctionData {
            auction_start_time: 1_600_000_000,
            auction_finish_time: 1_600_003_600,
            initial_rate_bump: 5000,
            points_and_time_deltas: vec![PointAndTimeDelta { rate_bump: 2500, time_delta: 600 }],
        },
        cancellation_auction_duration: 3600,
    }
}

/// The canonical encoding agrees with borsh's serialization of the same
/// fields in the same order: the wire format is stable across implementations.
#[test]
fn encoding_matches_borsh_layout() {
    let order = sample_order(9);
    let mut expected: Vec<u8> = Vec::new();
    expected.extend(borsh::to_vec(&order.id).unwrap());
    expected.extend(borsh::to_vec(&order.src_amount).unwrap());
    expected.extend(borsh::to_vec(&order.min_dst_amount).unwrap());
    expected.extend(borsh::to_vec(&order.estimated_dst_amount).unwrap());
    expected.extend(borsh::to_vec(&order.expiration_time).unwrap());
    expected.extend(borsh::to_vec(&order.native_dst_asset).unwrap());
    expected.extend(borsh::to_vec(&order.receiver).unwrap());
    expected.extend(borsh::to_vec(&order.fee.protocol_dst_ata).unwrap());
    expected.extend(borsh::to_vec(&order.fee.integrator_dst_ata).unwrap());
    expected.extend(borsh::to_vec(&order.fee.protocol_fee).unwrap());
    expected.extend(borsh::to_vec(&order.fee.integrator_fee).unwrap());
    expected.extend(borsh::to_vec(&order.fee.surplus_percentage).unwrap());
    expected.extend(borsh::to_vec(&order.fee.min_cancellation_premium).unwrap());
    expected.extend(borsh::to_vec(&order.fee.max_cancellation_multiplier).unwrap());
    expected.extend(borsh::to_vec(&order.dutch_auction_data.auction_start_time).unwrap());
    expected.extend(borsh::to_vec(&order.dutch_auction_data.auction_finish_time).unwrap());
    expected.extend(borsh::to_vec(&order.dutch_auction_data.initial_rate_bump).unwrap());
    let points: Vec<(u16, u16)> = order
        .dutch_auction_data
        .points_and_time_deltas
        .iter()
        .map(|p| (p.rate_bump, p.time_delta))
        .collect();
    expected.extend(borsh::to_vec(&points).unwrap());
    expected.extend(borsh::to_vec(&order.cancellation_auction_duration).unwrap());
    expected.extend(borsh::to_vec(&order.src_mint).unwrap());
    expected.extend(borsh::to_vec(&order.dst_mint).unwrap());
    assert_eq!(encode_order(&order), expected);
}

/// The digest is the SHA-256 of the canonical encoding, as the host's hash
/// function computes it.
#[test]
fn order_hash_is_sha256_of_encoding() {
    let order = sample_order(9);
    let expected = solana_program::hash::hash(&encode_order(&order)).to_bytes();
    assert_eq!(order_hash(&order), expected);
    // A fixed probe: hashing must actually transform the bytes.
    assert_ne!(order_hash(&order).to_vec(), encode_order(&order));
}

#[test]
fn order_hash_changes_with_any_term() {
    let base = order_hash(&sample_order(9));
    assert_ne!(order_hash(&sample_order(10)), base);
    let mut tampered = sample_order(9);
    tampered.fee.protocol_fee += 1;
    assert_ne!(order_hash(&tampered), base);
}

#[test]
fn reduced_order_round_trips() {
    let reduced = sample_reduced(4);
    let mut bytes = encode_reduced_order(&reduced);
    let encoded_len = bytes.len();
    bytes.extend_from_slice(&[0xAA, 0xBB, 0xCC]);
    let (decoded, consumed) = decode_reduced_order(&bytes).unwrap();
    assert_eq!(decoded, reduced);
    assert_eq!(consumed, encoded_len);
}

#[test]
fn decode_rejects_truncated_input() {
    let reduced = sample_reduced(4);
    let bytes = encode_reduced_order(&reduced);
    assert!(decode_reduced_order(&bytes[..bytes.len() - 1]).is_none());
    assert!(decode_reduced_order(&[]).is_none());
}

#[test]
fn decode_rejects_invalid_boolean_byte() {
    let reduced = sample_reduced(4);
    let mut bytes = encode_reduced_order(&reduced);
    bytes[32] = 2;
    assert!(decode_reduced_order(&bytes).is_none());
}

#[test]
fn bytes32_eq_compares_contents() {
    let a = [5u8; 32];
    let mut b = [5u8; 32];
    assert!(bytes32_eq(&a, &b));
    b[31] = 6;
    assert!(!bytes32_eq(&a, &b));
}
