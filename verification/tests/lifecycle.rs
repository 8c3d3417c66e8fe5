use fusion_swap::error::FusionError;
use fusion_swap::identity::order_hash;
use fusion_swap::lifecycle::{create, Escrow, Payable};
use fusion_swap::types::{DutchAuctionData, FeeConfig, OrderConfig, PointAndTimeDelta};

const NATIVE_MINT: [u8; 32] = [9u8; 32];
const TOKEN_MINT: [u8; 32] = [3u8; 32];
const MAKER_DST: [u8; 32] = [4u8; 32];

/// An already-finished auction (no bump) with no fees: prices are exactly the
/// pro-rata floor rate.
fn flat_order(src_amount: u64, min_dst: u64) -> OrderConfig {
    OrderConfig {
        id: 1,
        src_amount,
        min_dst_amount: min_dst,
        estimated_dst_amount: min_dst,
        expiration_time: 10_000,
        native_dst_asset: false,
        receiver: [7u8; 32],
        fee: FeeConfig {
            protocol_dst_ata: None,
            integrator_dst_ata: None,
            protocol_fee: 0,
            integrator_fee: 0,
            surplus_percentage: 0,
            min_cancellation_premium: 0,
            max_cancellation_multiplier: 0,
        },
        dutch_auction_data: DutchAuctionData {
            auction_start_time: 0,
            auction_finish_time: 1,
            initial_rate_bump: 0,
            points_and_time_deltas: vec![],
        },
        cancellation_auction_duration: 0,
        src_mint: [2u8; 32],
        dst_mint: TOKEN_MINT,
    }
}

#[test]
fn full_lifecycle() {
    let order = flat_order(100, 100);
    let mut escrow = create(&order, 1_000, &NATIVE_MINT).unwrap();
    assert_eq!(escrow.remaining_amount, 100);
    assert_eq!(escrow.src_amount, 100);

    let first = escrow.fill(&order, 60, Some(&MAKER_DST), 1_000).unwrap();
    assert_eq!(first.src_amount_to_taker, 60);
    assert_eq!(first.maker_dst_amount, 60);
    assert_eq!(first.protocol_fee_amount, 0);
    assert_eq!(first.integrator_fee_amount, 0);
    assert_eq!(first.maker_payment, Payable::Token(TOKEN_MINT));
    assert!(!first.closed);
    assert_eq!(escrow.remaining_amount, 40);

    let second = escrow.fill(&order, 40, Some(&MAKER_DST), 1_000).unwrap();
    assert!(second.closed);
    assert_eq!(escrow.remaining_amount, 0);
    assert_eq!(first.src_amount_to_taker + second.src_amount_to_taker, 100);
}

#[test]
fn fill_with_mismatched_terms_always_fails() {
    let order = flat_order(100, 100);
    let mut escrow = create(&order, 1_000, &NATIVE_MINT).unwrap();
    let mut tampered = flat_order(100, 100);
    tampered.min_dst_amount = 99;
    tampered.estimated_dst_amount = 99;
    for amount in [0u64, 1, 60, 100, 1_000] {
        assert_eq!(
            escrow.fill(&tampered, amount, Some(&MAKER_DST), 1_000),
            Err(FusionError::ConstraintSeeds)
        );
        assert_eq!(escrow.remaining_amount, 100);
    }
}

#[test]
fn fill_rejections_leave_state_unchanged() {
    let order = flat_order(100, 100);
    let mut escrow = create(&order, 1_000, &NATIVE_MINT).unwrap();
    assert_eq!(
        escrow.fill(&order, 60, Some(&MAKER_DST), 10_001),
        Err(FusionError::OrderExpired)
    );
    assert_eq!(
        escrow.fill(&order, 101, Some(&MAKER_DST), 1_000),
        Err(FusionError::NotEnoughTokensInEscrow)
    );
    assert_eq!(
        escrow.fill(&order, 0, Some(&MAKER_DST), 1_000),
        Err(FusionError::InvalidAmount)
    );
    assert_eq!(
        escrow.fill(&order, 60, None, 1_000),
        Err(FusionError::MissingMakerDstAta)
    );
    assert_eq!(escrow.remaining_amount, 100);
}

#[test]
fn fill_pays_native_when_the_order_says_so() {
    let mut order = flat_order(100, 100);
    order.native_dst_asset = true;
    order.dst_mint = NATIVE_MINT;
    let mut escrow = create(&order, 1_000, &NATIVE_MINT).unwrap();
    let outcome = escrow.fill(&order, 100, None, 1_000).unwrap();
    assert_eq!(outcome.maker_payment, Payable::Native);
    assert!(outcome.closed);
}

#[test]
fn fill_splits_fees() {
    let mut order = flat_order(1_000, 100_000);
    order.fee.protocol_fee = 500;
    order.fee.protocol_dst_ata = Some([11u8; 32]);
    order.fee.integrator_fee = 1_000;
    order.fee.integrator_dst_ata = Some([12u8; 32]);
    let mut escrow = create(&order, 1_000, &NATIVE_MINT).unwrap();
    // Fill 10 of 1000: gross = 1000; protocol 5, integrator 10, maker 985.
    let outcome = escrow.fill(&order, 10, Some(&MAKER_DST), 1_000).unwrap();
    assert_eq!(outcome.protocol_fee_amount, 5);
    assert_eq!(outcome.integrator_fee_amount, 10);
    assert_eq!(outcome.maker_dst_amount, 985);
    assert_eq!(
        outcome.protocol_fee_amount + outcome.integrator_fee_amount + outcome.maker_dst_amount,
        1_000
    );
}

#[test]
fn fill_without_protocol_destination_is_rejected() {
    // An escrow forged around terms whose fee rate has no destination: the
    // fill itself must still refuse to route a positive fee nowhere.
    let mut order = flat_order(1_000, 100_000);
    order.fee.protocol_fee = 500;
    let mut escrow = Escrow {
        order_hash: order_hash(&order),
        src_amount: 1_000,
        remaining_amount: 1_000,
    };
    assert_eq!(
        escrow.fill(&order, 10, Some(&MAKER_DST), 1_000),
        Err(FusionError::InconsistentProtocolFeeConfig)
    );
}

#[test]
fn create_rejects_malformed_terms() {
    let zero_src = {
        let mut o = flat_order(0, 100);
        o.src_amount = 0;
        o
    };
    assert_eq!(create(&zero_src, 1_000, &NATIVE_MINT), Err(FusionError::InvalidAmount));

    let mut zero_min = flat_order(100, 100);
    zero_min.min_dst_amount = 0;
    assert_eq!(create(&zero_min, 1_000, &NATIVE_MINT), Err(FusionError::InvalidAmount));

    let mut bad_native = flat_order(100, 100);
    bad_native.native_dst_asset = true;
    assert_eq!(
        create(&bad_native, 1_000, &NATIVE_MINT),
        Err(FusionError::InconsistentNativeDstTrait)
    );

    assert_eq!(
        create(&flat_order(100, 100), 10_001, &NATIVE_MINT),
        Err(FusionError::OrderExpired)
    );

    let mut high_surplus = flat_order(100, 100);
    high_surplus.fee.surplus_percentage = 101;
    high_surplus.fee.protocol_dst_ata = Some([11u8; 32]);
    assert_eq!(
        create(&high_surplus, 1_000, &NATIVE_MINT),
        Err(FusionError::InvalidProtocolSurplusFee)
    );

    let mut low_estimate = flat_order(100, 100);
    low_estimate.estimated_dst_amount = 99;
    assert_eq!(
        create(&low_estimate, 1_000, &NATIVE_MINT),
        Err(FusionError::InvalidEstimatedTakingAmount)
    );

    let mut stray_protocol_ata = flat_order(100, 100);
    stray_protocol_ata.fee.protocol_dst_ata = Some([11u8; 32]);
    assert_eq!(
        create(&stray_protocol_ata, 1_000, &NATIVE_MINT),
        Err(FusionError::InconsistentProtocolFeeConfig)
    );

    let mut missing_integrator_ata = flat_order(100, 100);
    missing_integrator_ata.fee.integrator_fee = 1;
    assert_eq!(
        create(&missing_integrator_ata, 1_000, &NATIVE_MINT),
        Err(FusionError::InconsistentIntegratorFeeConfig)
    );
}

#[test]
fn cancel_returns_the_remaining_balance() {
    let order = flat_order(100, 100);
    let mut escrow = create(&order, 1_000, &NATIVE_MINT).unwrap();
    escrow.fill(&order, 30, Some(&MAKER_DST), 1_000).unwrap();
    assert_eq!(escrow.cancel(&order_hash(&order)), Ok(70));
    assert_eq!(escrow.cancel(&[0u8; 32]), Err(FusionError::ConstraintSeeds));
}

fn cancellable_order() -> OrderConfig {
    let mut order = flat_order(100, 100);
    order.fee.min_cancellation_premium = 10;
    order.fee.max_cancellation_multiplier = 500;
    order.cancellation_auction_duration = 100;
    order
}

#[test]
fn cancellation_premium_example() {
    // Halfway through the cancellation window the multiplier is 250 of 1000,
    // so the premium is ceil(10 * 1250 / 1000) = 13.
    let order = cancellable_order();
    let escrow = create(&order, 1_000, &NATIVE_MINT).unwrap();
    let outcome = escrow.cancel_by_resolver(&order, 10_050).unwrap();
    assert_eq!(outcome.premium_to_resolver, 13);
    assert_eq!(outcome.refund_to_maker, 87);
}

#[test]
fn cancellation_premium_caps_at_the_window_end() {
    let order = cancellable_order();
    let escrow = create(&order, 1_000, &NATIVE_MINT).unwrap();
    // Multiplier capped at 500: ceil(10 * 1500 / 1000) = 15.
    let outcome = escrow.cancel_by_resolver(&order, 20_000).unwrap();
    assert_eq!(outcome.premium_to_resolver, 15);
    assert_eq!(outcome.refund_to_maker, 85);
}

#[test]
fn resolver_cancellation_rejections() {
    let opted_out = flat_order(100, 100);
    let escrow = create(&opted_out, 1_000, &NATIVE_MINT).unwrap();
    assert_eq!(
        escrow.cancel_by_resolver(&opted_out, 20_000),
        Err(FusionError::CancelOrderByResolverIsForbidden)
    );

    let order = cancellable_order();
    let escrow = create(&order, 1_000, &NATIVE_MINT).unwrap();
    assert_eq!(
        escrow.cancel_by_resolver(&order, 9_999),
        Err(FusionError::OrderNotExpired)
    );

    let mut drained = create(&order, 1_000, &NATIVE_MINT).unwrap();
    drained.fill(&order, 95, Some(&MAKER_DST), 1_000).unwrap();
    // Premium 13 exceeds the 5 still held: fail closed, do not clamp.
    assert_eq!(
        drained.cancel_by_resolver(&order, 10_050),
        Err(FusionError::InvalidCancellationFee)
    );
}
