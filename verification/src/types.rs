use vstd::prelude::*;

use crate::MAX_AUCTION_POINTS;

verus! {

/// One breakpoint of a decay schedule: the rate bump that holds at the
/// breakpoint and the time elapsed since the previous breakpoint (the first
/// one is measured from the start of the auction).
#[derive(Clone, Copy, Debug, PartialEq, Eq, Structural)]
pub struct PointAndTimeDelta {
    /// Rate bump at this breakpoint, in basis points where `BASE_1E5` = 100%.
    pub rate_bump: u16,
    /// Seconds since the previous breakpoint.
    pub time_delta: u16,
}

/// A piecewise-linear decay schedule for the auction price curve.
#[derive(Debug, PartialEq, Eq)]
#[verifier::ext_equal]
pub struct DutchAuctionData {
    pub auction_start_time: u32,
    pub auction_finish_time: u32,
    /// Rate bump that holds at or before the start, in basis points where
    /// `BASE_1E5` = 100%.
    pub initial_rate_bump: u16,
    pub points_and_time_deltas: Vec<PointAndTimeDelta>,
}

impl DutchAuctionData {
    /// Data-model invariant of a schedule: at most `MAX_AUCTION_POINTS`
    /// breakpoints, and consecutive breakpoints never share a timestamp.
    pub open spec fn wf(self) -> bool {
        &&& self.points_and_time_deltas@.len() <= MAX_AUCTION_POINTS
        &&& forall|i: int|
            0 <= i < self.points_and_time_deltas@.len()
                ==> #[trigger] self.points_and_time_deltas@[i].time_delta >= 1
    }
}

/// Fee terms of an order, with the resolved fee destination accounts.
#[derive(Debug, PartialEq, Eq)]
#[verifier::ext_equal]
pub struct FeeConfig {
    /// Destination of the protocol fee; present iff a protocol fee or a
    /// surplus share is charged.
    pub protocol_dst_ata: Option<[u8; 32]>,
    /// Destination of the integrator fee; present iff an integrator fee is
    /// charged.
    pub integrator_dst_ata: Option<[u8; 32]>,
    /// Protocol fee in basis points where `BASE_1E5` = 100%.
    pub protocol_fee: u16,
    /// Integrator fee in basis points where `BASE_1E5` = 100%.
    pub integrator_fee: u16,
    /// Share of positive slippage taken by the protocol, in basis points
    /// where `BASE_1E2` = 100%.
    pub surplus_percentage: u8,
    /// Premium floor charged to the maker if a resolver cancels the order,
    /// in absolute token amount; zero means resolver cancellation is off.
    pub min_cancellation_premium: u64,
    /// Ceiling of the cancellation premium multiplier, in basis points where
    /// `BASE_1E3` = 100%.
    pub max_cancellation_multiplier: u16,
}

impl FeeConfig {
    /// The protocol destination is present exactly when a protocol fee or a
    /// surplus share is charged.
    pub open spec fn protocol_destination_consistent(self) -> bool {
        (self.protocol_fee > 0 || self.surplus_percentage > 0) <==> self.protocol_dst_ata is Some
    }

    /// The integrator destination is present exactly when an integrator fee
    /// is charged.
    pub open spec fn integrator_destination_consistent(self) -> bool {
        (self.integrator_fee > 0) <==> self.integrator_dst_ata is Some
    }
}

/// Fee terms as the caller transmits them: the destination accounts are
/// resolved from context and supplied separately.
#[derive(Debug, PartialEq, Eq)]
#[verifier::ext_equal]
pub struct ReducedFeeConfig {
    /// Protocol fee in basis points where `BASE_1E5` = 100%.
    pub protocol_fee: u16,
    /// Integrator fee in basis points where `BASE_1E5` = 100%.
    pub integrator_fee: u16,
    /// Share of positive slippage taken by the protocol, in basis points
    /// where `BASE_1E2` = 100%.
    pub surplus_percentage: u8,
    /// Premium floor charged to the maker if a resolver cancels the order.
    pub min_cancellation_premium: u64,
    /// Ceiling of the cancellation premium multiplier, in basis points where
    /// `BASE_1E3` = 100%.
    pub max_cancellation_multiplier: u16,
}

/// The full, immutable economic terms of an order. Its canonical encoding is
/// hashed into the escrow's identity.
#[derive(Debug, PartialEq, Eq)]
#[verifier::ext_equal]
pub struct OrderConfig {
    /// Distinguishes concurrent orders from the same maker.
    pub id: u32,
    /// Quantity of the source asset the maker locks.
    pub src_amount: u64,
    /// Floor acceptable counter-amount for the whole order.
    pub min_dst_amount: u64,
    /// The maker's quoted expectation, used to detect positive slippage.
    pub estimated_dst_amount: u64,
    /// Absolute timestamp after which fills are rejected.
    pub expiration_time: u32,
    /// The counter-asset is the ledger's native coin rather than a token balance.
    pub native_dst_asset: bool,
    /// Identity that receives the net counter-amount.
    pub receiver: [u8; 32],
    pub fee: FeeConfig,
    pub dutch_auction_data: DutchAuctionData,
    /// Window over which the resolver-cancellation premium escalates.
    pub cancellation_auction_duration: u32,
    /// Identity of the source asset.
    pub src_mint: [u8; 32],
    /// Identity of the counter-asset.
    pub dst_mint: [u8; 32],
}

/// An order as the caller transmits it: fields derivable from context (asset
/// and destination identities) are omitted and supplied separately.
#[derive(Debug, PartialEq, Eq)]
#[verifier::ext_equal]
pub struct ReducedOrderConfig {
    pub id: u32,
    pub src_amount: u64,
    pub min_dst_amount: u64,
    pub estimated_dst_amount: u64,
    pub expiration_time: u32,
    pub native_dst_asset: bool,
    pub fee: ReducedFeeConfig,
    pub dutch_auction_data: DutchAuctionData,
    pub cancellation_auction_duration: u32,
}

/// The full order that `order` and the resolved identities reconstruct.
pub open spec fn spec_build_order(
    order: ReducedOrderConfig,
    src_mint: [u8; 32],
    dst_mint: [u8; 32],
    receiver: [u8; 32],
    protocol_dst_ata: Option<[u8; 32]>,
    integrator_dst_ata: Option<[u8; 32]>,
) -> OrderConfig {
    OrderConfig {
        id: order.id,
        src_amount: order.src_amount,
        min_dst_amount: order.min_dst_amount,
        estimated_dst_amount: order.estimated_dst_amount,
        expiration_time: order.expiration_time,
        native_dst_asset: order.native_dst_asset,
        receiver,
        fee: FeeConfig {
            protocol_dst_ata,
            integrator_dst_ata,
            protocol_fee: order.fee.protocol_fee,
            integrator_fee: order.fee.integrator_fee,
            surplus_percentage: order.fee.surplus_percentage,
            min_cancellation_premium: order.fee.min_cancellation_premium,
            max_cancellation_multiplier: order.fee.max_cancellation_multiplier,
        },
        dutch_auction_data: order.dutch_auction_data,
        cancellation_auction_duration: order.cancellation_auction_duration,
        src_mint,
        dst_mint,
    }
}

/// Reconstructs the full order from its reduced form and the identities the
/// host resolved from context. Every entry point re-derives the escrow
/// identity from this reconstruction, so tampering with any field moves the
/// caller to a different (nonexistent) escrow.
pub fn build_order_from_reduced(
    order: ReducedOrderConfig,
    src_mint: [u8; 32],
    dst_mint: [u8; 32],
    receiver: [u8; 32],
    protocol_dst_ata: Option<[u8; 32]>,
    integrator_dst_ata: Option<[u8; 32]>,
) -> (r: OrderConfig)
    ensures
        r == spec_build_order(
            order,
            src_mint,
            dst_mint,
            receiver,
            protocol_dst_ata,
            integrator_dst_ata,
        ),
{
    OrderConfig {
        id: order.id,
        src_amount: order.src_amount,
        min_dst_amount: order.min_dst_amount,
        estimated_dst_amount: order.estimated_dst_amount,
        expiration_time: order.expiration_time,
        native_dst_asset: order.native_dst_asset,
        receiver,
        fee: FeeConfig {
            protocol_dst_ata,
            integrator_dst_ata,
            protocol_fee: order.fee.protocol_fee,
            integrator_fee: order.fee.integrator_fee,
            surplus_percentage: order.fee.surplus_percentage,
            min_cancellation_premium: order.fee.min_cancellation_premium,
            max_cancellation_multiplier: order.fee.max_cancellation_multiplier,
        },
        dutch_auction_data: order.dutch_auction_data,
        cancellation_auction_duration: order.cancellation_auction_duration,
        src_mint,
        dst_mint,
    }
}

} // verus!
