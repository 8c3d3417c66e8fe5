use vstd::prelude::*;

use crate::cancellation::{calculate_premium_multiplier, spec_premium_multiplier};
use crate::codec::spec_order_bytes;
use crate::dutch_auction::spec_rate_bump;
use crate::error::FusionError;
use crate::fees::{get_fee_amounts, spec_get_fee_amounts};
use crate::identity::{bytes32_eq, order_hash, sha256_of};
use crate::pricing::{get_dst_amount, mul_div_ceil, spec_get_dst_amount, spec_muldiv_ceil};
use crate::types::OrderConfig;
use crate::{BASE_1E2, BASE_1E3};

verus! {

/// What kind of asset a payment moves: the ledger's native coin, or a
/// fungible-token balance of the given mint.
#[derive(Clone, Copy, Debug, PartialEq, Eq)]
pub enum Payable {
    Native,
    Token([u8; 32]),
}

/// A live escrow: the identity digest it was created under, the quantity
/// locked at creation, and what is still unfilled. It is created exactly
/// once, shrinks only through fills, and is released when exhausted or
/// cancelled.
#[derive(Clone, Copy, Debug, PartialEq, Eq)]
pub struct Escrow {
    /// Digest of the full terms the escrow was created under; every later
    /// call must present terms that hash back to it.
    pub order_hash: [u8; 32],
    /// Quantity of the source asset locked at creation.
    pub src_amount: u64,
    /// Unfilled quantity: starts at `src_amount` and never increases.
    pub remaining_amount: u64,
}

impl Escrow {
    /// Validity: the unfilled quantity never exceeds the locked quantity.
    pub open spec fn wf(self) -> bool {
        self.remaining_amount <= self.src_amount
    }
}

/// The asset movements a successful fill directs; the host must execute them
/// atomically with the state change.
#[derive(Clone, Copy, Debug, PartialEq, Eq)]
pub struct FillOutcome {
    /// Source asset moved from the escrow to the taker.
    pub src_amount_to_taker: u64,
    /// Counter-asset moved from the taker to the protocol fee destination.
    pub protocol_fee_amount: u64,
    /// Counter-asset moved from the taker to the integrator fee destination.
    pub integrator_fee_amount: u64,
    /// Counter-asset moved from the taker to the maker's receiver.
    pub maker_dst_amount: u64,
    /// Asset kind of the maker payment: the native coin, or the counter mint.
    pub maker_payment: Payable,
    /// The fill exhausted the escrow: the host must release its storage.
    pub closed: bool,
}

/// The asset movements a successful resolver cancellation directs.
#[derive(Clone, Copy, Debug, PartialEq, Eq)]
pub struct CancelByResolverOutcome {
    /// Source asset moved from the escrow to the resolver as its premium.
    pub premium_to_resolver: u64,
    /// The rest of the escrow's balance, returned to the maker.
    pub refund_to_maker: u64,
}

/// The first rejection `create` finds in the submitted terms, if any.
pub open spec fn spec_create_check(order: OrderConfig, now: u32, native_mint: Seq<u8>) -> Result<
    (),
    FusionError,
> {
    if !(order.src_amount != 0 && order.min_dst_amount != 0) {
        Err(FusionError::InvalidAmount)
    } else if !(order.dst_mint@ == native_mint || !order.native_dst_asset) {
        Err(FusionError::InconsistentNativeDstTrait)
    } else if !(now <= order.expiration_time) {
        Err(FusionError::OrderExpired)
    } else if !(order.fee.surplus_percentage <= BASE_1E2) {
        Err(FusionError::InvalidProtocolSurplusFee)
    } else if !(order.estimated_dst_amount >= order.min_dst_amount) {
        Err(FusionError::InvalidEstimatedTakingAmount)
    } else if !order.fee.protocol_destination_consistent() {
        Err(FusionError::InconsistentProtocolFeeConfig)
    } else if !order.fee.integrator_destination_consistent() {
        Err(FusionError::InconsistentIntegratorFeeConfig)
    } else {
        Ok(())
    }
}

/// Validates the submitted terms against the data model and the current time
/// and opens the escrow. On success the host must lock `src_amount` of the
/// source asset under the returned identity digest; malformed terms are
/// rejected here and never persisted.
pub fn create(order: &OrderConfig, now: u32, native_mint: &[u8; 32]) -> (r: Result<
    Escrow,
    FusionError,
>)
    requires
        order.dutch_auction_data.points_and_time_deltas@.len() <= u32::MAX,
    ensures
        r is Ok <==> spec_create_check(*order, now, native_mint@) is Ok,
        r matches Err(e) ==> spec_create_check(*order, now, native_mint@) == Err::<
            (),
            FusionError,
        >(e),
        r matches Ok(escrow) ==> {
            &&& escrow.order_hash@ == sha256_of(spec_order_bytes(*order))
            &&& escrow.src_amount == order.src_amount
            &&& escrow.remaining_amount == order.src_amount
            &&& escrow.wf()
        },
{
    if order.src_amount == 0 || order.min_dst_amount == 0 {
        return Err(FusionError::InvalidAmount);
    }
    if order.native_dst_asset && !bytes32_eq(&order.dst_mint, native_mint) {
        return Err(FusionError::InconsistentNativeDstTrait);
    }
    if now > order.expiration_time {
        return Err(FusionError::OrderExpired);
    }
    if order.fee.surplus_percentage as u64 > BASE_1E2 {
        return Err(FusionError::InvalidProtocolSurplusFee);
    }
    if order.estimated_dst_amount < order.min_dst_amount {
        return Err(FusionError::InvalidEstimatedTakingAmount);
    }
    let protocol_charged = order.fee.protocol_fee > 0 || order.fee.surplus_percentage > 0;
    if protocol_charged != order.fee.protocol_dst_ata.is_some() {
        return Err(FusionError::InconsistentProtocolFeeConfig);
    }
    if (order.fee.integrator_fee > 0) != order.fee.integrator_dst_ata.is_some() {
        return Err(FusionError::InconsistentIntegratorFeeConfig);
    }
    let digest = order_hash(order);
    Ok(Escrow { order_hash: digest, src_amount: order.src_amount, remaining_amount: order.src_amount })
}

/// The outcome `fill` owes for the given state and inputs: either the first
/// rejection in checking order, or the exact asset movements.
pub open spec fn spec_fill_check(
    escrow: Escrow,
    order: OrderConfig,
    amount: u64,
    maker_dst_ata_present: bool,
    now: u32,
) -> Result<FillOutcome, FusionError> {
    if sha256_of(spec_order_bytes(order)) != escrow.order_hash@ {
        Err(FusionError::ConstraintSeeds)
    } else if now > order.expiration_time {
        Err(FusionError::OrderExpired)
    } else if amount > escrow.remaining_amount {
        Err(FusionError::NotEnoughTokensInEscrow)
    } else if amount == 0 {
        Err(FusionError::InvalidAmount)
    } else {
        let bump = spec_rate_bump(now as int, order.dutch_auction_data);
        match spec_get_dst_amount(
            order.src_amount,
            order.min_dst_amount,
            amount,
            Option::Some(bump),
        ) {
            Result::Err(e) => Err(e),
            Result::Ok(dst_amount) => match spec_get_dst_amount(
                order.src_amount,
                order.estimated_dst_amount,
                amount,
                Option::None,
            ) {
                Result::Err(e) => Err(e),
                Result::Ok(estimated) => match spec_get_fee_amounts(
                    order.fee.integrator_fee,
                    order.fee.protocol_fee,
                    order.fee.surplus_percentage,
                    dst_amount,
                    estimated,
                ) {
                    Result::Err(e) => Err(e),
                    Result::Ok((protocol_fee_amount, integrator_fee_amount, maker_dst_amount)) => {
                        if protocol_fee_amount > 0 && order.fee.protocol_dst_ata is None {
                            Err(FusionError::InconsistentProtocolFeeConfig)
                        } else if integrator_fee_amount > 0 && order.fee.integrator_dst_ata
                            is None {
                            Err(FusionError::InconsistentIntegratorFeeConfig)
                        } else if !order.native_dst_asset && !maker_dst_ata_present {
                            Err(FusionError::MissingMakerDstAta)
                        } else {
                            Ok(
                                FillOutcome {
                                    src_amount_to_taker: amount,
                                    protocol_fee_amount,
                                    integrator_fee_amount,
                                    maker_dst_amount,
                                    maker_payment: if order.native_dst_asset {
                                        Payable::Native
                                    } else {
                                        Payable::Token(order.dst_mint)
                                    },
                                    closed: escrow.remaining_amount == amount,
                                },
                            )
                        }
                    },
                },
            },
        }
    }
}

impl Escrow {
    /// Fills `amount` of the escrow at the auction price for time `now`.
    ///
    /// The presented terms must hash back to the escrow's identity, or the
    /// call fails as if the escrow did not exist — replaying a fill with
    /// tampered terms always fails, whatever the amount. On success the
    /// remaining amount drops by exactly `amount`, the outcome's three
    /// counter-asset movements sum exactly to the gross counter-amount, and
    /// the escrow closes exactly when it reaches zero. On failure nothing
    /// changes.
    ///
    /// Callers hand in terms that respect the fee-terms data model (a surplus
    /// share of at most 100%, as `create` enforces) and a breakpoint list
    /// short enough for the wire format's length prefix.
    pub fn fill(
        &mut self,
        order: &OrderConfig,
        amount: u64,
        maker_dst_ata: Option<&[u8; 32]>,
        now: u32,
    ) -> (r: Result<FillOutcome, FusionError>)
        requires
            old(self).wf(),
            order.fee.surplus_percentage <= BASE_1E2,
            order.dutch_auction_data.points_and_time_deltas@.len() <= u32::MAX,
        ensures
            final(self).wf(),
            r == spec_fill_check(*old(self), *order, amount, maker_dst_ata is Some, now),
            r is Err ==> *final(self) == *old(self),
            sha256_of(spec_order_bytes(*order)) != old(self).order_hash@ ==> r == Err::<
                FillOutcome,
                FusionError,
            >(FusionError::ConstraintSeeds),
            r matches Ok(outcome) ==> {
                &&& final(self).remaining_amount == old(self).remaining_amount - amount
                &&& final(self).order_hash == old(self).order_hash
                &&& final(self).src_amount == old(self).src_amount
                &&& outcome.src_amount_to_taker == amount
                &&& outcome.closed == (final(self).remaining_amount == 0)
                &&& spec_get_dst_amount(
                    order.src_amount,
                    order.min_dst_amount,
                    amount,
                    Option::Some(spec_rate_bump(now as int, order.dutch_auction_data)),
                ) == Ok::<u64, FusionError>(
                    (outcome.protocol_fee_amount + outcome.integrator_fee_amount
                        + outcome.maker_dst_amount) as u64,
                )
            },
    {
        let claimed = order_hash(order);
        if !bytes32_eq(&claimed, &self.order_hash) {
            return Err(FusionError::ConstraintSeeds);
        }
        if now > order.expiration_time {
            return Err(FusionError::OrderExpired);
        }
        if amount > self.remaining_amount {
            return Err(FusionError::NotEnoughTokensInEscrow);
        }
        if amount == 0 {
            return Err(FusionError::InvalidAmount);
        }

        let dst_amount = match get_dst_amount(
            order.src_amount,
            order.min_dst_amount,
            amount,
            Some(&order.dutch_auction_data),
            now as u64,
        ) {
            Ok(v) => v,
            Err(e) => {
                return Err(e);
            },
        };
        let estimated_dst_amount = match get_dst_amount(
            order.src_amount,
            order.estimated_dst_amount,
            amount,
            None,
            now as u64,
        ) {
            Ok(v) => v,
            Err(e) => {
                return Err(e);
            },
        };
        let fee_split = match get_fee_amounts(
            order.fee.integrator_fee,
            order.fee.protocol_fee,
            order.fee.surplus_percentage,
            dst_amount,
            estimated_dst_amount,
        ) {
            Ok(v) => v,
            Err(e) => {
                return Err(e);
            },
        };
        let (protocol_fee_amount, integrator_fee_amount, maker_dst_amount) = fee_split;

        if protocol_fee_amount > 0 && order.fee.protocol_dst_ata.is_none() {
            return Err(FusionError::InconsistentProtocolFeeConfig);
        }
        if integrator_fee_amount > 0 && order.fee.integrator_dst_ata.is_none() {
            return Err(FusionError::InconsistentIntegratorFeeConfig);
        }
        let maker_payment = if order.native_dst_asset {
            Payable::Native
        } else {
            if maker_dst_ata.is_none() {
                return Err(FusionError::MissingMakerDstAta);
            }
            Payable::Token(order.dst_mint)
        };

        self.remaining_amount = self.remaining_amount - amount;
        Ok(
            FillOutcome {
                src_amount_to_taker: amount,
                protocol_fee_amount,
                integrator_fee_amount,
                maker_dst_amount,
                maker_payment,
                closed: self.remaining_amount == 0,
            },
        )
    }

    /// Maker cancellation: valid at any time while the escrow lives. The
    /// caller addresses the escrow by its identity digest; on a match the
    /// whole unfilled balance flows back to the maker and the host must
    /// release the escrow's storage.
    pub fn cancel(&self, order_hash: &[u8; 32]) -> (r: Result<u64, FusionError>)
        ensures
            r is Ok <==> order_hash@ == self.order_hash@,
            r matches Ok(refund) ==> refund == self.remaining_amount,
            r is Err ==> r == Err::<u64, FusionError>(FusionError::ConstraintSeeds),
    {
        if bytes32_eq(order_hash, &self.order_hash) {
            Ok(self.remaining_amount)
        } else {
            Err(FusionError::ConstraintSeeds)
        }
    }

    /// The outcome `cancel_by_resolver` owes for the given state and inputs.
    pub open spec fn spec_cancel_by_resolver_check(
        self,
        order: OrderConfig,
        now: u32,
    ) -> Result<CancelByResolverOutcome, FusionError> {
        if sha256_of(spec_order_bytes(order)) != self.order_hash@ {
            Err(FusionError::ConstraintSeeds)
        } else if order.fee.min_cancellation_premium == 0 {
            Err(FusionError::CancelOrderByResolverIsForbidden)
        } else if now < order.expiration_time {
            Err(FusionError::OrderNotExpired)
        } else {
            let multiplier = spec_premium_multiplier(
                now as int,
                order.expiration_time as int,
                order.cancellation_auction_duration as int,
                order.fee.max_cancellation_multiplier as int,
            );
            let premium = spec_muldiv_ceil(
                order.fee.min_cancellation_premium as int,
                BASE_1E3 + multiplier,
                BASE_1E3 as int,
            );
            if premium > u64::MAX {
                Err(FusionError::IntegerOverflow)
            } else if premium > self.remaining_amount {
                Err(FusionError::InvalidCancellationFee)
            } else {
                Ok(
                    CancelByResolverOutcome {
                        premium_to_resolver: premium as u64,
                        refund_to_maker: (self.remaining_amount - premium) as u64,
                    },
                )
            }
        }
    }

    /// Resolver cancellation of an expired order that opted in by setting a
    /// positive minimum premium. The premium escalates linearly over the
    /// cancellation window; the whole balance is conserved: premium plus
    /// refund equal the remaining amount exactly, and a premium that would
    /// exceed the balance is rejected, not clamped. On success the host pays
    /// the premium to the resolver, refunds the rest to the maker, and
    /// releases the escrow's storage.
    pub fn cancel_by_resolver(&self, order: &OrderConfig, now: u32) -> (r: Result<
        CancelByResolverOutcome,
        FusionError,
    >)
        requires
            order.dutch_auction_data.points_and_time_deltas@.len() <= u32::MAX,
        ensures
            r == self.spec_cancel_by_resolver_check(*order, now),
            r matches Ok(outcome) ==> outcome.premium_to_resolver + outcome.refund_to_maker
                == self.remaining_amount,
            r matches Ok(outcome) ==> outcome.premium_to_resolver
                >= order.fee.min_cancellation_premium,
    {
        let claimed = order_hash(order);
        if !bytes32_eq(&claimed, &self.order_hash) {
            return Err(FusionError::ConstraintSeeds);
        }
        if order.fee.min_cancellation_premium == 0 {
            return Err(FusionError::CancelOrderByResolverIsForbidden);
        }
        if now < order.expiration_time {
            return Err(FusionError::OrderNotExpired);
        }

        let premium_bump = calculate_premium_multiplier(
            now,
            order.expiration_time,
            order.cancellation_auction_duration,
            order.fee.max_cancellation_multiplier,
        );
        let total_cancellation_premium = match mul_div_ceil(
            order.fee.min_cancellation_premium,
            BASE_1E3 + premium_bump,
            BASE_1E3,
        ) {
            Some(v) => v,
            None => {
                return Err(FusionError::IntegerOverflow);
            },
        };
        if total_cancellation_premium > self.remaining_amount {
            return Err(FusionError::InvalidCancellationFee);
        }
        proof {
            let m = order.fee.min_cancellation_premium as int;
            let bump = premium_bump as int;
            assert(m * (BASE_1E3 as int) <= m * (BASE_1E3 + bump)) by (nonlinear_arith)
                requires
                    0 <= m,
                    0 <= bump,
            ;
            vstd::arithmetic::div_mod::lemma_div_is_ordered(
                m * (BASE_1E3 as int) + (BASE_1E3 as int) - 1,
                m * (BASE_1E3 + bump) + (BASE_1E3 as int) - 1,
                BASE_1E3 as int,
            );
            vstd::arithmetic::div_mod::lemma_div_multiples_vanish_fancy(
                m,
                (BASE_1E3 as int) - 1,
                BASE_1E3 as int,
            );
            assert(m * (BASE_1E3 as int) == (BASE_1E3 as int) * m) by (nonlinear_arith);
        }
        Ok(
            CancelByResolverOutcome {
                premium_to_resolver: total_cancellation_premium,
                refund_to_maker: self.remaining_amount - total_cancellation_premium,
            },
        )
    }
}

/// The escrow balance left after the given sequence of fill amounts.
pub open spec fn remaining_after_fills(src_amount: u64, fills: Seq<u64>) -> int
    decreases fills.len(),
{
    if fills.len() == 0 {
        src_amount as int
    } else {
        remaining_after_fills(src_amount, fills.drop_last()) - fills.last()
    }
}

/// Every fill in the sequence is positive and no larger than the balance left
/// before it — exactly the quantity checks `fill` enforces call by call.
pub open spec fn fills_admissible(src_amount: u64, fills: Seq<u64>) -> bool
    decreases fills.len(),
{
    fills.len() == 0 || (fills_admissible(src_amount, fills.drop_last()) && 0 < fills.last()
        <= remaining_after_fills(src_amount, fills.drop_last()))
}

/// The total quantity the sequence of fills moved out of the escrow.
pub open spec fn sum_fills(fills: Seq<u64>) -> int
    decreases fills.len(),
{
    if fills.len() == 0 {
        0
    } else {
        sum_fills(fills.drop_last()) + fills.last()
    }
}

/// An admissible sequence of fills accounts exactly for the locked amount:
/// what was filled plus what remains equals `src_amount`, and the balance
/// never drops below zero.
proof fn lemma_fills_accounting(src_amount: u64, fills: Seq<u64>)
    requires
        fills_admissible(src_amount, fills),
    ensures
        sum_fills(fills) + remaining_after_fills(src_amount, fills) == src_amount,
        0 <= remaining_after_fills(src_amount, fills) <= src_amount,
    decreases fills.len(),
{
    if fills.len() > 0 {
        lemma_fills_accounting(src_amount, fills.drop_last());
    }
}

/// A prefix of an admissible sequence of fills is admissible.
proof fn lemma_fills_admissible_prefix(src_amount: u64, fills: Seq<u64>, k: int)
    requires
        fills_admissible(src_amount, fills),
        0 <= k <= fills.len(),
    ensures
        fills_admissible(src_amount, fills.take(k)),
    decreases fills.len(),
{
    if k < fills.len() {
        lemma_fills_admissible_prefix(src_amount, fills.drop_last(), k);
        assert(fills.drop_last().take(k) =~= fills.take(k));
    } else {
        assert(fills.take(k) =~= fills);
    }
}

/// Remaining-amount monotonicity: across any admissible sequence of fills on
/// one escrow — each fill positive and bounded by the balance before it, as
/// `fill` enforces — the remaining amount never increases and never drops
/// below zero, and the sum of all fill amounts plus the final remaining
/// amount equals the locked `src_amount` exactly.
pub proof fn lemma_remaining_monotonic(src_amount: u64, fills: Seq<u64>, i: int, j: int)
    requires
        fills_admissible(src_amount, fills),
        0 <= i <= j <= fills.len(),
    ensures
        remaining_after_fills(src_amount, fills.take(j)) <= remaining_after_fills(
            src_amount,
            fills.take(i),
        ),
        0 <= remaining_after_fills(src_amount, fills.take(j)) <= src_amount,
        sum_fills(fills) + remaining_after_fills(src_amount, fills) == src_amount,
    decreases j - i,
{
    lemma_fills_accounting(src_amount, fills);
    lemma_fills_admissible_prefix(src_amount, fills, j);
    lemma_fills_accounting(src_amount, fills.take(j));
    if i < j {
        lemma_remaining_monotonic(src_amount, fills, i, j - 1);
        assert(fills.take(j).drop_last() =~= fills.take(j - 1));
        assert(fills.take(j).last() == fills[j - 1]);
    }
}

} // verus!
