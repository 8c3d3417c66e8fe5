//! Core of an escrow-based swap protocol.
//!
//! A maker locks a quantity of a source asset and states the minimum
//! counter-amount it will accept; a taker fills some or all of the locked
//! amount, paying a counter-amount computed from a time-decaying Dutch-auction
//! price curve, minus protocol and integrator fees, with part of any positive
//! slippage captured by the protocol. Expired orders can be cancelled by a
//! resolver for a time-escalating premium.
//!
//! The library is the deterministic computation and lifecycle logic: pricing,
//! fee splitting, the escrow state machine, the order-identity digest, and the
//! cancellation auction. Account handling and asset transfers belong to the
//! host that embeds this core; every entry point here is a pure function of
//! the values the host supplies, including the current time.

use vstd::prelude::*;

pub mod cancellation;
pub mod codec;
pub mod dutch_auction;
pub mod error;
pub mod fees;
pub mod identity;
pub mod lifecycle;
pub mod pricing;
pub mod types;
pub mod whitelist;

verus! {

/// Basis-point denominator of the surplus percentage: 100 means 100%.
pub const BASE_1E2: u64 = 100;

/// Basis-point denominator of the cancellation premium multiplier: 1000 means 100%.
pub const BASE_1E3: u64 = 1000;

/// Basis-point denominator of fees and auction rate bumps: 100_000 means 100%.
pub const BASE_1E5: u64 = 100_000;

/// Largest number of breakpoints a decay schedule may carry.
pub const MAX_AUCTION_POINTS: usize = 5;

} // verus!
