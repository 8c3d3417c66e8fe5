use vstd::prelude::*;

verus! {

/// Typed rejection of a single call into the core.
///
/// Every error is fatal to the call it rejects and leaves the escrow
/// unchanged; the contracts of the entry points say exactly which inputs
/// produce which variant.
#[derive(Clone, Copy, Debug, PartialEq, Eq, Structural)]
pub enum FusionError {
    /// The presented terms do not hash to the addressed escrow's identity;
    /// treated the same as "escrow does not exist".
    ConstraintSeeds,
    /// The declared native-asset flag is set although the counter-asset is
    /// not the ledger's native coin.
    InconsistentNativeDstTrait,
    /// A zero amount where a positive one is required.
    InvalidAmount,
    /// The counter-asset is a token balance but no maker destination account
    /// was supplied.
    MissingMakerDstAta,
    /// The fill amount exceeds what the escrow still holds.
    NotEnoughTokensInEscrow,
    /// The current time is past the order's expiration time.
    OrderExpired,
    /// The maker's estimated counter-amount is below the minimum acceptable one.
    InvalidEstimatedTakingAmount,
    /// The surplus percentage exceeds 100%.
    InvalidProtocolSurplusFee,
    /// Presence of the protocol fee destination does not match whether a
    /// protocol fee or surplus share is charged.
    InconsistentProtocolFeeConfig,
    /// Presence of the integrator fee destination does not match whether an
    /// integrator fee is charged.
    InconsistentIntegratorFeeConfig,
    /// An arithmetic step would exceed the machine range; the call aborts
    /// rather than wrap or saturate.
    IntegerOverflow,
    /// The order did not opt into resolver cancellation.
    CancelOrderByResolverIsForbidden,
    /// A resolver tried to cancel before the order expired.
    OrderNotExpired,
    /// The cancellation premium would exceed the escrow's remaining balance.
    InvalidCancellationFee,
}

} // verus!
