use vstd::prelude::*;

verus! {

/// Why a grant, charge or revoke was refused. Every refusal leaves the
/// persisted records as they were.
#[derive(Debug, Clone, Copy, PartialEq, Eq, Structural)]
pub enum ErrorCode {
    /// The caller may not perform this operation: on a charge, it is not the
    /// trusted backend; on a revoke, it is not the record's payer.
    Unauthorized,
    /// The charge would take the spent total past the approved amount.
    InsufficientAllowance,
    /// An account does not match the asset or owner it must have, or differs
    /// from the one frozen in the record.
    InvalidTokenAccount,
    /// The spent total plus the charge does not fit in 64 bits.
    ArithmeticOverflow,
    /// A live record already exists for this payer and subscription.
    DuplicateAuthorization,
    /// No live record exists for this payer and subscription.
    NotFound,
    /// The subscription identifier is longer than a derivation seed may be.
    SubscriptionIdTooLong,
    /// No bump seed yields a program address for these seeds.
    NoViableAddress,
    /// The asset ledger refused the approve or the transfer.
    LedgerRejected,
}

} // verus!
