use vstd::prelude::*;

verus! {

/// Every way a protocol operation can be rejected. Each operation either
/// succeeds in full or fails with one of these and leaves the state untouched.
#[derive(Clone, Copy, Debug, PartialEq, Eq, Structural)]
pub enum ErrorCode {
    /// The external confidential computation reported failure; nothing was
    /// consumed and the submission may be retried under a fresh ticket.
    AbortedComputation,
    /// The settlement address recomputed from the decrypted nonce does not
    /// match the settlement record the caller presented.
    InvalidSettlementPDA,
    /// An operation that needs an active record (or an active custody wallet)
    /// found it inactive, already consumed, or absent.
    SettlementNotActive,
    /// The decrypted order carried a zero input amount.
    InvalidOrderAmount,
    /// The custody wallet was already funded once; funding is one-shot.
    AlreadyFunded,
    /// The custody sub-account balance observed at funding time is below the
    /// amount the order requires.
    InsufficientFunds,
    /// A custody wallet or settlement record already exists at the derived
    /// address; creation is the replay guard.
    DuplicateOrder,
    /// A token mapping already exists for this numeric id.
    DuplicateMapping,
    /// The caller asking for a refund owns no custody wallet at the derived
    /// address.
    OwnerMismatch,
    /// No custody wallet exists at the address derived from `(owner, nonce)`.
    OrderNotFound,
    /// No settlement record exists at the presented address.
    SettlementNotFound,
    /// The settlement record at the presented address was already activated;
    /// activation is one-shot, so a repeated delivery is a replay.
    AlreadySettled,
    /// The external swap router reverted; the whole execution is rolled back.
    RouterFailed,
}

} // verus!
