use vstd::prelude::*;

verus! {

/// An immutable association of a ledger asset (a mint, held as an opaque
/// numeric handle) with the fixed-width numeric id the confidential
/// computation works on. Lives at the address derived from `id`, which makes
/// `id` unique among live mappings.
#[derive(Clone, Copy, Debug, PartialEq, Eq)]
pub struct TokenMapping {
    /// Opaque handle of the ledger asset this id stands for.
    pub mint: u64,
    /// The fixed-width numeric id used inside encrypted orders.
    pub id: u64,
}

/// A protocol-owned custody wallet, the escrow for one order. Lives at the
/// address derived from `(user, nonce)`, so at most one wallet exists per
/// pair. Created with `active == true, is_funded == false`; `is_funded` flips
/// true exactly once; the ciphertext fields are write-once at creation.
#[derive(Clone, Copy, Debug, PartialEq, Eq)]
pub struct TempWallet {
    /// The owner the wallet's address is derived from, and the only party a
    /// refund may go to.
    pub user: u64,
    /// Asset handle of the order's input side.
    pub token_in_mint: u64,
    /// Asset handle of the order's output side.
    pub token_out_mint: u64,
    /// Public input amount the custody sub-account must hold before funding.
    pub amount_in: u64,
    /// Public minimum acceptable output amount.
    pub min_out: u64,
    /// The per-order anti-replay value; also the settlement join key.
    pub nonce: u64,
    /// True for the wallet's whole life; the wallet leaves the ledger when it
    /// is drained and closed.
    pub active: bool,
    /// Whether the one-shot funding step has happened.
    pub is_funded: bool,
    /// The ticket chosen at creation for the computation submission.
    pub computation_offset: u64,
    /// Ciphertext of the input amount, opaque to everyone but the service.
    pub encrypted_amount_in: [u8; 32],
    /// Ciphertext of the minimum output amount.
    pub encrypted_amount_out_min: [u8; 32],
    /// Ciphertext of the input token id.
    pub encrypted_token_in: [u8; 32],
    /// Ciphertext of the output token id.
    pub encrypted_token_out: [u8; 32],
    /// Ciphertext of the nonce.
    pub encrypted_nonce: [u8; 32],
}

/// The single-use permission slip for one swap execution. Lives at the
/// address derived from `nonce` alone. Its numeric fields are meaningless
/// zeros until `active` flips true, at which point they are the authoritative
/// decrypted order terms; execution flips `active` back and removes the
/// record.
#[derive(Clone, Copy, Debug, PartialEq, Eq)]
pub struct SettlementRequest {
    /// Decrypted input amount (zero while inactive).
    pub amount_in: u64,
    /// Decrypted minimum output amount (zero while inactive).
    pub min_out: u64,
    /// Decrypted numeric id of the input token (zero while inactive).
    pub token_in: u64,
    /// Decrypted numeric id of the output token (zero while inactive).
    pub token_out: u64,
    /// The nonce this record is addressed by.
    pub nonce: u64,
    /// Whether the record currently authorizes one swap execution.
    pub active: bool,
}

/// The plaintext order terms as the confidential computation returns them.
#[derive(Clone, Copy, Debug, PartialEq, Eq)]
pub struct SwapOrder {
    /// Input amount of the matched order.
    pub amount_in: u64,
    /// Minimum acceptable output amount of the matched order.
    pub amount_out_min: u64,
    /// Numeric id of the input token.
    pub token_in: u64,
    /// Numeric id of the output token.
    pub token_out: u64,
    /// The nonce the order was placed under.
    pub nonce: u64,
}

/// What the external confidential-computation service delivers to the
/// callback: either the decrypted order terms, or an abort signal.
#[derive(Clone, Copy, Debug, PartialEq, Eq)]
pub enum ComputationOutput {
    /// The service decrypted and validated the order.
    Success(SwapOrder),
    /// The service aborted; nothing may change locally.
    Aborted,
}

/// The submission the surrounding runtime must forward to the confidential
/// computation service: the five ciphertext arguments, in order, under the
/// caller-chosen ticket.
#[derive(Clone, Copy, Debug, PartialEq, Eq)]
pub struct QueuedComputation {
    /// The caller-chosen ticket correlating this submission with its
    /// eventual callback.
    pub ticket: u64,
    /// Ciphertext of the input amount.
    pub encrypted_amount_in: [u8; 32],
    /// Ciphertext of the minimum output amount.
    pub encrypted_amount_out_min: [u8; 32],
    /// Ciphertext of the input token id.
    pub encrypted_token_in: [u8; 32],
    /// Ciphertext of the output token id.
    pub encrypted_token_out: [u8; 32],
    /// Ciphertext of the nonce.
    pub encrypted_nonce: [u8; 32],
}

/// Notification emitted when a custody wallet is created, carrying the
/// public (never the ciphertext) fields of the order.
#[derive(Clone, Copy, Debug, PartialEq, Eq)]
pub struct TempWalletCreated {
    /// Owner of the new wallet.
    pub user: u64,
    /// Asset handle of the input side.
    pub token_in: u64,
    /// Asset handle of the output side.
    pub token_out: u64,
    /// Public input amount.
    pub amount: u64,
    /// The order's nonce.
    pub nonce: u64,
}

/// Notification emitted when a settlement record is activated; this is the
/// single point where the decrypted terms become publicly observable.
#[derive(Clone, Copy, Debug, PartialEq, Eq)]
pub struct OrderSettledEvent {
    /// Decrypted input amount.
    pub amount_in: u64,
    /// Decrypted minimum output amount.
    pub min_out: u64,
    /// Decrypted numeric id of the input token.
    pub token_in: u64,
    /// Decrypted numeric id of the output token.
    pub token_out: u64,
    /// Decrypted nonce.
    pub nonce: u64,
}

} // verus!
