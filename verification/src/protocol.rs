use vstd::prelude::*;

use crate::error::ErrorCode;
use crate::types::ComputationOutput;
use crate::types::OrderSettledEvent;
use crate::types::QueuedComputation;
use crate::types::SettlementRequest;
use crate::types::SwapOrder;
use crate::types::TempWallet;
use crate::types::TempWalletCreated;
use crate::types::TokenMapping;

verus! {

// The protocol, stated once and abstractly: the ledger is three
// content-addressed maps, and every public operation is a pure transition
// from a pre-state to a post-state plus a result. The executable state in
// `state` refines these transitions field for field; the laws in `laws` are
// proved about them directly.

/// The deterministic address a settlement record lives at, derived from the
/// order's nonce alone. In this content-addressed model the derivation is
/// the identity on the nonce: the nonce domain is the settlement address
/// space, and a record can only ever sit at its own nonce's address.
pub open spec fn spec_settlement_address(nonce: u64) -> u64 {
    nonce
}

/// The deterministic address a custody wallet lives at, derived from its
/// owner and the order's nonce.
pub open spec fn wallet_address(user: u64, nonce: u64) -> (u64, u64) {
    (user, nonce)
}

/// The whole observable ledger state of the protocol: every live record,
/// each at its derived address.
#[verifier::ext_equal]
pub struct DexView {
    /// Token mappings, at the address derived from the numeric id.
    pub tokens: Map<u64, TokenMapping>,
    /// Custody wallets, at the address derived from `(owner, nonce)`.
    pub wallets: Map<(u64, u64), TempWallet>,
    /// Settlement records, at the address derived from the nonce.
    pub settlements: Map<u64, SettlementRequest>,
}

/// The ledger before the protocol has written anything: no mapping, no
/// wallet, no settlement record.
pub open spec fn empty_view() -> DexView {
    DexView { tokens: Map::empty(), wallets: Map::empty(), settlements: Map::empty() }
}

/// The shape every reachable ledger state keeps: each record sits at the
/// address its own fields derive (so a record can never be smuggled in
/// under a foreign address), a custody wallet's escrow stays open for the
/// wallet's whole life, and a settlement record's numeric fields are
/// meaningless zeros until the moment of activation.
pub open spec fn view_invariant(s: DexView) -> bool {
    &&& forall|i: u64| #[trigger] s.tokens.contains_key(i) ==> s.tokens[i].id == i
    &&& forall|k: (u64, u64)| #[trigger] s.wallets.contains_key(k) ==> wallet_address(
        s.wallets[k].user,
        s.wallets[k].nonce,
    ) == k && s.wallets[k].active
    &&& forall|a: u64| #[trigger] s.settlements.contains_key(a) ==> spec_settlement_address(
        s.settlements[a].nonce,
    ) == a
    &&& forall|a: u64|
        #[trigger] s.settlements.contains_key(a) && !s.settlements[a].active
            ==> s.settlements[a] == blank_settlement(s.settlements[a].nonce)
}

/// Registering an asset under a numeric id: creates the mapping at the
/// address derived from the id, or rejects a duplicate.
pub open spec fn spec_register_token(s: DexView, mint: u64, id: u64) -> (DexView, Result<
    (),
    ErrorCode,
>) {
    if s.tokens.contains_key(id) {
        (s, Err(ErrorCode::DuplicateMapping))
    } else {
        (
            DexView {
                tokens: s.tokens.insert(id, TokenMapping { mint, id }),
                wallets: s.wallets,
                settlements: s.settlements,
            },
            Ok(()),
        )
    }
}

/// The custody wallet as order creation writes it: escrow open, not yet
/// funded, ciphertexts stored write-once.
pub open spec fn fresh_wallet(
    payer: u64,
    token_in_mint: u64,
    token_out_mint: u64,
    amount_in: u64,
    min_out: u64,
    nonce: u64,
    computation_offset: u64,
    encrypted_amount_in: [u8; 32],
    encrypted_amount_out_min: [u8; 32],
    encrypted_token_in: [u8; 32],
    encrypted_token_out: [u8; 32],
    encrypted_nonce: [u8; 32],
) -> TempWallet {
    TempWallet {
        user: payer,
        token_in_mint,
        token_out_mint,
        amount_in,
        min_out,
        nonce,
        active: true,
        is_funded: false,
        computation_offset,
        encrypted_amount_in,
        encrypted_amount_out_min,
        encrypted_token_in,
        encrypted_token_out,
        encrypted_nonce,
    }
}

/// Order creation: brings a custody wallet to life at the address derived
/// from `(payer, nonce)`, or rejects a replay of the same pair. On success
/// the creation notification carries exactly the public fields.
pub open spec fn spec_create_private_swap(
    s: DexView,
    payer: u64,
    token_in_mint: u64,
    token_out_mint: u64,
    amount_in: u64,
    min_out: u64,
    nonce: u64,
    computation_offset: u64,
    encrypted_amount_in: [u8; 32],
    encrypted_amount_out_min: [u8; 32],
    encrypted_token_in: [u8; 32],
    encrypted_token_out: [u8; 32],
    encrypted_nonce: [u8; 32],
) -> (DexView, Result<TempWalletCreated, ErrorCode>) {
    if s.wallets.contains_key(wallet_address(payer, nonce)) {
        (s, Err(ErrorCode::DuplicateOrder))
    } else {
        let w = fresh_wallet(
            payer,
            token_in_mint,
            token_out_mint,
            amount_in,
            min_out,
            nonce,
            computation_offset,
            encrypted_amount_in,
            encrypted_amount_out_min,
            encrypted_token_in,
            encrypted_token_out,
            encrypted_nonce,
        );
        (
            DexView {
                tokens: s.tokens,
                wallets: s.wallets.insert(wallet_address(payer, nonce), w),
                settlements: s.settlements,
            },
            Ok(
                TempWalletCreated {
                    user: payer,
                    token_in: token_in_mint,
                    token_out: token_out_mint,
                    amount: amount_in,
                    nonce,
                },
            ),
        )
    }
}

/// An inactive settlement record freshly stamped with its public nonce; its
/// numeric fields stay meaningless zeros until activation.
pub open spec fn blank_settlement(nonce: u64) -> SettlementRequest {
    SettlementRequest {
        amount_in: 0,
        min_out: 0,
        token_in: 0,
        token_out: 0,
        nonce,
        active: false,
    }
}

/// The settlement map after a submission step: the target record is created
/// inactive at the nonce's derived address if it is not already there; an
/// existing record is left untouched.
pub open spec fn settlements_after_submit(settlements: Map<u64, SettlementRequest>, nonce: u64) -> Map<
    u64,
    SettlementRequest,
> {
    if settlements.contains_key(spec_settlement_address(nonce)) {
        settlements
    } else {
        settlements.insert(spec_settlement_address(nonce), blank_settlement(nonce))
    }
}

/// Submission of an encrypted order under a caller-chosen ticket: makes
/// sure the target settlement record exists (inactive, stamped with the
/// public nonce) and hands the five ciphertexts to the external service.
/// The call never blocks on the result; it arrives later through
/// `spec_match_order_callback`.
pub open spec fn spec_place_order(
    s: DexView,
    computation_offset: u64,
    amount_in: [u8; 32],
    amount_out_min: [u8; 32],
    token_in: [u8; 32],
    token_out: [u8; 32],
    nonce: [u8; 32],
    public_nonce: u64,
) -> (DexView, Result<QueuedComputation, ErrorCode>) {
    (
        DexView {
            tokens: s.tokens,
            wallets: s.wallets,
            settlements: settlements_after_submit(s.settlements, public_nonce),
        },
        Ok(
            QueuedComputation {
                ticket: computation_offset,
                encrypted_amount_in: amount_in,
                encrypted_amount_out_min: amount_out_min,
                encrypted_token_in: token_in,
                encrypted_token_out: token_out,
                encrypted_nonce: nonce,
            },
        ),
    )
}

/// Creation of a bare settlement record at the address derived from the
/// nonce, with no submission attached; rejects a replay of the nonce.
pub open spec fn spec_init_settlement_test(s: DexView, public_nonce: u64) -> (DexView, Result<
    (),
    ErrorCode,
>) {
    if s.settlements.contains_key(spec_settlement_address(public_nonce)) {
        (s, Err(ErrorCode::DuplicateOrder))
    } else {
        (
            DexView {
                tokens: s.tokens,
                wallets: s.wallets,
                settlements: s.settlements.insert(
                    spec_settlement_address(public_nonce),
                    blank_settlement(public_nonce),
                ),
            },
            Ok(()),
        )
    }
}

/// One-shot funding, fused with the submission step so that funding and
/// submission cannot be observed out of order. Succeeds exactly when the
/// wallet exists, is active, is not yet funded, and the observed custody
/// balance covers the order's input amount; then the wallet is marked
/// funded, the settlement record is created (inactive) if absent, and the
/// wallet's stored ciphertexts go out to the service under the given
/// ticket.
pub open spec fn spec_fund_and_place_order(
    s: DexView,
    user: u64,
    nonce: u64,
    balance: u64,
    computation_offset: u64,
) -> (DexView, Result<QueuedComputation, ErrorCode>) {
    if !s.wallets.contains_key(wallet_address(user, nonce)) {
        (s, Err(ErrorCode::OrderNotFound))
    } else {
        let w = s.wallets[wallet_address(user, nonce)];
        if !w.active {
            (s, Err(ErrorCode::SettlementNotActive))
        } else if w.is_funded {
            (s, Err(ErrorCode::AlreadyFunded))
        } else if balance < w.amount_in {
            (s, Err(ErrorCode::InsufficientFunds))
        } else {
            (
                DexView {
                    tokens: s.tokens,
                    wallets: s.wallets.insert(
                        wallet_address(user, nonce),
                        TempWallet { is_funded: true, ..w },
                    ),
                    settlements: settlements_after_submit(s.settlements, w.nonce),
                },
                Ok(
                    QueuedComputation {
                        ticket: computation_offset,
                        encrypted_amount_in: w.encrypted_amount_in,
                        encrypted_amount_out_min: w.encrypted_amount_out_min,
                        encrypted_token_in: w.encrypted_token_in,
                        encrypted_token_out: w.encrypted_token_out,
                        encrypted_nonce: w.encrypted_nonce,
                    },
                ),
            )
        }
    }
}

/// The settlement record as activation writes it: the decrypted terms
/// become authoritative and the record turns into the single-use permission
/// slip for one swap execution.
pub open spec fn activated_settlement(o: SwapOrder) -> SettlementRequest {
    SettlementRequest {
        amount_in: o.amount_in,
        min_out: o.amount_out_min,
        token_in: o.token_in,
        token_out: o.token_out,
        nonce: o.nonce,
        active: true,
    }
}

/// The asynchronous callback from the confidential-computation service.
/// An abort changes nothing. A delivered result is validated in order: the
/// decrypted amount must be positive; the settlement address recomputed
/// from the decrypted nonce must be the address the caller presented (the
/// authentication step that keeps a crafted or replayed callback from
/// activating a mismatched record); a record must exist there; and that
/// record must still be inactive — activation is one-shot, so a delivery
/// against an already-active record is a replay and must not touch the
/// authoritative terms. Only then are the decrypted terms written and the
/// record activated, and the plaintext terms become publicly observable in
/// the returned notification.
pub open spec fn spec_match_order_callback(
    s: DexView,
    output: ComputationOutput,
    presented: u64,
) -> (DexView, Result<OrderSettledEvent, ErrorCode>) {
    match output {
        ComputationOutput::Aborted => (s, Err(ErrorCode::AbortedComputation)),
        ComputationOutput::Success(o) => {
            if o.amount_in == 0 {
                (s, Err(ErrorCode::InvalidOrderAmount))
            } else if spec_settlement_address(o.nonce) != presented {
                (s, Err(ErrorCode::InvalidSettlementPDA))
            } else if !s.settlements.contains_key(presented) {
                (s, Err(ErrorCode::SettlementNotFound))
            } else if s.settlements[presented].active {
                (s, Err(ErrorCode::AlreadySettled))
            } else {
                (
                    DexView {
                        tokens: s.tokens,
                        wallets: s.wallets,
                        settlements: s.settlements.insert(presented, activated_settlement(o)),
                    },
                    Ok(
                        OrderSettledEvent {
                            amount_in: o.amount_in,
                            min_out: o.amount_out_min,
                            token_in: o.token_in,
                            token_out: o.token_out,
                            nonce: o.nonce,
                        },
                    ),
                )
            }
        },
    }
}

/// The unguarded activation path: overwrites an existing settlement record
/// with the given plaintext terms and activates it, skipping the service
/// and its validation. Exists only to stand in for the callback.
pub open spec fn spec_simulate_match_order(
    s: DexView,
    amount_in: u64,
    amount_out_min: u64,
    token_in: u64,
    token_out: u64,
    nonce: u64,
) -> (DexView, Result<OrderSettledEvent, ErrorCode>) {
    let addr = spec_settlement_address(nonce);
    if !s.settlements.contains_key(addr) {
        (s, Err(ErrorCode::SettlementNotFound))
    } else {
        let o = SwapOrder { amount_in, amount_out_min, token_in, token_out, nonce };
        (
            DexView {
                tokens: s.tokens,
                wallets: s.wallets,
                settlements: s.settlements.insert(addr, activated_settlement(o)),
            },
            Ok(
                OrderSettledEvent {
                    amount_in,
                    min_out: amount_out_min,
                    token_in,
                    token_out,
                    nonce,
                },
            ),
        )
    }
}

/// Whether a settlement record currently authorizes a swap execution for
/// this nonce.
pub open spec fn settlement_active(s: DexView, nonce: u64) -> bool {
    &&& s.settlements.contains_key(spec_settlement_address(nonce))
    &&& s.settlements[spec_settlement_address(nonce)].active
}

/// One-shot execution against the external swap router. The record must be
/// active; its deactivation and the router call form one indivisible
/// transition, so a router failure leaves the record active and retryable
/// (`router_ok` is whether the router call came back successful), while
/// success consumes and destroys the record so no second execution can
/// observe it. No local check holds the fill to the recorded minimum
/// output: a route that would fill below it is the router's own to revert.
pub open spec fn spec_execute_swap(s: DexView, nonce: u64, router_ok: bool) -> (DexView, Result<
    (),
    ErrorCode,
>) {
    if !settlement_active(s, nonce) {
        (s, Err(ErrorCode::SettlementNotActive))
    } else if !router_ok {
        (s, Err(ErrorCode::RouterFailed))
    } else {
        (
            DexView {
                tokens: s.tokens,
                wallets: s.wallets,
                settlements: s.settlements.remove(spec_settlement_address(nonce)),
            },
            Ok(()),
        )
    }
}

/// The execution path with the router call skipped: consumes an active
/// record unconditionally, as `spec_execute_swap` does when the router
/// reports success.
pub open spec fn spec_execute_swap_test(s: DexView, nonce: u64) -> (DexView, Result<
    (),
    ErrorCode,
>) {
    spec_execute_swap(s, nonce, true)
}

/// The terminal transition of a custody wallet: callable at any point of
/// its life, regardless of settlement outcome. The caller must own a wallet
/// at the derived address; the whole observed residue of the output-asset
/// sub-account is returned (the transfer the runtime owes the owner), and
/// the wallet is destroyed.
pub open spec fn spec_return_tokens_to_user(
    s: DexView,
    user: u64,
    nonce: u64,
    out_balance: u64,
) -> (DexView, Result<u64, ErrorCode>) {
    if !s.wallets.contains_key(wallet_address(user, nonce)) {
        (s, Err(ErrorCode::OwnerMismatch))
    } else {
        (
            DexView {
                tokens: s.tokens,
                wallets: s.wallets.remove(wallet_address(user, nonce)),
                settlements: s.settlements,
            },
            Ok(out_balance),
        )
    }
}

} // verus!
