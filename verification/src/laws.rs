use vstd::prelude::*;

use crate::error::ErrorCode;
use crate::protocol::empty_view;
use crate::protocol::fresh_wallet;
use crate::protocol::settlement_active;
use crate::protocol::spec_create_private_swap;
use crate::protocol::spec_execute_swap;
use crate::protocol::spec_fund_and_place_order;
use crate::protocol::spec_init_settlement_test;
use crate::protocol::spec_match_order_callback;
use crate::protocol::spec_place_order;
use crate::protocol::spec_register_token;
use crate::protocol::spec_return_tokens_to_user;
use crate::protocol::spec_settlement_address;
use crate::protocol::spec_simulate_match_order;
use crate::protocol::view_invariant;
use crate::protocol::wallet_address;
use crate::protocol::DexView;
use crate::types::ComputationOutput;
use crate::types::OrderSettledEvent;
use crate::types::QueuedComputation;
use crate::types::SwapOrder;
use crate::types::TempWalletCreated;

verus! {

// What the protocol guarantees across operations, each stated over the
// abstract transitions that every executable operation is proved to refine.

/// Law: order creation is replay-guarded by the derived address. Once
/// `create_private_swap` has succeeded for an `(owner, nonce)` pair, a
/// second creation under the same pair — whatever its other arguments —
/// fails with `DuplicateOrder`, changes nothing, and the wallet observable
/// at the derived address is still exactly the one the first call wrote.
pub proof fn lemma_create_order_replay_guard(
    s: DexView,
    payer: u64,
    token_in_mint: u64,
    token_out_mint: u64,
    amount_in: u64,
    min_out: u64,
    nonce: u64,
    computation_offset: u64,
    encrypted_amount_in: [u8; 32],
    encrypted_amount_out_min: [u8; 32],
    encrypted_token_in: [u8; 32],
    encrypted_token_out: [u8; 32],
    encrypted_nonce: [u8; 32],
    token_in_mint2: u64,
    token_out_mint2: u64,
    amount_in2: u64,
    min_out2: u64,
    computation_offset2: u64,
    encrypted_amount_in2: [u8; 32],
    encrypted_amount_out_min2: [u8; 32],
    encrypted_token_in2: [u8; 32],
    encrypted_token_out2: [u8; 32],
    encrypted_nonce2: [u8; 32],
)
    ensures
        ({
            let (s1, r1) = spec_create_private_swap(
                s,
                payer,
                token_in_mint,
                token_out_mint,
                amount_in,
                min_out,
                nonce,
                computation_offset,
                encrypted_amount_in,
                encrypted_amount_out_min,
                encrypted_token_in,
                encrypted_token_out,
                encrypted_nonce,
            );
            let (s2, r2) = spec_create_private_swap(
                s1,
                payer,
                token_in_mint2,
                token_out_mint2,
                amount_in2,
                min_out2,
                nonce,
                computation_offset2,
                encrypted_amount_in2,
                encrypted_amount_out_min2,
                encrypted_token_in2,
                encrypted_token_out2,
                encrypted_nonce2,
            );
            r1 is Ok ==> {
                &&& r2 == Err::<TempWalletCreated, ErrorCode>(
                    ErrorCode::DuplicateOrder,
                )
                &&& s2 == s1
                &&& s1.wallets[wallet_address(payer, nonce)] == fresh_wallet(
                    payer,
                    token_in_mint,
                    token_out_mint,
                    amount_in,
                    min_out,
                    nonce,
                    computation_offset,
                    encrypted_amount_in,
                    encrypted_amount_out_min,
                    encrypted_token_in,
                    encrypted_token_out,
                    encrypted_nonce,
                )
            }
        }),
{
}

/// Law: funding is one-shot and exactly conditioned. `fund_and_place_order`
/// succeeds precisely when the wallet exists at the derived address, its
/// escrow is open, it has never been funded, and the observed balance
/// covers the order's input amount; after a success the wallet is marked
/// funded and any further funding attempt — whatever balance or ticket it
/// brings — fails with `AlreadyFunded` and changes nothing.
pub proof fn lemma_fund_exactly_once(
    s: DexView,
    user: u64,
    nonce: u64,
    balance: u64,
    computation_offset: u64,
    balance2: u64,
    computation_offset2: u64,
)
    ensures
        ({
            let k = wallet_address(user, nonce);
            let (s1, r1) = spec_fund_and_place_order(s, user, nonce, balance, computation_offset);
            &&& (r1 is Ok <==> s.wallets.contains_key(k) && s.wallets[k].active
                && !s.wallets[k].is_funded && balance >= s.wallets[k].amount_in)
            &&& r1 is Ok ==> {
                let (s2, r2) = spec_fund_and_place_order(
                    s1,
                    user,
                    nonce,
                    balance2,
                    computation_offset2,
                );
                &&& s1.wallets[k].is_funded
                &&& r2 == Err::<QueuedComputation, ErrorCode>(
                    ErrorCode::AlreadyFunded,
                )
                &&& s2 == s1
            }
        }),
{
}

/// Law: a settlement record authorizes exactly one execution. With a
/// successful router call, `execute_swap` succeeds precisely when the
/// record for the nonce is active; the success destroys the record, and a
/// repeat execution against the same nonce — whatever its router outcome —
/// fails with `SettlementNotActive` and changes nothing.
pub proof fn lemma_execute_exactly_once(s: DexView, nonce: u64, router_ok2: bool)
    ensures
        ({
            let (s1, r1) = spec_execute_swap(s, nonce, true);
            &&& (r1 is Ok <==> settlement_active(s, nonce))
            &&& r1 is Ok ==> {
                let (s2, r2) = spec_execute_swap(s1, nonce, router_ok2);
                &&& !s1.settlements.contains_key(spec_settlement_address(nonce))
                &&& r2 == Err::<(), ErrorCode>(ErrorCode::SettlementNotActive)
                &&& s2 == s1
            }
        }),
{
}

/// Law: a router failure rolls the execution back whole. When the router
/// reverts, `execute_swap` leaves the state exactly as it found it — in
/// particular, an active settlement record is observed still active (and
/// so still retryable) afterwards.
pub proof fn lemma_execute_router_failure_rollback(s: DexView, nonce: u64)
    ensures
        ({
            let (s1, r1) = spec_execute_swap(s, nonce, false);
            &&& s1 == s
            &&& !(r1 is Ok)
            &&& settlement_active(s, nonce) ==> r1 == Err::<(), ErrorCode>(ErrorCode::RouterFailed)
                && settlement_active(s1, nonce)
        }),
{
}

/// Law: the callback authenticates its target by address recomputation.
/// Whenever the address derived from the decrypted nonce is not the
/// presented settlement address, a delivered result is rejected with
/// `InvalidSettlementPDA` and the state is untouched — for any such
/// mismatch. (A result whose decrypted amount is zero is rejected first,
/// as `InvalidOrderAmount`, so it is excluded here.)
pub proof fn lemma_callback_pda_authentication(s: DexView, o: SwapOrder, presented: u64)
    requires
        o.amount_in > 0,
        spec_settlement_address(o.nonce) != presented,
    ensures
        spec_match_order_callback(s, ComputationOutput::Success(o), presented) == (
            s,
            Err::<OrderSettledEvent, ErrorCode>(ErrorCode::InvalidSettlementPDA),
        ),
{
}

/// Law: a settlement record is activated exactly once. Once a delivered
/// result has activated the record at an address, no later delivery
/// against that address changes anything: every one is rejected, and one
/// that would otherwise be valid — a positive decrypted amount whose nonce
/// derives the same address — is rejected as the replay it is, with
/// `AlreadySettled`, leaving the authoritative terms untouched.
pub proof fn lemma_activation_exactly_once(
    s: DexView,
    output: ComputationOutput,
    presented: u64,
    output2: ComputationOutput,
)
    ensures
        ({
            let (s1, r1) = spec_match_order_callback(s, output, presented);
            r1 is Ok ==> {
                let (s2, r2) = spec_match_order_callback(s1, output2, presented);
                &&& s2 == s1
                &&& !(r2 is Ok)
                &&& (output2 matches ComputationOutput::Success(o2) && o2.amount_in > 0
                    && spec_settlement_address(o2.nonce) == presented) ==> r2 == Err::<
                    OrderSettledEvent,
                    ErrorCode,
                >(ErrorCode::AlreadySettled)
            }
        }),
{
}

/// Law: the refund path is unconditionally available and terminal. At any
/// point of a custody wallet's life — funded or not, settled or not — its
/// owner can drain and close it: the whole observed residue of the
/// output-asset sub-account is returned for transfer to the owner, the
/// wallet is destroyed, and nothing else on the ledger moves.
pub proof fn lemma_drain_always_closes(s: DexView, user: u64, nonce: u64, out_balance: u64)
    requires
        s.wallets.contains_key(wallet_address(user, nonce)),
    ensures
        ({
            let (s1, r1) = spec_return_tokens_to_user(s, user, nonce, out_balance);
            &&& r1 == Ok::<u64, ErrorCode>(out_balance)
            &&& !s1.wallets.contains_key(wallet_address(user, nonce))
            &&& s1.settlements == s.settlements
            &&& s1.tokens == s.tokens
        }),
{
}

// The shape invariants of the data model — every record at its own derived
// address, wallets active for life, inactive settlement fields meaningless
// zeros — hold of the empty ledger and are preserved by every transition,
// so they hold of every reachable state.

/// The empty ledger satisfies the shape invariants.
pub proof fn lemma_empty_view_invariant()
    ensures
        view_invariant(empty_view()),
{
}

/// Registering a token preserves the shape invariants.
pub proof fn lemma_register_token_preserves_invariant(s: DexView, mint: u64, id: u64)
    requires
        view_invariant(s),
    ensures
        view_invariant(spec_register_token(s, mint, id).0),
{
}

/// Order creation preserves the shape invariants.
pub proof fn lemma_create_preserves_invariant(
    s: DexView,
    payer: u64,
    token_in_mint: u64,
    token_out_mint: u64,
    amount_in: u64,
    min_out: u64,
    nonce: u64,
    computation_offset: u64,
    encrypted_amount_in: [u8; 32],
    encrypted_amount_out_min: [u8; 32],
    encrypted_token_in: [u8; 32],
    encrypted_token_out: [u8; 32],
    encrypted_nonce: [u8; 32],
)
    requires
        view_invariant(s),
    ensures
        view_invariant(
            spec_create_private_swap(
                s,
                payer,
                token_in_mint,
                token_out_mint,
                amount_in,
                min_out,
                nonce,
                computation_offset,
                encrypted_amount_in,
                encrypted_amount_out_min,
                encrypted_token_in,
                encrypted_token_out,
                encrypted_nonce,
            ).0,
        ),
{
}

/// Submission preserves the shape invariants.
pub proof fn lemma_place_order_preserves_invariant(
    s: DexView,
    computation_offset: u64,
    amount_in: [u8; 32],
    amount_out_min: [u8; 32],
    token_in: [u8; 32],
    token_out: [u8; 32],
    nonce: [u8; 32],
    public_nonce: u64,
)
    requires
        view_invariant(s),
    ensures
        view_invariant(
            spec_place_order(
                s,
                computation_offset,
                amount_in,
                amount_out_min,
                token_in,
                token_out,
                nonce,
                public_nonce,
            ).0,
        ),
{
}

/// Bare settlement creation preserves the shape invariants.
pub proof fn lemma_init_settlement_preserves_invariant(s: DexView, public_nonce: u64)
    requires
        view_invariant(s),
    ensures
        view_invariant(spec_init_settlement_test(s, public_nonce).0),
{
}

/// Funding preserves the shape invariants.
pub proof fn lemma_fund_preserves_invariant(
    s: DexView,
    user: u64,
    nonce: u64,
    balance: u64,
    computation_offset: u64,
)
    requires
        view_invariant(s),
    ensures
        view_invariant(spec_fund_and_place_order(s, user, nonce, balance, computation_offset).0),
{
}

/// The callback preserves the shape invariants.
pub proof fn lemma_callback_preserves_invariant(
    s: DexView,
    output: ComputationOutput,
    presented: u64,
)
    requires
        view_invariant(s),
    ensures
        view_invariant(spec_match_order_callback(s, output, presented).0),
{
}

/// The unguarded activation path preserves the shape invariants.
pub proof fn lemma_simulate_preserves_invariant(
    s: DexView,
    amount_in: u64,
    amount_out_min: u64,
    token_in: u64,
    token_out: u64,
    nonce: u64,
)
    requires
        view_invariant(s),
    ensures
        view_invariant(
            spec_simulate_match_order(s, amount_in, amount_out_min, token_in, token_out, nonce).0,
        ),
{
}

/// Execution preserves the shape invariants.
pub proof fn lemma_execute_preserves_invariant(s: DexView, nonce: u64, router_ok: bool)
    requires
        view_invariant(s),
    ensures
        view_invariant(spec_execute_swap(s, nonce, router_ok).0),
{
}

/// The refund path preserves the shape invariants.
pub proof fn lemma_drain_preserves_invariant(s: DexView, user: u64, nonce: u64, out_balance: u64)
    requires
        view_invariant(s),
    ensures
        view_invariant(spec_return_tokens_to_user(s, user, nonce, out_balance).0),
{
}

} // verus!
