use vstd::prelude::*;

use crate::addressed::keyed_map;
use crate::addressed::keys_unique;
use crate::addressed::lemma_keyed_map_contains;
use crate::addressed::lemma_keyed_map_index;
use crate::addressed::lemma_keyed_map_push;
use crate::addressed::lemma_keyed_map_remove;
use crate::addressed::lemma_keyed_map_update;
use crate::addressed::lemma_keys_unique_push;
use crate::error::ErrorCode;
use crate::protocol::activated_settlement;
use crate::protocol::blank_settlement;
use crate::protocol::empty_view;
use crate::protocol::fresh_wallet;
use crate::protocol::settlements_after_submit;
use crate::protocol::spec_create_private_swap;
use crate::protocol::spec_execute_swap;
use crate::protocol::spec_execute_swap_test;
use crate::protocol::spec_fund_and_place_order;
use crate::protocol::spec_init_settlement_test;
use crate::protocol::spec_match_order_callback;
use crate::protocol::spec_place_order;
use crate::protocol::spec_register_token;
use crate::protocol::spec_return_tokens_to_user;
use crate::protocol::spec_settlement_address;
use crate::protocol::spec_simulate_match_order;
use crate::protocol::wallet_address;
use crate::protocol::DexView;
use crate::types::ComputationOutput;
use crate::types::OrderSettledEvent;
use crate::types::QueuedComputation;
use crate::types::SettlementRequest;
use crate::types::SwapOrder;
use crate::types::TempWallet;
use crate::types::TempWalletCreated;
use crate::types::TokenMapping;

verus! {

/// The address a token mapping is stored under: its numeric id.
pub open spec fn token_key_fn() -> spec_fn(TokenMapping) -> u64 {
    |m: TokenMapping| m.id
}

/// The address a custody wallet is stored under: derived from its owner and
/// nonce.
pub open spec fn wallet_key_fn() -> spec_fn(TempWallet) -> (u64, u64) {
    |w: TempWallet| wallet_address(w.user, w.nonce)
}

/// The address a settlement record is stored under: derived from its nonce.
pub open spec fn settlement_key_fn() -> spec_fn(SettlementRequest) -> u64 {
    |r: SettlementRequest| spec_settlement_address(r.nonce)
}

/// The protocol's ledger state: every live record the protocol owns. The
/// backing vectors are unordered storage; what a record can be found by is
/// only its derived address, which is what the view exposes.
pub struct Dex {
    tokens: Vec<TokenMapping>,
    wallets: Vec<TempWallet>,
    settlements: Vec<SettlementRequest>,
}

impl View for Dex {
    type V = DexView;

    /// The content-addressed maps the stored records amount to.
    closed spec fn view(&self) -> DexView {
        DexView {
            tokens: keyed_map(self.tokens@, token_key_fn()),
            wallets: keyed_map(self.wallets@, wallet_key_fn()),
            settlements: keyed_map(self.settlements@, settlement_key_fn()),
        }
    }
}

impl Dex {
    /// Internal invariant: no two records share a derived address, exactly
    /// what deterministic address derivation enforces on the real ledger.
    pub closed spec fn wf(&self) -> bool {
        &&& keys_unique(self.tokens@, token_key_fn())
        &&& keys_unique(self.wallets@, wallet_key_fn())
        &&& keys_unique(self.settlements@, settlement_key_fn())
    }

    /// A ledger the protocol has not written to yet.
    pub fn new() -> (d: Dex)
        ensures
            d.wf(),
            d@ == empty_view(),
    {
        let d = Dex { tokens: Vec::new(), wallets: Vec::new(), settlements: Vec::new() };
        proof {
            assert(d@ =~= empty_view());
        }
        d
    }

    /// Where the mapping for this id sits in storage, if anywhere.
    fn find_token(&self, id: u64) -> (r: Option<usize>)
        ensures
            match r {
                Some(i) => i < self.tokens@.len() && self.tokens@[i as int].id == id,
                None => forall|j: int| 0 <= j < self.tokens@.len() ==> self.tokens@[j].id != id,
            },
    {
        let n = self.tokens.len();
        let mut idx: usize = 0;
        while idx < n
            invariant
                idx <= n,
                n == self.tokens@.len(),
                forall|j: int| 0 <= j < idx ==> self.tokens@[j].id != id,
            decreases n - idx,
        {
            if self.tokens[idx].id == id {
                return Some(idx);
            }
            idx = idx + 1;
        }
        None
    }

    /// Where the custody wallet for `(user, nonce)` sits in storage, if
    /// anywhere.
    fn find_wallet(&self, user: u64, nonce: u64) -> (r: Option<usize>)
        ensures
            match r {
                Some(i) => i < self.wallets@.len() && self.wallets@[i as int].user == user
                    && self.wallets@[i as int].nonce == nonce,
                None => forall|j: int|
                    0 <= j < self.wallets@.len() ==> !(self.wallets@[j].user == user
                        && self.wallets@[j].nonce == nonce),
            },
    {
        let n = self.wallets.len();
        let mut idx: usize = 0;
        while idx < n
            invariant
                idx <= n,
                n == self.wallets@.len(),
                forall|j: int|
                    0 <= j < idx ==> !(self.wallets@[j].user == user && self.wallets@[j].nonce
                        == nonce),
            decreases n - idx,
        {
            if self.wallets[idx].user == user && self.wallets[idx].nonce == nonce {
                return Some(idx);
            }
            idx = idx + 1;
        }
        None
    }

    /// Where the settlement record addressed by `addr` sits in storage, if
    /// anywhere.
    fn find_settlement(&self, addr: u64) -> (r: Option<usize>)
        ensures
            match r {
                Some(i) => i < self.settlements@.len() && spec_settlement_address(
                    self.settlements@[i as int].nonce,
                ) == addr,
                None => forall|j: int|
                    0 <= j < self.settlements@.len() ==> spec_settlement_address(
                        self.settlements@[j].nonce,
                    ) != addr,
            },
    {
        let n = self.settlements.len();
        let mut idx: usize = 0;
        while idx < n
            invariant
                idx <= n,
                n == self.settlements@.len(),
                forall|j: int|
                    0 <= j < idx ==> spec_settlement_address(self.settlements@[j].nonce) != addr,
            decreases n - idx,
        {
            if self.settlements[idx].nonce == addr {
                return Some(idx);
            }
            idx = idx + 1;
        }
        None
    }

    /// Administrative registration of an asset under a numeric id. The
    /// mapping is immutable once created; a second registration of the same
    /// id is the duplicate the derived address rejects.
    pub fn register_token(&mut self, mint: u64, id: u64) -> (r: Result<(), ErrorCode>)
        requires
            old(self).wf(),
        ensures
            final(self).wf(),
            (final(self)@, r) == spec_register_token(old(self)@, mint, id),
    {
        proof {
            lemma_keyed_map_contains(self.tokens@, token_key_fn(), id);
        }
        match self.find_token(id) {
            Some(_) => Err(ErrorCode::DuplicateMapping),
            None => {
                let ghost pre = *self;
                let m = TokenMapping { mint, id };
                self.tokens.push(m);
                proof {
                    lemma_keyed_map_push(pre.tokens@, token_key_fn(), m);
                    lemma_keys_unique_push(pre.tokens@, token_key_fn(), m);
                    assert(self@ =~= spec_register_token(pre@, mint, id).0);
                }
                Ok(())
            },
        }
    }

    /// Order creation: the caller takes a fresh `(payer, nonce)` pair and a
    /// custody wallet comes to life at the derived address, escrow open and
    /// unfunded, with the encrypted order payload stored write-once. The
    /// derived address is the replay guard: a second creation under the same
    /// pair is rejected and nothing changes.
    pub fn create_private_swap(
        &mut self,
        payer: u64,
        token_in_mint: u64,
        token_out_mint: u64,
        amount_in: u64,
        min_out: u64,
        nonce: u64,
        computation_offset: u64,
        encrypted_amount_in: [u8; 32],
        encrypted_amount_out_min: [u8; 32],
        encrypted_token_in: [u8; 32],
        encrypted_token_out: [u8; 32],
        encrypted_nonce: [u8; 32],
    ) -> (r: Result<TempWalletCreated, ErrorCode>)
        requires
            old(self).wf(),
        ensures
            final(self).wf(),
            (final(self)@, r) == spec_create_private_swap(
                old(self)@,
                payer,
                token_in_mint,
                token_out_mint,
                amount_in,
                min_out,
                nonce,
                computation_offset,
                encrypted_amount_in,
                encrypted_amount_out_min,
                encrypted_token_in,
                encrypted_token_out,
                encrypted_nonce,
            ),
    {
        proof {
            lemma_keyed_map_contains(self.wallets@, wallet_key_fn(), wallet_address(payer, nonce));
        }
        match self.find_wallet(payer, nonce) {
            Some(_) => Err(ErrorCode::DuplicateOrder),
            None => {
                let ghost pre = *self;
                let w = TempWallet {
                    user: payer,
                    token_in_mint,
                    token_out_mint,
                    amount_in,
                    min_out,
                    nonce,
                    active: true,
                    is_funded: false,
                    computation_offset,
                    encrypted_amount_in,
                    encrypted_amount_out_min,
                    encrypted_token_in,
                    encrypted_token_out,
                    encrypted_nonce,
                };
                self.wallets.push(w);
                proof {
                    assert(w == fresh_wallet(
                        payer,
                        token_in_mint,
                        token_out_mint,
                        amount_in,
                        min_out,
                        nonce,
                        computation_offset,
                        encrypted_amount_in,
                        encrypted_amount_out_min,
                        encrypted_token_in,
                        encrypted_token_out,
                        encrypted_nonce,
                    ));
                    lemma_keyed_map_push(pre.wallets@, wallet_key_fn(), w);
                    lemma_keys_unique_push(pre.wallets@, wallet_key_fn(), w);
                    assert(self@ =~= spec_create_private_swap(
                        pre@,
                        payer,
                        token_in_mint,
                        token_out_mint,
                        amount_in,
                        min_out,
                        nonce,
                        computation_offset,
                        encrypted_amount_in,
                        encrypted_amount_out_min,
                        encrypted_token_in,
                        encrypted_token_out,
                        encrypted_nonce,
                    ).0);
                }
                Ok(
                    TempWalletCreated {
                        user: payer,
                        token_in: token_in_mint,
                        token_out: token_out_mint,
                        amount: amount_in,
                        nonce,
                    },
                )
            },
        }
    }

    /// The refund path and terminal transition of a custody wallet, open at
    /// every point of the wallet's life: whatever residue the wallet's
    /// output-asset sub-account holds (`out_balance`, as the runtime
    /// observes it) is owed back to the owner in full — that amount is the
    /// returned value — and the wallet is destroyed. A caller who owns no
    /// wallet at the derived address is turned away with nothing changed.
    pub fn return_tokens_to_user(&mut self, user: u64, nonce: u64, out_balance: u64) -> (r: Result<
        u64,
        ErrorCode,
    >)
        requires
            old(self).wf(),
        ensures
            final(self).wf(),
            (final(self)@, r) == spec_return_tokens_to_user(old(self)@, user, nonce, out_balance),
    {
        proof {
            lemma_keyed_map_contains(self.wallets@, wallet_key_fn(), wallet_address(user, nonce));
        }
        match self.find_wallet(user, nonce) {
            None => Err(ErrorCode::OwnerMismatch),
            Some(i) => {
                let ghost pre = *self;
                proof {
                    lemma_keyed_map_index(pre.wallets@, wallet_key_fn(), i as int);
                }
                let _ = self.wallets.remove(i);
                proof {
                    lemma_keyed_map_remove(pre.wallets@, wallet_key_fn(), i as int);
                    assert(self@ =~= spec_return_tokens_to_user(pre@, user, nonce, out_balance).0);
                }
                Ok(out_balance)
            },
        }
    }

    /// Makes sure the settlement record for `public_nonce` exists, inactive
    /// and stamped with that nonce, creating it at the derived address if it
    /// is absent and leaving an existing one untouched.
    fn ensure_settlement(&mut self, public_nonce: u64)
        requires
            old(self).wf(),
        ensures
            final(self).wf(),
            final(self)@.tokens == old(self)@.tokens,
            final(self)@.wallets == old(self)@.wallets,
            final(self)@.settlements == settlements_after_submit(
                old(self)@.settlements,
                public_nonce,
            ),
    {
        let addr = settlement_address(public_nonce);
        proof {
            lemma_keyed_map_contains(self.settlements@, settlement_key_fn(), addr);
        }
        match self.find_settlement(addr) {
            Some(_) => {
            },
            None => {
                let ghost pre = *self;
                let rec = SettlementRequest {
                    amount_in: 0,
                    min_out: 0,
                    token_in: 0,
                    token_out: 0,
                    nonce: public_nonce,
                    active: false,
                };
                self.settlements.push(rec);
                proof {
                    assert(rec == blank_settlement(public_nonce));
                    lemma_keyed_map_push(pre.settlements@, settlement_key_fn(), rec);
                    lemma_keys_unique_push(pre.settlements@, settlement_key_fn(), rec);
                }
            },
        }
    }

    /// Submission of an already-encrypted order under a caller-chosen
    /// ticket. The target settlement record is brought into existence
    /// (inactive) at the address derived from the public nonce, and the
    /// returned submission — the five ciphertexts in their fixed order,
    /// under the ticket — is what the runtime must forward to the
    /// confidential-computation service. The call never waits for the
    /// result: it arrives later, through `match_order_callback`.
    pub fn place_order(
        &mut self,
        computation_offset: u64,
        amount_in: [u8; 32],
        amount_out_min: [u8; 32],
        token_in: [u8; 32],
        token_out: [u8; 32],
        nonce: [u8; 32],
        public_nonce: u64,
    ) -> (r: Result<QueuedComputation, ErrorCode>)
        requires
            old(self).wf(),
        ensures
            final(self).wf(),
            (final(self)@, r) == spec_place_order(
                old(self)@,
                computation_offset,
                amount_in,
                amount_out_min,
                token_in,
                token_out,
                nonce,
                public_nonce,
            ),
    {
        let ghost pre = *self;
        self.ensure_settlement(public_nonce);
        proof {
            assert(self@ =~= spec_place_order(
                pre@,
                computation_offset,
                amount_in,
                amount_out_min,
                token_in,
                token_out,
                nonce,
                public_nonce,
            ).0);
        }
        Ok(
            QueuedComputation {
                ticket: computation_offset,
                encrypted_amount_in: amount_in,
                encrypted_amount_out_min: amount_out_min,
                encrypted_token_in: token_in,
                encrypted_token_out: token_out,
                encrypted_nonce: nonce,
            },
        )
    }

    /// Creation of a bare, inactive settlement record at the address derived
    /// from the nonce, with no submission attached; the derived address
    /// rejects a second creation under the same nonce.
    pub fn init_settlement_test(&mut self, public_nonce: u64) -> (r: Result<(), ErrorCode>)
        requires
            old(self).wf(),
        ensures
            final(self).wf(),
            (final(self)@, r) == spec_init_settlement_test(old(self)@, public_nonce),
    {
        let addr = settlement_address(public_nonce);
        proof {
            lemma_keyed_map_contains(self.settlements@, settlement_key_fn(), addr);
        }
        match self.find_settlement(addr) {
            Some(_) => Err(ErrorCode::DuplicateOrder),
            None => {
                let ghost pre = *self;
                let rec = SettlementRequest {
                    amount_in: 0,
                    min_out: 0,
                    token_in: 0,
                    token_out: 0,
                    nonce: public_nonce,
                    active: false,
                };
                self.settlements.push(rec);
                proof {
                    assert(rec == blank_settlement(public_nonce));
                    lemma_keyed_map_push(pre.settlements@, settlement_key_fn(), rec);
                    lemma_keys_unique_push(pre.settlements@, settlement_key_fn(), rec);
                    assert(self@ =~= spec_init_settlement_test(pre@, public_nonce).0);
                }
                Ok(())
            },
        }
    }

    /// One-shot execution against the external swap router. Requires an
    /// active settlement record for the nonce; the record is deactivated
    /// and destroyed in the same indivisible transition that the router call
    /// belongs to, so with `router_ok == false` (the router reverted) the
    /// whole step is rolled back and the record stays active and retryable,
    /// while success leaves no record for a second execution to observe.
    pub fn execute_swap(&mut self, nonce: u64, router_ok: bool) -> (r: Result<(), ErrorCode>)
        requires
            old(self).wf(),
        ensures
            final(self).wf(),
            (final(self)@, r) == spec_execute_swap(old(self)@, nonce, router_ok),
    {
        let addr = settlement_address(nonce);
        proof {
            lemma_keyed_map_contains(self.settlements@, settlement_key_fn(), addr);
        }
        match self.find_settlement(addr) {
            None => Err(ErrorCode::SettlementNotActive),
            Some(i) => {
                proof {
                    lemma_keyed_map_index(self.settlements@, settlement_key_fn(), i as int);
                }
                if !self.settlements[i].active {
                    Err(ErrorCode::SettlementNotActive)
                } else if !router_ok {
                    Err(ErrorCode::RouterFailed)
                } else {
                    let ghost pre = *self;
                    let _ = self.settlements.remove(i);
                    proof {
                        lemma_keyed_map_remove(pre.settlements@, settlement_key_fn(), i as int);
                        assert(self@ =~= spec_execute_swap(pre@, nonce, router_ok).0);
                    }
                    Ok(())
                }
            },
        }
    }

    /// The execution path with the router call skipped: consumes an active
    /// settlement record unconditionally, exactly as `execute_swap` does
    /// when the router reports success.
    pub fn execute_swap_test(&mut self, nonce: u64) -> (r: Result<(), ErrorCode>)
        requires
            old(self).wf(),
        ensures
            final(self).wf(),
            (final(self)@, r) == spec_execute_swap_test(old(self)@, nonce),
    {
        self.execute_swap(nonce, true)
    }

    /// The asynchronous callback from the confidential-computation service,
    /// invoked by the service's runtime, never by this protocol's own call
    /// chain. An abort is propagated verbatim with nothing consumed. A
    /// delivered result is validated in order: a zero decrypted amount is
    /// rejected; then the settlement address recomputed from the decrypted
    /// nonce must equal the presented one — the authentication step that
    /// keeps a crafted or replayed callback from activating a mismatched
    /// record — a record must exist there, and it must still be inactive:
    /// activation is one-shot, so a repeated delivery is a replay that may
    /// not touch the authoritative terms. Only then do the decrypted terms
    /// overwrite the record's fields and activate it; the returned
    /// notification is where the terms first become publicly observable.
    pub fn match_order_callback(
        &mut self,
        output: ComputationOutput,
        settlement_request: u64,
    ) -> (r: Result<OrderSettledEvent, ErrorCode>)
        requires
            old(self).wf(),
        ensures
            final(self).wf(),
            (final(self)@, r) == spec_match_order_callback(old(self)@, output, settlement_request),
    {
        let o = match output {
            ComputationOutput::Success(o) => o,
            ComputationOutput::Aborted => {
                return Err(ErrorCode::AbortedComputation);
            },
        };
        if o.amount_in == 0 {
            return Err(ErrorCode::InvalidOrderAmount);
        }
        let expected = settlement_address(o.nonce);
        if expected != settlement_request {
            return Err(ErrorCode::InvalidSettlementPDA);
        }
        proof {
            lemma_keyed_map_contains(self.settlements@, settlement_key_fn(), settlement_request);
        }
        match self.find_settlement(settlement_request) {
            None => Err(ErrorCode::SettlementNotFound),
            Some(i) => {
                proof {
                    lemma_keyed_map_index(self.settlements@, settlement_key_fn(), i as int);
                }
                if self.settlements[i].active {
                    return Err(ErrorCode::AlreadySettled);
                }
                let ghost pre = *self;
                let rec = SettlementRequest {
                    amount_in: o.amount_in,
                    min_out: o.amount_out_min,
                    token_in: o.token_in,
                    token_out: o.token_out,
                    nonce: o.nonce,
                    active: true,
                };
                self.settlements.set(i, rec);
                proof {
                    assert(rec == activated_settlement(o));
                    lemma_keyed_map_update(pre.settlements@, settlement_key_fn(), i as int, rec);
                    assert(self@ =~= spec_match_order_callback(
                        pre@,
                        output,
                        settlement_request,
                    ).0);
                }
                Ok(
                    OrderSettledEvent {
                        amount_in: o.amount_in,
                        min_out: o.amount_out_min,
                        token_in: o.token_in,
                        token_out: o.token_out,
                        nonce: o.nonce,
                    },
                )
            },
        }
    }

    /// The unguarded activation path: overwrites an existing settlement
    /// record with the given plaintext terms and activates it, skipping the
    /// service and every validation step. Exists only to stand in for the
    /// callback where no service runs.
    pub fn simulate_match_order(
        &mut self,
        amount_in: u64,
        amount_out_min: u64,
        token_in: u64,
        token_out: u64,
        nonce: u64,
    ) -> (r: Result<OrderSettledEvent, ErrorCode>)
        requires
            old(self).wf(),
        ensures
            final(self).wf(),
            (final(self)@, r) == spec_simulate_match_order(
                old(self)@,
                amount_in,
                amount_out_min,
                token_in,
                token_out,
                nonce,
            ),
    {
        let addr = settlement_address(nonce);
        proof {
            lemma_keyed_map_contains(self.settlements@, settlement_key_fn(), addr);
        }
        match self.find_settlement(addr) {
            None => Err(ErrorCode::SettlementNotFound),
            Some(i) => {
                let ghost pre = *self;
                let rec = SettlementRequest {
                    amount_in,
                    min_out: amount_out_min,
                    token_in,
                    token_out,
                    nonce,
                    active: true,
                };
                self.settlements.set(i, rec);
                proof {
                    let o = SwapOrder { amount_in, amount_out_min, token_in, token_out, nonce };
                    assert(rec == activated_settlement(o));
                    lemma_keyed_map_update(pre.settlements@, settlement_key_fn(), i as int, rec);
                    assert(self@ =~= spec_simulate_match_order(
                        pre@,
                        amount_in,
                        amount_out_min,
                        token_in,
                        token_out,
                        nonce,
                    ).0);
                }
                Ok(
                    OrderSettledEvent {
                        amount_in,
                        min_out: amount_out_min,
                        token_in,
                        token_out,
                        nonce,
                    },
                )
            },
        }
    }

    /// One-shot funding of a custody wallet, fused with the submission step
    /// so the two cannot be observed out of order. `balance` is the custody
    /// sub-account balance as the runtime observes it inside this same
    /// transaction. Funding succeeds exactly when the wallet exists, its
    /// escrow is open, it was never funded before, and the balance covers
    /// the order's input amount; the wallet is then marked funded once and
    /// for all, the settlement record is brought into existence (inactive)
    /// at the address derived from the wallet's nonce, and the wallet's
    /// stored ciphertexts go out to the service under the given ticket.
    pub fn fund_and_place_order(
        &mut self,
        user: u64,
        nonce: u64,
        balance: u64,
        computation_offset: u64,
    ) -> (r: Result<QueuedComputation, ErrorCode>)
        requires
            old(self).wf(),
        ensures
            final(self).wf(),
            (final(self)@, r) == spec_fund_and_place_order(
                old(self)@,
                user,
                nonce,
                balance,
                computation_offset,
            ),
    {
        proof {
            lemma_keyed_map_contains(self.wallets@, wallet_key_fn(), wallet_address(user, nonce));
        }
        match self.find_wallet(user, nonce) {
            None => Err(ErrorCode::OrderNotFound),
            Some(i) => {
                proof {
                    lemma_keyed_map_index(self.wallets@, wallet_key_fn(), i as int);
                }
                let w = self.wallets[i];
                if !w.active {
                    Err(ErrorCode::SettlementNotActive)
                } else if w.is_funded {
                    Err(ErrorCode::AlreadyFunded)
                } else if balance < w.amount_in {
                    Err(ErrorCode::InsufficientFunds)
                } else {
                    let ghost pre = *self;
                    let mut w2 = w;
                    w2.is_funded = true;
                    self.wallets.set(i, w2);
                    proof {
                        lemma_keyed_map_update(pre.wallets@, wallet_key_fn(), i as int, w2);
                    }
                    let ghost mid = *self;
                    self.ensure_settlement(w.nonce);
                    proof {
                        assert(mid@.wallets == pre@.wallets.insert(
                            wallet_address(user, nonce),
                            TempWallet { is_funded: true, ..w },
                        ));
                        assert(self@ =~= spec_fund_and_place_order(
                            pre@,
                            user,
                            nonce,
                            balance,
                            computation_offset,
                        ).0);
                    }
                    Ok(
                        QueuedComputation {
                            ticket: computation_offset,
                            encrypted_amount_in: w.encrypted_amount_in,
                            encrypted_amount_out_min: w.encrypted_amount_out_min,
                            encrypted_token_in: w.encrypted_token_in,
                            encrypted_token_out: w.encrypted_token_out,
                            encrypted_nonce: w.encrypted_nonce,
                        },
                    )
                }
            },
        }
    }
}

impl Dex {
    /// Reads the token mapping at the address derived from `id`, as anyone
    /// can off the ledger.
    pub fn get_token_mapping(&self, id: u64) -> (r: Option<TokenMapping>)
        requires
            self.wf(),
        ensures
            match r {
                Some(m) => self@.tokens.contains_key(id) && m == self@.tokens[id],
                None => !self@.tokens.contains_key(id),
            },
    {
        proof {
            lemma_keyed_map_contains(self.tokens@, token_key_fn(), id);
        }
        match self.find_token(id) {
            None => None,
            Some(i) => {
                proof {
                    lemma_keyed_map_index(self.tokens@, token_key_fn(), i as int);
                }
                Some(self.tokens[i])
            },
        }
    }

    /// Reads the custody wallet at the address derived from `(user, nonce)`,
    /// as anyone can off the ledger.
    pub fn get_wallet(&self, user: u64, nonce: u64) -> (r: Option<TempWallet>)
        requires
            self.wf(),
        ensures
            match r {
                Some(w) => self@.wallets.contains_key(wallet_address(user, nonce)) && w
                    == self@.wallets[wallet_address(user, nonce)],
                None => !self@.wallets.contains_key(wallet_address(user, nonce)),
            },
    {
        proof {
            lemma_keyed_map_contains(self.wallets@, wallet_key_fn(), wallet_address(user, nonce));
        }
        match self.find_wallet(user, nonce) {
            None => None,
            Some(i) => {
                proof {
                    lemma_keyed_map_index(self.wallets@, wallet_key_fn(), i as int);
                }
                Some(self.wallets[i])
            },
        }
    }

    /// Reads the settlement record at the address derived from `nonce`, as
    /// anyone can off the ledger.
    pub fn get_settlement(&self, nonce: u64) -> (r: Option<SettlementRequest>)
        requires
            self.wf(),
        ensures
            match r {
                Some(rec) => self@.settlements.contains_key(spec_settlement_address(nonce)) && rec
                    == self@.settlements[spec_settlement_address(nonce)],
                None => !self@.settlements.contains_key(spec_settlement_address(nonce)),
            },
    {
        let addr = settlement_address(nonce);
        proof {
            lemma_keyed_map_contains(self.settlements@, settlement_key_fn(), addr);
        }
        match self.find_settlement(addr) {
            None => None,
            Some(i) => {
                proof {
                    lemma_keyed_map_index(self.settlements@, settlement_key_fn(), i as int);
                }
                Some(self.settlements[i])
            },
        }
    }
}

/// The deterministic settlement address for a nonce, as executable code:
/// the key every settlement record of this ledger model is filed under.
pub fn settlement_address(nonce: u64) -> (r: u64)
    ensures
        r == spec_settlement_address(nonce),
{
    nonce
}

} // verus!
